use desktop_beauty::fractal::{calc_mandelbrot, mandelbrot};
use desktop_beauty::fixed::FP;
use desktop_beauty::DrawError;

#[test]
fn tiny_field_matches_reference_buffer() {
    // 2x2, budget 10: the two corner-most pixels escape almost at once,
    // while the pixels on the plane axes sit on the escape boundary and
    // spend the whole budget.
    let mut pixels: Vec<u32> = vec![0; 4];
    calc_mandelbrot(2, 2, 10, &mut pixels).unwrap();
    assert_eq!(pixels, vec![0x010101, 0x020202, 0x0A0A0A, 0x0A0A0A]);
}

#[test]
fn center_pixel_spends_full_budget() {
    // Even dimensions put one pixel exactly on the plane origin, which
    // never escapes.
    for max_iter in [1u32, 7, 63, 300] {
        let mut pixels: Vec<u32> = vec![0; 16];
        calc_mandelbrot(4, 4, max_iter, &mut pixels).unwrap();
        let band = max_iter % 256;
        assert_eq!(pixels[2 * 4 + 2], band * 65536 + band * 256 + band);
    }
}

#[test]
fn generator_is_deterministic() {
    let mut a: Vec<u32> = vec![0; 64 * 48];
    let mut b: Vec<u32> = vec![0xDEADBEEF; 64 * 48];
    calc_mandelbrot(64, 48, 25, &mut a).unwrap();
    calc_mandelbrot(64, 48, 25, &mut b).unwrap();
    assert_eq!(a, b);
}

#[test]
fn every_slot_is_written() {
    let mut pixels: Vec<u32> = vec![0xFFFFFFFF; 9];
    calc_mandelbrot(3, 3, 4, &mut pixels).unwrap();
    for p in pixels {
        // Every slot was overwritten with a packed grayscale band.
        assert!(p <= 0xFFFFFF);
        let r = p & 0xFF;
        assert_eq!(p, r * 65536 + r * 256 + r);
    }
}

#[test]
fn wrong_buffer_size_is_invalid_parameter() {
    let mut pixels: Vec<u32> = vec![7; 3];
    assert_eq!(calc_mandelbrot(2, 2, 10, &mut pixels), Err(DrawError::InvalidParameter));
    assert_eq!(pixels, vec![7, 7, 7]);
}

#[test]
fn zero_parameters_are_invalid() {
    let mut pixels: Vec<u32> = Vec::new();
    assert_eq!(calc_mandelbrot(0, 2, 10, &mut pixels), Err(DrawError::InvalidParameter));
    assert_eq!(calc_mandelbrot(2, 0, 10, &mut pixels), Err(DrawError::InvalidParameter));
    assert_eq!(calc_mandelbrot(2, 2, 0, &mut pixels), Err(DrawError::InvalidParameter));
}

#[test]
fn escape_counts_at_plane_points() {
    // The origin never escapes.
    assert_eq!(mandelbrot(0, 0, 5), 5);
    // The far corner escapes on the first check after one step.
    assert_eq!(mandelbrot(-2 * FP, -2 * FP, 10), 1);
    // A point on the boundary circle survives one more step.
    assert_eq!(mandelbrot(0, -2 * FP, 10), 2);
}
