use desktop_beauty::colors::{interpolate_colors, interpolate_floats, random_color, RGB};
use desktop_beauty::DrawError;

fn packed(r: u32, g: u32, b: u32) -> u32 {
    r + 256 * g + 65536 * b
}

#[test]
fn rgb_new_fields() {
    let c: RGB<u8> = RGB::new(1, 2, 3);
    assert_eq!(c.r, 1);
    assert_eq!(c.g, 2);
    assert_eq!(c.b, 3);
}

#[test]
fn interpolate_at_stop_boundary_returns_stop_exactly() {
    // Three stops; weight 1/2 sits exactly on stop 1 of 0..2.
    let stops = vec![RGB::new(0u8, 0, 0), RGB::new(10, 20, 30), RGB::new(255, 255, 255)];
    let got = interpolate_colors(&stops, 1, 2).unwrap();
    assert_eq!(got, packed(10, 20, 30));
}

#[test]
fn interpolate_at_zero_weight_returns_first_stop() {
    let stops = vec![RGB::new(7u8, 8, 9), RGB::new(200, 100, 50)];
    let got = interpolate_colors(&stops, 0, 17).unwrap();
    assert_eq!(got, packed(7, 8, 9));
}

#[test]
fn interpolate_blends_within_segment() {
    // Two stops, weight 1/4: each channel is a quarter of the way up.
    let stops = vec![RGB::new(0u8, 0, 0), RGB::new(100, 200, 40)];
    let got = interpolate_colors(&stops, 1, 4).unwrap();
    assert_eq!(got, packed(25, 50, 10));
}

#[test]
fn interpolate_channels_stay_between_stops() {
    let stops = vec![RGB::new(10u8, 240, 5), RGB::new(90, 20, 5)];
    for num in 0..97u32 {
        let got = interpolate_colors(&stops, num, 97).unwrap();
        let r = got & 0xFF;
        let g = (got >> 8) & 0xFF;
        let b = (got >> 16) & 0xFF;
        assert!((10..=90).contains(&r));
        assert!((20..=240).contains(&g));
        assert_eq!(b, 5);
    }
}

#[test]
fn interpolate_single_stop_is_invalid_parameter() {
    let stops = vec![RGB::new(1u8, 2, 3)];
    assert_eq!(interpolate_colors(&stops, 1, 2), Err(DrawError::InvalidParameter));
}

#[test]
fn interpolate_empty_is_invalid_parameter() {
    let stops: Vec<RGB<u8>> = Vec::new();
    assert_eq!(interpolate_colors(&stops, 1, 2), Err(DrawError::InvalidParameter));
}

#[test]
fn interpolate_weight_one_is_out_of_range() {
    let stops = vec![RGB::new(0u8, 0, 0), RGB::new(255, 255, 255)];
    assert_eq!(interpolate_colors(&stops, 5, 5), Err(DrawError::OutOfRange));
    assert_eq!(interpolate_colors(&stops, 7, 5), Err(DrawError::OutOfRange));
}

#[test]
fn interpolate_zero_denominator_is_out_of_range() {
    let stops = vec![RGB::new(0u8, 0, 0), RGB::new(255, 255, 255)];
    assert_eq!(interpolate_colors(&stops, 0, 0), Err(DrawError::OutOfRange));
}

#[test]
fn interpolate_floats_at_stop_boundary() {
    let stops: Vec<i64> = vec![-1_000_000, 500_000, 2_000_000];
    assert_eq!(interpolate_floats(&stops, 1, 2).unwrap(), 500_000);
    assert_eq!(interpolate_floats(&stops, 0, 9).unwrap(), -1_000_000);
}

#[test]
fn interpolate_floats_blends_signed_values() {
    // Halfway through the first of two segments over [-100, 100, 0].
    let stops: Vec<i64> = vec![-100, 100, 0];
    // weight 1/4 scaled over 2 segments: position 1/2 into segment 0.
    assert_eq!(interpolate_floats(&stops, 1, 4).unwrap(), 0);
    // weight 1/8: a quarter into segment 0: -100 + 200/4 = -50.
    assert_eq!(interpolate_floats(&stops, 1, 8).unwrap(), -50);
}

#[test]
fn interpolate_floats_rejects_bad_inputs() {
    let one: Vec<i64> = vec![5];
    assert_eq!(interpolate_floats(&one, 1, 2), Err(DrawError::InvalidParameter));
    let two: Vec<i64> = vec![5, 6];
    assert_eq!(interpolate_floats(&two, 3, 3), Err(DrawError::OutOfRange));
}

#[test]
fn random_color_fits_24_bits() {
    for _ in 0..64 {
        assert!(random_color() <= 0xFFFFFF);
    }
}
