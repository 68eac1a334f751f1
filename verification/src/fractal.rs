//! The fractal pixel-field generator: a per-pixel escape-iteration count for
//! the standard quadratic map, taken in the crate's fixed-point system, and
//! mapped to a grayscale banded palette.
//!
//! Each pixel maps to a plane coordinate centred on the origin with a span
//! of four units across each dimension; the escape function `z <- z*z + c`
//! runs from `z = 0` until the squared magnitude exceeds four units or the
//! iteration budget is spent. Every slot of the output buffer is written
//! exactly once, and the buffer is a pure function of the three size
//! parameters, so two runs with identical inputs agree byte for byte.

use vstd::prelude::*;
use crate::DrawError;
use crate::fixed::{FP, div_trunc, div_trunc_i64};

verus! {

/// The plane coordinate of pixel `coord` along a dimension of `dim` pixels:
/// `(coord - dim/2) * 4 / dim`, in `FP`-scaled units.
pub open spec fn pixel_coord(coord: int, dim: int) -> int {
    div_trunc((2 * coord - dim) * (2 * (FP as int)), dim)
}

/// Iteration count of the escape function from state `(zx, zy)` with the
/// given fuel: how many steps run before the squared magnitude exceeds four
/// units or the fuel is exhausted.
pub open spec fn mandel_count(zx: int, zy: int, cx: int, cy: int, fuel: nat) -> nat
    decreases fuel,
{
    if fuel == 0 {
        0
    } else if zx * zx + zy * zy > 4 * (FP as int) * (FP as int) {
        0
    } else {
        1 + mandel_count(
            div_trunc(zx * zx - zy * zy, FP as int) + cx,
            div_trunc(2 * zx * zy, FP as int) + cy,
            cx,
            cy,
            (fuel - 1) as nat,
        )
    }
}

/// Iteration count of the escape function started at the origin.
pub open spec fn escape_count(cx: int, cy: int, max_iter: nat) -> nat {
    mandel_count(0, 0, cx, cy, max_iter)
}

/// A grayscale packed pixel: the same band value in all three channels.
pub open spec fn gray(v: int) -> int {
    v * 65536 + v * 256 + v
}

/// The packed colour of pixel `(x, y)` in a `width` by `height` field with
/// the given iteration budget.
pub open spec fn spec_pixel(width: int, height: int, max_iter: nat, x: int, y: int) -> int {
    gray(escape_count(pixel_coord(x, width), pixel_coord(y, height), max_iter) as int % 256)
}

/// Escape-iteration count for the plane point `(cx, cy)`, in `FP`-scaled
/// units, with at most `max_iter` steps.
pub fn mandelbrot(cx: i64, cy: i64, max_iter: u32) -> (count: u32)
    requires
        -2 * FP <= cx <= 2 * FP,
        -2 * FP <= cy <= 2 * FP,
    ensures
        count == escape_count(cx as int, cy as int, max_iter as nat),
{
    let limit: i64 = 4 * FP * FP;
    let mut zx: i64 = 0;
    let mut zy: i64 = 0;
    let mut i: u32 = 0;
    let mut sq: i64 = 0;
    while sq <= limit && i < max_iter
        invariant
            limit == 4 * (FP as int) * (FP as int),
            -2 * FP <= cx <= 2 * FP,
            -2 * FP <= cy <= 2 * FP,
            -6 * FP <= zx <= 6 * FP,
            -10 * FP <= zy <= 10 * FP,
            sq == zx * zx + zy * zy,
            i <= max_iter,
            escape_count(cx as int, cy as int, max_iter as nat)
                == i + mandel_count(zx as int, zy as int, cx as int, cy as int,
                    (max_iter - i) as nat),
        decreases max_iter - i,
    {
        proof {
            lemma_square_bounds(zx as int, zy as int);
        }
        let sq_diff: i64 = zx * zx - zy * zy;
        let cross: i64 = 2 * zx * zy;
        proof {
            crate::fixed::lemma_div_trunc_bound(sq_diff as int, FP as int, 4 * (FP as int) * (FP as int));
            crate::fixed::lemma_div_trunc_bound(cross as int, FP as int, 8 * (FP as int) * (FP as int));
            vstd::arithmetic::div_mod::lemma_div_by_multiple(4 * (FP as int), FP as int);
            vstd::arithmetic::div_mod::lemma_div_by_multiple(8 * (FP as int), FP as int);
        }
        let xt: i64 = div_trunc_i64(sq_diff, FP) + cx;
        zy = div_trunc_i64(cross, FP) + cy;
        zx = xt;
        i = i + 1;
        proof {
            lemma_next_square_fits(zx as int, zy as int);
        }
        sq = zx * zx + zy * zy;
    }
    i
}

/// The squares of a bounded state fit comfortably in the working integer.
proof fn lemma_next_square_fits(zx: int, zy: int)
    requires
        -6 * (FP as int) <= zx <= 6 * (FP as int),
        -10 * (FP as int) <= zy <= 10 * (FP as int),
    ensures
        0 <= zx * zx <= 36 * (FP as int) * (FP as int),
        0 <= zy * zy <= 100 * (FP as int) * (FP as int),
{
    assert(0 <= zx * zx && zx * zx <= 36 * (FP as int) * (FP as int)
        && 0 <= zy * zy && zy * zy <= 100 * (FP as int) * (FP as int)) by (nonlinear_arith)
        requires
            -6 * (FP as int) <= zx <= 6 * (FP as int),
            -10 * (FP as int) <= zy <= 10 * (FP as int),
    {
    }
}

/// While the squared magnitude is within the escape bound, the next state's
/// building blocks stay within fixed ranges.
proof fn lemma_square_bounds(zx: int, zy: int)
    requires
        -6 * (FP as int) <= zx <= 6 * (FP as int),
        -10 * (FP as int) <= zy <= 10 * (FP as int),
        zx * zx + zy * zy <= 4 * (FP as int) * (FP as int),
    ensures
        0 <= zx * zx <= 4 * (FP as int) * (FP as int),
        0 <= zy * zy <= 4 * (FP as int) * (FP as int),
        -4 * (FP as int) * (FP as int) <= zx * zx - zy * zy <= 4 * (FP as int) * (FP as int),
        -8 * (FP as int) * (FP as int) <= 2 * zx * zy <= 8 * (FP as int) * (FP as int),
{
    assert(0 <= zx * zx && 0 <= zy * zy
        && (zx * zx + zy * zy <= 4 * (FP as int) * (FP as int)
            ==> -8 * (FP as int) * (FP as int) <= 2 * zx * zy
                && 2 * zx * zy <= 8 * (FP as int) * (FP as int))) by (nonlinear_arith)
        requires
            -6 * (FP as int) <= zx <= 6 * (FP as int),
            -10 * (FP as int) <= zy <= 10 * (FP as int),
    {
    }
}

/// The plane coordinate of a pixel inside its dimension, executable form.
fn pixel_coord_exec(coord: usize, dim: usize) -> (c: i64)
    requires
        0 < dim,
        coord < dim,
    ensures
        c == pixel_coord(coord as int, dim as int),
        -2 * FP <= c <= 2 * FP,
{
    proof {
        lemma_pixel_coord_bounds(coord as int, dim as int);
    }
    let c2: u128 = 2 * (coord as u128);
    let d: u128 = dim as u128;
    if c2 >= d {
        proof {
            lemma_coord_product_fits((c2 - d) as int, d as int);
        }
        let num: u128 = (c2 - d) * (2 * (FP as u128));
        let q: u128 = num / d;
        assert(q == ((2 * (coord as int) - dim) * (2 * (FP as int))) / (dim as int));
        q as i64
    } else {
        proof {
            lemma_coord_product_fits((d - c2) as int, d as int);
        }
        let num: u128 = (d - c2) * (2 * (FP as u128));
        let q: u128 = num / d;
        assert(q == ((dim - 2 * (coord as int)) * (2 * (FP as int))) / (dim as int));
        assert(-(q as int) == pixel_coord(coord as int, dim as int)) by {
            assert((dim - 2 * (coord as int)) * (2 * (FP as int))
                == -((2 * (coord as int) - dim) * (2 * (FP as int)))) by (nonlinear_arith);
        }
        -(q as i64)
    }
}

/// A pixel offset times the plane span fits the wide machine integer, and
/// the resulting quotient is at most two units.
proof fn lemma_coord_product_fits(off: int, dim: int)
    requires
        0 < dim < 0x2_0000_0000_0000_0000,
        0 <= off <= dim,
    ensures
        0 <= off * (2 * (FP as int)) <= dim * (2 * (FP as int)),
        off * (2 * (FP as int)) < 0x1_0000_0000_0000_0000_0000_0000,
        (off * (2 * (FP as int))) / dim <= 2 * (FP as int),
{
    assert(0 <= off * (2 * (FP as int)) && off * (2 * (FP as int)) <= dim * (2 * (FP as int))
        && off * (2 * (FP as int)) < 0x1_0000_0000_0000_0000_0000_0000)
        by (nonlinear_arith)
        requires
            0 < dim < 0x2_0000_0000_0000_0000,
            0 <= off <= dim,
    {
    }
    vstd::arithmetic::div_mod::lemma_div_is_ordered(
        off * (2 * (FP as int)), dim * (2 * (FP as int)), dim);
    vstd::arithmetic::div_mod::lemma_div_multiples_vanish(2 * (FP as int), dim);
}

/// The plane coordinate of every in-range pixel is at most two units from
/// the origin.
pub proof fn lemma_pixel_coord_bounds(coord: int, dim: int)
    requires
        0 < dim,
        0 <= coord < dim,
    ensures
        -2 * (FP as int) <= pixel_coord(coord, dim) <= 2 * (FP as int),
{
    let n = (2 * coord - dim) * (2 * (FP as int));
    assert(-(dim * (2 * (FP as int))) <= n && n <= dim * (2 * (FP as int))) by (nonlinear_arith)
        requires
            n == (2 * coord - dim) * (2 * (FP as int)),
            0 < dim,
            0 <= coord < dim,
    {
    }
    if n >= 0 {
        vstd::arithmetic::div_mod::lemma_div_is_ordered(n, dim * (2 * (FP as int)), dim);
        vstd::arithmetic::div_mod::lemma_div_multiples_vanish(2 * (FP as int), dim);
        vstd::arithmetic::div_mod::lemma_div_pos_is_pos(n, dim);
    } else {
        vstd::arithmetic::div_mod::lemma_div_is_ordered(-n, dim * (2 * (FP as int)), dim);
        vstd::arithmetic::div_mod::lemma_div_multiples_vanish(2 * (FP as int), dim);
        vstd::arithmetic::div_mod::lemma_div_pos_is_pos(-n, dim);
    }
}

/// Fills the pre-sized buffer with the fractal field: for every pixel the
/// plane coordinate is computed, the escape count taken, and the count
/// modulo 256 replicated into all three channels of a packed value.
///
/// Fails with `InvalidParameter`, leaving the buffer untouched, when a size
/// parameter is zero or the buffer is not exactly `width * height` long.
pub fn calc_mandelbrot(width: usize, height: usize, max_iter: u32, pixels: &mut Vec<u32>)
    -> (res: Result<(), DrawError>)
    ensures
        res is Ok <==> (width > 0 && height > 0 && max_iter > 0
            && old(pixels)@.len() == width * height),
        res is Err ==> *final(pixels) == *old(pixels)
            && res == Err::<(), DrawError>(DrawError::InvalidParameter),
        res is Ok ==> final(pixels)@.len() == width * height
            && forall|k: int| 0 <= k < width * height
                ==> final(pixels)@[k]
                    == spec_pixel(width as int, height as int, max_iter as nat,
                        k % (width as int), k / (width as int)),
{
    if width == 0 || height == 0 || max_iter == 0 {
        return Err(DrawError::InvalidParameter);
    }
    let l: usize = pixels.len();
    let w128: u128 = width as u128;
    let h128: u128 = height as u128;
    proof {
        assert((width as int) * (height as int) < 0x1_0000_0000_0000_0000_0000_0000_0000_0000)
            by (nonlinear_arith)
            requires
                (width as int) < 0x1_0000_0000_0000_0000,
                (height as int) < 0x1_0000_0000_0000_0000,
        {
        }
    }
    if (l as u128) != w128 * h128 {
        return Err(DrawError::InvalidParameter);
    }
    assert(width * height <= usize::MAX);
    let mut y: usize = 0;
    while y < height
        invariant
            0 < width,
            0 < height,
            0 < max_iter,
            y <= height,
            width * height <= usize::MAX,
            pixels@.len() == width * height,
            forall|k: int| 0 <= k < y * width
                ==> pixels@[k]
                    == spec_pixel(width as int, height as int, max_iter as nat,
                        k % (width as int), k / (width as int)),
        decreases height - y,
    {
        let mut x: usize = 0;
        proof {
            lemma_row_extent(width as int, height as int, y as int);
        }
        while x < width
            invariant
                0 < width,
                0 < height,
                0 < max_iter,
                y < height,
                x <= width,
                width * height <= usize::MAX,
                pixels@.len() == width * height,
                y * width + width <= width * height,
                forall|k: int| 0 <= k < y * width + x
                    ==> pixels@[k]
                        == spec_pixel(width as int, height as int, max_iter as nat,
                            k % (width as int), k / (width as int)),
            decreases width - x,
        {
            let cx: i64 = pixel_coord_exec(x, width);
            let cy: i64 = pixel_coord_exec(y, height);
            let count: u32 = mandelbrot(cx, cy, max_iter);
            let band: u32 = count % 256;
            let color: u32 = band * 65536 + band * 256 + band;
            let idx: usize = y * width + x;
            pixels.set(idx, color);
            proof {
                vstd::arithmetic::div_mod::lemma_fundamental_div_mod_converse(
                    idx as int, width as int, y as int, x as int);
                assert(color == spec_pixel(width as int, height as int, max_iter as nat,
                    idx as int % (width as int), idx as int / (width as int)));
            }
            x = x + 1;
        }
        proof {
            assert((y + 1) * width == y * width + width) by (nonlinear_arith);
        }
        y = y + 1;
    }
    proof {
        assert(height * width == width * height) by (nonlinear_arith);
    }
    Ok(())
}

/// A full row of pixels ends within the buffer.
proof fn lemma_row_extent(width: int, height: int, y: int)
    requires
        0 < width,
        0 <= y < height,
    ensures
        y * width + width <= width * height,
        0 <= y * width,
{
    assert(y * width + width <= width * height && 0 <= y * width) by (nonlinear_arith)
        requires
            0 < width,
            0 <= y < height,
    {
    }
}

/// The orbit of the plane origin never escapes: with `c = 0` the state stays
/// at the origin and the full iteration budget is spent.
pub proof fn lemma_zero_orbit(fuel: nat)
    ensures
        mandel_count(0, 0, 0, 0, fuel) == fuel,
    decreases fuel,
{
    if fuel > 0 {
        assert(div_trunc(0, FP as int) == 0) by {
            vstd::arithmetic::div_mod::lemma_div_of0(FP as int);
        }
        lemma_zero_orbit((fuel - 1) as nat);
    }
}

/// The exact centre of an even-sized field maps to the plane origin, which
/// is a bounded point: its pixel always records the full iteration budget.
pub proof fn lemma_center_pixel(width: int, height: int, max_iter: nat)
    requires
        width >= 2,
        height >= 2,
        width % 2 == 0,
        height % 2 == 0,
        max_iter >= 1,
    ensures
        pixel_coord(width / 2, width) == 0,
        pixel_coord(height / 2, height) == 0,
        escape_count(0, 0, max_iter) == max_iter,
        spec_pixel(width, height, max_iter, width / 2, height / 2)
            == gray(max_iter as int % 256),
{
    assert(2 * (width / 2) - width == 0);
    assert(2 * (height / 2) - height == 0);
    assert(pixel_coord(width / 2, width) == 0) by {
        assert((2 * (width / 2) - width) * (2 * (FP as int)) == 0) by (nonlinear_arith)
            requires 2 * (width / 2) - width == 0,
        {
        }
        vstd::arithmetic::div_mod::lemma_div_of0(width);
    }
    assert(pixel_coord(height / 2, height) == 0) by {
        assert((2 * (height / 2) - height) * (2 * (FP as int)) == 0) by (nonlinear_arith)
            requires 2 * (height / 2) - height == 0,
        {
        }
        vstd::arithmetic::div_mod::lemma_div_of0(height);
    }
    lemma_zero_orbit(max_iter);
}

/// The field is deterministic: any two buffers that satisfy the generator's
/// contract for the same parameters are equal, slot for slot.
pub proof fn lemma_generate_deterministic(a: Seq<u32>, b: Seq<u32>, width: int, height: int,
    max_iter: nat)
    requires
        a.len() == width * height,
        b.len() == width * height,
        forall|k: int| 0 <= k < width * height
            ==> a[k] == spec_pixel(width, height, max_iter, k % width, k / width),
        forall|k: int| 0 <= k < width * height
            ==> b[k] == spec_pixel(width, height, max_iter, k % width, k / width),
    ensures
        a == b,
{
    assert(a =~= b);
}

} // verus!
