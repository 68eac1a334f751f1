//! The colour model: fixed-width RGB triples, weight-based interpolation over
//! an ordered palette of stops, and a random packed colour.
//!
//! An interpolation weight is an exact rational `num / den` in `[0, 1)`, so
//! a weight that falls exactly on a stop reproduces that stop with no
//! blending drift. Packed colours put the red channel in the low byte, as
//! the host colour references do.

use vstd::prelude::*;
use crate::DrawError;
use crate::fixed::div_trunc;

verus! {

/// Three same-typed channel values; the caller-supplied component type
/// determines the range.
#[derive(Clone, Copy, Debug, PartialEq, Eq, Structural)]
pub struct RGB<ComponentType> {
    /// Red
    pub r: ComponentType,
    /// Green
    pub g: ComponentType,
    /// Blue
    pub b: ComponentType,
}

impl<T> RGB<T> {
    /// Build a triple from its three channels.
    pub fn new(r: T, g: T, b: T) -> (c: Self)
        ensures
            c == (RGB { r, g, b }),
    {
        Self { r, g, b }
    }
}

/// A packed colour value: red in the low byte, then green, then blue.
pub open spec fn colorref(r: int, g: int, b: int) -> int {
    r + 256 * g + 65536 * b
}

/// `x` lies (inclusively) between `a` and `b`, whichever order they are in.
pub open spec fn between(x: int, a: int, b: int) -> bool {
    if a <= b {
        a <= x <= b
    } else {
        b <= x <= a
    }
}

/// Linear blend of two non-negative channel values at intra-segment
/// position `rem / den`, truncated to an integer.
pub open spec fn blend(a: int, b: int, rem: int, den: int) -> int {
    (a * (den - rem) + b * rem) / den
}

/// Linear blend of two signed scalar values at intra-segment position
/// `rem / den`, truncated toward zero as machine division does.
pub open spec fn blend_signed(a: int, b: int, rem: int, den: int) -> int {
    div_trunc(a * (den - rem) + b * rem, den)
}

/// Which pair of stops encloses weight `num / den`: the index of the lower
/// stop of the enclosing segment, over `len` evenly spaced stops.
pub open spec fn stop_index(len: int, num: int, den: int) -> int {
    (num * (len - 1)) / den
}

/// The position inside the enclosing segment, as a numerator over `den`.
pub open spec fn stop_rem(len: int, num: int, den: int) -> int {
    (num * (len - 1)) % den
}

/// The packed colour that interpolating the stop sequence `s` at weight
/// `num / den` produces.
pub open spec fn spec_interpolate_colors(s: Seq<RGB<u8>>, num: int, den: int) -> int {
    let i = stop_index(s.len() as int, num, den);
    let rem = stop_rem(s.len() as int, num, den);
    colorref(
        blend(s[i].r as int, s[i + 1].r as int, rem, den),
        blend(s[i].g as int, s[i + 1].g as int, rem, den),
        blend(s[i].b as int, s[i + 1].b as int, rem, den),
    )
}

/// The scalar that interpolating the stop sequence `s` at weight
/// `num / den` produces.
pub open spec fn spec_interpolate_floats(s: Seq<i64>, num: int, den: int) -> int {
    let i = stop_index(s.len() as int, num, den);
    let rem = stop_rem(s.len() as int, num, den);
    blend_signed(s[i] as int, s[i + 1] as int, rem, den)
}

/// A weight `num / den` lies in the valid domain `[0, 1)`.
pub open spec fn weight_in_domain(num: int, den: int) -> bool {
    den > 0 && 0 <= num < den
}

/// The enclosing segment of a weight in `[0, 1)` is a real segment: its
/// lower stop index leaves room for the upper stop.
pub proof fn lemma_stop_index_in_range(len: int, num: int, den: int)
    requires
        len >= 2,
        weight_in_domain(num, den),
    ensures
        0 <= stop_index(len, num, den) < len - 1,
        0 <= stop_rem(len, num, den) < den,
{
    let pos = num * (len - 1);
    assert(0 <= pos && pos < den * (len - 1)) by (nonlinear_arith)
        requires
            pos == num * (len - 1),
            len >= 2,
            den > 0,
            0 <= num < den,
    {
    }
    vstd::arithmetic::div_mod::lemma_div_pos_is_pos(pos, den);
    vstd::arithmetic::div_mod::lemma_mod_bound(pos, den);
    assert(pos / den < len - 1) by {
        vstd::arithmetic::div_mod::lemma_multiply_divide_lt(pos, den, len - 1);
    }
}

/// A blend of two channel values never overshoots: it lies between them.
pub proof fn lemma_blend_between(a: int, b: int, rem: int, den: int)
    requires
        0 <= a,
        0 <= b,
        den > 0,
        0 <= rem < den,
    ensures
        between(blend(a, b, rem, den), a, b),
{
    let lo = if a <= b { a } else { b };
    let hi = if a <= b { b } else { a };
    let v = a * (den - rem) + b * rem;
    assert(lo * den <= v && v <= hi * den) by (nonlinear_arith)
        requires
            v == a * (den - rem) + b * rem,
            0 <= rem < den,
            lo <= a <= hi,
            lo <= b <= hi,
            0 <= lo,
    {
    }
    assert(lo <= v / den) by {
        vstd::arithmetic::div_mod::lemma_div_by_multiple(lo, den);
        vstd::arithmetic::div_mod::lemma_div_is_ordered(lo * den, v, den);
    }
    assert(v / den <= hi) by {
        vstd::arithmetic::div_mod::lemma_div_by_multiple(hi, den);
        vstd::arithmetic::div_mod::lemma_div_is_ordered(v, hi * den, den);
    }
}

/// Blending at the very start of a segment returns the lower stop exactly.
pub proof fn lemma_blend_at_stop(a: int, b: int, den: int)
    requires
        den > 0,
    ensures
        blend(a, b, 0, den) == a,
        blend_signed(a, b, 0, den) == a,
{
    assert(a * (den - 0) + b * 0 == a * den) by (nonlinear_arith);
    if a >= 0 {
        vstd::arithmetic::div_mod::lemma_div_by_multiple(a, den);
    } else {
        assert((-a) * den == -(a * den) && den * a == a * den) by (nonlinear_arith);
        vstd::arithmetic::div_mod::lemma_div_by_multiple(-a, den);
        vstd::arithmetic::div_mod::lemma_div_multiples_vanish(a, den);
    }
}

/// A weight exactly at stop boundary `k / (len - 1)` selects stop `k` with
/// no intra-segment remainder.
pub proof fn lemma_weight_at_boundary(len: int, num: int, den: int, k: int)
    requires
        len >= 2,
        weight_in_domain(num, den),
        num * (len - 1) == k * den,
    ensures
        stop_index(len, num, den) == k,
        stop_rem(len, num, den) == 0,
{
    assert(k >= 0) by (nonlinear_arith)
        requires
            k * den == num * (len - 1),
            0 <= num,
            len >= 2,
            den > 0,
    {
    }
    vstd::arithmetic::div_mod::lemma_div_by_multiple(k, den);
    vstd::arithmetic::div_mod::lemma_mod_multiples_basic(k, den);
}

/// Interpolating a colour sequence at a weight exactly on stop boundary
/// `k / (len - 1)` returns the packed value of stop `k`, with no blending
/// drift.
pub proof fn lemma_interpolate_colors_at_stop(s: Seq<RGB<u8>>, num: int, den: int, k: int)
    requires
        s.len() >= 2,
        weight_in_domain(num, den),
        num * (s.len() - 1) == k * den,
    ensures
        spec_interpolate_colors(s, num, den)
            == colorref(s[k].r as int, s[k].g as int, s[k].b as int),
{
    lemma_weight_at_boundary(s.len() as int, num, den, k);
    lemma_blend_at_stop(s[k].r as int, s[k + 1].r as int, den);
    lemma_blend_at_stop(s[k].g as int, s[k + 1].g as int, den);
    lemma_blend_at_stop(s[k].b as int, s[k + 1].b as int, den);
}

/// Interpolating a scalar sequence at a weight exactly on stop boundary
/// `k / (len - 1)` returns stop `k` exactly.
pub proof fn lemma_interpolate_floats_at_stop(s: Seq<i64>, num: int, den: int, k: int)
    requires
        s.len() >= 2,
        weight_in_domain(num, den),
        num * (s.len() - 1) == k * den,
    ensures
        spec_interpolate_floats(s, num, den) == s[k],
{
    lemma_weight_at_boundary(s.len() as int, num, den, k);
    lemma_blend_at_stop(s[k] as int, s[k + 1] as int, den);
}

/// Every channel of the interpolated colour lies between the corresponding
/// channels of the two enclosing stops: the blend is monotonic, with no
/// overshoot.
pub proof fn lemma_interpolate_colors_between(s: Seq<RGB<u8>>, num: int, den: int)
    requires
        s.len() >= 2,
        weight_in_domain(num, den),
    ensures
        ({
            let i = stop_index(s.len() as int, num, den);
            let rem = stop_rem(s.len() as int, num, den);
            between(blend(s[i].r as int, s[i + 1].r as int, rem, den), s[i].r as int, s[i + 1].r as int)
            && between(blend(s[i].g as int, s[i + 1].g as int, rem, den), s[i].g as int, s[i + 1].g as int)
            && between(blend(s[i].b as int, s[i + 1].b as int, rem, den), s[i].b as int, s[i + 1].b as int)
        }),
{
    let i = stop_index(s.len() as int, num, den);
    let rem = stop_rem(s.len() as int, num, den);
    lemma_stop_index_in_range(s.len() as int, num, den);
    lemma_blend_between(s[i].r as int, s[i + 1].r as int, rem, den);
    lemma_blend_between(s[i].g as int, s[i + 1].g as int, rem, den);
    lemma_blend_between(s[i].b as int, s[i + 1].b as int, rem, den);
}

/// The product of a weight numerator and a stop count fits the wide
/// machine integer it is computed in.
proof fn lemma_weight_scale_fits(num: int, steps: int)
    requires
        0 <= num < 0x1_0000_0000,
        0 <= steps < 0x1_0000_0000_0000_0000,
    ensures
        0 <= num * steps < 0x1_0000_0000_0000_0000_0000_0000,
{
    assert(0 <= num * steps && num * steps < 0x1_0000_0000_0000_0000_0000_0000) by (nonlinear_arith)
        requires
            0 <= num < 0x1_0000_0000,
            0 <= steps < 0x1_0000_0000_0000_0000,
    {
    }
}

/// One channel's worth of blending, in machine arithmetic.
fn blend_channel(a: u8, b: u8, rem: u64, den: u64) -> (c: u8)
    requires
        0 < den <= u32::MAX as u64,
        rem < den,
    ensures
        c == blend(a as int, b as int, rem as int, den as int),
{
    proof {
        lemma_blend_between(a as int, b as int, rem as int, den as int);
        assert(a as int * ((den - rem) as int) <= 255 * 0x1_0000_0000
            && b as int * (rem as int) <= 255 * 0x1_0000_0000) by (nonlinear_arith)
            requires
                a as int <= 255,
                b as int <= 255,
                0 <= (rem as int),
                (rem as int) < (den as int),
                (den as int) <= 0x1_0000_0000,
        {
        }
    }
    let v: u64 = (a as u64) * (den - rem) + (b as u64) * rem;
    (v / den) as u8
}

/// Treats `colors` as evenly spaced stops over `[0, 1]` and linearly blends
/// the pair enclosing the weight `weight_num / weight_den`, channel by
/// channel, into a packed colour.
///
/// Fails with `InvalidParameter` when fewer than two stops are supplied,
/// and with `OutOfRange` when the weight lies outside `[0, 1)`.
pub fn interpolate_colors(colors: &[RGB<u8>], weight_num: u32, weight_den: u32)
    -> (res: Result<u32, DrawError>)
    ensures
        colors@.len() < 2 <==> res == Err::<u32, DrawError>(DrawError::InvalidParameter),
        (colors@.len() >= 2 && !weight_in_domain(weight_num as int, weight_den as int))
            <==> res == Err::<u32, DrawError>(DrawError::OutOfRange),
        res matches Ok(c) ==> c as int
            == spec_interpolate_colors(colors@, weight_num as int, weight_den as int),
        res is Ok <==> (colors@.len() >= 2
            && weight_in_domain(weight_num as int, weight_den as int)),
{
    let n: usize = colors.len();
    if n < 2 {
        return Err(DrawError::InvalidParameter);
    }
    if weight_den == 0 || weight_num >= weight_den {
        return Err(DrawError::OutOfRange);
    }
    proof {
        lemma_stop_index_in_range(n as int, weight_num as int, weight_den as int);
        lemma_weight_scale_fits(weight_num as int, (n - 1) as int);
    }
    let pos: u128 = (weight_num as u128) * ((n - 1) as u128);
    let index1: usize = (pos / (weight_den as u128)) as usize;
    let rem: u64 = (pos % (weight_den as u128)) as u64;
    let c1: RGB<u8> = colors[index1];
    let c2: RGB<u8> = colors[index1 + 1];
    let r: u8 = blend_channel(c1.r, c2.r, rem, weight_den as u64);
    let g: u8 = blend_channel(c1.g, c2.g, rem, weight_den as u64);
    let b: u8 = blend_channel(c1.b, c2.b, rem, weight_den as u64);
    Ok((r as u32) + 256 * (g as u32) + 65536 * (b as u32))
}

/// The scalar twin of [`interpolate_colors`]: the same stop selection and
/// linear blend, over signed fixed-point scalars instead of colour triples.
pub fn interpolate_floats(floats: &[i64], weight_num: u32, weight_den: u32)
    -> (res: Result<i64, DrawError>)
    ensures
        floats@.len() < 2 <==> res == Err::<i64, DrawError>(DrawError::InvalidParameter),
        (floats@.len() >= 2 && !weight_in_domain(weight_num as int, weight_den as int))
            <==> res == Err::<i64, DrawError>(DrawError::OutOfRange),
        res matches Ok(v) ==> v as int
            == spec_interpolate_floats(floats@, weight_num as int, weight_den as int),
        res is Ok <==> (floats@.len() >= 2
            && weight_in_domain(weight_num as int, weight_den as int)),
{
    let n: usize = floats.len();
    if n < 2 {
        return Err(DrawError::InvalidParameter);
    }
    if weight_den == 0 || weight_num >= weight_den {
        return Err(DrawError::OutOfRange);
    }
    proof {
        lemma_stop_index_in_range(n as int, weight_num as int, weight_den as int);
        lemma_weight_scale_fits(weight_num as int, (n - 1) as int);
    }
    let pos: u128 = (weight_num as u128) * ((n - 1) as u128);
    let index1: usize = (pos / (weight_den as u128)) as usize;
    let rem: i128 = (pos % (weight_den as u128)) as i128;
    let v1: i64 = floats[index1];
    let v2: i64 = floats[index1 + 1];
    let den: i128 = weight_den as i128;
    proof {
        lemma_blend_products_fit(v1 as int, v2 as int, rem as int, den as int);
    }
    let v: i128 = (v1 as i128) * (den - rem) + (v2 as i128) * rem;
    proof {
        lemma_blend_signed_bounds(v1 as int, v2 as int, rem as int, den as int);
    }
    let q: i128 = crate::fixed::div_trunc_i128(v, den);
    Ok(q as i64)
}

/// The two partial products of a signed blend fit the wide machine integer
/// they are computed in.
proof fn lemma_blend_products_fit(a: int, b: int, rem: int, den: int)
    requires
        -0x8000_0000_0000_0000 <= a < 0x8000_0000_0000_0000,
        -0x8000_0000_0000_0000 <= b < 0x8000_0000_0000_0000,
        0 <= rem < den <= 0x1_0000_0000,
    ensures
        -0x8000_0000_0000_0000_0000_0000 <= a * (den - rem) <= 0x8000_0000_0000_0000_0000_0000,
        -0x8000_0000_0000_0000_0000_0000 <= b * rem <= 0x8000_0000_0000_0000_0000_0000,
{
    assert(-0x8000_0000_0000_0000_0000_0000 <= a * (den - rem)
        && a * (den - rem) <= 0x8000_0000_0000_0000_0000_0000
        && -0x8000_0000_0000_0000_0000_0000 <= b * rem
        && b * rem <= 0x8000_0000_0000_0000_0000_0000) by (nonlinear_arith)
        requires
            -0x8000_0000_0000_0000 <= a < 0x8000_0000_0000_0000,
            -0x8000_0000_0000_0000 <= b < 0x8000_0000_0000_0000,
            0 <= rem < den <= 0x1_0000_0000,
    {
    }
}

/// A signed blend stays between its endpoints, so it fits wherever they do.
pub proof fn lemma_blend_signed_bounds(a: int, b: int, rem: int, den: int)
    requires
        den > 0,
        0 <= rem < den,
    ensures
        between(blend_signed(a, b, rem, den), a, b),
{
    let lo = if a <= b { a } else { b };
    let hi = if a <= b { b } else { a };
    let v = a * (den - rem) + b * rem;
    assert(lo * den <= v && v <= hi * den) by (nonlinear_arith)
        requires
            v == a * (den - rem) + b * rem,
            0 <= rem < den,
            lo <= a <= hi,
            lo <= b <= hi,
    {
    }
    let q = blend_signed(a, b, rem, den);
    if v >= 0 {
        assert(q == v / den);
        assert(q <= hi) by {
            if hi >= 0 {
                vstd::arithmetic::div_mod::lemma_div_by_multiple(hi, den);
                vstd::arithmetic::div_mod::lemma_div_is_ordered(v, hi * den, den);
            } else {
                assert(hi * den < 0) by (nonlinear_arith) requires hi < 0, den > 0 {}
            }
        }
        assert(lo <= q) by {
            if lo >= 0 {
                vstd::arithmetic::div_mod::lemma_div_by_multiple(lo, den);
                vstd::arithmetic::div_mod::lemma_div_is_ordered(lo * den, v, den);
            } else {
                vstd::arithmetic::div_mod::lemma_div_pos_is_pos(v, den);
            }
        }
    } else {
        assert(q == -((-v) / den));
        assert(lo < 0) by (nonlinear_arith) requires lo * den <= v, v < 0, den > 0 {}
        assert(lo <= q) by {
            assert((-v) <= (-lo) * den) by (nonlinear_arith) requires lo * den <= v {}
            vstd::arithmetic::div_mod::lemma_div_by_multiple(-lo, den);
            vstd::arithmetic::div_mod::lemma_div_is_ordered(-v, (-lo) * den, den);
        }
        assert(q <= hi) by {
            if hi >= 0 {
                vstd::arithmetic::div_mod::lemma_div_pos_is_pos(-v, den);
            } else {
                assert((-hi) * den <= -v) by (nonlinear_arith) requires v <= hi * den {}
                vstd::arithmetic::div_mod::lemma_div_by_multiple(-hi, den);
                vstd::arithmetic::div_mod::lemma_div_is_ordered((-hi) * den, -v, den);
            }
        }
    }
}

pub assume_specification<T>[ rand::random::<T> ]() -> (r: T)
    where
        rand::distr::StandardUniform: rand::distr::Distribution<T>,
;

/// A uniformly random packed colour. Relies on `rand::random` for the three
/// channel samples; nothing is promised of their values, so the contract
/// only fixes the packed range.
pub fn random_color() -> (c: u32)
    ensures
        c <= 0xFFFFFF,
{
    let r: u8 = rand::random::<u8>();
    let g: u8 = rand::random::<u8>();
    let b: u8 = rand::random::<u8>();
    (r as u32) + 256 * (g as u32) + 65536 * (b as u32)
}

} // verus!
