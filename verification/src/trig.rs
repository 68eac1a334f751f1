//! Sine and cosine over binary angle units, in the crate's fixed-point
//! system: inputs are angles with [`TURN`] units per full turn, results are
//! scaled by [`FP`]. A full turn reduces exactly, so an angle that is a
//! whole number of turns has sine exactly `0` and cosine exactly `FP`.
//! Within a quarter turn the wave is the parabola `t * (2*FP - t) / FP`,
//! extended to the other quadrants by the usual symmetries.

use vstd::prelude::*;
use crate::fixed::{FP, TURN, QUARTER, mod_turn_i128};

verus! {

/// The rising quarter of the wave on `t in [0, FP]`, from `0` up to `FP`.
pub open spec fn quarter_wave(t: int) -> int {
    (t * (2 * (FP as int) - t)) / (FP as int)
}

/// Sine of an angle in binary angle units, scaled by `FP`.
pub open spec fn spec_sin(a: int) -> int {
    let m = a % (TURN as int);
    let q = m / (QUARTER as int);
    let r = m % (QUARTER as int);
    let t = (r * (FP as int)) / (QUARTER as int);
    if q == 0 {
        quarter_wave(t)
    } else if q == 1 {
        quarter_wave(FP - t)
    } else if q == 2 {
        -quarter_wave(t)
    } else {
        -quarter_wave(FP - t)
    }
}

/// Cosine of an angle in binary angle units, scaled by `FP`.
pub open spec fn spec_cos(a: int) -> int {
    spec_sin(a + QUARTER)
}

/// The quarter wave stays within `[0, FP]` on its domain.
pub proof fn lemma_quarter_wave_bounds(t: int)
    requires
        0 <= t <= FP,
    ensures
        0 <= quarter_wave(t) <= FP,
{
    let n = t * (2 * (FP as int) - t);
    assert(0 <= n && n <= (FP as int) * (FP as int)) by (nonlinear_arith)
        requires
            n == t * (2 * (FP as int) - t),
            0 <= t <= FP as int,
    {
    }
    assert(n / (FP as int) <= FP) by {
        vstd::arithmetic::div_mod::lemma_div_is_ordered(n, (FP as int) * (FP as int), FP as int);
        vstd::arithmetic::div_mod::lemma_div_by_multiple(FP as int, FP as int);
    }
    assert(n / (FP as int) >= 0) by {
        vstd::arithmetic::div_mod::lemma_div_pos_is_pos(n, FP as int);
    }
}

/// Sine is bounded by one unit in each direction, for every angle.
pub proof fn lemma_sin_bounds(a: int)
    ensures
        -FP <= spec_sin(a) <= FP,
{
    let m = a % (TURN as int);
    vstd::arithmetic::div_mod::lemma_mod_bound(a, TURN as int);
    let r = m % (QUARTER as int);
    vstd::arithmetic::div_mod::lemma_mod_bound(m, QUARTER as int);
    let t = (r * (FP as int)) / (QUARTER as int);
    lemma_scale_to_unit(r);
    lemma_quarter_wave_bounds(t);
    lemma_quarter_wave_bounds(FP - t);
}

/// Mapping a sub-quadrant offset onto `[0, FP]` stays in range.
proof fn lemma_scale_to_unit(r: int)
    requires
        0 <= r < QUARTER,
    ensures
        0 <= (r * (FP as int)) / (QUARTER as int) <= FP,
{
    let p = r * (FP as int);
    assert(0 <= p && p <= (FP as int) * (QUARTER as int)) by (nonlinear_arith)
        requires
            p == r * (FP as int),
            0 <= r < QUARTER as int,
    {
    }
    vstd::arithmetic::div_mod::lemma_div_pos_is_pos(p, QUARTER as int);
    vstd::arithmetic::div_mod::lemma_div_is_ordered(
        p, (FP as int) * (QUARTER as int), QUARTER as int);
    vstd::arithmetic::div_mod::lemma_div_by_multiple(FP as int, QUARTER as int);
}

/// Sine and cosine see only the angle's remainder in one turn: reducing
/// first changes nothing.
pub proof fn lemma_trig_mod(a: int)
    ensures
        spec_sin(a % (TURN as int)) == spec_sin(a),
        spec_cos(a % (TURN as int)) == spec_cos(a),
{
    vstd::arithmetic::div_mod::lemma_mod_twice(a, TURN as int);
    vstd::arithmetic::div_mod::lemma_small_mod(QUARTER as nat, TURN as nat);
    vstd::arithmetic::div_mod::lemma_add_mod_noop(a, QUARTER as int, TURN as int);
    vstd::arithmetic::div_mod::lemma_mod_bound(a, TURN as int);
    vstd::arithmetic::div_mod::lemma_add_mod_noop(a % (TURN as int), QUARTER as int, TURN as int);
}

/// The rising quarter of the wave, executable form.
fn quarter_wave_exec(t: u64) -> (r: u64)
    requires
        t <= FP,
    ensures
        r == quarter_wave(t as int),
        r <= FP,
{
    proof {
        lemma_quarter_wave_bounds(t as int);
    }
    let n: u64 = t * (2 * (FP as u64) - t);
    n / (FP as u64)
}

/// Sine of an already-reduced angle `m in [0, TURN)`.
fn sin_reduced(m: i64) -> (r: i64)
    requires
        0 <= m < TURN,
    ensures
        r == spec_sin(m as int),
        -FP <= r <= FP,
{
    proof {
        vstd::arithmetic::div_mod::lemma_small_mod(m as nat, TURN as nat);
        lemma_sin_bounds(m as int);
    }
    let mu: u64 = m as u64;
    let q: u64 = mu / (QUARTER as u64);
    let rr: u64 = mu % (QUARTER as u64);
    proof {
        lemma_scale_to_unit(rr as int);
        assert(rr as int * (FP as int) <= (QUARTER as int) * (FP as int)) by (nonlinear_arith)
            requires 0 <= rr as int <= QUARTER as int,
        {
        }
    }
    let t: u64 = (rr * (FP as u64)) / (QUARTER as u64);
    if q == 0 {
        quarter_wave_exec(t) as i64
    } else if q == 1 {
        quarter_wave_exec((FP as u64) - t) as i64
    } else if q == 2 {
        -(quarter_wave_exec(t) as i64)
    } else {
        -(quarter_wave_exec((FP as u64) - t) as i64)
    }
}

/// Sine of an angle in binary angle units, scaled by `FP`.
pub fn sin_fp(a: i64) -> (r: i64)
    ensures
        r == spec_sin(a as int),
        -FP <= r <= FP,
{
    let m: i64 = mod_turn_i128(a as i128);
    proof {
        vstd::arithmetic::div_mod::lemma_mod_twice(a as int, TURN as int);
    }
    sin_reduced(m)
}

/// Cosine of an angle in binary angle units, scaled by `FP`.
pub fn cos_fp(a: i64) -> (r: i64)
    ensures
        r == spec_cos(a as int),
        -FP <= r <= FP,
{
    let m: i64 = mod_turn_i128(a as i128 + QUARTER as i128);
    proof {
        vstd::arithmetic::div_mod::lemma_mod_twice(a as int + QUARTER as int, TURN as int);
    }
    sin_reduced(m)
}

} // verus!
