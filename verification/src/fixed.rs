//! The fixed-point numeric system used throughout the crate.
//!
//! Lengths and positions are `i64` values carrying [`FP`] sub-units per
//! drawing unit. Angles are `i64` values in binary angle units, [`TURN`]
//! units per full turn, so reduction modulo a full turn is exact.
//! Division and remainder helpers mirror Rust's truncating `/` on signed
//! values, stated over the spec-level Euclidean operators.

use vstd::prelude::*;

verus! {

/// Sub-units per drawing unit: all lengths and positions are scaled by this.
pub const FP: i64 = 1_000_000;

/// Sub-units per unit for the tiny anchor ratios of a galaxy, which are far
/// smaller than one drawing unit and need a much finer scale.
pub const FINE: i64 = 1_000_000_000_000_000;

/// Binary angle units in one full turn.
pub const TURN: i64 = 0x1_0000_0000;

/// Binary angle units in a quarter turn.
pub const QUARTER: i64 = 0x4000_0000;

/// Truncating division (the meaning of `/` on signed machine integers),
/// stated over the Euclidean `/` of specifications.
pub open spec fn div_trunc(a: int, b: int) -> int {
    if a >= 0 {
        a / b
    } else {
        -((-a) / b)
    }
}

/// A truncated quotient is bounded by the quotient of a bound on the
/// dividend's magnitude.
pub proof fn lemma_div_trunc_bound(a: int, b: int, m: int)
    requires
        b > 0,
        0 <= m,
        -m <= a <= m,
    ensures
        -(m / b) <= div_trunc(a, b) <= m / b,
{
    if a >= 0 {
        vstd::arithmetic::div_mod::lemma_div_pos_is_pos(a, b);
        vstd::arithmetic::div_mod::lemma_div_is_ordered(a, m, b);
    } else {
        vstd::arithmetic::div_mod::lemma_div_pos_is_pos(-a, b);
        vstd::arithmetic::div_mod::lemma_div_is_ordered(-a, m, b);
    }
    vstd::arithmetic::div_mod::lemma_div_pos_is_pos(m, b);
}

/// Truncating division of an `i64` by a positive divisor.
pub fn div_trunc_i64(a: i64, b: i64) -> (r: i64)
    requires
        a > i64::MIN,
        b > 0,
    ensures
        r == div_trunc(a as int, b as int),
        a >= 0 ==> 0 <= r <= a,
        a < 0 ==> a <= r <= 0,
{
    if a >= 0 {
        let q: u64 = (a as u64) / (b as u64);
        assert(q == a as int / b as int) by {
            assert((a as u64) as int == a as int);
        }
        q as i64
    } else {
        let m: i64 = -a;
        let q: u64 = (m as u64) / (b as u64);
        assert(q == m as int / b as int);
        assert(0 <= q <= m) by {
            vstd::arithmetic::div_mod::lemma_div_nonincreasing(m as int, b as int);
        }
        -(q as i64)
    }
}

/// Truncating division of an `i128` by a positive divisor.
pub fn div_trunc_i128(a: i128, b: i128) -> (r: i128)
    requires
        a > i128::MIN,
        b > 0,
    ensures
        r == div_trunc(a as int, b as int),
        a >= 0 ==> 0 <= r <= a,
        a < 0 ==> a <= r <= 0,
{
    if a >= 0 {
        let q: u128 = (a as u128) / (b as u128);
        assert(q == a as int / b as int) by {
            assert((a as u128) as int == a as int);
        }
        q as i128
    } else {
        let m: i128 = -a;
        let q: u128 = (m as u128) / (b as u128);
        assert(q == m as int / b as int);
        assert(0 <= q <= m) by {
            vstd::arithmetic::div_mod::lemma_div_nonincreasing(m as int, b as int);
        }
        -(q as i128)
    }
}

/// Truncating division for a divisor of either sign.
pub open spec fn div_trunc_signed(a: int, b: int) -> int {
    if b > 0 {
        div_trunc(a, b)
    } else {
        -div_trunc(a, -b)
    }
}

/// Truncating division of an `i128` by a non-zero divisor of either sign.
pub fn div_trunc_i128_signed(a: i128, b: i128) -> (r: i128)
    requires
        a > i128::MIN,
        b > i128::MIN,
        b != 0,
    ensures
        r == div_trunc_signed(a as int, b as int),
        -absolute(a as int) <= r <= absolute(a as int),
{
    if b > 0 {
        div_trunc_i128(a, b)
    } else {
        -div_trunc_i128(a, -b)
    }
}

/// The magnitude of an integer.
pub open spec fn absolute(a: int) -> int {
    if a >= 0 {
        a
    } else {
        -a
    }
}

/// Both factors bounded in magnitude bound the product in magnitude.
pub proof fn lemma_mul_bound(a: int, b: int, ab: int, bb: int)
    requires
        -ab <= a <= ab,
        -bb <= b <= bb,
        0 <= ab,
        0 <= bb,
    ensures
        -(ab * bb) <= a * b <= ab * bb,
{
    assert(-(ab * bb) <= a * b && a * b <= ab * bb) by (nonlinear_arith)
        requires
            -ab <= a <= ab,
            -bb <= b <= bb,
            0 <= ab,
            0 <= bb,
    {
    }
}

/// Euclidean remainder of an `i128` modulo a full turn, as a value in
/// `[0, TURN)`; this is what makes the binary angle scale wrap exactly.
pub fn mod_turn_i128(a: i128) -> (r: i64)
    requires
        a > i128::MIN,
    ensures
        r == a as int % (TURN as int),
        0 <= r < TURN,
{
    proof {
        vstd::arithmetic::div_mod::lemma_mod_bound(a as int, TURN as int);
    }
    if a >= 0 {
        let m: u128 = (a as u128) % (TURN as u128);
        assert(m == a as int % (TURN as int)) by {
            assert((a as u128) as int == a as int);
        }
        m as i64
    } else {
        let k: i128 = -a;
        let m: u128 = (k as u128) % (TURN as u128);
        assert(m == k as int % (TURN as int));
        if m == 0 {
            assert(a as int % (TURN as int) == 0) by {
                vstd::arithmetic::div_mod::lemma_fundamental_div_mod(k as int, TURN as int);
                let q = k as int / TURN as int;
                assert(a as int == (-q) * TURN) by {
                    assert(k as int == q * TURN + 0);
                    assert((-q) * TURN == -(q * TURN)) by (nonlinear_arith);
                }
                vstd::arithmetic::div_mod::lemma_mod_multiples_basic(-q, TURN as int);
            }
            0
        } else {
            let r: i64 = (TURN as u128 - m) as i64;
            assert(r == a as int % (TURN as int)) by {
                vstd::arithmetic::div_mod::lemma_fundamental_div_mod(k as int, TURN as int);
                let q = k as int / TURN as int;
                assert(k as int == q * TURN + m);
                assert(a as int == (-q - 1) * TURN + (TURN - m)) by {
                    assert((-q - 1) * TURN == -(q * TURN) - TURN) by (nonlinear_arith);
                }
                vstd::arithmetic::div_mod::lemma_fundamental_div_mod_converse(
                    a as int, TURN as int, -q - 1, TURN - m);
            }
            r
        }
    }
}

} // verus!
