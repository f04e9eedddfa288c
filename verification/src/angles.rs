//! Angle arithmetic in micro-degrees.
//!
//! Headings and bearings are measured in degrees clockwise from true north
//! and stored as micro-degrees, so one full turn is `360_000_000`.

use vstd::prelude::*;
use vstd::arithmetic::div_mod::{
    lemma_fundamental_div_mod, lemma_fundamental_div_mod_converse, lemma_mod_bound,
};

verus! {

/// One full turn in micro-degrees.
pub const FULL_TURN_UDEG: i64 = 360_000_000;

/// Half a turn in micro-degrees.
pub const HALF_TURN_UDEG: i64 = 180_000_000;

/// Euclidean remainder of `a` by a positive modulus `m`; the result is the
/// mathematical `a mod m` and lies in `[0, m)` whatever the sign of `a`.
pub fn euclid_mod_i64(a: i64, m: i64) -> (r: i64)
    requires
        0 < m,
    ensures
        r == a as int % (m as int),
        0 <= r < m,
{
    let mu: u128 = m as u128;
    let half: u128 = 0x8000_0000_0000_0000;
    proof {
        lemma_fundamental_div_mod((half + mu - 1) as int, mu as int);
        lemma_mod_bound((half + mu - 1) as int, mu as int);
    }
    let q: u128 = (half + (mu - 1)) / mu;
    // s is a multiple of m with half <= s <= half + m - 1, so it dominates
    // every negative i64 and shifting by it cannot change the remainder.
    let s: u128 = q * mu;
    proof {
        assert((mu as int) * (q as int) == (q as int) * (mu as int)) by (nonlinear_arith);
    }
    let t: u128 = ((a as i128) + (s as i128)) as u128;
    let r0: u128 = t % mu;
    proof {
        lemma_fundamental_div_mod(t as int, mu as int);
        lemma_mod_bound(t as int, mu as int);
        let qt = t as int / mu as int;
        let qs = q as int;
        assert((mu as int) * qt - (mu as int) * qs == (mu as int) * (qt - qs))
            by (nonlinear_arith);
        assert((qt - qs) * (mu as int) == (mu as int) * (qt - qs)) by (nonlinear_arith);
        lemma_fundamental_div_mod_converse(a as int, mu as int, qt - qs, r0 as int);
    }
    r0 as i64
}

/// Normalize an angle to `[0°, 360°)`, in micro-degrees.
pub fn normalize_angle_udeg(a: i64) -> (r: i64)
    ensures
        r == a as int % 360_000_000int,
        0 <= r < 360_000_000,
{
    euclid_mod_i64(a, FULL_TURN_UDEG)
}

/// The representative of an angle in the signed range `(-180°, 180°]`,
/// in micro-degrees.
pub open spec fn signed_half_turn(a: int) -> int {
    let r = a % 360_000_000int;
    if r > 180_000_000 {
        r - 360_000_000
    } else {
        r
    }
}

/// Map an angle to the signed range `(-180°, 180°]`, in micro-degrees.
pub fn to_signed_half_turn(a: i64) -> (r: i64)
    ensures
        r == signed_half_turn(a as int),
        -180_000_000 < r <= 180_000_000,
{
    let r0 = euclid_mod_i64(a, FULL_TURN_UDEG);
    if r0 > HALF_TURN_UDEG {
        r0 - FULL_TURN_UDEG
    } else {
        r0
    }
}

} // verus!
