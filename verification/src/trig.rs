//! Fixed-point trigonometry on nano-radians.
//!
//! An angle of `x` nano-radians stands for the real angle `x / 10^9` rad,
//! and a value of `v` stands for the real number `v / 10^9`.  The sine and
//! cosine are computed by a Horner evaluation of their Taylor polynomials
//! after reduction into a quarter turn, the inverse sine by bisection over
//! the sine, and the square root by binary search.  Every function is
//! specified exactly against a spec-level model of the same fixed-point
//! computation.

use vstd::prelude::*;
use vstd::arithmetic::div_mod::{lemma_div_is_ordered, lemma_div_nonincreasing, lemma_div_pos_is_pos, lemma_mod_bound};

use crate::angles::euclid_mod_i64;

verus! {

/// The fixed-point scale: the integer that stands for the real number one.
pub const SCALE: u64 = 1_000_000_000;

/// A quarter turn (pi / 2) in nano-radians.
pub const HALF_PI_NANO: u64 = 1_570_796_327;

/// Half a turn (pi) in nano-radians, exactly twice `HALF_PI_NANO`.
pub const PI_NANO: u64 = 3_141_592_654;

/// A full turn (2 pi) in nano-radians, exactly four times `HALF_PI_NANO`.
pub const TWO_PI_NANO: i64 = 6_283_185_308;

/// One Horner step `1 - (z/d) * p` of a Taylor evaluation, at the fixed-point
/// scale and clamped at zero from below.
pub open spec fn spec_poly_step(z: int, p: int, d: int) -> int {
    let q = (z * p) / (d * 1_000_000_000);
    if q >= 1_000_000_000 {
        0
    } else {
        1_000_000_000 - q
    }
}

fn poly_step(z: u64, p: u64, d: u64) -> (r: u64)
    requires
        z <= 3_000_000_000,
        p <= 1_000_000_000,
        1 <= d <= 300,
    ensures
        r as int == spec_poly_step(z as int, p as int, d as int),
        r <= 1_000_000_000,
{
    proof {
        assert(z * p <= 3_000_000_000u64 * 1_000_000_000u64) by (nonlinear_arith)
            requires
                z <= 3_000_000_000,
                p <= 1_000_000_000,
        ;
    }
    let q: u64 = (z * p) / (d * 1_000_000_000);
    if q >= 1_000_000_000 {
        0
    } else {
        1_000_000_000 - q
    }
}

/// The fixed-point sine of an angle in `[0, pi/2]`, by the Taylor polynomial
/// of degree 15, clamped into `[0, 1]`.
pub open spec fn spec_sin_quarter(x: int) -> int {
    let z = (x * x) / 1_000_000_000;
    let p6 = spec_poly_step(z, 1_000_000_000, 210);
    let p5 = spec_poly_step(z, p6, 156);
    let p4 = spec_poly_step(z, p5, 110);
    let p3 = spec_poly_step(z, p4, 72);
    let p2 = spec_poly_step(z, p3, 42);
    let p1 = spec_poly_step(z, p2, 20);
    let p0 = spec_poly_step(z, p1, 6);
    let s = (x * p0) / 1_000_000_000;
    if s > 1_000_000_000 {
        1_000_000_000
    } else {
        s
    }
}

/// The fixed-point cosine of an angle in `[0, pi/2]`, by the Taylor
/// polynomial of degree 14, clamped into `[0, 1]`.
pub open spec fn spec_cos_quarter(x: int) -> int {
    let z = (x * x) / 1_000_000_000;
    let q6 = spec_poly_step(z, 1_000_000_000, 182);
    let q5 = spec_poly_step(z, q6, 132);
    let q4 = spec_poly_step(z, q5, 90);
    let q3 = spec_poly_step(z, q4, 56);
    let q2 = spec_poly_step(z, q3, 30);
    let q1 = spec_poly_step(z, q2, 12);
    spec_poly_step(z, q1, 2)
}

fn sin_quarter(x: u64) -> (r: u64)
    requires
        x <= 1_570_796_327,
    ensures
        r as int == spec_sin_quarter(x as int),
        r <= 1_000_000_000,
{
    proof {
        assert(x * x <= 1_570_796_327u64 * 1_570_796_327u64) by (nonlinear_arith)
            requires
                x <= 1_570_796_327,
        ;
    }
    let z: u64 = (x * x) / 1_000_000_000;
    let p6 = poly_step(z, 1_000_000_000, 210);
    let p5 = poly_step(z, p6, 156);
    let p4 = poly_step(z, p5, 110);
    let p3 = poly_step(z, p4, 72);
    let p2 = poly_step(z, p3, 42);
    let p1 = poly_step(z, p2, 20);
    let p0 = poly_step(z, p1, 6);
    proof {
        assert(x * p0 <= 1_570_796_327u64 * 1_000_000_000u64) by (nonlinear_arith)
            requires
                x <= 1_570_796_327,
                p0 <= 1_000_000_000,
        ;
    }
    let s: u64 = (x * p0) / 1_000_000_000;
    if s > 1_000_000_000 {
        1_000_000_000
    } else {
        s
    }
}

fn cos_quarter(x: u64) -> (r: u64)
    requires
        x <= 1_570_796_327,
    ensures
        r as int == spec_cos_quarter(x as int),
        r <= 1_000_000_000,
{
    proof {
        assert(x * x <= 1_570_796_327u64 * 1_570_796_327u64) by (nonlinear_arith)
            requires
                x <= 1_570_796_327,
        ;
    }
    let z: u64 = (x * x) / 1_000_000_000;
    let q6 = poly_step(z, 1_000_000_000, 182);
    let q5 = poly_step(z, q6, 132);
    let q4 = poly_step(z, q5, 90);
    let q3 = poly_step(z, q4, 56);
    let q2 = poly_step(z, q3, 30);
    let q1 = poly_step(z, q2, 12);
    poly_step(z, q1, 2)
}

/// The fixed-point sine of any angle in nano-radians, by reduction into a
/// quarter turn.
pub open spec fn spec_sin_nano(t: int) -> int {
    let m = t % 6_283_185_308int;
    let q = m / 1_570_796_327int;
    let u = m % 1_570_796_327int;
    if q == 0 {
        spec_sin_quarter(u)
    } else if q == 1 {
        spec_cos_quarter(u)
    } else if q == 2 {
        -spec_sin_quarter(u)
    } else {
        -spec_cos_quarter(u)
    }
}

/// The fixed-point cosine of any angle in nano-radians.
pub open spec fn spec_cos_nano(t: int) -> int {
    let m = t % 6_283_185_308int;
    let q = m / 1_570_796_327int;
    let u = m % 1_570_796_327int;
    if q == 0 {
        spec_cos_quarter(u)
    } else if q == 1 {
        -spec_sin_quarter(u)
    } else if q == 2 {
        -spec_cos_quarter(u)
    } else {
        spec_sin_quarter(u)
    }
}

pub fn sin_nano(t: i64) -> (r: i64)
    ensures
        r as int == spec_sin_nano(t as int),
        -1_000_000_000 <= r <= 1_000_000_000,
{
    let m: u64 = euclid_mod_i64(t, TWO_PI_NANO) as u64;
    let q: u64 = m / HALF_PI_NANO;
    let u: u64 = m % HALF_PI_NANO;
    proof {
        assert(m / 1_570_796_327u64 <= 3) by (nonlinear_arith)
            requires
                m < 6_283_185_308,
        ;
        lemma_mod_bound(m as int, 1_570_796_327int);
    }
    if q == 0 {
        sin_quarter(u) as i64
    } else if q == 1 {
        cos_quarter(u) as i64
    } else if q == 2 {
        -(sin_quarter(u) as i64)
    } else {
        -(cos_quarter(u) as i64)
    }
}

pub fn cos_nano(t: i64) -> (r: i64)
    ensures
        r as int == spec_cos_nano(t as int),
        -1_000_000_000 <= r <= 1_000_000_000,
{
    let m: u64 = euclid_mod_i64(t, TWO_PI_NANO) as u64;
    let q: u64 = m / HALF_PI_NANO;
    let u: u64 = m % HALF_PI_NANO;
    proof {
        assert(m / 1_570_796_327u64 <= 3) by (nonlinear_arith)
            requires
                m < 6_283_185_308,
        ;
        lemma_mod_bound(m as int, 1_570_796_327int);
    }
    if q == 0 {
        cos_quarter(u) as i64
    } else if q == 1 {
        -(sin_quarter(u) as i64)
    } else if q == 2 {
        -(cos_quarter(u) as i64)
    } else {
        sin_quarter(u) as i64
    }
}

/// The integer square root: the greatest `r` with `r * r <= n`.
pub open spec fn spec_isqrt(n: int) -> int {
    choose|r: int| 0 <= r && #[trigger] (r * r) <= n < (r + 1) * (r + 1)
}

/// Two integers that both square to at most `n` while their successors square
/// to more than `n` are equal, so `spec_isqrt` names the witness uniquely.
pub proof fn lemma_isqrt_unique(r: int, n: int)
    requires
        0 <= r,
        r * r <= n < (r + 1) * (r + 1),
    ensures
        spec_isqrt(n) == r,
{
    assert(0 <= r && r * r <= n < (r + 1) * (r + 1));
    let rp = spec_isqrt(n);
    assert(0 <= rp && rp * rp <= n < (rp + 1) * (rp + 1));
    assert(rp == r) by (nonlinear_arith)
        requires
            0 <= r,
            0 <= rp,
            r * r <= n < (r + 1) * (r + 1),
            rp * rp <= n < (rp + 1) * (rp + 1),
    ;
}

pub fn isqrt_u128(n: u128) -> (r: u64)
    ensures
        r as int == spec_isqrt(n as int),
        (r as int) * (r as int) <= n as int,
        (n as int) < ((r as int) + 1) * ((r as int) + 1),
{
    let mut lo: u128 = 0;
    let mut hi: u128 = 0x1_0000_0000_0000_0000;
    proof {
        assert((n as int) < 0x1_0000_0000_0000_0000int * 0x1_0000_0000_0000_0000int)
            by (nonlinear_arith)
            requires
                n <= u128::MAX,
        ;
    }
    while lo + 1 < hi
        invariant
            lo < hi <= 0x1_0000_0000_0000_0000,
            (lo as int) * (lo as int) <= n as int,
            (n as int) < (hi as int) * (hi as int),
        decreases hi - lo,
    {
        let mid: u128 = lo + (hi - lo) / 2;
        proof {
            assert(mid * mid <= 0xFFFF_FFFF_FFFF_FFFFu128 * 0xFFFF_FFFF_FFFF_FFFFu128)
                by (nonlinear_arith)
                requires
                    mid <= 0xFFFF_FFFF_FFFF_FFFF,
            ;
        }
        if mid * mid <= n {
            lo = mid;
        } else {
            hi = mid;
        }
    }
    proof {
        lemma_isqrt_unique(lo as int, n as int);
    }
    lo as u64
}

/// The state of the inverse-sine bisection after `k` rounds: a bracket
/// `(lo, hi)` within `[0, pi/2]` whose left end has sine at most `v`.
pub open spec fn spec_asin_state(v: int, k: nat) -> (int, int)
    decreases k,
{
    if k == 0 {
        (0int, 1_570_796_327int)
    } else {
        let s = spec_asin_state(v, (k - 1) as nat);
        let mid = (s.0 + s.1) / 2;
        if spec_sin_quarter(mid) <= v {
            (mid, s.1)
        } else {
            (s.0, mid)
        }
    }
}

/// The fixed-point inverse sine of a value in `[0, 1]`, in nano-radians,
/// by 32 rounds of bisection over `spec_sin_quarter`.
pub open spec fn spec_asin(v: int) -> int {
    spec_asin_state(v, 32).0
}

pub fn asin_nano(v: u64) -> (r: u64)
    requires
        v <= 1_000_000_000,
    ensures
        r as int == spec_asin(v as int),
        r <= 1_570_796_327,
{
    let mut lo: u64 = 0;
    let mut hi: u64 = HALF_PI_NANO;
    let mut k: u64 = 0;
    while k < 32
        invariant
            k <= 32,
            v <= 1_000_000_000,
            0 <= lo <= hi <= 1_570_796_327,
            (lo as int, hi as int) == spec_asin_state(v as int, k as nat),
        decreases 32 - k,
    {
        let mid: u64 = (lo + hi) / 2;
        if sin_quarter(mid) <= v {
            lo = mid;
        } else {
            hi = mid;
        }
        k = k + 1;
    }
    lo
}

/// The fixed-point two-argument inverse tangent over a Cartesian pair whose
/// components are at the fixed-point scale, in nano-radians within
/// `[-pi, pi]`.  The angle is measured counterclockwise from the positive
/// `x` axis, with the exact values `0` and `pi` on the `x` axis itself.
pub open spec fn spec_atan2(y: int, x: int) -> int {
    if y == 0 {
        if x >= 0 {
            0
        } else {
            3_141_592_654int
        }
    } else {
        let ay = if y < 0 {
            -y
        } else {
            y
        };
        let h = spec_isqrt(x * x + y * y);
        let v0 = (ay * 1_000_000_000) / h;
        let v = if v0 > 1_000_000_000 {
            1_000_000_000int
        } else {
            v0
        };
        let base = spec_asin(v);
        if x >= 0 {
            if y >= 0 {
                base
            } else {
                -base
            }
        } else {
            if y >= 0 {
                3_141_592_654 - base
            } else {
                -(3_141_592_654 - base)
            }
        }
    }
}

pub fn atan2_nano(y: i64, x: i64) -> (r: i64)
    requires
        i64::MIN < y,
        i64::MIN < x,
    ensures
        r as int == spec_atan2(y as int, x as int),
        -3_141_592_654 <= r <= 3_141_592_654,
{
    if y == 0 {
        if x >= 0 {
            0
        } else {
            PI_NANO as i64
        }
    } else {
        let ay: u64 = if y < 0 {
            (-y) as u64
        } else {
            y as u64
        };
        let ax: u64 = if x < 0 {
            (-x) as u64
        } else {
            x as u64
        };
        proof {
            assert((x as int) * (x as int) == (ax as int) * (ax as int)) by (nonlinear_arith)
                requires
                    ax == if x < 0 {
                        -(x as int)
                    } else {
                        x as int
                    },
            ;
            assert((y as int) * (y as int) == (ay as int) * (ay as int)) by (nonlinear_arith)
                requires
                    ay == if y < 0 {
                        -(y as int)
                    } else {
                        y as int
                    },
            ;
            assert((ax as u128) * (ax as u128) + (ay as u128) * (ay as u128)
                <= 0x8000_0000_0000_0000u128 * 0x8000_0000_0000_0000u128 * 2) by (nonlinear_arith)
                requires
                    ax <= 0x8000_0000_0000_0000u128,
                    ay <= 0x8000_0000_0000_0000u128,
            ;
        }
        let s2: u128 = (ax as u128) * (ax as u128) + (ay as u128) * (ay as u128);
        let h: u64 = isqrt_u128(s2);
        proof {
            assert(ay * ay >= 1) by (nonlinear_arith)
                requires
                    ay >= 1,
            ;
            assert(h >= 1) by (nonlinear_arith)
                requires
                    (h as int) * (h as int) <= s2 as int,
                    (s2 as int) < ((h as int) + 1) * ((h as int) + 1),
                    s2 >= 1,
            ;
        }
        let v0: u128 = ((ay as u128) * 1_000_000_000) / (h as u128);
        let v: u64 = if v0 > 1_000_000_000 {
            1_000_000_000
        } else {
            v0 as u64
        };
        let base: u64 = asin_nano(v);
        if x >= 0 {
            if y >= 0 {
                base as i64
            } else {
                -(base as i64)
            }
        } else {
            if y >= 0 {
                (PI_NANO - base) as i64
            } else {
                -((PI_NANO - base) as i64)
            }
        }
    }
}

/// Conversion from micro-degrees to nano-radians, rounding the magnitude
/// down so that the map is symmetric about zero and carries exact quarter
/// turns to exact quarter turns.
pub open spec fn spec_udeg_to_nanorad(u: int) -> int {
    if u >= 0 {
        (u * 1_570_796_327) / 90_000_000
    } else {
        -(((-u) * 1_570_796_327) / 90_000_000)
    }
}

pub fn udeg_to_nanorad(u: i64) -> (r: i64)
    requires
        -2_400_000_000 <= u <= 2_400_000_000,
    ensures
        r as int == spec_udeg_to_nanorad(u as int),
        -41_887_902_060 <= r <= 41_887_902_060,
{
    let neg = u < 0;
    let mag: u64 = if neg {
        (-u) as u64
    } else {
        u as u64
    };
    proof {
        assert(mag * 1_570_796_327u64 <= 2_400_000_000u64 * 1_570_796_327u64)
            by (nonlinear_arith)
            requires
                mag <= 2_400_000_000,
        ;
        lemma_div_is_ordered(
            (mag * 1_570_796_327u64) as int,
            2_400_000_000u64 as int * 1_570_796_327u64 as int,
            90_000_000int,
        );
    }
    let m: u64 = (mag * 1_570_796_327) / 90_000_000;
    if neg {
        -(m as i64)
    } else {
        m as i64
    }
}

/// Conversion from nano-radians to micro-degrees, rounding the magnitude
/// down, symmetric about zero.
pub open spec fn spec_nanorad_to_udeg(t: int) -> int {
    if t >= 0 {
        (t * 90_000_000) / 1_570_796_327
    } else {
        -(((-t) * 90_000_000) / 1_570_796_327)
    }
}

pub fn nanorad_to_udeg(t: i64) -> (r: i64)
    requires
        -41_887_902_060 <= t <= 41_887_902_060,
    ensures
        r as int == spec_nanorad_to_udeg(t as int),
        -2_400_000_001 <= r <= 2_400_000_001,
{
    let neg = t < 0;
    let mag: u64 = if neg {
        (-t) as u64
    } else {
        t as u64
    };
    proof {
        assert(mag * 90_000_000u64 <= 41_887_902_060u64 * 90_000_000u64) by (nonlinear_arith)
            requires
                mag <= 41_887_902_060,
        ;
        assert((41_887_902_060u64 as int * 90_000_000int) / 1_570_796_327int
            <= 2_400_000_001int);
        lemma_div_is_ordered(
            (mag * 90_000_000u64) as int,
            41_887_902_060u64 as int * 90_000_000int,
            1_570_796_327int,
        );
    }
    let m: u64 = (mag * 90_000_000) / 1_570_796_327;
    if neg {
        -(m as i64)
    } else {
        m as i64
    }
}


/// Truncating division of a (possibly negative) value by a positive divisor:
/// the quotient of the magnitudes, with the sign of the dividend.
pub open spec fn spec_tdiv(a: int, d: int) -> int {
    if a >= 0 {
        a / d
    } else {
        -((-a) / d)
    }
}

pub fn tdiv_i128(a: i128, d: i128) -> (r: i128)
    requires
        i128::MIN < a,
        1 <= d,
    ensures
        r as int == spec_tdiv(a as int, d as int),
        a >= 0 ==> 0 <= r <= a,
        a < 0 ==> a <= r <= 0,
{
    proof {
        if a >= 0 {
            lemma_div_is_ordered(a as int, a as int, d as int);
            lemma_div_pos_is_pos(a as int, d as int);
            lemma_div_nonincreasing(a as int, d as int);
        } else {
            lemma_div_pos_is_pos(-(a as int), d as int);
            lemma_div_nonincreasing(-(a as int), d as int);
        }
    }
    if a >= 0 {
        ((a as u128) / (d as u128)) as i128
    } else {
        -((((-a) as u128) / (d as u128)) as i128)
    }
}

/// The exact product of two machine integers, widened so that it cannot
/// overflow.
pub fn mul_i64(a: i64, b: i64) -> (r: i128)
    ensures
        r as int == (a as int) * (b as int),
{
    proof {
        assert((a as int) * (b as int) <= i128::MAX && i128::MIN <= (a as int) * (b as int))
            by (nonlinear_arith)
            requires
                i64::MIN <= a <= i64::MAX,
                i64::MIN <= b <= i64::MAX,
        ;
    }
    (a as i128) * (b as i128)
}

/// A product of two fixed-point values brought back to the fixed-point
/// scale: `(a * b) / 10^9`, truncated toward zero.
pub open spec fn spec_scale_mul(a: int, b: int) -> int {
    spec_tdiv(a * b, 1_000_000_000)
}

pub fn scale_mul(a: i64, b: i64) -> (r: i64)
    requires
        -3_000_000_000 <= a <= 3_000_000_000,
        -3_000_000_000 <= b <= 3_000_000_000,
    ensures
        r as int == spec_scale_mul(a as int, b as int),
        -9_000_000_000 <= r <= 9_000_000_000,
{
    proof {
        assert(-9_000_000_000_000_000_000 <= (a as int) * (b as int) <= 9_000_000_000_000_000_000)
            by (nonlinear_arith)
            requires
                -3_000_000_000 <= a <= 3_000_000_000,
                -3_000_000_000 <= b <= 3_000_000_000,
        ;
    }
    let p: i128 = mul_i64(a, b);
    let q: i128 = tdiv_i128(p, 1_000_000_000);
    proof {
        if p >= 0 {
            lemma_div_is_ordered(p as int, 9_000_000_000_000_000_000int, 1_000_000_000int);
        } else {
            lemma_div_is_ordered(-(p as int), 9_000_000_000_000_000_000int, 1_000_000_000int);
        }
    }
    q as i64
}


/// The normalization cascade of the fixed-point logarithm: a pair `(m, k)`
/// with `m` in `[1, 2)` at the fixed-point scale and `v ~ m * 2^k`, by
/// conditional shifts of 32, 16, 8, 4, 2 and 1 places in each direction.
#[verifier::opaque]
pub open spec fn spec_ln_normalize(v: int) -> (int, int) {
    let m0 = v;
    let s32 = if m0 >= 2_000_000_000 * 4_294_967_296 {
        (m0 / 4_294_967_296, 32int)
    } else {
        (m0, 0int)
    };
    let s16 = if s32.0 >= 2_000_000_000 * 65_536 {
        (s32.0 / 65_536, s32.1 + 16)
    } else {
        s32
    };
    let s8 = if s16.0 >= 2_000_000_000 * 256 {
        (s16.0 / 256, s16.1 + 8)
    } else {
        s16
    };
    let s4 = if s8.0 >= 2_000_000_000 * 16 {
        (s8.0 / 16, s8.1 + 4)
    } else {
        s8
    };
    let s2 = if s4.0 >= 2_000_000_000 * 4 {
        (s4.0 / 4, s4.1 + 2)
    } else {
        s4
    };
    let s1 = if s2.0 >= 2_000_000_000 * 2 {
        (s2.0 / 2, s2.1 + 1)
    } else {
        s2
    };
    let s0 = if s1.0 >= 2_000_000_000 {
        (s1.0 / 2, s1.1 + 1)
    } else {
        s1
    };
    let u16 = if s0.0 * 65_536 < 1_000_000_000 {
        (s0.0 * 65_536, s0.1 - 16)
    } else {
        s0
    };
    let u8 = if u16.0 * 256 < 1_000_000_000 {
        (u16.0 * 256, u16.1 - 8)
    } else {
        u16
    };
    let u4 = if u8.0 * 16 < 1_000_000_000 {
        (u8.0 * 16, u8.1 - 4)
    } else {
        u8
    };
    let u2 = if u4.0 * 4 < 1_000_000_000 {
        (u4.0 * 4, u4.1 - 2)
    } else {
        u4
    };
    let u1 = if u2.0 * 2 < 1_000_000_000 {
        (u2.0 * 2, u2.1 - 1)
    } else {
        u2
    };
    if u1.0 < 1_000_000_000 {
        (u1.0 * 2, u1.1 - 1)
    } else {
        u1
    }
}

/// The truncated series `z + z^3/3 + ... + z^17/17` for the inverse
/// hyperbolic tangent, at the fixed-point scale.
pub open spec fn spec_atanh_sum(z: int) -> int {
    let zz = (z * z) / 1_000_000_000;
    let u3 = (z * zz) / 1_000_000_000;
    let u5 = (u3 * zz) / 1_000_000_000;
    let u7 = (u5 * zz) / 1_000_000_000;
    let u9 = (u7 * zz) / 1_000_000_000;
    let u11 = (u9 * zz) / 1_000_000_000;
    let u13 = (u11 * zz) / 1_000_000_000;
    let u15 = (u13 * zz) / 1_000_000_000;
    let u17 = (u15 * zz) / 1_000_000_000;
    z + u3 / 3 + u5 / 5 + u7 / 7 + u9 / 9 + u11 / 11 + u13 / 13 + u15 / 15 + u17 / 17
}

/// The fixed-point natural logarithm of a positive fixed-point value, in
/// nano-units: the value is normalized into `[1, 2)`, the logarithm of the
/// mantissa is taken by the inverse-hyperbolic-tangent series, and the
/// shift count contributes whole multiples of `ln 2`.
pub open spec fn spec_ln(v: int) -> int {
    let s = spec_ln_normalize(v);
    let m = s.0;
    let k = s.1;
    let z = ((m - 1_000_000_000) * 1_000_000_000) / (m + 1_000_000_000);
    2 * spec_atanh_sum(z) + k * 693_147_181
}


/// One multiplication of the logarithm series brought back to scale; the
/// operands stay below half the scale, so the product stays below a quarter.
fn series_mul(a: u64, b: u64) -> (r: u64)
    requires
        a <= 500_000_000,
        b <= 500_000_000,
    ensures
        r as int == ((a as int) * (b as int)) / 1_000_000_000,
        r <= 250_000_000,
{
    proof {
        assert(a * b <= 500_000_000u64 * 500_000_000u64) by (nonlinear_arith)
            requires
                a <= 500_000_000,
                b <= 500_000_000,
        ;
        lemma_div_is_ordered(
            (a as int) * (b as int),
            500_000_000int * 500_000_000int,
            1_000_000_000int,
        );
    }
    (a * b) / 1_000_000_000
}

/// The normalization cascade of [`spec_ln_normalize`], executably.
#[verifier::rlimit(100)]
fn ln_normalize(v: u64) -> (r: (u64, i64))
    requires
        1 <= v,
    ensures
        r.0 as int == spec_ln_normalize(v as int).0,
        r.1 as int == spec_ln_normalize(v as int).1,
        1_000_000_000 <= r.0 < 2_000_000_000,
        -31 <= r.1 <= 64,
{
    proof {
        reveal(spec_ln_normalize);
    }
    let mut m: u64 = v;
    let mut k: i64 = 0;
    if m >= 2_000_000_000 * 4_294_967_296 {
        m = m / 4_294_967_296;
        k = k + 32;
    }
    if m >= 2_000_000_000 * 65_536 {
        m = m / 65_536;
        k = k + 16;
    }
    if m >= 2_000_000_000 * 256 {
        m = m / 256;
        k = k + 8;
    }
    if m >= 2_000_000_000 * 16 {
        m = m / 16;
        k = k + 4;
    }
    if m >= 2_000_000_000 * 4 {
        m = m / 4;
        k = k + 2;
    }
    if m >= 2_000_000_000 * 2 {
        m = m / 2;
        k = k + 1;
    }
    if m >= 2_000_000_000 {
        m = m / 2;
        k = k + 1;
    }
    if m * 65_536 < 1_000_000_000 {
        m = m * 65_536;
        k = k - 16;
    }
    if m * 256 < 1_000_000_000 {
        m = m * 256;
        k = k - 8;
    }
    if m * 16 < 1_000_000_000 {
        m = m * 16;
        k = k - 4;
    }
    if m * 4 < 1_000_000_000 {
        m = m * 4;
        k = k - 2;
    }
    if m * 2 < 1_000_000_000 {
        m = m * 2;
        k = k - 1;
    }
    if m < 1_000_000_000 {
        m = m * 2;
        k = k - 1;
    }
    (m, k)
}

#[verifier::rlimit(60)]
pub fn ln_nano(v: u64) -> (r: i64)
    requires
        1 <= v,
    ensures
        r as int == spec_ln(v as int),
        -21_500_000_000 <= r <= 46_500_000_000,
{
    let mk = ln_normalize(v);
    let m: u64 = mk.0;
    let k: i64 = mk.1;
    proof {
        vstd::arithmetic::div_mod::lemma_div_is_ordered_by_denominator(
            ((m as int) - 1_000_000_000) * 1_000_000_000,
            2_000_000_000int,
            (m as int) + 1_000_000_000,
        );
        lemma_div_is_ordered(
            ((m as int) - 1_000_000_000) * 1_000_000_000,
            1_000_000_000_000_000_000int,
            2_000_000_000int,
        );
    }
    let z: u64 = ((m - 1_000_000_000) * 1_000_000_000) / (m + 1_000_000_000);
    let zz: u64 = series_mul(z, z);
    let u3: u64 = series_mul(z, zz);
    let u5: u64 = series_mul(u3, zz);
    let u7: u64 = series_mul(u5, zz);
    let u9: u64 = series_mul(u7, zz);
    let u11: u64 = series_mul(u9, zz);
    let u13: u64 = series_mul(u11, zz);
    let u15: u64 = series_mul(u13, zz);
    let u17: u64 = series_mul(u15, zz);
    let sum: u64 = z + u3 / 3 + u5 / 5 + u7 / 7 + u9 / 9 + u11 / 11 + u13 / 13 + u15 / 15
        + u17 / 17;
    2 * (sum as i64) + k * 693_147_181
}

/// The fixed-point tangent of an angle in `[0, pi/2]`, clamped into
/// `[1, 10^9]` at the fixed-point scale so that its logarithm exists.
pub open spec fn spec_tan_quarter_pos(x: int) -> int {
    let s = spec_sin_quarter(x);
    let c = spec_cos_quarter(x);
    let den = if c <= 0 {
        1int
    } else {
        c
    };
    let t = (s * 1_000_000_000) / den;
    if t < 1 {
        1int
    } else {
        t
    }
}

pub fn tan_quarter_pos(x: u64) -> (r: u64)
    requires
        x <= 1_570_796_327,
    ensures
        r as int == spec_tan_quarter_pos(x as int),
        1 <= r <= 1_000_000_000_000_000_000,
{
    let s: u64 = sin_quarter(x);
    let c: u64 = cos_quarter(x);
    let den: u64 = if c == 0 {
        1
    } else {
        c
    };
    proof {
        assert(s * 1_000_000_000u64 <= 1_000_000_000u64 * 1_000_000_000u64)
            by (nonlinear_arith)
            requires
                s <= 1_000_000_000,
        ;
        lemma_div_nonincreasing(((s as int) * 1_000_000_000), den as int);
    }
    let t: u64 = (s * 1_000_000_000) / den;
    if t < 1 {
        1
    } else {
        t
    }
}

} // verus!
