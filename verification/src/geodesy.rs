//! Geodesic primitives on a spherical earth.
//!
//! Positions are longitude/latitude pairs in micro-degrees and distances are
//! millimeters, so that every formula is exact integer arithmetic over the
//! fixed-point trigonometry of [`crate::trig`].  The distance is the
//! haversine great-circle distance, and the bearing the initial great-circle
//! bearing, both with the mean earth radius [`EARTH_RADIUS_MM`].

use vstd::prelude::*;

use crate::angles::normalize_angle_udeg;
use crate::trig::{
    asin_nano, cos_nano, isqrt_u128, ln_nano, mul_i64, scale_mul, sin_nano, spec_asin,
    spec_cos_nano, spec_isqrt, spec_ln, spec_nanorad_to_udeg, spec_scale_mul, spec_sin_nano,
    spec_tan_quarter_pos, spec_tdiv, spec_udeg_to_nanorad, nanorad_to_udeg, tan_quarter_pos,
    udeg_to_nanorad,
};

verus! {

/// Mean earth radius, in millimeters.
pub const EARTH_RADIUS_MM: u64 = 6_371_008_800;

/// A position on the sphere: longitude and latitude in micro-degrees.
#[derive(Clone, Copy, PartialEq, Eq, Structural, Debug)]
pub struct GeoPoint {
    /// Longitude in micro-degrees, positive east of the prime meridian.
    pub lon_udeg: i64,
    /// Latitude in micro-degrees, positive north of the equator.
    pub lat_udeg: i64,
}

impl GeoPoint {
    /// A well-formed position: longitude in `[-180°, 360°)` and latitude in
    /// `[-90°, 90°]`, both in micro-degrees.
    pub open spec fn valid(self) -> bool {
        &&& -180_000_000 <= self.lon_udeg < 360_000_000
        &&& -90_000_000 <= self.lat_udeg <= 90_000_000
    }

    /// In-range coordinates wide enough for every geodesic formula of this
    /// module; every valid position is loosely bounded.
    pub open spec fn loosely_bounded(self) -> bool {
        &&& -1_200_000_000 <= self.lon_udeg <= 1_200_000_000 || self.valid()
        &&& -1_200_000_000 <= self.lat_udeg <= 1_200_000_000
    }

    /// A new position from coordinates already in range.
    pub fn new(lon_udeg: i64, lat_udeg: i64) -> (r: GeoPoint)
        requires
            -180_000_000 <= lon_udeg < 360_000_000,
            -90_000_000 <= lat_udeg <= 90_000_000,
        ensures
            r == (GeoPoint { lon_udeg, lat_udeg }),
            r.valid(),
    {
        GeoPoint { lon_udeg, lat_udeg }
    }
}

/// The fixed-point haversine distance between two positions, in millimeters.
#[verifier::opaque]
pub open spec fn spec_distance_mm(p1: GeoPoint, p2: GeoPoint) -> int {
    let phi1 = spec_udeg_to_nanorad(p1.lat_udeg as int);
    let phi2 = spec_udeg_to_nanorad(p2.lat_udeg as int);
    let dphi = if phi2 >= phi1 {
        phi2 - phi1
    } else {
        phi1 - phi2
    };
    let dlam_abs = if p2.lon_udeg >= p1.lon_udeg {
        p2.lon_udeg - p1.lon_udeg
    } else {
        p1.lon_udeg - p2.lon_udeg
    };
    let dlam = spec_udeg_to_nanorad(dlam_abs);
    let s1 = spec_sin_nano(dphi / 2);
    let s2 = spec_sin_nano(dlam / 2);
    let c1 = spec_cos_nano(phi1);
    let c2 = spec_cos_nano(phi2);
    let cc = spec_tdiv(c1 * c2, 1_000_000_000);
    let ss = (s2 * s2) / 1_000_000_000;
    let a0 = s1 * s1 + cc * ss;
    let a = if a0 < 0 {
        0
    } else if a0 > 1_000_000_000_000_000_000 {
        1_000_000_000_000_000_000int
    } else {
        a0
    };
    let sq = spec_isqrt(a);
    let sv = if sq > 1_000_000_000 {
        1_000_000_000int
    } else {
        sq
    };
    let c = 2 * spec_asin(sv);
    (6_371_008_800 * c) / 1_000_000_000
}

/// The great-circle (haversine) distance between two positions, in
/// millimeters.
#[verifier::rlimit(60)]
pub fn distance_mm(p1: GeoPoint, p2: GeoPoint) -> (r: u64)
    requires
        p1.loosely_bounded(),
        p2.loosely_bounded(),
        -2_400_000_000 <= p1.lon_udeg - p2.lon_udeg <= 2_400_000_000,
    ensures
        r as int == spec_distance_mm(p1, p2),
        r <= 20_100_000_000,
{
    proof {
        reveal(spec_distance_mm);
    }
    let phi1: i64 = udeg_to_nanorad(p1.lat_udeg);
    let phi2: i64 = udeg_to_nanorad(p2.lat_udeg);
    let dphi: u64 = if phi2 >= phi1 {
        (phi2 - phi1) as u64
    } else {
        (phi1 - phi2) as u64
    };
    let dlam_abs: i64 = if p2.lon_udeg >= p1.lon_udeg {
        p2.lon_udeg - p1.lon_udeg
    } else {
        p1.lon_udeg - p2.lon_udeg
    };
    let dlam: u64 = udeg_to_nanorad(dlam_abs) as u64;
    let s1: i64 = sin_nano((dphi / 2) as i64);
    let s2: i64 = sin_nano((dlam / 2) as i64);
    let c1: i64 = cos_nano(phi1);
    let c2: i64 = cos_nano(phi2);
    let cc: i64 = scale_mul(c1, c2);
    proof {
        lemma_scale_mul_unit_bound(spec_cos_nano(phi1 as int), spec_cos_nano(phi2 as int));
    }
    let as2: u64 = if s2 >= 0 {
        s2 as u64
    } else {
        (-s2) as u64
    };
    proof {
        assert((s2 as int) * (s2 as int) == (as2 as int) * (as2 as int)) by (nonlinear_arith)
            requires
                as2 == if s2 >= 0 {
                    s2 as int
                } else {
                    -(s2 as int)
                },
        ;
        assert(as2 * as2 <= 1_000_000_000u64 * 1_000_000_000u64) by (nonlinear_arith)
            requires
                as2 <= 1_000_000_000,
        ;
    }
    let ss: u64 = (as2 * as2) / 1_000_000_000;
    let as1: u64 = if s1 >= 0 {
        s1 as u64
    } else {
        (-s1) as u64
    };
    proof {
        assert((s1 as int) * (s1 as int) == (as1 as int) * (as1 as int)) by (nonlinear_arith)
            requires
                as1 == if s1 >= 0 {
                    s1 as int
                } else {
                    -(s1 as int)
                },
        ;
        assert(as1 * as1 <= 1_000_000_000u64 * 1_000_000_000u64) by (nonlinear_arith)
            requires
                as1 <= 1_000_000_000,
        ;
    }
    let t1: u64 = as1 * as1;
    proof {
        assert(-1_000_000_000_000_000_000 <= (cc as int) * (ss as int)
            <= 1_000_000_000_000_000_000) by (nonlinear_arith)
            requires
                -1_000_000_000 <= cc <= 1_000_000_000,
                0 <= ss <= 1_000_000_000,
        ;
    }
    let a0: i128 = (t1 as i128) + mul_i64(cc, ss as i64);
    let a: u64 = if a0 < 0 {
        0
    } else if a0 > 1_000_000_000_000_000_000 {
        1_000_000_000_000_000_000
    } else {
        a0 as u64
    };
    let sq: u64 = isqrt_u128(a as u128);
    let sv: u64 = if sq > 1_000_000_000 {
        1_000_000_000
    } else {
        sq
    };
    let c: u64 = 2 * asin_nano(sv);
    let d: u128 = (6_371_008_800u128 * (c as u128)) / 1_000_000_000;
    proof {
        assert(6_371_008_800int * (c as int) <= 6_371_008_800int * 3_141_592_654int)
            by (nonlinear_arith)
            requires
                c <= 3_141_592_654,
        ;
        vstd::arithmetic::div_mod::lemma_div_is_ordered(
            (6_371_008_800int * (c as int)),
            6_371_008_800int * 3_141_592_654int,
            1_000_000_000int,
        );
    }
    d as u64
}

/// `cc` must stay within the scale bound for the fixed-point sums below.
proof fn lemma_scale_mul_unit_bound(a: int, b: int)
    by (nonlinear_arith)
    requires
        -1_000_000_000 <= a <= 1_000_000_000,
        -1_000_000_000 <= b <= 1_000_000_000,
    ensures
        -1_000_000_000 <= spec_scale_mul(a, b) <= 1_000_000_000,
{
}

/// The fixed-point initial great-circle bearing from `p1` to `p2`, in
/// micro-degrees within `[0°, 360°)`.
#[verifier::opaque]
pub open spec fn spec_bearing_udeg(p1: GeoPoint, p2: GeoPoint) -> int {
    let phi1 = spec_udeg_to_nanorad(p1.lat_udeg as int);
    let phi2 = spec_udeg_to_nanorad(p2.lat_udeg as int);
    let dlam = spec_udeg_to_nanorad(p2.lon_udeg - p1.lon_udeg);
    let y = spec_scale_mul(spec_sin_nano(dlam), spec_cos_nano(phi2));
    let x = spec_scale_mul(spec_cos_nano(phi1), spec_sin_nano(phi2)) - spec_scale_mul(
        spec_scale_mul(spec_sin_nano(phi1), spec_cos_nano(phi2)),
        spec_cos_nano(dlam),
    );
    let theta = crate::trig::spec_atan2(y, x);
    spec_nanorad_to_udeg(theta) % 360_000_000int
}

/// The initial bearing of the great circle from `p1` to `p2`, in
/// micro-degrees clockwise from north, within `[0°, 360°)`.
pub fn bearing_udeg(p1: GeoPoint, p2: GeoPoint) -> (r: i64)
    requires
        p1.loosely_bounded(),
        p2.loosely_bounded(),
        -2_400_000_000 <= p2.lon_udeg - p1.lon_udeg <= 2_400_000_000,
    ensures
        r as int == spec_bearing_udeg(p1, p2),
        0 <= r < 360_000_000,
{
    proof {
        reveal(spec_bearing_udeg);
    }
    let phi1: i64 = udeg_to_nanorad(p1.lat_udeg);
    let phi2: i64 = udeg_to_nanorad(p2.lat_udeg);
    let dlam: i64 = udeg_to_nanorad(p2.lon_udeg - p1.lon_udeg);
    let y: i64 = scale_mul(sin_nano(dlam), cos_nano(phi2));
    proof {
        lemma_scale_mul_unit_bound(
            spec_sin_nano(dlam as int),
            spec_cos_nano(phi2 as int),
        );
        lemma_scale_mul_unit_bound(
            spec_cos_nano(phi1 as int),
            spec_sin_nano(phi2 as int),
        );
        lemma_scale_mul_unit_bound(
            spec_sin_nano(phi1 as int),
            spec_cos_nano(phi2 as int),
        );
    }
    let x1: i64 = scale_mul(cos_nano(phi1), sin_nano(phi2));
    let x2: i64 = scale_mul(scale_mul(sin_nano(phi1), cos_nano(phi2)), cos_nano(dlam));
    proof {
        lemma_scale_mul_unit_bound(
            spec_scale_mul(spec_sin_nano(phi1 as int), spec_cos_nano(phi2 as int)),
            spec_cos_nano(dlam as int),
        );
    }
    let x: i64 = x1 - x2;
    let theta: i64 = crate::trig::atan2_nano(y, x);
    let udeg: i64 = nanorad_to_udeg(theta);
    normalize_angle_udeg(udeg)
}


/// The fixed-point solution of the direct geodesic problem: the position
/// reached from `p` along the initial bearing `b_udeg` after `dist_mm`
/// millimeters of great-circle travel.
#[verifier::opaque]
pub open spec fn spec_destination(p: GeoPoint, b_udeg: int, dist_mm: int) -> GeoPoint {
    let phi1 = spec_udeg_to_nanorad(p.lat_udeg as int);
    let theta = spec_udeg_to_nanorad(b_udeg);
    let delta = (dist_mm * 1_000_000_000) / 6_371_008_800;
    let sin_phi1 = spec_sin_nano(phi1);
    let cos_phi1 = spec_cos_nano(phi1);
    let sin_delta = spec_sin_nano(delta);
    let cos_delta = spec_cos_nano(delta);
    let sin_theta = spec_sin_nano(theta);
    let cos_theta = spec_cos_nano(theta);
    let s0 = spec_scale_mul(sin_phi1, cos_delta) + spec_scale_mul(
        spec_scale_mul(cos_phi1, sin_delta),
        cos_theta,
    );
    let s = if s0 < -1_000_000_000 {
        -1_000_000_000int
    } else if s0 > 1_000_000_000 {
        1_000_000_000int
    } else {
        s0
    };
    let phi2 = if s >= 0 {
        spec_asin(s)
    } else {
        -spec_asin(-s)
    };
    let y = spec_scale_mul(spec_scale_mul(sin_theta, sin_delta), cos_phi1);
    let x = cos_delta - spec_scale_mul(sin_phi1, s);
    let dlam = crate::trig::spec_atan2(y, x);
    let lon = crate::angles::signed_half_turn(p.lon_udeg + spec_nanorad_to_udeg(dlam));
    let lat = spec_nanorad_to_udeg(phi2);
    GeoPoint { lon_udeg: lon as i64, lat_udeg: lat as i64 }
}

/// The position reached by travelling `dist_mm` millimeters from `p` along
/// the great circle that leaves `p` with bearing `b_udeg`.
#[verifier::rlimit(60)]
pub fn destination(p: GeoPoint, b_udeg: i64, dist_mm: u64) -> (r: GeoPoint)
    requires
        p.valid(),
        0 <= b_udeg < 360_000_000,
        dist_mm <= 100_000_000_000_000,
    ensures
        r == spec_destination(p, b_udeg as int, dist_mm as int),
        r.valid(),
{
    proof {
        reveal(spec_destination);
    }
    let phi1: i64 = udeg_to_nanorad(p.lat_udeg);
    let theta: i64 = udeg_to_nanorad(b_udeg);
    let delta128: u128 = ((dist_mm as u128) * 1_000_000_000) / 6_371_008_800;
    proof {
        vstd::arithmetic::div_mod::lemma_div_is_ordered(
            (dist_mm as int) * 1_000_000_000,
            100_000_000_000_000int * 1_000_000_000,
            6_371_008_800int,
        );
    }
    let delta: i64 = delta128 as i64;
    let sin_phi1: i64 = sin_nano(phi1);
    let cos_phi1: i64 = cos_nano(phi1);
    let sin_delta: i64 = sin_nano(delta);
    let cos_delta: i64 = cos_nano(delta);
    let sin_theta: i64 = sin_nano(theta);
    let cos_theta: i64 = cos_nano(theta);
    proof {
        lemma_scale_mul_unit_bound(
            spec_sin_nano(phi1 as int),
            spec_cos_nano(delta as int),
        );
        lemma_scale_mul_unit_bound(
            spec_cos_nano(phi1 as int),
            spec_sin_nano(delta as int),
        );
        lemma_scale_mul_unit_bound(
            spec_scale_mul(spec_cos_nano(phi1 as int), spec_sin_nano(delta as int)),
            spec_cos_nano(theta as int),
        );
        lemma_scale_mul_unit_bound(
            spec_sin_nano(theta as int),
            spec_sin_nano(delta as int),
        );
        lemma_scale_mul_unit_bound(
            spec_scale_mul(spec_sin_nano(theta as int), spec_sin_nano(delta as int)),
            spec_cos_nano(phi1 as int),
        );
    }
    let s0: i64 = scale_mul(sin_phi1, cos_delta) + scale_mul(
        scale_mul(cos_phi1, sin_delta),
        cos_theta,
    );
    let s: i64 = if s0 < -1_000_000_000 {
        -1_000_000_000
    } else if s0 > 1_000_000_000 {
        1_000_000_000
    } else {
        s0
    };
    let phi2: i64 = if s >= 0 {
        asin_nano(s as u64) as i64
    } else {
        -(asin_nano((-s) as u64) as i64)
    };
    let y: i64 = scale_mul(scale_mul(sin_theta, sin_delta), cos_phi1);
    proof {
        lemma_scale_mul_unit_bound(spec_sin_nano(phi1 as int), s as int);
    }
    let x: i64 = cos_delta - scale_mul(sin_phi1, s);
    let dlam: i64 = crate::trig::atan2_nano(y, x);
    let lon: i64 = crate::angles::to_signed_half_turn(p.lon_udeg + nanorad_to_udeg(dlam));
    let lat: i64 = nanorad_to_udeg(phi2);
    GeoPoint { lon_udeg: lon, lat_udeg: lat }
}

/// The fixed-point interpolation along the great circle from `p1` to `p2`:
/// the point at the scaled ratio `t` (at the fixed-point scale) of the
/// distance from `p1` toward `p2`.
#[verifier::opaque]
pub open spec fn spec_point_at_ratio(p1: GeoPoint, p2: GeoPoint, t: int) -> GeoPoint {
    let d = spec_distance_mm(p1, p2);
    let part = (d * t) / 1_000_000_000;
    spec_destination(p1, spec_bearing_udeg(p1, p2), part)
}

/// The point a fraction `t` (scaled by `10^9`) of the way from `p1` to `p2`
/// along their great circle.
pub fn point_at_ratio(p1: GeoPoint, p2: GeoPoint, t: u64) -> (r: GeoPoint)
    requires
        p1.valid(),
        p2.valid(),
        t <= 1_001_000_000,
    ensures
        r == spec_point_at_ratio(p1, p2, t as int),
        r.valid(),
{
    proof {
        reveal(spec_point_at_ratio);
    }
    let d: u64 = distance_mm(p1, p2);
    proof {
        assert((d as int) * (t as int) <= 20_100_000_000int * 1_001_000_000int)
            by (nonlinear_arith)
            requires
                d <= 20_100_000_000,
                t <= 1_001_000_000,
        ;
        vstd::arithmetic::div_mod::lemma_div_is_ordered(
            (d as int) * (t as int),
            20_100_000_000int * 1_001_000_000int,
            1_000_000_000int,
        );
    }
    let part128: u128 = ((d as u128) * (t as u128)) / 1_000_000_000;
    let part: u64 = part128 as u64;
    let b: i64 = bearing_udeg(p1, p2);
    destination(p1, b, part)
}


/// The fixed-point closed-form distance from `p3` to the great circle
/// through `p1` and `p2`, by the spherical law of sines; zero outright when
/// `p3` coincides with an endpoint.
#[verifier::opaque]
pub open spec fn spec_min_distance_closed_mm(p1: GeoPoint, p2: GeoPoint, p3: GeoPoint) -> int {
    if p3 == p1 || p3 == p2 {
        0
    } else {
        let b = spec_distance_mm(p1, p3);
        let g0 = crate::angles::signed_half_turn(
            spec_bearing_udeg(p1, p2) - spec_bearing_udeg(p1, p3),
        );
        let g_abs = if g0 < 0 {
            -g0
        } else {
            g0
        };
        let gamma = spec_udeg_to_nanorad(g_abs);
        let bn = (b * 1_000_000_000) / 6_371_008_800;
        let v0 = spec_scale_mul(spec_sin_nano(gamma), spec_sin_nano(bn));
        let v_abs = if v0 < 0 {
            -v0
        } else {
            v0
        };
        let v = if v_abs > 1_000_000_000 {
            1_000_000_000int
        } else {
            v_abs
        };
        (6_371_008_800 * spec_asin(v)) / 1_000_000_000
    }
}

/// The shortest distance from `p3` to the (infinite) great circle through
/// `p1` and `p2`, in millimeters, by the closed-form spherical law of sines:
/// `R * asin(|sin(gamma) * sin(b / R)|)` for `b` the distance from `p1` to
/// `p3` and `gamma` the angle at `p1` between the two bearings.  Returns
/// zero outright when `p3` coincides with `p1` or `p2`.
pub fn min_distance_point_to_great_circle(p1: GeoPoint, p2: GeoPoint, p3: GeoPoint) -> (r: u64)
    requires
        p1.valid(),
        p2.valid(),
        p3.valid(),
    ensures
        r as int == spec_min_distance_closed_mm(p1, p2, p3),
        r <= 10_010_000_000,
        p3 == p1 || p3 == p2 ==> r == 0,
{
    proof {
        reveal(spec_min_distance_closed_mm);
    }
    if eq_points(p3, p1) || eq_points(p3, p2) {
        0
    } else {
        let b: u64 = distance_mm(p1, p3);
        let g0: i64 = crate::angles::to_signed_half_turn(
            bearing_udeg(p1, p2) - bearing_udeg(p1, p3),
        );
        let g_abs: i64 = if g0 < 0 {
            -g0
        } else {
            g0
        };
        let gamma: i64 = udeg_to_nanorad(g_abs);
        let bn128: u128 = ((b as u128) * 1_000_000_000) / 6_371_008_800;
        proof {
            vstd::arithmetic::div_mod::lemma_div_is_ordered(
                (b as int) * 1_000_000_000,
                20_100_000_000int * 1_000_000_000,
                6_371_008_800int,
            );
        }
        let bn: i64 = bn128 as i64;
        proof {
            lemma_scale_mul_unit_bound(
                spec_sin_nano(gamma as int),
                spec_sin_nano(bn as int),
            );
        }
        let v0: i64 = scale_mul(sin_nano(gamma), sin_nano(bn));
        let v_abs: i64 = if v0 < 0 {
            -v0
        } else {
            v0
        };
        let v: u64 = if v_abs > 1_000_000_000 {
            1_000_000_000
        } else {
            v_abs as u64
        };
        let asv: u64 = asin_nano(v);
        proof {
            assert(6_371_008_800int * (asv as int) <= 6_371_008_800int * 1_570_796_327int)
                by (nonlinear_arith)
                requires
                    asv <= 1_570_796_327,
            ;
            vstd::arithmetic::div_mod::lemma_div_is_ordered(
                6_371_008_800int * (asv as int),
                6_371_008_800int * 1_570_796_327int,
                1_000_000_000int,
            );
        }
        let d: u128 = (6_371_008_800u128 * (asv as u128)) / 1_000_000_000;
        d as u64
    }
}

/// Whether two positions hold exactly the same coordinates.
pub fn eq_points(a: GeoPoint, b: GeoPoint) -> (r: bool)
    ensures
        r == (a == b),
{
    a.lon_udeg == b.lon_udeg && a.lat_udeg == b.lat_udeg
}

/// One evaluation state of the bisection search for the minimum distance
/// from `p3` to the great circle through `p1` and `p2`: the bracket is
/// `[a, b]` at the fixed-point ratio scale, and `fuel` counts the halvings
/// still allowed.  The value is the distance at the bracket midpoint once
/// the tolerance of one meter is met or the fuel is spent.
pub open spec fn spec_bisect_min_mm(
    p1: GeoPoint,
    p2: GeoPoint,
    p3: GeoPoint,
    a: int,
    b: int,
    fuel: nat,
) -> int
    decreases fuel,
{
    let c = (a + b) / 2;
    let h = (b - a) / 1000;
    let a_d = spec_distance_mm(spec_point_at_ratio(p1, p2, a), p3);
    let b_d = spec_distance_mm(spec_point_at_ratio(p1, p2, b), p3);
    let c_d = spec_distance_mm(spec_point_at_ratio(p1, p2, c), p3);
    let ah_d = spec_distance_mm(spec_point_at_ratio(p1, p2, a + h), p3);
    let ch_d = spec_distance_mm(spec_point_at_ratio(p1, p2, c + h), p3);
    let diff = if a_d >= b_d {
        a_d - b_d
    } else {
        b_d - a_d
    };
    if c_d < 1000 || diff / 2 < 1000 {
        c_d
    } else if fuel == 0 {
        c_d
    } else if (ah_d - a_d) * (ch_d - c_d) < 0 {
        spec_bisect_min_mm(p1, p2, p3, a, c, (fuel - 1) as nat)
    } else {
        spec_bisect_min_mm(p1, p2, p3, c, b, (fuel - 1) as nat)
    }
}

/// The fixed-point bisection estimate of the distance from `p3` to the
/// great circle through `p1` and `p2`; zero outright when `p3` coincides
/// with an endpoint.
#[verifier::opaque]
pub open spec fn spec_min_haversine_distance_mm(
    p1: GeoPoint,
    p2: GeoPoint,
    p3: GeoPoint,
) -> int {
    if p3 == p1 || p3 == p2 {
        0
    } else {
        spec_bisect_min_mm(p1, p2, p3, 0, 1_000_000_000, 150)
    }
}

/// The shortest distance from `p3` to the great circle through `p1` and
/// `p2`, in millimeters, found by bisection on the sign of the forward
/// difference of the distance along the circle, to a tolerance of one meter
/// and at most 150 halvings.  Returns zero outright when `p3` coincides
/// with `p1` or `p2`.
pub fn min_haversine_distance(p1: GeoPoint, p2: GeoPoint, p3: GeoPoint) -> (r: u64)
    requires
        p1.valid(),
        p2.valid(),
        p3.valid(),
    ensures
        r as int == spec_min_haversine_distance_mm(p1, p2, p3),
        r <= 20_100_000_000,
        p3 == p1 || p3 == p2 ==> r == 0,
{
    proof {
        reveal(spec_min_haversine_distance_mm);
    }
    if eq_points(p3, p1) || eq_points(p3, p2) {
        return 0;
    }
    let mut a: u64 = 0;
    let mut b: u64 = 1_000_000_000;
    let mut n: u64 = 0;
    while n < 150
        invariant
            p1.valid(),
            p2.valid(),
            p3.valid(),
            n <= 150,
            0 <= a <= b <= 1_000_000_000,
            p3 != p1,
            p3 != p2,
            spec_bisect_min_mm(p1, p2, p3, a as int, b as int, (150 - n) as nat)
                == spec_bisect_min_mm(p1, p2, p3, 0, 1_000_000_000, 150),
        decreases 150 - n,
    {
        proof {
            reveal(spec_min_haversine_distance_mm);
        }
        let c: u64 = (a + b) / 2;
        let h: u64 = (b - a) / 1000;
        let a_d: u64 = distance_mm(point_at_ratio(p1, p2, a), p3);
        let b_d: u64 = distance_mm(point_at_ratio(p1, p2, b), p3);
        let c_d: u64 = distance_mm(point_at_ratio(p1, p2, c), p3);
        let ah_d: u64 = distance_mm(point_at_ratio(p1, p2, a + h), p3);
        let ch_d: u64 = distance_mm(point_at_ratio(p1, p2, c + h), p3);
        let diff: u64 = if a_d >= b_d {
            a_d - b_d
        } else {
            b_d - a_d
        };
        if c_d < 1000 || diff / 2 < 1000 {
            return c_d;
        }
        let da: i64 = (ah_d as i64) - (a_d as i64);
        let dc: i64 = (ch_d as i64) - (c_d as i64);
        let prod: i128 = mul_i64(da, dc);
        if prod < 0 {
            b = c;
        } else {
            a = c;
        }
        n = n + 1;
    }
    let c: u64 = (a + b) / 2;
    let c_d: u64 = distance_mm(point_at_ratio(p1, p2, c), p3);
    c_d
}


/// The fixed-point meridional part of a latitude given in nano-radians:
/// the logarithm of the (clamped) tangent of `pi/4 + phi/2`.
pub open spec fn spec_meridional_part(phi: int) -> int {
    let arg = 785_398_163 + spec_tdiv(phi, 2);
    spec_ln(spec_tan_quarter_pos(arg))
}

fn meridional_part(phi: i64) -> (r: i64)
    requires
        -1_570_796_327 <= phi <= 1_570_796_327,
    ensures
        r as int == spec_meridional_part(phi as int),
        -21_500_000_000 <= r <= 46_500_000_000,
{
    let half: i64 = if phi >= 0 {
        (phi as u64 / 2) as i64
    } else {
        -(((-phi) as u64 / 2) as i64)
    };
    let arg: u64 = (785_398_163 + half) as u64;
    ln_nano(tan_quarter_pos(arg))
}

/// The fixed-point rhumb-line (constant heading) bearing from `p1` to `p2`,
/// in micro-degrees within `[0°, 360°)`.
#[verifier::opaque]
pub open spec fn spec_rhumb_bearing_udeg(p1: GeoPoint, p2: GeoPoint) -> int {
    let phi1 = spec_udeg_to_nanorad(p1.lat_udeg as int);
    let phi2 = spec_udeg_to_nanorad(p2.lat_udeg as int);
    let dpsi = spec_meridional_part(phi2) - spec_meridional_part(phi1);
    let dl0 = spec_udeg_to_nanorad(p2.lon_udeg - p1.lon_udeg);
    let dlam = if dl0 > 3_141_592_654 {
        dl0 - 6_283_185_308
    } else if dl0 < -3_141_592_654 {
        dl0 + 6_283_185_308
    } else {
        dl0
    };
    let theta = crate::trig::spec_atan2(dlam, dpsi);
    spec_nanorad_to_udeg(theta) % 360_000_000int
}

/// The constant-heading (rhumb line) bearing from `p1` to `p2`, in
/// micro-degrees clockwise from north, within `[0°, 360°)`; used only for
/// reported courses and track angles, never for navigation.
pub fn rhumb_bearing_udeg(p1: GeoPoint, p2: GeoPoint) -> (r: i64)
    requires
        p1.valid(),
        p2.valid(),
    ensures
        r as int == spec_rhumb_bearing_udeg(p1, p2),
        0 <= r < 360_000_000,
{
    proof {
        reveal(spec_rhumb_bearing_udeg);
    }
    let phi1: i64 = udeg_to_nanorad(p1.lat_udeg);
    let phi2: i64 = udeg_to_nanorad(p2.lat_udeg);
    let dpsi: i64 = meridional_part(phi2) - meridional_part(phi1);
    let dl0: i64 = udeg_to_nanorad(p2.lon_udeg - p1.lon_udeg);
    let dlam: i64 = if dl0 > 3_141_592_654 {
        dl0 - 6_283_185_308
    } else if dl0 < -3_141_592_654 {
        dl0 + 6_283_185_308
    } else {
        dl0
    };
    let theta: i64 = crate::trig::atan2_nano(dlam, dpsi);
    let udeg: i64 = nanorad_to_udeg(theta);
    normalize_angle_udeg(udeg)
}

/// The shortest distance from `p3` to the line through `p1` and `p2`, in
/// millimeters.  The line of a leg is its great circle, and the consistent
/// measure of separation from it is the spherical closed form, so this is
/// the law-of-sines distance of [`min_distance_point_to_great_circle`]
/// under the name the projection-based estimate used to carry.
pub fn min_orthogonal_projection_distance(p1: GeoPoint, p2: GeoPoint, p3: GeoPoint) -> (r: u64)
    requires
        p1.valid(),
        p2.valid(),
        p3.valid(),
    ensures
        r as int == spec_min_distance_closed_mm(p1, p2, p3),
        r <= 10_010_000_000,
        p3 == p1 || p3 == p2 ==> r == 0,
{
    min_distance_point_to_great_circle(p1, p2, p3)
}


/// Both point-to-great-circle distance algorithms, the bisection and the
/// closed form, return exactly zero whenever the queried point coincides
/// with an endpoint of the pair that fixes the circle.
pub proof fn lemma_min_distance_zero_at_endpoints(p1: GeoPoint, p2: GeoPoint, p3: GeoPoint)
    requires
        p3 == p1 || p3 == p2,
    ensures
        spec_min_haversine_distance_mm(p1, p2, p3) == 0,
        spec_min_distance_closed_mm(p1, p2, p3) == 0,
{
    reveal(spec_min_haversine_distance_mm);
    reveal(spec_min_distance_closed_mm);
}

} // verus!
