//! Polar vectors for wind, current and vessel velocities.

use vstd::prelude::*;

use crate::angles::normalize_angle_udeg;
use crate::trig::{
    cos_nano, isqrt_u128, mul_i64, nanorad_to_udeg, sin_nano, spec_atan2, spec_cos_nano,
    spec_isqrt, spec_nanorad_to_udeg, spec_sin_nano, spec_tdiv, spec_udeg_to_nanorad, tdiv_i128,
    udeg_to_nanorad,
};

verus! {

/// A physics vector in polar form: a magnitude and a direction in degrees
/// clockwise from true north, the direction stored in micro-degrees.
#[derive(Clone, Copy, Debug, PartialEq, Eq, Structural)]
pub struct PhysVec {
    /// Magnitude in the unit of the quantity at hand (velocities are in
    /// millimeters per second); never negative.
    pub magnitude: i64,
    /// Direction in micro-degrees: north 0°, east 90°, south 180°, west 270°.
    pub angle_udeg: i64,
}

impl PhysVec {
    /// A well-formed vector: a nonnegative magnitude and a direction within
    /// one turn.
    pub open spec fn well_formed(self) -> bool {
        &&& 0 <= self.magnitude
        &&& 0 <= self.angle_udeg < 360_000_000
    }

    /// A new vector from a magnitude and a direction.
    pub fn new(magnitude: i64, angle_udeg: i64) -> (r: PhysVec)
        requires
            0 <= magnitude,
            0 <= angle_udeg < 360_000_000,
        ensures
            r == (PhysVec { magnitude, angle_udeg }),
            r.well_formed(),
    {
        PhysVec { magnitude, angle_udeg }
    }

    /// The eastward component of the vector: `magnitude * sin(angle)`.
    pub open spec fn spec_east(self) -> int {
        spec_tdiv(
            self.magnitude * spec_sin_nano(spec_udeg_to_nanorad(self.angle_udeg as int)),
            1_000_000_000,
        )
    }

    /// The northward component of the vector: `magnitude * cos(angle)`.
    pub open spec fn spec_north(self) -> int {
        spec_tdiv(
            self.magnitude * spec_cos_nano(spec_udeg_to_nanorad(self.angle_udeg as int)),
            1_000_000_000,
        )
    }

    /// The eastward component, in the magnitude's unit.
    pub fn east(self) -> (r: i64)
        requires
            self.well_formed(),
            self.magnitude <= 1_000_000_000_000,
        ensures
            r as int == self.spec_east(),
            -self.magnitude <= r <= self.magnitude,
    {
        let s: i64 = sin_nano(udeg_to_nanorad(self.angle_udeg));
        let p: i128 = mul_i64(self.magnitude, s);
        proof {
            assert(-1_000_000_000_000_000_000_000 <= (self.magnitude as int) * (s as int)
                <= 1_000_000_000_000_000_000_000) by (nonlinear_arith)
                requires
                    0 <= self.magnitude <= 1_000_000_000_000,
                    -1_000_000_000 <= s <= 1_000_000_000,
            ;
            lemma_component_bound(self.magnitude as int, s as int);
        }
        let q: i128 = tdiv_i128(p, 1_000_000_000);
        q as i64
    }

    /// The northward component, in the magnitude's unit.
    pub fn north(self) -> (r: i64)
        requires
            self.well_formed(),
            self.magnitude <= 1_000_000_000_000,
        ensures
            r as int == self.spec_north(),
            -self.magnitude <= r <= self.magnitude,
    {
        let c: i64 = cos_nano(udeg_to_nanorad(self.angle_udeg));
        let p: i128 = mul_i64(self.magnitude, c);
        proof {
            assert(-1_000_000_000_000_000_000_000 <= (self.magnitude as int) * (c as int)
                <= 1_000_000_000_000_000_000_000) by (nonlinear_arith)
                requires
                    0 <= self.magnitude <= 1_000_000_000_000,
                    -1_000_000_000 <= c <= 1_000_000_000,
            ;
            lemma_component_bound(self.magnitude as int, c as int);
        }
        let q: i128 = tdiv_i128(p, 1_000_000_000);
        q as i64
    }

    /// The vector difference, formed in the local Cartesian frame and
    /// converted back to polar form.
    pub fn minus(self, other: PhysVec) -> (r: PhysVec)
        requires
            self.well_formed(),
            other.well_formed(),
            self.magnitude <= 1_000_000_000_000,
            other.magnitude <= 1_000_000_000_000,
        ensures
            r == spec_vec_from_components(
                self.spec_east() - other.spec_east(),
                self.spec_north() - other.spec_north(),
            ),
            r.well_formed(),
            r.magnitude <= 3_000_000_000_000,
    {
        let e: i64 = self.east() - other.east();
        let n: i64 = self.north() - other.north();
        vec_from_components(e, n)
    }

    /// The vector sum, formed in the local Cartesian frame and converted
    /// back to polar form.
    pub fn plus(self, other: PhysVec) -> (r: PhysVec)
        requires
            self.well_formed(),
            other.well_formed(),
            self.magnitude <= 1_000_000_000_000,
            other.magnitude <= 1_000_000_000_000,
        ensures
            r == spec_vec_from_components(
                self.spec_east() + other.spec_east(),
                self.spec_north() + other.spec_north(),
            ),
            r.well_formed(),
            r.magnitude <= 2 * (self.magnitude + other.magnitude),
    {
        let e: i64 = self.east() + other.east();
        let n: i64 = self.north() + other.north();
        vec_from_components(e, n)
    }
}

/// The magnitude of a fixed-point product stays below the product of the
/// magnitudes' bounds.
proof fn lemma_component_bound(m: int, s: int)
    by (nonlinear_arith)
    requires
        0 <= m <= 1_000_000_000_000,
        -1_000_000_000 <= s <= 1_000_000_000,
    ensures
        -m <= spec_tdiv(m * s, 1_000_000_000) <= m,
{
}

/// The fixed-point polar form of a Cartesian vector given by its eastward
/// and northward components.
pub open spec fn spec_vec_from_components(east: int, north: int) -> PhysVec {
    let m = spec_isqrt(east * east + north * north);
    let a = spec_north_angle(east, north);
    PhysVec { magnitude: m as i64, angle_udeg: a as i64 }
}

/// The fixed-point direction, clockwise from north, of the Cartesian vector
/// `(east, north)`: a quarter turn minus its mathematical polar angle,
/// normalized into `[0°, 360°)`.
pub open spec fn spec_north_angle(east: int, north: int) -> int {
    let a = spec_atan2(north, east);
    (90_000_000 - spec_nanorad_to_udeg(a)) % 360_000_000int
}

/// The direction, clockwise from north in micro-degrees, of the vector with
/// the given eastward and northward components.
pub fn get_north_angle_from_northward_and_eastward_property(east: i64, north: i64) -> (r: i64)
    requires
        -2_000_000_000_000 <= east <= 2_000_000_000_000,
        -2_000_000_000_000 <= north <= 2_000_000_000_000,
    ensures
        r as int == spec_north_angle(east as int, north as int),
        0 <= r < 360_000_000,
{
    let a: i64 = crate::trig::atan2_nano(north, east);
    let udeg: i64 = nanorad_to_udeg(a);
    normalize_angle_udeg(90_000_000 - udeg)
}

/// The polar vector with the given eastward and northward components.
pub fn vec_from_components(east: i64, north: i64) -> (r: PhysVec)
    requires
        -2_000_000_000_000 <= east <= 2_000_000_000_000,
        -2_000_000_000_000 <= north <= 2_000_000_000_000,
    ensures
        r == spec_vec_from_components(east as int, north as int),
        r.well_formed(),
        r.magnitude <= 3_000_000_000_000,
        ({
            let ea = if east < 0 { -(east as int) } else { east as int };
            let na = if north < 0 { -(north as int) } else { north as int };
            r.magnitude <= ea + na
        }),
{
    proof {
        assert((east as int) * (east as int) + (north as int) * (north as int)
            <= 8_000_000_000_000_000_000_000_000int) by (nonlinear_arith)
            requires
                -2_000_000_000_000 <= east <= 2_000_000_000_000,
                -2_000_000_000_000 <= north <= 2_000_000_000_000,
        ;
        assert((east as int) * (east as int) >= 0) by (nonlinear_arith);
        assert((north as int) * (north as int) >= 0) by (nonlinear_arith);
    }
    let e2: i128 = mul_i64(east, east);
    let n2: i128 = mul_i64(north, north);
    let s2: u128 = (e2 + n2) as u128;
    let m: u64 = isqrt_u128(s2);
    proof {
        assert(m <= 3_000_000_000_000) by (nonlinear_arith)
            requires
                (m as int) * (m as int) <= 8_000_000_000_000_000_000_000_000int,
        ;
        let ea = if east < 0 { -(east as int) } else { east as int };
        let na = if north < 0 { -(north as int) } else { north as int };
        assert(ea * ea == (east as int) * (east as int)) by (nonlinear_arith)
            requires
                ea == if east < 0 { -(east as int) } else { east as int },
        ;
        assert(na * na == (north as int) * (north as int)) by (nonlinear_arith)
            requires
                na == if north < 0 { -(north as int) } else { north as int },
        ;
        assert(m <= ea + na) by (nonlinear_arith)
            requires
                0 <= ea,
                0 <= na,
                ea * ea == (east as int) * (east as int),
                na * na == (north as int) * (north as int),
                (m as int) * (m as int) <= (east as int) * (east as int) + (north as int) * (north
                    as int),
                0 <= m,
        ;
    }
    let a: i64 = get_north_angle_from_northward_and_eastward_property(east, north);
    PhysVec { magnitude: m as i64, angle_udeg: a }
}

} // verus!
