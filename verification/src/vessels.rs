//! Vessels, sailing legs and the ship log.

use vstd::prelude::*;

use crate::angles::euclid_mod_i64;
use crate::errors::SimError;
use crate::geodesy::{
    distance_mm, eq_points, rhumb_bearing_udeg, spec_distance_mm, spec_rhumb_bearing_udeg,
    GeoPoint,
};
use crate::physics::PhysVec;

verus! {

/// One leg of a route plan: the great-circle segment from `p1` to `p2`,
/// the total width of the tacking corridor centered on that segment, and
/// the proximity to `p2` at which the vessel counts as arrived.
#[derive(Clone, Copy, Debug, PartialEq, Eq, Structural)]
pub struct SailingLeg {
    /// Start waypoint of the leg.
    pub p1: GeoPoint,
    /// End waypoint of the leg.
    pub p2: GeoPoint,
    /// Total width of the tacking corridor, in millimeters.
    pub tacking_width_mm: u64,
    /// Distance to `p2` at which the vessel has arrived, in millimeters.
    pub min_proximity_mm: u64,
}

/// Whether every leg of a route is well formed.
pub open spec fn spec_route_wf(route: Seq<SailingLeg>) -> bool {
    forall|i: int| 0 <= i < route.len() ==> (#[trigger] route[i]).well_formed()
}

impl SailingLeg {
    /// A well-formed leg: valid endpoints that do not coincide, and corridor
    /// and arrival widths within a hundred thousand kilometers.
    pub open spec fn well_formed(self) -> bool {
        &&& self.p1.valid()
        &&& self.p2.valid()
        &&& self.p1 != self.p2
        &&& self.tacking_width_mm <= 100_000_000_000
        &&& self.min_proximity_mm <= 100_000_000_000
    }
}

/// The navigational status of a vessel, after the AIS status codes.
#[derive(Clone, Copy, Debug, PartialEq, Eq, Structural)]
pub enum NavigationStatus {
    UnderwayUsingEngine,
    AtAnchor,
    NotUnderCommand,
    RestrictedManeuverability,
    ConstrainedByDraft,
    Moored,
    Aground,
    EngagedInFishing,
    UnderwaySailing,
}

impl NavigationStatus {
    /// The AIS code of the status.
    pub open spec fn spec_code(self) -> u64 {
        match self {
            NavigationStatus::UnderwayUsingEngine => 0,
            NavigationStatus::AtAnchor => 1,
            NavigationStatus::NotUnderCommand => 2,
            NavigationStatus::RestrictedManeuverability => 3,
            NavigationStatus::ConstrainedByDraft => 4,
            NavigationStatus::Moored => 5,
            NavigationStatus::Aground => 6,
            NavigationStatus::EngagedInFishing => 7,
            NavigationStatus::UnderwaySailing => 8,
        }
    }

    /// The AIS code of the status, as reported in ship logs.
    pub fn code(&self) -> (r: u64)
        ensures
            r == self.spec_code(),
    {
        match self {
            NavigationStatus::UnderwayUsingEngine => 0,
            NavigationStatus::AtAnchor => 1,
            NavigationStatus::NotUnderCommand => 2,
            NavigationStatus::RestrictedManeuverability => 3,
            NavigationStatus::ConstrainedByDraft => 4,
            NavigationStatus::Moored => 5,
            NavigationStatus::Aground => 6,
            NavigationStatus::EngagedInFishing => 7,
            NavigationStatus::UnderwaySailing => 8,
        }
    }
}

/// A sail: an area and the aerodynamic coefficients of its profile.
#[derive(Clone, Copy, Debug, PartialEq, Eq, Structural)]
pub struct Sail {
    /// Sail area in square centimeters.
    pub area_cm2: u64,
    /// Current angle of attack in micro-degrees.
    pub current_angle_of_attack_udeg: i64,
    /// Lift coefficient in thousandths.
    pub lift_coefficient_milli: i64,
    /// Drag coefficient in thousandths.
    pub drag_coefficient_milli: i64,
}

impl Sail {
    /// A new sail from its area, angle of attack and coefficients.
    pub fn new(
        area_cm2: u64,
        current_angle_of_attack_udeg: i64,
        lift_coefficient_milli: i64,
        drag_coefficient_milli: i64,
    ) -> (r: Sail)
        ensures
            r == (Sail {
                area_cm2,
                current_angle_of_attack_udeg,
                lift_coefficient_milli,
                drag_coefficient_milli,
            }),
    {
        Sail { area_cm2, current_angle_of_attack_udeg, lift_coefficient_milli, drag_coefficient_milli }
    }
}

/// A rudder: an area and the hydrodynamic coefficients of its profile.
#[derive(Clone, Copy, Debug, PartialEq, Eq, Structural)]
pub struct Rudder {
    /// Rudder area in square centimeters.
    pub area_cm2: u64,
    /// Current angle of attack in micro-degrees; negative turns to port.
    pub current_angle_of_attack_udeg: i64,
    /// Lift coefficient in thousandths.
    pub lift_coefficient_milli: i64,
    /// Drag coefficient in thousandths.
    pub drag_coefficient_milli: i64,
}

impl Rudder {
    /// A new rudder from its area, angle of attack and coefficients.
    pub fn new(
        area_cm2: u64,
        current_angle_of_attack_udeg: i64,
        lift_coefficient_milli: i64,
        drag_coefficient_milli: i64,
    ) -> (r: Rudder)
        ensures
            r == (Rudder {
                area_cm2,
                current_angle_of_attack_udeg,
                lift_coefficient_milli,
                drag_coefficient_milli,
            }),
    {
        Rudder { area_cm2, current_angle_of_attack_udeg, lift_coefficient_milli, drag_coefficient_milli }
    }
}

/// The side of the vessel, seen facing the bow.
#[derive(Clone, Copy, Debug, PartialEq, Eq, Structural)]
pub enum VesselSide {
    /// The left side.
    Port,
    /// The right side.
    Starboard,
}

/// The opposite side.
pub open spec fn spec_switched(s: VesselSide) -> VesselSide {
    match s {
        VesselSide::Port => VesselSide::Starboard,
        VesselSide::Starboard => VesselSide::Port,
    }
}

/// Switching sides twice returns to the starting side.
pub proof fn lemma_switch_involution(s: VesselSide)
    ensures
        spec_switched(spec_switched(s)) == s,
{
}

impl VesselSide {
    /// Switches the vessel side to the other side.
    pub fn switch(&mut self)
        ensures
            *final(self) == spec_switched(*old(self)),
            *final(self) != *old(self),
    {
        *self = match self {
            VesselSide::Port => VesselSide::Starboard,
            VesselSide::Starboard => VesselSide::Port,
        }
    }
}

/// One entry of the ship log.  Entries are appended once and never
/// rewritten.
#[derive(Clone, Copy, Debug, PartialEq, Eq, Structural)]
pub struct ShipLogEntry {
    /// Unix timestamp of the entry, in milliseconds.
    pub timestamp_ms: i64,
    /// Where the voyage began.
    pub coordinates_initial: GeoPoint,
    /// Where the vessel is at this entry.
    pub coordinates_current: GeoPoint,
    /// Where the voyage ends.
    pub coordinates_final: GeoPoint,
    /// Cargo on board, in kilograms.
    pub cargo_on_board: Option<u64>,
    /// Velocity of the vessel at this entry, in millimeters per second.
    pub velocity: Option<PhysVec>,
    /// Rhumb-line course from the initial to the final coordinates, in
    /// micro-degrees.
    pub course: Option<i64>,
    /// Commanded heading, in micro-degrees.
    pub heading: Option<i64>,
    /// Bearing from the previous entry's position to this one, in
    /// micro-degrees; absent on the first entry.
    pub track_angle: Option<i64>,
    /// Great-circle bearing from the vessel to the final coordinates, in
    /// micro-degrees.
    pub true_bearing: Option<i64>,
    /// Draft of the vessel, in millimeters.
    pub draft: Option<u64>,
    /// Navigational status at the time of the entry.
    pub navigation_status: Option<NavigationStatus>,
}

impl ShipLogEntry {
    /// A new entry from every field.
    pub fn new(
        timestamp_ms: i64,
        coord_initial: GeoPoint,
        coord_current: GeoPoint,
        coord_final: GeoPoint,
        cargo: Option<u64>,
        velocity: Option<PhysVec>,
        course: Option<i64>,
        heading: Option<i64>,
        track_angle: Option<i64>,
        true_bearing: Option<i64>,
        draft: Option<u64>,
        navigation_status: Option<NavigationStatus>,
    ) -> (r: ShipLogEntry)
        ensures
            r == (ShipLogEntry {
                timestamp_ms,
                coordinates_initial: coord_initial,
                coordinates_current: coord_current,
                coordinates_final: coord_final,
                cargo_on_board: cargo,
                velocity,
                course,
                heading,
                track_angle,
                true_bearing,
                draft,
                navigation_status,
            }),
    {
        ShipLogEntry {
            timestamp_ms,
            coordinates_initial: coord_initial,
            coordinates_current: coord_current,
            coordinates_final: coord_final,
            cargo_on_board: cargo,
            velocity,
            course,
            heading,
            track_angle,
            true_bearing,
            draft,
            navigation_status,
        }
    }
}

/// A boat and everything known about it; fields that need not be known are
/// optional.
pub struct Boat {
    /// Largest cargo mass the boat can carry, in kilograms.
    pub cargo_max_capacity: Option<u64>,
    /// Cargo currently on board, in kilograms.
    pub cargo_current: u64,
    /// Mean cargo carried over past trips, in kilograms.
    pub cargo_mean: Option<u64>,
    /// Standard deviation of the cargo carried, in kilograms.
    pub cargo_std: Option<u64>,
    /// IMO ship identification number.
    pub imo: Option<u32>,
    /// Smallest angle of attack relative to the wind the boat can sail, in
    /// micro-degrees.
    pub min_angle_of_attack: Option<i64>,
    /// Name of the boat.
    pub name: Option<String>,
    /// Navigational status.
    pub navigation_status: Option<NavigationStatus>,
    /// Current position.
    pub location: Option<GeoPoint>,
    /// Heading in micro-degrees: north 0°, east 90°, south 180°, west 270°.
    pub heading: Option<i64>,
    /// The sail.
    pub sail: Option<Sail>,
    /// The rudder.
    pub rudder: Option<Rudder>,
    /// The waypoint route to follow.
    pub route_plan: Option<Vec<SailingLeg>>,
    /// The leg currently sailed, counted from one.
    pub current_leg: Option<u32>,
    /// Length overall, in millimeters.
    pub length: Option<u64>,
    /// Beam, in millimeters.
    pub width: Option<u64>,
    /// Draft, in millimeters.
    pub draft: Option<u64>,
    /// Dry mass of the boat, in kilograms.
    pub mass: Option<u64>,
    /// Current velocity over ground, in millimeters per second.
    pub velocity_current: Option<PhysVec>,
    /// Mean speed through water, in millimeters per second.
    pub velocity_mean: Option<i64>,
    /// Standard deviation of the speed, in millimeters per second.
    pub velocity_std: Option<i64>,
    /// Preferred side for the wind to hit while tacking.
    pub wind_preferred_side: VesselSide,
    /// Drag coefficient of the hull, in thousandths.
    pub hull_drag_coefficient: Option<i64>,
    /// The ship log, appended once per sub-step.
    pub ship_log: Vec<ShipLogEntry>,
    /// The boat's current simulated time: a Unix timestamp in milliseconds.
    pub time_now_ms: i64,
    /// Great-circle bearing to the next waypoint, in micro-degrees.
    pub true_bearing: Option<i64>,
}

/// The heading that keeps the wind at the least sailable angle on the given
/// side: the wind angle plus the least angle of attack to port, minus it to
/// starboard, brought into `[0°, 360°)`.
pub open spec fn spec_hold_tack_heading(side: VesselSide, wind_udeg: int, aoa_udeg: int) -> int {
    match side {
        VesselSide::Port => (wind_udeg + aoa_udeg) % 360_000_000int,
        VesselSide::Starboard => (wind_udeg - aoa_udeg) % 360_000_000int,
    }
}

impl Boat {
    /// A new boat with nothing known yet: no cargo, an empty ship log, and
    /// the wind preferred to starboard, which has the right of way most
    /// often.
    pub fn new() -> (r: Boat)
        ensures
            r.cargo_max_capacity is None,
            r.cargo_current == 0,
            r.cargo_mean is None,
            r.cargo_std is None,
            r.imo is None,
            r.min_angle_of_attack is None,
            r.name is None,
            r.navigation_status is None,
            r.location is None,
            r.heading is None,
            r.sail is None,
            r.rudder is None,
            r.route_plan is None,
            r.current_leg is None,
            r.length is None,
            r.width is None,
            r.draft is None,
            r.mass is None,
            r.velocity_current is None,
            r.velocity_mean is None,
            r.velocity_std is None,
            r.wind_preferred_side == VesselSide::Starboard,
            r.hull_drag_coefficient is None,
            r.ship_log@ =~= Seq::<ShipLogEntry>::empty(),
            r.time_now_ms == 0,
            r.true_bearing is None,
    {
        Boat {
            cargo_max_capacity: None,
            cargo_current: 0,
            cargo_mean: None,
            cargo_std: None,
            imo: None,
            min_angle_of_attack: None,
            name: None,
            navigation_status: None,
            location: None,
            heading: None,
            sail: None,
            rudder: None,
            route_plan: None,
            current_leg: None,
            length: None,
            width: None,
            draft: None,
            mass: None,
            velocity_current: None,
            velocity_mean: None,
            velocity_std: None,
            wind_preferred_side: VesselSide::Starboard,
            hull_drag_coefficient: None,
            ship_log: Vec::new(),
            time_now_ms: 0,
            true_bearing: None,
        }
    }

    /// Keeps the boat on its current tack: the heading is set to the least
    /// sailable angle off the wind, on the preferred side, and always lands
    /// in `[0°, 360°)`.
    pub fn hold_tack(&mut self, wind_angle_udeg: i64)
        requires
            old(self).min_angle_of_attack matches Some(a) && 0 <= a <= 360_000_000,
            -1_000_000_000_000 <= wind_angle_udeg <= 1_000_000_000_000,
        ensures
            final(self).heading matches Some(h) && h == spec_hold_tack_heading(
                old(self).wind_preferred_side,
                wind_angle_udeg as int,
                old(self).min_angle_of_attack->0 as int,
            ),
            0 <= final(self).heading->0 < 360_000_000,
            *final(self) == (Boat { heading: final(self).heading, ..*old(self) }),
    {
        let aoa: i64 = match self.min_angle_of_attack {
            Some(a) => a,
            None => 0,
        };
        let raw: i64 = match self.wind_preferred_side {
            VesselSide::Port => wind_angle_udeg + aoa,
            VesselSide::Starboard => wind_angle_udeg - aoa,
        };
        self.heading = Some(euclid_mod_i64(raw, 360_000_000));
    }

    /// Tacks: the preferred wind side flips, and the heading follows the
    /// new side at the least sailable angle off the wind.
    pub fn tack(&mut self, wind_angle_udeg: i64)
        requires
            old(self).min_angle_of_attack matches Some(a) && 0 <= a <= 360_000_000,
            -1_000_000_000_000 <= wind_angle_udeg <= 1_000_000_000_000,
        ensures
            final(self).wind_preferred_side == spec_switched(old(self).wind_preferred_side),
            final(self).heading matches Some(h) && h == spec_hold_tack_heading(
                spec_switched(old(self).wind_preferred_side),
                wind_angle_udeg as int,
                old(self).min_angle_of_attack->0 as int,
            ),
            0 <= final(self).heading->0 < 360_000_000,
            *final(self) == (Boat {
                heading: final(self).heading,
                wind_preferred_side: final(self).wind_preferred_side,
                ..*old(self)
            }),
    {
        self.wind_preferred_side.switch();
        self.hold_tack(wind_angle_udeg);
    }

    /// Appends a new entry to the ship log at the boat's current time and
    /// position.  The first entry fixes the initial and final coordinates
    /// to the current position; later entries carry them over, report the
    /// rhumb-line course between them, and record the track angle from the
    /// previous entry's position.
    pub fn log_entry_into_ship_log(&mut self)
        requires
            old(self).location matches Some(p) && p.valid(),
            old(self).ship_log@.len() > 0 ==> (old(self).ship_log@.last().coordinates_initial.valid()
                && old(self).ship_log@.last().coordinates_final.valid()
                && old(self).ship_log@.last().coordinates_current.valid()),
        ensures
            final(self).ship_log@.len() == old(self).ship_log@.len() + 1,
            final(self).ship_log@.subrange(0, old(self).ship_log@.len() as int)
                =~= old(self).ship_log@,
            ({
                let e = final(self).ship_log@.last();
                let p = old(self).location->0;
                let ini = if old(self).ship_log@.len() == 0 {
                    p
                } else {
                    old(self).ship_log@.last().coordinates_initial
                };
                let fin = if old(self).ship_log@.len() == 0 {
                    p
                } else {
                    old(self).ship_log@.last().coordinates_final
                };
                &&& e.timestamp_ms == old(self).time_now_ms
                &&& e.coordinates_initial == ini
                &&& e.coordinates_current == p
                &&& e.coordinates_final == fin
                &&& e.cargo_on_board == Some(old(self).cargo_current)
                &&& e.velocity == old(self).velocity_current
                &&& e.course == Some(spec_rhumb_bearing_udeg(ini, fin) as i64)
                &&& e.track_angle == (if old(self).ship_log@.len() == 0 {
                    Option::<i64>::None
                } else {
                    Some(
                        spec_rhumb_bearing_udeg(
                            old(self).ship_log@.last().coordinates_current,
                            p,
                        ) as i64,
                    )
                })
                &&& e.heading == old(self).heading
                &&& e.true_bearing == old(self).true_bearing
                &&& e.draft == old(self).draft
                &&& e.navigation_status == old(self).navigation_status
            }),
            *final(self) == (Boat { ship_log: final(self).ship_log, ..*old(self) }),
    {
        let p: GeoPoint = match self.location {
            Some(q) => q,
            None => GeoPoint { lon_udeg: 0, lat_udeg: 0 },
        };
        let n: usize = self.ship_log.len();
        let (coord_initial, coord_final, track_angle): (GeoPoint, GeoPoint, Option<i64>) = if n
            == 0 {
            (p, p, None)
        } else {
            let last = &self.ship_log[n - 1];
            (
                last.coordinates_initial,
                last.coordinates_final,
                Some(rhumb_bearing_udeg(last.coordinates_current, p)),
            )
        };
        let course: i64 = rhumb_bearing_udeg(coord_initial, coord_final);
        let entry = ShipLogEntry {
            timestamp_ms: self.time_now_ms,
            coordinates_initial: coord_initial,
            coordinates_current: p,
            coordinates_final: coord_final,
            cargo_on_board: Some(self.cargo_current),
            velocity: self.velocity_current,
            course: Some(course),
            heading: self.heading,
            track_angle,
            true_bearing: self.true_bearing,
            draft: self.draft,
            navigation_status: self.navigation_status,
        };
        self.ship_log.push(entry);
    }

    /// Whether the vessel has arrived at the end waypoint of the leg it is
    /// sailing: within the leg's arrival proximity of it, or exactly on it.
    pub fn has_arrived(&self) -> (r: bool)
        requires
            self.route_plan matches Some(rp) && rp@.len() > 0 && spec_route_wf(rp@),
            self.current_leg matches Some(leg) && 1 <= leg <= self.route_plan->0@.len(),
            self.location matches Some(p) && p.valid(),
        ensures
            ({
                let leg = self.route_plan->0@[self.current_leg->0 - 1];
                let p = self.location->0;
                r == (spec_distance_mm(p, leg.p2) <= leg.min_proximity_mm || p == leg.p2)
            }),
    {
        let leg_ix: usize = match self.current_leg {
            Some(l) => (l - 1) as usize,
            None => 0,
        };
        let leg: SailingLeg = match &self.route_plan {
            Some(route) => route[leg_ix],
            None => SailingLeg {
                p1: GeoPoint { lon_udeg: 0, lat_udeg: 0 },
                p2: GeoPoint { lon_udeg: 0, lat_udeg: 0 },
                tacking_width_mm: 0,
                min_proximity_mm: 0,
            },
        };
        let here: GeoPoint = match self.location {
            Some(p) => p,
            None => GeoPoint { lon_udeg: 0, lat_udeg: 0 },
        };
        let d: u64 = distance_mm(here, leg.p2);
        d <= leg.min_proximity_mm || eq_points(here, leg.p2)
    }

    /// Moves on to the next leg of the route.  The result reports mission
    /// completion: true when the leg just finished was the final one, in
    /// which case the leg index stays put.
    pub fn advance(&mut self) -> (r: bool)
        requires
            old(self).route_plan matches Some(rp) && 0 < rp@.len() < 4_000_000_000,
            old(self).current_leg matches Some(leg) && 1 <= leg <= old(self).route_plan->0@.len(),
        ensures
            r == (old(self).current_leg->0 == old(self).route_plan->0@.len()),
            !r ==> final(self).current_leg == Some((old(self).current_leg->0 + 1) as u32),
            r ==> final(self).current_leg == old(self).current_leg,
            final(self).current_leg matches Some(leg) && 1 <= leg <= old(
                self,
            ).route_plan->0@.len(),
            *final(self) == (Boat { current_leg: final(self).current_leg, ..*old(self) }),
    {
        let total: usize = match &self.route_plan {
            Some(route) => route.len(),
            None => 0,
        };
        let leg_now: u32 = match self.current_leg {
            Some(l) => l,
            None => 1,
        };
        if leg_now as usize == total {
            return true;
        }
        self.current_leg = Some(leg_now + 1);
        false
    }

    /// Loads cargo after checking it against the boat's capacity; too heavy
    /// a load is refused and nothing changes.
    pub fn load_cargo(&mut self, cargo_kg: u64) -> (r: Result<(), SimError>)
        ensures
            (match old(self).cargo_max_capacity {
                Some(cap) => cargo_kg <= cap,
                None => true,
            }) ==> (r is Ok && final(self).cargo_current == cargo_kg && *final(self) == (Boat {
                cargo_current: cargo_kg,
                ..*old(self)
            })),
            (match old(self).cargo_max_capacity {
                Some(cap) => cargo_kg > cap,
                None => false,
            }) ==> (r == Result::<(), SimError>::Err(SimError::ConfigurationError) && *final(self)
                == *old(self)),
    {
        match self.cargo_max_capacity {
            Some(max_capacity) => {
                if cargo_kg > max_capacity {
                    return Err(SimError::ConfigurationError);
                }
            },
            None => {},
        }
        self.cargo_current = cargo_kg;
        Ok(())
    }
}


/// Holding a tack always commands a heading within `[0°, 360°)`, whatever
/// the wind angle and angle of attack.
pub proof fn lemma_hold_tack_heading_in_range(side: VesselSide, wind_udeg: int, aoa_udeg: int)
    ensures
        0 <= spec_hold_tack_heading(side, wind_udeg, aoa_udeg) < 360_000_000,
{
    match side {
        VesselSide::Port => {
            vstd::arithmetic::div_mod::lemma_mod_bound(wind_udeg + aoa_udeg, 360_000_000int);
        },
        VesselSide::Starboard => {
            vstd::arithmetic::div_mod::lemma_mod_bound(wind_udeg - aoa_udeg, 360_000_000int);
        },
    }
}

} // verus!
