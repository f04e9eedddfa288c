//! The discrete-time waypoint mission simulators.
//!
//! A run steps a [`Boat`] along its route plan in fixed time steps,
//! appending one [`ShipLogEntry`] per sub-step; the log is the only output
//! of a run.  Times are Unix milliseconds, speeds millimeters per second
//! and distances millimeters throughout.

use vstd::prelude::*;

use crate::errors::{SimError, SimStatus, StepOutcome};
use crate::geodesy::{
    bearing_udeg, destination, distance_mm, eq_points, min_distance_point_to_great_circle,
    rhumb_bearing_udeg, GeoPoint,
};
use crate::physics::PhysVec;
use crate::trig::{mul_i64, spec_tdiv, tdiv_i128};
use crate::vessels::{
    spec_hold_tack_heading, spec_route_wf, spec_switched, Boat, NavigationStatus, SailingLeg,
    ShipLogEntry, VesselSide,
};
use crate::angles::signed_half_turn;

verus! {

/// The simulation strategies.
#[derive(Clone, Copy, Debug, PartialEq, Eq, Structural)]
pub enum SimMethod {
    /// Sail at the boat's mean speed, straight at each waypoint.
    ConstVelocity,
    /// Sail at the mean speed plus a uniform random deviation each step.
    MeanAndSTDVelocity,
    /// Sail by wind and current data supplied from an outside weather
    /// source, tacking within each leg's corridor.
    WeatherDataFromCopernicus,
}

/// The configuration of a simulation run.
pub struct Simulation {
    /// The strategy to simulate with.
    pub simulation_method: SimMethod,
    /// Start times of the runs, as Unix milliseconds.
    pub start_times_ms: Vec<i64>,
    /// The fixed time step, in milliseconds.
    pub time_step_ms: i64,
    /// The largest number of iterations a run may take.
    pub max_iterations: usize,
    /// Name of a weather data file, for the weather-driven strategy.
    pub weather_data_file: Option<String>,
}

impl Simulation {
    /// A usable configuration: a positive time step of at most one
    /// thousand days.
    pub open spec fn well_formed(self) -> bool {
        1 <= self.time_step_ms <= 86_400_000_000
    }

    /// A new simulation from its parameters.
    pub fn new(
        simulation_method: SimMethod,
        start_times_ms: Vec<i64>,
        time_step_ms: i64,
        max_iterations: usize,
        weather_data_file: Option<String>,
    ) -> (r: Simulation)
        ensures
            r.simulation_method == simulation_method,
            r.start_times_ms == start_times_ms,
            r.time_step_ms == time_step_ms,
            r.max_iterations == max_iterations,
            r.weather_data_file == weather_data_file,
    {
        Simulation { simulation_method, start_times_ms, time_step_ms, max_iterations, weather_data_file }
    }
}

/// Checks a route plan before a run: it must have at least one leg, and
/// every leg must have valid, distinct endpoints.
pub fn validate_route(route: &Vec<SailingLeg>) -> (r: Result<(), SimError>)
    ensures
        r is Ok <==> route@.len() > 0 && spec_route_wf(route@),
        r is Err ==> (r == Result::<(), SimError>::Err(SimError::ConfigurationError) <==> route@.len()
            == 0),
        r is Err && route@.len() > 0 ==> r == Result::<(), SimError>::Err(
            SimError::InvalidRouteGeometry,
        ),
{
    if route.len() == 0 {
        return Err(SimError::ConfigurationError);
    }
    let mut i: usize = 0;
    while i < route.len()
        invariant
            i <= route@.len(),
            forall|j: int| 0 <= j < i ==> (#[trigger] route@[j]).well_formed(),
        decreases route@.len() - i,
    {
        let leg = &route[i];
        let p1_ok = -180_000_000 <= leg.p1.lon_udeg && leg.p1.lon_udeg < 360_000_000
            && -90_000_000 <= leg.p1.lat_udeg && leg.p1.lat_udeg <= 90_000_000;
        let p2_ok = -180_000_000 <= leg.p2.lon_udeg && leg.p2.lon_udeg < 360_000_000
            && -90_000_000 <= leg.p2.lat_udeg && leg.p2.lat_udeg <= 90_000_000;
        if !(p1_ok && p2_ok) || eq_points(leg.p1, leg.p2) || leg.tacking_width_mm
            > 100_000_000_000 || leg.min_proximity_mm > 100_000_000_000 {
            return Err(SimError::InvalidRouteGeometry);
        }
        i = i + 1;
    }
    Ok(())
}

/// The distance sailed in one full time step at a given speed: speed in
/// millimeters per second times the step in milliseconds, over one
/// thousand.
pub open spec fn spec_travel_mm(v: int, step_ms: int) -> int {
    spec_tdiv(v * step_ms, 1000)
}

/// A run's appended log entries carry timestamps in arithmetic progression
/// from the run's start.
pub open spec fn log_timestamps_arithmetic(
    log: Seq<ShipLogEntry>,
    base: int,
    start: int,
    step: int,
) -> bool {
    forall|j: int| base <= j < log.len() ==> (#[trigger] log[j]).timestamp_ms == start + (j - base)
        * step
}

/// The start of a run, truncated to a whole second as timestamps are
/// reported.
pub open spec fn spec_start_floor(start: int) -> int {
    start - (start % 1000)
}

/// Whether the constant-speed strategy refuses a configuration outright:
/// no mean speed, or no route to sail.
pub open spec fn spec_constant_config_refused(b: Boat) -> bool {
    b.velocity_mean is None || b.route_plan is None || (b.route_plan matches Some(route)
        && route@.len() == 0)
}

/// Whether the mean-and-deviation strategy refuses a configuration
/// outright: no mean speed, no deviation, or no route to sail.
pub open spec fn spec_mean_std_config_refused(b: Boat) -> bool {
    b.velocity_mean is None || b.velocity_std is None || b.route_plan is None || (
    b.route_plan matches Some(route) && route@.len() == 0)
}

/// Whether a present, non-empty route plan is refused for its geometry.
pub open spec fn spec_route_geometry_refused(b: Boat) -> bool {
    b.route_plan matches Some(route) && route@.len() > 0 && !spec_route_wf(route@)
}

/// Whether a run over the full iteration budget could leave the timestamp
/// range the stepping loops guard; a run that starts safely below this
/// bound is owed a result.
pub open spec fn spec_timestamps_can_overflow(start: int, sim: Simulation) -> bool {
    spec_start_floor(start) + sim.max_iterations * sim.time_step_ms > 4_611_686_018_427_387_903
}

/// What every one-shot run guarantees of the ship log, whether it finished
/// or stopped on a timestamp overflow: the old entries stay an untouched
/// prefix; the starting entry sits at the floored start time on the first
/// waypoint with no track angle; every appended entry carries the voyage
/// endpoints; and the configuration fields are untouched.
pub open spec fn spec_run_log_post(b0: Boat, b1: Boat, start: int) -> bool {
    let route = b0.route_plan->0@;
    let base = b0.ship_log@.len() as int;
    let log = b1.ship_log@;
    let floor = spec_start_floor(start);
    &&& log.len() > base
    &&& log.subrange(0, base) =~= b0.ship_log@
    &&& log[base].timestamp_ms == floor
    &&& log[base].coordinates_current == route[0].p1
    &&& log[base].track_angle is None
    &&& (forall|j: int|
        base <= j < log.len() ==> ((#[trigger] log[j]).coordinates_initial == route[0].p1
            && log[j].coordinates_final == route[route.len() - 1].p2))
    &&& b1.velocity_mean == b0.velocity_mean
    &&& b1.velocity_std == b0.velocity_std
    &&& b1.route_plan == b0.route_plan
    &&& b1.cargo_current == b0.cargo_current
    &&& b1.velocity_current == b0.velocity_current
    &&& b1.wind_preferred_side == b0.wind_preferred_side
    &&& b1.min_angle_of_attack == b0.min_angle_of_attack
}

/// One iteration of the waypoint-following recurrence: from a position and
/// a one-based leg index, spend the iteration's travel budget by hopping
/// whole waypoints while the budget exceeds the distance to the next one,
/// then moving the remainder along the great circle toward it.  The flag
/// reports arrival at the route's final waypoint.
pub open spec fn spec_leg_advance(
    route: Seq<SailingLeg>,
    fin: GeoPoint,
    loc: GeoPoint,
    g: int,
    travel: int,
) -> (GeoPoint, int, bool)
    decreases route.len() - g,
{
    if travel <= 0 || g < 1 || g > route.len() {
        (loc, g, false)
    } else {
        let d = crate::geodesy::spec_distance_mm(loc, route[g - 1].p2);
        if travel > d {
            if route[g - 1].p2 == fin || g >= route.len() {
                (route[g - 1].p2, g, true)
            } else {
                spec_leg_advance(route, fin, route[g - 1].p2, g + 1, travel - d)
            }
        } else {
            (
                crate::geodesy::spec_destination(
                    loc,
                    crate::geodesy::spec_bearing_udeg(loc, route[g - 1].p2),
                    travel,
                ),
                g,
                false,
            )
        }
    }
}

/// The position, leg and arrival flag after `k` iterations of the
/// recurrence, one travel budget per iteration; arrival is absorbing.
pub open spec fn spec_run_state(
    route: Seq<SailingLeg>,
    fin: GeoPoint,
    loc: GeoPoint,
    g: int,
    travels: Seq<int>,
    k: nat,
) -> (GeoPoint, int, bool)
    decreases k,
{
    if k == 0 {
        (loc, g, false)
    } else {
        let prev = spec_run_state(route, fin, loc, g, travels, (k - 1) as nat);
        if prev.2 {
            prev
        } else {
            spec_leg_advance(route, fin, prev.0, prev.1, travels[k - 1])
        }
    }
}

/// The travel budgets of a constant-speed run: the same distance every
/// iteration.
pub open spec fn spec_constant_travels(tr: int, n: nat) -> Seq<int> {
    Seq::new(n, |i: int| tr)
}

/// Arrival is absorbing: once the recurrence reaches the final waypoint,
/// every later state is that same state.
pub proof fn lemma_run_state_absorbs(
    route: Seq<SailingLeg>,
    fin: GeoPoint,
    loc: GeoPoint,
    g: int,
    travels: Seq<int>,
    k1: nat,
    k2: nat,
)
    requires
        k1 <= k2,
        spec_run_state(route, fin, loc, g, travels, k1).2,
    ensures
        spec_run_state(route, fin, loc, g, travels, k2) == spec_run_state(
            route,
            fin,
            loc,
            g,
            travels,
            k1,
        ),
    decreases k2,
{
    if k2 > k1 {
        lemma_run_state_absorbs(route, fin, loc, g, travels, k1, (k2 - 1) as nat);
    }
}

/// The recurrence reads only the budgets of the iterations it has taken,
/// so two budget sequences that agree on those give the same state.
pub proof fn lemma_run_state_prefix(
    route: Seq<SailingLeg>,
    fin: GeoPoint,
    loc: GeoPoint,
    g: int,
    ts1: Seq<int>,
    ts2: Seq<int>,
    k: nat,
)
    requires
        k <= ts1.len(),
        k <= ts2.len(),
        forall|i: int| 0 <= i < k ==> ts1[i] == ts2[i],
    ensures
        spec_run_state(route, fin, loc, g, ts1, k) == spec_run_state(route, fin, loc, g, ts2, k),
    decreases k,
{
    if k > 0 {
        lemma_run_state_prefix(route, fin, loc, g, ts1, ts2, (k - 1) as nat);
    }
}

/// Truncating division by a positive divisor is monotone.
pub proof fn lemma_tdiv_monotone(a: int, b: int, d: int)
    requires
        a <= b,
        1 <= d,
    ensures
        spec_tdiv(a, d) <= spec_tdiv(b, d),
{
    if a >= 0 {
        vstd::arithmetic::div_mod::lemma_div_is_ordered(a, b, d);
    } else if b < 0 {
        vstd::arithmetic::div_mod::lemma_div_is_ordered(-b, -a, d);
    } else {
        vstd::arithmetic::div_mod::lemma_div_pos_is_pos(-a, d);
        vstd::arithmetic::div_mod::lemma_div_pos_is_pos(b, d);
    }
}

/// A run whose speed deviation is zero draws the same travel budget every
/// iteration, so any budget sequence within its two-sided band is the
/// constant-speed sequence and the random-speed recurrence coincides with
/// the constant-speed one.
pub proof fn lemma_zero_deviation_budgets(v: int, step: int, ts: Seq<int>, n: nat)
    requires
        ts.len() == n,
        forall|k: int|
            0 <= k < n ==> spec_travel_mm(v - 0, step) <= #[trigger] ts[k] <= spec_travel_mm(
                v + 0,
                step,
            ),
    ensures
        ts =~= spec_constant_travels(spec_travel_mm(v, step), n),
{
}

/// Simulates the boat sailing its route plan at its constant mean speed,
/// heading straight at each waypoint.
///
/// The boat starts at the first leg's start waypoint.  Each iteration
/// spends one full time step of travel; when the travel distance would
/// overshoot the waypoint, the remainder carries over to the following
/// legs within the same iteration.  One log entry is appended per
/// iteration, with timestamps in whole time steps from the start, and a
/// final entry marks arrival at the last waypoint.
#[verifier::rlimit(100)]
pub fn sim_waypoint_mission_constant_velocity(
    boat: &mut Boat,
    start_time_ms: i64,
    simulation: &Simulation,
) -> (r: Result<SimStatus, SimError>)
    requires
        simulation.well_formed(),
        -4_000_000_000_000_000 <= start_time_ms <= 4_000_000_000_000_000,
        old(boat).velocity_mean matches Some(v) ==> -100_000_000_000 <= v <= 100_000_000_000,
        old(boat).route_plan matches Some(rp) ==> rp@.len() < 4_000_000_000,
    ensures
        r == Result::<SimStatus, SimError>::Err(SimError::ConfigurationError)
            <==> spec_constant_config_refused(*old(boat)),
        r == Result::<SimStatus, SimError>::Err(SimError::InvalidRouteGeometry) <==> (old(
            boat,
        ).velocity_mean is Some && spec_route_geometry_refused(*old(boat))),
        (r is Err && !(r == Result::<SimStatus, SimError>::Err(SimError::ArithmeticOverflow)))
            ==> *final(boat) == *old(boat),
        !spec_constant_config_refused(*old(boat)) && !spec_route_geometry_refused(*old(boat))
            && !spec_timestamps_can_overflow(start_time_ms as int, *simulation) ==> r is Ok,
        r == Result::<SimStatus, SimError>::Err(SimError::ArithmeticOverflow)
            ==> spec_timestamps_can_overflow(start_time_ms as int, *simulation),
        (r is Ok || r == Result::<SimStatus, SimError>::Err(SimError::ArithmeticOverflow)) ==> ({
            let base = old(boat).ship_log@.len() as int;
            let log = final(boat).ship_log@;
            let v = old(boat).velocity_mean->0;
            &&& spec_run_log_post(*old(boat), *final(boat), start_time_ms as int)
            &&& log_timestamps_arithmetic(
                log,
                base,
                spec_start_floor(start_time_ms as int),
                simulation.time_step_ms as int,
            )
            &&& log[base].velocity == Some(
                PhysVec {
                    magnitude: if v >= 0 {
                        v
                    } else {
                        0
                    },
                    angle_udeg: 0,
                },
            )
        }),
        r is Ok ==> ({
            let route = old(boat).route_plan->0@;
            let base = old(boat).ship_log@.len() as int;
            let log = final(boat).ship_log@;
            let tr = spec_travel_mm(
                old(boat).velocity_mean->0 as int,
                simulation.time_step_ms as int,
            );
            &&& (r == Result::<SimStatus, SimError>::Ok(SimStatus::Completed) ==> log.last()
                .coordinates_current == route[route.len() - 1].p2)
            &&& (r == Result::<SimStatus, SimError>::Ok(SimStatus::IterationsExhausted) && tr > 0
                ==> log.len() == base + 1 + simulation.max_iterations)
            &&& log.len() <= base + 2 + simulation.max_iterations
            &&& ({
                let fin = route[route.len() - 1].p2;
                let budgets = spec_constant_travels(tr, simulation.max_iterations as nat);
                let end = spec_run_state(
                    route,
                    fin,
                    route[0].p1,
                    1,
                    budgets,
                    simulation.max_iterations as nat,
                );
                &&& (r == Result::<SimStatus, SimError>::Ok(SimStatus::Completed) <==> end.2)
                &&& final(boat).location == Some(end.0)
                &&& (final(boat).current_leg matches Some(leg) && leg as int == end.1)
                &&& (tr > 0 ==> forall|j: int|
                    base < j < log.len() ==> (#[trigger] log[j]).coordinates_current
                        == spec_run_state(
                        route,
                        fin,
                        route[0].p1,
                        1,
                        budgets,
                        (j - base) as nat,
                    ).0)
            })
        }),
{
    let v: i64 = match boat.velocity_mean {
        Some(v) => v,
        None => {
            return Err(SimError::ConfigurationError);
        },
    };
    match &boat.route_plan {
        Some(route) => {
            match validate_route(route) {
                Ok(()) => {},
                Err(e) => {
                    return Err(e);
                },
            }
        },
        None => {
            return Err(SimError::ConfigurationError);
        },
    }
    let ghost route: Seq<SailingLeg> = boat.route_plan->0@;
    let total_legs: usize = match &boat.route_plan {
        Some(route) => route.len(),
        None => 0,
    };
    let (first_p1, coordinates_final): (GeoPoint, GeoPoint) = match &boat.route_plan {
        Some(route) => (route[0].p1, route[total_legs - 1].p2),
        None => (GeoPoint { lon_udeg: 0, lat_udeg: 0 }, GeoPoint { lon_udeg: 0, lat_udeg: 0 }),
    };
    boat.location = Some(first_p1);
    boat.current_leg = Some(1);
    let coordinates_initial: GeoPoint = first_p1;

    let start_floor: i64 = start_time_ms - crate::angles::euclid_mod_i64(start_time_ms, 1000);
    let ghost base: int = boat.ship_log@.len() as int;
    let first_entry = ShipLogEntry {
        timestamp_ms: start_floor,
        coordinates_initial,
        coordinates_current: coordinates_initial,
        coordinates_final,
        cargo_on_board: Some(boat.cargo_current),
        velocity: Some(PhysVec { magnitude: if v >= 0 { v } else { 0 }, angle_udeg: 0 }),
        course: None,
        heading: None,
        track_angle: None,
        true_bearing: None,
        draft: None,
        navigation_status: None,
    };
    boat.ship_log.push(first_entry);
    proof {
        assert(boat.ship_log@[base] == first_entry);
        assert(boat.ship_log@.subrange(0, base) =~= old(boat).ship_log@);
        assert forall|j: int| base <= j < boat.ship_log@.len() implies (#[trigger] boat.ship_log@[
            j
        ]).timestamp_ms == start_floor + (j - base) * simulation.time_step_ms by {
            assert(j == base);
            assert((j - base) * (simulation.time_step_ms as int) == 0) by (nonlinear_arith)
                requires
                    j - base == 0,
            ;
        }
        assert(boat.location->0 == route[0].p1);
    }

    let step: i64 = simulation.time_step_ms;
    let ghost tr: int = spec_travel_mm(v as int, step as int);
    let mut i: usize = 0;
    while i < simulation.max_iterations
        invariant
            simulation.well_formed(),
            step == simulation.time_step_ms,
            -100_000_000_000 <= v <= 100_000_000_000,
            -4_000_000_000_000_000 <= start_floor <= 4_000_000_000_000_000,
            i <= simulation.max_iterations,
            old(boat).velocity_mean == Some(v),
            boat.velocity_mean == old(boat).velocity_mean,
            boat.velocity_std == old(boat).velocity_std,
            boat.route_plan == old(boat).route_plan,
            boat.cargo_current == old(boat).cargo_current,
            boat.velocity_current == old(boat).velocity_current,
            boat.wind_preferred_side == old(boat).wind_preferred_side,
            boat.min_angle_of_attack == old(boat).min_angle_of_attack,
            old(boat).route_plan matches Some(rp0) && rp0@ =~= route,
            base == old(boat).ship_log@.len(),
            start_floor as int == spec_start_floor(start_time_ms as int),
            boat.route_plan matches Some(rp) && rp@ =~= route,
            route.len() == total_legs > 0,
            total_legs < 4_000_000_000,
            spec_route_wf(route),
            boat.current_leg matches Some(leg) && 1 <= leg <= total_legs,
            boat.location matches Some(p) && p.valid(),
            coordinates_final == route[total_legs - 1].p2,
            tr == spec_travel_mm(v as int, step as int),
            base + 1 <= boat.ship_log@.len(),
            boat.ship_log@.subrange(0, base) =~= old(boat).ship_log@,
            boat.ship_log@[base].timestamp_ms == start_floor,
            boat.ship_log@[base].coordinates_current == route[0].p1,
            boat.ship_log@[base].track_angle is None,
            boat.ship_log@[base].velocity == Some(
                PhysVec {
                    magnitude: if v >= 0 {
                        v
                    } else {
                        0
                    },
                    angle_udeg: 0,
                },
            ),
            log_timestamps_arithmetic(boat.ship_log@, base, start_floor as int, step as int),
            coordinates_initial == route[0].p1,
            forall|j: int|
                base <= j < boat.ship_log@.len()
                    ==> ((#[trigger] boat.ship_log@[j]).coordinates_initial == coordinates_initial
                    && boat.ship_log@[j].coordinates_final == coordinates_final),
            tr > 0 ==> boat.ship_log@.len() == base + 1 + i,
            tr <= 0 ==> boat.ship_log@.len() == base + 1,
            spec_run_state(
                route,
                coordinates_final,
                route[0].p1,
                1,
                spec_constant_travels(tr, simulation.max_iterations as nat),
                i as nat,
            ) == (boat.location->0, boat.current_leg->0 as int, false),
            tr > 0 ==> forall|j: int|
                base < j < boat.ship_log@.len() ==> (#[trigger] boat.ship_log@[
                    j
                ]).coordinates_current == spec_run_state(
                    route,
                    coordinates_final,
                    route[0].p1,
                    1,
                    spec_constant_travels(tr, simulation.max_iterations as nat),
                    (j - base) as nat,
                ).0,
        decreases simulation.max_iterations - i,
    {
        let p128: i128 = mul_i64(v, step);
        proof {
            assert(-8_640_000_000_000_000_000_000i128 <= (v as int) * (step as int)
                <= 8_640_000_000_000_000_000_000i128) by (nonlinear_arith)
                requires
                    -100_000_000_000 <= v <= 100_000_000_000,
                    1 <= step <= 86_400_000_000,
            ;
        }
        let travel128: i128 = tdiv_i128(p128, 1000);
        proof {
            if p128 >= 0 {
                vstd::arithmetic::div_mod::lemma_div_is_ordered(
                    p128 as int,
                    8_640_000_000_000_000_000_000int,
                    1000int,
                );
            } else {
                vstd::arithmetic::div_mod::lemma_div_is_ordered(
                    -(p128 as int),
                    8_640_000_000_000_000_000_000int,
                    1000int,
                );
            }
        }
        let mut travel: i64 = travel128 as i64;
        let ghost len0: int = boat.ship_log@.len() as int;
        let mut logged: bool = false;
        proof {
            assert(0 <= (step as i128) * ((i + 1) as i128)
                <= 86_400_000_000i128 * 20_000_000_000_000_000_000i128) by (nonlinear_arith)
                requires
                    1 <= step <= 86_400_000_000,
                    0 <= i + 1 <= 20_000_000_000_000_000_000,
            ;
        }
        let ts128: i128 = (start_floor as i128) + (step as i128) * ((i + 1) as i128);
        if ts128 > 4_611_686_018_427_387_903i128 {
            proof {
                assert((step as int) * ((i + 1) as int) <= (simulation.max_iterations as int) * (
                step as int)) by (nonlinear_arith)
                    requires
                        0 < i + 1 <= simulation.max_iterations,
                        step >= 1,
                ;
            }
            return Err(SimError::ArithmeticOverflow);
        }
        let ts: i64 = ts128 as i64;
        let ghost loc0: GeoPoint = boat.location->0;
        let ghost g0: int = boat.current_leg->0 as int;
        proof {
            assert((step as int) * ((i + 1) as int) == ((i + 1) as int) * (step as int))
                by (nonlinear_arith);
            assert(spec_constant_travels(tr, simulation.max_iterations as nat)[i as int] == tr);
        }
        while travel > 0
            invariant
                simulation.well_formed(),
                step == simulation.time_step_ms,
                i < simulation.max_iterations,
                old(boat).velocity_mean == Some(v),
                boat.velocity_mean == old(boat).velocity_mean,
                boat.velocity_std == old(boat).velocity_std,
                boat.route_plan == old(boat).route_plan,
                boat.cargo_current == old(boat).cargo_current,
                boat.velocity_current == old(boat).velocity_current,
                boat.wind_preferred_side == old(boat).wind_preferred_side,
                boat.min_angle_of_attack == old(boat).min_angle_of_attack,
                old(boat).route_plan matches Some(rp0) && rp0@ =~= route,
                base == old(boat).ship_log@.len(),
                start_floor as int == spec_start_floor(start_time_ms as int),
                boat.route_plan matches Some(rp) && rp@ =~= route,
                route.len() == total_legs > 0,
                total_legs < 4_000_000_000,
                spec_route_wf(route),
                boat.current_leg matches Some(leg) && 1 <= leg <= total_legs,
                boat.location matches Some(p) && p.valid(),
                coordinates_final == route[total_legs - 1].p2,
                logged ==> (travel == 0 && boat.ship_log@.len() == len0 + 1),
                logged ==> tr > 0,
                !logged ==> boat.ship_log@.len() == len0,
                !logged ==> (travel as int == tr || travel > 0),
                travel > 0 ==> tr > 0,
                tr == spec_travel_mm(v as int, step as int),
                len0 == base + (if tr > 0 { 1 + i } else { 1int }),
                base + 1 <= len0,
                boat.ship_log@.subrange(0, base) =~= old(boat).ship_log@,
                boat.ship_log@[base].timestamp_ms == start_floor,
                boat.ship_log@[base].coordinates_current == route[0].p1,
                boat.ship_log@[base].track_angle is None,
                boat.ship_log@[base].velocity == Some(
                    PhysVec {
                        magnitude: if v >= 0 {
                            v
                        } else {
                            0
                        },
                        angle_udeg: 0,
                    },
                ),
                log_timestamps_arithmetic(boat.ship_log@, base, start_floor as int, step as int),
                coordinates_initial == route[0].p1,
                forall|j: int|
                    base <= j < boat.ship_log@.len()
                        ==> ((#[trigger] boat.ship_log@[j]).coordinates_initial
                        == coordinates_initial && boat.ship_log@[j].coordinates_final
                        == coordinates_final),
                ts == spec_start_floor(start_time_ms as int) + (i + 1) * step,
                spec_leg_advance(
                    route,
                    coordinates_final,
                    boat.location->0,
                    boat.current_leg->0 as int,
                    travel as int,
                ) == spec_leg_advance(route, coordinates_final, loc0, g0, tr),
                spec_run_state(
                    route,
                    coordinates_final,
                    route[0].p1,
                    1,
                    spec_constant_travels(tr, simulation.max_iterations as nat),
                    i as nat,
                ) == (loc0, g0, false),
                spec_constant_travels(tr, simulation.max_iterations as nat)[i as int] == tr,
                tr > 0 ==> forall|j: int|
                    base < j < boat.ship_log@.len() ==> (#[trigger] boat.ship_log@[
                        j
                    ]).coordinates_current == spec_run_state(
                        route,
                        coordinates_final,
                        route[0].p1,
                        1,
                        spec_constant_travels(tr, simulation.max_iterations as nat),
                        (j - base) as nat,
                    ).0,
            decreases total_legs - boat.current_leg->0, travel,
        {
            let leg_ix: usize = match boat.current_leg {
                Some(l) => (l - 1) as usize,
                None => 0,
            };
            let next_waypoint: GeoPoint = match &boat.route_plan {
                Some(route) => route[leg_ix].p2,
                None => GeoPoint { lon_udeg: 0, lat_udeg: 0 },
            };
            let here: GeoPoint = match boat.location {
                Some(p) => p,
                None => GeoPoint { lon_udeg: 0, lat_udeg: 0 },
            };
            let dist_to_next: u64 = distance_mm(here, next_waypoint);
            if travel > dist_to_next as i64 {
                boat.location = Some(next_waypoint);
                if eq_points(next_waypoint, coordinates_final) {
                    let last_ts: i64 = ts;
                    let entry = ShipLogEntry {
                        timestamp_ms: last_ts,
                        coordinates_initial,
                        coordinates_current: next_waypoint,
                        coordinates_final,
                        cargo_on_board: Some(boat.cargo_current),
                        velocity: Some(
                            PhysVec {
                                magnitude: if v >= 0 { v } else { 0 },
                                angle_udeg: match boat.heading {
                                    Some(h) => h,
                                    None => 0,
                                },
                            },
                        ),
                        course: None,
                        heading: boat.heading,
                        track_angle: None,
                        true_bearing: None,
                        draft: None,
                        navigation_status: None,
                    };
                    boat.ship_log.push(entry);
                    proof {
                        let g_cur = boat.current_leg->0 as int;
                        assert(spec_leg_advance(route, coordinates_final, here, g_cur, travel as int)
                            == (next_waypoint, g_cur, true));
                        assert(spec_run_state(
                            route,
                            coordinates_final,
                            route[0].p1,
                            1,
                            spec_constant_travels(tr, simulation.max_iterations as nat),
                            (i + 1) as nat,
                        ) == (next_waypoint, g_cur, true));
                        lemma_run_state_absorbs(
                            route,
                            coordinates_final,
                            route[0].p1,
                            1,
                            spec_constant_travels(tr, simulation.max_iterations as nat),
                            (i + 1) as nat,
                            simulation.max_iterations as nat,
                        );
                    }
                    return Ok(SimStatus::Completed);
                }
                proof {
                    assert(boat.current_leg->0 < total_legs);
                }
                let leg_now: u32 = match boat.current_leg {
                    Some(l) => l,
                    None => 1,
                };
                boat.current_leg = Some(leg_now + 1);
                travel = travel - (dist_to_next as i64);
            } else {
                let b: i64 = bearing_udeg(here, next_waypoint);
                boat.heading = Some(b);
                let new_location: GeoPoint = destination(here, b, travel as u64);
                boat.location = Some(new_location);
                let entry = ShipLogEntry {
                    timestamp_ms: ts,
                    coordinates_initial,
                    coordinates_current: new_location,
                    coordinates_final,
                    cargo_on_board: Some(boat.cargo_current),
                    velocity: Some(
                        PhysVec {
                            magnitude: if v >= 0 { v } else { 0 },
                            angle_udeg: b,
                        },
                    ),
                    course: None,
                    heading: boat.heading,
                    track_angle: None,
                    true_bearing: None,
                    draft: None,
                    navigation_status: None,
                };
                boat.ship_log.push(entry);
                proof {
                    let g_cur = boat.current_leg->0 as int;
                    assert(spec_leg_advance(route, coordinates_final, here, g_cur, travel as int)
                        == (new_location, g_cur, false));
                    assert(spec_run_state(
                        route,
                        coordinates_final,
                        route[0].p1,
                        1,
                        spec_constant_travels(tr, simulation.max_iterations as nat),
                        (i + 1) as nat,
                    ) == (new_location, g_cur, false));
                }
                logged = true;
                travel = 0;
            }
        }
        proof {
            if tr > 0 {
                assert(logged);
            }
            assert(spec_leg_advance(
                route,
                coordinates_final,
                boat.location->0,
                boat.current_leg->0 as int,
                travel as int,
            ) == (boat.location->0, boat.current_leg->0 as int, false));
            assert(spec_run_state(
                route,
                coordinates_final,
                route[0].p1,
                1,
                spec_constant_travels(tr, simulation.max_iterations as nat),
                (i + 1) as nat,
            ) == (boat.location->0, boat.current_leg->0 as int, false));
        }
        i = i + 1;
    }
    Ok(SimStatus::IterationsExhausted)
}


/// Relies on rand::random_range: a uniform draw from the given inclusive
/// range; every outcome lies within the range.
#[verifier::external_body]
fn draw_uniform_permille() -> (r: i64)
    ensures
        -1000 <= r <= 1000,
{
    rand::random_range(-1000i64..=1000i64)
}

/// Simulates the boat sailing its route plan at its mean speed plus a
/// uniform random deviation of up to one standard deviation, drawn anew
/// each iteration, heading straight at each waypoint.
///
/// Iterations whose drawn speed is zero or negative pass without movement
/// or a log entry, so appended timestamps are strictly increasing but may
/// skip steps; when the mean exceeds the deviation and the step is at
/// least a second, every iteration logs and the timestamps advance in
/// whole steps exactly as under the constant-speed strategy.
#[verifier::rlimit(100)]
pub fn sim_waypoint_mission_mean_and_std_velocity(
    boat: &mut Boat,
    start_time_ms: i64,
    simulation: &Simulation,
) -> (r: Result<SimStatus, SimError>)
    requires
        simulation.well_formed(),
        -4_000_000_000_000_000 <= start_time_ms <= 4_000_000_000_000_000,
        old(boat).velocity_mean matches Some(v) ==> -50_000_000_000 <= v <= 50_000_000_000,
        old(boat).velocity_std matches Some(sd) ==> -50_000_000_000 <= sd <= 50_000_000_000,
        old(boat).route_plan matches Some(rp) ==> rp@.len() < 4_000_000_000,
    ensures
        r == Result::<SimStatus, SimError>::Err(SimError::ConfigurationError)
            <==> spec_mean_std_config_refused(*old(boat)),
        r == Result::<SimStatus, SimError>::Err(SimError::InvalidRouteGeometry) <==> (old(
            boat,
        ).velocity_mean is Some && old(boat).velocity_std is Some && spec_route_geometry_refused(
            *old(boat),
        )),
        (r is Err && !(r == Result::<SimStatus, SimError>::Err(SimError::ArithmeticOverflow)))
            ==> *final(boat) == *old(boat),
        !spec_mean_std_config_refused(*old(boat)) && !spec_route_geometry_refused(*old(boat))
            && !spec_timestamps_can_overflow(start_time_ms as int, *simulation) ==> r is Ok,
        r == Result::<SimStatus, SimError>::Err(SimError::ArithmeticOverflow)
            ==> spec_timestamps_can_overflow(start_time_ms as int, *simulation),
        (r is Ok || r == Result::<SimStatus, SimError>::Err(SimError::ArithmeticOverflow)) ==> ({
            let base = old(boat).ship_log@.len() as int;
            let log = final(boat).ship_log@;
            let floor = spec_start_floor(start_time_ms as int);
            let step = simulation.time_step_ms as int;
            let v = old(boat).velocity_mean->0 as int;
            let sd0 = old(boat).velocity_std->0 as int;
            let sd = if sd0 < 0 {
                -sd0
            } else {
                sd0
            };
            &&& spec_run_log_post(*old(boat), *final(boat), start_time_ms as int)
            &&& log[base].velocity is None
            &&& (forall|j: int|
                base < j < log.len() ==> (#[trigger] log[j]).timestamp_ms > log[j - 1].timestamp_ms)
            &&& (v - sd >= 1 && step >= 1000 ==> log_timestamps_arithmetic(log, base, floor, step))
            &&& (forall|j: int|
                base < j < log.len() ==> ((#[trigger] log[j]).velocity matches Some(pv) && 0
                    <= pv.magnitude && pv.magnitude <= (if v + sd >= 0 {
                    v + sd
                } else {
                    0int
                }) && pv.magnitude >= (if v - sd >= 0 {
                    v - sd
                } else {
                    0int
                })))
        }),
        r is Ok ==> ({
            let route = old(boat).route_plan->0@;
            let base = old(boat).ship_log@.len() as int;
            let log = final(boat).ship_log@;
            let step = simulation.time_step_ms as int;
            let v = old(boat).velocity_mean->0 as int;
            let sd0 = old(boat).velocity_std->0 as int;
            let sd = if sd0 < 0 {
                -sd0
            } else {
                sd0
            };
            &&& (r == Result::<SimStatus, SimError>::Ok(SimStatus::Completed) ==> log.last()
                .coordinates_current == route[route.len() - 1].p2)
            &&& (r == Result::<SimStatus, SimError>::Ok(SimStatus::IterationsExhausted) && v - sd
                >= 1 && step >= 1000 ==> log.len() == base + 1 + simulation.max_iterations)
            &&& log.len() <= base + 2 + simulation.max_iterations
            &&& ({
                let fin = route[route.len() - 1].p2;
                let tr_lo = spec_travel_mm(v - sd, step);
                let tr_hi = spec_travel_mm(v + sd, step);
                exists|ts: Seq<int>|
                    #![trigger spec_run_state(
                        route,
                        fin,
                        route[0].p1,
                        1,
                        ts,
                        simulation.max_iterations as nat,
                    )]
                    {
                        &&& ts.len() == simulation.max_iterations
                        &&& (forall|k: int| 0 <= k < ts.len() ==> tr_lo <= #[trigger] ts[k] <= tr_hi)
                        &&& (r == Result::<SimStatus, SimError>::Ok(SimStatus::Completed)
                            <==> spec_run_state(
                            route,
                            fin,
                            route[0].p1,
                            1,
                            ts,
                            simulation.max_iterations as nat,
                        ).2)
                        &&& final(boat).location == Some(
                            spec_run_state(
                                route,
                                fin,
                                route[0].p1,
                                1,
                                ts,
                                simulation.max_iterations as nat,
                            ).0,
                        )
                        &&& (final(boat).current_leg matches Some(leg) && leg as int
                            == spec_run_state(
                            route,
                            fin,
                            route[0].p1,
                            1,
                            ts,
                            simulation.max_iterations as nat,
                        ).1)
                        &&& (v - sd >= 1 && step >= 1000 ==> forall|j: int|
                            base < j < log.len() ==> (#[trigger] log[j]).coordinates_current
                                == spec_run_state(
                                route,
                                fin,
                                route[0].p1,
                                1,
                                ts,
                                (j - base) as nat,
                            ).0)
                    }
            })
        }),
{
    let v: i64 = match boat.velocity_mean {
        Some(v) => v,
        None => {
            return Err(SimError::ConfigurationError);
        },
    };
    let sd_raw: i64 = match boat.velocity_std {
        Some(s) => s,
        None => {
            return Err(SimError::ConfigurationError);
        },
    };
    let sd: i64 = if sd_raw < 0 {
        -sd_raw
    } else {
        sd_raw
    };
    match &boat.route_plan {
        Some(route) => {
            match validate_route(route) {
                Ok(()) => {},
                Err(e) => {
                    return Err(e);
                },
            }
        },
        None => {
            return Err(SimError::ConfigurationError);
        },
    }
    let ghost route: Seq<SailingLeg> = boat.route_plan->0@;
    let total_legs: usize = match &boat.route_plan {
        Some(route) => route.len(),
        None => 0,
    };
    let (first_p1, coordinates_final): (GeoPoint, GeoPoint) = match &boat.route_plan {
        Some(route) => (route[0].p1, route[total_legs - 1].p2),
        None => (GeoPoint { lon_udeg: 0, lat_udeg: 0 }, GeoPoint { lon_udeg: 0, lat_udeg: 0 }),
    };
    boat.location = Some(first_p1);
    boat.current_leg = Some(1);
    let coordinates_initial: GeoPoint = first_p1;

    let start_floor: i64 = start_time_ms - crate::angles::euclid_mod_i64(start_time_ms, 1000);
    let ghost base: int = boat.ship_log@.len() as int;
    let first_entry = ShipLogEntry {
        timestamp_ms: start_floor,
        coordinates_initial,
        coordinates_current: coordinates_initial,
        coordinates_final,
        cargo_on_board: Some(boat.cargo_current),
        velocity: None,
        course: None,
        heading: None,
        track_angle: None,
        true_bearing: None,
        draft: None,
        navigation_status: None,
    };
    boat.ship_log.push(first_entry);
    proof {
        assert(boat.ship_log@[base] == first_entry);
        assert(boat.ship_log@.subrange(0, base) =~= old(boat).ship_log@);
        assert forall|j: int| base <= j < boat.ship_log@.len() implies (#[trigger] boat.ship_log@[
            j
        ]).timestamp_ms == start_floor + (j - base) * simulation.time_step_ms by {
            assert(j == base);
            assert((j - base) * (simulation.time_step_ms as int) == 0) by (nonlinear_arith)
                requires
                    j - base == 0,
            ;
        }
    }

    let step: i64 = simulation.time_step_ms;
    let ghost tr_lo: int = spec_travel_mm(v as int - sd as int, step as int);
    let ghost tr_hi: int = spec_travel_mm(v as int + sd as int, step as int);
    let ghost mut travels: Seq<int> = Seq::empty();
    proof {
        assert(boat.location->0 == route[0].p1);
    }
    let mut i: usize = 0;
    while i < simulation.max_iterations
        invariant
            simulation.well_formed(),
            step == simulation.time_step_ms,
            -50_000_000_000 <= v <= 50_000_000_000,
            0 <= sd <= 50_000_000_000,
            tr_lo == spec_travel_mm(v as int - sd as int, step as int),
            tr_hi == spec_travel_mm(v as int + sd as int, step as int),
            travels.len() == i,
            forall|k: int| 0 <= k < i ==> tr_lo <= #[trigger] travels[k] <= tr_hi,
            spec_run_state(
                route,
                coordinates_final,
                route[0].p1,
                1,
                travels,
                i as nat,
            ) == (boat.location->0, boat.current_leg->0 as int, false),
            v as int - sd >= 1 && step >= 1000 ==> forall|j: int|
                base < j < boat.ship_log@.len() ==> (#[trigger] boat.ship_log@[
                    j
                ]).coordinates_current == spec_run_state(
                    route,
                    coordinates_final,
                    route[0].p1,
                    1,
                    travels,
                    (j - base) as nat,
                ).0,
            sd == (if old(boat).velocity_std->0 < 0 {
                -(old(boat).velocity_std->0 as int)
            } else {
                old(boat).velocity_std->0 as int
            }),
            -4_000_000_000_000_000 <= start_floor <= 4_000_000_000_000_000,
            i <= simulation.max_iterations,
            old(boat).velocity_mean == Some(v),
            boat.velocity_mean == old(boat).velocity_mean,
            boat.velocity_std == old(boat).velocity_std,
            boat.route_plan == old(boat).route_plan,
            boat.cargo_current == old(boat).cargo_current,
            boat.velocity_current == old(boat).velocity_current,
            boat.wind_preferred_side == old(boat).wind_preferred_side,
            boat.min_angle_of_attack == old(boat).min_angle_of_attack,
            old(boat).velocity_std is Some,
            old(boat).route_plan matches Some(rp0) && rp0@ =~= route,
            base == old(boat).ship_log@.len(),
            start_floor as int == spec_start_floor(start_time_ms as int),
            boat.route_plan matches Some(rp) && rp@ =~= route,
            route.len() == total_legs > 0,
            total_legs < 4_000_000_000,
            spec_route_wf(route),
            boat.current_leg matches Some(leg) && 1 <= leg <= total_legs,
            boat.location matches Some(p) && p.valid(),
            coordinates_final == route[total_legs - 1].p2,
            base + 1 <= boat.ship_log@.len() <= base + 1 + i,
            boat.ship_log@.subrange(0, base) =~= old(boat).ship_log@,
            boat.ship_log@[base].timestamp_ms == start_floor,
            boat.ship_log@[base].coordinates_current == route[0].p1,
            boat.ship_log@[base].track_angle is None,
            boat.ship_log@[base].velocity is None,
            coordinates_initial == route[0].p1,
            forall|j: int|
                base <= j < boat.ship_log@.len()
                    ==> ((#[trigger] boat.ship_log@[j]).coordinates_initial == coordinates_initial
                    && boat.ship_log@[j].coordinates_final == coordinates_final),
            forall|j: int|
                base < j < boat.ship_log@.len() ==> ((#[trigger] boat.ship_log@[j]).velocity
                    matches Some(pv) && 0 <= pv.magnitude && pv.magnitude <= (if v + sd >= 0 {
                    v + sd
                } else {
                    0int
                }) && pv.magnitude >= (if v - sd >= 0 {
                    v - sd
                } else {
                    0int
                })),
            forall|j: int|
                base < j < boat.ship_log@.len() ==> (#[trigger] boat.ship_log@[j]).timestamp_ms
                    > boat.ship_log@[j - 1].timestamp_ms,
            forall|j: int|
                base <= j < boat.ship_log@.len() ==> (#[trigger] boat.ship_log@[j]).timestamp_ms
                    <= start_floor + i * step,
            v - sd >= 1 && step >= 1000 ==> (boat.ship_log@.len() == base + 1 + i
                && log_timestamps_arithmetic(boat.ship_log@, base, start_floor as int, step as int)),
        decreases simulation.max_iterations - i,
    {
        let u: i64 = draw_uniform_permille();
        let dev128: i128 = mul_i64(u, sd);
        proof {
            assert(-50_000_000_000_000i128 <= (u as int) * (sd as int) <= 50_000_000_000_000i128)
                by (nonlinear_arith)
                requires
                    -1000 <= u <= 1000,
                    0 <= sd <= 50_000_000_000,
            ;
            if (u as int) * (sd as int) >= 0 {
                vstd::arithmetic::div_mod::lemma_div_is_ordered(
                    (u as int) * (sd as int),
                    50_000_000_000_000int,
                    1000int,
                );
            } else {
                vstd::arithmetic::div_mod::lemma_div_is_ordered(
                    -((u as int) * (sd as int)),
                    50_000_000_000_000int,
                    1000int,
                );
            }
        }
        let dev: i64 = tdiv_i128(dev128, 1000) as i64;
        let v_eff: i64 = v + dev;
        proof {
            lemma_deviation_within(u as int, sd as int);
        }
        let p128: i128 = mul_i64(v_eff, step);
        proof {
            assert(-8_640_000_000_000_000_000_000i128 <= (v_eff as int) * (step as int)
                <= 8_640_000_000_000_000_000_000i128) by (nonlinear_arith)
                requires
                    -100_000_000_000 <= v_eff <= 100_000_000_000,
                    1 <= step <= 86_400_000_000,
            ;
        }
        let travel128: i128 = tdiv_i128(p128, 1000);
        proof {
            if p128 >= 0 {
                vstd::arithmetic::div_mod::lemma_div_is_ordered(
                    p128 as int,
                    8_640_000_000_000_000_000_000int,
                    1000int,
                );
            } else {
                vstd::arithmetic::div_mod::lemma_div_is_ordered(
                    -(p128 as int),
                    8_640_000_000_000_000_000_000int,
                    1000int,
                );
            }
            if v - sd >= 1 && step >= 1000 {
                lemma_travel_positive(v_eff as int, step as int);
            }
        }
        let mut travel: i64 = travel128 as i64;
        let ghost tr: int = travel as int;
        let ghost travels_before: Seq<int> = travels;
        proof {
            assert((v as int - sd) * (step as int) <= (v_eff as int) * (step as int)
                && (v_eff as int) * (step as int) <= (v as int + sd) * (step as int))
                by (nonlinear_arith)
                requires
                    v as int - sd <= v_eff as int <= v as int + sd,
                    step >= 1,
            ;
            lemma_tdiv_monotone(
                (v as int - sd) * (step as int),
                (v_eff as int) * (step as int),
                1000,
            );
            lemma_tdiv_monotone(
                (v_eff as int) * (step as int),
                (v as int + sd) * (step as int),
                1000,
            );
            travels = travels.push(tr);
            lemma_run_state_prefix(
                route,
                coordinates_final,
                route[0].p1,
                1,
                travels_before,
                travels,
                i as nat,
            );
            assert forall|j: int| base < j < boat.ship_log@.len() implies #[trigger] spec_run_state(
                route,
                coordinates_final,
                route[0].p1,
                1,
                travels,
                (j - base) as nat,
            ) == spec_run_state(
                route,
                coordinates_final,
                route[0].p1,
                1,
                travels_before,
                (j - base) as nat,
            ) by {
                lemma_run_state_prefix(
                    route,
                    coordinates_final,
                    route[0].p1,
                    1,
                    travels_before,
                    travels,
                    (j - base) as nat,
                );
            }
        }
        let ghost len0: int = boat.ship_log@.len() as int;
        let mut logged: bool = false;
        proof {
            assert(0 <= (step as i128) * ((i + 1) as i128)
                <= 86_400_000_000i128 * 20_000_000_000_000_000_000i128) by (nonlinear_arith)
                requires
                    1 <= step <= 86_400_000_000,
                    0 <= i + 1 <= 20_000_000_000_000_000_000,
            ;
        }
        let ts128: i128 = (start_floor as i128) + (step as i128) * ((i + 1) as i128);
        if ts128 > 4_611_686_018_427_387_903i128 {
            proof {
                assert((step as int) * ((i + 1) as int) <= (simulation.max_iterations as int) * (
                step as int)) by (nonlinear_arith)
                    requires
                        0 < i + 1 <= simulation.max_iterations,
                        step >= 1,
                ;
            }
            return Err(SimError::ArithmeticOverflow);
        }
        let ts: i64 = ts128 as i64;
        proof {
            assert((step as int) * ((i + 1) as int) == ((i + 1) as int) * (step as int))
                by (nonlinear_arith);
            assert((i as int) * (step as int) < ((i + 1) as int) * (step as int))
                by (nonlinear_arith)
                requires
                    step >= 1,
                    i >= 0,
            ;
        }
        let v_mag: i64 = if v_eff >= 0 {
            v_eff
        } else {
            0
        };
        let ghost loc0: GeoPoint = boat.location->0;
        let ghost g0: int = boat.current_leg->0 as int;
        while travel > 0
            invariant
                simulation.well_formed(),
                step == simulation.time_step_ms,
                i < simulation.max_iterations,
                old(boat).velocity_mean == Some(v),
                boat.velocity_mean == old(boat).velocity_mean,
                boat.velocity_std == old(boat).velocity_std,
                boat.route_plan == old(boat).route_plan,
                boat.cargo_current == old(boat).cargo_current,
                boat.velocity_current == old(boat).velocity_current,
                boat.wind_preferred_side == old(boat).wind_preferred_side,
                boat.min_angle_of_attack == old(boat).min_angle_of_attack,
                old(boat).velocity_std is Some,
                -50_000_000_000 <= v <= 50_000_000_000,
                0 <= sd <= 50_000_000_000,
                sd == (if old(boat).velocity_std->0 < 0 {
                    -(old(boat).velocity_std->0 as int)
                } else {
                    old(boat).velocity_std->0 as int
                }),
                old(boat).route_plan matches Some(rp0) && rp0@ =~= route,
                base == old(boat).ship_log@.len(),
                start_floor as int == spec_start_floor(start_time_ms as int),
                -4_000_000_000_000_000 <= start_floor <= 4_000_000_000_000_000,
                boat.route_plan matches Some(rp) && rp@ =~= route,
                route.len() == total_legs > 0,
                total_legs < 4_000_000_000,
                spec_route_wf(route),
                boat.current_leg matches Some(leg) && 1 <= leg <= total_legs,
                boat.location matches Some(p) && p.valid(),
                coordinates_final == route[total_legs - 1].p2,
                0 <= v_mag,
                logged ==> (travel == 0 && boat.ship_log@.len() == len0 + 1),
                !logged ==> boat.ship_log@.len() == len0,
                !logged ==> (travel as int == tr || travel > 0),
                travel > 0 ==> tr > 0,
                base + 1 <= len0 <= base + 1 + i,
                boat.ship_log@.subrange(0, base) =~= old(boat).ship_log@,
                boat.ship_log@[base].timestamp_ms == start_floor,
                boat.ship_log@[base].coordinates_current == route[0].p1,
                boat.ship_log@[base].track_angle is None,
                boat.ship_log@[base].velocity is None,
                coordinates_initial == route[0].p1,
                0 <= v_mag,
                v_mag <= (if v + sd >= 0 {
                    v + sd
                } else {
                    0int
                }),
                v_mag >= (if v - sd >= 0 {
                    v - sd
                } else {
                    0int
                }),
                forall|j: int|
                    base <= j < boat.ship_log@.len()
                        ==> ((#[trigger] boat.ship_log@[j]).coordinates_initial
                        == coordinates_initial && boat.ship_log@[j].coordinates_final
                        == coordinates_final),
                forall|j: int|
                    base < j < boat.ship_log@.len() ==> ((#[trigger] boat.ship_log@[j]).velocity
                        matches Some(pv) && 0 <= pv.magnitude && pv.magnitude <= (if v + sd >= 0 {
                        v + sd
                    } else {
                        0int
                    }) && pv.magnitude >= (if v - sd >= 0 {
                        v - sd
                    } else {
                        0int
                    })),
                forall|j: int|
                    base < j < boat.ship_log@.len() ==> (#[trigger] boat.ship_log@[j]).timestamp_ms
                        > boat.ship_log@[j - 1].timestamp_ms,
                forall|j: int|
                    base <= j < len0 ==> (#[trigger] boat.ship_log@[j]).timestamp_ms <= start_floor
                        + i * step,
                logged ==> boat.ship_log@.last().timestamp_ms == ts,
                ts == spec_start_floor(start_time_ms as int) + (i + 1) * step,
                (i as int) * (step as int) < ((i + 1) as int) * (step as int),
                tr_lo == spec_travel_mm(v as int - sd, step as int),
                tr_hi == spec_travel_mm(v as int + sd, step as int),
                travels.len() == i + 1,
                travels[i as int] == tr,
                forall|k: int| 0 <= k < travels.len() ==> tr_lo <= #[trigger] travels[k] <= tr_hi,
                spec_leg_advance(
                    route,
                    coordinates_final,
                    boat.location->0,
                    boat.current_leg->0 as int,
                    travel as int,
                ) == spec_leg_advance(route, coordinates_final, loc0, g0, tr),
                spec_run_state(
                    route,
                    coordinates_final,
                    route[0].p1,
                    1,
                    travels,
                    i as nat,
                ) == (loc0, g0, false),
                v as int - sd >= 1 && step >= 1000 ==> forall|j: int|
                    base < j < boat.ship_log@.len() ==> (#[trigger] boat.ship_log@[
                        j
                    ]).coordinates_current == spec_run_state(
                        route,
                        coordinates_final,
                        route[0].p1,
                        1,
                        travels,
                        (j - base) as nat,
                    ).0,
                v - sd >= 1 && step >= 1000 ==> (len0 == base + 1 + i && tr > 0 && forall|j: int|
                    base <= j < len0 ==> (#[trigger] boat.ship_log@[j]).timestamp_ms == start_floor
                        + (j - base) * step),
                v - sd >= 1 && step >= 1000 && logged ==> log_timestamps_arithmetic(
                    boat.ship_log@,
                    base,
                    start_floor as int,
                    step as int,
                ),
            decreases total_legs - boat.current_leg->0, travel,
        {
            let leg_ix: usize = match boat.current_leg {
                Some(l) => (l - 1) as usize,
                None => 0,
            };
            let next_waypoint: GeoPoint = match &boat.route_plan {
                Some(route) => route[leg_ix].p2,
                None => GeoPoint { lon_udeg: 0, lat_udeg: 0 },
            };
            let here: GeoPoint = match boat.location {
                Some(p) => p,
                None => GeoPoint { lon_udeg: 0, lat_udeg: 0 },
            };
            let dist_to_next: u64 = distance_mm(here, next_waypoint);
            if travel > dist_to_next as i64 {
                boat.location = Some(next_waypoint);
                if eq_points(next_waypoint, coordinates_final) {
                    let entry = ShipLogEntry {
                        timestamp_ms: ts,
                        coordinates_initial,
                        coordinates_current: next_waypoint,
                        coordinates_final,
                        cargo_on_board: Some(boat.cargo_current),
                        velocity: Some(
                            PhysVec {
                                magnitude: v_mag,
                                angle_udeg: match boat.heading {
                                    Some(h) => h,
                                    None => 0,
                                },
                            },
                        ),
                        course: None,
                        heading: boat.heading,
                        track_angle: None,
                        true_bearing: None,
                        draft: None,
                        navigation_status: None,
                    };
                    boat.ship_log.push(entry);
                    proof {
                        let g_cur = boat.current_leg->0 as int;
                        assert(spec_leg_advance(route, coordinates_final, here, g_cur, travel as int)
                            == (next_waypoint, g_cur, true));
                        assert(spec_run_state(
                            route,
                            coordinates_final,
                            route[0].p1,
                            1,
                            travels,
                            (i + 1) as nat,
                        ) == (next_waypoint, g_cur, true));
                        let pad = Seq::new(
                            (simulation.max_iterations - (i + 1)) as nat,
                            |k: int| tr_lo,
                        );
                        let w = travels + pad;
                        assert(w.len() == simulation.max_iterations);
                        lemma_run_state_prefix(
                            route,
                            coordinates_final,
                            route[0].p1,
                            1,
                            travels,
                            w,
                            (i + 1) as nat,
                        );
                        lemma_run_state_absorbs(
                            route,
                            coordinates_final,
                            route[0].p1,
                            1,
                            w,
                            (i + 1) as nat,
                            simulation.max_iterations as nat,
                        );
                        assert((v as int - sd) * (step as int) <= (v as int + sd) * (step as int))
                            by (nonlinear_arith)
                            requires
                                sd >= 0,
                                step >= 1,
                        ;
                        lemma_tdiv_monotone(
                            (v as int - sd) * (step as int),
                            (v as int + sd) * (step as int),
                            1000,
                        );
                        assert forall|k: int| 0 <= k < w.len() implies tr_lo <= #[trigger] w[k]
                            <= tr_hi by {
                            if k < i + 1 {
                                assert(w[k] == travels[k]);
                            } else {
                                assert(w[k] == tr_lo);
                            }
                        }
                        assert forall|j: int| base < j < boat.ship_log@.len() implies
                            #[trigger] spec_run_state(
                                route,
                                coordinates_final,
                                route[0].p1,
                                1,
                                w,
                                (j - base) as nat,
                            ) == spec_run_state(
                                route,
                                coordinates_final,
                                route[0].p1,
                                1,
                                travels,
                                (j - base) as nat,
                            ) by {
                            lemma_run_state_prefix(
                                route,
                                coordinates_final,
                                route[0].p1,
                                1,
                                travels,
                                w,
                                (j - base) as nat,
                            );
                        }
                    }
                    return Ok(SimStatus::Completed);
                }
                proof {
                    assert(boat.current_leg->0 < total_legs);
                }
                let leg_now: u32 = match boat.current_leg {
                    Some(l) => l,
                    None => 1,
                };
                boat.current_leg = Some(leg_now + 1);
                travel = travel - (dist_to_next as i64);
            } else {
                let b: i64 = bearing_udeg(here, next_waypoint);
                boat.heading = Some(b);
                let new_location: GeoPoint = destination(here, b, travel as u64);
                boat.location = Some(new_location);
                let entry = ShipLogEntry {
                    timestamp_ms: ts,
                    coordinates_initial,
                    coordinates_current: new_location,
                    coordinates_final,
                    cargo_on_board: Some(boat.cargo_current),
                    velocity: Some(PhysVec { magnitude: v_mag, angle_udeg: b }),
                    course: None,
                    heading: boat.heading,
                    track_angle: None,
                    true_bearing: None,
                    draft: None,
                    navigation_status: None,
                };
                boat.ship_log.push(entry);
                proof {
                    let g_cur = boat.current_leg->0 as int;
                    assert(spec_leg_advance(route, coordinates_final, here, g_cur, travel as int)
                        == (new_location, g_cur, false));
                    assert(spec_run_state(
                        route,
                        coordinates_final,
                        route[0].p1,
                        1,
                        travels,
                        (i + 1) as nat,
                    ) == (new_location, g_cur, false));
                }
                logged = true;
                travel = 0;
            }
        }
        proof {
            if v - sd >= 1 && step >= 1000 {
                assert(logged);
            }
            assert(spec_leg_advance(
                route,
                coordinates_final,
                boat.location->0,
                boat.current_leg->0 as int,
                travel as int,
            ) == (boat.location->0, boat.current_leg->0 as int, false));
            assert(spec_run_state(
                route,
                coordinates_final,
                route[0].p1,
                1,
                travels,
                (i + 1) as nat,
            ) == (boat.location->0, boat.current_leg->0 as int, false));
        }
        i = i + 1;
    }
    proof {
        assert(spec_run_state(
            route,
            coordinates_final,
            route[0].p1,
            1,
            travels,
            simulation.max_iterations as nat,
        ) == (boat.location->0, boat.current_leg->0 as int, false));
    }
    Ok(SimStatus::IterationsExhausted)
}

/// The drawn deviation never exceeds one standard deviation in magnitude.
proof fn lemma_deviation_within(u: int, sd: int)
    requires
        -1000 <= u <= 1000,
        0 <= sd <= 50_000_000_000,
    ensures
        -sd <= spec_tdiv(u * sd, 1000) <= sd,
{
    assert(-(1000 * sd) <= u * sd <= 1000 * sd) by (nonlinear_arith)
        requires
            -1000 <= u <= 1000,
            0 <= sd,
    ;
    if u * sd >= 0 {
        vstd::arithmetic::div_mod::lemma_div_is_ordered(u * sd, 1000 * sd, 1000);
        assert((1000 * sd) / 1000 == sd) by (nonlinear_arith);
        vstd::arithmetic::div_mod::lemma_div_pos_is_pos(u * sd, 1000);
    } else {
        vstd::arithmetic::div_mod::lemma_div_is_ordered(-(u * sd), 1000 * sd, 1000);
        assert((1000 * sd) / 1000 == sd) by (nonlinear_arith);
        vstd::arithmetic::div_mod::lemma_div_pos_is_pos(-(u * sd), 1000);
    }
}

/// A positive speed over a step of at least a second always travels at
/// least a millimeter.
proof fn lemma_travel_positive(v_eff: int, step: int)
    requires
        1 <= v_eff,
        1000 <= step,
    ensures
        spec_tdiv(v_eff * step, 1000) > 0,
{
    assert(v_eff * step >= 1000) by (nonlinear_arith)
        requires
            1 <= v_eff,
            1000 <= step,
    ;
    vstd::arithmetic::div_mod::lemma_div_is_ordered(1000, v_eff * step, 1000);
}


/// The signed angle of the wind relative to the bearing toward the next
/// waypoint, in `(-180°, 180°]` micro-degrees.
pub open spec fn spec_relative_wind_angle(wind_udeg: int, bearing_udeg: int) -> int {
    signed_half_turn(wind_udeg - bearing_udeg)
}

/// The per-step heading decision of the tacking controller: when the wind
/// blows closer to the desired bearing than the least sailable angle of
/// attack, the boat holds its tack; otherwise it heads straight at the
/// waypoint.  The second component tells which mode was chosen.
pub open spec fn spec_decide_heading(
    side: VesselSide,
    wind_udeg: int,
    bearing_udeg: int,
    aoa_udeg: int,
) -> (int, bool) {
    let rel = spec_relative_wind_angle(wind_udeg, bearing_udeg);
    let rel_abs = if rel < 0 {
        -rel
    } else {
        rel
    };
    if rel_abs < aoa_udeg {
        (spec_hold_tack_heading(side, wind_udeg, aoa_udeg), true)
    } else {
        (bearing_udeg, false)
    }
}

/// Decides the heading for one sub-step from the wind, the bearing to the
/// next waypoint and the boat's preferred tack side; the flag reports
/// whether the boat is tacking rather than sailing direct.
pub fn decide_heading(side: VesselSide, wind_udeg: i64, bearing: i64, aoa_udeg: i64) -> (r: (
    i64,
    bool,
))
    requires
        0 <= wind_udeg < 360_000_000,
        0 <= bearing < 360_000_000,
        0 <= aoa_udeg <= 360_000_000,
    ensures
        (r.0 as int, r.1) == spec_decide_heading(side, wind_udeg as int, bearing as int, aoa_udeg as int),
        0 <= r.0 < 360_000_000,
{
    let rel: i64 = crate::angles::to_signed_half_turn(wind_udeg - bearing);
    let rel_abs: i64 = if rel < 0 {
        -rel
    } else {
        rel
    };
    if rel_abs < aoa_udeg {
        let raw: i64 = match side {
            VesselSide::Port => wind_udeg + aoa_udeg,
            VesselSide::Starboard => wind_udeg - aoa_udeg,
        };
        (crate::angles::euclid_mod_i64(raw, 360_000_000), true)
    } else {
        (bearing, false)
    }
}

/// Whether a sub-step is about to leave the tacking corridor: the vessel
/// is now within half the corridor width of the leg's line, and its
/// tentative next position is beyond it.
pub open spec fn spec_corridor_exit(d_cur: int, d_next: int, half_w: int) -> bool {
    d_cur <= half_w && half_w < d_next
}

/// The clipped travel distance that stops the sub-step at the corridor
/// boundary, assuming the distance to the leg's line grows linearly along
/// the sub-step: the travel scaled by the remaining margin over the
/// distance growth.
pub open spec fn spec_clip_travel(travel: int, d_cur: int, d_next: int, half_w: int) -> int {
    (travel * (half_w - d_cur)) / (d_next - d_cur)
}

/// Applies corridor enforcement to one sub-step: the clipped travel
/// distance when the step would exit the corridor, nothing otherwise.
pub fn corridor_clip(travel: u64, d_cur: u64, d_next: u64, half_w: u64) -> (r: Option<u64>)
    requires
        travel <= 1_000_000_000_000_000_000,
        d_cur <= 21_000_000_000,
        d_next <= 21_000_000_000,
        half_w <= 50_000_000_000,
    ensures
        spec_corridor_exit(d_cur as int, d_next as int, half_w as int) ==> (r matches Some(t)
            && t as int == spec_clip_travel(
            travel as int,
            d_cur as int,
            d_next as int,
            half_w as int,
        ) && t <= travel),
        !spec_corridor_exit(d_cur as int, d_next as int, half_w as int) ==> r is None,
{
    if d_cur <= half_w && half_w < d_next {
        proof {
            assert((travel as int) * ((half_w - d_cur) as int)
                <= 1_000_000_000_000_000_000int * 50_000_000_000int) by (nonlinear_arith)
                requires
                    0 <= travel <= 1_000_000_000_000_000_000,
                    0 <= half_w - d_cur <= 50_000_000_000,
            ;
        }
        let num: u128 = (travel as u128) * ((half_w - d_cur) as u128);
        let den: u128 = (d_next - d_cur) as u128;
        proof {
            assert((travel as int) * ((half_w - d_cur) as int) <= (travel as int) * ((d_next
                - d_cur) as int)) by (nonlinear_arith)
                requires
                    0 <= travel,
                    0 <= half_w - d_cur <= d_next - d_cur,
            ;
            vstd::arithmetic::div_mod::lemma_div_is_ordered(
                (travel as int) * ((half_w - d_cur) as int),
                (travel as int) * ((d_next - d_cur) as int),
                (d_next - d_cur) as int,
            );
            vstd::arithmetic::div_mod::lemma_div_multiples_vanish(
                travel as int,
                (d_next - d_cur) as int,
            );
            assert((travel as int) * ((d_next - d_cur) as int) == ((d_next - d_cur) as int) * (
            travel as int)) by (nonlinear_arith);
            vstd::arithmetic::div_mod::lemma_div_pos_is_pos(
                (travel as int) * ((half_w - d_cur) as int),
                (d_next - d_cur) as int,
            );
        }
        let t: u128 = num / den;
        Some(t as u64)
    } else {
        None
    }
}

/// The time one sub-step consumed out of its budget: the time to cover the
/// travelled distance at the given speed, and the whole budget where the
/// vessel cannot move.  Never more than the budget itself when the travel
/// came from that budget.
pub open spec fn spec_consumed_ms(travel: int, v_mag: int, budget: int) -> int {
    if v_mag >= 1 {
        (travel * 1000) / v_mag
    } else {
        budget
    }
}

/// The leftover budget after a clipped sub-step.
pub fn split_budget(travel: u64, v_mag: i64, budget: i64) -> (r: i64)
    requires
        0 <= v_mag <= 10_000_000_000,
        1 <= budget <= 86_400_000_000,
        travel as int * 1000 <= v_mag * budget,
    ensures
        r as int == budget - spec_consumed_ms(travel as int, v_mag as int, budget as int),
        0 <= r <= budget,
{
    if v_mag >= 1 {
        let num: u128 = (travel as u128) * 1000;
        proof {
            vstd::arithmetic::div_mod::lemma_div_is_ordered(
                (travel as int) * 1000,
                (v_mag as int) * (budget as int),
                v_mag as int,
            );
            vstd::arithmetic::div_mod::lemma_div_multiples_vanish(budget as int, v_mag as int);
            assert((v_mag as int) * (budget as int) == (budget as int) * (v_mag as int))
                by (nonlinear_arith);
            vstd::arithmetic::div_mod::lemma_div_pos_is_pos((travel as int) * 1000, v_mag as int);
            assert((v_mag as int) * (budget as int) <= 10_000_000_000int * 86_400_000_000int)
                by (nonlinear_arith)
                requires
                    0 <= v_mag <= 10_000_000_000,
                    1 <= budget <= 86_400_000_000,
            ;
        }
        let q: u128 = num / (v_mag as u128);
        budget - (q as i64)
    } else {
        0
    }
}


/// The persistent state of a weather-driven run between sub-steps: the run
/// is advanced one sub-step at a time by
/// [`sim_waypoint_mission_weather_step`], with the caller supplying wind
/// and current samples for the vessel's position and time.
pub struct WeatherRun {
    /// Where the voyage began.
    pub coordinates_initial: GeoPoint,
    /// Where the voyage ends: the last waypoint of the route.
    pub coordinates_final: GeoPoint,
    /// Sub-steps taken so far.
    pub iterations_used: usize,
    /// Budget left over from a split sub-step, to be spent by the next
    /// one, in milliseconds.
    pub leftover_budget_ms: Option<i64>,
}

/// Starts a weather-driven run: checks the configuration, puts the boat at
/// the first waypoint and logs the starting entry.
///
/// No part of the run happens before every required field is present, so a
/// refused configuration leaves the boat untouched.
pub fn sim_waypoint_mission_weather_begin(
    boat: &mut Boat,
    start_time_ms: i64,
    simulation: &Simulation,
) -> (r: Result<WeatherRun, SimError>)
    requires
        simulation.well_formed(),
        -4_000_000_000_000_000 <= start_time_ms <= 4_000_000_000_000_000,
        old(boat).min_angle_of_attack matches Some(a) ==> 0 <= a <= 360_000_000,
        old(boat).route_plan matches Some(rp) ==> rp@.len() < 4_000_000_000,
    ensures
        r is Err ==> *final(boat) == *old(boat),
        r == Result::<WeatherRun, SimError>::Err(SimError::ConfigurationError) <==> (old(
            boat,
        ).mass is None || old(boat).sail is None || old(boat).min_angle_of_attack is None
            || simulation.weather_data_file is None || old(boat).route_plan is None || (old(
            boat,
        ).route_plan matches Some(route) && route@.len() == 0)),
        r is Ok <==> (old(boat).mass is Some && old(boat).sail is Some && old(
            boat,
        ).min_angle_of_attack is Some && simulation.weather_data_file is Some && (old(
            boat,
        ).route_plan matches Some(route) && route@.len() > 0 && spec_route_wf(route@))),
        r == Result::<WeatherRun, SimError>::Err(SimError::InvalidRouteGeometry) <==> (old(
            boat,
        ).mass is Some && old(boat).sail is Some && old(boat).min_angle_of_attack is Some
            && simulation.weather_data_file is Some && spec_route_geometry_refused(*old(boat))),
        r is Ok ==> ({
            let run = r->Ok_0;
            let route = old(boat).route_plan->0@;
            let first = final(boat).ship_log@.last();
            &&& run.coordinates_initial == route[0].p1
            &&& run.coordinates_final == route[route.len() - 1].p2
            &&& run.iterations_used == 0
            &&& run.leftover_budget_ms is None
            &&& final(boat).location == Some(route[0].p1)
            &&& final(boat).current_leg == Some(1u32)
            &&& final(boat).ship_log@.len() == old(boat).ship_log@.len() + 1
            &&& final(boat).ship_log@.subrange(0, old(boat).ship_log@.len() as int)
                =~= old(boat).ship_log@
            &&& first.timestamp_ms == spec_start_floor(start_time_ms as int)
            &&& first.coordinates_current == route[0].p1
            &&& first.coordinates_initial == route[0].p1
            &&& first.coordinates_final == route[route.len() - 1].p2
            &&& first.velocity == Some(PhysVec { magnitude: 0, angle_udeg: 0 })
            &&& first.course is None
            &&& first.heading is None
            &&& first.track_angle is None
            &&& first.cargo_on_board == Some(old(boat).cargo_current)
            &&& first.navigation_status == Some(NavigationStatus::UnderwaySailing)
            &&& final(boat).route_plan == old(boat).route_plan
            &&& final(boat).min_angle_of_attack == old(boat).min_angle_of_attack
            &&& spec_route_wf(route)
            &&& route.len() > 0
        }),
{
    if boat.mass.is_none() {
        return Err(SimError::ConfigurationError);
    }
    if boat.sail.is_none() {
        return Err(SimError::ConfigurationError);
    }
    if boat.min_angle_of_attack.is_none() {
        return Err(SimError::ConfigurationError);
    }
    if simulation.weather_data_file.is_none() {
        return Err(SimError::ConfigurationError);
    }
    match &boat.route_plan {
        Some(route) => {
            match validate_route(route) {
                Ok(()) => {},
                Err(e) => {
                    return Err(e);
                },
            }
        },
        None => {
            return Err(SimError::ConfigurationError);
        },
    }
    let total_legs: usize = match &boat.route_plan {
        Some(route) => route.len(),
        None => 0,
    };
    let (first_p1, coordinates_final): (GeoPoint, GeoPoint) = match &boat.route_plan {
        Some(route) => (route[0].p1, route[total_legs - 1].p2),
        None => (GeoPoint { lon_udeg: 0, lat_udeg: 0 }, GeoPoint { lon_udeg: 0, lat_udeg: 0 }),
    };
    boat.location = Some(first_p1);
    boat.current_leg = Some(1);
    let start_floor: i64 = start_time_ms - crate::angles::euclid_mod_i64(start_time_ms, 1000);
    let first_entry = ShipLogEntry {
        timestamp_ms: start_floor,
        coordinates_initial: first_p1,
        coordinates_current: first_p1,
        coordinates_final,
        cargo_on_board: Some(boat.cargo_current),
        velocity: Some(PhysVec { magnitude: 0, angle_udeg: 0 }),
        course: None,
        heading: None,
        track_angle: None,
        true_bearing: None,
        draft: None,
        navigation_status: Some(NavigationStatus::UnderwaySailing),
    };
    boat.ship_log.push(first_entry);
    Ok(
        WeatherRun {
            coordinates_initial: first_p1,
            coordinates_final,
            iterations_used: 0,
            leftover_budget_ms: None,
        },
    )
}

/// Advances a weather-driven run by one sub-step under the given wind and
/// ocean-current samples (§4.3–§4.5 of the tacking corridor design): the
/// boat arrives, advances legs, decides its heading against the wind,
/// moves at one and a half times the wind speed through water summed with
/// the current, is clipped at the waypoint or at the corridor boundary
/// (tacking there), and logs the sub-step with the time it consumed.
#[verifier::rlimit(100)]
pub fn sim_waypoint_mission_weather_step(
    boat: &mut Boat,
    run: &mut WeatherRun,
    simulation: &Simulation,
    wind: PhysVec,
    ocean_current: Option<PhysVec>,
) -> (r: Result<StepOutcome, SimError>)
    requires
        simulation.well_formed(),
        wind.well_formed(),
        wind.magnitude <= 1_000_000_000,
        ocean_current matches Some(c) ==> c.well_formed() && c.magnitude <= 1_000_000_000,
        old(boat).route_plan matches Some(rp) && rp@.len() > 0 && rp@.len() < 4_000_000_000
            && spec_route_wf(rp@),
        old(boat).current_leg matches Some(leg) && 1 <= leg <= old(boat).route_plan->0@.len(),
        old(boat).location matches Some(p) && p.valid(),
        old(boat).min_angle_of_attack matches Some(a) && 0 <= a <= 360_000_000,
        old(boat).ship_log@.len() > 0,
        old(boat).ship_log@.last().coordinates_current.valid(),
        old(run).leftover_budget_ms matches Some(l) ==> 1 <= l <= simulation.time_step_ms,
        old(run).coordinates_final == old(boat).route_plan->0@[old(
            boat,
        ).route_plan->0@.len() - 1].p2,
    ensures
        r == Result::<StepOutcome, SimError>::Ok(StepOutcome::IterationsExhausted) <==> old(
            run,
        ).iterations_used >= simulation.max_iterations,
        r == Result::<StepOutcome, SimError>::Ok(StepOutcome::IterationsExhausted)
            ==> (*final(boat) == *old(boat) && *final(run) == *old(run)),
        r == Result::<StepOutcome, SimError>::Err(SimError::ArithmeticOverflow)
            ==> final(boat).ship_log@ =~= old(boat).ship_log@,
        r == Result::<StepOutcome, SimError>::Err(SimError::ArithmeticOverflow) ==> (old(
            boat,
        ).ship_log@.last().timestamp_ms + simulation.time_step_ms > 4_611_686_018_427_387_903
            || old(boat).ship_log@.last().timestamp_ms < -4_611_686_018_427_387_903),
        (old(run).iterations_used < simulation.max_iterations
            && -4_611_686_018_427_387_903 <= old(boat).ship_log@.last().timestamp_ms && old(
            boat,
        ).ship_log@.last().timestamp_ms + simulation.time_step_ms <= 4_611_686_018_427_387_903)
            ==> r is Ok,
        ({
            let leg = old(boat).route_plan->0@[old(boat).current_leg->0 - 1];
            old(run).iterations_used < simulation.max_iterations && (
            crate::geodesy::spec_distance_mm(old(boat).location->0, leg.p2)
                <= leg.min_proximity_mm || old(boat).location->0 == leg.p2) && leg.p2 == old(
                run,
            ).coordinates_final
        }) ==> r == Result::<StepOutcome, SimError>::Ok(StepOutcome::Completed),
        r is Ok ==> ({
            &&& final(boat).route_plan == old(boat).route_plan
            &&& (final(boat).current_leg matches Some(leg) && 1 <= leg
                <= old(boat).route_plan->0@.len())
            &&& (final(boat).location matches Some(p) && p.valid())
            &&& final(boat).min_angle_of_attack == old(boat).min_angle_of_attack
            &&& final(boat).ship_log@.len() >= old(boat).ship_log@.len()
            &&& final(boat).ship_log@.subrange(0, old(boat).ship_log@.len() as int)
                =~= old(boat).ship_log@
            &&& (final(run).leftover_budget_ms matches Some(l) ==> 1 <= l
                <= simulation.time_step_ms)
            &&& final(run).coordinates_final == old(run).coordinates_final
            &&& final(run).coordinates_initial == old(run).coordinates_initial
        }),
        r == Result::<StepOutcome, SimError>::Ok(StepOutcome::Completed) ==> ({
            let leg = old(boat).route_plan->0@[old(boat).current_leg->0 - 1];
            &&& final(boat).ship_log@.len() == old(boat).ship_log@.len() + 1
            &&& final(boat).ship_log@.last().coordinates_current == old(boat).location->0
            &&& final(boat).location == old(boat).location
            &&& final(boat).ship_log@.last().timestamp_ms
                == old(boat).ship_log@.last().timestamp_ms
            &&& (crate::geodesy::spec_distance_mm(old(boat).location->0, leg.p2)
                <= leg.min_proximity_mm || old(boat).location->0 == leg.p2)
            &&& leg.p2 == old(run).coordinates_final
        }),
        r == Result::<StepOutcome, SimError>::Ok(StepOutcome::Running) ==> ({
            let step_ms = simulation.time_step_ms as int;
            let budget = match old(run).leftover_budget_ms {
                Some(l) => l as int,
                None => step_ms,
            };
            let leftover = match final(run).leftover_budget_ms {
                Some(l) => l as int,
                None => 0int,
            };
            let log = final(boat).ship_log@;
            &&& log.len() == old(boat).ship_log@.len() + 1
            &&& final(run).iterations_used == old(run).iterations_used + 1
            &&& 0 <= leftover <= budget
            &&& log.last().timestamp_ms == old(boat).ship_log@.last().timestamp_ms + (budget
                - leftover)
            &&& log.last().coordinates_current == final(boat).location->0
            &&& log.last().velocity == final(boat).velocity_current
            &&& log.last().navigation_status == Some(NavigationStatus::UnderwaySailing)
            &&& log.last().coordinates_initial == old(run).coordinates_initial
            &&& log.last().coordinates_final == old(run).coordinates_final
            &&& log.last().heading == final(boat).heading
            &&& (final(boat).heading matches Some(h) && 0 <= h < 360_000_000)
            &&& ({
                let leg = old(boat).route_plan->0@[final(boat).current_leg->0 - 1];
                &&& log.last().course == Some(
                    crate::geodesy::spec_rhumb_bearing_udeg(leg.p1, leg.p2) as i64,
                )
                &&& (final(boat).wind_preferred_side == old(boat).wind_preferred_side
                    ==> final(boat).heading->0 as int == spec_decide_heading(
                    old(boat).wind_preferred_side,
                    wind.angle_udeg as int,
                    crate::geodesy::spec_bearing_udeg(old(boat).location->0, leg.p2),
                    old(boat).min_angle_of_attack->0 as int,
                ).0)
            })
            &&& (final(boat).wind_preferred_side != old(boat).wind_preferred_side
                ==> (final(boat).heading matches Some(h) && h == spec_hold_tack_heading(
                spec_switched(old(boat).wind_preferred_side),
                wind.angle_udeg as int,
                old(boat).min_angle_of_attack->0 as int,
            )))
            &&& ({
                let leg = old(boat).route_plan->0@[final(boat).current_leg->0 - 1];
                let here = old(boat).location->0;
                let aoa = old(boat).min_angle_of_attack->0 as int;
                let heading = spec_decide_heading(
                    old(boat).wind_preferred_side,
                    wind.angle_udeg as int,
                    crate::geodesy::spec_bearing_udeg(here, leg.p2),
                    aoa,
                ).0;
                let v_sw = PhysVec {
                    magnitude: ((wind.magnitude as int * 3) / 2) as i64,
                    angle_udeg: heading as i64,
                };
                let v_og = match ocean_current {
                    Some(c) => crate::physics::spec_vec_from_components(
                        v_sw.spec_east() + c.spec_east(),
                        v_sw.spec_north() + c.spec_north(),
                    ),
                    None => v_sw,
                };
                let travel0 = spec_tdiv(v_og.magnitude * budget, 1000);
                let dist2 = crate::geodesy::spec_distance_mm(here, leg.p2);
                let travel1 = if travel0 > dist2 {
                    dist2
                } else {
                    travel0
                };
                let tentative = crate::geodesy::spec_destination(
                    here,
                    v_og.angle_udeg as int,
                    travel1,
                );
                let d_cur = crate::geodesy::spec_min_distance_closed_mm(leg.p1, leg.p2, here);
                let d_next = crate::geodesy::spec_min_distance_closed_mm(
                    leg.p1,
                    leg.p2,
                    tentative,
                );
                let half_w = leg.tacking_width_mm as int / 2;
                let went_out = spec_corridor_exit(d_cur, d_next, half_w);
                let travel_used = if went_out {
                    spec_clip_travel(travel1, d_cur, d_next, half_w)
                } else {
                    travel1
                };
                &&& final(boat).velocity_current == Some(v_og)
                &&& leftover == (if travel0 > dist2 || went_out {
                    budget - spec_consumed_ms(travel_used, v_og.magnitude as int, budget)
                } else {
                    0int
                })
                &&& ((final(boat).wind_preferred_side != old(boat).wind_preferred_side)
                    <==> went_out)
                &&& (went_out ==> log.last().coordinates_current
                    == crate::geodesy::spec_destination(
                    here,
                    heading,
                    spec_clip_travel(travel1, d_cur, d_next, half_w),
                ))
                &&& (!went_out ==> log.last().coordinates_current == tentative)
            })
        }),
{
    if run.iterations_used >= simulation.max_iterations {
        return Ok(StepOutcome::IterationsExhausted);
    }
    let budget: i64 = match run.leftover_budget_ms {
        Some(l) => l,
        None => simulation.time_step_ms,
    };
    run.leftover_budget_ms = None;
    let total_legs: usize = match &boat.route_plan {
        Some(route) => route.len(),
        None => 0,
    };
    let here: GeoPoint = match boat.location {
        Some(p) => p,
        None => GeoPoint { lon_udeg: 0, lat_udeg: 0 },
    };
    let leg_ix: usize = match boat.current_leg {
        Some(l) => (l - 1) as usize,
        None => 0,
    };
    let leg: SailingLeg = match &boat.route_plan {
        Some(route) => route[leg_ix],
        None => SailingLeg {
            p1: GeoPoint { lon_udeg: 0, lat_udeg: 0 },
            p2: GeoPoint { lon_udeg: 0, lat_udeg: 0 },
            tacking_width_mm: 0,
            min_proximity_mm: 0,
        },
    };
    if boat.has_arrived() {
        if eq_points(leg.p2, run.coordinates_final) {
            let last_ts: i64 = boat.ship_log[boat.ship_log.len() - 1].timestamp_ms;
            let last_current: GeoPoint = boat.ship_log[boat.ship_log.len() - 1].coordinates_current;
            let entry = ShipLogEntry {
                timestamp_ms: last_ts,
                coordinates_initial: run.coordinates_initial,
                coordinates_current: here,
                coordinates_final: run.coordinates_final,
                cargo_on_board: Some(boat.cargo_current),
                velocity: boat.velocity_current,
                course: None,
                heading: boat.heading,
                track_angle: Some(rhumb_bearing_udeg(last_current, here)),
                true_bearing: None,
                draft: boat.draft,
                navigation_status: Some(NavigationStatus::UnderwaySailing),
            };
            boat.ship_log.push(entry);
            return Ok(StepOutcome::Completed);
        }
        let leg_now: u32 = match boat.current_leg {
            Some(l) => l,
            None => 1,
        };
        boat.current_leg = Some(leg_now + 1);
    }
    let leg_ix2: usize = match boat.current_leg {
        Some(l) => (l - 1) as usize,
        None => 0,
    };
    let leg2: SailingLeg = match &boat.route_plan {
        Some(route) => route[leg_ix2],
        None => SailingLeg {
            p1: GeoPoint { lon_udeg: 0, lat_udeg: 0 },
            p2: GeoPoint { lon_udeg: 0, lat_udeg: 0 },
            tacking_width_mm: 0,
            min_proximity_mm: 0,
        },
    };
    let course: i64 = rhumb_bearing_udeg(leg2.p1, leg2.p2);
    let dist2: u64 = distance_mm(here, leg2.p2);
    let aoa: i64 = match boat.min_angle_of_attack {
        Some(a) => a,
        None => 0,
    };
    let b: i64 = bearing_udeg(here, leg2.p2);
    let decision: (i64, bool) = decide_heading(boat.wind_preferred_side, wind.angle_udeg, b, aoa);
    let heading: i64 = decision.0;
    boat.heading = Some(heading);
    let v_sw_mag: i64 = (wind.magnitude * 3) / 2;
    let v_sw = PhysVec { magnitude: v_sw_mag, angle_udeg: heading };
    let v_og: PhysVec = match ocean_current {
        Some(c) => v_sw.plus(c),
        None => v_sw,
    };
    boat.velocity_current = Some(v_og);
    let p128: i128 = mul_i64(v_og.magnitude, budget);
    proof {
        assert(0 <= (v_og.magnitude as int) * (budget as int) <= 10_000_000_000i128
            * 86_400_000_000i128) by (nonlinear_arith)
            requires
                0 <= v_og.magnitude <= 10_000_000_000,
                1 <= budget <= 86_400_000_000,
        ;
        vstd::arithmetic::div_mod::lemma_div_is_ordered(
            (v_og.magnitude as int) * (budget as int),
            10_000_000_000int * 86_400_000_000int,
            1000int,
        );
        vstd::arithmetic::div_mod::lemma_div_pos_is_pos(
            (v_og.magnitude as int) * (budget as int),
            1000int,
        );
    }
    let travel0: i64 = tdiv_i128(p128, 1000) as i64;
    let (travel1, clipped_at_waypoint): (i64, bool) = if travel0 > dist2 as i64 {
        (dist2 as i64, true)
    } else {
        (travel0, false)
    };
    proof {
        vstd::arithmetic::div_mod::lemma_fundamental_div_mod(
            (v_og.magnitude as int) * (budget as int),
            1000int,
        );
        vstd::arithmetic::div_mod::lemma_mod_bound(
            (v_og.magnitude as int) * (budget as int),
            1000int,
        );
        assert((travel1 as int) * 1000 <= (v_og.magnitude as int) * (budget as int))
            by (nonlinear_arith)
            requires
                0 <= travel1 <= ((v_og.magnitude as int) * (budget as int)) / 1000,
                (v_og.magnitude as int) * (budget as int) == 1000 * (((v_og.magnitude as int) * (
                budget as int)) / 1000) + ((v_og.magnitude as int) * (budget as int)) % 1000,
                0 <= ((v_og.magnitude as int) * (budget as int)) % 1000,
        ;
    }
    let tentative: GeoPoint = destination(here, v_og.angle_udeg, travel1 as u64);
    let d_cur: u64 = min_distance_point_to_great_circle(leg2.p1, leg2.p2, here);
    let d_next: u64 = min_distance_point_to_great_circle(leg2.p1, leg2.p2, tentative);
    let half_w: u64 = leg2.tacking_width_mm / 2;
    let clip: Option<u64> = corridor_clip(travel1 as u64, d_cur, d_next, half_w);
    let (travel_used, went_out): (i64, bool) = match clip {
        Some(t2) => (t2 as i64, true),
        None => (travel1, false),
    };
    let leftover: i64 = if clipped_at_waypoint || went_out {
        proof {
            assert((travel_used as int) * 1000 <= (travel1 as int) * 1000);
        }
        split_budget(travel_used as u64, v_og.magnitude, budget)
    } else {
        0
    };
    let last_ts: i64 = boat.ship_log[boat.ship_log.len() - 1].timestamp_ms;
    let ts128: i128 = (last_ts as i128) + ((budget - leftover) as i128);
    if ts128 > 4_611_686_018_427_387_903i128 || ts128 < -4_611_686_018_427_387_903i128 {
        return Err(SimError::ArithmeticOverflow);
    }
    let new_location: GeoPoint = if went_out {
        let nl = destination(here, heading, travel_used as u64);
        boat.tack(wind.angle_udeg);
        nl
    } else {
        tentative
    };
    let last_current: GeoPoint = boat.ship_log[boat.ship_log.len() - 1].coordinates_current;
    boat.location = Some(new_location);
    let entry = ShipLogEntry {
        timestamp_ms: ts128 as i64,
        coordinates_initial: run.coordinates_initial,
        coordinates_current: new_location,
        coordinates_final: run.coordinates_final,
        cargo_on_board: Some(boat.cargo_current),
        velocity: Some(v_og),
        course: Some(course),
        heading: boat.heading,
        track_angle: Some(rhumb_bearing_udeg(last_current, new_location)),
        true_bearing: None,
        draft: boat.draft,
        navigation_status: Some(NavigationStatus::UnderwaySailing),
    };
    boat.ship_log.push(entry);
    run.leftover_budget_ms = if leftover > 0 {
        Some(leftover)
    } else {
        None
    };
    run.iterations_used = run.iterations_used + 1;
    Ok(StepOutcome::Running)
}


/// Runs one waypoint mission with the configured strategy.
///
/// The weather-driven strategy needs wind and current samples fed in from
/// outside through [`sim_waypoint_mission_weather_begin`] and
/// [`sim_waypoint_mission_weather_step`], so asking this entry point for it
/// is a configuration the library alone cannot satisfy and is refused.
pub fn sim_waypoint_mission(
    boat: &mut Boat,
    start_time_ms: i64,
    simulation: &Simulation,
) -> (r: Result<SimStatus, SimError>)
    requires
        simulation.well_formed(),
        -4_000_000_000_000_000 <= start_time_ms <= 4_000_000_000_000_000,
        old(boat).velocity_mean matches Some(v) ==> -50_000_000_000 <= v <= 50_000_000_000,
        old(boat).velocity_std matches Some(sd) ==> -50_000_000_000 <= sd <= 50_000_000_000,
        old(boat).route_plan matches Some(rp) ==> rp@.len() < 4_000_000_000,
    ensures
        old(boat).route_plan is None ==> (r == Result::<SimStatus, SimError>::Err(
            SimError::ConfigurationError,
        ) && *final(boat) == *old(boat)),
        simulation.simulation_method == SimMethod::WeatherDataFromCopernicus ==> (r == Result::<
            SimStatus,
            SimError,
        >::Err(SimError::ConfigurationError) && *final(boat) == *old(boat)),
        simulation.simulation_method == SimMethod::ConstVelocity ==> ({
            &&& (r == Result::<SimStatus, SimError>::Err(SimError::ConfigurationError)
                <==> spec_constant_config_refused(*old(boat)))
            &&& (r == Result::<SimStatus, SimError>::Err(SimError::InvalidRouteGeometry) <==> (old(
                boat,
            ).velocity_mean is Some && spec_route_geometry_refused(*old(boat))))
            &&& (!spec_constant_config_refused(*old(boat)) && !spec_route_geometry_refused(
                *old(boat),
            ) && !spec_timestamps_can_overflow(start_time_ms as int, *simulation) ==> r is Ok)
            &&& (r == Result::<SimStatus, SimError>::Err(SimError::ArithmeticOverflow)
                ==> spec_timestamps_can_overflow(start_time_ms as int, *simulation))
            &&& ((r is Ok || r == Result::<SimStatus, SimError>::Err(SimError::ArithmeticOverflow))
                ==> (spec_run_log_post(*old(boat), *final(boat), start_time_ms as int)
                && log_timestamps_arithmetic(
                final(boat).ship_log@,
                old(boat).ship_log@.len() as int,
                spec_start_floor(start_time_ms as int),
                simulation.time_step_ms as int,
            )))
            &&& (r is Ok ==> ({
                let route = old(boat).route_plan->0@;
                let end = spec_run_state(
                    route,
                    route[route.len() - 1].p2,
                    route[0].p1,
                    1,
                    spec_constant_travels(
                        spec_travel_mm(
                            old(boat).velocity_mean->0 as int,
                            simulation.time_step_ms as int,
                        ),
                        simulation.max_iterations as nat,
                    ),
                    simulation.max_iterations as nat,
                );
                &&& (r == Result::<SimStatus, SimError>::Ok(SimStatus::Completed) <==> end.2)
                &&& final(boat).location == Some(end.0)
                &&& (final(boat).current_leg matches Some(leg) && leg as int == end.1)
            }))
        }),
        simulation.simulation_method == SimMethod::MeanAndSTDVelocity ==> ({
            &&& (r == Result::<SimStatus, SimError>::Err(SimError::ConfigurationError)
                <==> spec_mean_std_config_refused(*old(boat)))
            &&& (r == Result::<SimStatus, SimError>::Err(SimError::InvalidRouteGeometry) <==> (old(
                boat,
            ).velocity_mean is Some && old(boat).velocity_std is Some
                && spec_route_geometry_refused(*old(boat))))
            &&& (!spec_mean_std_config_refused(*old(boat)) && !spec_route_geometry_refused(
                *old(boat),
            ) && !spec_timestamps_can_overflow(start_time_ms as int, *simulation) ==> r is Ok)
            &&& (r == Result::<SimStatus, SimError>::Err(SimError::ArithmeticOverflow)
                ==> spec_timestamps_can_overflow(start_time_ms as int, *simulation))
            &&& ((r is Ok || r == Result::<SimStatus, SimError>::Err(SimError::ArithmeticOverflow))
                ==> spec_run_log_post(*old(boat), *final(boat), start_time_ms as int))
            &&& (r is Ok ==> ({
                let route = old(boat).route_plan->0@;
                let fin = route[route.len() - 1].p2;
                let step = simulation.time_step_ms as int;
                let v = old(boat).velocity_mean->0 as int;
                let sd0 = old(boat).velocity_std->0 as int;
                let sd = if sd0 < 0 {
                    -sd0
                } else {
                    sd0
                };
                let tr_lo = spec_travel_mm(v - sd, step);
                let tr_hi = spec_travel_mm(v + sd, step);
                exists|ts: Seq<int>|
                    #![trigger spec_run_state(
                        route,
                        fin,
                        route[0].p1,
                        1,
                        ts,
                        simulation.max_iterations as nat,
                    )]
                    {
                        &&& ts.len() == simulation.max_iterations
                        &&& (forall|k: int| 0 <= k < ts.len() ==> tr_lo <= #[trigger] ts[k] <= tr_hi)
                        &&& (r == Result::<SimStatus, SimError>::Ok(SimStatus::Completed)
                            <==> spec_run_state(
                            route,
                            fin,
                            route[0].p1,
                            1,
                            ts,
                            simulation.max_iterations as nat,
                        ).2)
                        &&& final(boat).location == Some(
                            spec_run_state(
                                route,
                                fin,
                                route[0].p1,
                                1,
                                ts,
                                simulation.max_iterations as nat,
                            ).0,
                        )
                        &&& (final(boat).current_leg matches Some(leg) && leg as int
                            == spec_run_state(
                            route,
                            fin,
                            route[0].p1,
                            1,
                            ts,
                            simulation.max_iterations as nat,
                        ).1)
                    }
            }))
        }),
        (r is Err && !(r == Result::<SimStatus, SimError>::Err(SimError::ArithmeticOverflow)))
            ==> *final(boat) == *old(boat),
        r is Ok ==> ({
            let base = old(boat).ship_log@.len() as int;
            let log = final(boat).ship_log@;
            &&& log.len() > base
            &&& log.subrange(0, base) =~= old(boat).ship_log@
            &&& (r == Result::<SimStatus, SimError>::Ok(SimStatus::Completed) ==> (old(
                boat,
            ).route_plan matches Some(rp) && log.last().coordinates_current == rp@[rp@.len()
                - 1].p2))
            &&& final(boat).velocity_mean == old(boat).velocity_mean
            &&& final(boat).velocity_std == old(boat).velocity_std
            &&& final(boat).route_plan == old(boat).route_plan
        }),
{
    if boat.route_plan.is_none() {
        return Err(SimError::ConfigurationError);
    }
    match simulation.simulation_method {
        SimMethod::ConstVelocity => sim_waypoint_mission_constant_velocity(
            boat,
            start_time_ms,
            simulation,
        ),
        SimMethod::MeanAndSTDVelocity => sim_waypoint_mission_mean_and_std_velocity(
            boat,
            start_time_ms,
            simulation,
        ),
        SimMethod::WeatherDataFromCopernicus => Err(SimError::ConfigurationError),
    }
}

/// Runs one waypoint mission per configured start time, accumulating every
/// run's entries in the boat's ship log; the first failing run stops the
/// sequence and returns its error.
pub fn sim_waypoint_missions(boat: &mut Boat, simulation: &Simulation) -> (r: Result<
    Vec<SimStatus>,
    SimError,
>)
    requires
        simulation.well_formed(),
        forall|k: int|
            0 <= k < simulation.start_times_ms@.len()
                ==> -4_000_000_000_000_000 <= #[trigger] simulation.start_times_ms@[k]
                <= 4_000_000_000_000_000,
        old(boat).velocity_mean matches Some(v) ==> -50_000_000_000 <= v <= 50_000_000_000,
        old(boat).velocity_std matches Some(sd) ==> -50_000_000_000 <= sd <= 50_000_000_000,
        old(boat).route_plan matches Some(rp) ==> rp@.len() < 4_000_000_000,
    ensures
        simulation.start_times_ms@.len() == 0 ==> (r is Ok && *final(boat) == *old(boat)),
        r matches Ok(statuses) ==> statuses@.len() == simulation.start_times_ms@.len(),
        final(boat).ship_log@.len() >= old(boat).ship_log@.len(),
        final(boat).ship_log@.subrange(0, old(boat).ship_log@.len() as int) =~= old(
            boat,
        ).ship_log@,
        final(boat).velocity_mean == old(boat).velocity_mean,
        final(boat).velocity_std == old(boat).velocity_std,
        final(boat).route_plan == old(boat).route_plan,
        final(boat).cargo_current == old(boat).cargo_current,
        final(boat).velocity_current == old(boat).velocity_current,
        final(boat).wind_preferred_side == old(boat).wind_preferred_side,
        final(boat).min_angle_of_attack == old(boat).min_angle_of_attack,
        simulation.simulation_method == SimMethod::WeatherDataFromCopernicus
            && simulation.start_times_ms@.len() > 0 ==> r == Result::<Vec<SimStatus>, SimError>::Err(
            SimError::ConfigurationError,
        ),
        simulation.simulation_method == SimMethod::ConstVelocity
            && simulation.start_times_ms@.len() > 0 ==> ({
            &&& (r == Result::<Vec<SimStatus>, SimError>::Err(SimError::ConfigurationError)
                <==> spec_constant_config_refused(*old(boat)))
            &&& (r == Result::<Vec<SimStatus>, SimError>::Err(SimError::InvalidRouteGeometry)
                <==> (old(boat).velocity_mean is Some && spec_route_geometry_refused(*old(boat))))
            &&& ((!spec_constant_config_refused(*old(boat)) && !spec_route_geometry_refused(
                *old(boat),
            ) && (forall|k: int|
                0 <= k < simulation.start_times_ms@.len() ==> !spec_timestamps_can_overflow(
                    #[trigger] simulation.start_times_ms@[k] as int,
                    *simulation,
                ))) ==> r is Ok)
        }),
        simulation.simulation_method == SimMethod::MeanAndSTDVelocity
            && simulation.start_times_ms@.len() > 0 ==> ({
            &&& (r == Result::<Vec<SimStatus>, SimError>::Err(SimError::ConfigurationError)
                <==> spec_mean_std_config_refused(*old(boat)))
            &&& (r == Result::<Vec<SimStatus>, SimError>::Err(SimError::InvalidRouteGeometry)
                <==> (old(boat).velocity_mean is Some && old(boat).velocity_std is Some
                && spec_route_geometry_refused(*old(boat))))
            &&& ((!spec_mean_std_config_refused(*old(boat)) && !spec_route_geometry_refused(
                *old(boat),
            ) && (forall|k: int|
                0 <= k < simulation.start_times_ms@.len() ==> !spec_timestamps_can_overflow(
                    #[trigger] simulation.start_times_ms@[k] as int,
                    *simulation,
                ))) ==> r is Ok)
        }),
{
    let mut statuses: Vec<SimStatus> = Vec::new();
    if simulation.start_times_ms.len() == 0 {
        return Ok(statuses);
    }
    let mut i: usize = 0;
    while i < simulation.start_times_ms.len()
        invariant
            simulation.well_formed(),
            forall|k: int|
                0 <= k < simulation.start_times_ms@.len()
                    ==> -4_000_000_000_000_000 <= #[trigger] simulation.start_times_ms@[k]
                    <= 4_000_000_000_000_000,
            i <= simulation.start_times_ms@.len(),
            statuses@.len() == i,
            i > 0 ==> simulation.simulation_method != SimMethod::WeatherDataFromCopernicus,
            i > 0 && simulation.simulation_method == SimMethod::ConstVelocity ==> (
            !spec_constant_config_refused(*old(boat)) && !(old(boat).velocity_mean is Some
                && spec_route_geometry_refused(*old(boat)))),
            i > 0 && simulation.simulation_method == SimMethod::MeanAndSTDVelocity ==> (
            !spec_mean_std_config_refused(*old(boat)) && !(old(boat).velocity_mean is Some && old(
                boat,
            ).velocity_std is Some && spec_route_geometry_refused(*old(boat)))),
            boat.velocity_mean == old(boat).velocity_mean,
            boat.velocity_std == old(boat).velocity_std,
            boat.route_plan == old(boat).route_plan,
            boat.cargo_current == old(boat).cargo_current,
            boat.velocity_current == old(boat).velocity_current,
            boat.wind_preferred_side == old(boat).wind_preferred_side,
            boat.min_angle_of_attack == old(boat).min_angle_of_attack,
            old(boat).velocity_mean matches Some(v) ==> -50_000_000_000 <= v <= 50_000_000_000,
            old(boat).velocity_std matches Some(sd) ==> -50_000_000_000 <= sd <= 50_000_000_000,
            old(boat).route_plan matches Some(rp) ==> rp@.len() < 4_000_000_000,
            boat.ship_log@.len() >= old(boat).ship_log@.len(),
            boat.ship_log@.subrange(0, old(boat).ship_log@.len() as int) =~= old(boat).ship_log@,
        decreases simulation.start_times_ms@.len() - i,
    {
        let start_time: i64 = simulation.start_times_ms[i];
        let ghost log_before = boat.ship_log@;
        match sim_waypoint_mission(boat, start_time, simulation) {
            Ok(status) => {
                proof {
                    lemma_prefix_chain(old(boat).ship_log@, log_before, boat.ship_log@);
                }
                statuses.push(status);
            },
            Err(e) => {
                proof {
                    if boat.ship_log@ == log_before {
                        assert(boat.ship_log@.subrange(0, log_before.len() as int)
                            =~= log_before);
                    }
                    lemma_prefix_chain(old(boat).ship_log@, log_before, boat.ship_log@);
                }
                return Err(e);
            },
        }
        i = i + 1;
    }
    Ok(statuses)
}

/// Prefix preservation composes: a log that keeps a longer log as a prefix
/// also keeps that log's own prefixes.
proof fn lemma_prefix_chain(s0: Seq<ShipLogEntry>, s1: Seq<ShipLogEntry>, s2: Seq<ShipLogEntry>)
    requires
        s0.len() <= s1.len() <= s2.len(),
        s1.subrange(0, s0.len() as int) =~= s0,
        s2.subrange(0, s1.len() as int) =~= s1,
    ensures
        s2.subrange(0, s0.len() as int) =~= s0,
{
    assert forall|j: int| 0 <= j < s0.len() implies s2.subrange(0, s0.len() as int)[j]
        == s0[j] by {
        assert(s2.subrange(0, s1.len() as int)[j] == s2[j]);
        assert(s1.subrange(0, s0.len() as int)[j] == s1[j]);
    }
}


/// The sum of the time differences between consecutive entries of a log,
/// from the entry at `base` up to (excluding) the entry at `upto`.
pub open spec fn spec_sum_deltas(log: Seq<ShipLogEntry>, base: int, upto: int) -> int
    decreases upto - base,
{
    if upto <= base + 1 {
        0
    } else {
        spec_sum_deltas(log, base, upto - 1) + (log[upto - 1].timestamp_ms - log[upto
            - 2].timestamp_ms)
    }
}

/// Time conservation: when the entries a run appended carry timestamps in
/// whole time steps from the run's start, the time differences between
/// consecutive entries sum to the number of logged sub-steps times the
/// fixed time step.
pub proof fn lemma_time_conservation(
    log: Seq<ShipLogEntry>,
    base: int,
    start: int,
    step: int,
    upto: int,
)
    requires
        0 <= base < upto <= log.len(),
        log_timestamps_arithmetic(log, base, start, step),
    ensures
        spec_sum_deltas(log, base, upto) == (upto - 1 - base) * step,
    decreases upto - base,
{
    if upto <= base + 1 {
        assert((upto - 1 - base) * step == 0) by (nonlinear_arith)
            requires
                upto - 1 - base == 0,
        ;
    } else {
        lemma_time_conservation(log, base, start, step, upto - 1);
        assert(log[upto - 1].timestamp_ms - log[upto - 2].timestamp_ms == ((upto - 1 - base) * step)
            - ((upto - 2 - base) * step)) by (nonlinear_arith)
            requires
                log[upto - 1].timestamp_ms == start + (upto - 1 - base) * step,
                log[upto - 2].timestamp_ms == start + (upto - 2 - base) * step,
        ;
        assert((upto - 2 - base) * step + ((upto - 1 - base) * step - (upto - 2 - base) * step)
            == (upto - 1 - base) * step);
    }
}

/// Corridor enforcement never lengthens a sub-step: when a step is about
/// to leave the corridor, the clipped travel distance lies between zero
/// and the intended travel distance.
pub proof fn lemma_corridor_clip_within(travel: int, d_cur: int, d_next: int, half_w: int)
    requires
        0 <= travel,
        0 <= d_cur,
        spec_corridor_exit(d_cur, d_next, half_w),
    ensures
        0 <= spec_clip_travel(travel, d_cur, d_next, half_w) <= travel,
{
    assert(travel * (half_w - d_cur) <= travel * (d_next - d_cur)) by (nonlinear_arith)
        requires
            0 <= travel,
            0 <= half_w - d_cur <= d_next - d_cur,
    ;
    vstd::arithmetic::div_mod::lemma_div_is_ordered(
        travel * (half_w - d_cur),
        travel * (d_next - d_cur),
        d_next - d_cur,
    );
    vstd::arithmetic::div_mod::lemma_div_multiples_vanish(travel, d_next - d_cur);
    assert(travel * (d_next - d_cur) == (d_next - d_cur) * travel) by (nonlinear_arith);
    vstd::arithmetic::div_mod::lemma_div_pos_is_pos(travel * (half_w - d_cur), d_next - d_cur);
}


} // verus!
