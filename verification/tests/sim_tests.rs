use marine_vessel_simulator::simulators::corridor_clip;
use marine_vessel_simulator::simulators::split_budget;
use marine_vessel_simulator::{
    decide_heading, min_distance_point_to_great_circle, sim_waypoint_mission,
    sim_waypoint_mission_weather_begin, sim_waypoint_mission_weather_step, sim_waypoint_missions,
    validate_route, Boat, GeoPoint, PhysVec, Sail, SimError, SimMethod, SimStatus, Simulation,
    SailingLeg, StepOutcome, VesselSide,
};

fn pt(lon_udeg: i64, lat_udeg: i64) -> GeoPoint {
    GeoPoint::new(lon_udeg, lat_udeg)
}

/// A two-leg route along the equator totaling about 200 km.
fn two_leg_route() -> Vec<SailingLeg> {
    vec![
        SailingLeg {
            p1: pt(0, 0),
            p2: pt(900_000, 0),
            tacking_width_mm: 20_000_000,
            min_proximity_mm: 100_000,
        },
        SailingLeg {
            p1: pt(900_000, 0),
            p2: pt(1_800_000, 0),
            tacking_width_mm: 20_000_000,
            min_proximity_mm: 100_000,
        },
    ]
}

fn constant_sim(max_iterations: usize) -> Simulation {
    Simulation::new(SimMethod::ConstVelocity, vec![0], 3_600_000, max_iterations, None)
}

#[test]
fn constant_velocity_completes_two_leg_route() {
    // 10 m/s for 10 hours covers 360 km, more than the 200 km route.
    let mut boat = Boat::new();
    boat.velocity_mean = Some(10_000);
    boat.route_plan = Some(two_leg_route());
    let sim = constant_sim(10);
    let r = sim_waypoint_mission(&mut boat, 0, &sim);
    assert_eq!(r, Ok(SimStatus::Completed));
    let last = boat.ship_log.last().unwrap();
    assert_eq!(last.coordinates_current, pt(1_800_000, 0));
    // Time conservation: each appended entry is one whole step after the
    // one before it, so the deltas sum to the iterations used times the
    // step.
    for j in 1..boat.ship_log.len() {
        let delta = boat.ship_log[j].timestamp_ms - boat.ship_log[j - 1].timestamp_ms;
        assert_eq!(delta, 3_600_000);
    }
    let used = boat.ship_log.len() as i64 - 1;
    assert_eq!(last.timestamp_ms - boat.ship_log[0].timestamp_ms, used * 3_600_000);
}

#[test]
fn constant_velocity_exhausts_after_one_iteration() {
    let mut boat = Boat::new();
    boat.velocity_mean = Some(10_000);
    boat.route_plan = Some(two_leg_route());
    let sim = constant_sim(1);
    let r = sim_waypoint_mission(&mut boat, 0, &sim);
    assert_eq!(r, Ok(SimStatus::IterationsExhausted));
    // The log holds exactly iterationsUsed + 1 entries: the starting entry
    // and one per iteration.
    assert_eq!(boat.ship_log.len(), 2);
}

#[test]
fn constant_velocity_missing_mean_velocity_is_refused() {
    let mut boat = Boat::new();
    boat.route_plan = Some(two_leg_route());
    let sim = constant_sim(10);
    let r = sim_waypoint_mission(&mut boat, 0, &sim);
    assert_eq!(r, Err(SimError::ConfigurationError));
    assert!(boat.ship_log.is_empty());
}

#[test]
fn missing_route_plan_is_refused() {
    let mut boat = Boat::new();
    boat.velocity_mean = Some(10_000);
    let sim = constant_sim(10);
    let r = sim_waypoint_mission(&mut boat, 0, &sim);
    assert_eq!(r, Err(SimError::ConfigurationError));
}

#[test]
fn degenerate_leg_is_refused() {
    let mut boat = Boat::new();
    boat.velocity_mean = Some(10_000);
    boat.route_plan = Some(vec![SailingLeg {
        p1: pt(5_000_000, 5_000_000),
        p2: pt(5_000_000, 5_000_000),
        tacking_width_mm: 1_000_000,
        min_proximity_mm: 1_000,
    }]);
    let sim = constant_sim(10);
    let r = sim_waypoint_mission(&mut boat, 0, &sim);
    assert_eq!(r, Err(SimError::InvalidRouteGeometry));
}

#[test]
fn validate_route_distinguishes_empty_from_degenerate() {
    let empty: Vec<SailingLeg> = Vec::new();
    assert_eq!(validate_route(&empty), Err(SimError::ConfigurationError));
    let degenerate = vec![SailingLeg {
        p1: pt(0, 0),
        p2: pt(0, 0),
        tacking_width_mm: 0,
        min_proximity_mm: 0,
    }];
    assert_eq!(validate_route(&degenerate), Err(SimError::InvalidRouteGeometry));
    assert_eq!(validate_route(&two_leg_route()), Ok(()));
}

#[test]
fn mean_and_std_velocity_completes() {
    // With a deviation below the mean every draw moves the boat forward,
    // so the run completes just as the constant strategy does.
    let mut boat = Boat::new();
    boat.velocity_mean = Some(10_000);
    boat.velocity_std = Some(2_000);
    boat.route_plan = Some(two_leg_route());
    let sim = Simulation::new(SimMethod::MeanAndSTDVelocity, vec![0], 3_600_000, 20, None);
    let r = sim_waypoint_mission(&mut boat, 0, &sim);
    assert_eq!(r, Ok(SimStatus::Completed));
    assert_eq!(boat.ship_log.last().unwrap().coordinates_current, pt(1_800_000, 0));
    // Timestamps advance strictly, and every logged speed stays within one
    // deviation of the mean.
    for j in 1..boat.ship_log.len() {
        assert!(boat.ship_log[j].timestamp_ms > boat.ship_log[j - 1].timestamp_ms);
        let v = boat.ship_log[j].velocity.unwrap();
        assert!(8_000 <= v.magnitude && v.magnitude <= 12_000, "speed {}", v.magnitude);
    }
}

#[test]
fn missions_with_no_start_times_do_nothing() {
    let mut boat = Boat::new();
    boat.velocity_mean = Some(10_000);
    boat.route_plan = Some(two_leg_route());
    let sim = Simulation::new(SimMethod::ConstVelocity, Vec::new(), 3_600_000, 10, None);
    let r = sim_waypoint_missions(&mut boat, &sim);
    assert_eq!(r.unwrap().len(), 0);
    assert!(boat.ship_log.is_empty());
}

#[test]
fn missions_run_once_per_start_time() {
    let mut boat = Boat::new();
    boat.velocity_mean = Some(10_000);
    boat.route_plan = Some(two_leg_route());
    let sim = Simulation::new(
        SimMethod::ConstVelocity,
        vec![0, 86_400_000, 172_800_000],
        3_600_000,
        10,
        None,
    );
    let r = sim_waypoint_missions(&mut boat, &sim);
    let statuses = r.unwrap();
    assert_eq!(statuses.len(), 3);
    for s in statuses {
        assert_eq!(s, SimStatus::Completed);
    }
}

fn weather_boat() -> Boat {
    let mut boat = Boat::new();
    boat.mass = Some(10_000);
    boat.sail = Some(Sail::new(500_000, 0, 1_200, 300));
    boat.min_angle_of_attack = Some(45_000_000);
    boat.route_plan = Some(vec![SailingLeg {
        p1: pt(0, 0),
        p2: pt(1_000_000, 0),
        tacking_width_mm: 10_000_000,
        min_proximity_mm: 1_000_000,
    }]);
    boat
}

fn weather_sim(max_iterations: usize) -> Simulation {
    Simulation::new(
        SimMethod::WeatherDataFromCopernicus,
        vec![0],
        3_600_000,
        max_iterations,
        Some(String::from("weather.nc")),
    )
}

#[test]
fn weather_begin_validates_configuration() {
    let mut boat = Boat::new();
    boat.route_plan = weather_boat().route_plan;
    let sim = weather_sim(5);
    // Mass, sail and angle of attack are missing.
    assert!(sim_waypoint_mission_weather_begin(&mut boat, 0, &sim).is_err());
    let mut boat = weather_boat();
    let no_file = Simulation::new(SimMethod::WeatherDataFromCopernicus, vec![0], 3_600_000, 5, None);
    assert!(sim_waypoint_mission_weather_begin(&mut boat, 0, &no_file).is_err());
    let mut boat = weather_boat();
    let run = sim_waypoint_mission_weather_begin(&mut boat, 0, &sim).unwrap();
    assert_eq!(run.iterations_used, 0);
    assert_eq!(run.coordinates_initial, pt(0, 0));
    assert_eq!(run.coordinates_final, pt(1_000_000, 0));
    assert_eq!(boat.ship_log.len(), 1);
    assert_eq!(boat.location, Some(pt(0, 0)));
}

#[test]
fn weather_step_tacks_at_the_corridor_boundary() {
    let mut boat = weather_boat();
    let sim = weather_sim(5);
    let mut run = sim_waypoint_mission_weather_begin(&mut boat, 0, &sim).unwrap();
    assert_eq!(boat.wind_preferred_side, VesselSide::Starboard);
    // Wind blowing toward due east, straight along the leg: the boat must
    // tack, and with 15 m/s through water for an hour it would leave the
    // 5 km half-corridor, so the step is clipped and the tack flips the
    // preferred side.
    let wind = PhysVec::new(10_000, 90_000_000);
    let r = sim_waypoint_mission_weather_step(&mut boat, &mut run, &sim, wind, None);
    assert_eq!(r, Ok(StepOutcome::Running));
    assert_eq!(run.iterations_used, 1);
    assert_eq!(boat.ship_log.len(), 2);
    assert_eq!(boat.wind_preferred_side, VesselSide::Port);
    // The leftover budget from the clipped sub-step carries to the next.
    let leftover = run.leftover_budget_ms.unwrap();
    assert!(leftover > 0 && leftover < 3_600_000);
    // Corridor invariant: the logged position stays within half the
    // corridor width of the leg's line, up to the linear-interpolation
    // tolerance of the clip.
    let leg = boat.route_plan.as_ref().unwrap()[0];
    let here = boat.ship_log.last().unwrap().coordinates_current;
    let d = min_distance_point_to_great_circle(leg.p1, leg.p2, here);
    assert!(
        d <= leg.tacking_width_mm / 2 + 500_000,
        "distance to the leg line is {} mm",
        d
    );
    // The time consumed plus the leftover make up the whole step, and the
    // logged velocity is the over-ground vector: one and a half times the
    // wind speed through water, with no current to add.
    let delta = boat.ship_log[1].timestamp_ms - boat.ship_log[0].timestamp_ms;
    assert_eq!(delta + leftover, 3_600_000);
    let v_og = boat.velocity_current.unwrap();
    assert_eq!(v_og.magnitude, 15_000);
    assert_eq!(boat.ship_log[1].velocity, Some(v_og));
}

#[test]
fn weather_step_exhausts_when_budget_is_spent() {
    let mut boat = weather_boat();
    let sim = weather_sim(0);
    let mut run = sim_waypoint_mission_weather_begin(&mut boat, 0, &sim).unwrap();
    let wind = PhysVec::new(10_000, 90_000_000);
    let r = sim_waypoint_mission_weather_step(&mut boat, &mut run, &sim, wind, None);
    assert_eq!(r, Ok(StepOutcome::IterationsExhausted));
    assert_eq!(boat.ship_log.len(), 1);
}

#[test]
fn weather_dispatch_needs_the_step_interface() {
    // The one-call dispatcher cannot supply weather samples, so the
    // weather-driven method is refused there.
    let mut boat = weather_boat();
    boat.velocity_mean = Some(10_000);
    let sim = weather_sim(5);
    let r = sim_waypoint_mission(&mut boat, 0, &sim);
    assert_eq!(r, Err(SimError::ConfigurationError));
}

#[test]
fn has_arrived_and_advance_walk_the_route() {
    let mut boat = Boat::new();
    boat.route_plan = Some(two_leg_route());
    boat.current_leg = Some(1);
    boat.location = Some(pt(0, 0));
    assert!(!boat.has_arrived());
    boat.location = Some(pt(900_000, 0));
    assert!(boat.has_arrived());
    // Within the arrival proximity of the waypoint counts as arrived too:
    // 100 meters short of it along the equator is inside the 100 meter
    // proximity of this route.
    boat.location = Some(pt(899_100, 0));
    assert!(boat.has_arrived());
    // Advancing from the first leg moves on; from the last leg it signals
    // completion and stays.
    assert!(!boat.advance());
    assert_eq!(boat.current_leg, Some(2));
    assert!(boat.advance());
    assert_eq!(boat.current_leg, Some(2));
}

#[test]
fn decide_heading_tacks_only_close_to_the_wind() {
    // Wind dead on the bearing: the boat holds its tack at the least
    // sailable angle off the wind.
    let (h, tacking) = decide_heading(VesselSide::Starboard, 90_000_000, 90_000_000, 45_000_000);
    assert!(tacking);
    assert_eq!(h, 45_000_000);
    let (h, tacking) = decide_heading(VesselSide::Port, 90_000_000, 90_000_000, 45_000_000);
    assert!(tacking);
    assert_eq!(h, 135_000_000);
    // Wind well off the bearing: the boat sails straight at the waypoint.
    let (h, tacking) = decide_heading(VesselSide::Starboard, 180_000_000, 45_000_000, 45_000_000);
    assert!(!tacking);
    assert_eq!(h, 45_000_000);
}

#[test]
fn corridor_clip_scales_by_the_remaining_margin() {
    // Inside the corridor and staying inside: no clip.
    assert_eq!(corridor_clip(1_000, 10, 15, 20), None);
    // About to exit: the travel is scaled by margin over growth.
    assert_eq!(corridor_clip(1_000, 10, 30, 20), Some(500));
    // Already outside: enforcement does not apply.
    assert_eq!(corridor_clip(1_000, 25, 30, 20), None);
}

#[test]
fn split_budget_accounts_for_time_spent() {
    // 18 km at 10 m/s takes half of a one-hour budget.
    assert_eq!(split_budget(18_000_000, 10_000, 3_600_000), 1_800_000);
    // Spending the whole budget leaves nothing.
    assert_eq!(split_budget(36_000_000, 10_000, 3_600_000), 0);
}
