use marine_vessel_simulator::{
    get_north_angle_from_northward_and_eastward_property, month_from_day, Boat, GeoPoint,
    NavigationStatus, PhysVec, Rudder, Sail, SimError, VesselSide,
};

#[test]
fn switch_flips_and_twice_returns() {
    let mut side = VesselSide::Starboard;
    side.switch();
    assert_eq!(side, VesselSide::Port);
    side.switch();
    assert_eq!(side, VesselSide::Starboard);
}

#[test]
fn hold_tack_heading_stays_in_range() {
    // Whatever the wind angle, the commanded heading lands in [0, 360).
    for wind in [
        -720_000_000i64,
        -359_000_000,
        -10_000_000,
        0,
        10_000_000,
        340_000_000,
        359_999_999,
        360_000_000,
        725_000_000,
    ] {
        let mut boat = Boat::new();
        boat.min_angle_of_attack = Some(45_000_000);
        boat.hold_tack(wind);
        let h = boat.heading.unwrap();
        assert!(0 <= h && h < 360_000_000, "wind {} gave heading {}", wind, h);
        let mut boat = Boat::new();
        boat.min_angle_of_attack = Some(45_000_000);
        boat.wind_preferred_side = VesselSide::Port;
        boat.hold_tack(wind);
        let h = boat.heading.unwrap();
        assert!(0 <= h && h < 360_000_000, "wind {} gave heading {}", wind, h);
    }
}

#[test]
fn hold_tack_points_off_the_wind() {
    let mut boat = Boat::new();
    boat.min_angle_of_attack = Some(45_000_000);
    // Starboard keeps the wind to starboard: heading is wind minus the
    // angle of attack.
    boat.hold_tack(90_000_000);
    assert_eq!(boat.heading, Some(45_000_000));
    // Port: heading is wind plus the angle of attack.
    boat.wind_preferred_side = VesselSide::Port;
    boat.hold_tack(90_000_000);
    assert_eq!(boat.heading, Some(135_000_000));
}

#[test]
fn tack_flips_side_and_recomputes_heading() {
    let mut boat = Boat::new();
    boat.min_angle_of_attack = Some(45_000_000);
    assert_eq!(boat.wind_preferred_side, VesselSide::Starboard);
    boat.tack(0);
    assert_eq!(boat.wind_preferred_side, VesselSide::Port);
    assert_eq!(boat.heading, Some(45_000_000));
    boat.tack(0);
    assert_eq!(boat.wind_preferred_side, VesselSide::Starboard);
    assert_eq!(boat.heading, Some(315_000_000));
}

#[test]
fn load_cargo_respects_capacity() {
    let mut boat = Boat::new();
    boat.cargo_max_capacity = Some(1_000);
    assert_eq!(boat.load_cargo(900), Ok(()));
    assert_eq!(boat.cargo_current, 900);
    assert_eq!(boat.load_cargo(1_001), Err(SimError::ConfigurationError));
    assert_eq!(boat.cargo_current, 900);
    let mut open_boat = Boat::new();
    assert_eq!(open_boat.load_cargo(5_000_000), Ok(()));
    assert_eq!(open_boat.cargo_current, 5_000_000);
}

#[test]
fn log_entry_carries_voyage_endpoints_forward() {
    let mut boat = Boat::new();
    boat.location = Some(GeoPoint::new(0, 0));
    boat.time_now_ms = 1_000;
    boat.log_entry_into_ship_log();
    assert_eq!(boat.ship_log.len(), 1);
    let first = &boat.ship_log[0];
    assert_eq!(first.coordinates_initial, GeoPoint::new(0, 0));
    assert_eq!(first.coordinates_final, GeoPoint::new(0, 0));
    assert_eq!(first.track_angle, None);
    assert_eq!(first.timestamp_ms, 1_000);
    // A later entry keeps the first entry's initial and final coordinates
    // and records a track angle.
    boat.location = Some(GeoPoint::new(1_000_000, 0));
    boat.time_now_ms = 2_000;
    boat.log_entry_into_ship_log();
    let second = &boat.ship_log[1];
    assert_eq!(second.coordinates_initial, GeoPoint::new(0, 0));
    assert_eq!(second.coordinates_current, GeoPoint::new(1_000_000, 0));
    assert!(second.track_angle.is_some());
}

#[test]
fn navigation_status_codes_follow_ais() {
    assert_eq!(NavigationStatus::UnderwayUsingEngine.code(), 0);
    assert_eq!(NavigationStatus::AtAnchor.code(), 1);
    assert_eq!(NavigationStatus::Moored.code(), 5);
    assert_eq!(NavigationStatus::UnderwaySailing.code(), 8);
}

#[test]
fn sail_and_rudder_constructors_keep_fields() {
    let sail = Sail::new(500_000, 10_000_000, 1_200, 300);
    assert_eq!(sail.area_cm2, 500_000);
    assert_eq!(sail.current_angle_of_attack_udeg, 10_000_000);
    assert_eq!(sail.lift_coefficient_milli, 1_200);
    assert_eq!(sail.drag_coefficient_milli, 300);
    let rudder = Rudder::new(20_000, -5_000_000, 900, 250);
    assert_eq!(rudder.area_cm2, 20_000);
    assert_eq!(rudder.current_angle_of_attack_udeg, -5_000_000);
    assert_eq!(rudder.lift_coefficient_milli, 900);
    assert_eq!(rudder.drag_coefficient_milli, 250);
}

#[test]
fn new_boat_starts_empty_on_starboard() {
    let boat = Boat::new();
    assert!(boat.ship_log.is_empty());
    assert_eq!(boat.cargo_current, 0);
    assert_eq!(boat.wind_preferred_side, VesselSide::Starboard);
    assert!(boat.location.is_none());
    assert!(boat.route_plan.is_none());
    assert!(boat.velocity_mean.is_none());
}

#[test]
fn physvec_components_and_sum() {
    // A northward and an eastward vector of equal size sum to a
    // northeasterly one.
    let north = PhysVec::new(1_000_000, 0);
    let east = PhysVec::new(1_000_000, 90_000_000);
    let sum = north.plus(east);
    let expected_mag = (2.0_f64).sqrt() * 1_000_000.0;
    assert!(
        (sum.magnitude as f64 - expected_mag).abs() <= 10.0,
        "magnitude {}",
        sum.magnitude
    );
    assert!(
        (sum.angle_udeg - 45_000_000).abs() <= 10_000,
        "angle {}",
        sum.angle_udeg
    );
}

#[test]
fn north_angle_of_cardinal_vectors() {
    assert_eq!(get_north_angle_from_northward_and_eastward_property(1_000, 0), 90_000_000);
    assert_eq!(get_north_angle_from_northward_and_eastward_property(-1_000, 0), 270_000_000);
    let n = get_north_angle_from_northward_and_eastward_property(0, 1_000);
    assert!(n <= 10_000 || n >= 350_000_000, "north gave {}", n);
    let s = get_north_angle_from_northward_and_eastward_property(0, -1_000);
    assert!((s - 180_000_000).abs() <= 10_000, "south gave {}", s);
}

#[test]
fn leap_years_follow_the_gregorian_rule() {
    // A century year is a leap year only every fourth century, which shows
    // in where day 60 falls.
    assert_eq!(month_from_day(60, 2000), (2, 29));
    assert_eq!(month_from_day(60, 1900), (3, 1));
    assert_eq!(month_from_day(60, 2024), (2, 29));
    assert_eq!(month_from_day(60, 2023), (3, 1));
}

#[test]
fn month_from_day_handles_leap_february() {
    assert_eq!(month_from_day(1, 2023), (1, 1));
    assert_eq!(month_from_day(31, 2023), (1, 31));
    assert_eq!(month_from_day(32, 2023), (2, 1));
    assert_eq!(month_from_day(60, 2024), (2, 29));
    assert_eq!(month_from_day(60, 2023), (3, 1));
    assert_eq!(month_from_day(61, 2024), (3, 1));
    assert_eq!(month_from_day(365, 2023), (12, 31));
    assert_eq!(month_from_day(366, 2024), (12, 31));
}

#[test]
fn minus_undoes_plus() {
    let base = PhysVec::new(1_000_000, 0);
    let east = PhysVec::new(500_000, 90_000_000);
    let sum = base.plus(east);
    let back = sum.minus(east);
    assert!(
        (back.magnitude - base.magnitude).abs() <= 10,
        "magnitude {}",
        back.magnitude
    );
    let angle_off = back.angle_udeg.min(360_000_000 - back.angle_udeg);
    assert!(angle_off <= 10_000, "angle {}", back.angle_udeg);
}
