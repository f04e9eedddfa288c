use marine_vessel_simulator::{
    bearing_udeg, destination, distance_mm, min_distance_point_to_great_circle,
    min_haversine_distance, min_orthogonal_projection_distance, point_at_ratio, rhumb_bearing_udeg,
    GeoPoint, EARTH_RADIUS_MM,
};

fn pt(lon_udeg: i64, lat_udeg: i64) -> GeoPoint {
    GeoPoint::new(lon_udeg, lat_udeg)
}

fn assert_close_mm(actual: u64, expected_mm: f64, tol_mm: f64) {
    let diff = (actual as f64 - expected_mm).abs();
    assert!(
        diff <= tol_mm,
        "got {} mm, expected {} mm (off by {} mm)",
        actual,
        expected_mm,
        diff
    );
}

#[test]
fn min_haversine_distance_test() {
    println!("Testing min_haversine_distance function...");
    println!("Earth radius: {} meters", EARTH_RADIUS_MM as f64 / 1000.0);
    // First test short distance on both sides
    let p1 = pt(0, 0);
    let p2 = pt(100_000_000, 0);
    let p3 = pt(50_000_000, 10_000_000);
    let p4 = pt(50_000_000, -10_000_000);
    // R * (10 degrees in radians), about 1111.95 kilometers
    let correct_dist_mm = (EARTH_RADIUS_MM as f64) * (10.0_f64).to_radians();
    let dist = min_haversine_distance(p1, p2, p3);
    assert_close_mm(dist, correct_dist_mm, 1000.0);
    let dist = min_haversine_distance(p1, p2, p4);
    assert_close_mm(dist, correct_dist_mm, 1000.0);

    // Then test long distance across angle on both sides
    let p1 = pt(0, 0);
    let p2 = pt(50_000_000, 45_000_000);
    let p3 = pt(0, 90_000_000);
    let p4 = pt(100_000_000, 0);
    let correct_dist_mm = (EARTH_RADIUS_MM as f64) * (45.0_f64).to_radians();
    let dist = min_haversine_distance(p1, p2, p3);
    assert_close_mm(dist, correct_dist_mm, 1000.0);
    // The distance function decreases all the way to p2 here, so the
    // bracket converges onto the near endpoint and the search returns the
    // distance from p2 to p4.
    let correct_dist_mm = distance_mm(p2, p4) as f64;
    let dist = min_haversine_distance(p1, p2, p4);
    assert_close_mm(dist, correct_dist_mm, 10_000.0);
}

#[test]
fn min_distance_algorithms_agree() {
    // The bisection and the closed form agree within one meter on the
    // equatorial reference cases.
    let cases = [
        (pt(0, 0), pt(100_000_000, 0), pt(50_000_000, 10_000_000)),
        (pt(0, 0), pt(100_000_000, 0), pt(50_000_000, -10_000_000)),
    ];
    for (p1, p2, p3) in cases {
        let bis = min_haversine_distance(p1, p2, p3) as f64;
        let closed = min_distance_point_to_great_circle(p1, p2, p3) as f64;
        let diff = (bis - closed).abs();
        assert!(diff <= 1000.0, "bisection {} and closed form {} differ by {} mm", bis, closed, diff);
    }
    // On oblique legs the bisection's own one-meter stopping rule leaves a
    // few meters of slack where the distance curve is flat, so the two
    // agree to ten meters there.
    let cases = [
        (pt(10_000_000, 5_000_000), pt(30_000_000, 15_000_000), pt(20_000_000, 12_000_000)),
        (pt(-20_000_000, -10_000_000), pt(20_000_000, -10_000_000), pt(0, -12_000_000)),
    ];
    for (p1, p2, p3) in cases {
        let bis = min_haversine_distance(p1, p2, p3) as f64;
        let closed = min_distance_point_to_great_circle(p1, p2, p3) as f64;
        let diff = (bis - closed).abs();
        assert!(diff <= 10_000.0, "bisection {} and closed form {} differ by {} mm", bis, closed, diff);
    }
}

#[test]
fn min_distance_zero_at_endpoints() {
    let p1 = pt(10_000_000, 20_000_000);
    let p2 = pt(30_000_000, 25_000_000);
    assert_eq!(min_haversine_distance(p1, p2, p1), 0);
    assert_eq!(min_haversine_distance(p1, p2, p2), 0);
    assert_eq!(min_distance_point_to_great_circle(p1, p2, p1), 0);
    assert_eq!(min_distance_point_to_great_circle(p1, p2, p2), 0);
}

#[test]
fn distance_one_degree_on_equator() {
    // One degree of longitude on the equator is R * pi / 180.
    let expected = (EARTH_RADIUS_MM as f64) * (1.0_f64).to_radians();
    let d = distance_mm(pt(0, 0), pt(1_000_000, 0));
    assert_close_mm(d, expected, 2000.0);
    // The distance is symmetric and zero on coincident points.
    assert_eq!(d, distance_mm(pt(1_000_000, 0), pt(0, 0)));
    assert_eq!(distance_mm(pt(5_000_000, 5_000_000), pt(5_000_000, 5_000_000)), 0);
}

#[test]
fn bearing_cardinal_directions() {
    // Due north is 0 degrees, due east about 90, due south 180, due west about 270.
    assert_eq!(bearing_udeg(pt(0, 0), pt(0, 1_000_000)), 0);
    let east = bearing_udeg(pt(0, 0), pt(1_000_000, 0));
    assert!((east - 90_000_000).abs() <= 10_000, "east bearing {}", east);
    let south = bearing_udeg(pt(0, 0), pt(0, -1_000_000));
    assert_eq!(south, 180_000_000);
    let west = bearing_udeg(pt(0, 0), pt(-1_000_000, 0));
    assert!((west - 270_000_000).abs() <= 10_000, "west bearing {}", west);
}

#[test]
fn destination_round_trip() {
    // For small distances the haversine distance back to the start matches
    // the travelled distance closely, for any bearing.
    let start = pt(10_000_000, 45_000_000);
    let d_mm: u64 = 100_000_000; // 100 km
    for b in [0i64, 45_000_000, 90_000_000, 135_000_000, 200_000_000, 270_000_000, 359_000_000] {
        let there = destination(start, b, d_mm);
        let back = distance_mm(start, there);
        let diff = (back as f64 - d_mm as f64).abs();
        assert!(diff <= 10_000.0, "bearing {}: went {} mm, measured {} mm", b, d_mm, back);
    }
}

#[test]
fn destination_zero_distance_stays_close() {
    let start = pt(25_000_000, -33_000_000);
    let there = destination(start, 123_000_000, 0);
    let moved = distance_mm(start, there);
    assert!(moved <= 1000, "moved {} mm on a zero-length step", moved);
}

#[test]
fn point_at_ratio_interpolates() {
    let p1 = pt(0, 0);
    let p2 = pt(10_000_000, 0);
    let half = point_at_ratio(p1, p2, 500_000_000);
    let d1 = distance_mm(p1, half) as f64;
    let d2 = distance_mm(half, p2) as f64;
    assert!((d1 - d2).abs() <= 10_000.0, "halves differ: {} vs {}", d1, d2);
    let start = point_at_ratio(p1, p2, 0);
    assert!(distance_mm(p1, start) <= 1000);
}

#[test]
fn rhumb_bearing_on_parallel_and_meridian() {
    // Along a meridian the rhumb bearing is due north; along the equator
    // it is due east.
    assert_eq!(rhumb_bearing_udeg(pt(0, 0), pt(0, 10_000_000)), 0);
    let east = rhumb_bearing_udeg(pt(0, 0), pt(10_000_000, 0));
    assert!((east - 90_000_000).abs() <= 10_000, "east rhumb {}", east);
}

#[test]
fn orthogonal_projection_on_the_line_is_small() {
    // A point on the line between the endpoints is at distance zero.
    let p1 = pt(0, 0);
    let p2 = pt(10_000_000, 0);
    let on_line = pt(5_000_000, 0);
    let d = min_orthogonal_projection_distance(p1, p2, on_line);
    assert!(d <= 1000, "distance {} mm for a point on the line", d);
    // A point one degree off the equatorial line is about one degree away.
    let off = pt(5_000_000, 1_000_000);
    let expected = (EARTH_RADIUS_MM as f64) * (1.0_f64).to_radians();
    let d = min_orthogonal_projection_distance(p1, p2, off) as f64;
    assert!((d - expected).abs() <= 100_000.0, "got {} expected {}", d, expected);
    // The name measures the same spherical distance to the line as the
    // closed form.
    assert_eq!(
        min_orthogonal_projection_distance(p1, p2, off),
        min_distance_point_to_great_circle(p1, p2, off)
    );
}
