use drone_optimizer::adjuster::{
    adjust, clamp_altitude, DEFAULT_GAIN, MAX_ALTITUDE, MIN_ALTITUDE,
};
use drone_optimizer::error::OptimizerError;
use drone_optimizer::geodesic::{calculate_distance, calculate_energy, calculate_time};
use drone_optimizer::route::{Route, RoutePoint, RouteSegment};

fn two_leg_route() -> Route {
    let a = RoutePoint::new(0, 0, 100_000_000);
    let b = RoutePoint::new(0, 1_000_000, 200_000_000);
    let c = RoutePoint::new(1_000_000, 1_000_000, 50_000_000);
    Route::new(
        vec![
            RouteSegment::new(a, b, 111_194_970, 2_021_726, 11_675_471),
            RouteSegment::new(b, c, 111_195_027, 1_853_250, 12_231_452),
        ],
        222_389_997,
        3_874_976,
        23_906_923,
    )
}

fn assert_totals_are_sums(route: &Route) {
    let mut distance: i128 = 0;
    let mut time: i128 = 0;
    let mut energy: i128 = 0;
    for s in route.segments.iter() {
        distance += s.distance as i128;
        time += s.time as i128;
        energy += s.energy as i128;
    }
    assert_eq!(route.total_distance, distance);
    assert_eq!(route.total_time, time);
    assert_eq!(route.total_energy, energy);
}

fn assert_legs_are_measured(route: &Route) {
    for s in route.segments.iter() {
        let d = calculate_distance(
            s.start.lat,
            s.start.lon,
            s.start.altitude,
            s.end.lat,
            s.end.lon,
            s.end.altitude,
        );
        assert_eq!(s.distance, d);
        assert_eq!(s.time as i128, calculate_time(d, s.start.altitude));
        assert_eq!(s.energy as i128, calculate_energy(d, s.start.altitude));
        assert!(s.distance >= 0);
        assert!(s.time >= 0);
        assert!(s.energy >= 0);
        assert!(MIN_ALTITUDE <= s.start.altitude && s.start.altitude <= MAX_ALTITUDE);
    }
}

#[test]
fn the_default_gain_is_ten() {
    assert_eq!(DEFAULT_GAIN, 10);
    assert_eq!(MIN_ALTITUDE, 0);
    assert_eq!(MAX_ALTITUDE, 1_000_000_000);
}

#[test]
fn clamp_altitude_keeps_values_in_range() {
    assert_eq!(clamp_altitude(-1), 0);
    assert_eq!(clamp_altitude(0), 0);
    assert_eq!(clamp_altitude(123_456), 123_456);
    assert_eq!(clamp_altitude(1_000_000_000), 1_000_000_000);
    assert_eq!(clamp_altitude(1_000_000_001), 1_000_000_000);
    assert_eq!(clamp_altitude(i128::MAX), 1_000_000_000);
    assert_eq!(clamp_altitude(i128::MIN), 0);
}

#[test]
fn with_start_altitude_measures_the_leg_anew() {
    let s = two_leg_route().segments[0];
    let moved = s.with_start_altitude(130_000_000);
    assert_eq!(
        moved,
        RouteSegment::new(
            RoutePoint::new(0, 0, 130_000_000),
            RoutePoint::new(0, 1_000_000, 200_000_000),
            111_194_948,
            1_968_052,
            11_842_261,
        )
    );
}

#[test]
fn adjust_raises_every_start_by_the_same_shift() {
    let r = two_leg_route();
    let out = adjust(&r, 10, 3_874_976 + 3_000_000).unwrap();
    let a = RoutePoint::new(0, 0, 130_000_000);
    let b = RoutePoint::new(0, 1_000_000, 200_000_000);
    let b_up = RoutePoint::new(0, 1_000_000, 230_000_000);
    let c = RoutePoint::new(1_000_000, 1_000_000, 50_000_000);
    assert_eq!(
        out,
        Route::new(
            vec![
                RouteSegment::new(a, b, 111_194_948, 1_968_052, 11_842_261),
                RouteSegment::new(b_up, c, 111_195_071, 1_808_049, 12_398_250),
            ],
            222_390_019,
            3_776_101,
            24_240_511,
        )
    );
    assert_totals_are_sums(&out);
    assert_legs_are_measured(&out);
}

#[test]
fn adjust_leaves_the_ends_of_the_legs_alone() {
    let r = two_leg_route();
    let out = adjust(&r, 10, 3_874_976 + 3_000_000).unwrap();
    assert_eq!(out.segments.len(), r.segments.len());
    for (before, after) in r.segments.iter().zip(out.segments.iter()) {
        assert_eq!(after.end, before.end);
        assert_eq!(after.start.lat, before.start.lat);
        assert_eq!(after.start.lon, before.start.lon);
    }
    assert_eq!(out.segments[0].end.altitude, 200_000_000);
    assert_eq!(out.segments[1].start.altitude, 230_000_000);
}

#[test]
fn adjust_stops_at_the_lowest_altitude() {
    let out = adjust(&two_leg_route(), 10, 3_874_976 - 50_000_000).unwrap();
    assert_eq!(out.segments[0].start.altitude, 0);
    assert_eq!(out.segments[1].start.altitude, 0);
    assert_eq!(out.segments[0].distance, 111_195_105);
    assert_eq!(out.segments[0].time, 2_223_902);
    assert_eq!(out.segments[0].energy, 11_119_510);
    assert_eq!(out.segments[1].distance, 111_194_937);
    assert_eq!(out.segments[1].time, 2_223_898);
    assert_eq!(out.segments[1].energy, 11_119_493);
    assert_eq!(out.total_distance, 222_390_042);
    assert_eq!(out.total_time, 4_447_800);
    assert_eq!(out.total_energy, 22_239_003);
    assert_legs_are_measured(&out);
}

#[test]
fn adjust_stops_at_the_highest_altitude() {
    let out = adjust(&two_leg_route(), 10, 3_874_976 + 500_000_000).unwrap();
    assert_eq!(out.segments[0].start.altitude, 1_000_000_000);
    assert_eq!(out.segments[1].start.altitude, 1_000_000_000);
    assert_eq!(out.segments[0].distance, 111_197_803);
    assert_eq!(out.segments[0].time, 1_111_978);
    assert_eq!(out.segments[0].energy, 16_679_670);
    assert_eq!(out.segments[1].distance, 111_198_984);
    assert_eq!(out.segments[1].time, 1_111_989);
    assert_eq!(out.segments[1].energy, 16_679_847);
    assert_eq!(out.total_distance, 222_396_787);
    assert_eq!(out.total_time, 2_223_967);
    assert_eq!(out.total_energy, 33_359_517);
    assert_totals_are_sums(&out);
}

#[test]
fn adjust_toward_the_current_time_only_measures_anew() {
    let r = two_leg_route();
    assert_eq!(adjust(&r, 10, 3_874_976), Ok(r));
}

#[test]
fn adjust_reads_the_stored_total_time() {
    let mut r = two_leg_route();
    r.total_time = 874_976;
    let out = adjust(&r, 10, 3_874_976).unwrap();
    assert_eq!(out.segments[0].start.altitude, 130_000_000);
    assert_eq!(out.segments[1].start.altitude, 230_000_000);
    assert_eq!(out.total_time, 3_776_101);
}

#[test]
fn adjust_takes_negative_altitudes() {
    let d = RoutePoint::new(10_000_000, 10_000_000, -500_000_000);
    let e = RoutePoint::new(10_000_000, 11_000_000, -3_000_000_000);
    let r = Route::new(vec![RouteSegment::new(d, e, 0, 0, 0)], 0, 0, 0);
    let expected = Route::new(
        vec![RouteSegment::new(
            RoutePoint::new(10_000_000, 10_000_000, 0),
            e,
            109_546_669,
            2_190_933,
            10_954_666,
        )],
        109_546_669,
        2_190_933,
        10_954_666,
    );
    assert_eq!(adjust(&r, 10, 0), Ok(expected.clone()));
    assert_eq!(adjust(&r, 10, 20_000_000), Ok(expected));
}

#[test]
fn adjust_with_other_gains() {
    let r = two_leg_route();
    assert_eq!(adjust(&r, 0, 3_874_976 + 3_000_000), Ok(r.clone()));
    let down = adjust(&r, -10, 3_874_976 + 3_000_000).unwrap();
    assert_eq!(down.segments[0].start.altitude, 70_000_000);
    assert_eq!(down.segments[1].start.altitude, 170_000_000);
    assert_eq!(down.total_distance, 222_389_991);
    assert_eq!(down.total_time, 3_979_180);
    assert_eq!(down.total_energy, 23_573_338);
}

#[test]
fn adjust_holds_at_the_ends_of_the_number_range() {
    let mut r = two_leg_route();
    r.segments[0].start.altitude = i64::MAX;
    r.segments[1].start.altitude = i64::MIN;
    for (total, target, gain) in [
        (i128::MIN, i128::MAX, i64::MAX),
        (i128::MAX, i128::MIN, i64::MAX),
        (i128::MIN, i128::MAX, i64::MIN),
        (i128::MAX, i128::MIN, 1),
        (i128::MIN, i128::MIN, 10),
        (0, 1, i64::MIN),
    ] {
        r.total_time = total;
        let out = adjust(&r, gain, target).unwrap();
        assert_totals_are_sums(&out);
        assert_legs_are_measured(&out);
    }
    r.total_time = i128::MIN;
    let up = adjust(&r, 1, i128::MAX).unwrap();
    assert_eq!(up.segments[0].start.altitude, 1_000_000_000);
    assert_eq!(up.segments[1].start.altitude, 1_000_000_000);
    let down = adjust(&r, -1, i128::MAX).unwrap();
    assert_eq!(down.segments[0].start.altitude, 0);
    assert_eq!(down.segments[1].start.altitude, 0);
    r.total_time = 5;
    let same = adjust(&r, i64::MAX, 5).unwrap();
    assert_eq!(same.segments[0].start.altitude, 1_000_000_000);
    assert_eq!(same.segments[1].start.altitude, 0);
}

#[test]
fn adjust_refuses_a_route_without_legs() {
    let r = Route::new(Vec::new(), 1, 2, 3);
    assert_eq!(adjust(&r, 10, 5), Err(OptimizerError::EmptyRoute));
}

#[test]
fn adjust_is_one_step_and_does_not_settle_on_the_target() {
    let target: i128 = 3_874_976 + 3_000_000;
    let once = adjust(&two_leg_route(), 10, target).unwrap();
    assert_eq!(once.total_time, 3_776_101);
    assert_ne!(once.total_time, target);
    let twice = adjust(&once, 10, target).unwrap();
    assert_ne!(twice, once);
    assert_eq!(twice.segments[0].start.altitude, 160_988_750);
    assert_eq!(twice.segments[1].start.altitude, 260_988_750);
    assert_eq!(twice.total_distance, 222_390_058);
    assert_eq!(twice.total_time, 3_679_139);
    assert_eq!(twice.total_energy, 24_585_095);
    assert_ne!(twice.total_time, target);
}
