use drone_optimizer::{
    adjust, calculate_distance, calculate_energy, calculate_time, extract, DroneOptimizer,
    FeatureVector, OptimizerError, Regressor, Route, RoutePoint, RouteSegment, TrainingCause,
};

/// Predicts for every route the time of the first route it was trained on.
struct FirstTime;

impl Regressor for FirstTime {
    type Model = i128;

    fn fit(&self, _features: &Vec<FeatureVector>, targets: &Vec<i128>) -> Result<i128, String> {
        Ok(targets[0])
    }

    fn predict(&self, model: &i128, _features: &FeatureVector) -> i128 {
        *model
    }
}

fn measured(start: RoutePoint, end: RoutePoint) -> RouteSegment {
    let distance =
        calculate_distance(start.lat, start.lon, start.altitude, end.lat, end.lon, end.altitude);
    let time = calculate_time(distance, start.altitude) as i64;
    let energy = calculate_energy(distance, start.altitude) as i64;
    RouteSegment::new(start, end, distance, time, energy)
}

fn flight() -> Route {
    let a = RoutePoint::new(0, 0, 100_000_000);
    let b = RoutePoint::new(0, 1_000_000, 200_000_000);
    let c = RoutePoint::new(1_000_000, 1_000_000, 50_000_000);
    Route::from_segments(vec![measured(a, b), measured(b, c)])
}

#[test]
fn a_measured_route_has_the_expected_metrics() {
    let r = flight();
    assert_eq!(r.segments[0].distance, 111_194_970);
    assert_eq!(r.segments[0].time, 2_021_726);
    assert_eq!(r.segments[0].energy, 11_675_471);
    assert_eq!(r.segments[1].distance, 111_195_027);
    assert_eq!(r.segments[1].time, 1_853_250);
    assert_eq!(r.segments[1].energy, 12_231_452);
    assert_eq!(r.total_distance, 222_389_997);
    assert_eq!(r.total_time, 3_874_976);
    assert_eq!(r.total_energy, 23_906_923);
}

#[test]
fn the_four_operations_work_together() {
    let mut optimizer = DroneOptimizer::new(FirstTime);
    assert_eq!(optimizer.optimize_route(flight()), Err(OptimizerError::ModelNotTrained));
    assert_eq!(
        optimizer.train(Vec::new()),
        Err(OptimizerError::TrainingFailed(TrainingCause::NoSamples))
    );
    let mut slow = flight();
    slow.total_time = 6_874_976;
    assert_eq!(optimizer.train(vec![slow, flight()]), Ok(()));
    let features = extract(&flight()).unwrap();
    assert_eq!(optimizer.predict(&features), Ok(6_874_976));
    let single = optimizer.optimize_route(flight());
    assert_eq!(single, adjust(&flight(), 10, 6_874_976));
    let out = single.clone().unwrap();
    assert_eq!(out.segments[0].start.altitude, 130_000_000);
    assert_eq!(out.segments[0].end.altitude, 200_000_000);
    assert_eq!(out.segments[1].start.altitude, 230_000_000);
    assert_eq!(out.total_time, 3_776_101);
    let batch = optimizer
        .optimize_routes(vec![flight(), Route::new(Vec::new(), 0, 0, 0), flight()])
        .unwrap();
    assert_eq!(batch, vec![single.clone(), Err(OptimizerError::EmptyRoute), single]);
}
