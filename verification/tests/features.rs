use drone_optimizer::error::{OptimizerError, TrainingCause};
use drone_optimizer::features::{extract, training_set, FeatureVector};
use drone_optimizer::route::{Route, RoutePoint, RouteSegment};

fn two_legs() -> Route {
    let a = RoutePoint::new(0, 0, 100_000_000);
    let b = RoutePoint::new(0, 1_000_000, 200_000_000);
    let c = RoutePoint::new(1_000_000, 1_000_000, 50_000_000);
    Route::new(
        vec![
            RouteSegment::new(a, b, 111_194_970, 2_021_726, 11_675_471),
            RouteSegment::new(b, c, 111_195_027, 1_853_250, 12_231_452),
        ],
        222_389_997,
        3_874_976,
        23_906_923,
    )
}

#[test]
fn extract_gives_the_six_features_in_order() {
    let f = extract(&two_legs()).unwrap();
    assert_eq!(
        f,
        FeatureVector {
            total_distance: 222_389_997,
            mean_altitude: 150_000_000,
            segment_count: 2_000_000,
            start_altitude: 100_000_000,
            end_altitude: 50_000_000,
            total_energy: 23_906_923,
        }
    );
    assert_eq!(
        f.to_array(),
        [222_389_997, 150_000_000, 2_000_000, 100_000_000, 50_000_000, 23_906_923]
    );
}

#[test]
fn extract_reads_the_stored_totals() {
    let mut r = two_legs();
    r.total_distance = -1;
    r.total_energy = i128::MAX;
    let f = extract(&r).unwrap();
    assert_eq!(f.total_distance, -1);
    assert_eq!(f.total_energy, i128::MAX);
}

#[test]
fn extract_rounds_the_mean_altitude_down() {
    let s4 = RouteSegment::new(RoutePoint::new(0, 0, -1), RoutePoint::new(0, 0, 0), 0, 0, 0);
    let s5 = RouteSegment::new(RoutePoint::new(0, 0, -2), RoutePoint::new(0, 0, 7), 0, 0, 0);
    let f = extract(&Route::new(vec![s4, s5], 11, 0, 22)).unwrap();
    assert_eq!(f.to_array(), [11, -2, 2_000_000, -1, 7, 22]);
    let g = extract(&Route::new(vec![s4, s5, s4], 1, 0, 2)).unwrap();
    assert_eq!(g.to_array(), [1, -2, 3_000_000, -1, 0, 2]);
}

#[test]
fn extract_of_a_single_leg() {
    let s = RouteSegment::new(RoutePoint::new(5, 6, 70), RoutePoint::new(8, 9, -30), 1, 2, 3);
    let f = extract(&Route::new(vec![s], 1, 2, 3)).unwrap();
    assert_eq!(f.to_array(), [1, 70, 1_000_000, 70, -30, 3]);
}

#[test]
fn extract_refuses_a_route_without_legs() {
    assert_eq!(extract(&Route::new(Vec::new(), 1, 2, 3)), Err(OptimizerError::EmptyRoute));
}

#[test]
fn training_set_pairs_features_with_total_times() {
    let mut other = two_legs();
    other.total_time = 9;
    let set = training_set(&vec![two_legs(), other.clone()]).unwrap();
    assert_eq!(
        set.features,
        vec![extract(&two_legs()).unwrap(), extract(&other).unwrap()]
    );
    assert_eq!(set.targets, vec![3_874_976, 9]);
}

#[test]
fn training_set_refuses_no_routes() {
    assert_eq!(
        training_set(&Vec::new()),
        Err(OptimizerError::TrainingFailed(TrainingCause::NoSamples))
    );
}

#[test]
fn training_set_names_the_first_route_without_legs() {
    let empty = Route::new(Vec::new(), 0, 0, 0);
    assert_eq!(
        training_set(&vec![two_legs(), empty.clone(), two_legs(), empty]),
        Err(OptimizerError::TrainingFailed(TrainingCause::EmptyRoute(1)))
    );
}
