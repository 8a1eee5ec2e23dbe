//! The summary of a route that the regressor sees.
use vstd::prelude::*;
use crate::arith::floor_div;
use crate::error::{OptimizerError, TrainingCause};
use crate::geodesic::SCALE;
use crate::route::{
    lemma_total_of_bounds,
    sum_metric,
    total_of,
    Metric,
    Route,
    RouteSegment,
    RouteView,
};

verus! {

/// The six numbers that stand for a route, in the order in which the
/// regressor takes them.
#[derive(Clone, Copy, Debug, PartialEq, Eq)]
pub struct FeatureVector {
    /// The route's total distance.
    pub total_distance: i128,
    /// Mean of the altitudes at which the legs start, rounded down.
    pub mean_altitude: i128,
    /// Number of legs, as a fixed-point number.
    pub segment_count: i128,
    /// Altitude at which the first leg starts.
    pub start_altitude: i128,
    /// Altitude at which the last leg ends.
    pub end_altitude: i128,
    /// The route's total energy.
    pub total_energy: i128,
}

/// The samples of a training run: one feature vector and one observed total
/// time for each route.
#[derive(Clone, Debug, PartialEq, Eq)]
pub struct TrainingSet {
    pub features: Vec<FeatureVector>,
    pub targets: Vec<i128>,
}

/// The features of a route that has at least one leg.
pub open spec fn features_of(route: RouteView) -> FeatureVector {
    FeatureVector {
        total_distance: route.total_distance as i128,
        mean_altitude: (total_of(route.segments, Metric::StartAltitude) / (
        route.segments.len() as int)) as i128,
        segment_count: (route.segments.len() * SCALE) as i128,
        start_altitude: route.segments.first().start.altitude as i128,
        end_altitude: route.segments.last().end.altitude as i128,
        total_energy: route.total_energy as i128,
    }
}

/// The route at index `k` is the first one without legs.
pub open spec fn is_first_empty(routes: Seq<Route>, k: int) -> bool {
    &&& 0 <= k < routes.len()
    &&& routes[k].segments@.len() == 0
    &&& forall|j: int| 0 <= j < k ==> (#[trigger] routes[j]).segments@.len() > 0
}

/// `set` holds, in order, the features and the total time of every route.
pub open spec fn is_training_set_of(set: TrainingSet, routes: Seq<Route>) -> bool {
    &&& set.features@.len() == routes.len()
    &&& set.targets@.len() == routes.len()
    &&& forall|i: int|
        0 <= i < routes.len() ==> {
            &&& (#[trigger] routes[i]).segments@.len() > 0
            &&& set.features@[i] == features_of(routes[i]@)
            &&& set.targets@[i] == routes[i].total_time
        }
}

impl FeatureVector {
    /// The six features in their fixed order.
    pub fn to_array(&self) -> (a: [i128; 6])
        ensures
            a@ == seq![
                self.total_distance,
                self.mean_altitude,
                self.segment_count,
                self.start_altitude,
                self.end_altitude,
                self.total_energy,
            ],
    {
        let a: [i128; 6] = [
            self.total_distance,
            self.mean_altitude,
            self.segment_count,
            self.start_altitude,
            self.end_altitude,
            self.total_energy,
        ];
        assert(a@ =~= seq![
            self.total_distance,
            self.mean_altitude,
            self.segment_count,
            self.start_altitude,
            self.end_altitude,
            self.total_energy,
        ]);
        a
    }
}

/// The features of `route`, or `EmptyRoute` when it has no leg.
pub fn extract(route: &Route) -> (r: Result<FeatureVector, OptimizerError>)
    ensures
        route.segments@.len() == 0 ==> r == Err::<FeatureVector, OptimizerError>(
            OptimizerError::EmptyRoute,
        ),
        route.segments@.len() > 0 ==> r == Ok::<FeatureVector, OptimizerError>(
            features_of(route@),
        ),
{
    let n: usize = route.segments.len();
    if n == 0 {
        return Err(OptimizerError::EmptyRoute);
    }
    let sum: i128 = sum_metric(&route.segments, Metric::StartAltitude);
    proof {
        lemma_total_of_bounds(route.segments@, Metric::StartAltitude);
    }
    let mean_altitude: i128 = floor_div(sum, n as i128);
    let unit: i128 = SCALE as i128;
    assert(n * unit <= usize::MAX * unit) by (nonlinear_arith)
        requires
            n <= usize::MAX,
            unit >= 0,
    ;
    let first: RouteSegment = route.segments[0];
    let last: RouteSegment = route.segments[n - 1];
    Ok(
        FeatureVector {
            total_distance: route.total_distance,
            mean_altitude,
            segment_count: (n as i128) * unit,
            start_altitude: first.start.altitude as i128,
            end_altitude: last.end.altitude as i128,
            total_energy: route.total_energy,
        },
    )
}

/// The samples to train on: in order, the features of each route and its
/// total time.
///
/// Fails with `NoSamples` when `routes` is empty, and with the index of the
/// first route that has no leg when there is one.
pub fn training_set(routes: &Vec<Route>) -> (r: Result<TrainingSet, OptimizerError>)
    ensures
        routes@.len() == 0 ==> r == Err::<TrainingSet, OptimizerError>(
            OptimizerError::TrainingFailed(TrainingCause::NoSamples),
        ),
        routes@.len() > 0 ==> match r {
            Ok(set) => is_training_set_of(set, routes@),
            Err(e) => exists|k: int|
                is_first_empty(routes@, k) && e == OptimizerError::TrainingFailed(
                    TrainingCause::EmptyRoute(k as usize),
                ),
        },
{
    if routes.len() == 0 {
        return Err(OptimizerError::TrainingFailed(TrainingCause::NoSamples));
    }
    let mut features: Vec<FeatureVector> = Vec::new();
    let mut targets: Vec<i128> = Vec::new();
    let mut i: usize = 0;
    while i < routes.len()
        invariant
            i <= routes.len(),
            features@.len() == i,
            targets@.len() == i,
            forall|j: int|
                0 <= j < i ==> {
                    &&& (#[trigger] routes@[j]).segments@.len() > 0
                    &&& features@[j] == features_of(routes@[j]@)
                    &&& targets@[j] == routes@[j].total_time
                },
        decreases routes.len() - i,
    {
        match extract(&routes[i]) {
            Ok(row) => {
                features.push(row);
                targets.push(routes[i].total_time);
            },
            Err(_) => {
                assert(is_first_empty(routes@, i as int));
                return Err(OptimizerError::TrainingFailed(TrainingCause::EmptyRoute(i)));
            },
        }
        i = i + 1;
    }
    Ok(TrainingSet { features, targets })
}

} // verus!
