//! The optimiser: a regressor that learns the time of a route from its
//! features, and the adjustment of routes toward the time it predicts.
use vstd::prelude::*;
use crate::adjuster::{adjust, adjustment_outcome, is_valid_adjustment, outcome_view, DEFAULT_GAIN};
use crate::error::{OptimizerError, TrainingCause};
use crate::features::{extract, is_first_empty, training_set, FeatureVector, TrainingSet};
use crate::route::{Route, RouteView};

verus! {

/// A regression method that the optimiser can be built on.
///
/// Nothing is assumed of what a method learns or predicts.
pub trait Regressor {
    /// What a fit produces and a prediction reads.
    type Model;

    /// Fits a model to the samples: one feature vector and one observed
    /// time for each, in the same order. Gives its own account when it
    /// cannot.
    fn fit(&self, features: &Vec<FeatureVector>, targets: &Vec<i128>) -> (r: Result<
        Self::Model,
        String,
    >)
        requires
            features@.len() == targets@.len(),
            features@.len() > 0,
    ;

    /// The time that `model` predicts for a route with these features.
    fn predict(&self, model: &Self::Model, features: &FeatureVector) -> (target_time: i128);
}

/// Whether a model has been fitted.
pub enum ModelState<M> {
    Untrained,
    Trained(M),
}

/// Predicts the time of routes and adjusts them toward it.
pub struct DroneOptimizer<R: Regressor> {
    regressor: R,
    state: ModelState<R::Model>,
    gain: i64,
}

/// `outcome` is what adjusting `route` toward some predicted time gives.
pub open spec fn is_optimization_of(
    outcome: Result<Route, OptimizerError>,
    route: RouteView,
    gain: int,
) -> bool {
    exists|target_time: int|
        i128::MIN <= target_time <= i128::MAX && outcome_view(outcome) == #[trigger] adjustment_outcome(
            route,
            gain,
            target_time,
        )
}

/// A batch agrees with its routes taken one at a time: where every route of
/// a batch was adjusted toward the target at its index, and the route at
/// index `i` was also adjusted alone toward the same target, the two results
/// for that route are the same.
pub proof fn lemma_batch_agrees_with_single(
    routes: Seq<Route>,
    targets: Seq<i128>,
    gain: int,
    batch: Seq<Result<Route, OptimizerError>>,
    i: int,
    single: Result<Route, OptimizerError>,
)
    requires
        routes.len() == targets.len(),
        batch.len() == routes.len(),
        forall|j: int|
            0 <= j < routes.len() ==> outcome_view(#[trigger] batch[j]) == adjustment_outcome(
                routes[j]@,
                gain,
                targets[j] as int,
            ),
        0 <= i < routes.len(),
        outcome_view(single) == adjustment_outcome(routes[i]@, gain, targets[i] as int),
    ensures
        outcome_view(batch[i]) == outcome_view(single),
        batch[i] is Ok <==> routes[i].segments@.len() > 0,
        batch[i] matches Ok(a) ==> single matches Ok(b) && a.segments@ == b.segments@
            && a.total_distance == b.total_distance && a.total_time == b.total_time
            && a.total_energy == b.total_energy,
{
}

impl<R: Regressor> DroneOptimizer<R> {
    /// The regression method in use.
    pub closed spec fn regressor(&self) -> R {
        self.regressor
    }

    /// The fitted model, if there is one.
    pub closed spec fn model(&self) -> ModelState<R::Model> {
        self.state
    }

    /// Altitude gained per unit of time that a route is short of its target.
    pub closed spec fn gain(&self) -> int {
        self.gain as int
    }

    /// A training run has succeeded.
    pub open spec fn trained(&self) -> bool {
        self.model() is Trained
    }

    /// An optimiser without a model, with the default gain.
    pub fn new(regressor: R) -> (o: Self)
        ensures
            !o.trained(),
            o.gain() == DEFAULT_GAIN,
            o.regressor() == regressor,
    {
        DroneOptimizer { regressor, state: ModelState::Untrained, gain: DEFAULT_GAIN }
    }

    /// An optimiser without a model, with the given gain.
    pub fn with_gain(regressor: R, gain: i64) -> (o: Self)
        ensures
            !o.trained(),
            o.gain() == gain,
            o.regressor() == regressor,
    {
        DroneOptimizer { regressor, state: ModelState::Untrained, gain }
    }

    /// Whether a training run has succeeded.
    pub fn is_trained(&self) -> (b: bool)
        ensures
            b == self.trained(),
    {
        match &self.state {
            ModelState::Untrained => false,
            ModelState::Trained(_) => true,
        }
    }

    /// Takes the result of a fit: a model replaces whatever was there, a
    /// failure is reported and changes nothing.
    pub fn record_fit(&mut self, outcome: Result<R::Model, String>) -> (r: Result<
        (),
        OptimizerError,
    >)
        ensures
            final(self).regressor() == old(self).regressor(),
            final(self).gain() == old(self).gain(),
            match outcome {
                Ok(model) => r is Ok && final(self).model() == ModelState::Trained(model),
                Err(cause) => r == Err::<(), OptimizerError>(
                    OptimizerError::TrainingFailed(TrainingCause::Regressor(cause)),
                ) && final(self).model() == old(self).model(),
            },
    {
        match outcome {
            Ok(model) => {
                self.state = ModelState::Trained(model);
                Ok(())
            },
            Err(cause) => Err(OptimizerError::TrainingFailed(TrainingCause::Regressor(cause))),
        }
    }

    /// Fits a model to `training_data`: the features of each route against
    /// its total time.
    ///
    /// Without routes, or with a route that has no leg, nothing is fitted
    /// and the failure says which of the two it was. Otherwise the
    /// regressor decides. A failure leaves the optimiser as it was: without
    /// a model if it had none, with its earlier model if it had one.
    pub fn train(&mut self, training_data: Vec<Route>) -> (r: Result<(), OptimizerError>)
        ensures
            final(self).regressor() == old(self).regressor(),
            final(self).gain() == old(self).gain(),
            r is Ok ==> final(self).trained(),
            r is Err ==> final(self).model() == old(self).model(),
            old(self).trained() ==> final(self).trained(),
            training_data@.len() == 0 ==> r == Err::<(), OptimizerError>(
                OptimizerError::TrainingFailed(TrainingCause::NoSamples),
            ),
            forall|k: int|
                is_first_empty(training_data@, k) ==> r == Err::<(), OptimizerError>(
                    OptimizerError::TrainingFailed(TrainingCause::EmptyRoute(k as usize)),
                ),
            r matches Err(e) ==> e is TrainingFailed,
            r matches Err(OptimizerError::TrainingFailed(TrainingCause::NoSamples))
                ==> training_data@.len() == 0,
            r matches Err(OptimizerError::TrainingFailed(TrainingCause::EmptyRoute(k)))
                ==> is_first_empty(training_data@, k as int),
    {
        let set: TrainingSet = match training_set(&training_data) {
            Ok(set) => set,
            Err(e) => {
                return Err(e);
            },
        };
        let outcome: Result<R::Model, String> = self.regressor.fit(&set.features, &set.targets);
        self.record_fit(outcome)
    }

    /// The time that the fitted model predicts for a route with these
    /// features; fails with `ModelNotTrained` while there is no model.
    pub fn predict(&self, features: &FeatureVector) -> (r: Result<i128, OptimizerError>)
        ensures
            self.trained() ==> r is Ok,
            !self.trained() ==> r == Err::<i128, OptimizerError>(OptimizerError::ModelNotTrained),
    {
        match &self.state {
            ModelState::Untrained => Err(OptimizerError::ModelNotTrained),
            ModelState::Trained(model) => Ok(self.regressor.predict(model, features)),
        }
    }

    /// Adjusts `route` once toward `target_time`, with the optimiser's gain.
    pub fn optimize_route_segments(&self, route: Route, target_time: i128) -> (r: Result<
        Route,
        OptimizerError,
    >)
        ensures
            outcome_view(r) == adjustment_outcome(route@, self.gain(), target_time as int),
            r matches Ok(out) ==> is_valid_adjustment(out@, route@),
    {
        adjust(&route, self.gain, target_time)
    }

    /// Adjusts each route toward the target at the same index.
    pub fn adjust_routes(&self, routes: &Vec<Route>, targets: &Vec<i128>) -> (out: Vec<
        Result<Route, OptimizerError>,
    >)
        requires
            routes@.len() == targets@.len(),
        ensures
            out@.len() == routes@.len(),
            forall|i: int|
                0 <= i < routes@.len() ==> {
                    &&& outcome_view(#[trigger] out@[i]) == adjustment_outcome(
                        routes@[i]@,
                        self.gain(),
                        targets@[i] as int,
                    )
                    &&& out@[i] matches Ok(route) ==> is_valid_adjustment(route@, routes@[i]@)
                },
    {
        let mut out: Vec<Result<Route, OptimizerError>> = Vec::new();
        let mut i: usize = 0;
        while i < routes.len()
            invariant
                i <= routes.len(),
                routes@.len() == targets@.len(),
                out@.len() == i,
                forall|j: int|
                    0 <= j < i ==> {
                        &&& outcome_view(#[trigger] out@[j]) == adjustment_outcome(
                            routes@[j]@,
                            self.gain(),
                            targets@[j] as int,
                        )
                        &&& out@[j] matches Ok(route) ==> is_valid_adjustment(route@, routes@[j]@)
                    },
            decreases routes.len() - i,
        {
            out.push(adjust(&routes[i], self.gain, targets[i]));
            i = i + 1;
        }
        out
    }

    /// Predicts the time of `route` and adjusts the route once toward it.
    ///
    /// Fails with `ModelNotTrained` before the first training run that
    /// succeeds, and with `EmptyRoute` when the route has no leg.
    pub fn optimize_route(&self, route: Route) -> (r: Result<Route, OptimizerError>)
        ensures
            !self.trained() ==> r == Err::<Route, OptimizerError>(OptimizerError::ModelNotTrained),
            self.trained() && route.segments@.len() == 0 ==> r == Err::<Route, OptimizerError>(
                OptimizerError::EmptyRoute,
            ),
            self.trained() && route.segments@.len() > 0 ==> r is Ok,
            self.trained() ==> is_optimization_of(r, route@, self.gain()),
            r matches Ok(out) ==> is_valid_adjustment(out@, route@),
    {
        match &self.state {
            ModelState::Untrained => Err(OptimizerError::ModelNotTrained),
            ModelState::Trained(model) => {
                let features: FeatureVector = match extract(&route) {
                    Ok(features) => features,
                    Err(e) => {
                        assert(outcome_view(Err::<Route, OptimizerError>(e)) == adjustment_outcome(
                            route@,
                            self.gain(),
                            0,
                        ));
                        return Err(e);
                    },
                };
                let target_time: i128 = self.regressor.predict(model, &features);
                let r = adjust(&route, self.gain, target_time);
                assert(outcome_view(r) == adjustment_outcome(
                    route@,
                    self.gain(),
                    target_time as int,
                ));
                r
            },
        }
    }

    /// Optimises every route on its own; the result at each index is that
    /// of the route at the same index.
    ///
    /// Fails as a whole with `ModelNotTrained` before the first training
    /// run that succeeds. A route without legs gives `EmptyRoute` at its
    /// index and leaves the others untouched.
    pub fn optimize_routes(&self, routes: Vec<Route>) -> (r: Result<
        Vec<Result<Route, OptimizerError>>,
        OptimizerError,
    >)
        ensures
            !self.trained() ==> r == Err::<Vec<Result<Route, OptimizerError>>, OptimizerError>(
                OptimizerError::ModelNotTrained,
            ),
            self.trained() ==> r is Ok,
            r matches Ok(out) ==> {
                &&& out@.len() == routes@.len()
                &&& forall|i: int|
                    0 <= i < routes@.len() ==> {
                        &&& is_optimization_of(#[trigger] out@[i], routes@[i]@, self.gain())
                        &&& out@[i] matches Ok(route) ==> is_valid_adjustment(route@, routes@[i]@)
                    }
            },
    {
        match &self.state {
            ModelState::Untrained => Err(OptimizerError::ModelNotTrained),
            ModelState::Trained(model) => {
                let mut targets: Vec<i128> = Vec::new();
                let mut i: usize = 0;
                while i < routes.len()
                    invariant
                        i <= routes.len(),
                        targets@.len() == i,
                    decreases routes.len() - i,
                {
                    // A route without legs has no features; it is refused
                    // below whatever its target, so none is predicted.
                    let target_time: i128 = match extract(&routes[i]) {
                        Ok(features) => self.regressor.predict(model, &features),
                        Err(_) => 0,
                    };
                    targets.push(target_time);
                    i = i + 1;
                }
                let out = self.adjust_routes(&routes, &targets);
                assert forall|i: int| 0 <= i < routes@.len() implies is_optimization_of(
                    #[trigger] out@[i],
                    routes@[i]@,
                    self.gain(),
                ) by {
                    assert(outcome_view(out@[i]) == adjustment_outcome(
                        routes@[i]@,
                        self.gain(),
                        targets@[i] as int,
                    ));
                }
                Ok(out)
            },
        }
    }
}

} // verus!
