//! The failures that the optimiser reports.
use vstd::prelude::*;

verus! {

/// Why a training run did not produce a model.
#[derive(Clone, Debug, PartialEq, Eq)]
pub enum TrainingCause {
    /// No route was given to learn from.
    NoSamples,
    /// The route at this index has no leg.
    EmptyRoute(usize),
    /// The regressor could not fit the samples; its own account is attached.
    Regressor(String),
}

/// A failure of the optimiser.
#[derive(Clone, Debug, PartialEq, Eq)]
pub enum OptimizerError {
    /// A route without legs was given.
    EmptyRoute,
    /// No training run has succeeded yet.
    ModelNotTrained,
    /// A training run failed and left the optimiser as it was.
    TrainingFailed(TrainingCause),
}

} // verus!
