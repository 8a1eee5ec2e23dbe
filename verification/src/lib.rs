//! Drone route optimisation over fixed-point quantities.
//!
//! A route is a sequence of legs between positions. The optimiser learns
//! from past routes how long a route takes, predicts the time of a new
//! route from six of its features, and shifts the altitude at which each leg
//! starts toward that time, computing distance, time and energy of every
//! leg anew.
//!
//! Every scalar is an integer number of millionths of its unit: degrees for
//! latitude and longitude, metres for altitude, kilometres for distance,
//! hours for time and kilowatt-hours for energy. Values of one leg take 64
//! bits and sums over a route 128, so that no sum overflows.
pub mod adjuster;
pub mod arith;
pub mod error;
pub mod features;
pub mod geodesic;
pub mod optimizer;
pub mod route;
pub mod trig;

pub use adjuster::adjust;
pub use error::{OptimizerError, TrainingCause};
pub use features::{extract, FeatureVector};
pub use geodesic::{calculate_distance, calculate_energy, calculate_time};
pub use optimizer::{DroneOptimizer, Regressor};
pub use route::{Route, RoutePoint, RouteSegment};
