//! Positions, legs and routes.
use vstd::prelude::*;
use crate::geodesic::{
    distance_spec,
    energy_spec,
    lemma_distance_is_hypotenuse,
    lemma_energy_nonnegative,
    time_spec,
    ENERGY_ALTITUDE,
};

verus! {

/// A position: latitude and longitude in millionths of a degree, altitude
/// in millionths of a metre.
#[derive(Clone, Copy, Debug, PartialEq, Eq)]
pub struct RoutePoint {
    pub lat: i64,
    pub lon: i64,
    pub altitude: i64,
}

/// One straight leg between two positions, with its distance in millionths
/// of a kilometre, its time in millionths of an hour and its energy in
/// millionths of a kilowatt-hour.
#[derive(Clone, Copy, Debug, PartialEq, Eq)]
pub struct RouteSegment {
    pub start: RoutePoint,
    pub end: RoutePoint,
    pub distance: i64,
    pub time: i64,
    pub energy: i64,
}

/// An ordered sequence of legs with the totals of their three metrics.
#[derive(Clone, Debug, PartialEq, Eq)]
pub struct Route {
    pub segments: Vec<RouteSegment>,
    pub total_distance: i128,
    pub total_time: i128,
    pub total_energy: i128,
}

/// The mathematical content of a route.
pub ghost struct RouteView {
    pub segments: Seq<RouteSegment>,
    pub total_distance: int,
    pub total_time: int,
    pub total_energy: int,
}

/// A per-leg quantity that can be summed over a route.
#[derive(Clone, Copy, Debug, PartialEq, Eq)]
pub enum Metric {
    Distance,
    Time,
    Energy,
    StartAltitude,
}

/// The value of `metric` on one leg.
pub open spec fn metric_of(segment: RouteSegment, metric: Metric) -> int {
    match metric {
        Metric::Distance => segment.distance as int,
        Metric::Time => segment.time as int,
        Metric::Energy => segment.energy as int,
        Metric::StartAltitude => segment.start.altitude as int,
    }
}

/// The sum of `metric` over `segments`.
pub open spec fn total_of(segments: Seq<RouteSegment>, metric: Metric) -> int
    decreases segments.len(),
{
    if segments.len() == 0 {
        0
    } else {
        total_of(segments.drop_last(), metric) + metric_of(segments.last(), metric)
    }
}

/// Adding one leg adds its metric to the sum.
pub proof fn lemma_total_of_push(segments: Seq<RouteSegment>, segment: RouteSegment, metric: Metric)
    ensures
        total_of(segments.push(segment), metric) == total_of(segments, metric) + metric_of(
            segment,
            metric,
        ),
{
    assert(segments.push(segment).drop_last() =~= segments);
}

/// A sum of `n` 64-bit values fits in 128 bits with room to spare.
pub proof fn lemma_total_of_bounds(segments: Seq<RouteSegment>, metric: Metric)
    ensures
        -segments.len() * 0x8000_0000_0000_0000 <= total_of(segments, metric) <= segments.len()
            * 0x7fff_ffff_ffff_ffff,
    decreases segments.len(),
{
    if segments.len() > 0 {
        lemma_total_of_bounds(segments.drop_last(), metric);
    }
}

impl RoutePoint {
    pub fn new(lat: i64, lon: i64, altitude: i64) -> (p: Self)
        ensures
            p == (RoutePoint { lat, lon, altitude }),
    {
        RoutePoint { lat, lon, altitude }
    }
}

impl RouteSegment {
    pub fn new(start: RoutePoint, end: RoutePoint, distance: i64, time: i64, energy: i64) -> (s:
        Self)
        ensures
            s == (RouteSegment { start, end, distance, time, energy }),
    {
        RouteSegment { start, end, distance, time, energy }
    }

    /// The leg's metrics are the ones computed from its two positions.
    pub open spec fn is_measured(&self) -> bool {
        &&& self.distance == distance_spec(
            self.start.lat as int,
            self.start.lon as int,
            self.start.altitude as int,
            self.end.lat as int,
            self.end.lon as int,
            self.end.altitude as int,
        )
        &&& self.time == time_spec(self.distance as int, self.start.altitude as int)
        &&& self.energy == energy_spec(self.distance as int, self.start.altitude as int)
    }
}

/// A leg whose metrics are computed from its positions has a distance that
/// is not negative and, where it starts no lower than minus
/// `ENERGY_ALTITUDE`, an energy that is not negative.
pub proof fn lemma_measured_leg_nonnegative(segment: RouteSegment)
    requires
        segment.is_measured(),
    ensures
        segment.distance >= 0,
        segment.start.altitude >= -ENERGY_ALTITUDE ==> segment.energy >= 0,
{
    lemma_distance_is_hypotenuse(
        segment.start.lat as int,
        segment.start.lon as int,
        segment.start.altitude as int,
        segment.end.lat as int,
        segment.end.lon as int,
        segment.end.altitude as int,
    );
    if segment.start.altitude >= -ENERGY_ALTITUDE {
        lemma_energy_nonnegative(segment.distance as int, segment.start.altitude as int);
    }
}

impl View for Route {
    type V = RouteView;

    open spec fn view(&self) -> RouteView {
        RouteView {
            segments: self.segments@,
            total_distance: self.total_distance as int,
            total_time: self.total_time as int,
            total_energy: self.total_energy as int,
        }
    }
}

impl RouteView {
    /// Each total is the sum of the corresponding metric over the legs.
    pub open spec fn totals_are_sums(&self) -> bool {
        &&& self.total_distance == total_of(self.segments, Metric::Distance)
        &&& self.total_time == total_of(self.segments, Metric::Time)
        &&& self.total_energy == total_of(self.segments, Metric::Energy)
    }
}

/// Sums `metric` over `segments`.
pub fn sum_metric(segments: &Vec<RouteSegment>, metric: Metric) -> (sum: i128)
    ensures
        sum == total_of(segments@, metric),
{
    let mut sum: i128 = 0;
    let mut i: usize = 0;
    while i < segments.len()
        invariant
            i <= segments.len(),
            sum == total_of(segments@.take(i as int), metric),
        decreases segments.len() - i,
    {
        let segment: RouteSegment = segments[i];
        let value: i64 = match metric {
            Metric::Distance => segment.distance,
            Metric::Time => segment.time,
            Metric::Energy => segment.energy,
            Metric::StartAltitude => segment.start.altitude,
        };
        proof {
            lemma_total_of_bounds(segments@.take(i as int), metric);
            lemma_total_of_push(segments@.take(i as int), segment, metric);
            assert(segments@.take(i as int).push(segment) =~= segments@.take(i + 1));
        }
        sum = sum + value as i128;
        i = i + 1;
    }
    proof {
        assert(segments@.take(i as int) =~= segments@);
    }
    sum
}

impl Route {
    pub fn new(
        segments: Vec<RouteSegment>,
        total_distance: i128,
        total_time: i128,
        total_energy: i128,
    ) -> (r: Self)
        ensures
            r.segments == segments,
            r.total_distance == total_distance,
            r.total_time == total_time,
            r.total_energy == total_energy,
    {
        Route { segments, total_distance, total_time, total_energy }
    }

    /// The route over `segments` whose totals are the sums of their metrics.
    pub fn from_segments(segments: Vec<RouteSegment>) -> (r: Self)
        ensures
            r.segments == segments,
            r@.totals_are_sums(),
    {
        let total_distance: i128 = sum_metric(&segments, Metric::Distance);
        let total_time: i128 = sum_metric(&segments, Metric::Time);
        let total_energy: i128 = sum_metric(&segments, Metric::Energy);
        Route { segments, total_distance, total_time, total_energy }
    }
}

} // verus!
