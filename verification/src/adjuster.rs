//! Moves a route toward a target time by shifting the altitude at which each
//! leg starts.
//!
//! The shift is the same for every leg: the gain times the difference
//! between the target and the route's current total time. It is applied
//! once. The times of the new legs are not fed back, so the new total is in
//! general not the target, and applying the adjustment again moves the route
//! again.
use vstd::prelude::*;
use crate::error::OptimizerError;
use crate::geodesic::{
    calculate_distance,
    calculate_energy,
    calculate_time,
    distance_spec,
    energy_spec,
    lemma_distance_is_hypotenuse,
    lemma_distance_upper_bound,
    time_spec,
    BASE_RANGE,
    BASE_SPEED,
    ENERGY_ALTITUDE,
    SPEED_ALTITUDE,
};
use crate::route::{total_of, Metric, Route, RoutePoint, RouteSegment, RouteView};

verus! {

/// Lowest altitude at which an adjusted leg starts.
pub const MIN_ALTITUDE: i64 = 0;

/// Highest altitude at which an adjusted leg starts.
pub const MAX_ALTITUDE: i64 = 1_000_000_000;

/// Altitude gained per unit of time that the route is short of its target.
pub const DEFAULT_GAIN: i64 = 10;

/// Any shift of at least this size moves every altitude out of the
/// admitted range.
pub const SHIFT_LIMIT: i128 = 10_000_000_000_000_000_000;

/// `raw` brought into the admitted range of altitudes.
pub open spec fn clamp_altitude_spec(raw: int) -> int {
    if raw < MIN_ALTITUDE {
        MIN_ALTITUDE as int
    } else if raw > MAX_ALTITUDE {
        MAX_ALTITUDE as int
    } else {
        raw
    }
}

/// The altitude `altitude` moved by `shift` and brought into range.
pub open spec fn shifted_altitude(altitude: int, shift: int) -> int {
    clamp_altitude_spec(altitude + shift)
}

/// The shift that moves a route of `total_time` toward `target_time`.
pub open spec fn altitude_shift(gain: int, target_time: int, total_time: int) -> int {
    gain * (target_time - total_time)
}

/// `segment` with its start moved to `altitude` and its metrics computed
/// anew; the end stays where it is.
pub open spec fn remeasured(segment: RouteSegment, altitude: int) -> RouteSegment {
    let distance = distance_spec(
        segment.start.lat as int,
        segment.start.lon as int,
        altitude,
        segment.end.lat as int,
        segment.end.lon as int,
        segment.end.altitude as int,
    );
    RouteSegment {
        start: RoutePoint {
            lat: segment.start.lat,
            lon: segment.start.lon,
            altitude: altitude as i64,
        },
        end: segment.end,
        distance: distance as i64,
        time: time_spec(distance, altitude) as i64,
        energy: energy_spec(distance, altitude) as i64,
    }
}

/// `segment` after its start altitude was moved by `shift`.
pub open spec fn adjusted_segment(segment: RouteSegment, shift: int) -> RouteSegment {
    remeasured(segment, shifted_altitude(segment.start.altitude as int, shift))
}

/// Every leg of `segments` after the same `shift`.
pub open spec fn adjusted_segments(segments: Seq<RouteSegment>, shift: int) -> Seq<RouteSegment> {
    Seq::new(segments.len(), |i: int| adjusted_segment(segments[i], shift))
}

/// `route` after one adjustment toward `target_time`.
pub open spec fn adjusted_route(route: RouteView, gain: int, target_time: int) -> RouteView {
    let segments = adjusted_segments(
        route.segments,
        altitude_shift(gain, target_time, route.total_time),
    );
    RouteView {
        segments,
        total_distance: total_of(segments, Metric::Distance),
        total_time: total_of(segments, Metric::Time),
        total_energy: total_of(segments, Metric::Energy),
    }
}

/// What adjusting `route` toward `target_time` gives: a route without legs
/// is refused, any other is adjusted.
pub open spec fn adjustment_outcome(route: RouteView, gain: int, target_time: int) -> Result<
    RouteView,
    OptimizerError,
> {
    if route.segments.len() == 0 {
        Err(OptimizerError::EmptyRoute)
    } else {
        Ok(adjusted_route(route, gain, target_time))
    }
}

/// The mathematical content of the result of an adjustment.
pub open spec fn outcome_view(outcome: Result<Route, OptimizerError>) -> Result<
    RouteView,
    OptimizerError,
> {
    match outcome {
        Ok(route) => Ok(route@),
        Err(e) => Err(e),
    }
}

/// `out` has the legs of `route` in the same order, each with the same end
/// and the same place of start, a start altitude within the admitted range,
/// metrics that are computed from its positions and not negative, and totals
/// that are the sums over its legs.
pub open spec fn is_valid_adjustment(out: RouteView, route: RouteView) -> bool {
    &&& out.segments.len() == route.segments.len()
    &&& out.totals_are_sums()
    &&& forall|i: int|
        0 <= i < out.segments.len() ==> {
            let s = #[trigger] out.segments[i];
            &&& s.is_measured()
            &&& MIN_ALTITUDE <= s.start.altitude <= MAX_ALTITUDE
            &&& s.distance >= 0
            &&& s.time >= 0
            &&& s.energy >= 0
            &&& s.start.lat == route.segments[i].start.lat
            &&& s.start.lon == route.segments[i].start.lon
            &&& s.end == route.segments[i].end
        }
}

/// A leg that starts within the admitted range of altitudes has a time and
/// an energy between zero and its distance.
pub proof fn lemma_metrics_in_range(distance: int, altitude: int)
    requires
        0 <= distance,
        MIN_ALTITUDE <= altitude <= MAX_ALTITUDE,
    ensures
        0 <= time_spec(distance, altitude) <= distance,
        0 <= energy_spec(distance, altitude) <= distance,
{
    let n = distance * SPEED_ALTITUDE;
    let d = BASE_SPEED * (SPEED_ALTITUDE + altitude);
    assert(0 <= n <= distance * d) by (nonlinear_arith)
        requires
            0 <= distance,
            n == distance * SPEED_ALTITUDE,
            d >= SPEED_ALTITUDE,
    ;
    assert(0 <= n / d <= distance) by (nonlinear_arith)
        requires
            0 <= n <= distance * d,
            d > 0,
    ;
    let m = distance * (ENERGY_ALTITUDE + altitude);
    let e = BASE_RANGE * ENERGY_ALTITUDE;
    assert(0 <= m <= distance * e) by (nonlinear_arith)
        requires
            0 <= distance,
            m == distance * (ENERGY_ALTITUDE + altitude),
            0 <= ENERGY_ALTITUDE + altitude <= e,
    ;
    assert(0 <= m / e <= distance) by (nonlinear_arith)
        requires
            0 <= m <= distance * e,
            e > 0,
    ;
}

/// Whatever the shift, the altitude that is stored lies within the admitted
/// range.
pub proof fn lemma_shifted_altitude_in_range(altitude: int, shift: int)
    ensures
        MIN_ALTITUDE <= shifted_altitude(altitude, shift) <= MAX_ALTITUDE,
{
}

/// Moving the start of a leg to an altitude within the admitted range gives
/// a leg with that start, the same end, and metrics that are computed from
/// its positions and not negative.
pub proof fn lemma_remeasured_is_measured(segment: RouteSegment, altitude: int)
    requires
        MIN_ALTITUDE <= altitude <= MAX_ALTITUDE,
    ensures
        remeasured(segment, altitude).is_measured(),
        remeasured(segment, altitude).start.altitude == altitude,
        remeasured(segment, altitude).start.lat == segment.start.lat,
        remeasured(segment, altitude).start.lon == segment.start.lon,
        remeasured(segment, altitude).end == segment.end,
        0 <= remeasured(segment, altitude).time <= remeasured(segment, altitude).distance,
        0 <= remeasured(segment, altitude).energy <= remeasured(segment, altitude).distance,
{
    let distance = distance_spec(
        segment.start.lat as int,
        segment.start.lon as int,
        altitude,
        segment.end.lat as int,
        segment.end.lon as int,
        segment.end.altitude as int,
    );
    lemma_distance_is_hypotenuse(
        segment.start.lat as int,
        segment.start.lon as int,
        altitude,
        segment.end.lat as int,
        segment.end.lon as int,
        segment.end.altitude as int,
    );
    lemma_distance_upper_bound(
        segment.start.lat as int,
        segment.start.lon as int,
        altitude,
        segment.end.lat as int,
        segment.end.lon as int,
        segment.end.altitude as int,
    );
    lemma_metrics_in_range(distance, altitude);
}

/// One adjustment of any route, toward any target and with any gain, keeps
/// the legs in order with their ends, stores start altitudes within the
/// admitted range, leaves no metric negative, and gives totals that are the
/// sums over the legs.
pub proof fn lemma_adjusted_route_is_valid(route: RouteView, gain: int, target_time: int)
    ensures
        is_valid_adjustment(adjusted_route(route, gain, target_time), route),
{
    let shift = altitude_shift(gain, target_time, route.total_time);
    let out = adjusted_route(route, gain, target_time);
    assert forall|i: int| 0 <= i < out.segments.len() implies {
        let s = #[trigger] out.segments[i];
        &&& s.is_measured()
        &&& MIN_ALTITUDE <= s.start.altitude <= MAX_ALTITUDE
        &&& s.distance >= 0
        &&& s.time >= 0
        &&& s.energy >= 0
        &&& s.start.lat == route.segments[i].start.lat
        &&& s.start.lon == route.segments[i].start.lon
        &&& s.end == route.segments[i].end
    } by {
        let before = route.segments[i];
        lemma_shifted_altitude_in_range(before.start.altitude as int, shift);
        lemma_remeasured_is_measured(
            before,
            shifted_altitude(before.start.altitude as int, shift),
        );
    }
}

/// Brings `raw` into the admitted range of altitudes.
pub fn clamp_altitude(raw: i128) -> (r: i64)
    ensures
        r == clamp_altitude_spec(raw as int),
        MIN_ALTITUDE <= r <= MAX_ALTITUDE,
{
    if raw < MIN_ALTITUDE as i128 {
        MIN_ALTITUDE
    } else if raw > MAX_ALTITUDE as i128 {
        MAX_ALTITUDE
    } else {
        raw as i64
    }
}

impl RouteSegment {
    /// The leg with its start moved to `altitude`, a value within the
    /// admitted range, and its distance, time and energy computed anew.
    pub fn with_start_altitude(&self, altitude: i64) -> (s: RouteSegment)
        requires
            MIN_ALTITUDE <= altitude <= MAX_ALTITUDE,
        ensures
            s == remeasured(*self, altitude as int),
            s.is_measured(),
            s.start.lat == self.start.lat,
            s.start.lon == self.start.lon,
            s.start.altitude == altitude,
            s.end == self.end,
            0 <= s.time <= s.distance,
            0 <= s.energy <= s.distance,
    {
        let distance: i64 = calculate_distance(
            self.start.lat,
            self.start.lon,
            altitude,
            self.end.lat,
            self.end.lon,
            self.end.altitude,
        );
        proof {
            lemma_metrics_in_range(distance as int, altitude as int);
        }
        let time: i128 = calculate_time(distance, altitude);
        let energy: i128 = calculate_energy(distance, altitude);
        RouteSegment {
            start: RoutePoint { lat: self.start.lat, lon: self.start.lon, altitude },
            end: self.end,
            distance,
            time: time as i64,
            energy: energy as i64,
        }
    }
}

/// A shift that moves every 64-bit altitude to where
/// `gain * (target_time - total_time)` moves it, kept small enough to be
/// added to an altitude in 128 bits.
fn bounded_shift(gain: i64, target_time: i128, total_time: i128) -> (shift: i128)
    ensures
        -SHIFT_LIMIT * 0x8000_0000_0000_0000 <= shift <= SHIFT_LIMIT * 0x8000_0000_0000_0000,
        forall|altitude: int|
            i64::MIN <= altitude <= i64::MAX ==> #[trigger] shifted_altitude(altitude, shift as int)
                == shifted_altitude(
                altitude,
                altitude_shift(gain as int, target_time as int, total_time as int),
            ),
{
    let ghost exact: int = target_time - total_time;
    let gap: i128 = match target_time.checked_sub(total_time) {
        Some(near) => {
            if near > SHIFT_LIMIT {
                SHIFT_LIMIT
            } else if near < -SHIFT_LIMIT {
                -SHIFT_LIMIT
            } else {
                near
            }
        },
        None => {
            if target_time > total_time {
                SHIFT_LIMIT
            } else {
                -SHIFT_LIMIT
            }
        },
    };
    assert(-SHIFT_LIMIT * 0x8000_0000_0000_0000 <= gain * gap <= SHIFT_LIMIT
        * 0x8000_0000_0000_0000) by (nonlinear_arith)
        requires
            -0x8000_0000_0000_0000 <= gain <= 0x8000_0000_0000_0000,
            -SHIFT_LIMIT <= gap <= SHIFT_LIMIT,
    ;
    let shift: i128 = (gain as i128) * gap;
    proof {
        if exact > SHIFT_LIMIT {
            assert(gap == SHIFT_LIMIT);
            assert(gain >= 1 ==> gain * exact >= SHIFT_LIMIT && gain * gap >= SHIFT_LIMIT)
                by (nonlinear_arith)
                requires
                    exact > SHIFT_LIMIT,
                    gap == SHIFT_LIMIT,
            ;
            assert(gain <= -1 ==> gain * exact <= -SHIFT_LIMIT && gain * gap <= -SHIFT_LIMIT)
                by (nonlinear_arith)
                requires
                    exact > SHIFT_LIMIT,
                    gap == SHIFT_LIMIT,
            ;
            assert(gain == 0 ==> gain * exact == 0 && gain * gap == 0) by (nonlinear_arith);
        } else if exact < -SHIFT_LIMIT {
            assert(gap == -SHIFT_LIMIT);
            assert(gain >= 1 ==> gain * exact <= -SHIFT_LIMIT && gain * gap <= -SHIFT_LIMIT)
                by (nonlinear_arith)
                requires
                    exact < -SHIFT_LIMIT,
                    gap == -SHIFT_LIMIT,
            ;
            assert(gain <= -1 ==> gain * exact >= SHIFT_LIMIT && gain * gap >= SHIFT_LIMIT)
                by (nonlinear_arith)
                requires
                    exact < -SHIFT_LIMIT,
                    gap == -SHIFT_LIMIT,
            ;
            assert(gain == 0 ==> gain * exact == 0 && gain * gap == 0) by (nonlinear_arith);
        } else {
            assert(gap == exact);
        }
    }
    shift
}

/// Adjusts `route` once toward `target_time`.
///
/// Every leg's start altitude is moved by `gain * (target_time -
/// route.total_time)` and brought into the range from `MIN_ALTITUDE` to
/// `MAX_ALTITUDE`; the leg's end is left as it is. Distance, time and energy
/// of each leg are computed from its new start, and the totals are the sums
/// over the new legs. This is one step and no search: the new total time is
/// in general not `target_time`.
pub fn adjust(route: &Route, gain: i64, target_time: i128) -> (r: Result<Route, OptimizerError>)
    ensures
        outcome_view(r) == adjustment_outcome(route@, gain as int, target_time as int),
        r matches Ok(out) ==> is_valid_adjustment(out@, route@),
{
    if route.segments.len() == 0 {
        return Err(OptimizerError::EmptyRoute);
    }
    let shift: i128 = bounded_shift(gain, target_time, route.total_time);
    let ghost exact: int = altitude_shift(gain as int, target_time as int, route.total_time as int);
    let mut segments: Vec<RouteSegment> = Vec::new();
    let mut i: usize = 0;
    while i < route.segments.len()
        invariant
            i <= route.segments.len(),
            segments@.len() == i,
            -SHIFT_LIMIT * 0x8000_0000_0000_0000 <= shift <= SHIFT_LIMIT * 0x8000_0000_0000_0000,
            forall|altitude: int|
                i64::MIN <= altitude <= i64::MAX ==> #[trigger] shifted_altitude(
                    altitude,
                    shift as int,
                ) == shifted_altitude(altitude, exact),
            forall|j: int|
                0 <= j < i ==> #[trigger] segments@[j] == adjusted_segment(
                    route.segments@[j],
                    exact,
                ),
        decreases route.segments.len() - i,
    {
        let segment: RouteSegment = route.segments[i];
        let altitude: i64 = clamp_altitude(segment.start.altitude as i128 + shift);
        assert(altitude == shifted_altitude(segment.start.altitude as int, shift as int));
        let moved: RouteSegment = segment.with_start_altitude(altitude);
        segments.push(moved);
        i = i + 1;
    }
    proof {
        assert(segments@ =~= adjusted_segments(route.segments@, exact));
        lemma_adjusted_route_is_valid(route@, gain as int, target_time as int);
    }
    Ok(Route::from_segments(segments))
}

} // verus!
