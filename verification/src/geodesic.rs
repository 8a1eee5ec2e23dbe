//! Distance, time and energy of one leg of a flight.
//!
//! The ground distance is the haversine great-circle distance on a sphere of
//! radius `EARTH_RADIUS_KM`; the leg's distance combines it with the
//! difference in altitude as the two sides of a right triangle.
use vstd::prelude::*;
use crate::arith::{
    floor_div,
    floor_sqrt,
    is_floor_sqrt,
    isqrt,
    lemma_floor_sqrt_exists,
    lemma_floor_sqrt_of_square,
};
use crate::trig::{
    arcsine,
    arcsine_spec,
    lemma_arcsine_of_zero,
    lemma_bisect_in_range,
    lemma_sine_of_zero,
    sine,
    sine_spec,
    ARC_STEPS,
    HALF_PI,
    ONE,
};

verus! {

/// Number of fixed-point units in one unit of any quantity.
pub const SCALE: i64 = 1_000_000;

/// A full turn, in millionths of a degree.
pub const FULL_TURN: u128 = 360_000_000;

/// Half a turn, in millionths of a degree.
pub const HALF_TURN: u128 = 180_000_000;

/// A quarter turn, in millionths of a degree.
pub const QUARTER_TURN: u128 = 90_000_000;

/// Half a turn in radians, in units of `1 / ONE`.
pub const PI: u128 = 3_141_592_653_589_793_238;

/// Radius of the sphere that stands for the Earth, in kilometres.
pub const EARTH_RADIUS_KM: u128 = 6371;

/// The longest ground distance there is: half the circumference.
pub const MAX_GROUND: u64 = 20_015_086_796;

/// Millionths of a metre of altitude in one millionth of a kilometre.
pub const ALTITUDE_PER_DISTANCE: i128 = 1000;

/// Speed at sea level, in kilometres per hour.
pub const BASE_SPEED: i128 = 50;

/// Altitude over which the speed doubles.
pub const SPEED_ALTITUDE: i128 = 1_000_000_000;

/// Distance flown at sea level on one kilowatt-hour, in kilometres.
pub const BASE_RANGE: i128 = 10;

/// Altitude over which the energy spent per kilometre doubles.
pub const ENERGY_ALTITUDE: i128 = 2_000_000_000;

/// Angular distance of `d` from the nearest whole number of turns.
pub open spec fn fold_turn_spec(d: int) -> int {
    let m = (if d < 0 {
        -d
    } else {
        d
    }) % (FULL_TURN as int);
    if m > HALF_TURN {
        FULL_TURN - m
    } else {
        m
    }
}

/// Absolute sine of half the angle `d`.
pub open spec fn half_angle_sine_spec(d: int) -> int {
    sine_spec(fold_turn_spec(d) * PI / (FULL_TURN as int))
}

/// Whether the cosine of the angle `d` is counted as negative.
pub open spec fn cosine_is_negative(d: int) -> bool {
    fold_turn_spec(d) > QUARTER_TURN
}

/// Absolute cosine of the angle `d`.
pub open spec fn cosine_magnitude_spec(d: int) -> int {
    let f = fold_turn_spec(d);
    if f > QUARTER_TURN {
        sine_spec((f - QUARTER_TURN) * PI / (HALF_TURN as int))
    } else {
        sine_spec((QUARTER_TURN - f) * PI / (HALF_TURN as int))
    }
}

/// The haversine of the central angle between two positions: the squared
/// sine of half that angle, in units of `1 / (ONE * ONE)`.
pub open spec fn haversine_spec(lat1: int, lon1: int, lat2: int, lon2: int) -> int {
    let s_lat = half_angle_sine_spec(lat2 - lat1);
    let s_lon = half_angle_sine_spec(lon2 - lon1);
    let c = cosine_magnitude_spec(lat1) * cosine_magnitude_spec(lat2) / (ONE as int);
    let m = (c * s_lon / (ONE as int)) * s_lon;
    if cosine_is_negative(lat1) != cosine_is_negative(lat2) {
        if m >= s_lat * s_lat {
            0
        } else {
            s_lat * s_lat - m
        }
    } else if s_lat * s_lat + m > ONE * ONE {
        ONE * ONE
    } else {
        s_lat * s_lat + m
    }
}

/// Great-circle distance between two positions: the diameter of the sphere
/// times half the central angle, which is the arc sine of the square root
/// of the haversine. The arc sine comes in grid steps, of which `SCALE`
/// times `SCALE` make one radian.
pub open spec fn ground_distance_spec(lat1: int, lon1: int, lat2: int, lon2: int) -> int {
    2 * EARTH_RADIUS_KM * arcsine_spec(floor_sqrt(haversine_spec(lat1, lon1, lat2, lon2))) / (
    SCALE as int)
}

/// Difference in altitude between two positions, as a distance.
pub open spec fn vertical_distance_spec(alt1: int, alt2: int) -> int {
    (if alt2 >= alt1 {
        alt2 - alt1
    } else {
        alt1 - alt2
    }) / (ALTITUDE_PER_DISTANCE as int)
}

/// Longest side of the right triangle whose other sides are `h` and `v`.
pub open spec fn hypotenuse_spec(h: int, v: int) -> int {
    floor_sqrt(h * h + v * v)
}

/// Distance of a leg: the hypotenuse over the ground distance and the
/// difference in altitude.
pub open spec fn distance_spec(
    lat1: int,
    lon1: int,
    alt1: int,
    lat2: int,
    lon2: int,
    alt2: int,
) -> int {
    hypotenuse_spec(
        ground_distance_spec(lat1, lon1, lat2, lon2),
        vertical_distance_spec(alt1, alt2),
    )
}

/// Time to fly `distance` at `altitude`: the distance over a speed of
/// `BASE_SPEED * (1 + altitude / SPEED_ALTITUDE)`, rounded down.
pub open spec fn time_spec(distance: int, altitude: int) -> int {
    let n = distance * SPEED_ALTITUDE;
    let d = BASE_SPEED * (SPEED_ALTITUDE + altitude);
    if d > 0 {
        n / d
    } else {
        (-n) / (-d)
    }
}

/// Energy spent over `distance` at `altitude`: the distance times a rate of
/// `(1 + altitude / ENERGY_ALTITUDE) / BASE_RANGE`, rounded down.
pub open spec fn energy_spec(distance: int, altitude: int) -> int {
    distance * (ENERGY_ALTITUDE + altitude) / (BASE_RANGE * ENERGY_ALTITUDE)
}

/// The ground distance lies between zero and half the circumference.
pub proof fn lemma_ground_distance_in_range(lat1: int, lon1: int, lat2: int, lon2: int)
    ensures
        0 <= ground_distance_spec(lat1, lon1, lat2, lon2) <= MAX_GROUND,
{
    let s = floor_sqrt(haversine_spec(lat1, lon1, lat2, lon2));
    lemma_bisect_in_range(s, 0, ARC_STEPS as int);
}

/// The ground distance does not depend on the direction of travel.
pub proof fn lemma_ground_distance_symmetric(lat1: int, lon1: int, lat2: int, lon2: int)
    ensures
        ground_distance_spec(lat1, lon1, lat2, lon2) == ground_distance_spec(
            lat2,
            lon2,
            lat1,
            lon1,
        ),
{
    assert(fold_turn_spec(lat2 - lat1) == fold_turn_spec(lat1 - lat2));
    assert(fold_turn_spec(lon2 - lon1) == fold_turn_spec(lon1 - lon2));
    assert(cosine_magnitude_spec(lat1) * cosine_magnitude_spec(lat2) == cosine_magnitude_spec(
        lat2,
    ) * cosine_magnitude_spec(lat1)) by (nonlinear_arith);
}

/// A position is at ground distance zero from itself.
pub proof fn lemma_ground_distance_to_self(lat: int, lon: int)
    ensures
        ground_distance_spec(lat, lon, lat, lon) == 0,
{
    lemma_sine_of_zero();
    assert(fold_turn_spec(0) == 0);
    assert(0 * PI / (FULL_TURN as int) == 0);
    assert(half_angle_sine_spec(0) == 0);
    let c = cosine_magnitude_spec(lat) * cosine_magnitude_spec(lat) / (ONE as int);
    assert((c * 0 / (ONE as int)) * 0 == 0) by (nonlinear_arith);
    assert(haversine_spec(lat, lon, lat, lon) == 0);
    lemma_floor_sqrt_of_square(0);
    lemma_arcsine_of_zero();
}

/// Straight up or down, the distance of a leg is its difference in altitude.
pub proof fn lemma_distance_of_vertical_leg(lat: int, lon: int, alt1: int, alt2: int)
    ensures
        distance_spec(lat, lon, alt1, lat, lon, alt2) == vertical_distance_spec(alt1, alt2),
{
    lemma_ground_distance_to_self(lat, lon);
    lemma_floor_sqrt_of_square(vertical_distance_spec(alt1, alt2));
}

/// The distance of a leg is never negative, and it is the floor of the
/// square root of the sum of the squares of its two components.
pub proof fn lemma_distance_is_hypotenuse(
    lat1: int,
    lon1: int,
    alt1: int,
    lat2: int,
    lon2: int,
    alt2: int,
)
    ensures
        distance_spec(lat1, lon1, alt1, lat2, lon2, alt2) >= 0,
        is_floor_sqrt(
            ground_distance_spec(lat1, lon1, lat2, lon2) * ground_distance_spec(
                lat1,
                lon1,
                lat2,
                lon2,
            ) + vertical_distance_spec(alt1, alt2) * vertical_distance_spec(alt1, alt2),
            distance_spec(lat1, lon1, alt1, lat2, lon2, alt2),
        ),
{
    let h = ground_distance_spec(lat1, lon1, lat2, lon2);
    let v = vertical_distance_spec(alt1, alt2);
    assert(h * h + v * v >= 0) by (nonlinear_arith);
    lemma_floor_sqrt_exists(h * h + v * v);
}

/// The distance of a leg is at most its ground distance plus its
/// difference in altitude.
pub proof fn lemma_distance_upper_bound(
    lat1: int,
    lon1: int,
    alt1: int,
    lat2: int,
    lon2: int,
    alt2: int,
)
    ensures
        distance_spec(lat1, lon1, alt1, lat2, lon2, alt2) <= MAX_GROUND + vertical_distance_spec(
            alt1,
            alt2,
        ),
{
    let h = ground_distance_spec(lat1, lon1, lat2, lon2);
    let v = vertical_distance_spec(alt1, alt2);
    let r = distance_spec(lat1, lon1, alt1, lat2, lon2, alt2);
    lemma_ground_distance_in_range(lat1, lon1, lat2, lon2);
    lemma_distance_is_hypotenuse(lat1, lon1, alt1, lat2, lon2, alt2);
    assert(r <= h + v) by (nonlinear_arith)
        requires
            r * r <= h * h + v * v,
            0 <= r,
            0 <= h,
            0 <= v,
    ;
}

/// Over a distance that is not negative, at an altitude of no less than
/// minus `ENERGY_ALTITUDE`, the energy spent is not negative.
pub proof fn lemma_energy_nonnegative(distance: int, altitude: int)
    requires
        distance >= 0,
        altitude >= -ENERGY_ALTITUDE,
    ensures
        energy_spec(distance, altitude) >= 0,
{
    assert(distance * (ENERGY_ALTITUDE + altitude) >= 0) by (nonlinear_arith)
        requires
            distance >= 0,
            ENERGY_ALTITUDE + altitude >= 0,
    ;
}

proof fn lemma_scaled_product(a: int, b: int, unit: int)
    requires
        0 <= a <= unit,
        0 <= b <= unit,
        unit > 0,
    ensures
        0 <= a * b <= unit * unit,
        0 <= a * b / unit <= unit,
{
    assert(0 <= a * b <= unit * unit) by (nonlinear_arith)
        requires
            0 <= a <= unit,
            0 <= b <= unit,
    ;
    assert(0 <= a * b / unit <= unit) by (nonlinear_arith)
        requires
            0 <= a * b <= unit * unit,
            unit > 0,
    ;
}

proof fn lemma_radians_bound(f: int, span: int)
    requires
        0 <= f <= span,
        span == HALF_TURN || span == QUARTER_TURN,
    ensures
        0 <= f * PI <= span * PI,
        0 <= f * PI / (2 * span) <= HALF_PI,
{
    assert(0 <= f * PI <= span * PI) by (nonlinear_arith)
        requires
            0 <= f <= span,
    ;
    assert(span * PI == (2 * span) * HALF_PI) by (nonlinear_arith);
    assert(0 <= f * PI / (2 * span) <= HALF_PI) by (nonlinear_arith)
        requires
            0 <= f * PI <= (2 * span) * HALF_PI,
            span > 0,
    ;
}

fn fold_turn(d: i128) -> (f: u128)
    requires
        d > i128::MIN,
    ensures
        f == fold_turn_spec(d as int),
        f <= HALF_TURN,
{
    let a: u128 = if d < 0 {
        (-d) as u128
    } else {
        d as u128
    };
    let m: u128 = a % FULL_TURN;
    if m > HALF_TURN {
        FULL_TURN - m
    } else {
        m
    }
}

fn half_angle_sine(d: i128) -> (s: u128)
    requires
        d > i128::MIN,
    ensures
        s == half_angle_sine_spec(d as int),
        s <= ONE,
{
    let f: u128 = fold_turn(d);
    proof {
        lemma_radians_bound(f as int, HALF_TURN as int);
    }
    sine(f * PI / FULL_TURN)
}

fn cosine_magnitude(d: i64) -> (c: u128)
    ensures
        c == cosine_magnitude_spec(d as int),
        c <= ONE,
{
    let f: u128 = fold_turn(d as i128);
    let g: u128 = if f > QUARTER_TURN {
        f - QUARTER_TURN
    } else {
        QUARTER_TURN - f
    };
    proof {
        lemma_radians_bound(g as int, QUARTER_TURN as int);
    }
    sine(g * PI / HALF_TURN)
}

fn haversine(lat1: i64, lon1: i64, lat2: i64, lon2: i64) -> (a: u128)
    ensures
        a == haversine_spec(lat1 as int, lon1 as int, lat2 as int, lon2 as int),
        a <= ONE * ONE,
{
    let s_lat: u128 = half_angle_sine(lat2 as i128 - lat1 as i128);
    let s_lon: u128 = half_angle_sine(lon2 as i128 - lon1 as i128);
    let c1: u128 = cosine_magnitude(lat1);
    let c2: u128 = cosine_magnitude(lat2);
    proof {
        lemma_scaled_product(c1 as int, c2 as int, ONE as int);
        lemma_scaled_product(s_lat as int, s_lat as int, ONE as int);
    }
    let c: u128 = c1 * c2 / ONE;
    proof {
        lemma_scaled_product(c as int, s_lon as int, ONE as int);
    }
    let t: u128 = c * s_lon / ONE;
    proof {
        lemma_scaled_product(t as int, s_lon as int, ONE as int);
    }
    let m: u128 = t * s_lon;
    let base: u128 = s_lat * s_lat;
    let negative1: bool = fold_turn(lat1 as i128) > QUARTER_TURN;
    let negative2: bool = fold_turn(lat2 as i128) > QUARTER_TURN;
    if negative1 != negative2 {
        if m >= base {
            0
        } else {
            base - m
        }
    } else if base + m > ONE * ONE {
        ONE * ONE
    } else {
        base + m
    }
}

/// Great-circle distance between two positions given in millionths of a
/// degree, in millionths of a kilometre.
pub fn ground_distance(lat1: i64, lon1: i64, lat2: i64, lon2: i64) -> (h: u64)
    ensures
        h == ground_distance_spec(lat1 as int, lon1 as int, lat2 as int, lon2 as int),
        h <= MAX_GROUND,
{
    let a: u128 = haversine(lat1, lon1, lat2, lon2);
    let s: u64 = isqrt(a);
    assert(s <= ONE) by (nonlinear_arith)
        requires
            s * s <= a,
            a <= ONE * ONE,
            0 <= s,
    ;
    let steps: u64 = arcsine(s as u128);
    let diameter: u128 = 2 * EARTH_RADIUS_KM;
    assert(diameter * steps <= diameter * ARC_STEPS) by (nonlinear_arith)
        requires
            steps <= ARC_STEPS,
            diameter >= 0,
    ;
    let h: u128 = diameter * (steps as u128) / (SCALE as u128);
    h as u64
}

/// Longest side of the right triangle over `h` and `v`, rounded down.
fn hypotenuse(h: u64, v: u64) -> (r: u64)
    requires
        h <= MAX_GROUND,
        v <= 0x80_0000_0000_0000,
    ensures
        r == hypotenuse_spec(h as int, v as int),
        is_floor_sqrt(h * h + v * v, r as int),
        r <= h + v,
{
    let wide_h: u128 = h as u128;
    let wide_v: u128 = v as u128;
    assert(wide_h * wide_h <= MAX_GROUND * MAX_GROUND) by (nonlinear_arith)
        requires
            0 <= wide_h <= MAX_GROUND,
    ;
    assert(wide_v * wide_v <= 0x80_0000_0000_0000int * 0x80_0000_0000_0000int)
        by (nonlinear_arith)
        requires
            0 <= wide_v <= 0x80_0000_0000_0000,
    ;
    let square: u128 = wide_h * wide_h + wide_v * wide_v;
    let r: u64 = isqrt(square);
    assert(r <= wide_h + wide_v) by (nonlinear_arith)
        requires
            r * r <= square,
            square == wide_h * wide_h + wide_v * wide_v,
            0 <= r,
            0 <= wide_h,
            0 <= wide_v,
    ;
    r
}

/// Distance of the leg from the first position to the second.
///
/// Latitudes and longitudes are millionths of a degree, altitudes millionths
/// of a metre; the result is in millionths of a kilometre and never
/// negative.
pub fn calculate_distance(
    lat1: i64,
    lon1: i64,
    alt1: i64,
    lat2: i64,
    lon2: i64,
    alt2: i64,
) -> (r: i64)
    ensures
        r == distance_spec(
            lat1 as int,
            lon1 as int,
            alt1 as int,
            lat2 as int,
            lon2 as int,
            alt2 as int,
        ),
        0 <= r <= MAX_GROUND + vertical_distance_spec(alt1 as int, alt2 as int),
{
    let h: u64 = ground_distance(lat1, lon1, lat2, lon2);
    let rise: i128 = if alt2 >= alt1 {
        alt2 as i128 - alt1 as i128
    } else {
        alt1 as i128 - alt2 as i128
    };
    let v: u64 = (rise / ALTITUDE_PER_DISTANCE) as u64;
    let r: u64 = hypotenuse(h, v);
    r as i64
}

/// Time to fly `distance` at `altitude`, in millionths of an hour.
///
/// At an altitude of minus `SPEED_ALTITUDE` the speed is zero and the time
/// is not defined.
pub fn calculate_time(distance: i64, altitude: i64) -> (r: i128)
    requires
        altitude != -SPEED_ALTITUDE,
    ensures
        r == time_spec(distance as int, altitude as int),
{
    let n: i128 = (distance as i128) * SPEED_ALTITUDE;
    let d: i128 = BASE_SPEED * (SPEED_ALTITUDE + altitude as i128);
    if d > 0 {
        floor_div(n, d)
    } else {
        floor_div(-n, -d)
    }
}

/// Energy spent over `distance` at `altitude`, in millionths of a
/// kilowatt-hour.
pub fn calculate_energy(distance: i64, altitude: i64) -> (r: i128)
    ensures
        r == energy_spec(distance as int, altitude as int),
        distance >= 0 && altitude >= -ENERGY_ALTITUDE ==> r >= 0,
{
    let factor: i128 = ENERGY_ALTITUDE + altitude as i128;
    assert(-0x8000_0000_0000_0000int * 0x8000_0000_8000_0000int <= distance * factor
        <= 0x8000_0000_0000_0000int * 0x8000_0000_8000_0000int) by (nonlinear_arith)
        requires
            -0x8000_0000_0000_0000 <= distance <= 0x8000_0000_0000_0000,
            -0x8000_0000_8000_0000 <= factor <= 0x8000_0000_8000_0000,
    ;
    let n: i128 = (distance as i128) * factor;
    assert(distance >= 0 && factor >= 0 ==> n >= 0) by (nonlinear_arith)
        requires
            n == distance * factor,
    ;
    floor_div(n, BASE_RANGE * ENERGY_ALTITUDE)
}

} // verus!
