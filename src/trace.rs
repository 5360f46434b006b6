//! Traces and the proximity rule that decides who sees whose messages.
use vstd::prelude::*;

use crate::config::Config;

verus! {

/// A validated position, speed and bearing derived from recent motion.
#[derive(Clone, Copy, Debug)]
pub struct Trace {
    /// Position as `(x, y)`: longitude, latitude in fixed-point degrees.
    pub location: (i64, i64),
    /// Millimetres per second.
    pub speed: u64,
    /// Bearing in millidegrees.
    pub slope: i64,
}

/// Distance between two bearings, in millidegrees.
pub open spec fn slope_diff(a: i64, b: i64) -> int {
    if b >= a {
        b - a
    } else {
        a - b
    }
}

/// Whether the owner of `viewer` should see the messages of the owner of
/// `other`, the two locations being `distance_mm` apart: both move at least
/// at the least speed, the distance is below what the viewer covers in the
/// allowed time, and the bearings differ by less than the allowed angle.
/// Only the viewer's speed bounds the distance, so the rule is not symmetric.
pub open spec fn overlaps(viewer: Trace, other: Trace, distance_mm: u64, config: Config) -> bool {
    &&& viewer.speed >= config.min_speed_millimeters_per_second
    &&& other.speed >= config.min_speed_millimeters_per_second
    &&& distance_mm < viewer.speed * config.trace_match_max_move_seconds
    &&& slope_diff(viewer.slope, other.slope) < config.trace_match_max_slope_diff_millidegrees
}

impl Trace {
    pub fn new(location: (i64, i64), speed: u64, slope: i64) -> (r: Trace)
        ensures
            r == (Trace { location, speed, slope }),
    {
        Trace { location, speed, slope }
    }

    /// Decides whether a viewer at `self` sees a message sent from `other`,
    /// where `distance_mm` is the geodesic distance between their locations.
    pub fn overlaps_with(&self, other: &Trace, distance_mm: u64, config: &Config) -> (r: bool)
        ensures
            r == overlaps(*self, *other, distance_mm, *config),
    {
        if self.speed < config.min_speed_millimeters_per_second
            || other.speed < config.min_speed_millimeters_per_second {
            return false;
        }
        let speed: u128 = self.speed as u128;
        let seconds: u128 = config.trace_match_max_move_seconds as u128;
        assert(speed * seconds <= u64::MAX * u64::MAX) by (nonlinear_arith)
            requires
                speed <= u64::MAX,
                seconds <= u64::MAX,
        ;
        let reach: u128 = speed * seconds;
        let diff: i128 = (other.slope as i128) - (self.slope as i128);
        let abs_diff: i128 = if diff < 0 {
            -diff
        } else {
            diff
        };
        (distance_mm as u128) < reach && abs_diff < (config.trace_match_max_slope_diff_millidegrees
            as i128)
    }
}

} // verus!
