//! Tunable thresholds shared by trace derivation, matching and the store.
use vstd::prelude::*;

verus! {

/// Fixed-point units per degree of latitude or longitude.
pub const DEGREE: i64 = 10_000_000;

/// Tunable numeric thresholds, built once and shared read-only.
#[derive(Clone, Copy, Debug, PartialEq, Eq, Structural)]
pub struct Config {
    /// Most messages held in memory.
    pub max_messages_in_memory: usize,
    /// Most characters in a message.
    pub max_message_length: usize,
    /// Age in minutes at which a message is dropped.
    pub max_message_age_minutes: i64,
    /// Number of locations kept in a history.
    pub max_locations_in_history: usize,
    /// Age in seconds at which a location is dropped from a history.
    pub max_location_age_seconds: u64,
    /// Least time between the earliest and the latest location of a trace.
    pub min_location_time_delta_millis: u64,
    /// Least speed of a valid trace, and of both traces of a match.
    pub min_speed_millimeters_per_second: u64,
    /// Two traces match while their distance is below what the viewer
    /// covers in this many seconds.
    pub trace_match_max_move_seconds: u64,
    /// Two traces match while their bearings differ by less than this.
    pub trace_match_max_slope_diff_millidegrees: u64,
}

impl Config {
    /// The defaults of every threshold.
    pub open spec fn spec_default() -> Config {
        Config {
            max_messages_in_memory: 100_000,
            max_message_length: 144,
            max_message_age_minutes: 10,
            max_locations_in_history: 4,
            max_location_age_seconds: 60,
            min_location_time_delta_millis: 1500,
            min_speed_millimeters_per_second: 3000,
            trace_match_max_move_seconds: 180,
            trace_match_max_slope_diff_millidegrees: 32_000,
        }
    }
}

impl Default for Config {
    fn default() -> (r: Config)
        ensures
            r == Config::spec_default(),
    {
        Config {
            max_messages_in_memory: 100_000,
            max_message_length: 144,
            max_message_age_minutes: 10,
            max_locations_in_history: 4,
            max_location_age_seconds: 60,
            min_location_time_delta_millis: 1500,
            min_speed_millimeters_per_second: 3000,
            trace_match_max_move_seconds: 180,
            trace_match_max_slope_diff_millidegrees: 32_000,
        }
    }
}

} // verus!
