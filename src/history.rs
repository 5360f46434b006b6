//! A client's recent locations, and the rules that derive a trace from them.
use vstd::prelude::*;

use crate::config::{Config, DEGREE};
use crate::platform::now_millis;
use crate::trace::Trace;

verus! {

/// A position as `(x, y)`: longitude, latitude in fixed-point degrees.
pub type Point = (i64, i64);

/// A retained location with the instant it was captured, in milliseconds.
pub type Sample = (Point, i64);

/// Longitude within [-180, 180] and latitude within [-90, 90] degrees.
pub open spec fn valid_point(p: Point) -> bool {
    &&& -180 * DEGREE <= p.0 <= 180 * DEGREE
    &&& -90 * DEGREE <= p.1 <= 90 * DEGREE
}

/// A point out of range stands as the origin.
pub open spec fn clamp_point(p: Point) -> Point {
    if valid_point(p) {
        p
    } else {
        (0, 0)
    }
}

/// A sample captured at `captured_at` is younger than `max_age_seconds` at `now`.
pub open spec fn is_recent(captured_at: i64, now: i64, max_age_seconds: u64) -> bool {
    now - captured_at < max_age_seconds * 1000
}

/// The samples of `s` still recent at `now`, in their order.
pub open spec fn recent_samples(s: Seq<Sample>, now: i64, max_age_seconds: u64) -> Seq<Sample> {
    s.filter(|x: Sample| is_recent(x.1, now, max_age_seconds))
}

/// Why no trace can be derived right now.
#[derive(Clone, Copy, Debug, PartialEq, Eq, Structural)]
pub enum NoTrace {
    LoadingConfig,
    NoPermission,
    PositionUnavailable,
    Timeout,
    WaitingForMoreLocations { received_locations: usize, required_locations: usize },
    WaitingForTimeToPass,
    TooSlow { current_speed: u64, required_speed: u64 },
}

impl NoTrace {
    /// Maps a geolocation error code of the platform: 1 is a denied
    /// permission, 2 an unavailable position, anything else a timeout.
    pub fn from_position_error_code(code: u16) -> (r: NoTrace)
        ensures
            r == (if code == 1 {
                NoTrace::NoPermission
            } else if code == 2 {
                NoTrace::PositionUnavailable
            } else {
                NoTrace::Timeout
            }),
    {
        if code == 1 {
            NoTrace::NoPermission
        } else if code == 2 {
            NoTrace::PositionUnavailable
        } else {
            NoTrace::Timeout
        }
    }
}

/// The two samples a trace is measured between, and the time between them.
#[derive(Clone, Copy, Debug)]
pub struct Span {
    pub earliest: Sample,
    pub latest: Sample,
    pub duration_millis: u64,
}

/// The outcome of selecting a span out of the retained samples `s`
/// (newest first), for a history of `size` samples.
pub open spec fn span_of(s: Seq<Sample>, size: usize, min_delta_millis: u64) -> Result<
    Span,
    NoTrace,
> {
    if s.len() < size {
        Err(NoTrace::WaitingForMoreLocations { received_locations: s.len() as usize, required_locations: size })
    } else if size == 0 {
        Err(NoTrace::WaitingForTimeToPass)
    } else {
        let earliest = s[size - 1];
        let latest = s[0];
        let duration = latest.1 - earliest.1;
        if duration < min_delta_millis || duration < 1 {
            Err(NoTrace::WaitingForTimeToPass)
        } else {
            Ok(Span { earliest, latest, duration_millis: duration as u64 })
        }
    }
}

/// Millimetres per second over `distance_mm` covered in `duration_millis`,
/// rounded down and capped at the largest `u64`.
pub open spec fn speed_of(distance_mm: u64, duration_millis: u64) -> u64 {
    let s = (distance_mm * 1000) / (duration_millis as int);
    if s > u64::MAX {
        u64::MAX
    } else {
        s as u64
    }
}

/// The outcome of measuring `span`, whose ends lie `distance_mm` apart along
/// bearing `slope`: too slow when the speed falls short of the least speed
/// by more than one millimetre per second.
pub open spec fn trace_of(span: Span, distance_mm: u64, slope: i64, min_speed: u64) -> Result<
    Trace,
    NoTrace,
> {
    if span.duration_millis == 0 {
        Err(NoTrace::WaitingForTimeToPass)
    } else {
        let speed = speed_of(distance_mm, span.duration_millis);
        if speed + 1 < min_speed {
            Err(NoTrace::TooSlow { current_speed: speed, required_speed: min_speed })
        } else {
            Ok(Trace { location: span.latest.0, speed, slope })
        }
    }
}

/// What a history holds.
pub ghost struct HistoryView {
    pub locations: Seq<Sample>,
    pub size: usize,
    pub max_location_age_seconds: u64,
    pub min_location_time_delta_millis: u64,
    pub min_speed_millimeters_per_second: u64,
}

/// A client's recent locations, newest first, at most `size` of them.
#[derive(Clone, Debug)]
pub struct LocationHistory {
    locations: Vec<Sample>,
    size: usize,
    max_location_age_seconds: u64,
    min_location_time_delta_millis: u64,
    min_speed_millimeters_per_second: u64,
}

impl View for LocationHistory {
    type V = HistoryView;

    closed spec fn view(&self) -> HistoryView {
        HistoryView {
            locations: self.locations@,
            size: self.size,
            max_location_age_seconds: self.max_location_age_seconds,
            min_location_time_delta_millis: self.min_location_time_delta_millis,
            min_speed_millimeters_per_second: self.min_speed_millimeters_per_second,
        }
    }
}

impl LocationHistory {
    /// The history holds no more samples than its size.
    pub open spec fn wf(&self) -> bool {
        self@.locations.len() <= self@.size
    }

    pub fn new(config: Config) -> (r: LocationHistory)
        ensures
            r.wf(),
            r@.locations.len() == 0,
            r@.size == config.max_locations_in_history,
            r@.max_location_age_seconds == config.max_location_age_seconds,
            r@.min_location_time_delta_millis == config.min_location_time_delta_millis,
            r@.min_speed_millimeters_per_second == config.min_speed_millimeters_per_second,
    {
        LocationHistory {
            locations: Vec::new(),
            size: config.max_locations_in_history,
            max_location_age_seconds: config.max_location_age_seconds,
            min_location_time_delta_millis: config.min_location_time_delta_millis,
            min_speed_millimeters_per_second: config.min_speed_millimeters_per_second,
        }
    }

    /// The retained samples, newest first.
    pub fn locations(&self) -> (r: &Vec<Sample>)
        ensures
            r@ == self@.locations,
    {
        &self.locations
    }

    /// Records `location` as captured now.
    pub fn add_location(&mut self, location: Point)
        requires
            old(self).wf(),
        ensures
            final(self).wf(),
            exists|now: i64| final(self)@ == old(self).added(location, now),
    {
        let now = now_millis();
        self.add_location_at(location, now);
    }

    /// The history after `location` is recorded at `now`: the point, clamped
    /// to the origin when out of range, goes in front, and the oldest sample
    /// leaves when the history would outgrow its size.
    pub open spec fn added(self, location: Point, now: i64) -> HistoryView {
        let s = seq![(clamp_point(location), now)] + self@.locations;
        HistoryView {
            locations: if s.len() > self@.size {
                s.drop_last()
            } else {
                s
            },
            ..self@
        }
    }

    /// Records `location` as captured at `now`.
    pub fn add_location_at(&mut self, location: Point, now: i64)
        requires
            old(self).wf(),
        ensures
            final(self).wf(),
            final(self)@ == old(self).added(location, now),
    {
        let point: Point = if -180 * DEGREE <= location.0 && location.0 <= 180 * DEGREE && -90
            * DEGREE <= location.1 && location.1 <= 90 * DEGREE {
            location
        } else {
            (0, 0)
        };
        self.locations.insert(0, (point, now));
        if self.locations.len() > self.size {
            self.locations.pop();
        }
        assert(self@.locations =~= old(self).added(location, now).locations);
    }

    /// Drops the samples that are no longer recent at `now`.
    fn purge(&mut self, now: i64)
        requires
            old(self).wf(),
        ensures
            final(self).wf(),
            final(self)@ == (HistoryView {
                locations: recent_samples(old(self)@.locations, now, old(self)@.max_location_age_seconds),
                ..old(self)@
            }),
    {
        let mut kept: Vec<Sample> = Vec::new();
        let mut i: usize = 0;
        let ghost max_age = self.max_location_age_seconds;
        while i < self.locations.len()
            invariant
                i <= self.locations.len(),
                self.max_location_age_seconds == max_age,
                kept@ == recent_samples(self.locations@.take(i as int), now, max_age),
            decreases self.locations.len() - i,
        {
            let sample = self.locations[i];
            let young: bool = (now as i128) - (sample.1 as i128) < (self.max_location_age_seconds as i128) * 1000;
            proof {
                assert(self.locations@.take(i + 1).drop_last() =~= self.locations@.take(i as int));
                reveal(Seq::filter);
            }
            if young {
                kept.push(sample);
            }
            i = i + 1;
        }
        proof {
            assert(self.locations@.take(i as int) =~= self.locations@);
            recent_samples(self.locations@, now, max_age).lemma_filter_len(|x: Sample| is_recent(x.1, now, max_age));
        }
        self.locations = kept;
    }

    /// Drops the samples that are no longer recent, then selects the newest
    /// sample and the one `size - 1` places older.
    pub fn span_at(&mut self, now: i64) -> (r: Result<Span, NoTrace>)
        requires
            old(self).wf(),
        ensures
            final(self).wf(),
            final(self)@.locations == recent_samples(old(self)@.locations, now, old(self)@.max_location_age_seconds),
            final(self)@.size == old(self)@.size,
            final(self)@.max_location_age_seconds == old(self)@.max_location_age_seconds,
            final(self)@.min_location_time_delta_millis == old(self)@.min_location_time_delta_millis,
            final(self)@.min_speed_millimeters_per_second == old(self)@.min_speed_millimeters_per_second,
            r == span_of(final(self)@.locations, final(self)@.size, final(self)@.min_location_time_delta_millis),
    {
        self.purge(now);
        if self.size > self.locations.len() {
            return Err(
                NoTrace::WaitingForMoreLocations {
                    received_locations: self.locations.len(),
                    required_locations: self.size,
                },
            );
        }
        if self.size == 0 {
            return Err(NoTrace::WaitingForTimeToPass);
        }
        let earliest = self.locations[self.size - 1];
        let latest = self.locations[0];
        let duration: i128 = (latest.1 as i128) - (earliest.1 as i128);
        if duration < self.min_location_time_delta_millis as i128 || duration < 1 {
            Err(NoTrace::WaitingForTimeToPass)
        } else {
            Ok(Span { earliest, latest, duration_millis: duration as u64 })
        }
    }

    /// Like `span_at`, at the current instant.
    pub fn span(&mut self) -> (r: Result<Span, NoTrace>)
        requires
            old(self).wf(),
        ensures
            final(self).wf(),
            final(self)@.size == old(self)@.size,
            exists|now: i64|
                {
                    &&& final(self)@.locations == recent_samples(old(self)@.locations, now, old(self)@.max_location_age_seconds)
                    &&& r == span_of(final(self)@.locations, final(self)@.size, final(self)@.min_location_time_delta_millis)
                },
    {
        let now = now_millis();
        self.span_at(now)
    }

    /// Derives a trace from `span`, whose ends lie `distance_mm` apart along
    /// bearing `slope`.
    pub fn trace(&self, span: &Span, distance_mm: u64, slope: i64) -> (r: Result<Trace, NoTrace>)
        ensures
            r == trace_of(*span, distance_mm, slope, self@.min_speed_millimeters_per_second),
    {
        if span.duration_millis == 0 {
            return Err(NoTrace::WaitingForTimeToPass);
        }
        let d: u128 = distance_mm as u128;
        assert(d * 1000 <= u64::MAX * 1000) by (nonlinear_arith)
            requires
                d <= u64::MAX,
        ;
        let q: u128 = (d * 1000) / (span.duration_millis as u128);
        let speed: u64 = if q > u64::MAX as u128 {
            u64::MAX
        } else {
            q as u64
        };
        if (speed as u128) + 1 < self.min_speed_millimeters_per_second as u128 {
            return Err(
                NoTrace::TooSlow {
                    current_speed: speed,
                    required_speed: self.min_speed_millimeters_per_second,
                },
            );
        }
        Ok(Trace::new(span.latest.0, speed, slope))
    }
}

} // verus!
