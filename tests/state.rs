use catenary::{ChatMessageIn, ChatMessageOut, Config, Inbox, LocationHistory, NoTrace, Plane, Trace, Vote};
use geo::{Bearing, Distance, Geodesic, Point};

const UNITS_PER_DEGREE: f64 = 10_000_000.0;
const MINUTE: i64 = 60_000;
const T0: i64 = 1_700_000_000_000;

fn fixed(degrees: f64) -> i64 {
    (degrees * UNITS_PER_DEGREE).round() as i64
}

fn at(x: f64, y: f64) -> (i64, i64) {
    (fixed(x), fixed(y))
}

fn point(p: (i64, i64)) -> Point<f64> {
    Point::new(p.0 as f64 / UNITS_PER_DEGREE, p.1 as f64 / UNITS_PER_DEGREE)
}

fn distance_mm(a: (i64, i64), b: (i64, i64)) -> u64 {
    (Geodesic.distance(point(a), point(b)) * 1000.0).round() as u64
}

fn bearing_millidegrees(a: (i64, i64), b: (i64, i64)) -> i64 {
    (Geodesic.bearing(point(a), point(b)) * 1000.0).round() as i64
}

fn mps(v: f64) -> u64 {
    (v * 1000.0).round() as u64
}

fn overlaps(a: &Trace, b: &Trace, config: &Config) -> bool {
    a.overlaps_with(b, distance_mm(a.location, b.location), config)
}

fn incoming(id: u128, author: u128, text: &str, trace: Trace, timestamp: i64) -> ChatMessageIn {
    ChatMessageIn { id, author, username: None, text: text.to_string(), trace, timestamp }
}

fn list(plane: &mut Plane, user: Option<u128>, viewer: &Trace, now: i64) -> Vec<ChatMessageOut> {
    let distances: Vec<u64> = plane
        .message_locations()
        .iter()
        .map(|l| distance_mm(viewer.location, *l))
        .collect();
    plane.get_messages_at(user, viewer, &distances, now)
}

fn moving() -> Trace {
    Trace::new(at(10.0, 53.5), mps(10.0), 0)
}

#[test]
fn overlaps_with() {
    let config = Config::default();
    let min = config.min_speed_millimeters_per_second;

    // low speed

    let trace_a = Trace::new((0, 0), min - 1000, 0);
    let trace_b = Trace::new((0, 0), min + 1000, 0);
    assert!(!overlaps(&trace_a, &trace_b, &config), "self has low speed");
    let trace_a = Trace::new((0, 0), min + 1000, 0);
    let trace_b = Trace::new((0, 0), min - 1000, 0);
    assert!(!overlaps(&trace_a, &trace_b, &config), "other has low speed");
    let trace_a = Trace::new((0, 0), min - 1000, 0);
    let trace_b = Trace::new((0, 0), min - 1000, 0);
    assert!(!overlaps(&trace_a, &trace_b, &config), "both have low speed");

    // slope diff

    let max_slope = config.trace_match_max_slope_diff_millidegrees as i64;
    let trace_a = Trace::new((0, 0), min + 1000, 0);
    let trace_b = Trace::new((0, 0), min + 1000, 0);
    assert!(overlaps(&trace_a, &trace_b, &config), "same slope");
    let trace_a = Trace::new((0, 0), min + 1000, 0);
    let trace_b = Trace::new((0, 0), min + 1000, max_slope - 1000);
    assert!(overlaps(&trace_a, &trace_b, &config), "small slope diff");
    let trace_a = Trace::new((0, 0), min + 1000, 0);
    let trace_b = Trace::new((0, 0), min + 1000, max_slope + 1000);
    assert!(!overlaps(&trace_a, &trace_b, &config), "big slope diff");

    // distance diff

    let bus_speed_rush_hour = mps(6.0);
    let trace_a = Trace::new(at(53.552196, 9.994872), mps(12.0), 0);
    let trace_b = Trace::new(at(53.555574, 10.000226), bus_speed_rush_hour, 0);
    assert!(
        overlaps(&trace_a, &trace_b, &config),
        "bus rush hour, Europapassage -> Kunsthalle"
    );

    let trace_a = Trace::new(at(53.552196, 9.994872), mps(12.0), 0);
    let trace_b = Trace::new(at(53.564007, 10.015946), mps(12.0), 0);
    assert!(
        !overlaps(&trace_a, &trace_b, &config),
        "bus rush hour, Europapassage -> Schwanenwik"
    );

    let bus_speed = mps(13.0);
    let trace_a = Trace::new(at(53.559220, 10.007939), bus_speed, 0);
    assert!(
        overlaps(&trace_a, &trace_b, &config),
        "bus, Europapassage -> Gurlittinsel"
    );
}

#[test]
fn config_defaults() {
    let c = Config::default();
    assert_eq!(c.max_messages_in_memory, 100_000);
    assert_eq!(c.max_message_length, 144);
    assert_eq!(c.max_message_age_minutes, 10);
    assert_eq!(c.max_locations_in_history, 4);
    assert_eq!(c.max_location_age_seconds, 60);
    assert_eq!(c.min_location_time_delta_millis, 1500);
    assert_eq!(c.min_speed_millimeters_per_second, 3000);
    assert_eq!(c.trace_match_max_move_seconds, 180);
    assert_eq!(c.trace_match_max_slope_diff_millidegrees, 32_000);
}

#[test]
fn overlap_thresholds_exact() {
    let config = Config::default();
    let fast = mps(5.0);
    let a = Trace::new((0, 0), fast, 1000);
    let b = Trace::new((0, 0), fast, 1000 + 32_000);
    assert!(!a.overlaps_with(&b, 0, &config), "slope diff exactly at the bound");
    let b = Trace::new((0, 0), fast, 1000 + 31_999);
    assert!(a.overlaps_with(&b, 0, &config));
    // reach of 5 m/s over 180 s is 900 m
    assert!(a.overlaps_with(&a, 899_999, &config));
    assert!(!a.overlaps_with(&a, 900_000, &config));
    // the bound takes the viewer's speed only
    let slow = Trace::new((0, 0), mps(3.0), 1000);
    assert!(!slow.overlaps_with(&a, 600_000, &config));
    assert!(a.overlaps_with(&slow, 600_000, &config));
    // exactly the least speed still matches
    let edge = Trace::new((0, 0), 3000, 1000);
    assert!(edge.overlaps_with(&edge, 0, &config));
    let below = Trace::new((0, 0), 2999, 1000);
    assert!(!below.overlaps_with(&below, 0, &config));
}

#[test]
fn position_error_codes() {
    assert_eq!(NoTrace::from_position_error_code(1), NoTrace::NoPermission);
    assert_eq!(NoTrace::from_position_error_code(2), NoTrace::PositionUnavailable);
    assert_eq!(NoTrace::from_position_error_code(3), NoTrace::Timeout);
    assert_eq!(NoTrace::from_position_error_code(0), NoTrace::Timeout);
}

#[test]
fn add_location_clamps_out_of_range_points() {
    let mut h = LocationHistory::new(Config::default());
    h.add_location_at(at(181.0, 10.0), T0);
    h.add_location_at(at(10.0, -90.5), T0 + 1);
    h.add_location_at(at(-180.0, 90.0), T0 + 2);
    let l = h.locations();
    assert_eq!(l.len(), 3);
    assert_eq!(l[0], (at(-180.0, 90.0), T0 + 2));
    assert_eq!(l[1], ((0, 0), T0 + 1));
    assert_eq!(l[2], ((0, 0), T0));
}

#[test]
fn add_location_never_exceeds_size() {
    let mut h = LocationHistory::new(Config::default());
    for i in 0..10 {
        h.add_location_at(at(10.0, 50.0 + i as f64 * 0.001), T0 + i * 1000);
        assert!(h.locations().len() <= 4);
    }
    let l = h.locations();
    assert_eq!(l.len(), 4);
    assert_eq!(l[0].1, T0 + 9000);
    assert_eq!(l[3].1, T0 + 6000);
}

#[test]
fn span_drops_expired_locations() {
    let mut h = LocationHistory::new(Config::default());
    h.add_location_at(at(10.0, 50.0), T0);
    h.add_location_at(at(10.0, 50.001), T0 + 30_000);
    h.add_location_at(at(10.0, 50.002), T0 + 59_000);
    let r = h.span_at(T0 + 60_000);
    assert_eq!(h.locations().len(), 2);
    assert!(h.locations().iter().all(|s| T0 + 60_000 - s.1 < 60_000));
    assert_eq!(
        r.err(),
        Some(NoTrace::WaitingForMoreLocations { received_locations: 2, required_locations: 4 })
    );
}

#[test]
fn trace_waits_for_more_locations() {
    let mut h = LocationHistory::new(Config::default());
    assert_eq!(
        h.span_at(T0).err(),
        Some(NoTrace::WaitingForMoreLocations { received_locations: 0, required_locations: 4 })
    );
    h.add_location_at(at(10.0, 50.0), T0);
    h.add_location_at(at(10.0, 50.001), T0 + 1000);
    h.add_location_at(at(10.0, 50.002), T0 + 2000);
    assert_eq!(
        h.span_at(T0 + 2000).err(),
        Some(NoTrace::WaitingForMoreLocations { received_locations: 3, required_locations: 4 })
    );
}

#[test]
fn trace_waits_for_time_to_pass() {
    let mut h = LocationHistory::new(Config::default());
    for i in 0..4 {
        h.add_location_at(at(10.0, 50.0 + i as f64 * 0.001), T0 + i * 400);
    }
    // 1.2 s between the earliest and the latest sample, 1.5 s needed
    assert_eq!(h.span_at(T0 + 1200).err(), Some(NoTrace::WaitingForTimeToPass));
}

#[test]
fn trace_ten_metres_in_one_second() {
    let config = Config {
        max_locations_in_history: 2,
        min_location_time_delta_millis: 1000,
        ..Config::default()
    };
    let mut h = LocationHistory::new(config);
    let a = at(10.0, 53.5);
    // about 10 m to the north
    let b = at(10.0, 53.5 + 10.0 / 111_250.0);
    h.add_location_at(a, T0);
    h.add_location_at(b, T0 + 1000);
    let span = h.span_at(T0 + 1000).expect("a span");
    assert_eq!(span.duration_millis, 1000);
    assert_eq!(span.earliest.0, a);
    assert_eq!(span.latest.0, b);
    let d = distance_mm(span.earliest.0, span.latest.0);
    assert!((d as i64 - 10_000).abs() < 50, "distance {}", d);
    let slope = bearing_millidegrees(span.earliest.0, span.latest.0);
    let t = h.trace(&span, d, slope).expect("a trace");
    assert_eq!(t.speed, d);
    assert!((t.speed as f64 / 1000.0 - d as f64 / 1000.0).abs() <= 1e-3);
    assert_eq!(t.slope, slope);
    assert!(t.slope.abs() < 1000 || (t.slope - 360_000).abs() < 1000, "due north");
    assert_eq!(t.location, b);

    // exactly 10 m in one second
    let t = h.trace(&span, 10_000, 0).expect("a trace");
    assert_eq!(t.speed, 10_000);
}

#[test]
fn trace_too_slow() {
    let mut h = LocationHistory::new(Config::default());
    for i in 0..4 {
        h.add_location_at(at(10.0, 53.5), T0 + i * 1000);
    }
    let span = h.span_at(T0 + 3000).expect("a span");
    assert_eq!(span.duration_millis, 3000);
    // 3 m in 3 s is 1 m/s, below 3 m/s
    assert_eq!(
        h.trace(&span, 3000, 0).err(),
        Some(NoTrace::TooSlow { current_speed: 1000, required_speed: 3000 })
    );
    // one millimetre per second below the least speed is tolerated
    assert!(h.trace(&span, 8997, 0).is_ok());
    assert_eq!(
        h.trace(&span, 8993, 0).err(),
        Some(NoTrace::TooSlow { current_speed: 2997, required_speed: 3000 })
    );
}

#[test]
fn trace_with_empty_history_size() {
    let config = Config { max_locations_in_history: 0, ..Config::default() };
    let mut h = LocationHistory::new(config);
    h.add_location_at(at(1.0, 1.0), T0);
    assert_eq!(h.locations().len(), 0);
    assert_eq!(h.span_at(T0).err(), Some(NoTrace::WaitingForTimeToPass));
}

#[test]
fn add_then_get_single_message() {
    let config = Config::default();
    let mut plane = Plane::new(config);
    plane.add_message_at(incoming(1, 7, "hi there", moving(), T0), T0);
    let out = list(&mut plane, Some(8), &moving(), T0 + 1000);
    assert_eq!(out.len(), 1);
    assert_eq!(out[0].id, 1);
    assert_eq!(out[0].text, "hi there");
    assert!(!out[0].username.is_empty());
    assert_eq!(out[0].vote, None);
    assert_eq!(out[0].upvoters, 0);
    assert_eq!(out[0].downvoters, 0);
    assert_eq!(out[0].timestamp, T0);
}

#[test]
fn display_name_is_kept_per_author() {
    let mut plane = Plane::new(Config::default());
    plane.add_message_at(incoming(1, 7, "a", moving(), T0), T0);
    plane.add_message_at(incoming(2, 7, "b", moving(), T0 + 1), T0 + 1);
    let out = list(&mut plane, None, &moving(), T0 + 2);
    assert_eq!(out.len(), 2);
    assert_eq!(out[0].username, out[1].username);
    assert!(out[0].username.contains('-'));
}

#[test]
fn votes_toggle_and_switch() {
    let mut plane = Plane::new(Config::default());
    plane.add_message_at(incoming(1, 7, "vote me", moving(), T0), T0);
    let viewer = 9;
    plane.vote_message(1, viewer, true);
    let out = list(&mut plane, Some(viewer), &moving(), T0);
    assert_eq!((out[0].upvoters, out[0].downvoters, out[0].vote), (1, 0, Some(Vote::Up)));
    plane.vote_message(1, viewer, true);
    let out = list(&mut plane, Some(viewer), &moving(), T0);
    assert_eq!((out[0].upvoters, out[0].downvoters, out[0].vote), (0, 0, None));

    plane.vote_message(1, viewer, true);
    plane.vote_message(1, viewer, false);
    let out = list(&mut plane, Some(viewer), &moving(), T0);
    assert_eq!((out[0].upvoters, out[0].downvoters, out[0].vote), (0, 1, Some(Vote::Down)));
    plane.vote_message(1, viewer, false);
    let out = list(&mut plane, Some(viewer), &moving(), T0);
    assert_eq!((out[0].upvoters, out[0].downvoters, out[0].vote), (0, 0, None));

    plane.vote_message(1, 10, false);
    plane.vote_message(1, 11, true);
    let out = list(&mut plane, Some(viewer), &moving(), T0);
    assert_eq!((out[0].upvoters, out[0].downvoters, out[0].vote), (1, 1, None));
    let out = list(&mut plane, None, &moving(), T0);
    assert_eq!(out[0].vote, None);
    let out = list(&mut plane, Some(10), &moving(), T0);
    assert_eq!(out[0].vote, Some(Vote::Down));
}

#[test]
fn vote_on_missing_message_changes_nothing() {
    let mut plane = Plane::new(Config::default());
    plane.add_message_at(incoming(1, 7, "x", moving(), T0), T0);
    plane.vote_message(2, 9, true);
    let out = list(&mut plane, Some(9), &moving(), T0);
    assert_eq!((out[0].upvoters, out[0].downvoters, out[0].vote), (0, 0, None));
}

#[test]
fn store_keeps_newest_below_capacity() {
    let config = Config { max_messages_in_memory: 3, ..Config::default() };
    let mut plane = Plane::new(config);
    for i in 0..5u128 {
        plane.add_message_at(incoming(i, 7, "m", moving(), T0 + i as i64), T0 + i as i64);
    }
    let out = list(&mut plane, None, &moving(), T0 + 5);
    // the store drops its oldest once it reaches its capacity
    let ids: Vec<u128> = out.iter().map(|m| m.id).collect();
    assert_eq!(ids, vec![3, 4]);
}

#[test]
fn expired_messages_are_never_listed() {
    let mut plane = Plane::new(Config::default());
    plane.add_message_at(incoming(1, 7, "old", moving(), T0), T0);
    plane.add_message_at(incoming(2, 7, "new", moving(), T0 + 5 * MINUTE), T0 + 5 * MINUTE);
    let out = list(&mut plane, None, &moving(), T0 + 10 * MINUTE - 1);
    assert_eq!(out.len(), 2);
    let out = list(&mut plane, None, &moving(), T0 + 10 * MINUTE);
    let ids: Vec<u128> = out.iter().map(|m| m.id).collect();
    assert_eq!(ids, vec![2]);
    // gone for good, even listed with an earlier clock
    let out = list(&mut plane, None, &moving(), T0);
    assert_eq!(out.len(), 1);
}

#[test]
fn listing_is_oldest_first() {
    let mut plane = Plane::new(Config::default());
    plane.add_message_at(incoming(1, 7, "b", moving(), T0 + 2000), T0 + 3000);
    plane.add_message_at(incoming(2, 7, "a", moving(), T0 + 1000), T0 + 3000);
    plane.add_message_at(incoming(3, 7, "c", moving(), T0 + 3000), T0 + 3000);
    let out = list(&mut plane, None, &moving(), T0 + 3000);
    let ids: Vec<u128> = out.iter().map(|m| m.id).collect();
    assert_eq!(ids, vec![2, 1, 3]);
}

#[test]
fn listing_filters_by_proximity() {
    let mut plane = Plane::new(Config::default());
    let here = moving();
    let far = Trace::new(at(11.0, 53.5), mps(10.0), 0);
    let turned = Trace::new(at(10.0, 53.5), mps(10.0), 90_000);
    let parked = Trace::new(at(10.0, 53.5), 0, 0);
    plane.add_message_at(incoming(1, 7, "near", here, T0), T0);
    plane.add_message_at(incoming(2, 7, "far", far, T0), T0);
    plane.add_message_at(incoming(3, 7, "turned", turned, T0), T0);
    plane.add_message_at(incoming(4, 7, "parked", parked, T0), T0);
    let out = list(&mut plane, None, &here, T0);
    let ids: Vec<u128> = out.iter().map(|m| m.id).collect();
    assert_eq!(ids, vec![1]);
    let out = list(&mut plane, None, &parked, T0);
    assert!(out.is_empty());
}

#[test]
fn end_to_end_hamburg() {
    let mut plane = Plane::new(Config::default());
    let author = Trace::new(at(53.5522, 9.9949), mps(12.0), 0);
    plane.add_message_at(incoming(1, 100, "hello", author, T0), T0);

    let viewer = Trace::new(at(53.5556, 10.0002), mps(6.0), 0);
    let out = list(&mut plane, Some(200), &viewer, T0 + 1000);
    assert_eq!(out.len(), 1);
    assert_eq!(out[0].text, "hello");
    assert_eq!(out[0].vote, None);

    let viewer = Trace::new(at(53.5640, 10.0159), mps(12.0), 0);
    let out = list(&mut plane, Some(200), &viewer, T0 + 1000);
    assert!(out.is_empty());
}

#[test]
fn message_text_is_cut_and_trimmed() {
    assert_eq!(catenary::store::message_text("  hello  ", 144), "hello");
    assert_eq!(catenary::store::message_text("abcdef", 3), "abc");
    assert_eq!(catenary::store::message_text("ab  cdef", 4), "ab");
    assert_eq!(catenary::store::message_text("äöü", 2), "äö");
    assert_eq!(catenary::store::message_text("   ", 10), "");
}

#[test]
fn incoming_message_is_trimmed_and_fresh() {
    let config = Config { max_message_length: 5, ..Config::default() };
    let a = ChatMessageIn::new(7, " hello world".to_string(), moving(), &config);
    let b = ChatMessageIn::new(7, "hi".to_string(), moving(), &config);
    assert_eq!(a.text, "hell");
    assert_eq!(a.author, 7);
    assert!(a.username.is_none());
    assert_ne!(a.id, b.id);
    assert!(a.timestamp > T0);
}

#[test]
fn clock_based_calls() {
    let mut plane = Plane::new(Config::default());
    let msg = ChatMessageIn::new(7, "now".to_string(), moving(), &Config::default());
    plane.add_message(msg);
    let distances = vec![0u64];
    let out = plane.get_messages(Some(7), &moving(), &distances);
    assert_eq!(out.len(), 1);
    assert_eq!(out[0].text, "now");

    let mut h = LocationHistory::new(Config::default());
    h.add_location(at(10.0, 53.5));
    assert_eq!(
        h.span().err(),
        Some(NoTrace::WaitingForMoreLocations { received_locations: 1, required_locations: 4 })
    );
}

#[test]
fn inbox_skips_repeats_and_stays_bounded() {
    let mut inbox = Inbox::default();
    let msg = |id: u128| ChatMessageOut {
        id,
        username: "u".to_string(),
        text: "t".to_string(),
        upvoters: 0,
        downvoters: 0,
        vote: None,
        timestamp: 0,
    };
    inbox.push(msg(1));
    inbox.push(msg(2));
    inbox.push(msg(1));
    let ids: Vec<u128> = inbox.messages.iter().map(|m| m.id).collect();
    assert_eq!(ids, vec![2, 1]);
    for i in 3..1100u128 {
        inbox.push(msg(i));
    }
    assert_eq!(inbox.messages.len(), 999);
    assert_eq!(inbox.messages[0].id, 1099);
}
