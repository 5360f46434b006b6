//! Properties that hold across calls: of histories, matching, voting and
//! the store's bounds.
use vstd::prelude::*;

use crate::config::Config;
use crate::history::{
    is_recent, recent_samples, span_of, LocationHistory, NoTrace, Point, Sample,
};
use crate::store::{
    current_messages, is_current, listed, listing, projected, shown, MessageOutView, viewer_vote, voted, MessageView,
    PlaneView, Vote, MAX_LISTED_MESSAGES,
};
use crate::trace::{overlaps, Trace};

verus! {

proof fn lemma_filter_all<A>(s: Seq<A>, p: spec_fn(A) -> bool)
    requires
        forall|i: int| 0 <= i < s.len() ==> #[trigger] p(s[i]),
    ensures
        s.filter(p) == s,
    decreases s.len(),
{
    reveal(Seq::filter);
    if s.len() > 0 {
        lemma_filter_all(s.drop_last(), p);
        assert(s.drop_last().push(s.last()) =~= s);
    } else {
        assert(s.filter(p) =~= s);
    }
}

proof fn lemma_filter_holds<A>(s: Seq<A>, p: spec_fn(A) -> bool)
    ensures
        forall|i: int| 0 <= i < s.filter(p).len() ==> #[trigger] p(s.filter(p)[i]),
{
    assert forall|i: int| 0 <= i < s.filter(p).len() implies #[trigger] p(s.filter(p)[i]) by {
        s.lemma_filter_pred(p, i);
    }
}

/// Recording a location never grows a history beyond its size.
pub proof fn law_history_stays_bounded(h: LocationHistory, location: Point, now: i64)
    requires
        h.wf(),
    ensures
        h.added(location, now).locations.len() <= h@.size,
{
}

/// After a span is taken at `now`, every retained sample is younger than
/// the largest age.
pub proof fn law_span_keeps_only_recent(s: Seq<Sample>, now: i64, max_age_seconds: u64)
    ensures
        forall|i: int|
            0 <= i < recent_samples(s, now, max_age_seconds).len() ==> is_recent(
                #[trigger] recent_samples(s, now, max_age_seconds)[i].1,
                now,
                max_age_seconds,
            ),
{
    lemma_filter_holds(s, |x: Sample| is_recent(x.1, now, max_age_seconds));
}

/// With fewer retained samples than the history's size, the history waits
/// for more, reporting how many it holds.
pub proof fn law_waiting_for_more_locations(s: Seq<Sample>, size: usize, min_delta_millis: u64)
    requires
        s.len() < size,
    ensures
        span_of(s, size, min_delta_millis) == Err::<crate::history::Span, NoTrace>(
            NoTrace::WaitingForMoreLocations { received_locations: s.len() as usize, required_locations: size },
        ),
{
}

/// Two traces below the least speed never match; two traces at one place
/// with one bearing and a speed above the least speed match; bearings that
/// differ by exactly the allowed angle do not.
pub proof fn law_overlap_thresholds(a: Trace, b: Trace, distance_mm: u64, config: Config)
    ensures
        a.speed < config.min_speed_millimeters_per_second && b.speed
            < config.min_speed_millimeters_per_second ==> !overlaps(a, b, distance_mm, config),
        a.location == b.location && a.slope == b.slope && a.speed
            > config.min_speed_millimeters_per_second && b.speed
            > config.min_speed_millimeters_per_second && config.trace_match_max_move_seconds > 0
            && config.trace_match_max_slope_diff_millidegrees > 0 ==> overlaps(a, b, 0, config),
        b.slope - a.slope == config.trace_match_max_slope_diff_millidegrees || a.slope - b.slope
            == config.trace_match_max_slope_diff_millidegrees ==> !overlaps(a, b, distance_mm, config),
{
    if a.speed > config.min_speed_millimeters_per_second && config.trace_match_max_move_seconds > 0 {
        assert(a.speed * config.trace_match_max_move_seconds > 0) by (nonlinear_arith)
            requires
                a.speed > 0,
                config.trace_match_max_move_seconds > 0,
        ;
    }
}

/// Voting up twice leaves a viewer who had not voted up without a vote, and
/// the upvoters as they were.
pub proof fn law_upvote_twice_retracts(m: MessageView, viewer: u128)
    requires
        m.upvoters.disjoint(m.downvoters),
        !m.upvoters.contains(viewer),
    ensures
        viewer_vote(voted(voted(m, viewer, true), viewer, true), Some(viewer)) is None,
        voted(voted(m, viewer, true), viewer, true).upvoters == m.upvoters,
        voted(voted(m, viewer, true), viewer, true).upvoters.len() == m.upvoters.len(),
{
    assert(voted(voted(m, viewer, true), viewer, true).upvoters =~= m.upvoters);
}

/// Voting up then down moves the viewer from the upvoters to the
/// downvoters, and no state in between has them on both sides.
pub proof fn law_upvote_then_downvote_switches(m: MessageView, viewer: u128)
    requires
        m.upvoters.disjoint(m.downvoters),
        !m.upvoters.contains(viewer),
    ensures
        voted(m, viewer, true).upvoters.disjoint(voted(m, viewer, true).downvoters),
        voted(m, viewer, true).upvoters.contains(viewer),
        voted(voted(m, viewer, true), viewer, false).upvoters.disjoint(
            voted(voted(m, viewer, true), viewer, false).downvoters,
        ),
        voted(voted(m, viewer, true), viewer, false).downvoters.contains(viewer),
        !voted(voted(m, viewer, true), viewer, false).upvoters.contains(viewer),
        viewer_vote(voted(voted(m, viewer, true), viewer, false), Some(viewer)) == Some(Vote::Down),
{
}

/// A vote keeps the upvoters and downvoters of a message apart.
pub proof fn law_vote_keeps_sides_apart(m: MessageView, viewer: u128, up: bool)
    requires
        m.upvoters.disjoint(m.downvoters),
    ensures
        voted(m, viewer, up).upvoters.disjoint(voted(m, viewer, up).downvoters),
{
}

/// Storing into a store that keeps fewer messages than its capacity, when
/// nothing has expired, keeps the newest messages: all of them while they
/// fit, else one fewer than the capacity.
pub proof fn law_store_keeps_newest(p: PlaneView, m: MessageView, now: i64)
    requires
        p.wf(),
        p.config.max_messages_in_memory >= 1,
        p.messages.len() < p.config.max_messages_in_memory,
        is_current(m.timestamp, now, p.config.max_message_age_minutes),
        forall|i: int|
            0 <= i < p.messages.len() ==> is_current(
                #[trigger] p.messages[i].timestamp,
                now,
                p.config.max_message_age_minutes,
            ),
    ensures
        p.added(m, now) == (seq![m] + p.messages).take(p.added(m, now).len() as int),
        p.added(m, now).len() == if p.messages.len() + 1 < p.config.max_messages_in_memory {
            p.messages.len() + 1 as int
        } else {
            p.config.max_messages_in_memory - 1
        },
{
    let s = seq![m] + p.messages;
    let age = p.config.max_message_age_minutes;
    assert forall|i: int| 0 <= i < s.len() implies #[trigger] is_current(s[i].timestamp, now, age) by {
        if i > 0 {
            assert(s[i] == p.messages[i - 1]);
        }
    }
    lemma_filter_all(s, |x: MessageView| is_current(x.timestamp, now, age));
    assert(current_messages(s, now, age) == s);
    assert(s.take(s.len() as int) =~= s);
    assert(s.drop_last() =~= s.take(s.len() - 1));
}

/// A message stored at `now` into an empty store with room for it is then
/// the only message listed to a viewer it is shown to, with its own text
/// and display name and without a vote.
pub proof fn law_stored_message_is_listed(
    p: PlaneView,
    msg: MessageView,
    now: i64,
    distance_mm: u64,
    viewer: Trace,
    user: Option<u128>,
)
    requires
        p.wf(),
        p.messages.len() == 0,
        p.config.max_messages_in_memory >= 2,
        msg.upvoters == Set::<u128>::empty(),
        msg.downvoters == Set::<u128>::empty(),
        shown(msg, distance_mm, viewer, now, p.config),
    ensures
        p.added(msg, now) == seq![msg],
        listing(p.added(msg, now), seq![distance_mm], viewer, user, now, p.config) == seq![
            projected(msg, user),
        ],
        projected(msg, user).text == msg.text,
        projected(msg, user).username == msg.username,
        projected(msg, user).vote is None,
{
    let s = seq![msg] + p.messages;
    assert(s =~= seq![msg]);
    lemma_filter_all(s, |x: MessageView| is_current(x.timestamp, now, p.config.max_message_age_minutes));
    let ds = seq![distance_mm];
    assert(listed(seq![msg], ds, 0, viewer, user, now, p.config) =~= Seq::<MessageOutView>::empty());
    assert(listed(seq![msg], ds, 1, viewer, user, now, p.config) =~= seq![projected(msg, user)]);
}

/// Every message a store keeps after expiring at `now` is current.
pub proof fn law_kept_messages_are_current(s: Seq<MessageView>, now: i64, max_age_minutes: i64)
    ensures
        forall|i: int|
            0 <= i < current_messages(s, now, max_age_minutes).len() ==> is_current(
                #[trigger] current_messages(s, now, max_age_minutes)[i].timestamp,
                now,
                max_age_minutes,
            ),
{
    lemma_filter_holds(s, |m: MessageView| is_current(m.timestamp, now, max_age_minutes));
}

proof fn lemma_listed_from_current(
    ms: Seq<MessageView>,
    ds: Seq<u64>,
    n: int,
    viewer: Trace,
    user: Option<u128>,
    now: i64,
    config: Config,
)
    requires
        0 <= n <= ms.len(),
    ensures
        forall|k: int|
            0 <= k < listed(ms, ds, n, viewer, user, now, config).len() ==> exists|i: int|
                0 <= i < n && is_current(ms[i].timestamp, now, config.max_message_age_minutes)
                    && #[trigger] listed(ms, ds, n, viewer, user, now, config)[k] == projected(ms[i], user),
    decreases n,
{
    if n > 0 {
        lemma_listed_from_current(ms, ds, n - 1, viewer, user, now, config);
        let r = listed(ms, ds, n - 1, viewer, user, now, config);
        let l = listed(ms, ds, n, viewer, user, now, config);
        assert forall|k: int| 0 <= k < l.len() implies exists|i: int|
            0 <= i < n && is_current(ms[i].timestamp, now, config.max_message_age_minutes)
                && #[trigger] l[k] == projected(ms[i], user) by {
            if k < r.len() {
                assert(l[k] == r[k]);
                let i = choose|i: int|
                    0 <= i < n - 1 && is_current(ms[i].timestamp, now, config.max_message_age_minutes)
                        && #[trigger] r[k] == projected(ms[i], user);
                assert(0 <= i < n && l[k] == projected(ms[i], user));
            } else {
                assert(l[k] == projected(ms[n - 1], user));
            }
        }
    }
}

/// A message that is not current at `now` is never listed: each listed
/// message is the projection of a current one.
pub proof fn law_listing_shows_only_current(
    ms: Seq<MessageView>,
    ds: Seq<u64>,
    viewer: Trace,
    user: Option<u128>,
    now: i64,
    config: Config,
)
    ensures
        forall|k: int|
            0 <= k < listing(ms, ds, viewer, user, now, config).len() ==> exists|i: int|
                0 <= i < ms.len() && is_current(ms[i].timestamp, now, config.max_message_age_minutes)
                    && #[trigger] listing(ms, ds, viewer, user, now, config)[k] == projected(ms[i], user),
{
    lemma_listed_from_current(ms, ds, ms.len() as int, viewer, user, now, config);
    let all = listed(ms, ds, ms.len() as int, viewer, user, now, config);
    let l = listing(ms, ds, viewer, user, now, config);
    assert forall|k: int| 0 <= k < l.len() implies exists|i: int|
        0 <= i < ms.len() && is_current(ms[i].timestamp, now, config.max_message_age_minutes)
            && #[trigger] l[k] == projected(ms[i], user) by {
        assert(l[k] == all[k]);
    }
}

} // verus!
