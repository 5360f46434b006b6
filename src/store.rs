//! The shared store of recent messages ("the plane"): bounded, expiring,
//! filtered by proximity on read, with per-viewer votes.
use vstd::prelude::*;

use std::collections::{HashMap, HashSet};

use vstd::string::StrSliceExecFns;

use crate::config::Config;
use crate::platform::{new_id, next_name, now_millis, trim, trimmed};
use crate::trace::{overlaps, Trace};

verus! {

broadcast use vstd::std_specs::hash::group_hash_axioms;

/// Most messages that one listing returns.
pub const MAX_LISTED_MESSAGES: usize = 10_000;

/// A viewer's own vote on a message.
#[derive(Clone, Copy, Debug, PartialEq, Eq, Structural)]
pub enum Vote {
    Up,
    Down,
}

/// `s` cut to its first `max` characters.
pub open spec fn clipped(s: Seq<char>, max: usize) -> Seq<char> {
    if s.len() > max {
        s.take(max as int)
    } else {
        s
    }
}

/// The text of a message: cut to `max_len` characters, then trimmed.
pub fn message_text(text: &str, max_len: usize) -> (r: String)
    ensures
        r@ == trimmed(clipped(text@, max_len)),
{
    let n = text.unicode_len();
    if n > max_len {
        let part = text.substring_char(0, max_len);
        trim(part)
    } else {
        trim(text)
    }
}

/// A message as its author sent it.
#[derive(Clone, Debug)]
pub struct ChatMessageIn {
    pub id: u128,
    pub author: u128,
    pub username: Option<String>,
    pub text: String,
    pub trace: Trace,
    /// Capture instant, milliseconds since the Unix epoch.
    pub timestamp: i64,
}

impl ChatMessageIn {
    /// A message of `author` with a fresh id, captured now, its text cut to
    /// the longest allowed and trimmed.
    pub fn new(author: u128, text: String, trace: Trace, config: &Config) -> (r: ChatMessageIn)
        ensures
            r.author == author,
            r.username is None,
            r.text@ == trimmed(clipped(text@, config.max_message_length)),
            r.trace == trace,
    {
        let text = message_text(text.as_str(), config.max_message_length);
        ChatMessageIn {
            id: new_id(),
            author,
            username: None,
            text,
            trace,
            timestamp: now_millis(),
        }
    }
}

/// What a stored message holds.
pub ghost struct MessageView {
    pub id: u128,
    pub author: u128,
    pub username: Seq<char>,
    pub text: Seq<char>,
    pub trace: Trace,
    pub upvoters: Set<u128>,
    pub downvoters: Set<u128>,
    pub timestamp: i64,
}

/// A stored message.
#[derive(Debug)]
pub struct ChatMessage {
    pub id: u128,
    pub author: u128,
    pub username: String,
    pub text: String,
    pub trace: Trace,
    pub upvoters: HashSet<u128>,
    pub downvoters: HashSet<u128>,
    pub timestamp: i64,
}

impl View for ChatMessage {
    type V = MessageView;

    open spec fn view(&self) -> MessageView {
        MessageView {
            id: self.id,
            author: self.author,
            username: self.username@,
            text: self.text@,
            trace: self.trace,
            upvoters: self.upvoters@,
            downvoters: self.downvoters@,
            timestamp: self.timestamp,
        }
    }
}

/// The stored form of `msg` under the display name `username`, without votes.
pub open spec fn stored(msg: ChatMessageIn, username: Seq<char>) -> MessageView {
    MessageView {
        id: msg.id,
        author: msg.author,
        username,
        text: msg.text@,
        trace: msg.trace,
        upvoters: Set::empty(),
        downvoters: Set::empty(),
        timestamp: msg.timestamp,
    }
}

impl ChatMessage {
    pub fn from_incoming(msg: ChatMessageIn, username: String) -> (r: ChatMessage)
        ensures
            r@ == stored(msg, username@),
    {
        ChatMessage {
            id: msg.id,
            author: msg.author,
            username,
            text: msg.text,
            trace: msg.trace,
            upvoters: HashSet::new(),
            downvoters: HashSet::new(),
            timestamp: msg.timestamp,
        }
    }
}

/// What a listed message shows.
pub ghost struct MessageOutView {
    pub id: u128,
    pub username: Seq<char>,
    pub text: Seq<char>,
    pub upvoters: nat,
    pub downvoters: nat,
    pub vote: Option<Vote>,
    pub timestamp: i64,
}

/// A message as one viewer sees it.
#[derive(Clone, Debug)]
pub struct ChatMessageOut {
    pub id: u128,
    pub username: String,
    pub text: String,
    /// Number of upvotes.
    pub upvoters: usize,
    /// Number of downvotes.
    pub downvoters: usize,
    /// The viewer's own vote.
    pub vote: Option<Vote>,
    pub timestamp: i64,
}

impl View for ChatMessageOut {
    type V = MessageOutView;

    open spec fn view(&self) -> MessageOutView {
        MessageOutView {
            id: self.id,
            username: self.username@,
            text: self.text@,
            upvoters: self.upvoters as nat,
            downvoters: self.downvoters as nat,
            vote: self.vote,
            timestamp: self.timestamp,
        }
    }
}

/// The vote of `viewer` on `m`: none for an unknown viewer.
pub open spec fn viewer_vote(m: MessageView, viewer: Option<u128>) -> Option<Vote> {
    match viewer {
        Some(v) => if m.upvoters.contains(v) {
            Some(Vote::Up)
        } else if m.downvoters.contains(v) {
            Some(Vote::Down)
        } else {
            None
        },
        None => None,
    }
}

/// `m` as `viewer` sees it.
pub open spec fn projected(m: MessageView, viewer: Option<u128>) -> MessageOutView {
    MessageOutView {
        id: m.id,
        username: m.username,
        text: m.text,
        upvoters: m.upvoters.len(),
        downvoters: m.downvoters.len(),
        vote: viewer_vote(m, viewer),
        timestamp: m.timestamp,
    }
}

impl ChatMessageOut {
    /// `msg` as `viewer` sees it.
    pub fn project(msg: &ChatMessage, viewer: Option<u128>) -> (r: ChatMessageOut)
        ensures
            r@ == projected(msg@, viewer),
    {
        let vote = match viewer {
            Some(v) => if msg.upvoters.contains(&v) {
                Some(Vote::Up)
            } else if msg.downvoters.contains(&v) {
                Some(Vote::Down)
            } else {
                None
            },
            None => None,
        };
        ChatMessageOut {
            id: msg.id,
            username: msg.username.clone(),
            text: msg.text.clone(),
            upvoters: msg.upvoters.len(),
            downvoters: msg.downvoters.len(),
            vote,
            timestamp: msg.timestamp,
        }
    }
}

/// A message captured at `timestamp` is younger than `max_age_minutes` at `now`.
pub open spec fn is_current(timestamp: i64, now: i64, max_age_minutes: i64) -> bool {
    now - timestamp < max_age_minutes * 60_000
}

/// The messages of `s` still current at `now`, in their order.
pub open spec fn current_messages(s: Seq<MessageView>, now: i64, max_age_minutes: i64) -> Seq<
    MessageView,
> {
    s.filter(|m: MessageView| is_current(m.timestamp, now, max_age_minutes))
}

/// The views of a sequence of stored messages.
pub open spec fn views(s: Seq<ChatMessage>) -> Seq<MessageView> {
    s.map_values(|m: ChatMessage| m@)
}

proof fn lemma_skip_step<A>(a: Seq<A>, b: Seq<A>, i: int, j: int)
    requires
        0 <= i < a.len(),
        0 <= j <= b.len(),
        a.skip(i) == b.skip(j),
    ensures
        a.skip(i + 1) == b.skip(j + 1),
{
    assert(a.skip(i).len() == b.skip(j).len());
    assert(a.skip(i).len() == a.len() - i);
    assert(b.skip(j).len() == b.len() - j);
    assert(j < b.len());
    assert forall|k: int| 0 <= k < a.skip(i + 1).len() implies #[trigger] a.skip(i + 1)[k] == b.skip(j + 1)[k] by {
        assert(a.skip(i + 1)[k] == a[i + 1 + k]);
        assert(a.skip(i)[k + 1] == a[i + k + 1]);
        assert(b.skip(j)[k + 1] == b[j + k + 1]);
        assert(a.skip(i)[k + 1] == b.skip(j)[k + 1]);
    }
    assert(a.skip(i + 1) =~= b.skip(j + 1));
}

/// Whether a viewer at `viewer` is shown `m`, lying `distance_mm` away, at `now`.
pub open spec fn shown(m: MessageView, distance_mm: u64, viewer: Trace, now: i64, config: Config) -> bool {
    &&& is_current(m.timestamp, now, config.max_message_age_minutes)
    &&& overlaps(viewer, m.trace, distance_mm, config)
}

/// The shown messages among the first `n` of `ms`, as `user` sees them,
/// newest first; `ds[i]` is the distance to `ms[i]`.
pub open spec fn listed(
    ms: Seq<MessageView>,
    ds: Seq<u64>,
    n: int,
    viewer: Trace,
    user: Option<u128>,
    now: i64,
    config: Config,
) -> Seq<MessageOutView>
    decreases n,
{
    if n <= 0 {
        seq![]
    } else {
        let r = listed(ms, ds, n - 1, viewer, user, now, config);
        if shown(ms[n - 1], ds[n - 1], viewer, now, config) {
            r.push(projected(ms[n - 1], user))
        } else {
            r
        }
    }
}

/// The newest shown messages of `ms`, at most `MAX_LISTED_MESSAGES` of them.
pub open spec fn listing(
    ms: Seq<MessageView>,
    ds: Seq<u64>,
    viewer: Trace,
    user: Option<u128>,
    now: i64,
    config: Config,
) -> Seq<MessageOutView> {
    let all = listed(ms, ds, ms.len() as int, viewer, user, now, config);
    if all.len() > MAX_LISTED_MESSAGES {
        all.take(MAX_LISTED_MESSAGES as int)
    } else {
        all
    }
}

/// Ordered by timestamp, oldest first.
pub open spec fn oldest_first(s: Seq<MessageOutView>) -> bool {
    forall|i: int, j: int| 0 <= i < j < s.len() ==> #[trigger] s[i].timestamp <= #[trigger] s[j].timestamp
}

/// The views of a sequence of listed messages.
pub open spec fn out_views(s: Seq<ChatMessageOut>) -> Seq<MessageOutView> {
    s.map_values(|m: ChatMessageOut| m@)
}

proof fn lemma_listed_grows(
    ms: Seq<MessageView>,
    ds: Seq<u64>,
    i: int,
    j: int,
    viewer: Trace,
    user: Option<u128>,
    now: i64,
    config: Config,
)
    requires
        0 <= i <= j,
    ensures
        listed(ms, ds, i, viewer, user, now, config).len() <= listed(ms, ds, j, viewer, user, now, config).len(),
        listed(ms, ds, j, viewer, user, now, config).take(listed(ms, ds, i, viewer, user, now, config).len() as int)
            == listed(ms, ds, i, viewer, user, now, config),
    decreases j - i,
{
    let a = listed(ms, ds, i, viewer, user, now, config);
    if i == j {
        assert(a.take(a.len() as int) =~= a);
    } else {
        lemma_listed_grows(ms, ds, i, j - 1, viewer, user, now, config);
        let b = listed(ms, ds, j - 1, viewer, user, now, config);
        let c = listed(ms, ds, j, viewer, user, now, config);
        assert(c.take(a.len() as int) =~= b.take(a.len() as int));
    }
}

/// Relies on `slice::sort_by_key`: sorts by timestamp, keeping the elements.
#[verifier::external_body]
fn sort_by_timestamp(v: &mut Vec<ChatMessageOut>)
    ensures
        out_views(final(v)@).to_multiset() == out_views(old(v)@).to_multiset(),
        oldest_first(out_views(final(v)@)),
{
    v.sort_by_key(|m| m.timestamp);
}

/// `m` after `viewer` votes up (`up`) or down: a repeated vote is taken
/// back, and a vote for one side takes the viewer off the other.
pub open spec fn voted(m: MessageView, viewer: u128, up: bool) -> MessageView {
    if up {
        if m.upvoters.contains(viewer) {
            MessageView { upvoters: m.upvoters.remove(viewer), ..m }
        } else {
            MessageView {
                upvoters: m.upvoters.insert(viewer),
                downvoters: m.downvoters.remove(viewer),
                ..m
            }
        }
    } else {
        if m.downvoters.contains(viewer) {
            MessageView { downvoters: m.downvoters.remove(viewer), ..m }
        } else {
            MessageView {
                downvoters: m.downvoters.insert(viewer),
                upvoters: m.upvoters.remove(viewer),
                ..m
            }
        }
    }
}

/// `k` is the first position of `ms` that holds the message `id`.
pub open spec fn first_with_id(ms: Seq<MessageView>, id: u128, k: int) -> bool {
    &&& 0 <= k < ms.len()
    &&& ms[k].id == id
    &&& forall|j: int| 0 <= j < k ==> #[trigger] ms[j].id != id
}

/// What the store holds.
pub ghost struct PlaneView {
    /// Newest first.
    pub messages: Seq<MessageView>,
    /// The display name of every author seen so far.
    pub usernames: Map<u128, Seq<char>>,
    pub config: Config,
}

/// The bounded, expiring store of recent messages, newest first.
#[derive(Debug)]
pub struct Plane {
    messages: Vec<ChatMessage>,
    author_usernames_by_id: HashMap<u128, String>,
    config: Config,
}

impl View for Plane {
    type V = PlaneView;

    closed spec fn view(&self) -> PlaneView {
        PlaneView {
            messages: views(self.messages@),
            usernames: self.author_usernames_by_id@.map_values(|s: String| s@),
            config: self.config,
        }
    }
}

impl PlaneView {
    /// No more messages than the capacity, and no viewer both up and down
    /// on one message.
    pub open spec fn wf(self) -> bool {
        &&& self.messages.len() <= self.config.max_messages_in_memory
        &&& self.votes_disjoint()
    }

    /// No viewer is both up and down on one message.
    pub open spec fn votes_disjoint(self) -> bool {
        forall|i: int|
            0 <= i < self.messages.len() ==> #[trigger] self.messages[i].upvoters.disjoint(
                self.messages[i].downvoters,
            )
    }

    /// The messages after `m` is stored at `now`: it goes in front, the
    /// expired ones leave, and the oldest leaves when the store is at
    /// capacity.
    pub open spec fn added(self, m: MessageView, now: i64) -> Seq<MessageView> {
        let s = current_messages(seq![m] + self.messages, now, self.config.max_message_age_minutes);
        if s.len() >= self.config.max_messages_in_memory && s.len() > 0 {
            s.drop_last()
        } else {
            s
        }
    }
}

impl Plane {
    pub open spec fn wf(&self) -> bool {
        self@.wf()
    }

    pub fn new(config: Config) -> (r: Plane)
        ensures
            r.wf(),
            r@.messages.len() == 0,
            r@.usernames.is_empty(),
            r@.config == config,
    {
        let r = Plane { messages: Vec::new(), author_usernames_by_id: HashMap::new(), config };
        assert(r@.usernames =~= Map::empty());
        r
    }

    pub fn config(&self) -> (r: &Config)
        ensures
            *r == self@.config,
    {
        &self.config
    }

    /// Drops the messages that are no longer current at `now`.
    fn delete_old_messages(&mut self, now: i64)
        requires
            old(self)@.votes_disjoint(),
        ensures
            final(self)@.votes_disjoint(),
            final(self)@ == (PlaneView {
                messages: current_messages(old(self)@.messages, now, old(self)@.config.max_message_age_minutes),
                ..old(self)@
            }),
    {
        let ghost orig = self@.messages;
        let ghost age = self.config.max_message_age_minutes;
        let mut i: usize = 0;
        let ghost mut j: int = 0;
        while i < self.messages.len()
            invariant
                self.config == old(self).config,
                self.author_usernames_by_id == old(self).author_usernames_by_id,
                age == self.config.max_message_age_minutes,
                orig == old(self)@.messages,
                0 <= i <= self@.messages.len(),
                0 <= j <= orig.len(),
                self@.messages.len() - i == orig.len() - j,
                self@.messages.take(i as int) == current_messages(orig.take(j), now, age),
                self@.messages.skip(i as int) == orig.skip(j),
                forall|k: int|
                    0 <= k < self@.messages.len() ==> #[trigger] self@.messages[k].upvoters.disjoint(
                        self@.messages[k].downvoters,
                    ),
                current_messages(orig.take(j), now, age).len() <= j,
            decreases self.messages.len() - i,
        {
            let keep: bool = (now as i128) - (self.messages[i].timestamp as i128) < (
            self.config.max_message_age_minutes as i128) * 60_000;
            let ghost before = self@.messages;
            proof {
                assert(orig.take(j + 1).drop_last() =~= orig.take(j));
                assert(orig[j] == before[i as int]) by {
                    assert(before.skip(i as int)[0] == orig.skip(j)[0]);
                }
                assert(orig.take(j + 1).last() == orig[j]);
                reveal(Seq::filter);
            }
            if keep {
                i = i + 1;
                proof {
                    assert(self@.messages.take(i as int) =~= before.take(i - 1).push(before[i - 1]));
                    lemma_skip_step(before, orig, i - 1, j);
                }
            } else {
                self.messages.remove(i);
                proof {
                    assert(self@.messages =~= before.remove(i as int));
                    assert(self@.messages.take(i as int) =~= before.take(i as int));
                    lemma_skip_step(before, orig, i as int, j);
                    assert(self@.messages.skip(i as int) =~= before.skip(i + 1));
                    assert forall|k: int| 0 <= k < self@.messages.len() implies #[trigger] self@.messages[k].upvoters.disjoint(
                        self@.messages[k].downvoters) by {
                        if k < i {
                            assert(self@.messages[k] == before[k]);
                        } else {
                            assert(self@.messages[k] == before[k + 1]);
                        }
                    }
                }
            }
            proof {
                j = j + 1;
            }
        }
        proof {
            assert(self@.messages.skip(i as int).len() == 0);
            assert(j == orig.len());
            assert(orig.take(j) =~= orig);
            assert(self@.messages.take(i as int) =~= self@.messages);
        }
    }

    /// The display name of `author`, drawn from the name generator and kept
    /// on first sight.
    fn username_of(&mut self, author: u128) -> (r: String)
        ensures
            final(self).messages == old(self).messages,
            final(self).config == old(self).config,
            final(self)@.usernames.contains_key(author),
            final(self)@.usernames[author] == r@,
            old(self)@.usernames.contains_key(author) ==> final(self)@.usernames == old(self)@.usernames,
            !old(self)@.usernames.contains_key(author) ==> final(self)@.usernames == old(self)@.usernames.insert(author, r@),
    {
        match self.author_usernames_by_id.get(&author) {
            Some(name) => {
                let r = name.clone();
                assert(self@.usernames[author] == r@);
                r
            },
            None => {
                let name = match next_name() {
                    Some(n) => n,
                    None => "anonymous".to_owned(),
                };
                let r = name.clone();
                self.author_usernames_by_id.insert(author, name);
                assert(self@.usernames =~= old(self)@.usernames.insert(author, r@));
                r
            },
        }
    }

    /// Stores `msg` at `now` under its author's display name.
    pub fn add_message_at(&mut self, msg: ChatMessageIn, now: i64)
        requires
            old(self).wf(),
        ensures
            final(self).wf(),
            final(self)@.config == old(self)@.config,
            final(self)@.usernames.contains_key(msg.author),
            old(self)@.usernames.contains_key(msg.author) ==> final(self)@.usernames == old(self)@.usernames,
            !old(self)@.usernames.contains_key(msg.author) ==> final(self)@.usernames == old(self)@.usernames.insert(
                msg.author,
                final(self)@.usernames[msg.author],
            ),
            final(self)@.messages == old(self)@.added(stored(msg, final(self)@.usernames[msg.author]), now),
    {
        let username = self.username_of(msg.author);
        let ghost named = self@;
        let m = ChatMessage::from_incoming(msg, username);
        let ghost mv = m@;
        self.messages.insert(0, m);
        proof {
            assert(self@.messages =~= seq![mv] + named.messages);
            assert(mv.upvoters =~= Set::empty());
            assert forall|k: int| 0 <= k < self@.messages.len() implies #[trigger] self@.messages[k].upvoters.disjoint(
                self@.messages[k].downvoters) by {
                if k > 0 {
                    assert(self@.messages[k] == named.messages[k - 1]);
                }
            }
        }
        self.delete_old_messages(now);
        proof {
            let s = seq![mv] + named.messages;
            s.lemma_filter_len(|m: MessageView| is_current(m.timestamp, now, named.config.max_message_age_minutes));
        }
        if self.messages.len() >= self.config.max_messages_in_memory && self.messages.len() > 0 {
            let ghost before = self@.messages;
            self.messages.pop();
            assert(self@.messages =~= before.drop_last());
        }
    }

    /// Stores `msg` now under its author's display name.
    pub fn add_message(&mut self, msg: ChatMessageIn)
        requires
            old(self).wf(),
        ensures
            final(self).wf(),
            final(self)@.config == old(self)@.config,
            final(self)@.usernames.contains_key(msg.author),
            old(self)@.usernames.contains_key(msg.author) ==> final(self)@.usernames == old(self)@.usernames,
            exists|now: i64|
                final(self)@.messages == old(self)@.added(stored(msg, final(self)@.usernames[msg.author]), now),
    {
        let now = now_millis();
        self.add_message_at(msg, now);
    }

    /// The locations of the stored messages, newest first: the points that
    /// the distances handed to `get_messages_at` are measured to.
    pub fn message_locations(&self) -> (r: Vec<(i64, i64)>)
        ensures
            r@.len() == self@.messages.len(),
            forall|i: int| 0 <= i < r@.len() ==> #[trigger] r@[i] == self@.messages[i].trace.location,
    {
        let mut r: Vec<(i64, i64)> = Vec::new();
        let mut i: usize = 0;
        while i < self.messages.len()
            invariant
                i <= self.messages.len(),
                r@.len() == i,
                forall|k: int| 0 <= k < i ==> #[trigger] r@[k] == self@.messages[k].trace.location,
            decreases self.messages.len() - i,
        {
            r.push(self.messages[i].trace.location);
            i = i + 1;
        }
        r
    }

    /// Lists, oldest first, the current messages that a viewer at `trace`
    /// is shown, as `user_id` sees them, and drops the expired ones.
    /// `distances[i]` is the distance from `trace` to the `i`-th stored
    /// message.
    pub fn get_messages_at(
        &mut self,
        user_id: Option<u128>,
        trace: &Trace,
        distances: &Vec<u64>,
        now: i64,
    ) -> (r: Vec<ChatMessageOut>)
        requires
            old(self).wf(),
            distances@.len() == old(self)@.messages.len(),
        ensures
            final(self).wf(),
            final(self)@ == (PlaneView {
                messages: current_messages(old(self)@.messages, now, old(self)@.config.max_message_age_minutes),
                ..old(self)@
            }),
            out_views(r@).to_multiset() == listing(
                old(self)@.messages,
                distances@,
                *trace,
                user_id,
                now,
                old(self)@.config,
            ).to_multiset(),
            oldest_first(out_views(r@)),
    {
        let ghost ms = self@.messages;
        let ghost cfg = self.config;
        let mut found: Vec<ChatMessageOut> = Vec::new();
        let mut i: usize = 0;
        while i < self.messages.len() && found.len() < MAX_LISTED_MESSAGES
            invariant
                ms == self@.messages,
                cfg == self.config,
                distances@.len() == ms.len(),
                i <= ms.len(),
                found.len() <= MAX_LISTED_MESSAGES,
                out_views(found@) == listed(ms, distances@, i as int, *trace, user_id, now, cfg),
            decreases ms.len() - i,
        {
            let m = &self.messages[i];
            let current: bool = (now as i128) - (m.timestamp as i128) < (
            self.config.max_message_age_minutes as i128) * 60_000;
            if current && trace.overlaps_with(&m.trace, distances[i], &self.config) {
                let out = ChatMessageOut::project(m, user_id);
                found.push(out);
                assert(out_views(found@) =~= listed(ms, distances@, i as int, *trace, user_id, now, cfg).push(out@));
            }
            i = i + 1;
        }
        proof {
            let all = listed(ms, distances@, ms.len() as int, *trace, user_id, now, cfg);
            lemma_listed_grows(ms, distances@, i as int, ms.len() as int, *trace, user_id, now, cfg);
            if i < ms.len() {
                assert(found.len() == MAX_LISTED_MESSAGES);
                if all.len() == MAX_LISTED_MESSAGES {
                    assert(all.take(MAX_LISTED_MESSAGES as int) =~= all);
                }
            } else {
                assert(i == ms.len());
            }
            assert(out_views(found@) == listing(ms, distances@, *trace, user_id, now, cfg));
        }
        sort_by_timestamp(&mut found);
        self.delete_old_messages(now);
        proof {
            ms.lemma_filter_len(|m: MessageView| is_current(m.timestamp, now, cfg.max_message_age_minutes));
        }
        found
    }

    /// Like `get_messages_at`, at the current instant.
    pub fn get_messages(&mut self, user_id: Option<u128>, trace: &Trace, distances: &Vec<u64>) -> (r:
        Vec<ChatMessageOut>)
        requires
            old(self).wf(),
            distances@.len() == old(self)@.messages.len(),
        ensures
            final(self).wf(),
            exists|now: i64|
                {
                    &&& final(self)@ == (PlaneView {
                        messages: current_messages(old(self)@.messages, now, old(self)@.config.max_message_age_minutes),
                        ..old(self)@
                    })
                    &&& out_views(r@).to_multiset() == listing(
                        old(self)@.messages,
                        distances@,
                        *trace,
                        user_id,
                        now,
                        old(self)@.config,
                    ).to_multiset()
                },
            oldest_first(out_views(r@)),
    {
        let now = now_millis();
        self.get_messages_at(user_id, trace, distances, now)
    }

    /// Records the vote of `user_id` on the first message `id`; nothing
    /// happens when no message has that id.
    pub fn vote_message(&mut self, id: u128, user_id: u128, up: bool)
        requires
            old(self).wf(),
        ensures
            final(self).wf(),
            final(self)@.config == old(self)@.config,
            final(self)@.usernames == old(self)@.usernames,
            (forall|j: int| 0 <= j < old(self)@.messages.len() ==> #[trigger] old(self)@.messages[j].id != id)
                ==> final(self)@.messages == old(self)@.messages,
            forall|k: int|
                first_with_id(old(self)@.messages, id, k) ==> final(self)@.messages == old(self)@.messages.update(
                    k,
                    voted(old(self)@.messages[k], user_id, up),
                ),
    {
        let ghost ms = self@.messages;
        let mut i: usize = 0;
        while i < self.messages.len()
            invariant
                ms == self@.messages,
                i <= ms.len(),
                forall|j: int| 0 <= j < i ==> #[trigger] ms[j].id != id,
            ensures
                ms == self@.messages,
                i <= ms.len(),
                forall|j: int| 0 <= j < i ==> #[trigger] ms[j].id != id,
                i < ms.len() ==> ms[i as int].id == id,
            decreases ms.len() - i,
        {
            if self.messages[i].id == id {
                break;
            }
            i = i + 1;
        }
        if i == self.messages.len() {
            return;
        }
        assert(first_with_id(ms, id, i as int));
        let mut m = self.messages.remove(i);
        assert(m@ == ms[i as int]);
        if up {
            if m.upvoters.contains(&user_id) {
                m.upvoters.remove(&user_id);
            } else {
                m.upvoters.insert(user_id);
                m.downvoters.remove(&user_id);
            }
        } else if m.downvoters.contains(&user_id) {
            m.downvoters.remove(&user_id);
        } else {
            m.downvoters.insert(user_id);
            m.upvoters.remove(&user_id);
        }
        assert(m@ == voted(ms[i as int], user_id, up));
        self.messages.insert(i, m);
        proof {
            assert(self@.messages =~= ms.update(i as int, voted(ms[i as int], user_id, up)));
            assert forall|k: int| first_with_id(ms, id, k) implies k == i by {
                if k < i {
                    assert(ms[k].id != id);
                } else if k > i {
                    assert(ms[i as int].id != id);
                }
            }
            assert(ms[i as int].upvoters.disjoint(ms[i as int].downvoters));
            assert(voted(ms[i as int], user_id, up).upvoters.disjoint(voted(ms[i as int], user_id, up).downvoters));
            assert forall|k: int| 0 <= k < self@.messages.len() implies #[trigger] self@.messages[k].upvoters.disjoint(
                self@.messages[k].downvoters) by {
                if k != i {
                    assert(self@.messages[k] == ms[k]);
                }
            }
        }
    }
}

} // verus!
