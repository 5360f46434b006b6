//! A client's inbox of listed messages, newest first, without repeats.
use vstd::prelude::*;

use crate::store::{out_views, ChatMessageOut, MessageOutView};

verus! {

/// Most messages an inbox keeps.
pub const INBOX_CAPACITY: usize = 999;

/// The inbox after `m` arrives: it goes in front unless a message with its
/// id is already there, and the oldest leaves beyond the capacity.
pub open spec fn received(s: Seq<MessageOutView>, m: MessageOutView) -> Seq<MessageOutView> {
    let t = if exists|i: int| 0 <= i < s.len() && #[trigger] s[i].id == m.id {
        s
    } else {
        seq![m] + s
    };
    if t.len() > INBOX_CAPACITY {
        t.drop_last()
    } else {
        t
    }
}

/// The messages a client has received, newest first.
#[derive(Clone, Debug)]
pub struct Inbox {
    pub messages: Vec<ChatMessageOut>,
}

impl Default for Inbox {
    fn default() -> (r: Inbox)
        ensures
            r.messages@.len() == 0,
    {
        Inbox { messages: Vec::with_capacity(INBOX_CAPACITY + 1) }
    }
}

impl Inbox {
    /// Adds `m` unless a message with its id is there already.
    pub fn push(&mut self, m: ChatMessageOut)
        ensures
            out_views(final(self).messages@) == received(out_views(old(self).messages@), m@),
    {
        let ghost s = out_views(self.messages@);
        let mut seen = false;
        let mut i: usize = 0;
        while i < self.messages.len()
            invariant
                s == out_views(self.messages@),
                i <= self.messages.len(),
                seen <==> exists|k: int| 0 <= k < i && #[trigger] s[k].id == m.id,
            decreases self.messages.len() - i,
        {
            assert(s[i as int].id == self.messages[i as int].id);
            if self.messages[i].id == m.id {
                seen = true;
            }
            i = i + 1;
            assert(seen <==> exists|k: int| 0 <= k < i && #[trigger] s[k].id == m.id) by {
                if seen && !(exists|k: int| 0 <= k < i - 1 && #[trigger] s[k].id == m.id) {
                    assert(s[i - 1].id == m.id);
                }
            }
        }
        if !seen {
            let ghost mv = m@;
            self.messages.insert(0, m);
            assert(out_views(self.messages@) =~= seq![mv] + s);
        }
        if self.messages.len() > INBOX_CAPACITY {
            let ghost before = out_views(self.messages@);
            self.messages.pop();
            assert(out_views(self.messages@) =~= before.drop_last());
        }
    }
}

} // verus!
