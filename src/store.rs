//! The append-only message log and its two cursor queries.

use vstd::prelude::*;
use vstd::set_lib::set_int_range;
use crate::message::{ChatMessage, Timestamp};

verus! {

/// What follows the most recent message whose id is `id`: the messages
/// after it, in order, or all of `s` where no message has that id.
pub open spec fn since_id(s: Seq<ChatMessage>, id: u64) -> Seq<ChatMessage>
    decreases s.len(),
{
    if s.len() == 0 {
        s
    } else if s.last().id == id {
        Seq::empty()
    } else {
        since_id(s.drop_last(), id).push(s.last())
    }
}

/// The messages of `s` posted at `t` or later, in order.
pub open spec fn posted_since(s: Seq<ChatMessage>, t: Timestamp) -> Seq<ChatMessage>
    decreases s.len(),
{
    if s.len() == 0 {
        s
    } else if s.last().time_posted.spec_at_or_after(t) {
        posted_since(s.drop_last(), t).push(s.last())
    } else {
        posted_since(s.drop_last(), t)
    }
}

/// The log of messages, in the order in which they were appended, and the
/// id that the next one will get.
pub struct MessageStore {
    messages: Vec<ChatMessage>,
    next_id: u64,
}

impl View for MessageStore {
    type V = Seq<ChatMessage>;

    closed spec fn view(&self) -> Seq<ChatMessage> {
        self.messages@
    }
}

impl MessageStore {
    /// The id that the next appended message gets.
    pub closed spec fn spec_next_id(&self) -> u64 {
        self.next_id
    }

    /// Ids are handed out from 1 up, one per message, in the order of the log.
    pub closed spec fn wf(&self) -> bool {
        &&& self.next_id as int == self.messages@.len() + 1
        &&& forall|i: int| 0 <= i < self.messages@.len() ==> #[trigger] self.messages@[i].id == i + 1
    }

    pub fn new() -> (r: MessageStore)
        ensures
            r.wf(),
            r@ == Seq::<ChatMessage>::empty(),
            r.spec_next_id() == 1,
    {
        MessageStore { messages: Vec::new(), next_id: 1 }
    }

    pub fn len(&self) -> (r: usize)
        ensures
            r == self@.len(),
    {
        self.messages.len()
    }

    /// Takes `msg` into the log with the next id, the sender's address `ip`
    /// and the time `at`, and returns that id. Once every id has been
    /// handed out it returns `None` and leaves the log as it was.
    pub fn append(&mut self, msg: ChatMessage, ip: String, at: Timestamp) -> (r: Option<u64>)
        requires
            old(self).wf(),
        ensures
            final(self).wf(),
            old(self).spec_next_id() < u64::MAX ==> {
                &&& r == Some(old(self).spec_next_id())
                &&& final(self)@ == old(self)@.push(msg.stamped(old(self).spec_next_id(), ip, at))
                &&& final(self).spec_next_id() == old(self).spec_next_id() + 1
            },
            old(self).spec_next_id() == u64::MAX ==> r is None && *final(self) == *old(self),
    {
        if self.next_id == u64::MAX {
            return None;
        }
        let id = self.next_id;
        let stored = ChatMessage {
            id: id,
            sender: crate::message::Sender { name: msg.sender.name, ip: ip },
            value: msg.value,
            time_posted: at,
        };
        self.messages.push(stored);
        self.next_id = id + 1;
        Some(id)
    }

    /// Everything after the most recent message with id `id`, in order; all
    /// messages where none has that id.
    pub fn suffix_since_id(&self, id: u64) -> (r: Vec<ChatMessage>)
        ensures
            r@ == since_id(self@, id),
    {
        let s = Ghost(self.messages@);
        let len = self.messages.len();
        let mut start: usize = len;
        assert(s@.take(len as int) =~= s@);
        assert(since_id(s@, id) + s@.subrange(len as int, len as int) =~= since_id(s@, id));
        while start > 0 && self.messages[start - 1].id != id
            invariant
                s@ == self.messages@,
                len == s@.len(),
                start <= len,
                since_id(s@, id) == since_id(s@.take(start as int), id) + s@.subrange(start as int, len as int),
            decreases start,
        {
            proof {
                let t = s@.take(start as int);
                assert(t.drop_last() =~= s@.take(start - 1));
                assert(s@.subrange(start - 1, len as int) =~= seq![t.last()] + s@.subrange(start as int, len as int));
                assert(since_id(s@.take(start - 1), id).push(t.last()) + s@.subrange(start as int, len as int)
                    =~= since_id(s@.take(start - 1), id) + s@.subrange(start - 1, len as int));
            }
            start = start - 1;
        }
        proof {
            assert(since_id(s@.take(start as int), id) =~= Seq::empty());
        }
        let mut r: Vec<ChatMessage> = Vec::new();
        let mut i: usize = start;
        while i < len
            invariant
                s@ == self.messages@,
                len == s@.len(),
                start <= i <= len,
                r@ == s@.subrange(start as int, i as int),
            decreases len - i,
        {
            r.push(self.messages[i].duplicate());
            assert(r@ =~= s@.subrange(start as int, i + 1));
            i = i + 1;
        }
        assert(r@ =~= since_id(s@, id));
        r
    }

    /// The messages posted at `t` or later, in order.
    pub fn suffix_since_time(&self, t: Timestamp) -> (r: Vec<ChatMessage>)
        ensures
            r@ == posted_since(self@, t),
    {
        let s = Ghost(self.messages@);
        let len = self.messages.len();
        let mut r: Vec<ChatMessage> = Vec::new();
        let mut i: usize = 0;
        while i < len
            invariant
                s@ == self.messages@,
                len == s@.len(),
                i <= len,
                r@ == posted_since(s@.take(i as int), t),
            decreases len - i,
        {
            assert(s@.take(i + 1).drop_last() =~= s@.take(i as int));
            if self.messages[i].time_posted.at_or_after(&t) {
                r.push(self.messages[i].duplicate());
            }
            i = i + 1;
        }
        assert(s@.take(len as int) =~= s@);
        r
    }
}

/// Whether the messages of `s` carry the ids 1, 2, 3, ... in order.
pub open spec fn numbered_in_order(s: Seq<ChatMessage>) -> bool {
    forall|i: int| 0 <= i < s.len() ==> #[trigger] s[i].id == i + 1
}

proof fn lemma_since_id_numbered(s: Seq<ChatMessage>, id: u64)
    requires
        numbered_in_order(s),
    ensures
        1 <= id <= s.len() ==> since_id(s, id) == s.subrange(id as int, s.len() as int),
        !(1 <= id <= s.len()) ==> since_id(s, id) == s,
    decreases s.len(),
{
    if s.len() > 0 {
        let d = s.drop_last();
        assert(numbered_in_order(d));
        lemma_since_id_numbered(d, id);
        if s.last().id == id {
            assert(s.subrange(id as int, s.len() as int) =~= Seq::<ChatMessage>::empty());
        } else {
            assert(s.last().id == s.len());
            if 1 <= id <= s.len() {
                assert(d.subrange(id as int, d.len() as int).push(s.last()) =~= s.subrange(id as int, s.len() as int));
            } else {
                assert(d.push(s.last()) =~= s);
            }
        }
    } else {
        assert(since_id(s, id) == s);
    }
}

/// Every state of a store holds its messages numbered 1, 2, ..., N in the
/// order of the log, and the next message gets N + 1: the ids handed out
/// are exactly 1..=N, none twice, none skipped, and 0 never.
pub proof fn lemma_ids_are_positions(store: &MessageStore)
    requires
        store.wf(),
    ensures
        numbered_in_order(store@),
        store@.map_values(|m: ChatMessage| m.id as int).to_set() == set_int_range(1, store@.len() as int + 1),
        forall|i: int, j: int| 0 <= i < j < store@.len() ==> store@[i].id != store@[j].id,
        store.spec_next_id() == store@.len() + 1,
{
    let ids = store@.map_values(|m: ChatMessage| m.id as int);
    assert forall|x: int| ids.to_set().contains(x) <==> set_int_range(1, store@.len() as int + 1).contains(x) by {
        if 1 <= x < store@.len() + 1 {
            assert(ids[x - 1] == x);
        }
        if ids.to_set().contains(x) {
            let i = choose|i: int| 0 <= i < ids.len() && ids[i] == x;
            assert(store@[i].id == i + 1);
        }
    }
    assert(ids.to_set() =~= set_int_range(1, store@.len() as int + 1));
}

/// Asking for what follows a message of the store gives exactly the
/// messages after it; asking with 0, or with an id the store never gave
/// out, gives the whole log.
pub proof fn lemma_cursor_by_id(store: &MessageStore, id: u64)
    requires
        store.wf(),
    ensures
        1 <= id <= store@.len() ==> since_id(store@, id) == store@.subrange(id as int, store@.len() as int),
        id == 0 || id > store@.len() ==> since_id(store@, id) == store@,
{
    lemma_since_id_numbered(store@, id);
}

/// Asking by time gives exactly the messages posted at that time or later,
/// each once, in the order of the log.
pub proof fn lemma_cursor_by_time(s: Seq<ChatMessage>, t: Timestamp)
    ensures
        posted_since(s, t) == s.filter(|m: ChatMessage| m.time_posted.spec_at_or_after(t)),
    decreases s.len(),
{
    reveal(Seq::filter);
    if s.len() > 0 {
        lemma_cursor_by_time(s.drop_last(), t);
    }
}

} // verus!
