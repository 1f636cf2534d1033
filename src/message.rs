//! Chat messages and the instant at which they were posted.

use vstd::prelude::*;

verus! {

/// An instant: whole seconds since the epoch and the nanoseconds within it.
#[derive(Clone, Copy, Debug, PartialEq, Eq, Structural)]
pub struct Timestamp {
    pub sec: i64,
    pub nsec: i32,
}

impl Timestamp {
    /// Whether `self` is the same instant as `other`, or a later one.
    pub open spec fn spec_at_or_after(self, other: Timestamp) -> bool {
        self.sec > other.sec || (self.sec == other.sec && self.nsec >= other.nsec)
    }

    pub fn at_or_after(&self, other: &Timestamp) -> (r: bool)
        ensures
            r == self.spec_at_or_after(*other),
    {
        self.sec > other.sec || (self.sec == other.sec && self.nsec >= other.nsec)
    }
}

/// Who sent a message: the name the client gave, and the address the
/// server saw the message come from.
#[derive(Debug)]
pub struct Sender {
    pub name: String,
    pub ip: String,
}

/// One chat message. An `id` of 0 means that no store has taken it yet.
#[derive(Debug)]
pub struct ChatMessage {
    pub id: u64,
    pub sender: Sender,
    pub value: String,
    pub time_posted: Timestamp,
}

impl Sender {
    pub fn duplicate(&self) -> (r: Sender)
        ensures
            r == *self,
    {
        Sender { name: self.name.clone(), ip: self.ip.clone() }
    }
}

impl ChatMessage {
    /// The message as a store keeps it: stamped with an id, the sender's
    /// address and the time of posting; name and text as they came.
    pub open spec fn stamped(self, id: u64, ip: String, at: Timestamp) -> ChatMessage {
        ChatMessage {
            id: id,
            sender: Sender { name: self.sender.name, ip: ip },
            value: self.value,
            time_posted: at,
        }
    }

    pub fn duplicate(&self) -> (r: ChatMessage)
        ensures
            r == *self,
    {
        ChatMessage {
            id: self.id,
            sender: self.sender.duplicate(),
            value: self.value.clone(),
            time_posted: self.time_posted,
        }
    }
}

} // verus!
