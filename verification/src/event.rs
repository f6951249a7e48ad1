//! The structural events the tokenizer emits.

use vstd::prelude::*;

verus! {

/// Classification of one parsed markup unit.
#[derive(Clone, Copy, PartialEq, Eq, Structural, Debug)]
pub enum EventKind {
    /// A start tag that is not self-closing.
    Start,
    /// A matching close tag.
    End,
    /// A self-closing tag.
    Empty,
    /// Character data between tags, unescaped and trimmed.
    Text,
}

/// One emitted event: a monotonic sequence number, a kind, and the
/// element's local name or the trimmed text content.
#[derive(Debug)]
pub struct Event {
    pub seq: u64,
    pub kind: EventKind,
    pub value: String,
}

/// The mathematical shape of an event.
pub struct EventModel {
    pub seq: u64,
    pub kind: EventKind,
    pub value: Seq<char>,
}

impl View for Event {
    type V = EventModel;

    open spec fn view(&self) -> EventModel {
        EventModel { seq: self.seq, kind: self.kind, value: self.value@ }
    }
}

impl Event {
    /// The kind as the literal name used at the caller-facing
    /// boundary: `start`, `end`, `empty` or `text`.
    pub fn kind_name(&self) -> (r: String)
        ensures
            r@ == kind_name_spec(self.kind),
    {
        let s: &str = match self.kind {
            EventKind::Start => "start",
            EventKind::End => "end",
            EventKind::Empty => "empty",
            EventKind::Text => "text",
        };
        s.to_owned()
    }
}

pub open spec fn kind_name_spec(k: EventKind) -> Seq<char> {
    match k {
        EventKind::Start => "start"@,
        EventKind::End => "end"@,
        EventKind::Empty => "empty"@,
        EventKind::Text => "text"@,
    }
}

} // verus!
