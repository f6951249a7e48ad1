//! The event tokenizer: a single-pass, pull-driven scanner over the
//! decoded byte stream. Each pull advances the scan until it can
//! classify one meaningful unit or the stream ends, and emits events
//! with a monotonic sequence number starting at 0.

use vstd::prelude::*;
use vstd::utf8::{decode_utf8, valid_utf8};
use std::io::Cursor;
use quick_xml::Reader;

use crate::event::{Event, EventKind, EventModel};
use crate::raw::{
    decode_to_utf8, decoded_of, new_reader, raw_parse, raw_stream, read_raw, utf8_string, RawEvent,
    RawItem, TagKind,
};
use crate::text::{local_name, local_name_spec, trim, trim_spec};

verus! {

/// Why a sequence ended before the genuine end of its document.
#[derive(Clone, Copy, PartialEq, Eq, Structural, Debug)]
pub enum TruncationReason {
    /// The input could not be parsed as markup at this point.
    Markup,
    /// An element name was not valid UTF-8.
    Encoding,
    /// The sequence counter reached its machine limit.
    SequenceLimit,
}

/// How a sequence of events ends: the genuine end of the document, or
/// an early end carrying its reason.
#[derive(Clone, Copy, PartialEq, Eq, Structural, Debug)]
pub enum Status {
    Completed,
    Truncated(TruncationReason),
}

/// One pull from the tokenizer: the next event, the clean end of the
/// sequence, or an early, distinguishable end. After a terminal step
/// every further pull answers `Done`.
#[derive(Debug)]
pub enum Step {
    Item(Event),
    Done,
    Truncated(TruncationReason),
}

/// The event kind a raw tag of the given sort produces.
pub open spec fn tag_event_kind(k: TagKind) -> EventKind {
    match k {
        TagKind::Start => EventKind::Start,
        TagKind::End => EventKind::End,
        TagKind::Empty => EventKind::Empty,
    }
}

/// The events that the remaining raw units produce, numbered from
/// `count` on, together with how the sequence ends: skipped units and
/// whitespace-only text produce nothing, tags carry their decoded
/// local name, and a malformed unit or an undecodable name ends the
/// sequence early.
pub open spec fn emit_from(raws: Seq<RawItem>, count: u64) -> (Seq<EventModel>, Status)
    decreases raws.len(),
{
    if raws.len() == 0 {
        (Seq::<EventModel>::empty(), Status::Completed)
    } else {
        let rest = raws.drop_first();
        match raws.first() {
            RawItem::Skip => emit_from(rest, count),
            RawItem::Malformed => (
                Seq::<EventModel>::empty(),
                Status::Truncated(TruncationReason::Markup),
            ),
            RawItem::Text { text } => {
                let t = trim_spec(text);
                if t.len() == 0 {
                    emit_from(rest, count)
                } else if count == u64::MAX {
                    (Seq::<EventModel>::empty(), Status::Truncated(TruncationReason::SequenceLimit))
                } else {
                    let tail = emit_from(rest, (count + 1) as u64);
                    (
                        seq![EventModel { seq: count, kind: EventKind::Text, value: t }] + tail.0,
                        tail.1,
                    )
                }
            },
            RawItem::Tag { kind, name } => {
                let local = local_name_spec(name);
                if !valid_utf8(local) {
                    (Seq::<EventModel>::empty(), Status::Truncated(TruncationReason::Encoding))
                } else if count == u64::MAX {
                    (Seq::<EventModel>::empty(), Status::Truncated(TruncationReason::SequenceLimit))
                } else {
                    let tail = emit_from(rest, (count + 1) as u64);
                    (
                        seq![
                            EventModel {
                                seq: count,
                                kind: tag_event_kind(kind),
                                value: decode_utf8(local),
                            },
                        ] + tail.0,
                        tail.1,
                    )
                }
            },
        }
    }
}

/// The events of a tokenizer are numbered consecutively from its
/// counter on.
pub proof fn lemma_emit_seqs(raws: Seq<RawItem>, count: u64)
    ensures
        forall|i: int|
            0 <= i < emit_from(raws, count).0.len() ==> (#[trigger] emit_from(raws, count).0[i]).seq
                == count + i,
    decreases raws.len(),
{
    if raws.len() > 0 {
        let rest = raws.drop_first();
        match raws.first() {
            RawItem::Skip => lemma_emit_seqs(rest, count),
            RawItem::Malformed => {},
            RawItem::Text { text } => {
                if trim_spec(text).len() == 0 {
                    lemma_emit_seqs(rest, count);
                } else if count != u64::MAX {
                    lemma_emit_seqs(rest, (count + 1) as u64);
                }
            },
            RawItem::Tag { kind, name } => {
                if valid_utf8(local_name_spec(name)) && count != u64::MAX {
                    lemma_emit_seqs(rest, (count + 1) as u64);
                }
            },
        }
    }
}

/// The mathematical state of a tokenizer: the raw units still to be
/// read, the next sequence number, and whether a terminal step was
/// already taken.
pub struct TokenizerModel {
    pub raws: Seq<RawItem>,
    pub count: u64,
    pub finished: bool,
}

impl TokenizerModel {
    /// The events this tokenizer will still emit.
    pub open spec fn events(self) -> Seq<EventModel> {
        if self.finished {
            Seq::<EventModel>::empty()
        } else {
            emit_from(self.raws, self.count).0
        }
    }

    /// How this tokenizer's sequence will end.
    pub open spec fn status(self) -> Status {
        if self.finished {
            Status::Completed
        } else {
            emit_from(self.raws, self.count).1
        }
    }
}

/// What one pull promises: either the sequence is exhausted and the
/// step reports its terminal status, or the head event is emitted and
/// the tokenizer moves on to the tail.
pub open spec fn next_ensures(pre: TokenizerModel, post: TokenizerModel, step: Step) -> bool {
    if pre.events().len() == 0 {
        &&& (match pre.status() {
            Status::Completed => step == Step::Done,
            Status::Truncated(r) => step == Step::Truncated(r),
        })
        &&& post.finished
    } else {
        &&& (step matches Step::Item(e) && e@ == pre.events().first())
        &&& !post.finished
        &&& post.count == pre.events().first().seq + 1
        &&& post.events() == pre.events().drop_first()
        &&& post.status() == pre.status()
    }
}

/// A single-pass scanner over one in-memory document. It owns its
/// input exclusively; independently opened tokenizers share nothing.
pub struct Tokenizer {
    reader: Reader<Cursor<Vec<u8>>>,
    count: u64,
    finished: bool,
}

impl View for Tokenizer {
    type V = TokenizerModel;

    closed spec fn view(&self) -> TokenizerModel {
        TokenizerModel {
            raws: raw_stream(self.reader),
            count: self.count,
            finished: self.finished,
        }
    }
}

impl Tokenizer {
    /// Pulls the next event. The scanner does no work until asked, and
    /// skipped units (comments, processing instructions, declarations,
    /// document types, CDATA markers, whitespace-only text) consume no
    /// sequence number.
    pub fn next(&mut self) -> (step: Step)
        ensures
            next_ensures(old(self)@, final(self)@, step),
    {
        if self.finished {
            return Step::Done;
        }
        loop
            invariant
                !self.finished,
                !old(self)@.finished,
                self@.count == old(self)@.count,
                emit_from(self@.raws, self@.count) == emit_from(old(self)@.raws, old(self)@.count),
            decreases self@.raws.len(),
        {
            let ghost prev = self@;
            let raw = read_raw(&mut self.reader);
            match raw {
                RawEvent::Eof => {
                    self.finished = true;
                    return Step::Done;
                },
                RawEvent::Malformed => {
                    self.finished = true;
                    return Step::Truncated(TruncationReason::Markup);
                },
                RawEvent::Skip => {
                    proof {
                        assert(prev.raws.len() > 0);
                    }
                },
                RawEvent::Text(t) => {
                    let trimmed = trim(t.as_str());
                    if !trimmed.as_str().is_empty() {
                        if self.count == u64::MAX {
                            self.finished = true;
                            return Step::Truncated(TruncationReason::SequenceLimit);
                        }
                        let s: u64 = self.count;
                        self.count = s + 1;
                        let e = Event { seq: s, kind: EventKind::Text, value: trimmed };
                        proof {
                            let evs = emit_from(prev.raws, prev.count).0;
                            assert(evs.drop_first() =~= emit_from(self@.raws, self@.count).0);
                        }
                        return Step::Item(e);
                    }
                },
                RawEvent::Tag(k, name) => {
                    let local = local_name(&name);
                    match utf8_string(local.as_slice()) {
                        None => {
                            self.finished = true;
                            return Step::Truncated(TruncationReason::Encoding);
                        },
                        Some(v) => {
                            if self.count == u64::MAX {
                                self.finished = true;
                                return Step::Truncated(TruncationReason::SequenceLimit);
                            }
                            let s: u64 = self.count;
                            self.count = s + 1;
                            let ek = match k {
                                TagKind::Start => EventKind::Start,
                                TagKind::End => EventKind::End,
                                TagKind::Empty => EventKind::Empty,
                            };
                            let e = Event { seq: s, kind: ek, value: v };
                            proof {
                                let evs = emit_from(prev.raws, prev.count).0;
                                assert(evs.drop_first() =~= emit_from(self@.raws, self@.count).0);
                            }
                            return Step::Item(e);
                        },
                    }
                },
            }
        }
    }
}

/// The events a document's bytes produce, through decoding, parsing
/// and tokenization.
pub open spec fn document_events(bytes: Seq<u8>) -> Seq<EventModel> {
    emit_from(raw_parse(decoded_of(bytes)), 0).0
}

/// How the event sequence of a document's bytes ends.
pub open spec fn document_status(bytes: Seq<u8>) -> Status {
    emit_from(raw_parse(decoded_of(bytes)), 0).1
}

/// Opens a tokenizer over the raw bytes of one document: the decoding
/// reader normalizes them to UTF-8, and scanning starts at sequence
/// number 0. Each call builds a fresh, independent scanner.
pub fn open_document(bytes: Vec<u8>) -> (t: Tokenizer)
    ensures
        t@.raws == raw_parse(decoded_of(bytes@)),
        t@.count == 0,
        !t@.finished,
        t@.events() == document_events(bytes@),
        t@.status() == document_status(bytes@),
{
    let decoded = decode_to_utf8(&bytes);
    Tokenizer { reader: new_reader(decoded), count: 0, finished: false }
}

} // verus!
