//! The path aggregator: consumes an event sequence, maintains the
//! stack of currently open elements, and counts one occurrence per
//! full nesting path for every start tag — and, when asked, for every
//! self-closing tag too. An optional threshold on sequence numbers
//! stops consumption early with a partial result.

use vstd::prelude::*;

use crate::counter::{bump_spec, PathCounter};
use crate::event::{EventKind, EventModel};
use crate::raw::{decoded_of, raw_parse};
use crate::tokenizer::{
    document_events, lemma_emit_seqs, open_document, Status, Step, Tokenizer, TokenizerModel,
    TruncationReason,
};

verus! {

/// An end event observed with no corresponding open element: the
/// aggregation fails deterministically instead of underflowing its
/// stack.
#[derive(Debug)]
pub struct StructuralError {
    /// The sequence number of the unmatched end event.
    pub seq: u64,
    /// The name the unmatched end event carried.
    pub name: String,
}

/// How an aggregation run ended.
#[derive(Clone, Copy, PartialEq, Eq, Structural, Debug)]
pub enum Outcome {
    /// The event sequence ended at the genuine end of the document.
    Completed,
    /// The event sequence ended early, for the reason carried.
    Truncated(TruncationReason),
    /// The sequence-number threshold was reached; the counts are a
    /// partial result.
    Stopped,
}

/// A finished aggregation: the counter and how the run ended.
#[derive(Debug)]
pub struct Aggregation {
    pub counter: PathCounter,
    pub outcome: Outcome,
    /// How many elements were still open when consumption ended: 0
    /// for a well-formed, fully consumed document. The underlying
    /// parser reports a document cut off inside a tag as a clean end,
    /// so this is what still tells such an input apart.
    pub open_depth: usize,
}

/// The state an aggregation run ends in: the remaining open-element
/// stack with the accumulated counts, or the first unmatched end
/// event.
pub enum AggRun {
    Finished { stack: Seq<Seq<char>>, counts: Map<Seq<Seq<char>>, nat> },
    Unmatched { seq: u64, name: Seq<char> },
}

/// Whether an event lies beyond the threshold.
pub open spec fn exceeds(e: EventModel, limit: Option<u64>) -> bool {
    limit matches Some(k) && e.seq > k
}

/// The prefix of the events up to, and not including, the first one
/// beyond the threshold.
pub open spec fn within_limit(events: Seq<EventModel>, limit: Option<u64>) -> Seq<EventModel>
    decreases events.len(),
{
    if events.len() == 0 {
        events
    } else if exceeds(events.first(), limit) {
        Seq::<EventModel>::empty()
    } else {
        seq![events.first()] + within_limit(events.drop_first(), limit)
    }
}

/// Whether consumption stops at the threshold rather than at the end
/// of the events.
pub open spec fn limit_hit(events: Seq<EventModel>, limit: Option<u64>) -> bool
    decreases events.len(),
{
    if events.len() == 0 {
        false
    } else if exceeds(events.first(), limit) {
        true
    } else {
        limit_hit(events.drop_first(), limit)
    }
}

/// Runs the stack machine over the events: a start pushes its name
/// and counts the resulting path, an end pops (or fails when nothing
/// is open), a self-closing tag counts its path without a lasting
/// push when `count_empty` is set, and text changes nothing.
pub open spec fn agg_run(
    events: Seq<EventModel>,
    stack: Seq<Seq<char>>,
    counts: Map<Seq<Seq<char>>, nat>,
    count_empty: bool,
) -> AggRun
    decreases events.len(),
{
    if events.len() == 0 {
        AggRun::Finished { stack, counts }
    } else {
        let e = events.first();
        let rest = events.drop_first();
        match e.kind {
            EventKind::Start => agg_run(
                rest,
                stack.push(e.value),
                bump_spec(counts, stack.push(e.value)),
                count_empty,
            ),
            EventKind::End => if stack.len() == 0 {
                AggRun::Unmatched { seq: e.seq, name: e.value }
            } else {
                agg_run(rest, stack.drop_last(), counts, count_empty)
            },
            EventKind::Empty => agg_run(
                rest,
                stack,
                if count_empty {
                    bump_spec(counts, stack.push(e.value))
                } else {
                    counts
                },
                count_empty,
            ),
            EventKind::Text => agg_run(rest, stack, counts, count_empty),
        }
    }
}

/// The outcome a terminal status maps to.
pub open spec fn end_outcome(st: Status) -> Outcome {
    match st {
        Status::Completed => Outcome::Completed,
        Status::Truncated(r) => Outcome::Truncated(r),
    }
}

/// What aggregation promises: the stack machine's run over the events
/// within the threshold decides the result — its counts on success,
/// with the run stopped early exactly when the threshold was hit, or
/// the first unmatched end event on failure.
pub open spec fn aggregate_ensures(
    pre: TokenizerModel,
    limit: Option<u64>,
    count_empty: bool,
    r: Result<Aggregation, StructuralError>,
) -> bool {
    let evs = pre.events();
    match agg_run(
        within_limit(evs, limit),
        Seq::<Seq<char>>::empty(),
        Map::<Seq<Seq<char>>, nat>::empty(),
        count_empty,
    ) {
        AggRun::Unmatched { seq, name } => (r matches Err(e) && e.seq == seq && e.name@ == name),
        AggRun::Finished { stack, counts } => (r matches Ok(a) && a.counter.wf() && a.counter@
            == counts && a.open_depth == stack.len() && a.outcome == (if limit_hit(evs, limit) {
            Outcome::Stopped
        } else {
            end_outcome(pre.status())
        })),
    }
}

/// Consumes the tokenizer's remaining events and counts occurrences
/// per nesting path, stopping early at the optional sequence-number
/// threshold.
pub fn aggregate_events(tok: &mut Tokenizer, limit: Option<u64>, count_empty: bool) -> (r: Result<
    Aggregation,
    StructuralError,
>)
    ensures
        aggregate_ensures(old(tok)@, limit, count_empty, r),
{
    let mut counter = PathCounter::new();
    let mut stack: Vec<String> = Vec::new();
    let ghost evs0 = old(tok)@.events();
    let ghost target = agg_run(
        within_limit(evs0, limit),
        Seq::<Seq<char>>::empty(),
        Map::<Seq<Seq<char>>, nat>::empty(),
        count_empty,
    );
    proof {
        assert(stack.deep_view() =~= Seq::<Seq<char>>::empty());
    }
    loop
        invariant
            counter.wf(),
            evs0 == old(tok)@.events(),
            target == agg_run(
                within_limit(evs0, limit),
                Seq::<Seq<char>>::empty(),
                Map::<Seq<Seq<char>>, nat>::empty(),
                count_empty,
            ),
            target == agg_run(
                within_limit(tok@.events(), limit),
                stack.deep_view(),
                counter@,
                count_empty,
            ),
            limit_hit(evs0, limit) == limit_hit(tok@.events(), limit),
            tok@.status() == old(tok)@.status(),
            forall|k: Seq<Seq<char>>| #[trigger]
                counter@.contains_key(k) ==> counter@[k] <= tok@.count,
        decreases tok@.events().len(),
    {
        let ghost pre = tok@;
        proof {
            if !pre.finished {
                lemma_emit_seqs(pre.raws, pre.count);
            }
        }
        let step = tok.next();
        match step {
            Step::Done => {
                proof {
                    assert(pre.events().len() == 0);
                    assert(within_limit(pre.events(), limit) == pre.events());
                    assert(target == AggRun::Finished {
                        stack: stack.deep_view(),
                        counts: counter@,
                    });
                    assert(!limit_hit(pre.events(), limit));
                    assert(pre.status() == Status::Completed);
                }
                let open_depth: usize = stack.len();
                return Ok(Aggregation { counter, outcome: Outcome::Completed, open_depth });
            },
            Step::Truncated(reason) => {
                proof {
                    assert(pre.events().len() == 0);
                    assert(within_limit(pre.events(), limit) == pre.events());
                    assert(target == AggRun::Finished {
                        stack: stack.deep_view(),
                        counts: counter@,
                    });
                    assert(!limit_hit(pre.events(), limit));
                    assert(pre.status() == Status::Truncated(reason));
                }
                let open_depth: usize = stack.len();
                return Ok(Aggregation { counter, outcome: Outcome::Truncated(reason), open_depth });
            },
            Step::Item(e) => {
                proof {
                    assert(pre.events().first() == e@);
                    assert(pre.events().drop_first() == tok@.events());
                }
                let over: bool = match limit {
                    Some(k) => e.seq > k,
                    None => false,
                };
                if over {
                    proof {
                        assert(within_limit(pre.events(), limit) =~= Seq::<EventModel>::empty());
                    }
                    let open_depth: usize = stack.len();
                    return Ok(Aggregation { counter, outcome: Outcome::Stopped, open_depth });
                }
                proof {
                    assert(within_limit(pre.events(), limit) == seq![e@] + within_limit(
                        tok@.events(),
                        limit,
                    ));
                    assert((seq![e@] + within_limit(tok@.events(), limit)).drop_first()
                        =~= within_limit(tok@.events(), limit));
                    assert((seq![e@] + within_limit(tok@.events(), limit)).first() == e@);
                }
                match e.kind {
                    EventKind::Start => {
                        let ghost sdv = stack.deep_view();
                        stack.push(e.value);
                        proof {
                            assert(stack.deep_view() =~= sdv.push(e.value@));
                        }
                        counter.bump(&stack);
                    },
                    EventKind::End => {
                        if stack.len() == 0 {
                            proof {
                                assert(stack.deep_view().len() == stack@.len());
                                assert(target == AggRun::Unmatched {
                                    seq: e@.seq,
                                    name: e@.value,
                                });
                            }
                            return Err(StructuralError { seq: e.seq, name: e.value });
                        }
                        let ghost sdv = stack.deep_view();
                        stack.pop();
                        proof {
                            assert(stack.deep_view() =~= sdv.drop_last());
                        }
                    },
                    EventKind::Empty => {
                        if count_empty {
                            let ghost sdv = stack.deep_view();
                            stack.push(e.value);
                            proof {
                                assert(stack.deep_view() =~= sdv.push(e.value@));
                            }
                            counter.bump(&stack);
                            stack.pop();
                            proof {
                                assert(stack.deep_view() =~= sdv);
                            }
                        }
                    },
                    EventKind::Text => {},
                }
            },
        }
    }
}

/// The run of the stack machine that a document's bytes determine.
pub open spec fn document_counts(bytes: Seq<u8>, limit: Option<u64>, count_empty: bool) -> AggRun {
    agg_run(
        within_limit(document_events(bytes), limit),
        Seq::<Seq<char>>::empty(),
        Map::<Seq<Seq<char>>, nat>::empty(),
        count_empty,
    )
}

/// Opens the document's bytes and aggregates its whole event
/// sequence, as one self-contained call.
pub fn aggregate_bytes(bytes: Vec<u8>, limit: Option<u64>, count_empty: bool) -> (r: Result<
    Aggregation,
    StructuralError,
>)
    ensures
        aggregate_ensures(
            TokenizerModel { raws: raw_parse(decoded_of(bytes@)), count: 0, finished: false },
            limit,
            count_empty,
            r,
        ),
{
    let mut tok = open_document(bytes);
    aggregate_events(&mut tok, limit, count_empty)
}

} // verus!
