//! Laws of the library, stated over the same spec functions its
//! contracts use and proved once and for all.

use vstd::prelude::*;

use crate::aggregate::{agg_run, document_counts, within_limit, AggRun};
use crate::event::{EventKind, EventModel};
use crate::raw::RawItem;
use crate::text::{lemma_trim_idempotent, trim_spec};
use crate::tokenizer::{document_events, document_status, emit_from};

verus! {

/// How many events of one kind a sequence holds.
pub open spec fn count_kind(events: Seq<EventModel>, k: EventKind) -> nat
    decreases events.len(),
{
    if events.len() == 0 {
        0
    } else {
        (if events.first().kind == k {
            1nat
        } else {
            0nat
        }) + count_kind(events.drop_first(), k)
    }
}

/// Running the stack machine to completion changes the stack's length
/// by the number of start events minus the number of end events;
/// self-closing tags and text never move it.
pub proof fn lemma_stack_balance(
    events: Seq<EventModel>,
    stack: Seq<Seq<char>>,
    counts: Map<Seq<Seq<char>>, nat>,
    count_empty: bool,
)
    ensures
        match agg_run(events, stack, counts, count_empty) {
            AggRun::Finished { stack: fstack, counts: fcounts } => fstack.len() + count_kind(
                events,
                EventKind::End,
            ) == stack.len() + count_kind(events, EventKind::Start),
            AggRun::Unmatched { .. } => true,
        },
    decreases events.len(),
{
    if events.len() > 0 {
        let e = events.first();
        let rest = events.drop_first();
        match e.kind {
            EventKind::Start => {
                lemma_stack_balance(
                    rest,
                    stack.push(e.value),
                    crate::counter::bump_spec(counts, stack.push(e.value)),
                    count_empty,
                );
            },
            EventKind::End => {
                if stack.len() > 0 {
                    lemma_stack_balance(rest, stack.drop_last(), counts, count_empty);
                }
            },
            EventKind::Empty => {
                lemma_stack_balance(
                    rest,
                    stack,
                    if count_empty {
                        crate::counter::bump_spec(counts, stack.push(e.value))
                    } else {
                        counts
                    },
                    count_empty,
                );
            },
            EventKind::Text => {
                lemma_stack_balance(rest, stack, counts, count_empty);
            },
        }
    }
}

/// For a well-formed event sequence — one the stack machine finishes
/// with an empty final stack, as it does immediately after the final
/// event of a well-formed document — the count of start events equals
/// the count of end events.
pub proof fn lemma_balanced_counts(events: Seq<EventModel>, count_empty: bool)
    requires
        agg_run(
            events,
            Seq::<Seq<char>>::empty(),
            Map::<Seq<Seq<char>>, nat>::empty(),
            count_empty,
        ) matches AggRun::Finished { stack: fstack, counts: _ } && fstack.len() == 0,
    ensures
        count_kind(events, EventKind::Start) == count_kind(events, EventKind::End),
{
    lemma_stack_balance(
        events,
        Seq::<Seq<char>>::empty(),
        Map::<Seq<Seq<char>>, nat>::empty(),
        count_empty,
    );
}

/// With no threshold, consumption takes in every event.
pub proof fn lemma_no_limit_consumes_all(events: Seq<EventModel>)
    ensures
        within_limit(events, None) == events,
    decreases events.len(),
{
    if events.len() > 0 {
        lemma_no_limit_consumes_all(events.drop_first());
        assert(seq![events.first()] + events.drop_first() =~= events);
    }
}

/// A document whose whole event sequence runs the stack machine down
/// to an empty stack — a well-formed document — carries as many start
/// events as end events.
pub proof fn lemma_document_balanced_counts(bytes: Seq<u8>, count_empty: bool)
    requires
        document_counts(bytes, None, count_empty) matches AggRun::Finished {
            stack: fstack,
            counts: _,
        } && fstack.len() == 0,
    ensures
        count_kind(document_events(bytes), EventKind::Start) == count_kind(
            document_events(bytes),
            EventKind::End,
        ),
{
    lemma_no_limit_consumes_all(document_events(bytes));
    lemma_balanced_counts(document_events(bytes), count_empty);
}

/// Whitespace-only character data never produces a text event: every
/// text event the tokenizer emits carries a nonempty value that
/// trimming leaves as it is.
pub proof fn lemma_text_events_trimmed(raws: Seq<RawItem>, count: u64)
    ensures
        forall|i: int|
            0 <= i < emit_from(raws, count).0.len() && (#[trigger] emit_from(raws, count).0[i]).kind
                == EventKind::Text ==> emit_from(raws, count).0[i].value.len() > 0 && emit_from(
                raws,
                count,
            ).0[i].value == trim_spec(emit_from(raws, count).0[i].value),
    decreases raws.len(),
{
    if raws.len() > 0 {
        let rest = raws.drop_first();
        match raws.first() {
            RawItem::Skip => lemma_text_events_trimmed(rest, count),
            RawItem::Malformed => {},
            RawItem::Text { text } => {
                if trim_spec(text).len() == 0 {
                    lemma_text_events_trimmed(rest, count);
                } else if count != u64::MAX {
                    lemma_trim_idempotent(text);
                    lemma_text_events_trimmed(rest, (count + 1) as u64);
                }
            },
            RawItem::Tag { kind, name } => {
                if vstd::utf8::valid_utf8(crate::text::local_name_spec(name)) && count
                    != u64::MAX {
                    lemma_text_events_trimmed(rest, (count + 1) as u64);
                }
            },
        }
    }
}

/// The events of one document carry strictly increasing sequence
/// numbers.
pub proof fn lemma_document_events_increasing(bytes: Seq<u8>)
    ensures
        forall|i: int, j: int|
            0 <= i < j < document_events(bytes).len() ==> (#[trigger] document_events(
                bytes,
            )[i]).seq < (#[trigger] document_events(bytes)[j]).seq,
{
    crate::tokenizer::lemma_emit_seqs(
        crate::raw::raw_parse(crate::raw::decoded_of(bytes)),
        0,
    );
}

/// With a threshold `k` over events whose sequence numbers increase
/// strictly, consumption takes in exactly the events with sequence
/// number at most `k` and leaves out all those beyond it: the boundary
/// is exact at `k`.
pub proof fn lemma_threshold_exact(events: Seq<EventModel>, k: u64)
    requires
        forall|i: int, j: int|
            0 <= i < j < events.len() ==> (#[trigger] events[i]).seq < (#[trigger] events[j]).seq,
    ensures
        within_limit(events, Some(k)) == events.filter(|e: EventModel| e.seq <= k),
    decreases events.len(),
{
    reveal(Seq::filter);
    let pred = |e: EventModel| e.seq <= k;
    if events.len() == 0 {
        assert(events.filter(pred) =~= events);
    } else {
        let rest = events.drop_first();
        lemma_threshold_exact(rest, k);
        assert(events =~= seq![events.first()] + rest);
        Seq::<EventModel>::filter_distributes_over_add(seq![events.first()], rest, pred);
        assert(seq![events.first()].drop_last() =~= Seq::<EventModel>::empty());
        assert(Seq::<EventModel>::empty().filter(pred) =~= Seq::<EventModel>::empty());
        if events.first().seq > k {
            assert(seq![events.first()].filter(pred) =~= Seq::<EventModel>::empty());
            lemma_all_over_filter_empty(rest, k);
        } else {
            assert(seq![events.first()].filter(pred) =~= seq![events.first()]);
        }
    }
}

proof fn lemma_all_over_filter_empty(events: Seq<EventModel>, k: u64)
    requires
        forall|i: int| 0 <= i < events.len() ==> (#[trigger] events[i]).seq > k,
    ensures
        events.filter(|e: EventModel| e.seq <= k) == Seq::<EventModel>::empty(),
    decreases events.len(),
{
    reveal(Seq::filter);
    let pred = |e: EventModel| e.seq <= k;
    if events.len() == 0 {
        assert(events.filter(pred) =~= Seq::<EventModel>::empty());
    } else {
        lemma_all_over_filter_empty(events.drop_last(), k);
    }
}

/// Whitespace-only character data in a document never produces a text
/// event.
pub proof fn lemma_document_text_events(bytes: Seq<u8>)
    ensures
        forall|i: int|
            0 <= i < document_events(bytes).len() && (#[trigger] document_events(bytes)[i]).kind
                == EventKind::Text ==> document_events(bytes)[i].value.len() > 0 && document_events(
                bytes,
            )[i].value == trim_spec(document_events(bytes)[i].value),
{
    lemma_text_events_trimmed(crate::raw::raw_parse(crate::raw::decoded_of(bytes)), 0);
}

/// Given threshold `k`, aggregating a document consumes exactly its
/// events with sequence number at most `k`.
pub proof fn lemma_document_threshold_exact(bytes: Seq<u8>, k: u64)
    ensures
        within_limit(document_events(bytes), Some(k)) == document_events(bytes).filter(
            |e: EventModel| e.seq <= k,
        ),
{
    lemma_document_events_increasing(bytes);
    lemma_threshold_exact(document_events(bytes), k);
}

/// Two independent open-and-aggregate runs over the same bytes come
/// out identical: the run is a function of the input bytes, the
/// threshold and the empty-counting choice alone, and independently
/// opened tokenizers share no state.
pub proof fn lemma_aggregation_deterministic(
    b1: Seq<u8>,
    b2: Seq<u8>,
    limit: Option<u64>,
    count_empty: bool,
)
    requires
        b1 == b2,
    ensures
        document_counts(b1, limit, count_empty) == document_counts(b2, limit, count_empty),
        document_events(b1) == document_events(b2),
        document_status(b1) == document_status(b2),
{
}

} // verus!
