use xml_iterator::counter::clone_path;
use xml_iterator::counter::path_eq;
use xml_iterator::counter::PathCounter;

use xml_iterator::aggregate::aggregate_bytes;
use xml_iterator::aggregate::aggregate_events;
use xml_iterator::aggregate::Aggregation;
use xml_iterator::aggregate::Outcome;
use xml_iterator::tokenizer::open_document;
use xml_iterator::tokenizer::TruncationReason;

fn path(names: &[&str]) -> Vec<String> {
    names.iter().map(|s| s.to_string()).collect()
}

fn must_aggregate(bytes: &[u8], limit: Option<u64>, count_empty: bool) -> Aggregation {
    aggregate_bytes(bytes.to_vec(), limit, count_empty).expect("aggregation must succeed")
}

#[test]
fn nested_document_counts() {
    let agg = must_aggregate(b"<a><b/><b>x</b></a>", None, false);
    assert_eq!(agg.outcome, Outcome::Completed);
    assert_eq!(agg.counter.len(), 2);
    assert_eq!(agg.counter.get(&path(&["a"])), Some(1));
    assert_eq!(agg.counter.get(&path(&["a", "b"])), Some(1));
}

#[test]
fn empty_elements_counted_when_asked() {
    let agg = must_aggregate(b"<a><b/><b>x</b></a>", None, true);
    assert_eq!(agg.outcome, Outcome::Completed);
    assert_eq!(agg.counter.len(), 2);
    assert_eq!(agg.counter.get(&path(&["a"])), Some(1));
    assert_eq!(agg.counter.get(&path(&["a", "b"])), Some(2));
}

#[test]
fn lone_empty_element_yields_empty_counter() {
    let agg = must_aggregate(b"<a/>", None, false);
    assert_eq!(agg.outcome, Outcome::Completed);
    assert_eq!(agg.counter.len(), 0);
    assert_eq!(agg.counter.get(&path(&["a"])), None);

    let counted = must_aggregate(b"<a/>", None, true);
    assert_eq!(counted.counter.len(), 1);
    assert_eq!(counted.counter.get(&path(&["a"])), Some(1));
}

#[test]
fn threshold_boundary_is_exact() {
    // Events: start a (0), empty b (1), start b (2), text (3),
    // end b (4), end a (5).
    let doc: &[u8] = b"<a><b/><b>x</b></a>";

    // Threshold 1: only the events numbered 0 and 1 are taken in.
    let agg = must_aggregate(doc, Some(1), false);
    assert_eq!(agg.outcome, Outcome::Stopped);
    assert_eq!(agg.counter.len(), 1);
    assert_eq!(agg.counter.get(&path(&["a"])), Some(1));

    // Threshold 2: the event numbered 2 is included as well.
    let agg = must_aggregate(doc, Some(2), false);
    assert_eq!(agg.outcome, Outcome::Stopped);
    assert_eq!(agg.counter.len(), 2);
    assert_eq!(agg.counter.get(&path(&["a", "b"])), Some(1));

    // A threshold beyond the last event changes nothing and the run
    // completes.
    let agg = must_aggregate(doc, Some(5), false);
    assert_eq!(agg.outcome, Outcome::Completed);
    assert_eq!(agg.counter.len(), 2);
    assert_eq!(agg.counter.get(&path(&["a"])), Some(1));
    assert_eq!(agg.counter.get(&path(&["a", "b"])), Some(1));
}

#[test]
fn independent_runs_agree() {
    let doc: &[u8] = b"<r><a><b>t</b></a><a/><c></c></r>";
    let first = must_aggregate(doc, None, true);
    let second = must_aggregate(doc, None, true);
    assert_eq!(first.outcome, second.outcome);
    assert_eq!(first.counter.len(), second.counter.len());
    for (p, count) in first.counter.into_entries() {
        assert_eq!(second.counter.get(&p), Some(count));
    }
}

#[test]
fn unmatched_end_is_a_structural_error() {
    let err = aggregate_bytes(b"</a>".to_vec(), None, false)
        .expect_err("an unmatched end must fail");
    assert_eq!(err.seq, 0);
    assert_eq!(err.name, "a");
}

#[test]
fn unmatched_end_after_balanced_prefix() {
    let err = aggregate_bytes(b"<a></a></b>".to_vec(), None, false)
        .expect_err("an unmatched end must fail");
    assert_eq!(err.seq, 2);
    assert_eq!(err.name, "b");
}

#[test]
fn truncated_document_aggregates_partially() {
    let agg = must_aggregate(b"<a><!-- never closed", None, false);
    assert_eq!(agg.outcome, Outcome::Truncated(TruncationReason::Markup));
    assert_eq!(agg.counter.len(), 1);
    assert_eq!(agg.counter.get(&path(&["a"])), Some(1));
    assert_eq!(agg.open_depth, 1);
}

#[test]
fn input_cut_inside_a_tag_still_leaves_elements_open() {
    // The underlying parser reports an input cut off inside a tag as
    // a clean end of the stream — the residual blind spot — but the
    // open-element depth still tells such a document apart from a
    // well-formed one.
    let agg = must_aggregate(b"<a><b", None, false);
    assert_eq!(agg.outcome, Outcome::Completed);
    assert_eq!(agg.open_depth, 2);

    let well_formed = must_aggregate(b"<a><b></b></a>", None, false);
    assert_eq!(well_formed.outcome, Outcome::Completed);
    assert_eq!(well_formed.open_depth, 0);
}

#[test]
fn aggregating_an_open_sequence() {
    let mut tok = open_document(b"<a><b/><b>x</b></a>".to_vec());
    let agg = aggregate_events(&mut tok, None, false).expect("aggregation must succeed");
    assert_eq!(agg.outcome, Outcome::Completed);
    assert_eq!(agg.counter.get(&path(&["a"])), Some(1));
    assert_eq!(agg.counter.get(&path(&["a", "b"])), Some(1));
}

#[test]
fn entries_carry_the_mapping() {
    let agg = must_aggregate(b"<a><b/><b>x</b></a>", None, false);
    let entries = agg.counter.into_entries();
    assert_eq!(entries.len(), 2);
    assert!(entries.contains(&(path(&["a"]), 1)));
    assert!(entries.contains(&(path(&["a", "b"]), 1)));
}

#[test]
fn paths_compare_by_their_names() {
    let a = path(&["x", "y"]);
    let b = path(&["x", "y"]);
    let c = path(&["x", "z"]);
    assert!(path_eq(&a, &b));
    assert!(!path_eq(&a, &c));
    assert!(!path_eq(&a, &path(&["x"])));
}

#[test]
fn cloned_paths_compare_equal() {
    let a = path(&["x", "y"]);
    let b = clone_path(&a);
    assert!(path_eq(&a, &b));
    assert_eq!(a, b);
}

#[test]
fn counter_records_occurrences() {
    let mut c = PathCounter::new();
    assert_eq!(c.len(), 0);
    let p = path(&["a"]);
    c.bump(&p);
    c.bump(&p);
    assert_eq!(c.get(&p), Some(2));
    assert_eq!(c.len(), 1);
    assert_eq!(c.get(&path(&["b"])), None);
}

#[test]
fn deep_nesting_counts_each_path() {
    let agg = must_aggregate(b"<a><b><c/></b><b><c>y</c></b></a>", None, true);
    assert_eq!(agg.outcome, Outcome::Completed);
    assert_eq!(agg.counter.len(), 3);
    assert_eq!(agg.counter.get(&path(&["a"])), Some(1));
    assert_eq!(agg.counter.get(&path(&["a", "b"])), Some(2));
    assert_eq!(agg.counter.get(&path(&["a", "b", "c"])), Some(2));
}
