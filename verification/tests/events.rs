use xml_iterator::tokenizer::open_document;
use xml_iterator::tokenizer::Step;
use xml_iterator::tokenizer::TruncationReason;

/// Pulls every event, returning (sequence number, kind name, value)
/// triples and whether the sequence completed cleanly.
fn collect(bytes: &[u8]) -> (Vec<(u64, String, String)>, bool) {
    let mut tok = open_document(bytes.to_vec());
    let mut out: Vec<(u64, String, String)> = Vec::new();
    loop {
        match tok.next() {
            Step::Item(e) => out.push((e.seq, e.kind_name(), e.value)),
            Step::Done => return (out, true),
            Step::Truncated(_) => return (out, false),
        }
    }
}

fn triples(raw: &[(u64, &str, &str)]) -> Vec<(u64, String, String)> {
    raw.iter().map(|(n, k, v)| (*n, k.to_string(), v.to_string())).collect()
}

#[test]
fn nested_document_event_sequence() {
    let (events, completed) = collect(b"<a><b/><b>x</b></a>");
    assert!(completed);
    assert_eq!(
        events,
        triples(&[
            (0, "start", "a"),
            (1, "empty", "b"),
            (2, "start", "b"),
            (3, "text", "x"),
            (4, "end", "b"),
            (5, "end", "a"),
        ])
    );
}

#[test]
fn whitespace_only_text_produces_no_event() {
    let (events, completed) = collect(b"<a>  \n\t\r   </a>");
    assert!(completed);
    assert_eq!(events, triples(&[(0, "start", "a"), (1, "end", "a")]));
}

#[test]
fn text_is_unescaped_and_trimmed() {
    let (events, completed) = collect(b"<a>  1 &amp; 2  </a>");
    assert!(completed);
    assert_eq!(
        events,
        triples(&[(0, "start", "a"), (1, "text", "1 & 2"), (2, "end", "a")])
    );
}

#[test]
fn namespace_prefix_is_stripped() {
    let (events, completed) = collect(b"<x:a><x:b/></x:a>");
    assert!(completed);
    assert_eq!(
        events,
        triples(&[(0, "start", "a"), (1, "empty", "b"), (2, "end", "a")])
    );
}

#[test]
fn skipped_units_consume_no_sequence_numbers() {
    let (events, completed) =
        collect(b"<?xml version=\"1.0\"?><!-- note --><a><![CDATA[ignored]]></a>");
    assert!(completed);
    assert_eq!(events, triples(&[(0, "start", "a"), (1, "end", "a")]));
}

#[test]
fn empty_input_completes_cleanly() {
    let (events, completed) = collect(b"");
    assert!(completed);
    assert!(events.is_empty());
}

#[test]
fn truncated_document_is_distinguished_from_clean_end() {
    let (events, completed) = collect(b"<a><!-- never closed");
    assert!(!completed);
    assert_eq!(events, triples(&[(0, "start", "a")]));

    let (_, well_formed_completed) = collect(b"<a><b></b></a>");
    assert!(well_formed_completed);
}

#[test]
fn truncation_carries_markup_reason() {
    let mut tok = open_document(b"<a>x &nosuch; y</a>".to_vec());
    loop {
        match tok.next() {
            Step::Item(_) => continue,
            Step::Truncated(reason) => {
                assert_eq!(reason, TruncationReason::Markup);
                break;
            }
            Step::Done => panic!("a malformed document must not end cleanly"),
        }
    }
}

#[test]
fn after_terminal_step_every_pull_is_done() {
    let mut tok = open_document(b"<a/>".to_vec());
    loop {
        match tok.next() {
            Step::Item(_) => continue,
            _ => break,
        }
    }
    assert!(matches!(tok.next(), Step::Done));
    assert!(matches!(tok.next(), Step::Done));
}

#[test]
fn byte_order_marked_input_is_decoded() {
    // "<a/>" in UTF-16LE, led by its byte-order mark.
    let bytes: Vec<u8> = vec![0xFF, 0xFE, 0x3C, 0x00, 0x61, 0x00, 0x2F, 0x00, 0x3E, 0x00];
    let (events, completed) = collect(&bytes);
    assert!(completed);
    assert_eq!(events, triples(&[(0, "empty", "a")]));
}
