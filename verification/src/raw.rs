//! The trusted boundary around the outside parsing crates.
//!
//! Everything verified about the tokenizer rests on the contracts in
//! this module: an opaque reader over an in-memory byte buffer, a name
//! for the sequence of raw markup units it will yield, and wrappers for
//! the calls the tokenizer makes.

use vstd::prelude::*;
use vstd::utf8::{decode_utf8, valid_utf8};
use std::io::Cursor;
use quick_xml::events::Event;
use quick_xml::Reader;

verus! {

/// Which sort of tag a raw tag unit is.
#[derive(Clone, Copy, PartialEq, Eq, Structural, Debug)]
pub enum TagKind {
    Start,
    End,
    Empty,
}

/// One raw markup unit, as handed back by a single read from the
/// underlying parser.
pub enum RawEvent {
    /// A start, end or self-closing tag, with its undecoded qualified
    /// name.
    Tag(TagKind, Vec<u8>),
    /// Character data, already entity-unescaped but not yet trimmed.
    Text(String),
    /// A unit that produces no event: comment, processing instruction,
    /// declaration, document type, or CDATA section.
    Skip,
    /// The parser could not make sense of the input at this point.
    Malformed,
    /// Genuine end of the input.
    Eof,
}

/// The mathematical shape of one raw unit; `Eof` has none, since the
/// stream of remaining units is simply empty there.
pub enum RawItem {
    Tag { kind: TagKind, name: Seq<u8> },
    Text { text: Seq<char> },
    Skip,
    Malformed,
}

/// What one read result stands for, or `None` for end of input.
pub open spec fn raw_view(e: RawEvent) -> Option<RawItem> {
    match e {
        RawEvent::Tag(k, n) => Some(RawItem::Tag { kind: k, name: n@ }),
        RawEvent::Text(t) => Some(RawItem::Text { text: t@ }),
        RawEvent::Skip => Some(RawItem::Skip),
        RawEvent::Malformed => Some(RawItem::Malformed),
        RawEvent::Eof => None,
    }
}

#[verifier::external_type_specification]
#[verifier::external_body]
#[verifier::reject_recursive_types(T)]
pub struct ExCursor<T>(Cursor<T>);

#[verifier::external_type_specification]
#[verifier::external_body]
#[verifier::reject_recursive_types(R)]
pub struct ExReader<R>(Reader<R>);

/// The raw units that a reader in its current state will still yield,
/// in order, up to and including a first malformed unit; empty when the
/// next read reports end of input.
pub uninterp spec fn raw_stream(r: Reader<Cursor<Vec<u8>>>) -> Seq<RawItem>;

/// The raw units that parsing the given bytes yields: what
/// `raw_stream` is for a fresh reader over exactly those bytes.
/// Parsing in-memory bytes depends on nothing but the bytes, so this is
/// a function of them alone.
pub uninterp spec fn raw_parse(bytes: Seq<u8>) -> Seq<RawItem>;

/// What the decoding reader turns the given bytes into: the UTF-8
/// transcoding of the input under byte-order-mark sniffing. It depends
/// on the input bytes alone.
pub uninterp spec fn decoded_of(bytes: Seq<u8>) -> Seq<u8>;

/// Relies on `quick_xml::Reader::from_reader` and its
/// `check_end_names` switch: a fresh reader over the given bytes will
/// yield exactly the units that quick_xml parses from them, handing
/// every close tag through as an end unit — whether close tags match
/// is this library's own stack machine's concern.
#[verifier::external_body]
pub(crate) fn new_reader(bytes: Vec<u8>) -> (r: Reader<Cursor<Vec<u8>>>)
    ensures
        raw_stream(r) == raw_parse(bytes@),
{
    let mut reader = Reader::from_reader(Cursor::new(bytes));
    reader.check_end_names(false);
    reader
}

/// Relies on `quick_xml::Reader::read_event_into` (and, for character
/// data, `BytesText::unescape`): one read yields the head of the
/// remaining raw units and leaves the tail, or reports end of input
/// when none remain. Start, end and empty tags carry their qualified
/// name (`name()`); text carries its unescaped content, with a failed
/// unescape reported as a malformed unit, as is a parse error.
#[verifier::external_body]
pub(crate) fn read_raw(r: &mut Reader<Cursor<Vec<u8>>>) -> (e: RawEvent)
    ensures
        raw_stream(*old(r)).len() == 0 ==> e == RawEvent::Eof && raw_stream(*final(r)) == raw_stream(
            *old(r),
        ),
        raw_stream(*old(r)).len() > 0 ==> raw_view(e) == Some(raw_stream(*old(r)).first())
            && raw_stream(*final(r)) == raw_stream(*old(r)).drop_first(),
{
    let mut buf: Vec<u8> = Vec::with_capacity(4096);
    match r.read_event_into(&mut buf) {
        Ok(Event::Start(t)) => RawEvent::Tag(TagKind::Start, t.name().into_inner().to_vec()),
        Ok(Event::End(t)) => RawEvent::Tag(TagKind::End, t.name().into_inner().to_vec()),
        Ok(Event::Empty(t)) => RawEvent::Tag(TagKind::Empty, t.name().into_inner().to_vec()),
        Ok(Event::Text(t)) => match t.unescape() {
            Ok(s) => RawEvent::Text(s.into_owned()),
            Err(_) => RawEvent::Malformed,
        },
        Ok(Event::Eof) => RawEvent::Eof,
        Ok(_) => RawEvent::Skip,
        Err(_) => RawEvent::Malformed,
    }
}

/// Relies on `str::from_utf8`: succeeds exactly on valid UTF-8 and
/// decodes it; vstd's UTF-8 model says what that means.
#[verifier::external_body]
pub(crate) fn utf8_string(b: &[u8]) -> (r: Option<String>)
    ensures
        r matches Some(s) ==> valid_utf8(b@) && s@ == decode_utf8(b@),
        r is None ==> !valid_utf8(b@),
{
    match std::str::from_utf8(b) {
        Ok(s) => Some(s.to_string()),
        Err(_) => None,
    }
}

/// Relies on `encoding_rs_io::DecodeReaderBytes`: sniffs a byte-order
/// mark, transcodes the input to UTF-8 accordingly (assuming UTF-8 when
/// no mark is present), and never fails when reading from an in-memory
/// slice.
#[verifier::external_body]
pub(crate) fn decode_to_utf8(bytes: &Vec<u8>) -> (r: Vec<u8>)
    ensures
        r@ == decoded_of(bytes@),
{
    let mut decoder = encoding_rs_io::DecodeReaderBytes::new(bytes.as_slice());
    let mut out: Vec<u8> = Vec::new();
    let _ = std::io::Read::read_to_end(&mut decoder, &mut out);
    out
}

} // verus!
