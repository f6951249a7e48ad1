//! Streaming tokenizer and path aggregator for markup documents.
//!
//! The library turns a document's bytes into a lazy sequence of
//! structural events (start tag, end tag, self-closing tag, text) and,
//! on top of that sequence, counts how often each element nesting path
//! occurs. Opening a resource and reading its bytes is the caller's
//! business; everything from decoding onwards happens here, under
//! contracts.

pub mod aggregate;
pub mod counter;
pub mod event;
pub mod laws;
pub mod raw;
pub mod text;
pub mod tokenizer;
