//! A streaming log pipeline: byte sources that buffer raw transport bytes,
//! a producer that turns them into an ordered, cancellable sequence of
//! parsed items, and the engines that consume such a sequence — a
//! range-based selective export with exact byte accounting, and a
//! match-filter extraction that collects matches in memory.
//!
//! - [`source`]: the `ByteSource` capability interface, the consume-in-place
//!   reload buffer, and an in-memory source for preloaded content.
//! - [`parse`]: the parser contract the producer drives, and a newline
//!   tokenizer for plain text streams.
//! - [`producer`]: the loop that pairs each produced item with its
//!   cumulative byte offset; its `Done` is terminal.
//! - [`sections`]: inclusion ranges over message ordinals, their validation,
//!   and the streaming inside/outside classifier.
//! - [`export`]: the selective export engine and its byte-exact contract.
//! - [`extract`]: the match-filter extraction engine.
//! - [`serial`]: types shared with serial-port transports.
//! - [`stream`]: the items flowing through the pipeline, and the contract a
//!   log message type meets so it can be persisted byte for byte.

pub mod export;
pub mod extract;
pub mod parse;
pub mod producer;
pub mod sections;
pub mod serial;
pub mod source;
pub mod stream;
