//! The message producer: drives a byte source and a parser in a loop,
//! producing an ordered sequence of stream items, each paired with the
//! cumulative byte offset at which it was produced. `Done` is terminal: once
//! emitted, no further items follow it.

use vstd::prelude::*;

use crate::parse::{ParseError, Parser};
use crate::source::{ByteSource, SourceError};
use crate::stream::{MessageStreamItem, ParseYield};

verus! {

/// A failure that terminates production: the transport failed, or the parser
/// rejected the bytes outright.
#[derive(Debug)]
pub enum ProduceError {
    /// An unrecoverable transport failure, surfaced from the source.
    Source(SourceError),
    /// The parser reported the bytes irrecoverably malformed.
    Parse(String),
}

/// A consumed count added to the cumulative byte offset, saturating at the
/// machine limit.
pub open spec fn sat_offset(offset: int, consumed: int) -> int {
    if offset + consumed <= usize::MAX as int {
        offset + consumed
    } else {
        usize::MAX as int
    }
}

/// Drives a `Parser` over a `ByteSource`, yielding one stream item per call.
/// The sequence it produces is single-use: after the terminal `Done` (or an
/// error) every further call returns `Done` again without touching the
/// source.
pub struct MessageProducer<P, B> {
    parser: P,
    source: B,
    offset: usize,
    done: bool,
}

impl<P, B: ByteSource> MessageProducer<P, B> {
    /// Whether the terminal `Done` has been emitted (or an error ended the
    /// run): no more items will be produced.
    pub closed spec fn done_spec(&self) -> bool {
        self.done
    }

    /// The cumulative count of consumed bytes, saturating at the machine
    /// limit.
    pub closed spec fn offset_spec(&self) -> int {
        self.offset as int
    }

    /// The unconsumed bytes buffered by the underlying source.
    pub closed spec fn source_data(&self) -> Seq<u8> {
        self.source.data_spec()
    }

    /// The parser driving this producer.
    pub closed spec fn parser_spec(&self) -> P {
        self.parser
    }

    /// Whether the underlying transport has no more bytes to deliver.
    pub closed spec fn source_exhausted(&self) -> bool {
        self.source.exhausted_spec()
    }

    /// A fresh producer over the given parser and source.
    pub fn new(parser: P, source: B) -> (r: MessageProducer<P, B>)
        ensures
            !r.done_spec(),
            r.offset_spec() == 0,
            r.source_data() == source.data_spec(),
            r.parser_spec() == parser,
    {
        MessageProducer { parser, source, offset: 0, done: false }
    }

    /// Produces the next stream item in one step: parses what is buffered
    /// and, when the parser needs more data, makes at most one reload before
    /// reporting back. An `Incomplete` item means the caller should simply
    /// call again: a partial frame is still waiting for bytes. `Done` is
    /// emitted when the transport has no more data to deliver, or when a
    /// timed-out reload finds the buffer empty as well; after that, every
    /// call returns `Done` with the state unchanged.
    pub fn produce_next<T>(&mut self) -> (r: Result<
        (usize, MessageStreamItem<T>),
        ProduceError,
    >) where P: Parser<T>
        ensures
            final(self).offset_spec() >= old(self).offset_spec(),
            old(self).done_spec() ==> *final(self) == *old(self),
            old(self).done_spec() ==> (r matches Ok(p) && p.0 as int == old(self).offset_spec()
                && p.1 is Done),
            r matches Ok(p) ==> p.0 as int == final(self).offset_spec(),
            (r matches Ok(p) && p.1 is Done) ==> final(self).done_spec(),
            r is Err ==> final(self).done_spec(),
            old(self).done_spec() ==> final(self).done_spec(),
            !old(self).done_spec() ==> (r matches Ok(p) ==> (
            p.1 matches MessageStreamItem::Item(y) ==> exists|c: int|
                0 <= c <= old(self).source_data().len()
                    && old(self).parser_spec().parse_ok_spec(old(self).source_data(), c, Some(y))
                    && final(self).source_data() == old(self).source_data().skip(c)
                    && final(self).offset_spec() == sat_offset(old(self).offset_spec(), c))),
            !old(self).done_spec() ==> (r matches Ok(p) ==> (p.1 is Skipped ==> exists|c: int|
                0 <= c <= old(self).source_data().len()
                    && old(self).parser_spec().parse_ok_spec(
                    old(self).source_data(),
                    c,
                    None::<ParseYield<T>>,
                )
                    && final(self).source_data() == old(self).source_data().skip(c)
                    && final(self).offset_spec() == sat_offset(old(self).offset_spec(), c))),
            !old(self).done_spec() ==> (r matches Ok(p) ==> ((p.1 is Done || p.1 is Incomplete)
                ==> old(self).parser_spec().parse_err_spec(
                old(self).source_data(),
                ParseError::Incomplete,
            )
                && final(self).offset_spec() == old(self).offset_spec()
                && final(self).source_data().len() >= old(self).source_data().len()
                && final(self).source_data().subrange(0, old(self).source_data().len() as int)
                    == old(self).source_data())),
            !old(self).done_spec() ==> (r matches Ok(p) ==> (p.1 is Done
                ==> final(self).source_data() == old(self).source_data()
                    && (final(self).source_data().len() == 0
                    || final(self).source_exhausted()))),
            !old(self).done_spec() ==> (r matches Err(pe) ==> final(self).source_data() == old(
                self,
            ).source_data()
                && final(self).offset_spec() == old(self).offset_spec()
                && (match pe {
                    ProduceError::Parse(msg) => old(self).parser_spec().parse_err_spec(
                        old(self).source_data(),
                        ParseError::Parse(msg),
                    ),
                    ProduceError::Source(_) => old(self).parser_spec().parse_err_spec(
                        old(self).source_data(),
                        ParseError::Incomplete,
                    ),
                })),
    {
        if self.done {
            return Ok((self.offset, MessageStreamItem::Done));
        }
        let parse_result = self.parser.parse(self.source.current_slice());
        match parse_result {
            Ok((consumed, parsed)) => {
                self.source.consume(consumed);
                if consumed <= usize::MAX - self.offset {
                    self.offset += consumed;
                } else {
                    self.offset = usize::MAX;
                }
                proof {
                    let c = consumed as int;
                    assert(0 <= c <= old(self).source_data().len() && old(
                        self,
                    ).parser_spec().parse_ok_spec(old(self).source_data(), c, parsed) && self
                        .source_data() == old(self).source_data().skip(c) && self.offset_spec()
                        == sat_offset(old(self).offset_spec(), c));
                }
                match parsed {
                    Some(y) => Ok((self.offset, MessageStreamItem::Item(y))),
                    None => Ok((self.offset, MessageStreamItem::Skipped)),
                }
            },
            Err(ParseError::Incomplete) => {
                match self.source.reload() {
                    Ok(Some(info)) => {
                        if info.available_bytes == 0 && self.source.is_empty() {
                            proof {
                                assert(self.source_data() =~= old(self).source_data());
                            }
                            self.done = true;
                            Ok((self.offset, MessageStreamItem::Done))
                        } else {
                            Ok((self.offset, MessageStreamItem::Incomplete))
                        }
                    },
                    Ok(None) => {
                        self.done = true;
                        Ok((self.offset, MessageStreamItem::Done))
                    },
                    Err(e) => {
                        self.done = true;
                        Err(ProduceError::Source(e))
                    },
                }
            },
            Err(ParseError::Parse(msg)) => {
                self.done = true;
                Err(ProduceError::Parse(msg))
            },
        }
    }
}

} // verus!
