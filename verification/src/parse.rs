//! The parser contract the producer drives, and a concrete line tokenizer
//! that frames plain text messages on newline boundaries.

use vstd::prelude::*;

use crate::stream::{LogMessage, ParseYield, TextMessage};

verus! {

/// What a parse attempt reports when it yields nothing: the buffered bytes do
/// not hold a complete frame yet, or they are irrecoverably malformed.
#[derive(Debug)]
pub enum ParseError {
    /// More bytes are needed before anything can be yielded.
    Incomplete,
    /// The bytes cannot form a message; the pipeline stops.
    Parse(String),
}

/// The pluggable parsing component: given a byte slice, attempts to produce
/// one yield and reports how many bytes it consumed. A yield of `None` with a
/// nonzero count classifies the consumed bytes as skippable garbage.
///
/// The two spec functions are the parser's model: they say which verdicts
/// one attempt on `input` may reach, and `parse` returns nothing outside
/// them. The producer's contract speaks of the stream through this model.
pub trait Parser<T> {
    /// Whether one parse attempt on `input` may succeed with this consumed
    /// count and this yield.
    spec fn parse_ok_spec(&self, input: Seq<u8>, consumed: int, y: Option<ParseYield<T>>) -> bool;

    /// Whether one parse attempt on `input` may report this error.
    spec fn parse_err_spec(&self, input: Seq<u8>, e: ParseError) -> bool;

    /// Attempts to parse a message from the front of `input`: reaches
    /// exactly a verdict of the model, and never consumes more bytes than
    /// were offered.
    fn parse(&mut self, input: &[u8]) -> (r: Result<(usize, Option<ParseYield<T>>), ParseError>)
        ensures
            match r {
                Ok(p) => old(self).parse_ok_spec(input@, p.0 as int, p.1) && p.0 as int
                    <= input@.len(),
                Err(e) => old(self).parse_err_spec(input@, e),
            },
    ;
}

/// The position of the first newline byte at or after `i`, or the length of
/// `s` when none follows.
pub open spec fn first_newline_from(s: Seq<u8>, i: int) -> int
    decreases s.len() - i,
{
    if i < 0 || i >= s.len() {
        s.len() as int
    } else if s[i] == 10u8 {
        i
    } else {
        first_newline_from(s, i + 1)
    }
}

/// Whether no newline byte occurs in `b`.
pub open spec fn newline_free(b: Seq<u8>) -> bool {
    forall|k: int| 0 <= k < b.len() ==> b[k] != 10u8
}

/// The first newline at or after `i` never lies before `i` nor past the end.
pub proof fn lemma_first_newline_bounds(s: Seq<u8>, i: int)
    requires
        0 <= i <= s.len(),
    ensures
        i <= first_newline_from(s, i) <= s.len(),
    decreases s.len() - i,
{
    if i < s.len() && s[i] != 10u8 {
        lemma_first_newline_bounds(s, i + 1);
    }
}

/// When no newline stands in `[i, p)` and a newline stands at `p`, the first
/// newline from `i` is exactly `p`.
pub proof fn lemma_first_newline_value(s: Seq<u8>, i: int, p: int)
    requires
        0 <= i <= p < s.len(),
        forall|k: int| i <= k < p ==> s[k] != 10u8,
        s[p] == 10u8,
    ensures
        first_newline_from(s, i) == p,
    decreases p - i,
{
    if i < p {
        lemma_first_newline_value(s, i + 1, p);
    }
}

/// The lines a text-mode reader recovers from `s`: the chunks between
/// newline separators, in order, with an unterminated trailing chunk kept
/// whole.
pub open spec fn lines_of(s: Seq<u8>) -> Seq<Seq<u8>>
    decreases s.len(),
    via lines_of_decreases
{
    if s.len() == 0 {
        Seq::empty()
    } else {
        let p = first_newline_from(s, 0);
        if p < s.len() {
            seq![s.subrange(0, p)] + lines_of(s.subrange(p + 1, s.len() as int))
        } else {
            seq![s]
        }
    }
}

#[via_fn]
proof fn lines_of_decreases(s: Seq<u8>) {
    lemma_first_newline_bounds(s, 0);
}

/// Splitting off one newline-terminated, newline-free chunk: the reader
/// recovers the chunk, then the lines of the remainder.
pub proof fn lemma_lines_of_prepend(b: Seq<u8>, rest: Seq<u8>)
    requires
        newline_free(b),
    ensures
        lines_of(b + seq![10u8] + rest) == seq![b] + lines_of(rest),
{
    let s = b + seq![10u8] + rest;
    assert(s.len() == b.len() + 1 + rest.len());
    assert(forall|k: int| 0 <= k < b.len() ==> s[k] == b[k]);
    assert(s[b.len() as int] == 10u8);
    lemma_first_newline_value(s, 0, b.len() as int);
    assert(s.subrange(0, b.len() as int) =~= b);
    assert(s.subrange(b.len() as int + 1, s.len() as int) =~= rest);
    assert(lines_of(s) == seq![b] + lines_of(rest));
}

/// A tokenizer over plain text streams: each parse yields the bytes up to the
/// first newline as one [`TextMessage`], consuming the newline with them, and
/// asks for more data while no newline is buffered yet.
pub struct LineParser {
}

impl LineParser {
    pub fn new() -> (r: LineParser) {
        LineParser {  }
    }
}

impl Parser<TextMessage> for LineParser {
    /// A verdict succeeds exactly when a newline is buffered: the line
    /// before the first newline is the message, and the newline is consumed
    /// with it.
    open spec fn parse_ok_spec(
        &self,
        input: Seq<u8>,
        consumed: int,
        y: Option<ParseYield<TextMessage>>,
    ) -> bool {
        let p = first_newline_from(input, 0);
        &&& p < input.len()
        &&& consumed == p + 1
        &&& (y matches Some(ParseYield::Message(m)) && m.bytes_spec() == input.subrange(0, p))
    }

    /// Without a buffered newline the only verdict is to ask for more data.
    open spec fn parse_err_spec(&self, input: Seq<u8>, e: ParseError) -> bool {
        &&& first_newline_from(input, 0) >= input.len()
        &&& e is Incomplete
    }

    fn parse(&mut self, input: &[u8]) -> (r: Result<
        (usize, Option<ParseYield<TextMessage>>),
        ParseError,
    >) {
        let n = input.len();
        let mut i: usize = 0;
        while i < n
            invariant
                n == input@.len(),
                i <= n,
                first_newline_from(input@, 0) == first_newline_from(input@, i as int),
            decreases n - i,
        {
            if *vstd::slice::slice_index_get(input, i) == 10u8 {
                let mut content: Vec<u8> = Vec::new();
                let mut j: usize = 0;
                while j < i
                    invariant
                        j <= i,
                        i < n,
                        n == input@.len(),
                        content@ == input@.subrange(0, j as int),
                    decreases i - j,
                {
                    content.push(*vstd::slice::slice_index_get(input, j));
                    proof {
                        assert(input@.subrange(0, j + 1) =~= input@.subrange(0, j as int).push(
                            input@[j as int],
                        ));
                    }
                    j += 1;
                }
                return Ok((i + 1, Some(ParseYield::Message(TextMessage { content }))));
            }
            i += 1;
        }
        Err(ParseError::Incomplete)
    }
}

} // verus!
