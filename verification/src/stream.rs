//! The items that flow through the pipeline: parser yields, tagged stream
//! items, and the contract a log message type must meet so the export engine
//! can persist it byte for byte.

use vstd::prelude::*;

verus! {

/// A binary attachment extracted alongside a message. Attachments are never
/// written by the raw export.
#[derive(Clone, Debug)]
pub struct Attachment {
    pub name: String,
    pub data: Vec<u8>,
}

/// One unit of structured output produced by the parser. Only the `Message`
/// and `MessageAndAttachment` variants are exportable or searchable.
#[derive(Clone, Debug)]
pub enum ParseYield<T> {
    Message(T),
    Attachment(Attachment),
    MessageAndAttachment(T, Attachment),
}

/// One element of the produced sequence. `Done` is terminal and ends the
/// sequence; `Skipped` and `Incomplete` stand for bytes consumed without a
/// message and carry no payload.
#[derive(Clone, Debug)]
pub enum MessageStreamItem<T> {
    Item(ParseYield<T>),
    Skipped,
    Incomplete,
    Done,
}

/// A structured log message: a type that serializes deterministically to a
/// byte sink. The export engine writes exactly these bytes, nothing else.
pub trait LogMessage {
    /// The serialized form of this message.
    spec fn bytes_spec(&self) -> Seq<u8>;

    /// Appends the serialized form of this message to `out`.
    fn write_to(&self, out: &mut Vec<u8>)
        ensures
            final(out)@ == old(out)@ + self.bytes_spec(),
    ;
}

/// A plain text message: the bytes of one line, without its terminator.
#[derive(Clone, Debug, PartialEq, Eq)]
pub struct TextMessage {
    pub content: Vec<u8>,
}

impl LogMessage for TextMessage {
    open spec fn bytes_spec(&self) -> Seq<u8> {
        self.content@
    }

    fn write_to(&self, out: &mut Vec<u8>) {
        let n = self.content.len();
        let mut i: usize = 0;
        while i < n
            invariant
                n == self.content@.len(),
                i <= n,
                out@ == old(out)@ + self.content@.subrange(0, i as int),
            decreases n - i,
        {
            out.push(self.content[i]);
            assert(self.content@.subrange(0, i + 1) =~= self.content@.subrange(0, i as int).push(
                self.content@[i as int],
            ));
            i += 1;
        }
        assert(self.content@.subrange(0, n as int) =~= self.content@);
    }
}

/// Whether a parser yield carries a message the raw export may write.
pub open spec fn is_writable<T>(y: ParseYield<T>) -> bool {
    match y {
        ParseYield::Message(_) => true,
        ParseYield::MessageAndAttachment(_, _) => true,
        ParseYield::Attachment(_) => false,
    }
}

/// The byte suffix the export appends after each written message: a single
/// newline in text mode, nothing in binary mode.
pub open spec fn newline_suffix(text_file: bool) -> Seq<u8> {
    if text_file {
        seq![10u8]
    } else {
        Seq::empty()
    }
}

/// The bytes the raw export emits for one parser yield: the message's own
/// serialized form plus the mode's separator, or nothing for a yield that
/// carries no message.
pub open spec fn yield_bytes<T: LogMessage>(y: ParseYield<T>, text_file: bool) -> Seq<u8> {
    match y {
        ParseYield::Message(m) => m.bytes_spec() + newline_suffix(text_file),
        ParseYield::MessageAndAttachment(m, _) => m.bytes_spec() + newline_suffix(text_file),
        ParseYield::Attachment(_) => Seq::empty(),
    }
}

} // verus!
