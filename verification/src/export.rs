//! The range-based export engine: consumes a produced item sequence, uses the
//! section tracker to decide what to persist, and appends the selected
//! messages' serialized bytes to a destination sink.
//!
//! The destination is a growable byte sink owned by the caller; appending to
//! it models the append-or-create contract of a destination file, which the
//! unverified driver maintains around this engine.

use vstd::prelude::*;

use crate::parse::{lemma_lines_of_prepend, lines_of, newline_free};
use crate::sections::{
    IndexSection, SectionTracker, in_sections, sections_valid, sections_valid_spec,
};
use crate::stream::{LogMessage, MessageStreamItem, ParseYield, is_writable, yield_bytes};

verus! {

/// The terminal outcomes of one export invocation that did not return a
/// count: a rejected configuration, a destination failure, or a cooperative
/// stop.
#[derive(Debug)]
pub enum ExportError {
    /// The supplied section list failed validation; detected before any of
    /// the stream is consumed.
    Config(String),
    /// The destination could not be opened or written. The verified engine
    /// writes to an in-memory sink and never produces this; drivers that copy
    /// the sink to a file map their failures into it.
    Io(String),
    /// The cancellation token was observed set; processing stopped at once.
    Cancelled,
}

/// `CancellationToken` is declared here so verified code can hold one and
/// query it; the token itself is opaque.
#[verifier::external_type_specification]
#[verifier::external_body]
pub struct ExCancellationToken(tokio_util::sync::CancellationToken);

/// Relies on tokio_util's `CancellationToken::is_cancelled`. The flag may be
/// set by another task at any moment, so nothing is promised of the result;
/// callers state what holds of every outcome.
pub assume_specification[ tokio_util::sync::CancellationToken::is_cancelled ](
    t: &tokio_util::sync::CancellationToken,
) -> bool;

/// Whether a message at ordinal `ord` is selected for writing: every message
/// when no sections are supplied, else exactly the ordinals inside a section.
pub open spec fn include_ordinal(sections: Seq<IndexSection>, ord: int) -> bool {
    sections.len() == 0 || in_sections(sections, ord)
}

/// The bytes the export writes from `items[i..]` with the next message
/// standing at ordinal `ord`, up to (and not past) the first `Done`.
pub open spec fn export_bytes_from<T: LogMessage>(
    items: Seq<(usize, MessageStreamItem<T>)>,
    sections: Seq<IndexSection>,
    text_file: bool,
    i: int,
    ord: int,
) -> Seq<u8>
    decreases items.len() - i,
{
    if i < 0 || i >= items.len() {
        Seq::empty()
    } else {
        match items[i].1 {
            MessageStreamItem::Done => Seq::empty(),
            MessageStreamItem::Item(y) => (if include_ordinal(sections, ord) {
                yield_bytes(y, text_file)
            } else {
                Seq::empty()
            }) + export_bytes_from(items, sections, text_file, i + 1, ord + 1),
            _ => export_bytes_from(items, sections, text_file, i + 1, ord),
        }
    }
}

/// All bytes one export invocation appends to the destination.
pub open spec fn export_bytes<T: LogMessage>(
    items: Seq<(usize, MessageStreamItem<T>)>,
    sections: Seq<IndexSection>,
    text_file: bool,
) -> Seq<u8> {
    export_bytes_from(items, sections, text_file, 0, 0)
}

/// How many writable messages stand in `items[i..]` before the first `Done`.
pub open spec fn written_count_from<T>(
    items: Seq<(usize, MessageStreamItem<T>)>,
    i: int,
) -> int
    decreases items.len() - i,
{
    if i < 0 || i >= items.len() {
        0
    } else {
        match items[i].1 {
            MessageStreamItem::Done => 0,
            MessageStreamItem::Item(y) => (if is_writable(y) {
                1int
            } else {
                0int
            }) + written_count_from(items, i + 1),
            _ => written_count_from(items, i + 1),
        }
    }
}

/// How many `Item` entries stand in `items[i..]` before the first `Done`.
pub open spec fn item_count_from<T>(items: Seq<(usize, MessageStreamItem<T>)>, i: int) -> int
    decreases items.len() - i,
{
    if i < 0 || i >= items.len() {
        0
    } else {
        match items[i].1 {
            MessageStreamItem::Done => 0,
            MessageStreamItem::Item(_) => 1 + item_count_from(items, i + 1),
            _ => item_count_from(items, i + 1),
        }
    }
}

/// The position of the first `Done` at or after `i`, or the sequence's length
/// when none follows.
pub open spec fn first_done_from<T>(items: Seq<(usize, MessageStreamItem<T>)>, i: int) -> int
    decreases items.len() - i,
{
    if i < 0 || i >= items.len() {
        items.len() as int
    } else if items[i].1 is Done {
        i
    } else {
        first_done_from(items, i + 1)
    }
}

/// The count one export invocation returns: in export-everything mode the
/// messages actually written; with sections, the messages observed during the
/// post-`Done` drain (zero when `read_to_end` is unset), reporting stream
/// position rather than export volume.
pub open spec fn export_count<T>(
    items: Seq<(usize, MessageStreamItem<T>)>,
    sections: Seq<IndexSection>,
    read_to_end: bool,
) -> int {
    if sections.len() == 0 {
        written_count_from(items, 0)
    } else if read_to_end {
        item_count_from(items, first_done_from(items, 0) + 1)
    } else {
        0
    }
}

/// Whether every writable message in `items[i..]`, up to the first `Done`,
/// serializes without a newline byte.
pub open spec fn messages_newline_free<T: LogMessage>(
    items: Seq<(usize, MessageStreamItem<T>)>,
    i: int,
) -> bool
    decreases items.len() - i,
{
    if i < 0 || i >= items.len() {
        true
    } else {
        match items[i].1 {
            MessageStreamItem::Done => true,
            MessageStreamItem::Item(y) => (match y {
                ParseYield::Message(m) => newline_free(m.bytes_spec()),
                ParseYield::MessageAndAttachment(m, _) => newline_free(m.bytes_spec()),
                ParseYield::Attachment(_) => true,
            }) && messages_newline_free(items, i + 1),
            _ => messages_newline_free(items, i + 1),
        }
    }
}

/// The serialized forms of the writable messages of `items[i..]`, in their
/// stream order, up to the first `Done`.
pub open spec fn message_list_from<T: LogMessage>(
    items: Seq<(usize, MessageStreamItem<T>)>,
    i: int,
) -> Seq<Seq<u8>>
    decreases items.len() - i,
{
    if i < 0 || i >= items.len() {
        Seq::empty()
    } else {
        match items[i].1 {
            MessageStreamItem::Done => Seq::empty(),
            MessageStreamItem::Item(y) => match y {
                ParseYield::Message(m) => seq![m.bytes_spec()] + message_list_from(items, i + 1),
                ParseYield::MessageAndAttachment(m, _) => seq![m.bytes_spec()]
                    + message_list_from(items, i + 1),
                ParseYield::Attachment(_) => message_list_from(items, i + 1),
            },
            _ => message_list_from(items, i + 1),
        }
    }
}

proof fn lemma_text_round_trip_from<T: LogMessage>(
    items: Seq<(usize, MessageStreamItem<T>)>,
    i: int,
    ord: int,
)
    requires
        messages_newline_free(items, i),
    ensures
        lines_of(export_bytes_from(items, Seq::<IndexSection>::empty(), true, i, ord))
            == message_list_from(items, i),
    decreases items.len() - i,
{
    if i < 0 || i >= items.len() {
    } else {
        match items[i].1 {
            MessageStreamItem::Done => {},
            MessageStreamItem::Item(y) => {
                lemma_text_round_trip_from(items, i + 1, ord + 1);
                let rest = export_bytes_from(items, Seq::<IndexSection>::empty(), true, i + 1, ord
                    + 1);
                match y {
                    ParseYield::Message(m) => {
                        let b = m.bytes_spec();
                        assert(yield_bytes(y, true) == b + seq![10u8]);
                        assert(export_bytes_from(items, Seq::<IndexSection>::empty(), true, i, ord)
                            =~= b + seq![10u8] + rest);
                        lemma_lines_of_prepend(b, rest);
                    },
                    ParseYield::MessageAndAttachment(m, _) => {
                        let b = m.bytes_spec();
                        assert(yield_bytes(y, true) == b + seq![10u8]);
                        assert(export_bytes_from(items, Seq::<IndexSection>::empty(), true, i, ord)
                            =~= b + seq![10u8] + rest);
                        lemma_lines_of_prepend(b, rest);
                    },
                    ParseYield::Attachment(_) => {
                        assert(export_bytes_from(items, Seq::<IndexSection>::empty(), true, i, ord)
                            =~= rest);
                    },
                }
            },
            _ => {
                lemma_text_round_trip_from(items, i + 1, ord);
            },
        }
    }
}

/// Round trip: a text-mode export with no filtering writes each writable
/// message newline-terminated, in order, so a text-mode reader of the
/// destination recovers exactly the serialized form of each writable
/// message. Holds for messages that serialize without a newline of their
/// own.
pub proof fn lemma_text_export_round_trip<T: LogMessage>(
    items: Seq<(usize, MessageStreamItem<T>)>,
)
    requires
        messages_newline_free(items, 0),
    ensures
        lines_of(export_bytes(items, Seq::<IndexSection>::empty(), true)) == message_list_from(
            items,
            0,
        ),
{
    lemma_text_round_trip_from(items, 0, 0);
}

/// Writes one parser yield to the sink: the message's serialized bytes, plus
/// a newline in text mode; yields that carry no message write nothing.
/// Returns whether a message was written.
pub fn write_raw<T: LogMessage>(item: &ParseYield<T>, w: &mut Vec<u8>, text_file: bool) -> (written:
    bool)
    ensures
        written == is_writable(*item),
        final(w)@ == old(w)@ + yield_bytes(*item, text_file),
{
    let ghost pre = w@;
    let written = match item {
        ParseYield::Message(msg) => {
            msg.write_to(w);
            true
        },
        ParseYield::MessageAndAttachment(msg, _) => {
            msg.write_to(w);
            true
        },
        ParseYield::Attachment(_) => false,
    };
    if written && text_file {
        w.push(10u8);
    }
    proof {
        assert(w@ =~= pre + yield_bytes(*item, text_file));
    }
    written
}

/// Export-everything mode: writes every writable message until the first
/// `Done`, returning how many were written.
fn export_everything<T: LogMessage>(
    items: &Vec<(usize, MessageStreamItem<T>)>,
    out: &mut Vec<u8>,
    text_file: bool,
    cancel: &tokio_util::sync::CancellationToken,
) -> (r: Result<usize, ExportError>)
    ensures
        match r {
            Ok(n) => final(out)@ == old(out)@ + export_bytes(
                items@,
                Seq::<IndexSection>::empty(),
                text_file,
            ) && n as int == written_count_from(items@, 0),
            Err(e) => e is Cancelled && final(out)@.len() >= old(out)@.len() && final(out)@ == (old(
                out,
            )@ + export_bytes(items@, Seq::<IndexSection>::empty(), text_file)).subrange(
                0,
                final(out)@.len() as int,
            ),
        },
        items@.len() == 0 ==> r is Ok,
{
    let ghost total = old(out)@ + export_bytes(items@, Seq::<IndexSection>::empty(), text_file);
    let n = items.len();
    let mut i: usize = 0;
    let mut exported: usize = 0;
    let ghost mut ord: int = 0;
    while i < n
        invariant
            n == items@.len(),
            i <= n,
            exported <= i,
            total == old(out)@ + export_bytes(items@, Seq::<IndexSection>::empty(), text_file),
            total == out@ + export_bytes_from(
                items@,
                Seq::<IndexSection>::empty(),
                text_file,
                i as int,
                ord,
            ),
            written_count_from(items@, 0) == exported + written_count_from(items@, i as int),
            out@.len() >= old(out)@.len(),
        decreases n - i,
    {
        if cancel.is_cancelled() {
            proof {
                assert(total.subrange(0, out@.len() as int) =~= out@);
            }
            return Err(ExportError::Cancelled);
        }
        let it = &items[i].1;
        match it {
            MessageStreamItem::Item(y) => {
                let ghost pre = out@;
                let ghost suffix = export_bytes_from(
                    items@,
                    Seq::<IndexSection>::empty(),
                    text_file,
                    i as int + 1,
                    ord + 1,
                );
                let written = write_raw(y, out, text_file);
                if written {
                    exported += 1;
                }
                proof {
                    assert(pre + yield_bytes(*y, text_file) + suffix =~= pre + (yield_bytes(
                        *y,
                        text_file,
                    ) + suffix));
                    ord = ord + 1;
                }
            },
            MessageStreamItem::Done => {
                return Ok(exported);
            },
            _ => {},
        }
        i += 1;
    }
    Ok(exported)
}

/// Sections mode, writing phase: classifies each message with the tracker,
/// writes the ones inside a section, and stops just past the first `Done`.
/// Returns the position at which the drain phase would resume.
fn export_write_phase<T: LogMessage>(
    items: &Vec<(usize, MessageStreamItem<T>)>,
    out: &mut Vec<u8>,
    sections: &Vec<IndexSection>,
    text_file: bool,
    cancel: &tokio_util::sync::CancellationToken,
) -> (r: Result<usize, ExportError>)
    requires
        sections_valid_spec(sections@),
        sections@.len() > 0,
    ensures
        match r {
            Ok(p) => p <= items@.len() && final(out)@ == old(out)@ + export_bytes(
                items@,
                sections@,
                text_file,
            ) && p as int == (if first_done_from(items@, 0) < items@.len() as int {
                first_done_from(items@, 0) + 1
            } else {
                items@.len() as int
            }),
            Err(e) => e is Cancelled && final(out)@.len() >= old(out)@.len() && final(out)@ == (old(
                out,
            )@ + export_bytes(items@, sections@, text_file)).subrange(0, final(out)@.len() as int),
        },
        items@.len() == 0 ==> r is Ok,
{
    let ghost total = old(out)@ + export_bytes(items@, sections@, text_file);
    let mut owned: Vec<IndexSection> = Vec::new();
    let mut c: usize = 0;
    while c < sections.len()
        invariant
            c <= sections@.len(),
            owned@ == sections@.subrange(0, c as int),
        decreases sections@.len() - c,
    {
        owned.push(sections[c]);
        proof {
            assert(sections@.subrange(0, c + 1) =~= sections@.subrange(0, c as int).push(
                sections@[c as int],
            ));
        }
        c += 1;
    }
    proof {
        assert(owned@ =~= sections@);
    }
    let mut tracker = SectionTracker::new(owned);
    let n = items.len();
    let mut i: usize = 0;
    while i < n
        invariant
            n == items@.len(),
            i <= n,
            sections_valid_spec(sections@),
            sections@.len() > 0,
            tracker.wf(),
            tracker.sections_spec() == sections@,
            0 <= tracker.index_spec() <= i,
            first_done_from(items@, 0) == first_done_from(items@, i as int),
            total == old(out)@ + export_bytes(items@, sections@, text_file),
            total == out@ + export_bytes_from(
                items@,
                sections@,
                text_file,
                i as int,
                tracker.index_spec(),
            ),
            out@.len() >= old(out)@.len(),
        decreases n - i,
    {
        if cancel.is_cancelled() {
            proof {
                assert(total.subrange(0, out@.len() as int) =~= out@);
            }
            return Err(ExportError::Cancelled);
        }
        let it = &items[i].1;
        match it {
            MessageStreamItem::Item(y) => {
                let ghost ord = tracker.index_spec();
                let ghost pre = out@;
                let ghost suffix = export_bytes_from(
                    items@,
                    sections@,
                    text_file,
                    i as int + 1,
                    ord + 1,
                );
                if tracker.inside() {
                    write_raw(y, out, text_file);
                    proof {
                        assert(pre + yield_bytes(*y, text_file) + suffix =~= pre + (yield_bytes(
                            *y,
                            text_file,
                        ) + suffix));
                    }
                } else {
                    proof {
                        assert(Seq::<u8>::empty() + suffix =~= suffix);
                    }
                }
                tracker.advance();
            },
            MessageStreamItem::Done => {
                return Ok(i + 1);
            },
            _ => {},
        }
        i += 1;
    }
    Ok(n)
}

/// Sections mode, drain phase: counts the `Item` entries from `start` until
/// the underlying sequence ends or the next `Done` arrives.
fn drain_from<T>(
    items: &Vec<(usize, MessageStreamItem<T>)>,
    start: usize,
    cancel: &tokio_util::sync::CancellationToken,
) -> (r: Result<usize, ExportError>)
    requires
        start <= items@.len(),
    ensures
        match r {
            Ok(c) => c as int == item_count_from(items@, start as int),
            Err(e) => e is Cancelled,
        },
        start as int == items@.len() as int ==> r is Ok,
{
    let n = items.len();
    let mut i: usize = start;
    let mut count: usize = 0;
    while i < n
        invariant
            n == items@.len(),
            start <= i <= n,
            count <= i - start,
            item_count_from(items@, start as int) == count + item_count_from(items@, i as int),
        decreases n - i,
    {
        if cancel.is_cancelled() {
            return Err(ExportError::Cancelled);
        }
        let it = &items[i].1;
        match it {
            MessageStreamItem::Item(_) => {
                count += 1;
            },
            MessageStreamItem::Done => {
                return Ok(count);
            },
            _ => {},
        }
        i += 1;
    }
    Ok(count)
}

/// Exports the selected messages of a produced item sequence into `out`.
///
/// With an empty section list every writable message is written and the count
/// of written messages is returned. With sections, only messages whose
/// ordinal lies inside a section are written; the returned count is the
/// number of messages observed while draining past the first `Done` when
/// `read_to_end` is set, and zero otherwise — it reports stream position, not
/// export volume. An invalid section list is rejected before anything is
/// consumed; a cancellation observed mid-stream stops the run with
/// [`ExportError::Cancelled`], leaving exactly a prefix of the run's output
/// in the sink.
pub fn export_raw<T: LogMessage>(
    items: &Vec<(usize, MessageStreamItem<T>)>,
    out: &mut Vec<u8>,
    sections: &Vec<IndexSection>,
    read_to_end: bool,
    text_file: bool,
    cancel: &tokio_util::sync::CancellationToken,
) -> (r: Result<usize, ExportError>)
    ensures
        !sections_valid_spec(sections@) ==> ((r matches Err(ExportError::Config(_))) && final(out)@
            == old(out)@),
        sections_valid_spec(sections@) ==> match r {
            Ok(n) => final(out)@ == old(out)@ + export_bytes(items@, sections@, text_file)
                && n as int == export_count(items@, sections@, read_to_end),
            Err(e) => e is Cancelled && final(out)@.len() >= old(out)@.len() && final(out)@ == (old(
                out,
            )@ + export_bytes(items@, sections@, text_file)).subrange(0, final(out)@.len() as int),
        },
        (sections_valid_spec(sections@) && items@.len() == 0) ==> r is Ok,
{
    if !sections_valid(sections) {
        return Err(ExportError::Config("Invalid sections".to_owned()));
    }
    if sections.len() == 0 {
        proof {
            assert(sections@ =~= Seq::<IndexSection>::empty());
        }
        export_everything(items, out, text_file, cancel)
    } else {
        let p = match export_write_phase(items, out, sections, text_file, cancel) {
            Ok(p) => p,
            Err(e) => {
                return Err(e);
            },
        };
        if read_to_end {
            match drain_from(items, p, cancel) {
                Ok(c) => {
                    proof {
                        let fd = first_done_from(items@, 0);
                        if fd >= items@.len() {
                            assert(item_count_from(items@, p as int) == 0);
                            assert(item_count_from(items@, fd + 1) == 0);
                        }
                    }
                    Ok(c)
                },
                Err(e) => {
                    proof {
                        let full = old(out)@ + export_bytes(items@, sections@, text_file);
                        assert(full.subrange(0, full.len() as int) =~= full);
                    }
                    Err(e)
                },
            }
        } else {
            Ok(0)
        }
    }
}

} // verus!
