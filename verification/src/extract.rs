//! The extraction engine: consumes a produced item sequence, applies a set of
//! match filters to every message, and collects the matched messages with
//! their originating ordinal into an in-memory ordered list.

use vstd::prelude::*;

use crate::stream::{LogMessage, MessageStreamItem, ParseYield};

verus! {

/// Severity of a domain error.
#[derive(Clone, Copy, Debug, PartialEq, Eq, Structural)]
pub enum Severity {
    Warning,
    Error,
}

/// The kind of a domain error.
#[derive(Clone, Copy, Debug, PartialEq, Eq, Structural)]
pub enum NativeErrorKind {
    OperationSearch,
    Io,
}

/// A domain error wrapping an underlying failure of a session operation.
#[derive(Debug)]
pub struct NativeError {
    pub severity: Severity,
    pub kind: NativeErrorKind,
    pub message: Option<String>,
}

/// The outcome of one session operation: a value, nothing to report, or a
/// domain error.
pub type OperationResult<T> = Result<Option<T>, NativeError>;

/// One match filter: a literal byte pattern that matches a message whenever
/// it occurs anywhere in the message's serialized bytes. The pattern language
/// is deliberately this simple; richer matching is out of scope here.
#[derive(Clone, Debug)]
pub struct SearchFilter {
    pub value: Vec<u8>,
}

/// One matched message: its ordinal among the stream's messages, and the
/// indices (ascending) of every filter that matched it.
#[derive(Clone, Debug)]
pub struct ExtractedMatchValue {
    pub index: u64,
    pub filters: Vec<usize>,
}

/// Whether `needle` occurs in `hay` starting exactly at position `i`.
pub open spec fn match_at(hay: Seq<u8>, needle: Seq<u8>, i: int) -> bool {
    &&& 0 <= i
    &&& i + needle.len() <= hay.len()
    &&& hay.subrange(i, i + needle.len()) == needle
}

/// Whether `needle` occurs anywhere in `hay`.
pub open spec fn contains_pattern(hay: Seq<u8>, needle: Seq<u8>) -> bool {
    exists|i: int| match_at(hay, needle, i)
}

/// The serialized bytes of the message a yield carries, or nothing for a
/// yield that carries no message.
pub open spec fn yield_message<T: LogMessage>(y: ParseYield<T>) -> Option<Seq<u8>> {
    match y {
        ParseYield::Message(m) => Some(m.bytes_spec()),
        ParseYield::MessageAndAttachment(m, _) => Some(m.bytes_spec()),
        ParseYield::Attachment(_) => None,
    }
}

/// The searchable messages of `items[i..]`, one entry per `Item` up to the
/// first `Done`, aligned with message ordinals: `None` stands for a message
/// slot whose yield carries nothing searchable.
pub open spec fn searchable_bytes<T: LogMessage>(
    items: Seq<(usize, MessageStreamItem<T>)>,
    i: int,
) -> Seq<Option<Seq<u8>>>
    decreases items.len() - i,
{
    if i < 0 || i >= items.len() {
        Seq::empty()
    } else {
        match items[i].1 {
            MessageStreamItem::Done => Seq::empty(),
            MessageStreamItem::Item(y) => seq![yield_message(y)] + searchable_bytes(items, i + 1),
            _ => searchable_bytes(items, i + 1),
        }
    }
}

/// The bytes under a searchable slot (empty for a slot with none).
pub open spec fn some_bytes(x: Option<Seq<u8>>) -> Seq<u8> {
    match x {
        Some(b) => b,
        None => Seq::empty(),
    }
}

/// Whether the message at ordinal `o` exists, is searchable, and is matched
/// by at least one of the filters.
pub open spec fn ordinal_matches(
    sb: Seq<Option<Seq<u8>>>,
    filters: Seq<SearchFilter>,
    o: int,
) -> bool {
    &&& 0 <= o < sb.len()
    &&& sb[o] is Some
    &&& exists|j: int|
        0 <= j < filters.len() && contains_pattern(some_bytes(sb[o]), (#[trigger] filters[j]).value@)
}

/// Whether one collected filter index is correct for ordinal `o`.
pub open spec fn filter_entry_ok(
    sb: Seq<Option<Seq<u8>>>,
    filters: Seq<SearchFilter>,
    o: int,
    j: usize,
) -> bool {
    &&& (j as int) < filters.len()
    &&& contains_pattern(some_bytes(sb[o]), filters[j as int].value@)
}

/// Whether one collected entry is correct: its ordinal matches, and its
/// filter list holds exactly the indices of the filters that match it, in
/// ascending order and so without a duplicate.
pub open spec fn entry_ok(
    sb: Seq<Option<Seq<u8>>>,
    filters: Seq<SearchFilter>,
    ev: ExtractedMatchValue,
) -> bool {
    &&& ordinal_matches(sb, filters, ev.index as int)
    &&& forall|x: int|
        0 <= x && x + 1 < ev.filters@.len() ==> (#[trigger] ev.filters@[x]) < ev.filters@[x + 1]
    &&& forall|x: int|
        0 <= x < ev.filters@.len() ==> filter_entry_ok(
            sb,
            filters,
            ev.index as int,
            #[trigger] ev.filters@[x],
        )
    &&& forall|j: int|
        0 <= j < filters.len() && contains_pattern(
            some_bytes(sb[ev.index as int]),
            (#[trigger] filters[j]).value@,
        ) ==> ev.filters@.contains(j as usize)
}

/// The extraction result is exact: every entry is a matching message with its
/// exact matching filters, entries come in ascending stream order, and every
/// matching message has an entry.
pub open spec fn extraction_ok<T: LogMessage>(
    items: Seq<(usize, MessageStreamItem<T>)>,
    filters: Seq<SearchFilter>,
    v: Seq<ExtractedMatchValue>,
) -> bool {
    let sb = searchable_bytes(items, 0);
    &&& forall|k: int| 0 <= k < v.len() ==> entry_ok(sb, filters, #[trigger] v[k])
    &&& forall|k: int| 0 <= k && k + 1 < v.len() ==> (#[trigger] v[k]).index < v[k + 1].index
    &&& forall|o: int|
        ordinal_matches(sb, filters, o) ==> exists|k: int|
            0 <= k < v.len() && (#[trigger] v[k]).index as int == o
}

/// Whether `needle` occurs in `hay` starting exactly at `i`, decided by a
/// byte-for-byte comparison.
fn match_here(hay: &Vec<u8>, needle: &Vec<u8>, i: usize) -> (r: bool)
    requires
        i + needle@.len() <= hay@.len(),
    ensures
        r == match_at(hay@, needle@, i as int),
{
    let nn = needle.len();
    let hn = hay.len();
    let mut j: usize = 0;
    while j < nn
        invariant
            nn == needle@.len(),
            hn == hay@.len(),
            i + nn <= hn,
            j <= nn,
            forall|l: int| 0 <= l < j ==> hay@[i + l] == needle@[l],
        decreases nn - j,
    {
        if hay[i + j] != needle[j] {
            proof {
                if match_at(hay@, needle@, i as int) {
                    assert(hay@.subrange(i as int, i + nn)[j as int] == needle@[j as int]);
                }
            }
            return false;
        }
        j += 1;
    }
    proof {
        assert(hay@.subrange(i as int, i + nn) =~= needle@);
    }
    true
}

/// Whether `needle` occurs anywhere in `hay`, decided exactly as
/// [`contains_pattern`] states it. The empty pattern matches everything.
pub fn matches_pattern(hay: &Vec<u8>, needle: &Vec<u8>) -> (r: bool)
    ensures
        r == contains_pattern(hay@, needle@),
{
    let hn = hay.len();
    let nn = needle.len();
    if nn > hn {
        proof {
            assert forall|i: int| !match_at(hay@, needle@, i) by {}
        }
        return false;
    }
    if nn == 0 {
        proof {
            assert(hay@.subrange(0, 0) =~= needle@);
            assert(match_at(hay@, needle@, 0));
        }
        return true;
    }
    let mut i: usize = 0;
    while i <= hn - nn
        invariant
            hn == hay@.len(),
            nn == needle@.len(),
            1 <= nn <= hn,
            i <= hn - nn + 1,
            forall|k: int| 0 <= k < i ==> !match_at(hay@, needle@, k),
        decreases hn - nn - i + 1,
    {
        if match_here(hay, needle, i) {
            return true;
        }
        i += 1;
    }
    proof {
        assert forall|k: int| !match_at(hay@, needle@, k) by {
            if 0 <= k < i {
            }
        }
    }
    false
}

/// Collects every message the filters match, with its ordinal and the exact
/// ascending list of matching filter indices, in stream order.
pub fn extract_matches<T: LogMessage>(
    items: &Vec<(usize, MessageStreamItem<T>)>,
    filters: &Vec<SearchFilter>,
) -> (v: Vec<ExtractedMatchValue>)
    ensures
        extraction_ok(items@, filters@, v@),
{
    let ghost sb = searchable_bytes(items@, 0);
    let ghost mut prefix: Seq<Option<Seq<u8>>> = Seq::empty();
    let n = items.len();
    let mut i: usize = 0;
    let mut ord: usize = 0;
    let mut results: Vec<ExtractedMatchValue> = Vec::new();
    proof {
        assert(sb =~= prefix + searchable_bytes(items@, 0));
    }
    while i < n
        invariant
            n == items@.len(),
            i <= n,
            ord <= i,
            sb == searchable_bytes(items@, 0),
            sb == prefix + searchable_bytes(items@, i as int),
            prefix.len() == ord,
            forall|k: int| 0 <= k < results@.len() ==> entry_ok(sb, filters@, #[trigger] results@[k]),
            forall|k: int|
                0 <= k && k + 1 < results@.len() ==> (#[trigger] results@[k]).index < results@[k
                    + 1].index,
            forall|k: int| 0 <= k < results@.len() ==> (#[trigger] results@[k]).index < ord,
            forall|o: int|
                ordinal_matches(sb, filters@, o) && o < ord ==> exists|k: int|
                    0 <= k < results@.len() && (#[trigger] results@[k]).index as int == o,
        decreases n - i,
    {
        let it = &items[i].1;
        match it {
            MessageStreamItem::Item(y) => {
                let ghost slot = yield_message(*y);
                proof {
                    assert(searchable_bytes(items@, i as int) =~= seq![slot] + searchable_bytes(
                        items@,
                        i as int + 1,
                    ));
                    assert(sb =~= (prefix + seq![slot]) + searchable_bytes(items@, i as int + 1));
                    assert(sb[ord as int] == slot);
                }
                let msg_opt: Option<&T> = match y {
                    ParseYield::Message(m) => Some(m),
                    ParseYield::MessageAndAttachment(m, _) => Some(m),
                    ParseYield::Attachment(_) => None,
                };
                match msg_opt {
                    Some(m) => {
                        let mut buf: Vec<u8> = Vec::new();
                        m.write_to(&mut buf);
                        let fcount = filters.len();
                        let mut js: Vec<usize> = Vec::new();
                        let mut j: usize = 0;
                        while j < fcount
                            invariant
                                fcount == filters@.len(),
                                j <= fcount,
                                buf@ == some_bytes(slot),
                                slot is Some,
                                (ord as int) < sb.len(),
                                sb[ord as int] == slot,
                                forall|x: int|
                                    0 <= x < js@.len() ==> ((#[trigger] js@[x]) as int) < j
                                        && filter_entry_ok(sb, filters@, ord as int, js@[x]),
                                forall|x: int|
                                    0 <= x && x + 1 < js@.len() ==> (#[trigger] js@[x]) < js@[x
                                        + 1],
                                forall|jj: int|
                                    0 <= jj < j && contains_pattern(
                                        buf@,
                                        (#[trigger] filters@[jj]).value@,
                                    ) ==> js@.contains(jj as usize),
                            decreases fcount - j,
                        {
                            let ghost old_js = js@;
                            if matches_pattern(&buf, &filters[j].value) {
                                js.push(j);
                                proof {
                                    assert(js@[js@.len() - 1] == j);
                                    assert(filter_entry_ok(sb, filters@, ord as int, j));
                                    assert forall|jj: int|
                                        0 <= jj < j + 1 && contains_pattern(
                                            buf@,
                                            (#[trigger] filters@[jj]).value@,
                                        ) implies js@.contains(jj as usize) by {
                                        if jj < j {
                                            let x = choose|x: int|
                                                0 <= x < old_js.len() && old_js[x] == jj as usize;
                                            assert(js@[x] == jj as usize);
                                        } else {
                                            assert(js@[js@.len() - 1] == jj as usize);
                                        }
                                    }
                                }
                            } else {
                                proof {
                                    assert forall|jj: int|
                                        0 <= jj < j + 1 && contains_pattern(
                                            buf@,
                                            (#[trigger] filters@[jj]).value@,
                                        ) implies js@.contains(jj as usize) by {
                                        if jj < j {
                                            let x = choose|x: int|
                                                0 <= x < old_js.len() && old_js[x] == jj as usize;
                                            assert(js@[x] == jj as usize);
                                        }
                                    }
                                }
                            }
                            j += 1;
                        }
                        if js.len() > 0 {
                            let ghost old_results = results@;
                            let entry = ExtractedMatchValue { index: ord as u64, filters: js };
                            proof {
                                assert(sb.len() >= ord + 1);
                                assert(sb[ord as int] == slot);
                                let j0 = js@[0];
                                assert(filter_entry_ok(sb, filters@, ord as int, j0));
                                assert(contains_pattern(
                                    some_bytes(sb[ord as int]),
                                    filters@[j0 as int].value@,
                                ));
                                assert(ordinal_matches(sb, filters@, ord as int));
                                assert(entry.index as int == ord as int);
                                assert(entry_ok(sb, filters@, entry));
                            }
                            results.push(entry);
                            proof {
                                assert forall|o: int|
                                    ordinal_matches(sb, filters@, o) && o < ord + 1 implies exists|
                                        k: int,
                                    |
                                        0 <= k < results@.len() && (#[trigger] results@[k]).index
                                            as int == o by {
                                    if o < ord {
                                        let k = choose|k: int|
                                            0 <= k < old_results.len() && (#[trigger] old_results[k]).index
                                                as int == o;
                                        assert(results@[k].index as int == o);
                                    } else {
                                        assert(results@[results@.len() - 1].index as int == o);
                                    }
                                }
                            }
                        } else {
                            proof {
                                assert forall|o: int|
                                    ordinal_matches(sb, filters@, o) && o < ord + 1 implies exists|
                                        k: int,
                                    |
                                        0 <= k < results@.len() && (#[trigger] results@[k]).index
                                            as int == o by {
                                    if o == ord {
                                        let j = choose|j: int|
                                            0 <= j < filters@.len() && contains_pattern(
                                                some_bytes(sb[o]),
                                                (#[trigger] filters@[j]).value@,
                                            );
                                        assert(js@.contains(j as usize));
                                        assert(false);
                                    }
                                }
                            }
                        }
                    },
                    None => {
                        proof {
                            assert(slot is None);
                        }
                    },
                }
                ord += 1;
                proof {
                    prefix = prefix + seq![slot];
                }
            },
            MessageStreamItem::Done => {
                proof {
                    assert(searchable_bytes(items@, i as int) =~= Seq::<Option<Seq<u8>>>::empty());
                    assert(sb =~= prefix);
                }
                return results;
            },
            _ => {
                proof {
                    assert(searchable_bytes(items@, i as int) =~= searchable_bytes(
                        items@,
                        i as int + 1,
                    ));
                }
            },
        }
        i += 1;
    }
    proof {
        assert(searchable_bytes(items@, n as int) =~= Seq::<Option<Seq<u8>>>::empty());
        assert(sb =~= prefix);
    }
    results
}

/// The extraction operation's entry point: runs the filters over a produced
/// sequence and hands back the full ordered match list. With the sequence
/// already in hand this cannot fail; transport failures are surfaced by the
/// producer before this point.
pub fn handle<T: LogMessage>(
    items: &Vec<(usize, MessageStreamItem<T>)>,
    filters: &Vec<SearchFilter>,
) -> (r: OperationResult<Vec<ExtractedMatchValue>>)
    ensures
        r matches Ok(ov) && (ov matches Some(v) && extraction_ok(items@, filters@, v@)),
{
    Ok(Some(extract_matches(items, filters)))
}

} // verus!
