//! Byte sources: the capability interface over heterogeneous transports, the
//! owned reload buffer with its consume-in-place cursor, and an in-memory
//! source for preloaded content.

use vstd::prelude::*;

verus! {

/// Unrecoverable failures of a transport, distinct from "no data yet": a
/// timed-out reload is a zero-valued [`ReloadInfo`], never an error.
#[derive(Debug)]
pub enum SourceError {
    /// The transport could not be set up.
    Setup(String),
    /// A read from the transport failed; the source is terminated.
    Unrecoverable(String),
}

/// The result of one successful reload attempt: bytes read from the
/// transport, bytes newly available in the buffer, bytes discarded as
/// transport-level garbage, and an optional transport-supplied timestamp.
#[derive(Clone, Copy, Debug)]
pub struct ReloadInfo {
    pub loaded_bytes: usize,
    pub available_bytes: usize,
    pub skipped_bytes: usize,
    pub last_known_ts: Option<u64>,
}

impl ReloadInfo {
    pub fn new(
        loaded_bytes: usize,
        available_bytes: usize,
        skipped_bytes: usize,
        last_known_ts: Option<u64>,
    ) -> (r: ReloadInfo)
        ensures
            r.loaded_bytes == loaded_bytes,
            r.available_bytes == available_bytes,
            r.skipped_bytes == skipped_bytes,
            r.last_known_ts == last_known_ts,
    {
        ReloadInfo { loaded_bytes, available_bytes, skipped_bytes, last_known_ts }
    }
}

/// A source of raw bytes: owns a buffer of unconsumed bytes pulled from an
/// underlying transport, exposes a consumable slice view of it, and reloads
/// more bytes on demand.
///
/// `reload` returning `Ok(None)` means the transport has no more data to
/// deliver; a reload that times out without new data yields an info record
/// with all counts zero instead.
pub trait ByteSource {
    /// The unconsumed bytes currently buffered, oldest first.
    spec fn data_spec(&self) -> Seq<u8>;

    /// Whether the underlying transport has no more bytes to deliver; a
    /// reload reports end of transport only in this state.
    spec fn exhausted_spec(&self) -> bool;

    /// The slice of bytes not yet marked consumed.
    fn current_slice(&self) -> (r: &[u8])
        ensures
            r@ == self.data_spec(),
    ;

    /// Removes the first `offset` bytes from the buffer; callers consume only
    /// bytes they have fully processed.
    fn consume(&mut self, offset: usize)
        requires
            offset as int <= old(self).data_spec().len(),
        ensures
            final(self).data_spec() == old(self).data_spec().skip(offset as int),
    ;

    /// How many unconsumed bytes are buffered.
    fn len(&self) -> (r: usize)
        ensures
            r as int == self.data_spec().len(),
    ;

    /// Whether no unconsumed bytes are buffered.
    fn is_empty(&self) -> (r: bool)
        ensures
            r == (self.data_spec().len() == 0),
    ;

    /// Pulls more bytes from the transport into the buffer. New bytes are
    /// appended after the existing unconsumed ones; the info record reports
    /// how many arrived.
    fn reload(&mut self) -> (r: Result<Option<ReloadInfo>, SourceError>)
        ensures
            match r {
                Ok(Some(info)) => final(self).data_spec().len() == old(self).data_spec().len()
                    + info.available_bytes && final(self).data_spec().subrange(
                    0,
                    old(self).data_spec().len() as int,
                ) == old(self).data_spec(),
                Ok(None) => final(self).data_spec() == old(self).data_spec()
                    && final(self).exhausted_spec(),
                Err(_) => final(self).data_spec() == old(self).data_spec(),
            },
    ;
}

/// The owned byte arena behind a source: a growable buffer with an explicit
/// first-valid-byte cursor, so consuming is a cursor move and reloading an
/// append, with no reallocation per reload.
pub struct SourceBuffer {
    data: Vec<u8>,
    start: usize,
}

impl SourceBuffer {
    /// The unconsumed bytes: everything at or after the cursor.
    pub closed spec fn data_spec(&self) -> Seq<u8> {
        self.data@.skip(self.start as int)
    }

    #[verifier::type_invariant]
    spec fn cursor_in_bounds(&self) -> bool {
        self.start <= self.data@.len()
    }

    /// An empty buffer.
    pub fn new() -> (r: SourceBuffer)
        ensures
            r.data_spec() == Seq::<u8>::empty(),
    {
        let r = SourceBuffer { data: Vec::new(), start: 0 };
        proof {
            assert(r.data_spec() =~= Seq::<u8>::empty());
        }
        r
    }

    /// Appends the given bytes after the unconsumed ones; returns how many
    /// were appended.
    pub fn copy_from_slice(&mut self, bytes: &[u8]) -> (copied: usize)
        ensures
            final(self).data_spec() == old(self).data_spec() + bytes@,
            copied as int == bytes@.len(),
    {
        proof {
            use_type_invariant(&*self);
        }
        let mut taken = SourceBuffer { data: Vec::new(), start: 0 };
        std::mem::swap(&mut taken, self);
        let SourceBuffer { data: mut data, start } = taken;
        let ghost pre = data@;
        let n = bytes.len();
        let mut i: usize = 0;
        while i < n
            invariant
                n == bytes@.len(),
                i <= n,
                data@ == pre + bytes@.subrange(0, i as int),
            decreases n - i,
        {
            data.push(*vstd::slice::slice_index_get(bytes, i));
            proof {
                assert(bytes@.subrange(0, i + 1) =~= bytes@.subrange(0, i as int).push(
                    bytes@[i as int],
                ));
            }
            i += 1;
        }
        proof {
            assert(bytes@.subrange(0, n as int) =~= bytes@);
            assert(data@.skip(start as int) =~= pre.skip(start as int) + bytes@);
        }
        *self = SourceBuffer { data, start };
        n
    }

    /// Moves the cursor past the first `offset` unconsumed bytes.
    pub fn consume(&mut self, offset: usize)
        requires
            offset as int <= old(self).data_spec().len(),
        ensures
            final(self).data_spec() == old(self).data_spec().skip(offset as int),
    {
        proof {
            use_type_invariant(&*self);
        }
        let cap = self.data.len();
        proof {
            assert(self.start + offset <= cap);
        }
        self.start += offset;
        proof {
            assert(self.data@.skip(self.start as int) =~= self.data@.skip(
                self.start as int - offset,
            ).skip(offset as int));
        }
    }

    /// How many unconsumed bytes the buffer holds.
    pub fn len(&self) -> (r: usize)
        ensures
            r as int == self.data_spec().len(),
    {
        proof {
            use_type_invariant(&*self);
        }
        self.data.len() - self.start
    }

    /// Whether the buffer holds no unconsumed bytes.
    pub fn is_empty(&self) -> (r: bool)
        ensures
            r == (self.data_spec().len() == 0),
    {
        self.len() == 0
    }

    /// The unconsumed bytes as a slice.
    pub fn current_slice(&self) -> (r: &[u8])
        ensures
            r@ == self.data_spec(),
    {
        proof {
            use_type_invariant(&*self);
        }
        let s = vstd::slice::slice_subrange(self.data.as_slice(), self.start, self.data.len());
        proof {
            assert(s@ =~= self.data@.skip(self.start as int));
        }
        s
    }
}

/// How many bytes one reload of an in-memory source moves into its buffer at
/// most.
pub const RELOAD_CHUNK: usize = 1024;

/// A byte source over preloaded in-memory content, standing for a transport
/// whose bytes are already at hand (a loaded file, a replayed capture). Each
/// reload delivers the next chunk of the content; when the content is
/// exhausted, reload reports that no more data is expected.
pub struct VecByteSource {
    content: Vec<u8>,
    pos: usize,
    buffer: SourceBuffer,
}

impl VecByteSource {
    /// The content bytes not yet moved into the buffer.
    pub closed spec fn pending_spec(&self) -> Seq<u8> {
        if self.pos <= self.content@.len() {
            self.content@.skip(self.pos as int)
        } else {
            Seq::empty()
        }
    }

    /// Builds a source that will deliver exactly `content`.
    pub fn new(content: Vec<u8>) -> (r: VecByteSource)
        ensures
            r.data_spec() == Seq::<u8>::empty(),
            r.pending_spec() == content@,
    {
        let r = VecByteSource { content, pos: 0, buffer: SourceBuffer::new() };
        proof {
            assert(r.content@.skip(0) =~= r.content@);
        }
        r
    }
}

impl ByteSource for VecByteSource {
    closed spec fn data_spec(&self) -> Seq<u8> {
        self.buffer.data_spec()
    }

    closed spec fn exhausted_spec(&self) -> bool {
        self.pending_spec().len() == 0
    }

    fn current_slice(&self) -> (r: &[u8]) {
        self.buffer.current_slice()
    }

    fn consume(&mut self, offset: usize) {
        self.buffer.consume(offset);
    }

    fn len(&self) -> (r: usize) {
        self.buffer.len()
    }

    fn is_empty(&self) -> (r: bool) {
        self.buffer.is_empty()
    }

    /// One reload moves the next pending chunk (at most [`RELOAD_CHUNK`]
    /// bytes) into the buffer and reports exactly that count; with nothing
    /// pending it reports end of transport, and it never fails.
    fn reload(&mut self) -> (r: Result<Option<ReloadInfo>, SourceError>)
        ensures
            match r {
                Ok(Some(info)) => old(self).pending_spec().len() > 0
                    && info.loaded_bytes == info.available_bytes
                    && info.skipped_bytes == 0
                    && info.available_bytes as int
                        == (if old(self).pending_spec().len() < RELOAD_CHUNK as int {
                        old(self).pending_spec().len() as int
                    } else {
                        RELOAD_CHUNK as int
                    })
                    && final(self).data_spec()
                        == old(self).data_spec()
                        + old(self).pending_spec().subrange(0, info.available_bytes as int)
                    && final(self).pending_spec()
                        == old(self).pending_spec().skip(info.available_bytes as int),
                Ok(None) => old(self).pending_spec().len() == 0
                    && final(self).data_spec() == old(self).data_spec()
                    && final(self).pending_spec() == old(self).pending_spec(),
                Err(_) => false,
            },
    {
        let total = self.content.len();
        if self.pos >= total {
            proof {
                if self.pos <= self.content@.len() {
                    assert(self.content@.skip(self.pos as int) =~= Seq::<u8>::empty());
                }
            }
            return Ok(None);
        }
        let remaining = total - self.pos;
        let take = if remaining < RELOAD_CHUNK {
            remaining
        } else {
            RELOAD_CHUNK
        };
        let chunk = vstd::slice::slice_subrange(
            self.content.as_slice(),
            self.pos,
            self.pos + take,
        );
        let copied = self.buffer.copy_from_slice(chunk);
        self.pos += take;
        proof {
            assert(self.data_spec().subrange(0, old(self).data_spec().len() as int) =~= old(
                self,
            ).data_spec());
            assert(old(self).pending_spec().subrange(0, take as int) =~= chunk@);
            assert(self.pending_spec() =~= old(self).pending_spec().skip(take as int));
        }
        Ok(Some(ReloadInfo::new(copied, copied, 0, None)))
    }
}

} // verus!
