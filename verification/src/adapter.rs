//! The stream adapter: a buffered, partially seekable view of a
//! forward-only chunk source.
//!
//! The adapter keeps every byte it has pulled in an append-only buffer and
//! tracks two cursors: `read_cursor`, the logical offset the consumer reads
//! from next, and the materialized end, the offset one past the last byte
//! pulled so far (always the buffer's length, since nothing is ever
//! evicted).  Pulling from the chunk source itself is the caller's job: when
//! a read cannot be served from the buffer, [`StreamAdapter::read`] answers
//! [`ReadReply::NeedChunk`], and the caller feeds the next chunk in through
//! [`StreamAdapter::on_chunk`] or reports the end of the source through
//! [`StreamAdapter::on_end`].  A pull that fails is the caller's to
//! surface, cause and all: the adapter holds no error state and never
//! retries, so a failed pull leaves it exactly as it stood.

use vstd::prelude::*;

verus! {

/// How a seek target is expressed by the consumer.
pub enum SeekRequest {
    /// An absolute offset from the start of the logical stream.
    FromStart(u64),
    /// An offset relative to the current read cursor.
    FromCurrent(i64),
    /// An offset relative to the end of the stream.  The total length of a
    /// forward-only source is unknown until it ends, so this form is never
    /// accepted.
    FromEnd(i64),
}

/// Why a seek request was rejected.  A rejected seek never changes the
/// adapter's state.
#[derive(PartialEq, Eq, Structural, Clone, Copy, Debug)]
pub enum SeekError {
    /// A relative seek would have resolved to a negative absolute offset.
    InvalidSeekError,
    /// A seek from the end of the stream was requested.
    UnsupportedSeekError,
}

/// The outcome of one call to [`StreamAdapter::read`].
pub enum ReadReply {
    /// Bytes copied out of the buffer.  The reply is empty exactly when the
    /// source has ended and the cursor stands at or past the materialized
    /// end, or when the destination capacity is zero.
    Data(Vec<u8>),
    /// The cursor stands at or past the materialized end and the source has
    /// not ended: the caller must pull one chunk and hand it to
    /// [`StreamAdapter::on_chunk`], or report the end of the source.
    NeedChunk,
}

/// The buffered, partially seekable adapter over a forward-only chunk
/// source.  One instance serves one inbound stream; reads and seeks are
/// issued sequentially, never concurrently.
pub struct StreamAdapter {
    /// Every byte pulled from the chunk source so far, in arrival order.
    /// Append-only: never truncated, never reordered.
    pub buffer: Vec<u8>,
    /// The logical offset the consumer reads from next.  It may stand past
    /// the materialized end; a read then demands more pulls first.
    pub read_cursor: u64,
    /// A seek target accepted but not yet committed by
    /// [`StreamAdapter::complete_seek`].
    pub pending_seek_target: Option<u64>,
    /// The two-state toggle for completion polls that arrive without a
    /// pending target.
    pub seek_in_progress: bool,
    /// Whether the chunk source has signalled its end.  Once set, the
    /// materialized end never grows again.
    pub source_done: bool,
}

impl StreamAdapter {
    /// The offset one past the last byte pulled from the chunk source.
    pub open spec fn materialized_end(&self) -> int {
        self.buffer@.len() as int
    }

    /// The absolute offset a relative seek resolves to, saturated at
    /// `u64::MAX` the way the committed cursor itself is bounded.
    pub open spec fn resolved_from_current(cursor: u64, delta: i64) -> int {
        if cursor + delta > u64::MAX { u64::MAX as int } else { cursor + delta }
    }

    /// A fresh adapter: empty buffer, both cursors at zero, no seek pending,
    /// source still open.
    pub fn new() -> (r: Self)
        ensures
            r.buffer@ == Seq::<u8>::empty(),
            r.read_cursor == 0,
            r.pending_seek_target is None,
            !r.seek_in_progress,
            !r.source_done,
    {
        StreamAdapter {
            buffer: Vec::new(),
            read_cursor: 0,
            pending_seek_target: None,
            seek_in_progress: false,
            source_done: false,
        }
    }

    /// Append one chunk pulled from the source.  The buffer grows by exactly
    /// the chunk, in arrival order; no cursor moves.
    pub fn on_chunk(&mut self, chunk: &[u8])
        requires
            !old(self).source_done,
        ensures
            final(self).buffer@ == old(self).buffer@ + chunk@,
            final(self).read_cursor == old(self).read_cursor,
            final(self).pending_seek_target == old(self).pending_seek_target,
            final(self).seek_in_progress == old(self).seek_in_progress,
            !final(self).source_done,
    {
        let ghost prefix = self.buffer@;
        let mut i: usize = 0;
        while i < chunk.len()
            invariant
                i <= chunk@.len(),
                self.buffer@ == prefix + chunk@.subrange(0, i as int),
                self.read_cursor == old(self).read_cursor,
                self.pending_seek_target == old(self).pending_seek_target,
                self.seek_in_progress == old(self).seek_in_progress,
                self.source_done == old(self).source_done,
            decreases chunk@.len() - i,
        {
            self.buffer.push(chunk[i]);
            i = i + 1;
            proof {
                assert(prefix + chunk@.subrange(0, i - 1) + seq![chunk@[i - 1]]
                    =~= prefix + chunk@.subrange(0, i as int));
            }
        }
        proof {
            assert(self.buffer@ =~= old(self).buffer@ + chunk@);
        }
    }

    /// Record that the chunk source has ended.  Nothing else changes, and
    /// the materialized end is now final.
    pub fn on_end(&mut self)
        ensures
            final(self).buffer@ == old(self).buffer@,
            final(self).read_cursor == old(self).read_cursor,
            final(self).pending_seek_target == old(self).pending_seek_target,
            final(self).seek_in_progress == old(self).seek_in_progress,
            final(self).source_done,
    {
        self.source_done = true;
    }

    /// Serve a read of at most `capacity` bytes from the current cursor.
    ///
    /// If the cursor stands at or past the materialized end and the source
    /// is still open, the reply is [`ReadReply::NeedChunk`] and nothing
    /// changes.  Otherwise the reply carries exactly
    /// `min(capacity, materialized_end - read_cursor)` bytes copied verbatim
    /// from the buffer at the cursor (zero bytes once the source has ended
    /// and the cursor is at or past the end), and the cursor advances by the
    /// number of bytes returned.
    pub fn read(&mut self, capacity: usize) -> (r: ReadReply)
        ensures
            final(self).buffer@ == old(self).buffer@,
            final(self).pending_seek_target == old(self).pending_seek_target,
            final(self).seek_in_progress == old(self).seek_in_progress,
            final(self).source_done == old(self).source_done,
            (r is NeedChunk) <==> (old(self).read_cursor >= old(self).materialized_end()
                && !old(self).source_done),
            r is NeedChunk ==> final(self).read_cursor == old(self).read_cursor,
            r matches ReadReply::Data(d) ==> ({
                let cur = old(self).read_cursor as int;
                let end = old(self).materialized_end();
                &&& final(self).read_cursor == cur + d@.len()
                &&& if cur < end {
                        d@.len() == vstd::math::min(capacity as int, end - cur)
                            && d@ == old(self).buffer@.subrange(cur, cur + d@.len())
                    } else {
                        d@.len() == 0
                    }
            }),
    {
        if self.read_cursor >= self.buffer.len() as u64 {
            if self.source_done {
                return ReadReply::Data(Vec::new());
            }
            return ReadReply::NeedChunk;
        }
        let start: usize = self.read_cursor as usize;
        let avail: usize = self.buffer.len() - start;
        let count: usize = if capacity < avail { capacity } else { avail };
        let mut out: Vec<u8> = Vec::new();
        let mut i: usize = 0;
        while i < count
            invariant
                i <= count,
                start + count <= self.buffer@.len(),
                start + count <= usize::MAX,
                out@ == self.buffer@.subrange(start as int, start + i),
                self == old(self),
            decreases count - i,
        {
            out.push(self.buffer[start + i]);
            i = i + 1;
            proof {
                assert(self.buffer@.subrange(start as int, start + i - 1)
                    + seq![self.buffer@[start + i - 1]]
                    =~= self.buffer@.subrange(start as int, start + i));
            }
        }
        self.read_cursor = self.read_cursor + count as u64;
        ReadReply::Data(out)
    }

    /// Phase one of a seek: resolve and record the target.
    ///
    /// An absolute target is accepted as given.  A relative target is
    /// resolved against the current cursor, rejected with
    /// [`SeekError::InvalidSeekError`] when the result would be negative and
    /// saturated at `u64::MAX` when it would overflow.  A seek from the end
    /// is always rejected with [`SeekError::UnsupportedSeekError`].  On
    /// rejection nothing changes; on acceptance only the pending target is
    /// set — the cursor moves at completion, never here.
    pub fn start_seek(&mut self, target: SeekRequest) -> (r: Result<(), SeekError>)
        ensures
            final(self).buffer@ == old(self).buffer@,
            final(self).read_cursor == old(self).read_cursor,
            final(self).seek_in_progress == old(self).seek_in_progress,
            final(self).source_done == old(self).source_done,
            match target {
                SeekRequest::FromStart(off) => {
                    &&& r is Ok
                    &&& final(self).pending_seek_target == Some(off)
                },
                SeekRequest::FromCurrent(delta) => {
                    if old(self).read_cursor + delta < 0 {
                        &&& r == Err::<(), SeekError>(SeekError::InvalidSeekError)
                        &&& final(self).pending_seek_target == old(self).pending_seek_target
                    } else {
                        &&& r is Ok
                        &&& final(self).pending_seek_target matches Some(t)
                            && t == Self::resolved_from_current(old(self).read_cursor, delta)
                    }
                },
                SeekRequest::FromEnd(_) => {
                    &&& r == Err::<(), SeekError>(SeekError::UnsupportedSeekError)
                    &&& final(self).pending_seek_target == old(self).pending_seek_target
                },
            },
    {
        match target {
            SeekRequest::FromStart(off) => {
                self.pending_seek_target = Some(off);
                Ok(())
            },
            SeekRequest::FromCurrent(delta) => {
                let resolved: i128 = self.read_cursor as i128 + delta as i128;
                if resolved < 0 {
                    return Err(SeekError::InvalidSeekError);
                }
                let t: u64 = if resolved > u64::MAX as i128 {
                    u64::MAX
                } else {
                    resolved as u64
                };
                self.pending_seek_target = Some(t);
                Ok(())
            },
            SeekRequest::FromEnd(_) => Err(SeekError::UnsupportedSeekError),
        }
    }

    /// Phase two of a seek: commit a pending target, or answer a completion
    /// poll that arrived without one.
    ///
    /// With a target pending, the cursor is set to it, the target is
    /// cleared, and the new cursor is reported.  Without one, the current
    /// cursor is reported at once and the in-progress toggle flips: the
    /// first bare poll marks a seek in progress, the next clears it.  No
    /// poll ever suspends.
    pub fn complete_seek(&mut self) -> (r: u64)
        ensures
            final(self).buffer@ == old(self).buffer@,
            final(self).source_done == old(self).source_done,
            final(self).pending_seek_target is None,
            match old(self).pending_seek_target {
                Some(t) => {
                    &&& final(self).read_cursor == t
                    &&& r == t
                    &&& final(self).seek_in_progress == old(self).seek_in_progress
                },
                None => {
                    &&& final(self).read_cursor == old(self).read_cursor
                    &&& r == old(self).read_cursor
                    &&& final(self).seek_in_progress == !old(self).seek_in_progress
                },
            },
    {
        match self.pending_seek_target {
            Some(t) => {
                self.read_cursor = t;
                self.pending_seek_target = None;
                t
            },
            None => {
                self.seek_in_progress = !self.seek_in_progress;
                self.read_cursor
            },
        }
    }
}

/// The bytes of a sequence of chunks, concatenated in arrival order.  This
/// is what the adapter's buffer holds after the chunks have been fed in
/// through [`StreamAdapter::on_chunk`] one by one.
pub open spec fn concat_chunks(chunks: Seq<Seq<u8>>) -> Seq<u8>
    decreases chunks.len(),
{
    if chunks.len() == 0 {
        Seq::empty()
    } else {
        concat_chunks(chunks.drop_last()) + chunks.last()
    }
}

/// The summed length of a sequence of chunks.
pub open spec fn total_chunk_len(chunks: Seq<Seq<u8>>) -> int
    decreases chunks.len(),
{
    if chunks.len() == 0 {
        0
    } else {
        total_chunk_len(chunks.drop_last()) + chunks.last().len()
    }
}

/// Feeding chunks in order advances the materialized end by exactly the sum
/// of their lengths: after a forward seek to an offset past the
/// materialized end, the pulls a read demands are exactly those whose summed
/// length first carries the materialized end past that offset.
pub proof fn lemma_concat_chunks_len(chunks: Seq<Seq<u8>>)
    ensures
        concat_chunks(chunks).len() == total_chunk_len(chunks),
    decreases chunks.len(),
{
    if chunks.len() > 0 {
        lemma_concat_chunks_len(chunks.drop_last());
    }
}

/// In a monotone chain of cut points, every earlier cut is at most every
/// later one.
proof fn lemma_cuts_sorted(cuts: Seq<int>, i: int, j: int)
    requires
        forall|k: int| 0 <= k < cuts.len() - 1 ==> #[trigger] cuts[k] <= cuts[k + 1],
        0 <= i <= j < cuts.len(),
    ensures
        cuts[i] <= cuts[j],
    decreases j - i,
{
    if i < j {
        lemma_cuts_sorted(cuts, i, j - 1);
    }
}

/// Consecutive reads reassemble the stream: if each read in a sequence
/// returns the bytes between one cut point and the next — which is exactly
/// what [`StreamAdapter::read`] does, each read starting where the previous
/// one stopped — then the concatenation of everything returned between two
/// cut points is, byte for byte, the stream between those two points.
pub proof fn lemma_reads_chain(stream: Seq<u8>, cuts: Seq<int>)
    requires
        cuts.len() >= 1,
        forall|k: int| 0 <= k < cuts.len() - 1 ==> #[trigger] cuts[k] <= cuts[k + 1],
        forall|k: int| 0 <= k < cuts.len() ==> 0 <= #[trigger] cuts[k] <= stream.len(),
    ensures
        concat_chunks(
            Seq::new((cuts.len() - 1) as nat, |i: int| stream.subrange(cuts[i], cuts[i + 1])),
        ) == stream.subrange(cuts[0], cuts[cuts.len() - 1]),
    decreases cuts.len(),
{
    let pieces = Seq::new(
        (cuts.len() - 1) as nat,
        |i: int| stream.subrange(cuts[i], cuts[i + 1]),
    );
    if cuts.len() == 1 {
        assert(concat_chunks(pieces) =~= stream.subrange(cuts[0], cuts[0]));
    } else {
        let shorter = cuts.drop_last();
        lemma_reads_chain(stream, shorter);
        let shorter_pieces = Seq::new(
            (shorter.len() - 1) as nat,
            |i: int| stream.subrange(shorter[i], shorter[i + 1]),
        );
        assert(pieces.drop_last() =~= shorter_pieces);
        lemma_cuts_sorted(cuts, 0, cuts.len() - 2);
        assert(concat_chunks(shorter_pieces) + pieces.last() =~= stream.subrange(
            cuts[0],
            cuts[cuts.len() - 1],
        ));
    }
}

/// Reading the whole logical stream from offset zero through the end of the
/// stream, by any sequence of consecutive reads, reproduces the buffered
/// bytes — the chunks pulled from the source, concatenated in arrival order
/// — exactly.
pub proof fn lemma_full_stream_read_back(stream: Seq<u8>, cuts: Seq<int>)
    requires
        cuts.len() >= 1,
        cuts[0] == 0,
        cuts[cuts.len() - 1] == stream.len(),
        forall|k: int| 0 <= k < cuts.len() - 1 ==> #[trigger] cuts[k] <= cuts[k + 1],
        forall|k: int| 0 <= k < cuts.len() ==> 0 <= #[trigger] cuts[k] <= stream.len(),
    ensures
        concat_chunks(
            Seq::new((cuts.len() - 1) as nat, |i: int| stream.subrange(cuts[i], cuts[i + 1])),
        ) == stream,
{
    lemma_reads_chain(stream, cuts);
    assert(stream.subrange(0, stream.len() as int) =~= stream);
}

/// Materialized bytes are stable: appending further chunks to the buffer
/// never changes the bytes at an already-materialized range, so seeking
/// backward and re-reading a range returns exactly the bytes first observed
/// there, however many chunks were pulled in between.
pub proof fn lemma_materialized_bytes_stable(buf: Seq<u8>, chunk: Seq<u8>, o: int, n: int)
    requires
        0 <= o,
        0 <= n,
        o + n <= buf.len(),
    ensures
        (buf + chunk).subrange(o, o + n) == buf.subrange(o, o + n),
{
    assert((buf + chunk).subrange(o, o + n) =~= buf.subrange(o, o + n));
}

} // verus!
