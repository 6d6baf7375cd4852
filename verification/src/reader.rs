//! The buffered reader: turning newly read bytes into emitted chunks.
//!
//! The process around the library performs the actual file reads; it hands
//! every batch of newly available bytes to [`LogBufReader::read_next`], which
//! decides where chunk boundaries fall.  In `ReadToEnd` mode the whole batch
//! is one chunk.  In `NextLine` mode bytes accumulate in a pending buffer
//! that is cut after every line terminator, or forcibly once it reaches
//! [`LINE_FLUSH_CAP`] bytes, so memory stays bounded on a file that writes
//! without newlines.

use vstd::prelude::*;

use crate::LogReaderMode;

verus! {

/// Byte value of the line terminator.
pub const LINE_TERMINATOR: u8 = 10;

/// Size at which an unterminated line is force-flushed (64 KiB).
pub const LINE_FLUSH_CAP: usize = 65536;

/// The views of a sequence of byte vectors.
pub open spec fn chunk_views(chunks: Seq<Vec<u8>>) -> Seq<Seq<u8>> {
    chunks.map_values(|c: Vec<u8>| c@)
}

/// Chunks cut from one poll in `ReadToEnd` mode: the whole batch, or nothing.
pub open spec fn drain_chunks(input: Seq<u8>) -> Seq<Seq<u8>> {
    if input.len() == 0 {
        seq![]
    } else {
        seq![input]
    }
}

/// Chunks cut from one poll in `NextLine` mode, together with the bytes left
/// pending.  Bytes join the pending buffer one at a time; the buffer is
/// emitted as a chunk right after a line terminator joins it, or as soon as
/// it reaches [`LINE_FLUSH_CAP`] bytes.
pub open spec fn line_chunks(pending: Seq<u8>, input: Seq<u8>) -> (Seq<Seq<u8>>, Seq<u8>)
    decreases input.len(),
{
    if input.len() == 0 {
        (seq![], pending)
    } else {
        let grown = pending.push(input.first());
        if input.first() == LINE_TERMINATOR || grown.len() >= LINE_FLUSH_CAP {
            let rest = line_chunks(seq![], input.drop_first());
            (seq![grown] + rest.0, rest.1)
        } else {
            line_chunks(grown, input.drop_first())
        }
    }
}

/// What one poll emits and retains, for either mode.
pub open spec fn read_chunks(mode: LogReaderMode, pending: Seq<u8>, input: Seq<u8>) -> (
    Seq<Seq<u8>>,
    Seq<u8>,
) {
    match mode {
        LogReaderMode::ReadToEnd => (drain_chunks(input), pending),
        LogReaderMode::NextLine => line_chunks(pending, input),
    }
}

/// The pending buffer never reaches the cap.
pub proof fn lemma_line_chunks_pending_bound(pending: Seq<u8>, input: Seq<u8>)
    requires
        pending.len() < LINE_FLUSH_CAP,
    ensures
        line_chunks(pending, input).1.len() < LINE_FLUSH_CAP,
    decreases input.len(),
{
    if input.len() > 0 {
        let grown = pending.push(input.first());
        if input.first() == LINE_TERMINATOR || grown.len() >= LINE_FLUSH_CAP {
            lemma_line_chunks_pending_bound(seq![], input.drop_first());
        } else {
            lemma_line_chunks_pending_bound(grown, input.drop_first());
        }
    }
}

/// Every byte comes back out, in order: the emitted chunks concatenated with
/// the bytes left pending are exactly the old pending bytes followed by the
/// input.
pub proof fn lemma_line_chunks_ordering(pending: Seq<u8>, input: Seq<u8>)
    ensures
        line_chunks(pending, input).0.flatten() + line_chunks(pending, input).1 == pending + input,
    decreases input.len(),
{
    if input.len() == 0 {
        assert(line_chunks(pending, input).0.flatten() + pending =~= pending + input);
    } else {
        let grown = pending.push(input.first());
        if input.first() == LINE_TERMINATOR || grown.len() >= LINE_FLUSH_CAP {
            let rest = line_chunks(seq![], input.drop_first());
            lemma_line_chunks_ordering(seq![], input.drop_first());
            assert((seq![grown] + rest.0).drop_first() =~= rest.0);
            assert((seq![grown] + rest.0).flatten() == grown + rest.0.flatten());
            assert(grown + (rest.0.flatten() + rest.1) =~= pending + input);
            assert((seq![grown] + rest.0).flatten() + rest.1 =~= grown + (rest.0.flatten()
                + rest.1));
        } else {
            lemma_line_chunks_ordering(grown, input.drop_first());
            assert(grown + input.drop_first() =~= pending + input);
        }
    }
}

/// Ordering for either mode, over one poll.
pub proof fn lemma_read_chunks_ordering(mode: LogReaderMode, pending: Seq<u8>, input: Seq<u8>)
    requires
        mode is ReadToEnd ==> pending.len() == 0,
    ensures
        read_chunks(mode, pending, input).0.flatten() + read_chunks(mode, pending, input).1
            == pending + input,
{
    match mode {
        LogReaderMode::ReadToEnd => {
            if input.len() == 0 {
                assert(drain_chunks(input).flatten() + pending =~= pending + input);
            } else {
                assert(drain_chunks(input).drop_first() =~= Seq::<Seq<u8>>::empty());
                assert(drain_chunks(input).flatten() == input + Seq::<Seq<u8>>::empty().flatten());
                assert(input + Seq::<u8>::empty() =~= input);
                assert(input + pending =~= pending + input);
            }
        },
        LogReaderMode::NextLine => {
            lemma_line_chunks_ordering(pending, input);
        },
    }
}

/// A poll that reads no bytes emits no chunk and leaves the pending buffer
/// as it was.
pub proof fn lemma_read_chunks_no_growth(mode: LogReaderMode, pending: Seq<u8>)
    ensures
        read_chunks(mode, pending, seq![]).0 == Seq::<Seq<u8>>::empty(),
        read_chunks(mode, pending, seq![]).1 == pending,
{
    assert(read_chunks(mode, pending, seq![]).0 =~= Seq::<Seq<u8>>::empty());
}

/// The line-mode cap: on input without a terminator, every emitted chunk is
/// exactly the cap, the retained remainder stays under the cap, a chunk is
/// forced as soon as the cap's worth of bytes is pending, and concatenating
/// the chunks with the remainder reassembles the bytes exactly.
pub proof fn lemma_line_cap(pending: Seq<u8>, input: Seq<u8>)
    requires
        pending.len() < LINE_FLUSH_CAP,
        forall|i: int| 0 <= i < input.len() ==> input[i] != LINE_TERMINATOR,
    ensures
        pending.len() + input.len() >= LINE_FLUSH_CAP ==> line_chunks(pending, input).0.len() >= 1,
        forall|j: int|
            0 <= j < line_chunks(pending, input).0.len() ==> #[trigger] line_chunks(
                pending,
                input,
            ).0[j].len() == LINE_FLUSH_CAP,
        line_chunks(pending, input).1.len() < LINE_FLUSH_CAP,
        line_chunks(pending, input).0.flatten() + line_chunks(pending, input).1 == pending + input,
    decreases input.len(),
{
    lemma_line_chunks_ordering(pending, input);
    lemma_line_chunks_pending_bound(pending, input);
    if input.len() > 0 {
        let grown = pending.push(input.first());
        assert(input.first() == input[0]);
        assert(forall|i: int|
            0 <= i < input.drop_first().len() ==> #[trigger] input.drop_first()[i] == input[i + 1]);
        if grown.len() >= LINE_FLUSH_CAP {
            let rest = line_chunks(seq![], input.drop_first());
            lemma_line_cap(seq![], input.drop_first());
            assert(grown.len() == LINE_FLUSH_CAP);
            assert(forall|j: int|
                0 <= j < (seq![grown] + rest.0).len() ==> #[trigger] (seq![grown] + rest.0)[j].len()
                    == LINE_FLUSH_CAP);
        } else {
            lemma_line_cap(grown, input.drop_first());
        }
    }
}

/// The buffered reader: the pending line buffer plus everything the tailer
/// remembers about the file it reads (the path, the chunking mode, and the
/// change token observed when data last moved).
#[derive(Debug)]
pub struct LogBufReader {
    /// Bytes of an unfinished line, waiting for a terminator or the cap.
    pub pending: Vec<u8>,
    /// The last change token recorded for the watched path.
    pub last_ctime: u64,
    /// The watched path.
    pub path: String,
    /// Fixed chunking strategy.
    pub mode: LogReaderMode,
}

impl LogBufReader {
    /// The pending buffer is under the cap, and only line mode buffers.
    pub open spec fn wf(self) -> bool {
        &&& self.pending@.len() < LINE_FLUSH_CAP
        &&& self.mode is ReadToEnd ==> self.pending@.len() == 0
    }

    /// A fresh reader for `path`: nothing pending, baseline token recorded.
    pub fn new(path: String, mode: LogReaderMode, last_ctime: u64) -> (r: Self)
        ensures
            r.wf(),
            r.pending@ == Seq::<u8>::empty(),
            r.last_ctime == last_ctime,
            r.path@ == path@,
            r.mode == mode,
    {
        LogBufReader { pending: Vec::new(), last_ctime, path, mode }
    }

    /// One poll: cut `input` into chunks by the reader's mode.  Returns the
    /// chunks to publish, in order; bytes of an unfinished line stay pending.
    pub fn read_next(&mut self, input: &[u8]) -> (chunks: Vec<Vec<u8>>)
        requires
            old(self).wf(),
        ensures
            final(self).wf(),
            chunk_views(chunks@) == read_chunks(old(self).mode, old(self).pending@, input@).0,
            final(self).pending@ == read_chunks(old(self).mode, old(self).pending@, input@).1,
            final(self).last_ctime == old(self).last_ctime,
            final(self).path@ == old(self).path@,
            final(self).mode == old(self).mode,
    {
        match self.mode {
            LogReaderMode::ReadToEnd => self.read_to_end(input),
            LogReaderMode::NextLine => self.read_next_line(input),
        }
    }

    /// `ReadToEnd` strategy: the whole batch is one chunk, if it is not empty.
    pub fn read_to_end(&mut self, input: &[u8]) -> (chunks: Vec<Vec<u8>>)
        requires
            old(self).wf(),
            old(self).mode is ReadToEnd,
        ensures
            *final(self) == *old(self),
            chunk_views(chunks@) == drain_chunks(input@),
    {
        let mut chunks: Vec<Vec<u8>> = Vec::new();
        if input.len() > 0 {
            chunks.push(vstd::slice::slice_to_vec(input));
            proof {
                assert(chunk_views(chunks@) =~= drain_chunks(input@));
            }
        } else {
            proof {
                assert(chunk_views(chunks@) =~= drain_chunks(input@));
            }
        }
        chunks
    }

    /// `NextLine` strategy: accumulate into the pending buffer, emitting a
    /// chunk after each terminator and forcing one at the cap.
    pub fn read_next_line(&mut self, input: &[u8]) -> (chunks: Vec<Vec<u8>>)
        requires
            old(self).wf(),
            old(self).mode is NextLine,
        ensures
            final(self).wf(),
            chunk_views(chunks@) == line_chunks(old(self).pending@, input@).0,
            final(self).pending@ == line_chunks(old(self).pending@, input@).1,
            final(self).last_ctime == old(self).last_ctime,
            final(self).path@ == old(self).path@,
            final(self).mode == old(self).mode,
    {
        let ghost orig_pending = self.pending@;
        let mut chunks: Vec<Vec<u8>> = Vec::new();
        let mut i: usize = 0;
        proof {
            assert(input@.skip(0) =~= input@);
            assert(chunk_views(chunks@) + line_chunks(orig_pending, input@).0 =~= line_chunks(
                orig_pending,
                input@,
            ).0);
        }
        while i < input.len()
            invariant
                0 <= i <= input.len(),
                self.pending@.len() < LINE_FLUSH_CAP,
                self.last_ctime == old(self).last_ctime,
                self.path@ == old(self).path@,
                self.mode == old(self).mode,
                line_chunks(orig_pending, input@).0 == chunk_views(chunks@) + line_chunks(
                    self.pending@,
                    input@.skip(i as int),
                ).0,
                line_chunks(orig_pending, input@).1 == line_chunks(
                    self.pending@,
                    input@.skip(i as int),
                ).1,
            decreases input.len() - i,
        {
            let ghost pend_before = self.pending@;
            let ghost rem = input@.skip(i as int);
            proof {
                assert(rem.first() == input@[i as int]);
                assert(rem.drop_first() =~= input@.skip(i as int + 1));
            }
            let b = input[i];
            self.pending.push(b);
            if b == LINE_TERMINATOR || self.pending.len() >= LINE_FLUSH_CAP {
                let mut flushed: Vec<u8> = Vec::new();
                core::mem::swap(&mut flushed, &mut self.pending);
                chunks.push(flushed);
                proof {
                    let grown = pend_before.push(b);
                    assert(line_chunks(pend_before, rem).0 == seq![grown] + line_chunks(
                        self.pending@,
                        rem.drop_first(),
                    ).0);
                    assert(chunk_views(chunks@) =~= chunk_views(chunks@.drop_last()).push(grown));
                    assert(chunk_views(chunks@.drop_last()) + (seq![grown] + line_chunks(
                        self.pending@,
                        rem.drop_first(),
                    ).0) =~= chunk_views(chunks@) + line_chunks(
                        self.pending@,
                        rem.drop_first(),
                    ).0);
                }
            } else {
                proof {
                    assert(line_chunks(pend_before, rem).0 == line_chunks(
                        self.pending@,
                        rem.drop_first(),
                    ).0);
                }
            }
            i = i + 1;
        }
        proof {
            assert(input@.skip(input@.len() as int) =~= Seq::<u8>::empty());
            assert(chunk_views(chunks@) + line_chunks(self.pending@, Seq::<u8>::empty()).0
                =~= chunk_views(chunks@));
        }
        chunks
    }
}

} // verus!
