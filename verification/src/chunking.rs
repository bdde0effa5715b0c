//! Chunks of a byte stream, closed by a pause or by the end of the stream.

use vstd::prelude::*;

verus! {

/// How long a stream must be silent for the current chunk to be complete.
#[derive(Clone, Copy, Debug, PartialEq, Eq, Structural)]
pub struct QuiescencePolicy {
    pub chunk_quiescence_ms: u64,
}

/// What a read of the stream brought.
#[derive(Clone, Copy, Debug, PartialEq, Eq)]
pub enum ReadSignal<'a> {
    Data(&'a [u8]),
    Quiescent,
    Eof,
}

/// Collects the bytes of the current chunk.
#[derive(Clone, Debug, PartialEq, Eq)]
pub struct ChunkAccumulator {
    policy: QuiescencePolicy,
    buffer: Vec<u8>,
}

/// The bytes of a chunk, if there is one.
pub open spec fn chunk_bytes(chunk: Option<Vec<u8>>) -> Option<Seq<u8>> {
    match chunk {
        Some(chunk) => Some(chunk@),
        None => None,
    }
}

impl View for ChunkAccumulator {
    type V = Seq<u8>;

    /// The bytes of the current chunk.
    closed spec fn view(&self) -> Seq<u8> {
        self.buffer@
    }
}

/// What a signal does to the current chunk: data is appended; a pause or the end
/// of the stream closes the chunk, and an empty chunk is none.
pub open spec fn pushed(pending: Seq<u8>, signal: ReadSignal<'_>) -> (Seq<u8>, Option<Seq<u8>>) {
    match signal {
        ReadSignal::Data(bytes) => (pending + bytes@, None),
        ReadSignal::Quiescent | ReadSignal::Eof => (
            Seq::empty(),
            if pending.len() > 0 {
                Some(pending)
            } else {
                None
            },
        ),
    }
}

impl ChunkAccumulator {
    /// The policy under which chunks are closed.
    pub closed spec fn spec_policy(&self) -> QuiescencePolicy {
        self.policy
    }

    /// An accumulator without pending bytes.
    pub fn new(policy: QuiescencePolicy) -> (accumulator: Self)
        ensures
            accumulator@ == Seq::<u8>::empty(),
            accumulator.spec_policy() == policy,
    {
        ChunkAccumulator { policy, buffer: Vec::new() }
    }

    /// The policy under which chunks are closed.
    pub fn policy(&self) -> (policy: QuiescencePolicy)
        ensures
            policy == self.spec_policy(),
    {
        self.policy
    }

    /// Takes in a signal and hands out the chunk that it closes.
    pub fn push(&mut self, signal: ReadSignal<'_>) -> (chunk: Option<Vec<u8>>)
        ensures
            (final(self)@, chunk_bytes(chunk)) == pushed(old(self)@, signal),
            final(self).spec_policy() == old(self).spec_policy(),
    {
        match signal {
            ReadSignal::Data(bytes) => {
                self.buffer.extend_from_slice(bytes);
                assert(self.buffer@ =~= old(self)@ + bytes@);
                None
            },
            ReadSignal::Quiescent | ReadSignal::Eof => self.flush(),
        }
    }

    fn flush(&mut self) -> (chunk: Option<Vec<u8>>)
        ensures
            (final(self)@, chunk_bytes(chunk)) == pushed(old(self)@, ReadSignal::Quiescent),
            final(self).spec_policy() == old(self).spec_policy(),
    {
        if self.buffer.len() == 0 {
            assert(self.buffer@ =~= Seq::empty());
            None
        } else {
            let mut chunk: Vec<u8> = Vec::new();
            std::mem::swap(&mut chunk, &mut self.buffer);
            Some(chunk)
        }
    }
}

/// The state after several signals, with the chunks that they closed, in order.
pub open spec fn pushed_all(pending: Seq<u8>, signals: Seq<ReadSignal<'_>>) -> (
    Seq<u8>,
    Seq<Seq<u8>>,
)
    decreases signals.len(),
{
    if signals.len() == 0 {
        (pending, Seq::empty())
    } else {
        let (before, chunks) = pushed_all(pending, signals.drop_last());
        let (after, chunk) = pushed(before, signals.last());
        (
            after,
            match chunk {
                Some(chunk) => chunks.push(chunk),
                None => chunks,
            },
        )
    }
}

/// All data of some signals, in order.
pub open spec fn data_of(signals: Seq<ReadSignal<'_>>) -> Seq<u8>
    decreases signals.len(),
{
    if signals.len() == 0 {
        Seq::empty()
    } else {
        match signals.last() {
            ReadSignal::Data(bytes) => data_of(signals.drop_last()) + bytes@,
            _ => data_of(signals.drop_last()),
        }
    }
}

/// No byte is lost, added or moved: the closed chunks followed by the pending
/// bytes are what was pending before followed by all data, and no closed chunk
/// is empty.
pub proof fn chunks_keep_the_stream(pending: Seq<u8>, signals: Seq<ReadSignal<'_>>)
    ensures
        pushed_all(pending, signals).1.flatten() + pushed_all(pending, signals).0 == pending
            + data_of(signals),
        forall|i: int|
            0 <= i < pushed_all(pending, signals).1.len() ==> (#[trigger] pushed_all(
                pending,
                signals,
            ).1[i]).len() > 0,
    decreases signals.len(),
{
    if signals.len() == 0 {
        assert(Seq::<Seq<u8>>::empty().flatten() + pending =~= pending + Seq::empty());
    } else {
        let rest = signals.drop_last();
        chunks_keep_the_stream(pending, rest);
        let (before, chunks) = pushed_all(pending, rest);
        let (after, chunk) = pushed(before, signals.last());
        match signals.last() {
            ReadSignal::Data(bytes) => {
                assert(chunks.flatten() + (before + bytes@) =~= (chunks.flatten() + before)
                    + bytes@);
                assert(pending + (data_of(rest) + bytes@) =~= (pending + data_of(rest)) + bytes@);
            },
            _ => {
                if before.len() > 0 {
                    chunks.lemma_flatten_push(before);
                    assert(chunks.push(before).flatten() + Seq::empty() =~= chunks.flatten()
                        + before);
                } else {
                    assert(chunks.flatten() + Seq::empty() =~= chunks.flatten() + before);
                }
            },
        }
    }
}

} // verus!
