//! Fixed-capacity storage for encoded pulse durations.

use vstd::prelude::*;

use crate::sender::ProtocolEncoder;

verus! {

/// How many durations a load stores: all that the command needs, or all
/// that fit in the space left, whichever is fewer.
pub open spec fn written_len(remaining: int, needed: int) -> int {
    vstd::math::min(remaining, needed)
}

/// A fixed-capacity store of pulse durations with a write cursor. Only the
/// prefix up to the cursor is meaningful; entries past it are stale and are
/// never observable through the read operations.
pub struct PulsedataBuffer<const S: usize> {
    /// Backing storage, fixed at capacity `S`.
    pub buf: [u32; S],
    /// Number of valid durations at the front of `buf`.
    pub offset: usize,
}

impl<const S: usize> View for PulsedataBuffer<S> {
    type V = Seq<u32>;

    /// The loaded pulse train: the valid prefix of the storage.
    open spec fn view(&self) -> Seq<u32> {
        self.buf@.take(self.offset as int)
    }
}

impl<const S: usize> PulsedataBuffer<S> {
    /// Well-formed: the cursor never passes the capacity.
    pub open spec fn wf(&self) -> bool {
        self.offset <= S
    }

    /// Returns an empty buffer.
    pub fn new() -> (r: Self)
        ensures
            r.wf(),
            r@ == Seq::<u32>::empty(),
    {
        let r = Self { buf: [0; S], offset: 0 };
        proof {
            assert(r@ =~= Seq::<u32>::empty());
        }
        r
    }

    /// Logically clears the buffer by moving the cursor back to the start;
    /// the storage itself is kept as it is.
    pub fn reset(&mut self)
        ensures
            final(self).wf(),
            final(self)@ == Seq::<u32>::empty(),
            final(self).buf == old(self).buf,
    {
        self.offset = 0;
        proof {
            assert(self@ =~= Seq::<u32>::empty());
        }
    }

    /// Appends the encoding of `c` to the stored train, handing the encoder
    /// the remaining capacity as its window. A command whose encoding does
    /// not fit is silently truncated at the capacity boundary.
    pub fn load<E: ProtocolEncoder<F>, const F: u32>(&mut self, c: &E::Cmd)
        requires
            old(self).wf(),
        ensures
            final(self).wf(),
            final(self)@ == old(self)@ + E::pulses(c).take(
                written_len(S - old(self).offset, E::pulses(c).len() as int),
            ),
    {
        let s: &mut [u32] = vstd::array::ref_mut_array_unsizing_coercion(&mut self.buf);
        let (head, window) = s.split_at_mut(self.offset);
        let written: usize = E::encode(c, window);
        proof {
            assert(self.buf@.take((old(self).offset + written) as int) =~= old(self)@
                + E::pulses(c).take(written as int));
        }
        self.offset = self.offset + written;
    }

    /// Reads the duration at `index`; absent for any index at or past the
    /// cursor, whatever the buffer's state.
    pub fn get(&self, index: usize) -> (r: Option<u32>)
        requires
            self.wf(),
        ensures
            r == if index < self@.len() {
                Some(self@[index as int])
            } else {
                None::<u32>
            },
    {
        if index < self.offset {
            Some(self.buf[index])
        } else {
            None
        }
    }

    /// The loaded pulse train as a read-only slice.
    pub fn buffer(&self) -> (r: &[u32])
        requires
            self.wf(),
        ensures
            r@ == self@,
    {
        vstd::slice::slice_subrange(self.buf.as_slice(), 0, self.offset)
    }

    /// Starts an independent walk over the loaded train, in insertion
    /// order. The buffer is not consumed: several walks may coexist, and a
    /// fresh one can be started at any time.
    pub fn into_iter(&self) -> (it: PulseIterator<'_>)
        requires
            self.wf(),
        ensures
            it.wf(),
            it@ == self@,
            it.pos == 0,
            it.pulses@ == self@,
    {
        let it = PulseIterator { pulses: self.buffer(), pos: 0 };
        proof {
            assert(it@ =~= self@);
        }
        it
    }
}

/// A walk over a loaded pulse train, yielding the durations still ahead of
/// it in insertion order.
pub struct PulseIterator<'a> {
    /// The full train being walked.
    pub pulses: &'a [u32],
    /// How many durations have been yielded already.
    pub pos: usize,
}

impl<'a> View for PulseIterator<'a> {
    type V = Seq<u32>;

    /// The durations not yet yielded.
    open spec fn view(&self) -> Seq<u32> {
        self.pulses@.skip(self.pos as int)
    }
}

impl<'a> PulseIterator<'a> {
    /// Well-formed: the position never passes the train's end.
    pub open spec fn wf(&self) -> bool {
        self.pos <= self.pulses@.len()
    }

    /// Yields the next duration, or nothing once the walk is done.
    pub fn next(&mut self) -> (r: Option<u32>)
        requires
            old(self).wf(),
        ensures
            final(self).wf(),
            final(self).pulses == old(self).pulses,
            old(self)@.len() > 0 ==> {
                &&& r == Some(old(self)@[0])
                &&& final(self)@ == old(self)@.drop_first()
                &&& final(self).pos == old(self).pos + 1
            },
            old(self)@.len() == 0 ==> {
                &&& r == None::<u32>
                &&& final(self)@ == old(self)@
                &&& final(self).pos == old(self).pos
            },
    {
        if self.pos == self.pulses.len() {
            None
        } else {
            let r: u32 = self.pulses[self.pos];
            self.pos = self.pos + 1;
            proof {
                assert(self@ =~= old(self)@.drop_first());
            }
            Some(r)
        }
    }
}

/// A load whose encoding fits in the space left appends it whole: the
/// train grows by exactly the encoding's length, every earlier duration
/// keeps its position and value, and the appended ones follow in encoder
/// order. Applied load by load, this gives the cumulative length and
/// content of any sequence of loads within capacity.
pub proof fn lemma_load_within_capacity(before: Seq<u32>, encoding: Seq<u32>, capacity: int)
    requires
        before.len() + encoding.len() <= capacity,
    ensures
        before + encoding.take(written_len(capacity - before.len(), encoding.len() as int))
            == before + encoding,
        (before + encoding).len() == before.len() + encoding.len(),
        forall|i: int| 0 <= i < before.len() ==> (before + encoding)[i] == before[i],
        forall|i: int|
            0 <= i < encoding.len() ==> (before + encoding)[before.len() + i] == encoding[i],
{
    assert(encoding.take(encoding.len() as int) =~= encoding);
}

/// A load whose encoding exceeds the space left truncates
/// deterministically: exactly the remaining capacity is written, and the
/// buffer ends up full, holding the encoding's prefix after what it
/// already held.
pub proof fn lemma_load_truncates(before: Seq<u32>, encoding: Seq<u32>, capacity: int)
    requires
        0 <= capacity - before.len() < encoding.len(),
    ensures
        written_len(capacity - before.len(), encoding.len() as int) == capacity - before.len(),
        (before + encoding.take(capacity - before.len())).len() == capacity,
{
}

/// A reset discards every entry, so any read on the reset buffer is
/// absent; a load that follows restores valid entries from index zero, in
/// encoder order.
pub proof fn lemma_reset_then_reload(
    after_reset: Seq<u32>,
    reloaded: Seq<u32>,
    encoding: Seq<u32>,
    capacity: int,
)
    requires
        after_reset == Seq::<u32>::empty(),
        reloaded == after_reset + encoding.take(
            written_len(capacity - after_reset.len(), encoding.len() as int),
        ),
        encoding.len() <= capacity,
    ensures
        after_reset.len() == 0,
        reloaded.len() == encoding.len(),
        forall|i: int| 0 <= i < encoding.len() ==> reloaded[i] == encoding[i],
{
    assert(encoding.take(encoding.len() as int) =~= encoding);
    assert(Seq::<u32>::empty() + encoding =~= encoding);
}

} // verus!
