//! Fragment re-chunker.
//!
//! Buffers arbitrarily sized sample pushes and hands them back out as
//! fixed-length fragments, each stamped with a monotonically advancing,
//! gap-free sample-time cursor that starts at zero and moves forward by
//! exactly one fragment length per fragment.
use vstd::prelude::*;

use crate::sample::{all_zero, zero_block, zeros};
use crate::signal::{Signal, MAX_STREAM_SAMPLES};

verus! {

/// Re-frames a stream of pushed samples into fragments of `frag_len` samples.
///
/// `time` is the sample-time cursor: the stamp the next fragment will carry.
/// `overflow` holds the samples pushed but not yet handed out.
pub struct Refragmenter {
    pub time: i64,
    pub overflow: Signal,
    pub frag_len: usize,
}

impl Refragmenter {
    /// Well-formed: a positive fragment length, a cursor that never runs
    /// backwards, and a total sample count small enough that stamp
    /// arithmetic stays inside `i64`.
    pub open spec fn wf(&self) -> bool {
        &&& 1 <= self.frag_len
        &&& 0 <= self.time
        &&& self.time + self.overflow@.len() + self.frag_len <= MAX_STREAM_SAMPLES as int
    }

    pub fn new(sample_rate: u32, frag_len: usize) -> (r: Refragmenter)
        requires
            1 <= frag_len,
            frag_len < MAX_STREAM_SAMPLES,
        ensures
            r.wf(),
            r.time == 0,
            r.overflow@ == Seq::<num::complex::Complex64>::empty(),
            r.frag_len == frag_len,
            r.overflow.sample_rate == sample_rate,
    {
        Refragmenter { time: 0, overflow: Signal::new(sample_rate), frag_len }
    }

    /// Appends the samples of `sig` to the overflow buffer, emptying `sig`.
    /// The cursor does not move: stamps depend only on how many samples have
    /// left as fragments, never on how the input was chopped up.
    pub fn push(&mut self, sig: &mut Signal)
        requires
            old(self).wf(),
            old(self).time + old(self).overflow@.len() + old(sig)@.len() + old(self).frag_len
                <= MAX_STREAM_SAMPLES as int,
        ensures
            final(self).wf(),
            final(self).overflow@ == old(self).overflow@ + old(sig)@,
            final(self).time == old(self).time,
            final(self).frag_len == old(self).frag_len,
            final(self).overflow.sample_rate == old(self).overflow.sample_rate,
            final(sig)@ == Seq::<num::complex::Complex64>::empty(),
    {
        self.overflow.append(sig);
    }

    /// Removes and returns the first `frag_len` buffered samples as a
    /// fragment stamped with the current cursor, advancing the cursor by
    /// `frag_len`; returns `None`, changing nothing, when fewer than
    /// `frag_len` samples are buffered.
    pub fn next_fragment(&mut self) -> (r: Option<Signal>)
        requires
            old(self).wf(),
        ensures
            final(self).wf(),
            final(self).frag_len == old(self).frag_len,
            final(self).overflow.sample_rate == old(self).overflow.sample_rate,
            match r {
                Some(frag) => {
                    &&& old(self).overflow@.len() >= old(self).frag_len
                    &&& frag@ == old(self).overflow@.take(old(self).frag_len as int)
                    &&& frag@.len() == old(self).frag_len
                    &&& frag.time == old(self).time
                    &&& frag.sample_rate == old(self).overflow.sample_rate
                    &&& final(self).overflow@ == old(self).overflow@.skip(
                        old(self).frag_len as int,
                    )
                    &&& final(self).time == old(self).time + old(self).frag_len
                },
                None => {
                    &&& old(self).overflow@.len() < old(self).frag_len
                    &&& final(self).overflow@ == old(self).overflow@
                    &&& final(self).time == old(self).time
                },
            },
    {
        if self.overflow.len() >= self.frag_len {
            let mut head: Vec<num::complex::Complex64> = Vec::new();
            core::mem::swap(&mut head, &mut self.overflow.samples);
            let tail = head.split_off(self.frag_len);
            self.overflow.samples = tail;
            let mut frag = Signal::from_vec(self.overflow.sample_rate, head);
            frag.time = self.time;
            self.time = self.time + self.frag_len as i64;
            Some(frag)
        } else {
            None
        }
    }

    /// Law (monotonic re-chunking): draining yields every complete fragment
    /// of the buffered stream — the k-th carries exactly its samples
    /// `k*frag_len .. (k+1)*frag_len` and the stamp `time + k*frag_len` — so
    /// however irregularly the stream was pushed, the fragments all have
    /// length `frag_len` and strictly increasing, contiguous, gap-free
    /// stamps advancing by `frag_len` each. Only the incomplete remainder
    /// stays buffered.
    pub fn fragments(&mut self) -> (r: Vec<Signal>)
        requires
            old(self).wf(),
        ensures
            final(self).wf(),
            final(self).frag_len == old(self).frag_len,
            final(self).overflow.sample_rate == old(self).overflow.sample_rate,
            r@.len() == old(self).overflow@.len() as int / old(self).frag_len as int,
            forall|k: int|
                0 <= k < r@.len() ==> {
                    &&& (#[trigger] r@[k])@ == old(self).overflow@.subrange(
                        k * old(self).frag_len,
                        (k + 1) * old(self).frag_len,
                    )
                    &&& r@[k]@.len() == old(self).frag_len
                    &&& r@[k].time == old(self).time + k * old(self).frag_len
                    &&& r@[k].sample_rate == old(self).overflow.sample_rate
                },
            final(self).overflow@ == old(self).overflow@.skip(
                r@.len() * old(self).frag_len as int,
            ),
            final(self).overflow@.len() < old(self).frag_len,
            final(self).time == old(self).time + r@.len() * old(self).frag_len,
    {
        let ghost stream0 = self.overflow@;
        let ghost t0 = self.time;
        let ghost f = self.frag_len as int;
        let mut r: Vec<Signal> = Vec::new();
        proof {
            assert(r@.len() * f == 0) by (nonlinear_arith)
                requires r@.len() == 0;
            assert(stream0.skip(0) =~= stream0);
        }
        let mut more = true;
        while more
            invariant
                self.wf(),
                self.frag_len == old(self).frag_len,
                self.overflow.sample_rate == old(self).overflow.sample_rate,
                stream0 == old(self).overflow@,
                t0 == old(self).time,
                f == self.frag_len as int,
                forall|k: int|
                    0 <= k < r@.len() ==> {
                        &&& (#[trigger] r@[k])@ == stream0.subrange(k * f, (k + 1) * f)
                        &&& r@[k]@.len() == f
                        &&& r@[k].time == t0 + k * f
                        &&& r@[k].sample_rate == old(self).overflow.sample_rate
                    },
                0 <= r@.len() * f <= stream0.len(),
                self.overflow@ == stream0.skip(r@.len() * f),
                self.time == t0 + r@.len() * f,
                !more ==> self.overflow@.len() < f,
            decreases self.overflow@.len() + (if more { 1int } else { 0int }),
        {
            let ghost k = r@.len() as int;
            match self.next_fragment() {
                None => {
                    more = false;
                },
                Some(frag) => {
                    proof {
                        assert((k + 1) * f == k * f + f) by (nonlinear_arith);
                        assert(frag@ =~= stream0.subrange(k * f, (k + 1) * f));
                        assert(stream0.skip(k * f).skip(f) =~= stream0.skip(k * f + f));
                    }
                    r.push(frag);
                },
            }
        }
        proof {
            let k = r@.len() as int;
            assert(stream0.len() == k * f + self.overflow@.len());
            vstd::arithmetic::div_mod::lemma_fundamental_div_mod_converse(
                stream0.len() as int,
                f,
                k,
                self.overflow@.len() as int,
            );
        }
        r
    }

    /// Flushes the remainder: when the overflow buffer is non-empty it is
    /// zero-padded up to a full fragment, stamped with the current cursor,
    /// and returned; an empty buffer yields nothing. Consumes the
    /// re-chunker, so a partial fragment can only ever be emitted once,
    /// and only by this explicit call.
    pub fn finish(self) -> (r: Option<Signal>)
        requires
            self.wf(),
            self.overflow@.len() <= self.frag_len,
        ensures
            match r {
                Some(frag) => {
                    &&& self.overflow@.len() > 0
                    &&& frag@ == self.overflow@ + zero_block(
                        self.frag_len - self.overflow@.len(),
                    )
                    &&& frag@.len() == self.frag_len
                    &&& all_zero(frag@.skip(self.overflow@.len() as int))
                    &&& frag.time == self.time
                    &&& frag.sample_rate == self.overflow.sample_rate
                },
                None => self.overflow@.len() == 0,
            },
    {
        let mut this = self;
        let len = this.overflow.len();
        if len != 0 {
            let mut pad = zeros(this.frag_len - len);
            this.overflow.append_vec(&mut pad);
            this.overflow.time = this.time;
            assert(this.overflow@.skip(len as int) =~= zero_block(this.frag_len - len as int));
            Some(this.overflow)
        } else {
            None
        }
    }
}

} // verus!
