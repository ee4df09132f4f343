//! Time-stamped sample buffers.
//!
//! A `Signal` owns an ordered buffer of complex samples together with its
//! sample rate and the logical sample index (`time`) of its first element,
//! relative to the stream it came from. The view of a `Signal` is the
//! sequence of its samples.
use vstd::prelude::*;

use crate::sample::{add_seq, c_add, c_conj, c_mul, conj_seq, mul_seq};

verus! {

/// Upper bound on the total number of samples one logical stream may carry,
/// so that sample-time arithmetic in `i64` cannot overflow.
pub const MAX_STREAM_SAMPLES: usize = 0x4000_0000;

/// Copies a sample buffer element by element.
pub fn copy_samples(v: &Vec<num::complex::Complex64>) -> (r: Vec<num::complex::Complex64>)
    ensures
        r@ == v@,
{
    let mut r: Vec<num::complex::Complex64> = Vec::new();
    let mut i: usize = 0;
    while i < v.len()
        invariant
            i <= v@.len(),
            r@ == v@.take(i as int),
        decreases v@.len() - i,
    {
        r.push(v[i]);
        assert(r@ =~= v@.take(i + 1));
        i = i + 1;
    }
    assert(r@ =~= v@);
    r
}

/// The samples of `v` from index `a` (inclusive) to `b` (exclusive).
pub fn copy_range(v: &Vec<num::complex::Complex64>, a: usize, b: usize) -> (r: Vec<
    num::complex::Complex64,
>)
    requires
        a <= b,
        b <= v@.len(),
    ensures
        r@ == v@.subrange(a as int, b as int),
{
    let mut r: Vec<num::complex::Complex64> = Vec::new();
    let mut i: usize = a;
    while i < b
        invariant
            a <= i <= b,
            b <= v@.len(),
            r@ == v@.subrange(a as int, i as int),
        decreases b - i,
    {
        r.push(v[i]);
        assert(r@ =~= v@.subrange(a as int, i + 1));
        i = i + 1;
    }
    r
}

/// An ordered sequence of complex samples, a sample rate in samples per
/// second, and the sample index of the first element relative to the
/// stream-wide origin.
#[derive(Clone)]
pub struct Signal {
    pub sample_rate: u32,
    pub time: i64,
    pub samples: Vec<num::complex::Complex64>,
}

impl View for Signal {
    type V = Seq<num::complex::Complex64>;

    open spec fn view(&self) -> Seq<num::complex::Complex64> {
        self.samples@
    }
}

impl Signal {
    /// An empty signal at time zero.
    pub fn new(sample_rate: u32) -> (r: Signal)
        ensures
            r@ == Seq::<num::complex::Complex64>::empty(),
            r.time == 0,
            r.sample_rate == sample_rate,
    {
        Signal { sample_rate, time: 0, samples: Vec::new() }
    }

    /// A signal at time zero owning the given samples.
    pub fn from_vec(sample_rate: u32, samples: Vec<num::complex::Complex64>) -> (r: Signal)
        ensures
            r@ == samples@,
            r.time == 0,
            r.sample_rate == sample_rate,
    {
        Signal { sample_rate, time: 0, samples }
    }

    /// The number of samples.
    pub fn len(&self) -> (r: usize)
        ensures
            r == self@.len(),
    {
        self.samples.len()
    }

    /// A deep copy, sample for sample.
    pub fn duplicate(&self) -> (r: Signal)
        ensures
            r@ == self@,
            r.time == self.time,
            r.sample_rate == self.sample_rate,
    {
        Signal { sample_rate: self.sample_rate, time: self.time, samples: copy_samples(&self.samples) }
    }

    /// Moves the samples of `other` onto the end of `self`, emptying `other`.
    pub fn append(&mut self, other: &mut Signal)
        ensures
            final(self)@ == old(self)@ + old(other)@,
            final(self).time == old(self).time,
            final(self).sample_rate == old(self).sample_rate,
            final(other)@ == Seq::<num::complex::Complex64>::empty(),
    {
        self.samples.append(&mut other.samples);
    }

    /// Moves the given samples onto the end of `self`.
    pub fn append_vec(&mut self, other: &mut Vec<num::complex::Complex64>)
        ensures
            final(self)@ == old(self)@ + old(other)@,
            final(self).time == old(self).time,
            final(self).sample_rate == old(self).sample_rate,
            final(other)@ == Seq::<num::complex::Complex64>::empty(),
    {
        self.samples.append(other);
    }

    /// Keeps the first `n` samples; a longer `n` leaves the signal unchanged.
    pub fn truncate(&mut self, n: usize)
        ensures
            final(self)@ == (if n <= old(self)@.len() { old(self)@.take(n as int) } else { old(self)@ }),
            final(self).time == old(self).time,
            final(self).sample_rate == old(self).sample_rate,
    {
        self.samples.truncate(n);
        if n > self.samples.len() {
            assert(final(self)@ =~= old(self)@);
        }
    }

    /// The elementwise conjugate, keeping the time stamp and sample rate.
    pub fn conj(self) -> (r: Signal)
        ensures
            r@ == conj_seq(self@),
            r.time == self.time,
            r.sample_rate == self.sample_rate,
    {
        let mut out: Vec<num::complex::Complex64> = Vec::new();
        let mut i: usize = 0;
        while i < self.samples.len()
            invariant
                i <= self@.len(),
                out@ == conj_seq(self@).take(i as int),
            decreases self@.len() - i,
        {
            out.push(c_conj(self.samples[i]));
            assert(out@ =~= conj_seq(self@).take(i + 1));
            i = i + 1;
        }
        assert(out@ =~= conj_seq(self@));
        Signal { sample_rate: self.sample_rate, time: self.time, samples: out }
    }

    /// The elementwise product over the common prefix of the two signals,
    /// stamped with the later of the two times.
    pub fn mul_elementwise(&self, rhs: &Signal) -> (r: Signal)
        ensures
            r@ == mul_seq(self@.take(min(self@.len() as int, rhs@.len() as int)),
                rhs@.take(min(self@.len() as int, rhs@.len() as int))),
            r.time == max_i64(self.time, rhs.time),
            r.sample_rate == self.sample_rate,
    {
        let n: usize = if self.samples.len() <= rhs.samples.len() {
            self.samples.len()
        } else {
            rhs.samples.len()
        };
        let ghost a = self@.take(n as int);
        let ghost b = rhs@.take(n as int);
        let mut out: Vec<num::complex::Complex64> = Vec::new();
        let mut i: usize = 0;
        while i < n
            invariant
                i <= n,
                n <= self@.len(),
                n <= rhs@.len(),
                a == self@.take(n as int),
                b == rhs@.take(n as int),
                out@ == mul_seq(a, b).take(i as int),
            decreases n - i,
        {
            out.push(c_mul(self.samples[i], rhs.samples[i]));
            assert(out@ =~= mul_seq(a, b).take(i + 1));
            i = i + 1;
        }
        assert(out@ =~= mul_seq(a, b));
        Signal {
            sample_rate: self.sample_rate,
            time: if self.time >= rhs.time { self.time } else { rhs.time },
            samples: out,
        }
    }

    /// The elementwise sum over the common prefix of the two signals,
    /// stamped with the later of the two times.
    pub fn add_elementwise(&self, rhs: &Signal) -> (r: Signal)
        ensures
            r@ == add_seq(self@.take(min(self@.len() as int, rhs@.len() as int)),
                rhs@.take(min(self@.len() as int, rhs@.len() as int))),
            r.time == max_i64(self.time, rhs.time),
            r.sample_rate == self.sample_rate,
    {
        let n: usize = if self.samples.len() <= rhs.samples.len() {
            self.samples.len()
        } else {
            rhs.samples.len()
        };
        let ghost a = self@.take(n as int);
        let ghost b = rhs@.take(n as int);
        let mut out: Vec<num::complex::Complex64> = Vec::new();
        let mut i: usize = 0;
        while i < n
            invariant
                i <= n,
                n <= self@.len(),
                n <= rhs@.len(),
                a == self@.take(n as int),
                b == rhs@.take(n as int),
                out@ == add_seq(a, b).take(i as int),
            decreases n - i,
        {
            out.push(c_add(self.samples[i], rhs.samples[i]));
            assert(out@ =~= add_seq(a, b).take(i + 1));
            i = i + 1;
        }
        assert(out@ =~= add_seq(a, b));
        Signal {
            sample_rate: self.sample_rate,
            time: if self.time >= rhs.time { self.time } else { rhs.time },
            samples: out,
        }
    }
}

/// The smaller of two mathematical integers.
pub open spec fn min(a: int, b: int) -> int {
    if a <= b { a } else { b }
}

/// The larger of two time stamps.
pub open spec fn max_i64(a: i64, b: i64) -> i64 {
    if a >= b { a } else { b }
}

} // verus!
