//! Transform engine.
//!
//! Wraps rustfft's forward and inverse complex FFT of a fixed block length,
//! normalized by the reciprocal square root of that length on both
//! directions, so that a forward transform followed by an inverse one is the
//! identity up to floating-point rounding. The two block transforms are
//! trusted calls whose results are named; everything the engine does with
//! whole buffers (splitting them into blocks and stitching the results back
//! together) is verified.
use vstd::prelude::*;

use crate::errors::DspError;
use crate::signal::Signal;

verus! {

/// The normalized forward FFT of one block of samples.
pub uninterp spec fn fft_fwd_spec(s: Seq<num::complex::Complex64>) -> Seq<
    num::complex::Complex64,
>;

/// The normalized inverse FFT of one block of samples.
pub uninterp spec fn fft_rev_spec(s: Seq<num::complex::Complex64>) -> Seq<
    num::complex::Complex64,
>;

/// Relies on rustfft (`FftPlanner::plan_fft_forward`, `Fft::process`) for the
/// forward FFT of exactly one block. The result is scaled elementwise by the
/// complex number 1/sqrt(len); the scaling is inseparable float work, so it
/// stays inside this trusted body, and the contract names the scaled
/// transform, a function of the samples alone.
#[verifier::external_body]
fn fwd_block(buf: &mut Vec<num::complex::Complex64>)
    requires
        old(buf)@.len() >= 1,
    ensures
        final(buf)@ == fft_fwd_spec(old(buf)@),
        final(buf)@.len() == old(buf)@.len(),
{
    let mut planner = rustfft::FftPlanner::new();
    let fft = planner.plan_fft_forward(buf.len());
    fft.process(buf);
    let n = <num::complex::Complex64 as num::traits::FromPrimitive>::from_usize(buf.len())
        .unwrap_or(num::traits::One::one());
    let scale = n.sqrt().inv();
    buf.iter_mut().for_each(|x| *x = *x * scale);
}

/// Relies on rustfft (`FftPlanner::plan_fft_inverse`, `Fft::process`) for the
/// inverse FFT of exactly one block, scaled the same way as `fwd_block`.
#[verifier::external_body]
fn rev_block(buf: &mut Vec<num::complex::Complex64>)
    requires
        old(buf)@.len() >= 1,
    ensures
        final(buf)@ == fft_rev_spec(old(buf)@),
        final(buf)@.len() == old(buf)@.len(),
{
    let mut planner = rustfft::FftPlanner::new();
    let fft = planner.plan_fft_inverse(buf.len());
    fft.process(buf);
    let n = <num::complex::Complex64 as num::traits::FromPrimitive>::from_usize(buf.len())
        .unwrap_or(num::traits::One::one());
    let scale = n.sqrt().inv();
    buf.iter_mut().for_each(|x| *x = *x * scale);
}

/// The unnormalized forward DFT of one block of samples.
pub uninterp spec fn dft_fwd_spec(s: Seq<num::complex::Complex64>) -> Seq<
    num::complex::Complex64,
>;

/// Relies on rustfft (`FftPlanner::plan_fft_forward`, `Fft::process`) for
/// the raw, unscaled forward DFT of exactly one block. A kernel spectrum is
/// built with this once per filter: its extra sqrt(len) gain over the
/// unitary transform makes one block convolution equal direct convolution.
#[verifier::external_body]
pub(crate) fn dft_block(buf: &mut Vec<num::complex::Complex64>)
    requires
        old(buf)@.len() >= 1,
    ensures
        final(buf)@ == dft_fwd_spec(old(buf)@),
        final(buf)@.len() == old(buf)@.len(),
{
    let mut planner = rustfft::FftPlanner::new();
    let fft = planner.plan_fft_forward(buf.len());
    fft.process(buf);
}

/// A buffer of blocks of `len` samples, each forward-transformed on its own.
pub open spec fn fwd_blocks(s: Seq<num::complex::Complex64>, len: int) -> Seq<
    num::complex::Complex64,
>
    decreases s.len(),
{
    if len <= 0 || s.len() < len {
        Seq::empty()
    } else {
        fft_fwd_spec(s.take(len)) + fwd_blocks(s.skip(len), len)
    }
}

/// A buffer of blocks of `len` samples, each inverse-transformed on its own.
pub open spec fn rev_blocks(s: Seq<num::complex::Complex64>, len: int) -> Seq<
    num::complex::Complex64,
>
    decreases s.len(),
{
    if len <= 0 || s.len() < len {
        Seq::empty()
    } else {
        fft_rev_spec(s.take(len)) + rev_blocks(s.skip(len), len)
    }
}

/// A transform plan of one fixed block length.
///
/// rustfft's planner (which caches plan construction internally) is invoked
/// inside the trusted block transforms, so an engine value itself carries
/// only the block length and may be shared freely across threads.
pub struct RustFftInst {
    pub len: usize,
}

impl RustFftInst {
    pub open spec fn wf(&self) -> bool {
        self.len >= 1
    }

    /// Builds an engine for blocks of exactly `len` complex samples; a zero
    /// length is the one unsupported block length.
    pub fn new(len: usize) -> (r: Result<RustFftInst, DspError>)
        ensures
            match r {
                Ok(e) => len >= 1 && e.len == len && e.wf(),
                Err(e) => len == 0 && e == DspError::TransformError,
            },
    {
        if len == 0 {
            Err(DspError::TransformError)
        } else {
            Ok(RustFftInst { len })
        }
    }

    /// Forward FFT, in place, of a buffer holding a whole number of blocks.
    pub fn fft_fwd(&self, signal: &mut Vec<num::complex::Complex64>) -> (r: Result<
        (),
        DspError,
    >)
        requires
            self.wf(),
            (old(signal)@.len() as int) % (self.len as int) == 0,
        ensures
            r is Ok,
            final(signal)@ == fwd_blocks(old(signal)@, self.len as int),
            final(signal)@.len() == old(signal)@.len(),
    {
        self.transform_blocks(signal, true);
        Ok(())
    }

    /// Inverse FFT, in place, of a buffer holding a whole number of blocks.
    pub fn fft_rev(&self, signal: &mut Vec<num::complex::Complex64>) -> (r: Result<
        (),
        DspError,
    >)
        requires
            self.wf(),
            (old(signal)@.len() as int) % (self.len as int) == 0,
        ensures
            r is Ok,
            final(signal)@ == rev_blocks(old(signal)@, self.len as int),
            final(signal)@.len() == old(signal)@.len(),
    {
        self.transform_blocks(signal, false);
        Ok(())
    }

    /// Splits the buffer into blocks, transforms each, and reassembles it.
    fn transform_blocks(&self, signal: &mut Vec<num::complex::Complex64>, forward: bool)
        requires
            self.wf(),
            (old(signal)@.len() as int) % (self.len as int) == 0,
        ensures
            final(signal)@ == (if forward {
                fwd_blocks(old(signal)@, self.len as int)
            } else {
                rev_blocks(old(signal)@, self.len as int)
            }),
            final(signal)@.len() == old(signal)@.len(),
    {
        let mut rest: Vec<num::complex::Complex64> = Vec::new();
        core::mem::swap(&mut rest, signal);
        let mut out: Vec<num::complex::Complex64> = Vec::new();
        while rest.len() > 0
            invariant
                self.wf(),
                (rest@.len() as int) % (self.len as int) == 0,
                (if forward {
                    fwd_blocks(old(signal)@, self.len as int)
                } else {
                    rev_blocks(old(signal)@, self.len as int)
                }) == out@ + (if forward {
                    fwd_blocks(rest@, self.len as int)
                } else {
                    rev_blocks(rest@, self.len as int)
                }),
                out@.len() + rest@.len() == old(signal)@.len(),
            decreases rest@.len(),
        {
            let ghost rest0 = rest@;
            assert(rest@.len() >= self.len as int) by {
                if (rest@.len() as int) < (self.len as int) {
                    vstd::arithmetic::div_mod::lemma_small_mod(
                        rest@.len() as nat,
                        self.len as nat,
                    );
                }
            };
            let mut tail = rest.split_off(self.len);
            core::mem::swap(&mut rest, &mut tail);
            // tail now holds the first block, rest the remainder
            if forward {
                fwd_block(&mut tail);
            } else {
                rev_block(&mut tail);
            }
            out.append(&mut tail);
            assert(rest0.skip(self.len as int) =~= rest@);
            assert(((rest@.len() as int)) % (self.len as int) == 0) by {
                vstd::arithmetic::div_mod::lemma_mod_sub_multiples_vanish(
                    rest0.len() as int,
                    self.len as int,
                );
            };
        }
        assert(rest@.len() == 0);
        assert(out@ =~= out@ + Seq::<num::complex::Complex64>::empty());
        core::mem::swap(&mut out, signal);
    }
}

/// A buffer of exactly one block forward-transforms as that block.
pub proof fn lemma_one_block_fwd(s: Seq<num::complex::Complex64>, len: int)
    requires
        s.len() == len,
        len >= 1,
    ensures
        fwd_blocks(s, len) == fft_fwd_spec(s),
{
    assert(s.skip(len) =~= Seq::<num::complex::Complex64>::empty());
    assert(s.take(len) =~= s);
    assert(fwd_blocks(s.skip(len), len) == Seq::<num::complex::Complex64>::empty());
    assert(fwd_blocks(s, len) =~= fft_fwd_spec(s));
}

/// A buffer of exactly one block inverse-transforms as that block.
pub proof fn lemma_one_block_rev(s: Seq<num::complex::Complex64>, len: int)
    requires
        s.len() == len,
        len >= 1,
    ensures
        rev_blocks(s, len) == fft_rev_spec(s),
{
    assert(s.skip(len) =~= Seq::<num::complex::Complex64>::empty());
    assert(s.take(len) =~= s);
    assert(rev_blocks(s.skip(len), len) == Seq::<num::complex::Complex64>::empty());
    assert(rev_blocks(s, len) =~= fft_rev_spec(s));
}

impl Signal {
    /// The whole signal forward-transformed as one block.
    pub fn fft_fwd(self) -> (r: Result<Signal, DspError>)
        ensures
            match r {
                Ok(s) => {
                    &&& self@.len() >= 1
                    &&& s@ == fft_fwd_spec(self@)
                    &&& s.time == self.time
                    &&& s.sample_rate == self.sample_rate
                },
                Err(e) => self@.len() == 0 && e == DspError::TransformError,
            },
    {
        let mut this = self;
        let inst = RustFftInst::new(this.samples.len())?;
        let _ = inst.fft_fwd(&mut this.samples);
        let ghost n = self@.len() as int;
        assert(self@.skip(n) =~= Seq::<num::complex::Complex64>::empty());
        assert(self@.take(n) =~= self@);
        assert(fwd_blocks(self@.skip(n), n) == Seq::<num::complex::Complex64>::empty());
        assert(this@ =~= fft_fwd_spec(self@));
        Ok(this)
    }

    /// The whole signal inverse-transformed as one block.
    pub fn fft_rev(self) -> (r: Result<Signal, DspError>)
        ensures
            match r {
                Ok(s) => {
                    &&& self@.len() >= 1
                    &&& s@ == fft_rev_spec(self@)
                    &&& s.time == self.time
                    &&& s.sample_rate == self.sample_rate
                },
                Err(e) => self@.len() == 0 && e == DspError::TransformError,
            },
    {
        let mut this = self;
        let inst = RustFftInst::new(this.samples.len())?;
        let _ = inst.fft_rev(&mut this.samples);
        let ghost n = self@.len() as int;
        assert(self@.skip(n) =~= Seq::<num::complex::Complex64>::empty());
        assert(self@.take(n) =~= self@);
        assert(rev_blocks(self@.skip(n), n) == Seq::<num::complex::Complex64>::empty());
        assert(this@ =~= fft_rev_spec(self@));
        Ok(this)
    }
}

} // verus!
