//! Streaming convolution filter.
//!
//! Convolves a continuous, chunked stream of samples against a fixed
//! finite-impulse-response kernel by the overlap-add method: the input is
//! re-chunked into step-sized fragments, each fragment is zero-padded to the
//! block length, transformed, multiplied by the kernel spectrum, transformed
//! back, and combined with the overlap tail carried from the previous block.
//! What each block convolution returns is named (the transforms are trusted
//! calls); every piece of bookkeeping around them — block and step sizes,
//! zero padding, overlap threading, emitted lengths, and time stamps — is
//! verified.
use vstd::prelude::*;

use crate::errors::DspError;
use crate::refragment::Refragmenter;
use crate::sample::{add_c, all_zero, mul_seq, zero_block, zeros};
use crate::signal::{min, Signal, MAX_STREAM_SAMPLES};
use crate::transform::{
    dft_block, dft_fwd_spec, fft_fwd_spec, fft_rev_spec, lemma_one_block_fwd,
    lemma_one_block_rev, RustFftInst,
};

verus! {

/// Upper bound on the kernel length, so the derived block length and all
/// time arithmetic fit comfortably in the machine integers.
pub const MAX_KERNEL_LEN: usize = 0x0010_0000;

/// Whether `n` is a power of two.
pub open spec fn is_pow2(n: int) -> bool
    decreases n,
{
    if n <= 0 {
        false
    } else if n == 1 {
        true
    } else {
        n % 2 == 0 && is_pow2(n / 2)
    }
}

/// The smallest power of two at or above `k` (1 for `k <= 1`).
pub open spec fn pow2_at_least(k: int) -> int
    decreases k,
{
    if k <= 1 {
        1
    } else {
        2 * pow2_at_least((k + 1) / 2)
    }
}

/// The processing block length chosen for a kernel of length `k`: eight
/// times the smallest power of two covering the kernel.
pub open spec fn block_len_of(k: int) -> int {
    8 * pow2_at_least(k)
}

/// The step size for a kernel of length `k`: one block minus the kernel
/// tail, so successive blocks overlap by `k - 1` samples.
pub open spec fn step_of(k: int) -> int {
    block_len_of(k) - (k - 1)
}

/// The reported output time delay for a kernel of length `k`: half the
/// overlap width, rounding down.
pub open spec fn delay_of(k: int) -> int {
    (k - 1) / 2
}

/// The smallest power of two at or above `k`, computed by halving.
fn pow2_at_least_exec(k: usize) -> (r: usize)
    requires
        k <= MAX_KERNEL_LEN,
    ensures
        r == pow2_at_least(k as int),
        is_pow2(r as int),
        k >= 1 ==> k <= r && r < 2 * k,
        k == 0 ==> r == 1,
    decreases k,
{
    if k <= 1 {
        1
    } else {
        let half = (k + 1) / 2;
        let r2 = pow2_at_least_exec(half);
        proof {
            assert(is_pow2(2 * r2 as int));
            if k % 2 == 1 && r2 == k {
                assert(!is_pow2(k as int));
                assert(false);
            }
        }
        2 * r2
    }
}

/// One block convolution: the chunk zero-padded to the block length,
/// forward-transformed, multiplied elementwise by the kernel spectrum, and
/// transformed back.
pub open spec fn conv_block(
    chunk: Seq<num::complex::Complex64>,
    kfft: Seq<num::complex::Complex64>,
    len: int,
    step: int,
) -> Seq<num::complex::Complex64> {
    fft_rev_spec(mul_seq(fft_fwd_spec(chunk + zero_block(len - step)), kfft))
}

/// Overlap-add combination: the first `ov.len()` samples of the block result
/// receive the carried tail, the rest pass through.
pub open spec fn overlap_add(
    y: Seq<num::complex::Complex64>,
    ov: Seq<num::complex::Complex64>,
    len: int,
) -> Seq<num::complex::Complex64> {
    Seq::new(len as nat, |i: int| if i < ov.len() { add_c(y[i], ov[i]) } else { y[i] })
}

/// The samples emitted by block-convolving successive step-sized chunks of
/// `input`, threading the overlap tail from block to block.
pub open spec fn oa_output(
    input: Seq<num::complex::Complex64>,
    ov: Seq<num::complex::Complex64>,
    kfft: Seq<num::complex::Complex64>,
    len: int,
    step: int,
) -> Seq<num::complex::Complex64>
    decreases input.len(),
{
    if step <= 0 || input.len() < step {
        Seq::empty()
    } else {
        let comb = overlap_add(conv_block(input.take(step), kfft, len, step), ov, len);
        comb.take(step) + oa_output(input.skip(step), comb.skip(step), kfft, len, step)
    }
}

/// The overlap tail left after block-convolving successive step-sized chunks
/// of `input`.
pub open spec fn oa_tail(
    input: Seq<num::complex::Complex64>,
    ov: Seq<num::complex::Complex64>,
    kfft: Seq<num::complex::Complex64>,
    len: int,
    step: int,
) -> Seq<num::complex::Complex64>
    decreases input.len(),
{
    if step <= 0 || input.len() < step {
        ov
    } else {
        let comb = overlap_add(conv_block(input.take(step), kfft, len, step), ov, len);
        oa_tail(input.skip(step), comb.skip(step), kfft, len, step)
    }
}

/// Everything one-shot filtering emits for a buffered stream `input`
/// entering a filter with overlap tail `ov`: the overlap-add output of the
/// complete step-sized fragments, then the flush block built from the
/// zero-padded remainder, truncated so that when the remainder and the
/// kernel tail fit one step, exactly `input.len() + 2*delay` samples leave
/// in total.
pub open spec fn oneshot_output(
    input: Seq<num::complex::Complex64>,
    ov: Seq<num::complex::Complex64>,
    kfft: Seq<num::complex::Complex64>,
    len: int,
    step: int,
    delay: int,
) -> Seq<num::complex::Complex64> {
    let emitted = (input.len() as int / step) * step;
    let rem = input.skip(emitted);
    let flush = overlap_add(
        conv_block(rem + zero_block(step - rem.len()), kfft, len, step),
        oa_tail(input, ov, kfft, len, step),
        len,
    );
    oa_output(input, ov, kfft, len, step) + flush.take(min(step, rem.len() + 2 * delay))
}

/// The number of samples one-shot filtering returns for an input of length
/// `n`: every complete step, plus the truncated flush block.
pub open spec fn full_len(n: int, step: int, d: int) -> int {
    (n / step) * step + min(step, n % step + 2 * d)
}

/// Overlap-add streaming filter for one fixed kernel.
pub struct Filter {
    pub refrag: Refragmenter,
    pub kernel_fft: Signal,
    pub fft: RustFftInst,
    pub len: usize,
    pub time_delay: usize,
    pub submitted: usize,
    pub step_size: usize,
    pub overlap: Vec<num::complex::Complex64>,
    pub sample_rate: u32,
}

impl Filter {
    /// The fixed block geometry: block and step sizes, the kernel spectrum
    /// and overlap tail lengths, and the reported delay all agree.
    pub open spec fn geom_wf(&self) -> bool {
        &&& 1 <= self.step_size <= self.len
        &&& self.len <= MAX_KERNEL_LEN * 16
        &&& self.fft.len == self.len
        &&& self.kernel_fft@.len() == self.len
        &&& self.kernel_fft.sample_rate == self.sample_rate
        &&& self.overlap@.len() == self.len - self.step_size
        &&& self.time_delay == (self.len - self.step_size) / 2
    }

    /// Structural well-formedness: the geometry is consistent, the
    /// re-chunker matches it, and the sample counters are in range.
    pub open spec fn wf(&self) -> bool {
        &&& self.geom_wf()
        &&& self.refrag.wf()
        &&& self.refrag.frag_len == self.step_size
        &&& self.refrag.overflow.sample_rate == self.sample_rate
        &&& self.submitted == self.refrag.time + self.refrag.overflow@.len()
        &&& self.submitted <= MAX_STREAM_SAMPLES
    }

    /// Between public calls the re-chunker is drained: fewer than one full
    /// step of samples is buffered.
    pub open spec fn drained(&self) -> bool {
        self.refrag.overflow@.len() < self.step_size
    }

    /// Builds a filter from a finite kernel.
    ///
    /// The block length is eight times the smallest power of two at or above
    /// the kernel length, the step size leaves room for the kernel's tail,
    /// and the kernel spectrum is the zero-padded kernel transformed once.
    /// An empty kernel (or one beyond the supported bound) is rejected.
    pub fn new(kernel: Signal) -> (r: Result<Filter, DspError>)
        ensures
            match r {
                Ok(f) => {
                    &&& 1 <= kernel@.len() <= MAX_KERNEL_LEN
                    &&& f.wf()
                    &&& f.drained()
                    &&& f.len == block_len_of(kernel@.len() as int)
                    &&& f.step_size == step_of(kernel@.len() as int)
                    &&& f.step_size == f.len - (kernel@.len() - 1)
                    &&& f.time_delay == delay_of(kernel@.len() as int)
                    &&& f.kernel_fft@ == dft_fwd_spec(
                        kernel@ + zero_block(f.len - kernel@.len()),
                    )
                    &&& f.overlap@ == zero_block(f.len - f.step_size)
                    &&& all_zero(f.overlap@)
                    &&& f.time_delay == (f.len - f.step_size) / 2
                    &&& f.submitted == 0
                    &&& f.refrag.time == 0
                    &&& f.refrag.overflow@.len() == 0
                    &&& f.sample_rate == kernel.sample_rate
                },
                Err(e) => {
                    &&& e == DspError::InvalidKernel
                    &&& (kernel@.len() == 0 || kernel@.len() > MAX_KERNEL_LEN)
                },
            },
    {
        let kern_len = kernel.len();
        if kern_len == 0 || kern_len > MAX_KERNEL_LEN {
            return Err(DspError::InvalidKernel);
        }
        let m = pow2_at_least_exec(kern_len);
        let len: usize = 8 * m;
        let step_size: usize = len - (kern_len - 1);
        let sample_rate = kernel.sample_rate;
        let refrag = Refragmenter::new(sample_rate, step_size);
        let fft = match RustFftInst::new(len) {
            Ok(f) => f,
            Err(_) => {
                return Err(DspError::InvalidKernel);
            },
        };
        let mut kernel = kernel;
        let mut pad = zeros(len - kern_len);
        kernel.append_vec(&mut pad);
        dft_block(&mut kernel.samples);
        let overlap = zeros(len - step_size);
        Ok(
            Filter {
                refrag,
                kernel_fft: kernel,
                fft,
                len,
                time_delay: (len - step_size) / 2,
                submitted: 0,
                step_size,
                overlap,
                sample_rate,
            },
        )
    }

    /// Convolves one step-sized chunk: pads it to a block, transforms,
    /// multiplies by the kernel spectrum, transforms back, adds the carried
    /// overlap onto the head, emits the first `step_size` samples and keeps
    /// the rest as the new overlap tail.
    fn process_chunk(&mut self, chunk: &Signal) -> (out: Vec<num::complex::Complex64>)
        requires
            old(self).geom_wf(),
            chunk@.len() == old(self).step_size,
        ensures
            final(self).geom_wf(),
            out@ == overlap_add(
                conv_block(
                    chunk@,
                    old(self).kernel_fft@,
                    old(self).len as int,
                    old(self).step_size as int,
                ),
                old(self).overlap@,
                old(self).len as int,
            ).take(old(self).step_size as int),
            out@.len() == old(self).step_size,
            final(self).overlap@ == overlap_add(
                conv_block(
                    chunk@,
                    old(self).kernel_fft@,
                    old(self).len as int,
                    old(self).step_size as int,
                ),
                old(self).overlap@,
                old(self).len as int,
            ).skip(old(self).step_size as int),
            final(self).refrag == old(self).refrag,
            final(self).kernel_fft == old(self).kernel_fft,
            final(self).len == old(self).len,
            final(self).step_size == old(self).step_size,
            final(self).time_delay == old(self).time_delay,
            final(self).submitted == old(self).submitted,
            final(self).sample_rate == old(self).sample_rate,
            final(self).fft == old(self).fft,
    {
        let ghost len = self.len as int;
        let ghost step = self.step_size as int;
        let mut buf = crate::signal::copy_samples(&chunk.samples);
        let mut pad = zeros(self.len - self.step_size);
        buf.append(&mut pad);
        proof {
            vstd::arithmetic::div_mod::lemma_mod_self_0(len);
        }
        let _ = self.fft.fft_fwd(&mut buf);
        proof {
            lemma_one_block_fwd(chunk@ + zero_block(len - step), len);
        }
        let mut prod = crate::sample::mul_elementwise(&buf, &self.kernel_fft.samples);
        let _ = self.fft.fft_rev(&mut prod);
        proof {
            lemma_one_block_rev(
                mul_seq(fft_fwd_spec(chunk@ + zero_block(len - step)), self.kernel_fft@),
                len,
            );
        }
        let ghost y = conv_block(chunk@, self.kernel_fft@, len, step);
        assert(prod@ == y);
        let ghost comb = overlap_add(y, self.overlap@, len);
        let mut combined: Vec<num::complex::Complex64> = Vec::new();
        let ov_len: usize = self.len - self.step_size;
        let mut j: usize = 0;
        while j < self.len
            invariant
                j <= self.len,
                prod@ == y,
                y.len() == self.len,
                ov_len == self.overlap@.len(),
                ov_len <= self.len,
                comb == overlap_add(y, self.overlap@, self.len as int),
                combined@ == comb.take(j as int),
                self == old(self),
            decreases self.len - j,
        {
            if j < ov_len {
                combined.push(c_add_at(&prod, &self.overlap, j));
            } else {
                combined.push(prod[j]);
            }
            assert(combined@ =~= comb.take(j + 1));
            j = j + 1;
        }
        assert(combined@ =~= comb);
        let tail = combined.split_off(self.step_size);
        self.overlap = tail;
        combined
    }

    /// Pushes `data` into the re-chunker, then convolves every complete
    /// step-sized fragment now available and emits the results as one
    /// contiguous signal whose time is the first fragment's stamp minus the
    /// filter's reported delay. Returns `None` — changing nothing but the
    /// buffered remainder and the submitted count — when no complete
    /// fragment is available yet.
    pub fn process(&mut self, data: Signal) -> (r: Option<Signal>)
        requires
            old(self).wf(),
            old(self).drained(),
            old(self).submitted + data@.len() + old(self).step_size <= MAX_STREAM_SAMPLES,
        ensures
            final(self).wf(),
            final(self).drained(),
            final(self).submitted == old(self).submitted + data@.len(),
            final(self).len == old(self).len,
            final(self).step_size == old(self).step_size,
            final(self).time_delay == old(self).time_delay,
            final(self).kernel_fft == old(self).kernel_fft,
            final(self).sample_rate == old(self).sample_rate,
            final(self).fft == old(self).fft,
            ({
                let pre = old(self).refrag.overflow@ + data@;
                let len = old(self).len as int;
                let step = old(self).step_size as int;
                let kfft = old(self).kernel_fft@;
                let emitted = (pre.len() as int / step) * step;
                match r {
                    None => {
                        &&& pre.len() < step
                        &&& final(self).overlap@ == old(self).overlap@
                        &&& final(self).refrag.overflow@ == pre
                        &&& final(self).refrag.time == old(self).refrag.time
                    },
                    Some(out) => {
                        &&& pre.len() >= step
                        &&& out@ == oa_output(pre, old(self).overlap@, kfft, len, step)
                        &&& out@.len() == emitted
                        &&& out.time == old(self).refrag.time - old(self).time_delay
                        &&& out.sample_rate == old(self).sample_rate
                        &&& final(self).overlap@ == oa_tail(
                            pre,
                            old(self).overlap@,
                            kfft,
                            len,
                            step,
                        )
                        &&& final(self).refrag.overflow@ == pre.skip(emitted)
                        &&& final(self).refrag.time == old(self).refrag.time + emitted
                    },
                }
            }),
    {
        let ghost d0 = data@;
        let ghost pre = self.refrag.overflow@ + data@;
        let ghost len_g = self.len as int;
        let ghost step = self.step_size as int;
        let ghost kfft = self.kernel_fft@;
        let ghost ov0 = self.overlap@;
        let ghost t0 = self.refrag.time;
        self.submitted = self.submitted + data.len();
        let mut data = data;
        self.refrag.push(&mut data);
        if self.refrag.overflow.len() < self.step_size {
            assert(self.refrag.overflow@ == pre);
            return None;
        }
        let mut output = Signal::new(self.sample_rate);
        output.time = self.refrag.time - (self.time_delay as i64);
        let mut more = true;
        while more
            invariant
                self.geom_wf(),
                self.refrag.wf(),
                self.refrag.frag_len == self.step_size,
                self.refrag.overflow.sample_rate == self.sample_rate,
                self.len == old(self).len,
                self.step_size == old(self).step_size,
                self.time_delay == old(self).time_delay,
                self.kernel_fft == old(self).kernel_fft,
                self.sample_rate == old(self).sample_rate,
                self.fft == old(self).fft,
                self.submitted == old(self).submitted + d0.len(),
                len_g == self.len as int,
                step == self.step_size as int,
                kfft == self.kernel_fft@,
                pre == old(self).refrag.overflow@ + d0,
                t0 == old(self).refrag.time,
                oa_output(pre, ov0, kfft, len_g, step) == output@ + oa_output(
                    self.refrag.overflow@,
                    self.overlap@,
                    kfft,
                    len_g,
                    step,
                ),
                oa_tail(pre, ov0, kfft, len_g, step) == oa_tail(
                    self.refrag.overflow@,
                    self.overlap@,
                    kfft,
                    len_g,
                    step,
                ),
                output@.len() + self.refrag.overflow@.len() == pre.len(),
                pre.skip(output@.len() as int) == self.refrag.overflow@,
                (output@.len() as int) % step == 0,
                self.refrag.time == t0 + output@.len(),
                output.time == t0 - old(self).time_delay,
                output.sample_rate == old(self).sample_rate,
                !more ==> self.refrag.overflow@.len() < step,
            decreases self.refrag.overflow@.len() + (if more { 1int } else { 0int }),
        {
            let ghost cur0 = self.refrag.overflow@;
            let ghost ovp = self.overlap@;
            let ghost l0 = output@.len() as int;
            match self.refrag.next_fragment() {
                None => {
                    more = false;
                },
                Some(frag) => {
                    let mut out_chunk = self.process_chunk(&frag);
                    output.append_vec(&mut out_chunk);
                    proof {
                        let comb = overlap_add(
                            conv_block(cur0.take(step), kfft, len_g, step),
                            ovp,
                            len_g,
                        );
                        assert(oa_output(cur0, ovp, kfft, len_g, step) == comb.take(step)
                            + oa_output(cur0.skip(step), comb.skip(step), kfft, len_g, step));
                        assert(oa_tail(cur0, ovp, kfft, len_g, step) == oa_tail(
                            cur0.skip(step),
                            comb.skip(step),
                            kfft,
                            len_g,
                            step,
                        ));
                        assert(oa_output(pre, ov0, kfft, len_g, step) =~= output@ + oa_output(
                            self.refrag.overflow@,
                            self.overlap@,
                            kfft,
                            len_g,
                            step,
                        ));
                        assert(pre.skip(l0).skip(step) =~= pre.skip(l0 + step));
                        vstd::arithmetic::div_mod::lemma_mod_add_multiples_vanish(l0, step);
                    }
                },
            }
        }
        proof {
            let cur = self.refrag.overflow@;
            assert(oa_output(cur, self.overlap@, kfft, len_g, step) == Seq::<
                num::complex::Complex64,
            >::empty());
            assert(output@ =~= output@ + oa_output(cur, self.overlap@, kfft, len_g, step));
            assert(oa_tail(cur, self.overlap@, kfft, len_g, step) == self.overlap@);
            let q = output@.len() as int / step;
            vstd::arithmetic::div_mod::lemma_fundamental_div_mod(output@.len() as int, step);
            vstd::arithmetic::div_mod::lemma_fundamental_div_mod_converse(
                pre.len() as int,
                step,
                q,
                cur.len() as int,
            );
        }
        Some(output)
    }

    /// Flushes the filter: forces one final fragment out of the re-chunker
    /// (the buffered remainder zero-padded to a step, or a whole step of
    /// zeros), convolves it, and truncates the result so that the total
    /// output ends exactly `time_delay` samples past the last submitted
    /// sample. Consumes the filter.
    pub fn finish(self) -> (r: Option<Signal>)
        requires
            self.wf(),
            self.drained(),
            self.submitted + 2 * self.step_size <= MAX_STREAM_SAMPLES,
        ensures
            ({
                let b = self.refrag.overflow@;
                let len = self.len as int;
                let step = self.step_size as int;
                let d = self.time_delay as int;
                let comb = overlap_add(
                    conv_block(b + zero_block(step - b.len()), self.kernel_fft@, len, step),
                    self.overlap@,
                    len,
                );
                match r {
                    Some(out) => {
                        &&& out@ == comb.take(min(step, b.len() + 2 * d))
                        &&& out@.len() == min(step, b.len() + 2 * d)
                        &&& out.time == self.refrag.time - d
                        &&& out.sample_rate == self.sample_rate
                    },
                    None => false,
                }
            }),
    {
        let mut this = self;
        let ghost b = this.refrag.overflow@;
        let ghost step = this.step_size as int;
        let ghost len_g = this.len as int;
        let ghost t0 = this.refrag.time;
        let b_len = this.refrag.overflow.len();
        let frag = if b_len == 0 {
            let mut pad = Signal::from_vec(this.sample_rate, zeros(this.step_size));
            this.refrag.push(&mut pad);
            assert(this.refrag.overflow@ =~= zero_block(step));
            match this.refrag.next_fragment() {
                Some(f) => f,
                None => {
                    return None;
                },
            }
        } else {
            let mut tmp = Refragmenter::new(this.sample_rate, this.step_size);
            core::mem::swap(&mut tmp, &mut this.refrag);
            match tmp.finish() {
                Some(f) => f,
                None => {
                    return None;
                },
            }
        };
        assert(frag@ =~= b + zero_block(step - b.len() as int));
        let ghost ov0 = this.overlap@;
        let ghost kfft0 = this.kernel_fft@;
        let ghost d0 = this.time_delay as int;
        let mut output = Signal::new(this.sample_rate);
        output.time = frag.time - (this.time_delay as i64);
        let mut out_chunk = this.process_chunk(&frag);
        output.append_vec(&mut out_chunk);
        let ghost comb = overlap_add(
            conv_block(b + zero_block(step - b.len() as int), kfft0, len_g, step),
            ov0,
            len_g,
        );
        assert(output@ =~= comb.take(step));
        let finish_time: i64 = (this.submitted as i64) + (this.time_delay as i64);
        let trunc_i: i64 = finish_time - output.time;
        assert(trunc_i == b.len() + 2 * d0);
        let trunc_len: usize = trunc_i as usize;
        output.truncate(trunc_len);
        proof {
            let want = min(step, b.len() as int + 2 * d0);
            if trunc_len <= comb.take(step).len() {
                assert(output@ =~= comb.take(want));
            } else {
                assert(output@ =~= comb.take(want));
            }
        }
        Some(output)
    }

    /// One-shot filtering: `process` on the whole input, then `finish`, the
    /// two outputs concatenated. `None` only when the input never reached
    /// one processing step.
    pub fn process_and_finish(self, data: Signal) -> (r: Option<Signal>)
        requires
            self.wf(),
            self.drained(),
            self.submitted + data@.len() + 3 * self.step_size <= MAX_STREAM_SAMPLES,
        ensures
            ({
                let pre = self.refrag.overflow@ + data@;
                let len = self.len as int;
                let step = self.step_size as int;
                let d = self.time_delay as int;
                match r {
                    None => pre.len() < step,
                    Some(out) => {
                        &&& pre.len() >= step
                        &&& out@ == oneshot_output(
                            pre,
                            self.overlap@,
                            self.kernel_fft@,
                            len,
                            step,
                            d,
                        )
                        &&& out@.len() == full_len(pre.len() as int, step, d)
                        &&& out.time == self.refrag.time - d
                        &&& out.sample_rate == self.sample_rate
                    },
                }
            }),
    {
        let mut this = self;
        let ghost pre = this.refrag.overflow@ + data@;
        let ghost step = this.step_size as int;
        let ghost len_g = this.len as int;
        let ghost d = this.time_delay as int;
        let ghost kfft = this.kernel_fft@;
        let ghost ov0 = this.overlap@;
        let mut filtered = match this.process(data) {
            Some(f) => f,
            None => {
                return None;
            },
        };
        proof {
            vstd::arithmetic::div_mod::lemma_fundamental_div_mod(pre.len() as int, step);
        }
        let fin = this.finish();
        match fin {
            Some(mut sig) => {
                filtered.append(&mut sig);
            },
            None => {},
        }
        proof {
            assert(filtered@ =~= oneshot_output(pre, ov0, kfft, len_g, step, d));
        }
        Some(filtered)
    }
}

/// The kernel length for a requested filter order: orders are rounded up to
/// the next even order (a warning case in interactive use), and the kernel
/// has one tap more than the order.
pub fn order_to_len_round_up(order: usize) -> (r: usize)
    requires
        order + 2 <= usize::MAX,
    ensures
        r == (if order % 2 == 1 { order + 2 } else { order + 1 }),
{
    if order % 2 == 1 {
        order + 2
    } else {
        order + 1
    }
}

/// Which slice of the full convolution `fftfilt` returns.
#[allow(non_camel_case_types)]
#[derive(Clone, Copy, Debug, PartialEq, Eq, Structural)]
pub enum ConvShape {
    FULL,
    SAME,
    VALID,
}

/// The smallest covering power of two lies in `[k, 2k)`.
pub proof fn lemma_pow2_at_least_bounds(k: int)
    requires
        1 <= k,
    ensures
        is_pow2(pow2_at_least(k)),
        k <= pow2_at_least(k),
        pow2_at_least(k) < 2 * k,
    decreases k,
{
    if k > 1 {
        let h = (k + 1) / 2;
        lemma_pow2_at_least_bounds(h);
        let p = pow2_at_least(h);
        assert(is_pow2(2 * p));
        if k % 2 == 1 && p == k {
            assert(!is_pow2(k));
            assert(false);
        }
    }
}

/// One-shot filtering of a whole signal, sliced by convolution shape:
/// FULL keeps everything, SAME the central `signal.len()` samples aligned
/// with the input, VALID only the samples unaffected by the zero padding at
/// either edge.
pub fn fftfilt(signal: &Signal, filter: &Signal, shape: ConvShape) -> (r: Result<
    Signal,
    DspError,
>)
    requires
        signal@.len() <= MAX_STREAM_SAMPLES / 2,
        shape == ConvShape::SAME && 1 <= filter@.len() <= MAX_KERNEL_LEN
            ==> (signal@.len() as int) % step_of(filter@.len() as int) + delay_of(
            filter@.len() as int,
        ) <= step_of(filter@.len() as int),
    ensures
        ({
            let k = filter@.len() as int;
            let n = signal@.len() as int;
            let len = block_len_of(k);
            let step = step_of(k);
            let d = delay_of(k);
            match r {
                Err(e) => {
                    ||| (e == DspError::InvalidKernel && !(1 <= k <= MAX_KERNEL_LEN))
                    ||| (e == DspError::NoOutput && 1 <= k <= MAX_KERNEL_LEN && n < step)
                },
                Ok(out) => {
                    let kfft = dft_fwd_spec(filter@ + zero_block(len - k));
                    let full = oneshot_output(signal@, zero_block(len - step), kfft, len, step, d);
                    &&& 1 <= k <= MAX_KERNEL_LEN
                    &&& n >= step
                    &&& full.len() == full_len(n, step, d)
                    &&& out.sample_rate == (if shape == ConvShape::FULL {
                        filter.sample_rate
                    } else {
                        signal.sample_rate
                    })
                    &&& match shape {
                        ConvShape::FULL => out@ == full && out.time as int == -d && out@.len()
                            == full_len(n, step, d),
                        ConvShape::SAME => out@ == full.subrange(d, d + n) && out.time == 0
                            && out@.len() == n,
                        ConvShape::VALID => out@ == full.subrange(2 * d, n) && out.time == 0
                            && out@.len() == n - 2 * d,
                    }
                },
            }
        }),
{
    let ghost k = filter@.len() as int;
    let ghost n = signal@.len() as int;
    let in_len = signal.len();
    let sample_rate = signal.sample_rate;
    let filt = match Filter::new(filter.duplicate()) {
        Ok(f) => f,
        Err(e) => {
            return Err(e);
        },
    };
    proof {
        lemma_pow2_at_least_bounds(k);
    }
    let d_exec = filt.time_delay;
    let ghost step = filt.step_size as int;
    let ghost len_g = filt.len as int;
    let ghost d = filt.time_delay as int;
    let out = match filt.process_and_finish(signal.duplicate()) {
        Some(o) => o,
        None => {
            return Err(DspError::NoOutput);
        },
    };
    proof {
        assert(Seq::<num::complex::Complex64>::empty() + signal@ =~= signal@);
        vstd::arithmetic::div_mod::lemma_fundamental_div_mod(n, step);
        vstd::arithmetic::div_mod::lemma_mod_bound(n, step);
        assert(n % step <= min(step, n % step + 2 * d));
        assert(out@.len() == full_len(n, step, d));
        assert(full_len(n, step, d) == (n / step) * step + min(step, n % step + 2 * d));
        assert(out@.len() >= n);
        assert(2 * d < step);
    }
    match shape {
        ConvShape::FULL => Ok(out),
        ConvShape::SAME => {
            proof {
                assert(n % step + d <= step);
                assert(out@.len() >= d + n);
            }
            let lo = d_exec;
            let hi = d_exec + in_len;
            let part = crate::signal::copy_range(&out.samples, lo, hi);
            Ok(Signal::from_vec(sample_rate, part))
        },
        ConvShape::VALID => {
            let lo = 2 * d_exec;
            let hi = in_len;
            let part = crate::signal::copy_range(&out.samples, lo, hi);
            Ok(Signal::from_vec(sample_rate, part))
        },
    }
}

impl Signal {
    /// One-shot filtering of this signal by `filter`, sliced by `shape`.
    pub fn fftfilt(&self, filter: &Signal, shape: ConvShape) -> (r: Result<Signal, DspError>)
        requires
            self@.len() <= MAX_STREAM_SAMPLES / 2,
            shape == ConvShape::SAME && 1 <= filter@.len() <= MAX_KERNEL_LEN ==> (
            self@.len() as int) % step_of(filter@.len() as int) + delay_of(filter@.len() as int)
                <= step_of(filter@.len() as int),
        ensures
            ({
                let k = filter@.len() as int;
                let n = self@.len() as int;
                let len = block_len_of(k);
                let step = step_of(k);
                let d = delay_of(k);
                match r {
                    Err(e) => {
                        ||| (e == DspError::InvalidKernel && !(1 <= k <= MAX_KERNEL_LEN))
                        ||| (e == DspError::NoOutput && 1 <= k <= MAX_KERNEL_LEN && n < step)
                    },
                    Ok(out) => {
                        let kfft = dft_fwd_spec(filter@ + zero_block(len - k));
                        let full = oneshot_output(
                            self@,
                            zero_block(len - step),
                            kfft,
                            len,
                            step,
                            d,
                        );
                        &&& 1 <= k <= MAX_KERNEL_LEN
                        &&& n >= step
                        &&& full.len() == full_len(n, step, d)
                        &&& out.sample_rate == (if shape == ConvShape::FULL {
                            filter.sample_rate
                        } else {
                            self.sample_rate
                        })
                        &&& match shape {
                            ConvShape::FULL => out@ == full && out.time as int == -d
                                && out@.len() == full_len(n, step, d),
                            ConvShape::SAME => out@ == full.subrange(d, d + n) && out.time == 0
                                && out@.len() == n,
                            ConvShape::VALID => out@ == full.subrange(2 * d, n) && out.time == 0
                                && out@.len() == n - 2 * d,
                        }
                    },
                }
            }),
    {
        fftfilt(self, filter, shape)
    }
}

/// Law (full-convolution length): filtering an input of length `n` with an
/// odd-length kernel of length `k` and shape FULL yields exactly
/// `n + k - 1` samples, whenever the input reaches one processing step and
/// the final remainder and kernel tail fit the flush block together
/// (`n % step + k - 1 <= step`).
pub proof fn lemma_full_convolution_length(n: int, k: int)
    requires
        1 <= k,
        k % 2 == 1,
        n >= step_of(k),
        n % step_of(k) + (k - 1) <= step_of(k),
    ensures
        full_len(n, step_of(k), delay_of(k)) == n + k - 1,
{
    let step = step_of(k);
    let d = delay_of(k);
    lemma_pow2_at_least_bounds(k);
    assert(step >= 1);
    vstd::arithmetic::div_mod::lemma_fundamental_div_mod(n, step);
    assert(n == step * (n / step) + n % step);
    assert(2 * d == k - 1) by {
        vstd::arithmetic::div_mod::lemma_fundamental_div_mod(k - 1, 2);
    };
    assert(min(step, n % step + 2 * d) == n % step + k - 1);
    let q = n / step;
    assert(q * step == step * q) by (nonlinear_arith);
    assert(full_len(n, step, d) == (n / step) * step + (n % step + k - 1));
}

/// The sum of `a[j]` and `b[j]`.
fn c_add_at(
    a: &Vec<num::complex::Complex64>,
    b: &Vec<num::complex::Complex64>,
    j: usize,
) -> (r: num::complex::Complex64)
    requires
        j < a@.len(),
        j < b@.len(),
    ensures
        r == add_c(a@[j as int], b@[j as int]),
{
    crate::sample::c_add(a[j], b[j])
}

} // verus!
