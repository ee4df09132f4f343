use mulink_dsp::filter::{fftfilt, ConvShape, Filter};
use mulink_dsp::signal::Signal;
use num::complex::Complex64;
use std::f64::consts::PI;

// Windowed-sinc FIR design and chirp generation, the float collaborators the
// filter core is agnostic to.

fn cosine_sum(width: usize, a0: f64) -> Vec<f64> {
    let a1 = 1.0 - a0;
    let freq = PI * 2.0;
    (0..width)
        .map(|idx| a0 - a1 * f64::cos(freq * (idx as f64 / width as f64)))
        .collect()
}

fn hamming(width: usize) -> Vec<f64> {
    cosine_sum(width, 0.54)
}

fn sinc(bandwidth: f64, points: usize) -> Vec<f64> {
    let bandwidth = points as f64 * bandwidth;
    let negative_half_bandwidth = -bandwidth / 2.0;
    let scale_factor = bandwidth / points as f64;
    (0..points)
        .map(|n| {
            let pos = negative_half_bandwidth + n as f64 * scale_factor;
            let v = f64::sin(PI * pos) / (PI * pos);
            if v.is_finite() {
                v
            } else {
                1.0
            }
        })
        .collect()
}

fn fir_lpf(cutoff: f64, order: usize) -> Vec<f64> {
    let filter_len = mulink_dsp::filter::order_to_len_round_up(order);
    let window = hamming(filter_len);
    let mut filter = sinc(cutoff, filter_len);
    for idx in 0..filter_len {
        filter[idx] *= window[idx];
    }
    filter
}

fn fir_bpf(low_cutoff: f64, high_cutoff: f64, order: usize) -> Vec<f64> {
    let filter_len = mulink_dsp::filter::order_to_len_round_up(order);
    let window = hamming(filter_len);
    let filter_low = sinc(low_cutoff, filter_len);
    let filter_high = sinc(high_cutoff, filter_len);
    (0..filter_len)
        .map(|idx| (high_cutoff * filter_high[idx] - low_cutoff * filter_low[idx]) * window[idx])
        .collect()
}

fn euler(x: f64) -> Complex64 {
    Complex64::new(f64::cos(x), f64::sin(x))
}

fn chirp_complex(len: usize, f_start: f64, f_end: f64) -> Vec<Complex64> {
    let (f_start, f_end) = (f_start / 2.0, f_end / 2.0);
    let bw = f_start - f_end;
    let len_t = len as f64;
    let offset_samples = ((f_end.abs() - f_start.abs()) * len_t) as i32;
    (0..len)
        .map(|idx| {
            let pos = (idx as i32 - (len as i32 / 2) + offset_samples) as f64;
            euler(PI * bw * pos.powi(2) / len_t)
        })
        .collect()
}

fn real_kernel(sample_rate: u32, taps: Vec<f64>) -> Signal {
    Signal::from_vec(
        sample_rate,
        taps.into_iter().map(|x| Complex64::new(x, 0.0)).collect(),
    )
}

#[test]
fn test_filter() {
    // 48 kHz cutoff at a 192 kHz rate: normalized cutoff 0.5.
    let lpf_kernel = real_kernel(192000, fir_lpf(48000.0 / 192000.0 * 2.0, 300));
    let lpf = Filter::new(lpf_kernel).unwrap();
    let chirp = Signal::from_vec(192000, chirp_complex(50000, 1.0, -1.0));
    println!("chirp_len: {}", chirp.len());
    let filtered = lpf.process_and_finish(chirp.duplicate()).unwrap();
    println!("out_time: {}", filtered.time);
    println!("out_len: {}", filtered.len());

    let hpf_kernel = real_kernel(192000, fir_bpf(48000.0 / 192000.0 * 2.0, 1.0, 300));
    let hpf = Filter::new(hpf_kernel).unwrap();
    let _filtered = hpf.process_and_finish(chirp.duplicate()).unwrap();

    let bpf_kernel = real_kernel(
        192000,
        fir_bpf(24000.0 / 192000.0 * 2.0, 72000.0 / 192000.0 * 2.0, 300),
    );
    let bpf = Filter::new(bpf_kernel).unwrap();
    let _filtered = bpf.process_and_finish(chirp.duplicate()).unwrap();

    let bpf = real_kernel(192000, fir_bpf(0.25, 0.75, 300));
    let filtered = fftfilt(&chirp, &bpf, ConvShape::FULL).unwrap();
    println!("len_full: {}", filtered.len());
    assert_eq!(filtered.len(), 50000 + 301 - 1);
    let filtered = fftfilt(&chirp, &bpf, ConvShape::SAME).unwrap();
    println!("len_same: {}", filtered.len());
    assert_eq!(filtered.len(), 50000);
    let filtered = fftfilt(&chirp, &bpf, ConvShape::VALID).unwrap();
    println!("len_valid: {}", filtered.len());
    assert_eq!(filtered.len(), 50000 - 300);
}

#[test]
fn example_scenario_kernel_five() {
    // A 5-tap kernel gives block length 64, step 60, overlap 4, delay 2;
    // 120 input samples filtered one-shot give exactly 124 samples starting
    // at time -2.
    let taps = [0.1, 0.2, 0.4, 0.2, 0.1];
    let kernel = real_kernel(48000, taps.to_vec());
    let filt = Filter::new(kernel).unwrap();
    assert_eq!(filt.len, 64);
    assert_eq!(filt.step_size, 60);
    assert_eq!(filt.len - filt.step_size, 4);
    assert_eq!(filt.time_delay, 2);
    let input = Signal::from_vec(
        48000,
        (0..120)
            .map(|i| Complex64::new((i as f64 * 0.05).sin(), 0.0))
            .collect(),
    );
    let out = filt.process_and_finish(input).unwrap();
    assert_eq!(out.len(), 124);
    assert_eq!(out.time, -2);
}

#[test]
fn full_convolution_length_law_examples() {
    // fftfilt(input, kernel, FULL).len() == N + K - 1 across step counts.
    let taps = [0.25, 0.5, 0.25];
    let kernel = real_kernel(8000, taps.to_vec());
    for &n in &[32usize, 100, 61, 200] {
        let input = Signal::from_vec(
            8000,
            (0..n).map(|i| Complex64::new(i as f64, 0.0)).collect(),
        );
        let out = fftfilt(&input, &kernel, ConvShape::FULL).unwrap();
        assert_eq!(out.len(), n + 3 - 1, "n = {}", n);
    }
}

#[test]
fn impulse_reproduces_kernel() {
    // A unit impulse filtered with shape FULL reproduces the kernel within
    // tolerance, at the reported time offset.
    let taps = [0.1, 0.2, 0.4, 0.2, 0.1];
    let kernel = real_kernel(48000, taps.to_vec());
    let mut impulse = vec![Complex64::new(0.0, 0.0); 120];
    impulse[0] = Complex64::new(1.0, 0.0);
    let input = Signal::from_vec(48000, impulse);
    let out = fftfilt(&input, &kernel, ConvShape::FULL).unwrap();
    assert_eq!(out.len(), 124);
    assert_eq!(out.time, -2);
    for i in 0..out.len() {
        let expect = if i < taps.len() { taps[i] } else { 0.0 };
        let diff = (out.samples[i] - Complex64::new(expect, 0.0)).norm();
        assert!(diff < 1e-9, "sample {} off by {}", i, diff);
    }
}

#[test]
fn streaming_matches_one_shot() {
    // Feeding the same samples in irregular pieces emits the same output as
    // one process_and_finish call.
    let taps = [0.5, -0.25, 0.125];
    let samples: Vec<Complex64> = (0..150)
        .map(|i| Complex64::new((i as f64 * 0.21).cos(), (i as f64 * 0.13).sin()))
        .collect();

    let one_shot = Filter::new(real_kernel(8000, taps.to_vec()))
        .unwrap()
        .process_and_finish(Signal::from_vec(8000, samples.clone()))
        .unwrap();

    let mut streaming = Filter::new(real_kernel(8000, taps.to_vec())).unwrap();
    let mut collected: Vec<Complex64> = Vec::new();
    let mut first_time: Option<i64> = None;
    for chunk in samples.chunks(37) {
        if let Some(part) = streaming.process(Signal::from_vec(8000, chunk.to_vec())) {
            if first_time.is_none() {
                first_time = Some(part.time);
            }
            collected.extend_from_slice(&part.samples);
        }
    }
    if let Some(part) = streaming.finish() {
        collected.extend_from_slice(&part.samples);
    }
    assert_eq!(collected.len(), one_shot.len());
    assert_eq!(first_time, Some(one_shot.time));
    for i in 0..collected.len() {
        let diff = (collected[i] - one_shot.samples[i]).norm();
        assert!(diff < 1e-9, "sample {} off by {}", i, diff);
    }
}

#[test]
fn flush_tail_clipping_edge() {
    // When the input remainder plus the kernel tail exceed one step
    // (117 % 60 + 5 - 1 = 61 > 60), the single flush block cannot carry the
    // whole convolution tail: one sample short of N + K - 1.
    let taps = [0.1, 0.2, 0.4, 0.2, 0.1];
    let kernel = real_kernel(48000, taps.to_vec());
    let input = Signal::from_vec(
        48000,
        (0..117).map(|i| Complex64::new((i as f64 * 0.3).sin(), 0.0)).collect(),
    );
    let out = fftfilt(&input, &kernel, ConvShape::FULL).unwrap();
    assert_eq!(out.len(), 120);
}

#[test]
fn same_and_valid_shapes_align_with_input() {
    // SAME keeps the central N samples (index 0 lines up with the input's
    // first sample, so the impulse response appears shifted by the group
    // delay); VALID keeps only samples the zero padding never touched.
    let taps = [0.1, 0.2, 0.4, 0.2, 0.1];
    let kernel = real_kernel(48000, taps.to_vec());
    let mut impulse = vec![Complex64::new(0.0, 0.0); 120];
    impulse[0] = Complex64::new(1.0, 0.0);
    let input = Signal::from_vec(48000, impulse);

    let same = fftfilt(&input, &kernel, ConvShape::SAME).unwrap();
    assert_eq!(same.len(), 120);
    assert_eq!(same.time, 0);
    for i in 0..same.len() {
        let expect = if i + 2 < taps.len() { taps[i + 2] } else { 0.0 };
        let diff = (same.samples[i] - Complex64::new(expect, 0.0)).norm();
        assert!(diff < 1e-9, "sample {} off by {}", i, diff);
    }

    let valid = fftfilt(&input, &kernel, ConvShape::VALID).unwrap();
    assert_eq!(valid.len(), 120 - 4);
    assert_eq!(valid.time, 0);
    let diff = (valid.samples[0] - Complex64::new(taps[4], 0.0)).norm();
    assert!(diff < 1e-9);
    for i in 1..valid.len() {
        assert!(valid.samples[i].norm() < 1e-9, "sample {} not clear", i);
    }
}
