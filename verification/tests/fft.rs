use mulink_dsp::signal::Signal;
use num::complex::Complex64;

fn sine_signal(sample_rate: u32, len: usize) -> Signal {
    let samples: Vec<Complex64> = (0..len)
        .map(|x| {
            let t = x as f64 / sample_rate as f64;
            Complex64::new(
                f64::sin(sample_rate as f64 / 4.0 * std::f64::consts::PI * 2.0 * t),
                0.0,
            )
        })
        .collect();
    Signal::from_vec(sample_rate, samples)
}

#[test]
fn test_fft() {
    let sig = sine_signal(192000, 256);
    let sig_fft = sig.duplicate().fft_fwd().unwrap();
    let sig_restored = sig_fft.fft_rev().unwrap();
    let error: Vec<f64> = sig
        .samples
        .iter()
        .zip(sig_restored.samples.iter())
        .map(|(a, b)| (a - b).norm())
        .collect();
    let avg = error.iter().sum::<f64>() / error.len() as f64;
    let max = error.iter().cloned().fold(0.0f64, f64::max);
    println!("avg error: {}, max: {}", avg, max);
}

#[test]
fn forward_then_inverse_is_identity() {
    // Round trip: inverse(forward(s)) must reproduce s elementwise within a
    // small floating-point tolerance.
    let samples: Vec<Complex64> = (0..256)
        .map(|i| Complex64::new((i as f64 * 0.37).sin(), (i as f64 * 0.11).cos()))
        .collect();
    let sig = Signal::from_vec(48000, samples.clone());
    let restored = sig.fft_fwd().unwrap().fft_rev().unwrap();
    assert_eq!(restored.samples.len(), 256);
    for i in 0..256 {
        let diff = (restored.samples[i] - samples[i]).norm();
        assert!(diff < 1e-9, "sample {} off by {}", i, diff);
    }
}

#[test]
fn transform_is_normalized() {
    // A constant block of ones transforms to sqrt(len) at bin 0 and zero
    // elsewhere under the 1/sqrt(len) normalization.
    let sig = Signal::from_vec(1000, vec![Complex64::new(1.0, 0.0); 4]);
    let spec = sig.fft_fwd().unwrap();
    assert!((spec.samples[0] - Complex64::new(2.0, 0.0)).norm() < 1e-12);
    for i in 1..4 {
        assert!(spec.samples[i].norm() < 1e-12);
    }
}
