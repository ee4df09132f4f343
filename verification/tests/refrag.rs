use mulink_dsp::refragment::Refragmenter;
use mulink_dsp::signal::Signal;
use num::complex::Complex64;

fn sine_signal(sample_rate: u32, len: usize) -> Signal {
    let samples: Vec<Complex64> = (0..len)
        .map(|x| {
            let t = x as f64 / sample_rate as f64;
            Complex64::new(
                f64::sin(sample_rate as f64 / 4.0 * std::f64::consts::PI * 2.0 * t),
                0.0,
            )
        })
        .collect();
    Signal::from_vec(sample_rate, samples)
}

#[test]
fn test_refrag() {
    let mut sig = sine_signal(192000, 512);
    let mut sig2 = sine_signal(192000, 512);
    let mut refrag = Refragmenter::new(192000, 192);
    refrag.push(&mut sig);
    while let Some(frag) = refrag.next_fragment() {
        println!("frag: {}x{}", frag.time, frag.len());
    }
    refrag.push(&mut sig2);
    while let Some(frag) = refrag.next_fragment() {
        println!("frag: {}x{}", frag.time, frag.len());
    }
    if let Some(frag) = refrag.finish() {
        println!("finish: {}x{}", frag.time, frag.len());
    }
}

#[test]
fn rechunk_is_monotonic_and_gap_free() {
    // Irregular pushes; every fragment must be exactly 4 long with stamps
    // 0, 4, 8, ... and contents equal to the concatenated input.
    let mut refrag = Refragmenter::new(1000, 4);
    let mut stream: Vec<Complex64> = Vec::new();
    let mut frags: Vec<Signal> = Vec::new();
    for &push_len in &[7usize, 1, 10] {
        let samples: Vec<Complex64> = (0..push_len)
            .map(|i| {
                let v = (stream.len() + i) as f64;
                Complex64::new(v, -v)
            })
            .collect();
        stream.extend_from_slice(&samples);
        let mut sig = Signal::from_vec(1000, samples);
        refrag.push(&mut sig);
        while let Some(frag) = refrag.next_fragment() {
            frags.push(frag);
        }
    }
    assert_eq!(frags.len(), 4); // 18 samples pushed, 4 complete fragments
    for (k, frag) in frags.iter().enumerate() {
        assert_eq!(frag.len(), 4);
        assert_eq!(frag.time, (k * 4) as i64);
        for j in 0..4 {
            assert_eq!(frag.samples[j], stream[k * 4 + j]);
        }
    }
    // The 2-sample remainder comes out only through finish, zero-padded.
    let last = refrag.finish().expect("a remainder was buffered");
    assert_eq!(last.len(), 4);
    assert_eq!(last.time, 16);
    assert_eq!(last.samples[0], stream[16]);
    assert_eq!(last.samples[1], stream[17]);
    assert_eq!(last.samples[2], Complex64::new(0.0, 0.0));
    assert_eq!(last.samples[3], Complex64::new(0.0, 0.0));
}

#[test]
fn finish_on_empty_rechunker_yields_nothing() {
    let mut refrag = Refragmenter::new(1000, 8);
    let mut sig = Signal::from_vec(
        1000,
        (0..16).map(|i| Complex64::new(i as f64, 0.0)).collect(),
    );
    refrag.push(&mut sig);
    while let Some(_frag) = refrag.next_fragment() {}
    assert!(refrag.finish().is_none());
}

#[test]
fn fragments_drains_everything_at_once() {
    let mut refrag = Refragmenter::new(1000, 4);
    let samples: Vec<Complex64> = (0..11).map(|i| Complex64::new(i as f64, 0.0)).collect();
    let mut sig = Signal::from_vec(1000, samples.clone());
    refrag.push(&mut sig);
    let frags = refrag.fragments();
    assert_eq!(frags.len(), 2);
    for (k, frag) in frags.iter().enumerate() {
        assert_eq!(frag.len(), 4);
        assert_eq!(frag.time, (k * 4) as i64);
        for j in 0..4 {
            assert_eq!(frag.samples[j], samples[k * 4 + j]);
        }
    }
}
