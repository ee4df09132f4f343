use mulink_dsp::signal::Signal;
use mulink_dsp::stream::AudioStream;
use num::complex::Complex64;

fn sine_signal(sample_rate: u32, len: usize, freq: f64) -> Signal {
    let samples: Vec<Complex64> = (0..len)
        .map(|x| {
            let t = x as f64 / sample_rate as f64;
            Complex64::new(f64::sin(freq * std::f64::consts::PI * 2.0 * t), 0.0)
        })
        .collect();
    Signal::from_vec(sample_rate, samples)
}

#[test]
fn test_audiostream() {
    let mut stream = AudioStream::new();

    let sub1 = stream.get_subscriber();
    let sub2 = stream.get_subscriber();

    stream.send(sine_signal(192000, 256, 75000.0)).unwrap();

    let msg1 = stream.recv(sub1).unwrap();
    assert_eq!(msg1.time, 0);
    let msg2 = stream.recv(sub2).unwrap();
    assert_eq!(msg2.time, 0);

    stream
        .send(Signal::from_vec(192000, vec![Complex64::new(0.0, 0.0); 256]))
        .unwrap();

    let msg1 = stream.recv(sub1).unwrap();
    assert_eq!(msg1.time, 256);
    let msg2 = stream.recv(sub2).unwrap();
    assert_eq!(msg2.time, 256);

    println!("time: {}", stream.time());
    assert_eq!(stream.time(), 512);
}

#[test]
fn fan_out_is_identical_for_all_subscribers() {
    // Three published blocks: both subscribers observe the same three
    // blocks, with the same stamps, in publication order.
    let mut stream = AudioStream::new();
    let sub1 = stream.get_subscriber();
    let sub2 = stream.get_subscriber();
    let lens = [8usize, 5, 11];
    for (k, &len) in lens.iter().enumerate() {
        let block = Signal::from_vec(
            1000,
            (0..len)
                .map(|i| Complex64::new((k * 100 + i) as f64, 0.0))
                .collect(),
        );
        stream.send(block).unwrap();
    }
    let mut expected_time = 0i64;
    for &len in &lens {
        let a = stream.recv(sub1).unwrap();
        let b = stream.recv(sub2).unwrap();
        assert_eq!(a.time, expected_time);
        assert_eq!(b.time, expected_time);
        assert_eq!(a.samples, b.samples);
        assert_eq!(a.len(), len);
        expected_time += len as i64;
    }
    assert!(stream.recv(sub1).is_none());
    assert!(stream.recv(sub2).is_none());
}

#[test]
fn dropped_subscriber_does_not_disturb_the_rest() {
    let mut stream = AudioStream::new();
    let sub1 = stream.get_subscriber();
    let sub2 = stream.get_subscriber();
    let sub3 = stream.get_subscriber();

    stream
        .send(Signal::from_vec(1000, vec![Complex64::new(1.0, 0.0); 4]))
        .unwrap();
    stream.drop_subscriber(sub2);
    stream
        .send(Signal::from_vec(1000, vec![Complex64::new(2.0, 0.0); 6]))
        .unwrap();

    for sub in [sub1, sub3] {
        let first = stream.recv(sub).unwrap();
        assert_eq!(first.time, 0);
        assert_eq!(first.len(), 4);
        let second = stream.recv(sub).unwrap();
        assert_eq!(second.time, 4);
        assert_eq!(second.len(), 6);
        assert!(stream.recv(sub).is_none());
    }
}
