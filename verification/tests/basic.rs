use mulink_dsp::errors::DspError;
use mulink_dsp::filter::Filter;
use mulink_dsp::signal::Signal;
use mulink_dsp::transform::RustFftInst;
use num::complex::Complex64;

#[test]
fn it_works() {
    let result = mulink_dsp::add(2, 2);
    assert_eq!(result, 4);
}

#[test]
fn order_rounding() {
    assert_eq!(mulink_dsp::filter::order_to_len_round_up(300), 301);
    assert_eq!(mulink_dsp::filter::order_to_len_round_up(301), 303);
    assert_eq!(mulink_dsp::filter::order_to_len_round_up(0), 1);
}

#[test]
fn empty_kernel_is_invalid() {
    let kernel = Signal::new(192000);
    match Filter::new(kernel) {
        Err(e) => assert_eq!(e, DspError::InvalidKernel),
        Ok(_) => panic!("an empty kernel must be rejected"),
    }
}

#[test]
fn zero_length_transform_is_invalid() {
    match RustFftInst::new(0) {
        Err(e) => assert_eq!(e, DspError::TransformError),
        Ok(_) => panic!("a zero block length must be rejected"),
    }
    let empty = Signal::new(48000);
    match empty.fft_fwd() {
        Err(e) => assert_eq!(e, DspError::TransformError),
        Ok(_) => panic!("an empty signal has no transform"),
    }
}

#[test]
fn short_input_yields_no_output() {
    let kernel = Signal::from_vec(
        48000,
        vec![Complex64::new(0.5, 0.0), Complex64::new(0.5, 0.0)],
    );
    // kernel length 2: block length 16, step 15; a 3-sample input never
    // fills one step.
    let sig = Signal::from_vec(
        48000,
        vec![
            Complex64::new(1.0, 0.0),
            Complex64::new(2.0, 0.0),
            Complex64::new(3.0, 0.0),
        ],
    );
    match mulink_dsp::filter::fftfilt(&sig, &kernel, mulink_dsp::filter::ConvShape::FULL) {
        Err(e) => assert_eq!(e, DspError::NoOutput),
        Ok(_) => panic!("an input below one step must yield NoOutput"),
    }
}

#[test]
fn elementwise_product_and_sum() {
    let a = Signal::from_vec(
        1000,
        vec![Complex64::new(1.0, 2.0), Complex64::new(3.0, -1.0)],
    );
    let b = Signal::from_vec(
        1000,
        vec![Complex64::new(2.0, 0.0), Complex64::new(0.0, 1.0)],
    );
    let p = a.mul_elementwise(&b);
    assert_eq!(p.samples[0], Complex64::new(2.0, 4.0));
    assert_eq!(p.samples[1], Complex64::new(1.0, 3.0));
    let s = a.add_elementwise(&b);
    assert_eq!(s.samples[0], Complex64::new(3.0, 2.0));
    assert_eq!(s.samples[1], Complex64::new(3.0, 0.0));
}

#[test]
fn conjugate_flips_imaginary_parts() {
    let a = Signal::from_vec(
        1000,
        vec![Complex64::new(1.0, 2.0), Complex64::new(-3.0, -4.0)],
    );
    let c = a.conj();
    assert_eq!(c.samples[0], Complex64::new(1.0, -2.0));
    assert_eq!(c.samples[1], Complex64::new(-3.0, 4.0));
}
