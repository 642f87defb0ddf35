use aether_primitives::Sample;
use aether_primitives::fft::{Cfft, FftError, Scale, spectrum_row};

fn s(re: f32, im: f32) -> Sample {
    Sample::new(re.to_bits(), im.to_bits())
}

fn re_of(x: Sample) -> f32 {
    f32::from_bits(x.re)
}

fn im_of(x: Sample) -> f32 {
    f32::from_bits(x.im)
}

#[test]
fn forward_impulse_is_flat() {
    let plan = Cfft::with_len(4);
    let buf = vec![s(1.0, 0.0), s(0.0, 0.0), s(0.0, 0.0), s(0.0, 0.0)];
    let spec = plan.tfwd(&buf, Scale::Unscaled).unwrap();
    assert_eq!(spec.len(), 4);
    for bin in &spec {
        assert!((re_of(*bin) - 1.0).abs() < 1e-6);
        assert!(im_of(*bin).abs() < 1e-6);
    }
}

#[test]
fn sn_roundtrip_recovers_buffer() {
    let orig = vec![
        s(1.0, 0.5),
        s(-2.0, 0.25),
        s(3.0, -1.0),
        s(0.5, 0.0),
        s(-0.75, 2.0),
        s(0.0, -3.0),
        s(1.25, 1.25),
        s(-1.0, -1.0),
    ];
    let plan = Cfft::with_len(8);
    let mut buf = orig.clone();
    plan.fwd(&mut buf, Scale::Sn).unwrap();
    plan.bwd(&mut buf, Scale::Sn).unwrap();
    for (a, b) in buf.iter().zip(orig.iter()) {
        assert!((re_of(*a) - re_of(*b)).abs() < 1e-5);
        assert!((im_of(*a) - im_of(*b)).abs() < 1e-5);
    }
}

#[test]
fn wrong_length_is_refused() {
    let plan = Cfft::with_len(4);
    let mut buf = vec![s(1.0, 0.0); 3];
    assert_eq!(plan.fwd(&mut buf, Scale::Unscaled), Err(FftError::SizeMismatch));
    assert_eq!(plan.bwd(&mut buf, Scale::Sn), Err(FftError::SizeMismatch));
    assert!(plan.tfwd(&buf, Scale::Sn).is_err());
    // the failed call left the buffer alone
    assert_eq!(buf, vec![s(1.0, 0.0); 3]);
}

#[test]
fn empty_plan_is_refused() {
    let plan = Cfft::with_len(0);
    let mut buf: Vec<Sample> = Vec::new();
    assert_eq!(plan.fwd(&mut buf, Scale::Unscaled), Err(FftError::EmptyPlan));
}

#[test]
fn spectrum_row_centres_the_zero_bin() {
    // A constant (DC) input has all its energy in bin 0, which the row
    // mirrors into the middle.
    let plan = Cfft::with_len(4);
    let row = vec![s(1.0, 0.0); 4];
    let mags = spectrum_row(&plan, &row).unwrap();
    assert_eq!(mags.len(), 4);
    let vals: Vec<f32> = mags.iter().map(|m| f32::from_bits(*m)).collect();
    assert!((vals[2] - 2.0).abs() < 1e-6, "DC energy belongs in the centre bin");
    assert!(vals[0].abs() < 1e-6);
    assert!(vals[1].abs() < 1e-6);
    assert!(vals[3].abs() < 1e-6);
}
