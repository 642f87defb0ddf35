use aether_primitives::Sample;
use aether_primitives::fft::{Cfft, Scale};
use aether_primitives::vecops;

fn s(re: f32, im: f32) -> Sample {
    Sample::new(re.to_bits(), im.to_bits())
}

fn re_of(x: Sample) -> f32 {
    f32::from_bits(x.re)
}

fn im_of(x: Sample) -> f32 {
    f32::from_bits(x.im)
}

#[test]
fn copy_from_fills_prefix_and_is_idempotent() {
    let src = vec![s(1.0, -1.0), s(2.0, 0.5), s(3.0, 0.0), s(4.0, 4.0), s(5.0, -5.0)];
    let mut dst = vec![s(9.0, 9.0); 3];
    vecops::copy_from(&mut dst, &src);
    assert_eq!(dst, vec![s(1.0, -1.0), s(2.0, 0.5), s(3.0, 0.0)]);
    let first = dst.clone();
    vecops::copy_from(&mut dst, &src);
    assert_eq!(dst, first);
}

#[test]
fn copy_from_leaves_excess_untouched() {
    let src = vec![s(1.0, 0.0), s(2.0, 0.0)];
    let mut dst = vec![s(7.0, 7.0); 4];
    vecops::copy_from(&mut dst, &src);
    assert_eq!(dst, vec![s(1.0, 0.0), s(2.0, 0.0), s(7.0, 7.0), s(7.0, 7.0)]);
}

#[test]
fn scale_by_one_is_identity() {
    let orig = vec![s(1.5, -2.25), s(0.0, 3.75), s(-1.0, 0.125)];
    let mut buf = orig.clone();
    vecops::scale(&mut buf, 1.0f32.to_bits());
    assert_eq!(buf, orig);
}

#[test]
fn scale_roundtrip_recovers_buffer() {
    let orig = vec![s(1.5, -2.25), s(0.5, 3.0), s(-1.25, 0.125)];
    let mut buf = orig.clone();
    let k = 4.0f32;
    vecops::scale(&mut buf, k.to_bits());
    assert!((re_of(buf[0]) - 6.0).abs() < 1e-6);
    vecops::scale(&mut buf, (1.0 / k).to_bits());
    for (a, b) in buf.iter().zip(orig.iter()) {
        assert!((re_of(*a) - re_of(*b)).abs() < 1e-6);
        assert!((im_of(*a) - im_of(*b)).abs() < 1e-6);
    }
}

#[test]
fn conjugate_twice_is_identity() {
    let orig = vec![s(1.0, 2.0), s(-3.5, -0.0), s(0.0, 0.0), s(4.25, -8.5)];
    let mut buf = orig.clone();
    vecops::conjugate(&mut buf);
    assert!((im_of(buf[0]) + 2.0).abs() == 0.0);
    vecops::conjugate(&mut buf);
    assert_eq!(buf, orig);
}

#[test]
fn multiply_is_elementwise_complex_product() {
    // (0 + 1i) * (0 + 1i) == -1, (1 + 1i) * (1 - 1i) == 2
    let mut dst = vec![s(0.0, 1.0), s(1.0, 1.0), s(5.0, 5.0)];
    let src = vec![s(0.0, 1.0), s(1.0, -1.0)];
    vecops::multiply(&mut dst, &src);
    assert!((re_of(dst[0]) + 1.0).abs() < 1e-6);
    assert!(im_of(dst[0]).abs() < 1e-6);
    assert!((re_of(dst[1]) - 2.0).abs() < 1e-6);
    assert!(im_of(dst[1]).abs() < 1e-6);
    // beyond the overlap: untouched
    assert_eq!(dst[2], s(5.0, 5.0));
}

#[test]
fn transform_roundtrip_recovers_buffer() {
    let orig = vec![s(1.0, 0.5), s(-2.0, 0.25), s(3.0, -1.0), s(0.5, 0.0)];
    let plan = Cfft::with_len(4);
    let mut buf = orig.clone();
    vecops::transform_forward(&mut buf, &plan, Scale::Sn).unwrap();
    vecops::transform_inverse(&mut buf, &plan, Scale::Sn).unwrap();
    for (a, b) in buf.iter().zip(orig.iter()) {
        assert!((re_of(*a) - re_of(*b)).abs() < 1e-5);
        assert!((im_of(*a) - im_of(*b)).abs() < 1e-5);
    }
}
