use aether_primitives::Sample;
use aether_primitives::sampling::{ResampleError, downsample, downsample_sb, interpolate};
use aether_primitives::sequence;

fn s(re: f32, im: f32) -> Sample {
    Sample::new(re.to_bits(), im.to_bits())
}

fn re_of(x: Sample) -> f32 {
    f32::from_bits(x.re)
}

/// A deterministic pseudo-random buffer, driven by a linear-shift-register
/// sequence.
fn prbs_buffer(len: usize, salt: u8) -> Vec<Sample> {
    let gen = |n: usize, seq: &[u8]| (seq[n - 1] + seq[n - 2] + seq[n - 5]) % 2;
    let seed = vec![1, 0, 1, 1, salt % 2];
    let bits = sequence::generate(seed, gen, len + 5);
    (0..len).map(|i| s(bits[i] as f32 * 2.0 - 1.0, bits[i + 5] as f32 - 0.5)).collect()
}

#[test]
fn downsample_variants_agree() {
    let shapes = [(37usize, 10usize), (64, 64), (100, 7), (5, 100), (1, 1), (10, 3), (12, 5)];
    for (sl, dl) in shapes {
        let src = prbs_buffer(sl, (sl % 2) as u8);
        let mut dst_a = vec![s(9.0, 9.0); dl];
        let mut dst_b = dst_a.clone();
        downsample(&src, &mut dst_a);
        downsample_sb(&src, &mut dst_b);
        assert_eq!(dst_a, dst_b, "decimators diverged on shape ({sl}, {dl})");
    }
}

#[test]
fn downsample_selects_strided_samples() {
    let src: Vec<Sample> = (0..10).map(|i| s(i as f32, 0.0)).collect();
    let mut dst = vec![s(0.0, 0.0); 5];
    downsample(&src, &mut dst);
    let picked: Vec<f32> = dst.iter().map(|x| re_of(*x)).collect();
    assert_eq!(picked, vec![0.0, 2.0, 4.0, 6.0, 8.0]);
}

#[test]
fn downsample_empty_dst_is_noop() {
    let src = prbs_buffer(8, 0);
    let mut dst: Vec<Sample> = Vec::new();
    downsample(&src, &mut dst);
    assert!(dst.is_empty());
}

#[test]
fn downsample_stops_when_src_runs_out() {
    let src: Vec<Sample> = (0..3).map(|i| s(i as f32, 0.0)).collect();
    let mut dst = vec![s(7.0, 7.0); 5];
    downsample(&src, &mut dst);
    // stride is 1; after src is exhausted the remaining slots are untouched
    let picked: Vec<f32> = dst.iter().map(|x| re_of(*x)).collect();
    assert_eq!(picked, vec![0.0, 1.0, 2.0, 7.0, 7.0]);
}

#[test]
fn interpolate_factor_one_reproduces_source() {
    let src = prbs_buffer(16, 1);
    let mut dst = vec![s(3.0, 3.0); 16];
    interpolate(&src, &mut dst, 1).unwrap();
    assert_eq!(dst, src);
}

#[test]
fn interpolate_synthesizes_midpoints() {
    let src = vec![s(0.0, 4.0), s(2.0, 0.0)];
    let mut dst = vec![s(9.0, 9.0); 3];
    interpolate(&src, &mut dst, 2).unwrap();
    assert_eq!(dst[0], src[0]);
    assert!((re_of(dst[1]) - 1.0).abs() < 1e-6);
    assert!((f32::from_bits(dst[1].im) - 2.0).abs() < 1e-6);
    assert_eq!(dst[2], src[1]);
}

#[test]
fn interpolate_does_not_extrapolate() {
    let src = vec![s(0.0, 0.0), s(2.0, 0.0)];
    let mut dst = vec![s(9.0, 9.0); 10];
    interpolate(&src, &mut dst, 2).unwrap();
    // positions 0, 1, 2 are bounded by the last source sample; the rest stay
    for slot in &dst[3..] {
        assert_eq!(*slot, s(9.0, 9.0));
    }
}

#[test]
fn interpolate_zero_factor_is_refused() {
    let src = vec![s(1.0, 0.0)];
    let orig = vec![s(5.0, 5.0); 4];
    let mut dst = orig.clone();
    assert_eq!(interpolate(&src, &mut dst, 0), Err(ResampleError::ZeroFactor));
    assert_eq!(dst, orig);
}
