use aether_primitives::Sample;
use aether_primitives::correlate::{Correlator, CorrelatorError, peak};

fn s(re: f32, im: f32) -> Sample {
    Sample::new(re.to_bits(), im.to_bits())
}

#[test]
fn correlation_peak_on_tiled_pattern() {
    // Tile a 4-sample pattern to 512 samples and correlate against the same
    // pattern: the peak must sit at a multiple of 4 and stand well above the
    // mean score elsewhere.
    let pattern = vec![s(1.0, 0.0), s(-1.0, 0.0), s(1.0, 0.0), s(1.0, 0.0)];
    let len = 512usize;
    let corr = Correlator::new(&pattern, len).unwrap();
    let mut window: Vec<Sample> = (0..len).map(|i| pattern[i % 4]).collect();
    corr.correlate(&mut window).unwrap();

    let (lag, _score_bits) = peak(&window).unwrap();
    assert_eq!(lag % 4, 0, "peak must align with the pattern period, got lag {lag}");

    let mags: Vec<f32> =
        window.iter().map(|x| f32::from_bits(x.re).hypot(f32::from_bits(x.im))).collect();
    let peak_mag = mags[lag];
    let rest: Vec<f32> = (0..len).filter(|i| i % 4 != 0).map(|i| mags[i]).collect();
    let mean_rest: f32 = rest.iter().sum::<f32>() / rest.len() as f32;
    assert!(
        peak_mag > 5.0 * (mean_rest + 1e-3),
        "peak {peak_mag} not above mean elsewhere {mean_rest}"
    );
}

#[test]
fn correlator_rejects_bad_configurations() {
    let pattern = vec![s(1.0, 0.0); 8];
    assert!(matches!(Correlator::new(&pattern, 4), Err(CorrelatorError::PatternTooLong)));
    assert!(matches!(Correlator::new(&pattern, 0), Err(CorrelatorError::EmptyLength)));

    let corr = Correlator::new(&pattern, 16).unwrap();
    let orig = vec![s(2.0, 0.0); 8];
    let mut window = orig.clone();
    assert!(matches!(corr.correlate(&mut window), Err(CorrelatorError::SizeMismatch)));
    assert_eq!(window, orig);
}

#[test]
fn peak_is_first_maximal_score() {
    let buf = vec![s(1.0, 0.0), s(0.0, 3.0), s(-3.0, 0.0), s(0.5, 0.5)];
    let (i, score_bits) = peak(&buf).unwrap();
    assert_eq!(i, 1, "the first of the two equal maxima wins");
    assert!((f32::from_bits(score_bits) - 9.0).abs() < 1e-6);
    assert!(peak(&Vec::new()).is_none());
}
