use aether_primitives::sequence;

#[test]
/// A simple sequence
fn simple_sequence() {
    let gen = |n: usize, s: &[u8]| (s[n - 1] + s[n - 2]) % 2;

    let seed = vec![1, 0];
    let seq = sequence::generate(seed, gen, 6);

    assert_eq!(seq, vec![1, 0, 1, 1, 0, 1]);
}

#[test]
fn expand_seed_bits() {
    let seed = 1u32 + 4u32 + 16u32;
    let expanded = sequence::expand(seed);
    let mut expected = vec![0u8; 32];
    expected[0] = 1;
    expected[2] = 1;
    expected[4] = 1;
    assert_eq!(expanded, expected, "Seed expansion failed");
    assert_eq!(expanded.len(), 32usize);
}

#[test]
fn generate_keeps_long_seed() {
    let gen = |_n: usize, s: &[u8]| s[0];
    let seed = vec![1, 0, 1, 1];
    let seq = sequence::generate(seed.clone(), gen, 2);
    assert_eq!(seq, seed);
}
