//! Seed expansion and closure-driven sequence generation, as used to seed
//! and run linear-shift-register style pseudo-random bit sequences for
//! scrambling and correlation.

use vstd::prelude::*;

verus! {

/// Bit `i` of the seed, least significant first, as a `{0, 1}` byte.
pub open spec fn bit_of(seed: u32, i: int) -> u8 {
    ((seed >> (i as u32)) & 1) as u8
}

/// Element `j` of a generated sequence is one the generator could have
/// produced from the prefix before it: some slice of that prefix, handed to
/// the generator with position `j`, admits it as output.
pub open spec fn generated_step<F: Fn(usize, &[u8]) -> u8>(generator: F, r: Seq<u8>, j: int) -> bool {
    exists|s: &[u8]| s@ == r.subrange(0, j) && call_ensures(generator, (j as usize, s), r[j])
}

/// Unpacks a `u32` into its 32 bits, least significant first, each as a
/// `{0, 1}` byte: seed material for sequences generated by linear-shift
/// registers.
pub fn expand(seed: u32) -> (r: Vec<u8>)
    ensures
        r@.len() == 32,
        forall|i: int| 0 <= i < 32 ==> #[trigger] r@[i] == bit_of(seed, i),
{
    let mut out: Vec<u8> = Vec::new();
    let mut i: usize = 0;
    while i < 32
        invariant
            i <= 32,
            out@.len() == i,
            forall|j: int| 0 <= j < i ==> #[trigger] out@[j] == bit_of(seed, j),
        decreases 32 - i,
    {
        let sh = i as u32;
        let b = ((seed >> sh) & 1) as u8;
        out.push(b);
        i += 1;
    }
    out
}

/// Extends `seed` to `len` elements by repeatedly calling `generator` with
/// the position to fill and the sequence so far, appending each new element.
/// A seed already at or beyond `len` is returned unchanged.
pub fn generate<F: Fn(usize, &[u8]) -> u8>(seed: Vec<u8>, generator: F, len: usize) -> (r: Vec<
    u8,
>)
    requires
        forall|n: usize, s: &[u8]|
            seed@.len() <= n < len && s@.len() == n ==> call_requires(generator, (n, s)),
    ensures
        seed@.len() >= len ==> r@ == seed@,
        seed@.len() < len ==> r@.len() == len,
        r@.subrange(0, seed@.len() as int) == seed@,
        forall|j: int| seed@.len() <= j < r@.len() ==> #[trigger] generated_step(generator, r@, j),
{
    let ghost s0 = seed@;
    let mut out = seed;
    proof {
        assert(out@.subrange(0, s0.len() as int) =~= s0);
    }
    while out.len() < len
        invariant
            forall|n: usize, s: &[u8]|
                s0.len() <= n < len && s@.len() == n ==> call_requires(generator, (n, s)),
            s0.len() <= out@.len(),
            s0.len() >= len ==> out@ == s0,
            s0.len() < len ==> out@.len() <= len,
            out@.subrange(0, s0.len() as int) == s0,
            forall|j: int|
                s0.len() <= j < out@.len() ==> #[trigger] generated_step(generator, out@, j),
        decreases len - out.len(),
    {
        let ghost prev = out@;
        let n = out.len();
        let sl = out.as_slice();
        let next = generator(n, sl);
        proof {
            let ghost future = prev.push(next);
            assert(future.subrange(0, n as int) =~= sl@);
            assert(generated_step(generator, future, n as int));
        }
        out.push(next);
        proof {
            assert(out@ == prev.push(next));
            assert(out@.subrange(0, s0.len() as int) =~= prev.subrange(0, s0.len() as int));
            assert forall|j: int| s0.len() <= j < prev.len() implies #[trigger] generated_step(
                generator,
                out@,
                j,
            ) by {
                assert(out@.subrange(0, j) =~= prev.subrange(0, j));
                assert(generated_step(generator, prev, j));
            }
        }
    }
    out
}

} // verus!
