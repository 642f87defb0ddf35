//! Elementwise operations over complex sample buffers.
//!
//! Binary operations never panic on mismatched lengths: they work over the
//! overlapping prefix of the two buffers and leave everything beyond it
//! untouched.

use vstd::prelude::*;

use crate::fft::{Cfft, FftError, Scale, fwd_result, bwd_result};
use crate::sample::{Sample, spec_conj, conj, scale_of, scale_one, mul_of, mul_one};

verus! {

/// Length of the overlapping prefix of two buffers: the shorter of the two
/// lengths.
pub open spec fn overlap(a: Seq<Sample>, b: Seq<Sample>) -> int {
    if a.len() <= b.len() {
        a.len() as int
    } else {
        b.len() as int
    }
}

/// What `copy_from` leaves in `dst`: the matching prefix of `src` over the
/// overlap, the old contents beyond it.
pub open spec fn copied_seq(dst: Seq<Sample>, src: Seq<Sample>) -> Seq<Sample> {
    Seq::new(
        dst.len(),
        |i: int|
            if i < overlap(dst, src) {
                src[i]
            } else {
                dst[i]
            },
    )
}

/// Every sample conjugated.
pub open spec fn conj_seq(v: Seq<Sample>) -> Seq<Sample> {
    v.map_values(|s: Sample| spec_conj(s))
}

/// Every sample scaled by the real factor whose bit pattern is `k`.
pub open spec fn scale_seq(v: Seq<Sample>, k: u32) -> Seq<Sample> {
    v.map_values(|s: Sample| scale_of(s, k))
}

/// What `multiply` leaves in `dst`: the elementwise complex product over the
/// overlap, the old contents beyond it.
pub open spec fn product_seq(dst: Seq<Sample>, src: Seq<Sample>) -> Seq<Sample> {
    Seq::new(
        dst.len(),
        |i: int|
            if i < overlap(dst, src) {
                mul_of(dst[i], src[i])
            } else {
                dst[i]
            },
    )
}

/// Copies samples from `src` into `dst` starting at index 0, over the
/// overlapping prefix. Excess elements of the longer buffer are untouched;
/// mismatched lengths are not an error.
pub fn copy_from(dst: &mut Vec<Sample>, src: &Vec<Sample>)
    ensures
        final(dst)@ == copied_seq(old(dst)@, src@),
{
    let ghost d0 = dst@;
    let n = if dst.len() <= src.len() {
        dst.len()
    } else {
        src.len()
    };
    let mut i: usize = 0;
    while i < n
        invariant
            n == overlap(d0, src@),
            i <= n,
            dst@.len() == d0.len(),
            forall|j: int| 0 <= j < i ==> dst@[j] == src@[j],
            forall|j: int| i <= j < d0.len() ==> dst@[j] == d0[j],
        decreases n - i,
    {
        let v = src[i];
        dst.set(i, v);
        i += 1;
    }
    proof {
        assert(dst@ =~= copied_seq(d0, src@));
    }
}

/// When `src` is at least as long as `dst`, copying fills `dst` with the
/// matching prefix of `src`.
pub proof fn lemma_copy_prefix(dst: Seq<Sample>, src: Seq<Sample>)
    requires
        dst.len() <= src.len(),
    ensures
        copied_seq(dst, src) == src.subrange(0, dst.len() as int),
{
    assert(copied_seq(dst, src) =~= src.subrange(0, dst.len() as int));
}

/// Copying from the same source twice changes nothing the second time:
/// `copy_from` is idempotent.
pub proof fn lemma_copy_idempotent(dst: Seq<Sample>, src: Seq<Sample>)
    ensures
        copied_seq(copied_seq(dst, src), src) == copied_seq(dst, src),
{
    assert(copied_seq(copied_seq(dst, src), src) =~= copied_seq(dst, src));
}

/// Negates the imaginary component of every sample in place.
pub fn conjugate(buf: &mut Vec<Sample>)
    ensures
        final(buf)@ == conj_seq(old(buf)@),
{
    let ghost b0 = buf@;
    let n = buf.len();
    let mut i: usize = 0;
    while i < n
        invariant
            n == b0.len(),
            i <= n,
            buf@.len() == b0.len(),
            forall|j: int| 0 <= j < i ==> buf@[j] == spec_conj(b0[j]),
            forall|j: int| i <= j < n ==> buf@[j] == b0[j],
        decreases n - i,
    {
        let v = conj(buf[i]);
        buf.set(i, v);
        i += 1;
    }
    proof {
        assert(buf@ =~= conj_seq(b0));
    }
}

/// Conjugating a buffer twice restores it exactly: conjugation is its own
/// inverse.
pub proof fn lemma_conjugate_involution(v: Seq<Sample>)
    ensures
        conj_seq(conj_seq(v)) == v,
{
    assert forall|i: int| 0 <= i < v.len() implies conj_seq(conj_seq(v))[i] == v[i] by {
        crate::sample::lemma_conj_involution(v[i]);
    }
    assert(conj_seq(conj_seq(v)) =~= v);
}

/// Multiplies every sample in place by the real scalar whose IEEE-754 bit
/// pattern is `factor`. No length constraint, no failure mode.
pub fn scale(buf: &mut Vec<Sample>, factor: u32)
    ensures
        final(buf)@ == scale_seq(old(buf)@, factor),
{
    let ghost b0 = buf@;
    let n = buf.len();
    let mut i: usize = 0;
    while i < n
        invariant
            n == b0.len(),
            i <= n,
            buf@.len() == b0.len(),
            forall|j: int| 0 <= j < i ==> buf@[j] == scale_of(b0[j], factor),
            forall|j: int| i <= j < n ==> buf@[j] == b0[j],
        decreases n - i,
    {
        let v = scale_one(buf[i], factor);
        buf.set(i, v);
        i += 1;
    }
    proof {
        assert(buf@ =~= scale_seq(b0, factor));
    }
}

/// Elementwise complex multiply of `dst` by `src` over the overlapping
/// prefix, writing the products into `dst`. Excess elements of the longer
/// buffer are untouched; mismatched lengths are not an error.
pub fn multiply(dst: &mut Vec<Sample>, src: &Vec<Sample>)
    ensures
        final(dst)@ == product_seq(old(dst)@, src@),
{
    let ghost d0 = dst@;
    let n = if dst.len() <= src.len() {
        dst.len()
    } else {
        src.len()
    };
    let mut i: usize = 0;
    while i < n
        invariant
            n == overlap(d0, src@),
            i <= n,
            dst@.len() == d0.len(),
            forall|j: int| 0 <= j < i ==> dst@[j] == mul_of(d0[j], src@[j]),
            forall|j: int| i <= j < d0.len() ==> dst@[j] == d0[j],
        decreases n - i,
    {
        let v = mul_one(dst[i], src[i]);
        dst.set(i, v);
        i += 1;
    }
    proof {
        assert(dst@ =~= product_seq(d0, src@));
    }
}

/// In-place forward spectral transform of the buffer, delegated to the bound
/// plan; the buffer's length must equal the plan's configured length, and a
/// mismatch fails loudly, leaving the buffer untouched.
pub fn transform_forward(buf: &mut Vec<Sample>, plan: &Cfft, scale: Scale) -> (r: Result<
    (),
    FftError,
>)
    ensures
        (r is Ok) <==> (old(buf).len() == plan.len && plan.len != 0),
        (r is Ok) ==> final(buf)@ == fwd_result(old(buf)@, scale) && final(buf)@.len() == old(
            buf,
        )@.len(),
        (r is Err) ==> final(buf)@ == old(buf)@,
        r == Err::<(), FftError>(FftError::SizeMismatch) <==> old(buf).len() != plan.len,
{
    plan.fwd(buf, scale)
}

/// In-place backward (inverse) spectral transform of the buffer, delegated to
/// the bound plan; the buffer's length must equal the plan's configured
/// length, and a mismatch fails loudly, leaving the buffer untouched.
pub fn transform_inverse(buf: &mut Vec<Sample>, plan: &Cfft, scale: Scale) -> (r: Result<
    (),
    FftError,
>)
    ensures
        (r is Ok) <==> (old(buf).len() == plan.len && plan.len != 0),
        (r is Ok) ==> final(buf)@ == bwd_result(old(buf)@, scale) && final(buf)@.len() == old(
            buf,
        )@.len(),
        (r is Err) ==> final(buf)@ == old(buf)@,
        r == Err::<(), FftError>(FftError::SizeMismatch) <==> old(buf).len() != plan.len,
{
    plan.bwd(buf, scale)
}

} // verus!
