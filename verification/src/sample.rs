//! The complex sample type and its arithmetic.
//!
//! A sample stores the IEEE-754 binary32 bit patterns of its real and
//! imaginary components. Conjugation is pure bit logic (a sign-bit flip) and
//! is verified outright; multiplication, subtraction and magnitudes are
//! IEEE-754 arithmetic, delegated to `num_complex` behind trusted wrappers
//! whose results are named by uninterpreted spec functions.

use vstd::prelude::*;

verus! {

/// The sign bit of an IEEE-754 binary32 value.
pub const SIGN_BIT: u32 = 0x8000_0000;

/// One complex sample. `re` and `im` hold the IEEE-754 binary32 bit patterns
/// of the real and imaginary components.
#[derive(Clone, Copy, PartialEq, Eq, Structural, Debug)]
pub struct Sample {
    pub re: u32,
    pub im: u32,
}

impl Sample {
    /// Builds a sample from the bit patterns of its two components.
    pub fn new(re: u32, im: u32) -> (r: Sample)
        ensures
            r == (Sample { re, im }),
    {
        Sample { re, im }
    }

    /// The sample whose components are both +0.0 (all bits clear).
    pub fn zero() -> (r: Sample)
        ensures
            r == spec_zero(),
    {
        Sample { re: 0, im: 0 }
    }
}

/// The all-zero sample, +0.0 + +0.0i.
pub open spec fn spec_zero() -> Sample {
    Sample { re: 0, im: 0 }
}

/// Complex conjugation on the bit-pattern model: IEEE-754 negation is exactly
/// a flip of the sign bit, so the conjugate keeps `re` and flips the sign bit
/// of `im`.
pub open spec fn spec_conj(s: Sample) -> Sample {
    Sample { re: s.re, im: s.im ^ SIGN_BIT }
}

/// Conjugates one sample: negates the imaginary component.
pub fn conj(s: Sample) -> (r: Sample)
    ensures
        r == spec_conj(s),
{
    Sample { re: s.re, im: s.im ^ SIGN_BIT }
}

/// Conjugation is an involution: flipping a sign bit twice restores it.
pub proof fn lemma_conj_involution(s: Sample)
    ensures
        spec_conj(spec_conj(s)) == s,
{
    let b = s.im;
    assert((b ^ 0x8000_0000u32) ^ 0x8000_0000u32 == b) by (bit_vector);
}

/// The complex product of two samples, as IEEE-754 binary32 arithmetic
/// computes it. Deterministic in its arguments alone.
pub uninterp spec fn mul_of(a: Sample, b: Sample) -> Sample;

/// The complex difference `a - b`, as IEEE-754 binary32 arithmetic computes
/// it. Deterministic in its arguments alone.
pub uninterp spec fn sub_of(a: Sample, b: Sample) -> Sample;

/// The sample scaled by the real factor whose bit pattern is `k`, as IEEE-754
/// binary32 arithmetic computes it. Deterministic in its arguments alone.
pub uninterp spec fn scale_of(s: Sample, k: u32) -> Sample;

/// The squared magnitude `re*re + im*im` of a sample, as IEEE-754 binary32
/// arithmetic computes it, as a bit pattern. Deterministic in its arguments
/// alone.
pub uninterp spec fn norm_sqr_of(s: Sample) -> u32;

/// The IEEE-754 binary32 square root (correctly rounded, so deterministic in
/// its argument alone) of the value whose bit pattern is `x`, as a bit
/// pattern.
pub uninterp spec fn sqrt_of(x: u32) -> u32;

/// The IEEE-754 binary32 product of the values whose bit patterns are `a` and
/// `b`, as a bit pattern. Deterministic in its arguments alone.
pub uninterp spec fn real_mul_of(a: u32, b: u32) -> u32;

/// Relies on num_complex: `Mul for Complex<f32>` is the usual complex product
/// in IEEE-754 binary32 arithmetic, a function of the two operands alone.
#[verifier::external_body]
pub(crate) fn mul_one(a: Sample, b: Sample) -> (r: Sample)
    ensures
        r == mul_of(a, b),
{
    let x = num_complex::Complex32::new(bytemuck::cast(a.re), bytemuck::cast(a.im));
    let y = num_complex::Complex32::new(bytemuck::cast(b.re), bytemuck::cast(b.im));
    let p = x * y;
    Sample { re: bytemuck::cast(p.re), im: bytemuck::cast(p.im) }
}

/// Relies on num_complex: `Sub for Complex<f32>` subtracts componentwise in
/// IEEE-754 binary32 arithmetic, a function of the two operands alone.
#[verifier::external_body]
pub(crate) fn sub_one(a: Sample, b: Sample) -> (r: Sample)
    ensures
        r == sub_of(a, b),
{
    let x = num_complex::Complex32::new(bytemuck::cast(a.re), bytemuck::cast(a.im));
    let y = num_complex::Complex32::new(bytemuck::cast(b.re), bytemuck::cast(b.im));
    let d = x - y;
    Sample { re: bytemuck::cast(d.re), im: bytemuck::cast(d.im) }
}

/// Relies on num_complex: `Complex::scale` multiplies both components by the
/// real scalar in IEEE-754 binary32 arithmetic, a function of the operands
/// alone.
#[verifier::external_body]
pub(crate) fn scale_one(s: Sample, k: u32) -> (r: Sample)
    ensures
        r == scale_of(s, k),
{
    let x = num_complex::Complex32::new(bytemuck::cast(s.re), bytemuck::cast(s.im));
    let p = x.scale(bytemuck::cast(k));
    Sample { re: bytemuck::cast(p.re), im: bytemuck::cast(p.im) }
}

/// Relies on num_complex: `Complex::norm_sqr` is `re*re + im*im` in IEEE-754
/// binary32 arithmetic, a function of the sample alone.
#[verifier::external_body]
pub(crate) fn norm_sqr_one(s: Sample) -> (r: u32)
    ensures
        r == norm_sqr_of(s),
{
    let x = num_complex::Complex32::new(bytemuck::cast(s.re), bytemuck::cast(s.im));
    let n: u32 = bytemuck::cast(x.norm_sqr());
    n
}

/// Relies on the IEEE-754 binary32 square root of std, which is correctly
/// rounded and therefore a function of its argument alone.
#[verifier::external_body]
pub(crate) fn sqrt_one(x: u32) -> (r: u32)
    ensures
        r == sqrt_of(x),
{
    let c = num_complex::Complex32::new(bytemuck::cast(x), bytemuck::cast(0u32));
    let s: u32 = bytemuck::cast(c.re.sqrt());
    s
}

/// Relies on IEEE-754 binary32 multiplication, a function of the two operands
/// alone.
#[verifier::external_body]
pub(crate) fn real_mul_one(a: u32, b: u32) -> (r: u32)
    ensures
        r == real_mul_of(a, b),
{
    let c = num_complex::Complex32::new(bytemuck::cast(a), bytemuck::cast(b));
    let p: u32 = bytemuck::cast(c.re * c.im);
    p
}

} // verus!
