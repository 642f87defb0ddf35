//! Frequency-domain correlation (matched filtering): the canonical
//! composition of the elementwise operations with the transform plan.
//!
//! The reference kernel is zero-padded to the transform length, forward
//! transformed once and conjugated, giving the conjugate spectrum that the
//! convolution theorem turns into a cross-correlation; each input window is
//! then forward transformed, multiplied elementwise by that kernel spectrum
//! and backward transformed, all unscaled. The magnitude of each resulting
//! sample is the correlation score at that lag.

use vstd::prelude::*;

use crate::fft::{Cfft, fft_fwd_of, fft_bwd_of, fft_forward_raw, fft_backward_raw};
use crate::sample::{Sample, spec_zero, norm_sqr_of, norm_sqr_one};
use crate::vecops::{conj_seq, conjugate, product_seq, multiply};

verus! {

/// Why a correlator call was refused.
#[derive(Clone, Copy, PartialEq, Eq, Structural, Debug)]
pub enum CorrelatorError {
    /// A transform length of zero is a degenerate configuration.
    EmptyLength,
    /// The pattern does not fit inside the transform length.
    PatternTooLong,
    /// The window's length differs from the transform length.
    SizeMismatch,
}

/// The reference kernel before its transform: the pattern, zero-padded to
/// the transform length.
pub open spec fn padded(p: Seq<Sample>, n: nat) -> Seq<Sample> {
    Seq::new(
        n,
        |i: int|
            if i < p.len() {
                p[i]
            } else {
                spec_zero()
            },
    )
}

/// What correlating a window against a kernel spectrum leaves behind:
/// forward transform, elementwise product with the kernel spectrum, backward
/// transform, all unscaled.
pub open spec fn correlated(v: Seq<Sample>, kernel: Seq<Sample>) -> Seq<Sample> {
    fft_bwd_of(product_seq(fft_fwd_of(v), kernel))
}

/// A matched-filter correlator: a transform plan for one window length and
/// the reference kernel's conjugate spectrum, built once and reused across
/// windows.
pub struct Correlator {
    /// The transform plan, bound to the correlation window length.
    pub plan: Cfft,
    /// The kernel spectrum: the conjugated, unscaled forward transform of
    /// the zero-padded pattern.
    pub kernel: Vec<Sample>,
}

impl Correlator {
    /// A correlator is usable when its kernel spectrum matches its plan's
    /// window length and that length is not degenerate.
    pub open spec fn wf(self) -> bool {
        self.kernel@.len() == self.plan.len && self.plan.len > 0
    }

    /// Precomputes the reference kernel for `pattern`: zero-pads it to
    /// `len`, forward-transforms it (unscaled) once and conjugates the
    /// spectrum. Fails exactly when `len` is zero or the pattern is longer
    /// than the window.
    pub fn new(pattern: &Vec<Sample>, len: usize) -> (res: Result<Correlator, CorrelatorError>)
        ensures
            (res is Ok) <==> (0 < len && pattern@.len() <= len),
            res matches Ok(c) ==> c.wf() && c.plan.len == len && c.kernel@ == conj_seq(
                fft_fwd_of(padded(pattern@, len as nat)),
            ),
            res == Err::<Correlator, CorrelatorError>(CorrelatorError::EmptyLength) <==> len == 0,
            res == Err::<Correlator, CorrelatorError>(CorrelatorError::PatternTooLong) <==> (0 < len
                && pattern@.len() > len),
    {
        if len == 0 {
            return Err(CorrelatorError::EmptyLength);
        }
        if pattern.len() > len {
            return Err(CorrelatorError::PatternTooLong);
        }
        let mut kernel: Vec<Sample> = Vec::new();
        let mut i: usize = 0;
        while i < pattern.len()
            invariant
                i <= pattern@.len(),
                pattern@.len() <= len,
                kernel@.len() == i,
                forall|j: int| 0 <= j < i ==> kernel@[j] == pattern@[j],
            decreases pattern@.len() - i,
        {
            kernel.push(pattern[i]);
            i += 1;
        }
        while kernel.len() < len
            invariant
                pattern@.len() <= kernel@.len() <= len,
                forall|j: int| 0 <= j < pattern@.len() ==> kernel@[j] == pattern@[j],
                forall|j: int| pattern@.len() <= j < kernel@.len() ==> kernel@[j] == spec_zero(),
            decreases len - kernel@.len(),
        {
            kernel.push(Sample::zero());
        }
        proof {
            assert(kernel@ =~= padded(pattern@, len as nat));
        }
        fft_forward_raw(&mut kernel);
        conjugate(&mut kernel);
        Ok(Correlator { plan: Cfft::with_len(len), kernel })
    }

    /// Correlates one window in place: forward transform, elementwise
    /// multiply by the kernel spectrum, backward transform, all unscaled, as
    /// one pipeline with no intermediate buffers. Fails, leaving the window
    /// untouched, exactly when the window's length differs from the plan's.
    pub fn correlate(&self, buf: &mut Vec<Sample>) -> (res: Result<(), CorrelatorError>)
        requires
            self.wf(),
        ensures
            (res is Ok) <==> old(buf).len() == self.plan.len,
            (res is Ok) ==> final(buf)@ == correlated(old(buf)@, self.kernel@),
            (res is Err) ==> final(buf)@ == old(buf)@ && res == Err::<(), CorrelatorError>(
                CorrelatorError::SizeMismatch,
            ),
    {
        if buf.len() != self.plan.len {
            return Err(CorrelatorError::SizeMismatch);
        }
        fft_forward_raw(buf);
        multiply(buf, &self.kernel);
        fft_backward_raw(buf);
        Ok(())
    }
}

/// The lag with the strongest correlation score: the first index whose
/// squared magnitude is maximal (squared magnitudes are compared as the bit
/// patterns of nonnegative IEEE-754 values, whose unsigned order is their
/// numeric order), together with that squared magnitude. `None` exactly on
/// an empty buffer.
pub fn peak(buf: &Vec<Sample>) -> (res: Option<(usize, u32)>)
    ensures
        (res is Some) <==> buf@.len() > 0,
        res matches Some(p) ==> p.0 < buf@.len() && p.1 == norm_sqr_of(buf@[p.0 as int]) && (
        forall|j: int| 0 <= j < buf@.len() ==> norm_sqr_of(buf@[j]) <= p.1) && (forall|j: int|
            0 <= j < p.0 ==> norm_sqr_of(buf@[j]) < p.1),
{
    if buf.len() == 0 {
        return None;
    }
    let mut best_i: usize = 0;
    let mut best = norm_sqr_one(buf[0]);
    let mut j: usize = 1;
    while j < buf.len()
        invariant
            0 < buf@.len(),
            1 <= j <= buf@.len(),
            best_i < j,
            best == norm_sqr_of(buf@[best_i as int]),
            forall|k: int| 0 <= k < j ==> norm_sqr_of(buf@[k]) <= best,
            forall|k: int| 0 <= k < best_i ==> norm_sqr_of(buf@[k]) < best,
        decreases buf@.len() - j,
    {
        let m = norm_sqr_one(buf[j]);
        if m > best {
            best = m;
            best_i = j;
        }
        j += 1;
    }
    Some((best_i, best))
}

} // verus!
