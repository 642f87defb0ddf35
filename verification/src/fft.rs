//! The spectral transform plan and its scaling modes.
//!
//! A `Cfft` is bound to one buffer length at construction; using it on a
//! buffer of any other length is a loud error, never a silent truncation.
//! The transform itself is delegated to `chfft`; the plan's length policy,
//! the scaling-mode dispatch and the magnitude row for a waterfall display
//! are verified here.

use vstd::prelude::*;

use crate::sample::{Sample, norm_sqr_of, norm_sqr_one, sqrt_of, sqrt_one};

verus! {

/// Normalization applied by a transform. `Unscaled` leaves amplitudes alone;
/// `Sn` is the symmetric convention that scales each direction by 1/sqrt(n),
/// so that a forward and a backward transform together restore amplitudes.
#[derive(Clone, Copy, PartialEq, Eq, Structural, Debug)]
pub enum Scale {
    Unscaled,
    Sn,
}

/// Why a transform was refused.
#[derive(Clone, Copy, PartialEq, Eq, Structural, Debug)]
pub enum FftError {
    /// The buffer's length differs from the plan's configured length.
    SizeMismatch,
    /// The plan's length is zero: a degenerate configuration.
    EmptyPlan,
}

/// The unscaled forward transform of a buffer, as `chfft` computes it: one
/// output sample per input sample.
pub uninterp spec fn fft_fwd_of(v: Seq<Sample>) -> Seq<Sample>;

/// The forward transform scaled by 1/sqrt(n), as `chfft` computes it.
pub uninterp spec fn fft_fwd_sn_of(v: Seq<Sample>) -> Seq<Sample>;

/// The unscaled backward transform of a buffer, as `chfft` computes it.
pub uninterp spec fn fft_bwd_of(v: Seq<Sample>) -> Seq<Sample>;

/// The backward transform scaled by 1/sqrt(n), as `chfft` computes it.
pub uninterp spec fn fft_bwd_sn_of(v: Seq<Sample>) -> Seq<Sample>;

/// Relies on chfft::CFft1D::forward: the scaling-factor-1 forward transform,
/// a function of the input buffer alone, returning one output sample per
/// input sample. The plan is built for the buffer's own length; chfft does
/// not terminate on length 0, so that length is excluded.
#[verifier::external_body]
pub(crate) fn fft_forward_raw(buf: &mut Vec<Sample>)
    requires
        old(buf).len() > 0,
    ensures
        final(buf)@ == fft_fwd_of(old(buf)@),
        final(buf)@.len() == old(buf)@.len(),
{
    let v: Vec<num_complex::Complex32> = buf.iter().map(
        |s| num_complex::Complex32::new(bytemuck::cast(s.re), bytemuck::cast(s.im)),
    ).collect();
    let mut plan = chfft::CFft1D::with_len(v.len());
    let out = plan.forward(v.as_slice());
    *buf = out.into_iter().map(
        |c| Sample { re: bytemuck::cast(c.re), im: bytemuck::cast(c.im) },
    ).collect();
}

/// Relies on chfft::CFft1D::forwardu: the 1/sqrt(n)-scaled forward transform,
/// a function of the input buffer alone, returning one output sample per
/// input sample. The plan is built for the buffer's own length; chfft does
/// not terminate on length 0, so that length is excluded.
#[verifier::external_body]
pub(crate) fn fft_forward_sn(buf: &mut Vec<Sample>)
    requires
        old(buf).len() > 0,
    ensures
        final(buf)@ == fft_fwd_sn_of(old(buf)@),
        final(buf)@.len() == old(buf)@.len(),
{
    let v: Vec<num_complex::Complex32> = buf.iter().map(
        |s| num_complex::Complex32::new(bytemuck::cast(s.re), bytemuck::cast(s.im)),
    ).collect();
    let mut plan = chfft::CFft1D::with_len(v.len());
    let out = plan.forwardu(v.as_slice());
    *buf = out.into_iter().map(
        |c| Sample { re: bytemuck::cast(c.re), im: bytemuck::cast(c.im) },
    ).collect();
}

/// Relies on chfft::CFft1D::backward0: the scaling-factor-1 backward
/// transform, a function of the input buffer alone, returning one output
/// sample per input sample. The plan is built for the buffer's own length;
/// chfft does not terminate on length 0, so that length is excluded.
#[verifier::external_body]
pub(crate) fn fft_backward_raw(buf: &mut Vec<Sample>)
    requires
        old(buf).len() > 0,
    ensures
        final(buf)@ == fft_bwd_of(old(buf)@),
        final(buf)@.len() == old(buf)@.len(),
{
    let v: Vec<num_complex::Complex32> = buf.iter().map(
        |s| num_complex::Complex32::new(bytemuck::cast(s.re), bytemuck::cast(s.im)),
    ).collect();
    let mut plan = chfft::CFft1D::with_len(v.len());
    let out = plan.backward0(v.as_slice());
    *buf = out.into_iter().map(
        |c| Sample { re: bytemuck::cast(c.re), im: bytemuck::cast(c.im) },
    ).collect();
}

/// Relies on chfft::CFft1D::backwardu: the 1/sqrt(n)-scaled backward
/// transform, a function of the input buffer alone, returning one output
/// sample per input sample. The plan is built for the buffer's own length;
/// chfft does not terminate on length 0, so that length is excluded.
#[verifier::external_body]
pub(crate) fn fft_backward_sn(buf: &mut Vec<Sample>)
    requires
        old(buf).len() > 0,
    ensures
        final(buf)@ == fft_bwd_sn_of(old(buf)@),
        final(buf)@.len() == old(buf)@.len(),
{
    let v: Vec<num_complex::Complex32> = buf.iter().map(
        |s| num_complex::Complex32::new(bytemuck::cast(s.re), bytemuck::cast(s.im)),
    ).collect();
    let mut plan = chfft::CFft1D::with_len(v.len());
    let out = plan.backwardu(v.as_slice());
    *buf = out.into_iter().map(
        |c| Sample { re: bytemuck::cast(c.re), im: bytemuck::cast(c.im) },
    ).collect();
}

/// What a forward transform under the given scaling mode leaves in a buffer.
pub open spec fn fwd_result(v: Seq<Sample>, scale: Scale) -> Seq<Sample> {
    if scale == Scale::Sn {
        fft_fwd_sn_of(v)
    } else {
        fft_fwd_of(v)
    }
}

/// What a backward transform under the given scaling mode leaves in a buffer.
pub open spec fn bwd_result(v: Seq<Sample>, scale: Scale) -> Seq<Sample> {
    if scale == Scale::Sn {
        fft_bwd_sn_of(v)
    } else {
        fft_bwd_of(v)
    }
}

/// A precomputed transform plan, bound to one fixed buffer length.
pub struct Cfft {
    /// The one buffer length this plan accepts.
    pub len: usize,
}

impl Cfft {
    /// Builds a plan for buffers of length `len`.
    pub fn with_len(len: usize) -> (r: Cfft)
        ensures
            r.len == len,
    {
        Cfft { len }
    }

    /// In-place forward transform under the given scaling mode. Fails, and
    /// leaves the buffer untouched, exactly when the buffer's length differs
    /// from the plan's or the plan's length is zero.
    pub fn fwd(&self, buf: &mut Vec<Sample>, scale: Scale) -> (r: Result<(), FftError>)
        ensures
            (r is Ok) <==> (old(buf).len() == self.len && self.len != 0),
            (r is Ok) ==> final(buf)@ == fwd_result(old(buf)@, scale) && final(buf)@.len()
                == old(buf)@.len(),
            (r is Err) ==> final(buf)@ == old(buf)@,
            r == Err::<(), FftError>(FftError::SizeMismatch) <==> old(buf).len() != self.len,
            r == Err::<(), FftError>(FftError::EmptyPlan) <==> (old(buf).len() == self.len
                && self.len == 0),
    {
        if buf.len() != self.len {
            return Err(FftError::SizeMismatch);
        }
        if self.len == 0 {
            return Err(FftError::EmptyPlan);
        }
        if scale == Scale::Sn {
            fft_forward_sn(buf);
        } else {
            fft_forward_raw(buf);
        }
        Ok(())
    }

    /// In-place backward transform under the given scaling mode. Fails, and
    /// leaves the buffer untouched, exactly when the buffer's length differs
    /// from the plan's or the plan's length is zero.
    pub fn bwd(&self, buf: &mut Vec<Sample>, scale: Scale) -> (r: Result<(), FftError>)
        ensures
            (r is Ok) <==> (old(buf).len() == self.len && self.len != 0),
            (r is Ok) ==> final(buf)@ == bwd_result(old(buf)@, scale) && final(buf)@.len()
                == old(buf)@.len(),
            (r is Err) ==> final(buf)@ == old(buf)@,
            r == Err::<(), FftError>(FftError::SizeMismatch) <==> old(buf).len() != self.len,
            r == Err::<(), FftError>(FftError::EmptyPlan) <==> (old(buf).len() == self.len
                && self.len == 0),
    {
        if buf.len() != self.len {
            return Err(FftError::SizeMismatch);
        }
        if self.len == 0 {
            return Err(FftError::EmptyPlan);
        }
        if scale == Scale::Sn {
            fft_backward_sn(buf);
        } else {
            fft_backward_raw(buf);
        }
        Ok(())
    }

    /// Copying forward transform: the input buffer is left alone and the
    /// transformed copy is returned. Fails exactly as `fwd` does.
    pub fn tfwd(&self, buf: &Vec<Sample>, scale: Scale) -> (r: Result<Vec<Sample>, FftError>)
        ensures
            (r is Ok) <==> (buf.len() == self.len && self.len != 0),
            r matches Ok(out) ==> out@ == fwd_result(buf@, scale) && out@.len() == buf@.len(),
            r == Err::<Vec<Sample>, FftError>(FftError::SizeMismatch) <==> buf.len() != self.len,
            r == Err::<Vec<Sample>, FftError>(FftError::EmptyPlan) <==> (buf.len() == self.len
                && self.len == 0),
    {
        let mut copy = clone_buffer(buf);
        match self.fwd(&mut copy, scale) {
            Ok(()) => Ok(copy),
            Err(e) => Err(e),
        }
    }

    /// Copying backward transform: the input buffer is left alone and the
    /// transformed copy is returned. Fails exactly as `bwd` does.
    pub fn tbwd(&self, buf: &Vec<Sample>, scale: Scale) -> (r: Result<Vec<Sample>, FftError>)
        ensures
            (r is Ok) <==> (buf.len() == self.len && self.len != 0),
            r matches Ok(out) ==> out@ == bwd_result(buf@, scale) && out@.len() == buf@.len(),
            r == Err::<Vec<Sample>, FftError>(FftError::SizeMismatch) <==> buf.len() != self.len,
            r == Err::<Vec<Sample>, FftError>(FftError::EmptyPlan) <==> (buf.len() == self.len
                && self.len == 0),
    {
        let mut copy = clone_buffer(buf);
        match self.bwd(&mut copy, scale) {
            Ok(()) => Ok(copy),
            Err(e) => Err(e),
        }
    }
}

/// An element-for-element copy of a buffer.
pub fn clone_buffer(buf: &Vec<Sample>) -> (r: Vec<Sample>)
    ensures
        r@ == buf@,
{
    let mut out: Vec<Sample> = Vec::new();
    let mut i: usize = 0;
    while i < buf.len()
        invariant
            i <= buf@.len(),
            out@ == buf@.subrange(0, i as int),
        decreases buf@.len() - i,
    {
        out.push(buf[i]);
        proof {
            assert(out@ =~= buf@.subrange(0, i + 1));
        }
        i += 1;
    }
    proof {
        assert(out@ =~= buf@);
    }
    out
}

/// Where bin `k` of a centred magnitude row comes from in the transform
/// output: the two halves are swapped, so the zero-frequency bin sits in the
/// middle of the row.
pub open spec fn mirror_index(k: int, n: nat) -> int {
    if k >= n / 2 {
        k - n / 2
    } else {
        k + (n - n / 2)
    }
}

/// The magnitude row a waterfall display consumes: the 1/sqrt(n)-scaled
/// forward transform of the input window, reduced to per-bin magnitudes (as
/// IEEE-754 bit patterns), with the two halves swapped so the zero-frequency
/// bin is centred. Fails exactly when the window's length differs from the
/// plan's or the plan's length is zero.
pub fn spectrum_row(plan: &Cfft, row: &Vec<Sample>) -> (r: Result<Vec<u32>, FftError>)
    ensures
        (r is Ok) <==> (row.len() == plan.len && plan.len != 0),
        r matches Ok(out) ==> out@.len() == row@.len() && forall|k: int|
            0 <= k < row@.len() ==> out@[k] == sqrt_of(
                norm_sqr_of(fft_fwd_sn_of(row@)[mirror_index(k, row@.len())]),
            ),
        r matches Err(e) ==> ((e == FftError::SizeMismatch) <==> row.len() != plan.len),
    {
    let t = match plan.tfwd(row, Scale::Sn) {
        Ok(t) => t,
        Err(e) => {
            return Err(e);
        },
    };
    let n = t.len();
    let half = n / 2;
    let mut out: Vec<u32> = Vec::new();
    let mut k: usize = 0;
    while k < n
        invariant
            n == t@.len(),
            half == n / 2,
            t@ == fft_fwd_sn_of(row@),
            n == row@.len(),
            k <= n,
            out@.len() == k,
            forall|j: int| 0 <= j < k ==> out@[j] == sqrt_of(
                norm_sqr_of(t@[mirror_index(j, n as nat)]),
            ),
        decreases n - k,
    {
        let src = if k >= half {
            k - half
        } else {
            k + (n - half)
        };
        let m = sqrt_one(norm_sqr_one(t[src]));
        out.push(m);
        k += 1;
    }
    Ok(out)
}

} // verus!
