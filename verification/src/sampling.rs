//! Sample-rate conversion: linear interpolation (upsampling) and pure
//! stride-selection decimation (downsampling, no anti-alias filtering).
//!
//! The two decimators share one output contract and differ only in how they
//! walk the stride; `lemma_downsample_agree` records that they can never
//! diverge.

use vstd::prelude::*;

use vstd::arithmetic::div_mod::{lemma_fundamental_div_mod, lemma_fundamental_div_mod_converse};

use crate::sample::Sample;

verus! {

/// Why a resampling call was refused.
#[derive(Clone, Copy, PartialEq, Eq, Structural, Debug)]
pub enum ResampleError {
    /// The interpolation factor is zero: a degenerate configuration.
    ZeroFactor,
}

/// The linear interpolation between `a` and `b` at fraction `num/den`, as
/// IEEE-754 binary32 arithmetic computes it: `a + (b - a) * (num/den)`,
/// componentwise. Deterministic in its arguments alone.
pub uninterp spec fn lerp_of(a: Sample, b: Sample, num: usize, den: usize) -> Sample;

/// Relies on num_complex scalar arithmetic (`Sub`, `Complex::scale`,
/// `Complex::unscale`, `Add`): componentwise `a + (b - a) * num / den` in
/// IEEE-754 binary32, a function of the arguments alone.
#[verifier::external_body]
fn lerp_one(a: Sample, b: Sample, num: usize, den: usize) -> (r: Sample)
    requires
        0 < den,
    ensures
        r == lerp_of(a, b, num, den),
{
    let ac = num_complex::Complex32::new(bytemuck::cast(a.re), bytemuck::cast(a.im));
    let bc = num_complex::Complex32::new(bytemuck::cast(b.re), bytemuck::cast(b.im));
    let nf = num_traits::cast(num).unwrap();
    let df = num_traits::cast(den).unwrap();
    let r = ac + (bc - ac).scale(nf).unscale(df);
    Sample { re: bytemuck::cast(r.re), im: bytemuck::cast(r.im) }
}

/// The decimation stride: the ceiling of `len(src) / len(dst)`, or 0 when
/// either buffer is empty and nothing is selected at all.
pub open spec fn stride_for(src_len: nat, dst_len: nat) -> nat {
    if dst_len == 0 || src_len == 0 {
        0
    } else {
        (src_len - 1) as nat / dst_len + 1
    }
}

/// How many destination slots a decimation fills: `dst` is full or `src` is
/// exhausted, whichever comes first.
pub open spec fn down_count(src_len: nat, dst_len: nat) -> nat {
    let st = stride_for(src_len, dst_len);
    if st == 0 {
        0
    } else {
        let avail = src_len / st + if src_len % st == 0 {
            0 as nat
        } else {
            1 as nat
        };
        if avail <= dst_len {
            avail
        } else {
            dst_len
        }
    }
}

/// What decimation leaves in `dst`: every `stride`-th sample of `src` over
/// the filled prefix, the old contents beyond it.
pub open spec fn downsample_seq(src: Seq<Sample>, dst: Seq<Sample>) -> Seq<Sample> {
    let st = stride_for(src.len(), dst.len());
    Seq::new(
        dst.len(),
        |i: int|
            if i < down_count(src.len(), dst.len()) {
                src[i * st]
            } else {
                dst[i]
            },
    )
}

/// Below the available count, the strided index lands inside `src`.
proof fn lemma_stride_in_bounds(i: nat, st: nat, len: nat)
    requires
        0 < st,
        i < len / st + if len % st == 0 {
            0 as nat
        } else {
            1 as nat
        },
    ensures
        i * st < len,
{
    lemma_fundamental_div_mod(len as int, st as int);
    let q = len / st;
    let r = len % st;
    if r == 0 {
        assert(i * st < len) by (nonlinear_arith)
            requires
                len == st * q + r,
                r == 0,
                i < q,
                0 < st;
    } else {
        assert(i * st < len) by (nonlinear_arith)
            requires
                len == st * q + r,
                0 < r,
                i <= q,
                0 < st;
    }
}

/// Decimates `src` into `dst` by keeping one sample out of every `stride`,
/// where `stride` is the ceiling of `len(src)/len(dst)`, filling `dst` left
/// to right until `dst` is full or `src` is exhausted. Excess slots of `dst`
/// are untouched; an empty `dst` is a no-op, not a failure. Explicit indexed
/// looping.
pub fn downsample(src: &Vec<Sample>, dst: &mut Vec<Sample>)
    ensures
        final(dst)@ == downsample_seq(src@, old(dst)@),
{
    let ghost d0 = dst@;
    if dst.len() == 0 || src.len() == 0 {
        proof {
            assert(dst@ =~= downsample_seq(src@, d0));
        }
        return ;
    }
    let stride = (src.len() - 1) / dst.len() + 1;
    let ghost avail = src@.len() / (stride as nat) + if src@.len() % (stride as nat) == 0 {
        0 as nat
    } else {
        1 as nat
    };
    let src_len = src.len();
    let q = src_len / stride;
    let n = if q >= dst.len() {
        dst.len()
    } else if src.len() % stride == 0 {
        q
    } else {
        q + 1
    };
    let mut i: usize = 0;
    while i < n
        invariant
            stride == stride_for(src@.len(), d0.len()),
            0 < stride,
            n == down_count(src@.len(), d0.len()),
            n <= d0.len(),
            n <= avail,
            avail == src@.len() / (stride as nat) + if src@.len() % (stride as nat) == 0 {
                0 as nat
            } else {
                1 as nat
            },
            src_len == src@.len(),
            i <= n,
            dst@.len() == d0.len(),
            forall|j: int| 0 <= j < i ==> dst@[j] == src@[j * stride],
            forall|j: int| i <= j < d0.len() ==> dst@[j] == d0[j],
        decreases n - i,
    {
        proof {
            lemma_stride_in_bounds(i as nat, stride as nat, src@.len());
        }
        let v = src[i * stride];
        dst.set(i, v);
        i += 1;
    }
    proof {
        assert(dst@ =~= downsample_seq(src@, d0));
    }
}

/// Decimates exactly as `downsample` does, but walks `src` with a strided
/// position that advances by `stride` each step instead of multiplying the
/// destination index out. The output contract is identical: the two variants
/// can never diverge.
pub fn downsample_sb(src: &Vec<Sample>, dst: &mut Vec<Sample>)
    ensures
        final(dst)@ == downsample_seq(src@, old(dst)@),
{
    let ghost d0 = dst@;
    if dst.len() == 0 || src.len() == 0 {
        proof {
            assert(dst@ =~= downsample_seq(src@, d0));
        }
        return ;
    }
    let stride = (src.len() - 1) / dst.len() + 1;
    let mut pos: usize = 0;
    let mut i: usize = 0;
    while i < dst.len() && pos < src.len()
        invariant
            stride == stride_for(src@.len(), d0.len()),
            0 < stride,
            0 < src@.len(),
            0 < d0.len(),
            i <= d0.len(),
            dst@.len() == d0.len(),
            pos <= src@.len(),
            pos < src@.len() ==> pos == i * stride,
            pos == src@.len() ==> i * stride >= src@.len(),
            i > 0 ==> (i - 1) * stride < src@.len(),
            i == 0 ==> pos == 0,
            forall|j: int| 0 <= j < i ==> dst@[j] == src@[j * stride],
            forall|j: int| i <= j < d0.len() ==> dst@[j] == d0[j],
        decreases d0.len() - i,
    {
        let v = src[pos];
        dst.set(i, v);
        i += 1;
        let ghost pos0 = pos as int;
        if stride <= src.len() - 1 - pos {
            pos = pos + stride;
        } else {
            // The next strided position falls past the end of `src`: clamp it
            // there instead of overflowing, and let the loop condition end
            // the walk.
            pos = src.len();
        }
        proof {
            assert(pos0 + stride == i * stride) by (nonlinear_arith)
                requires
                    pos0 == (i - 1) * stride;
        }
    }
    proof {
        if i < d0.len() {
            // The walk stopped because `src` ran out: exactly the available
            // count of slots was filled.
            lemma_count_reached(i as nat, stride as nat, src@.len(), d0.len());
        } else {
            lemma_count_capped(i as nat, stride as nat, src@.len(), d0.len());
        }
        assert(dst@ =~= downsample_seq(src@, d0));
    }
}

/// When the strided position has just left `src`, the number of filled slots
/// is the available count.
proof fn lemma_count_reached(i: nat, st: nat, src_len: nat, dst_len: nat)
    requires
        0 < st,
        0 < src_len,
        0 < dst_len,
        st == stride_for(src_len, dst_len),
        i <= dst_len,
        (i - 1) * st < src_len,
        i * st >= src_len,
    ensures
        i == down_count(src_len, dst_len),
{
    lemma_fundamental_div_mod(src_len as int, st as int);
    let q = src_len / st;
    let r = src_len % st;
    if r == 0 {
        assert(i == q) by (nonlinear_arith)
            requires
                src_len == st * q + r,
                r == 0,
                0 < st,
                (i - 1) * st < src_len,
                i * st >= src_len;
    } else {
        assert(i == q + 1) by (nonlinear_arith)
            requires
                src_len == st * q + r,
                0 < r,
                r < st,
                0 < st,
                (i - 1) * st < src_len,
                i * st >= src_len;
    }
}

/// When every destination slot was filled before `src` ran out, the filled
/// count is the destination length.
proof fn lemma_count_capped(i: nat, st: nat, src_len: nat, dst_len: nat)
    requires
        0 < st,
        0 < src_len,
        0 < dst_len,
        st == stride_for(src_len, dst_len),
        i == dst_len,
        (i - 1) * st < src_len,
    ensures
        i == down_count(src_len, dst_len),
{
    lemma_fundamental_div_mod(src_len as int, st as int);
    let q = src_len / st;
    let r = src_len % st;
    let avail: nat = q + if r == 0 {
        0 as nat
    } else {
        1 as nat
    };
    if avail < i {
        if r == 0 {
            assert(false) by (nonlinear_arith)
                requires
                    src_len == st * q + r,
                    r == 0,
                    0 < st,
                    (i - 1) * st < src_len,
                    q + 1 <= i;
        } else {
            assert(false) by (nonlinear_arith)
                requires
                    src_len == st * q + r,
                    0 < r,
                    r < st,
                    0 < st,
                    (i - 1) * st < src_len,
                    q + 2 <= i;
        }
    }
}


/// How many destination slots an interpolation fills: `dst` is full or the
/// range bounded by the last source sample is exhausted, whichever comes
/// first. Source sample `q` sits at position `q * factor`; nothing is
/// synthesized past the last source sample.
pub open spec fn interp_count(src_len: nat, dst_len: nat, factor: usize) -> nat {
    if src_len == 0 {
        0
    } else {
        let limit = (src_len - 1) * factor + 1;
        if dst_len <= limit {
            dst_len
        } else {
            limit as nat
        }
    }
}

/// The sample at interpolation position `i`: exactly a source sample on
/// multiples of `factor`, the linear interpolation between the two
/// surrounding source samples otherwise.
pub open spec fn interp_at(src: Seq<Sample>, i: int, factor: usize) -> Sample {
    let q = i / (factor as int);
    let r = i % (factor as int);
    if r == 0 {
        src[q]
    } else {
        lerp_of(src[q], src[q + 1], r as usize, factor)
    }
}

/// What interpolation leaves in `dst`: interpolated positions over the
/// filled prefix, the old contents beyond it.
pub open spec fn interp_seq(src: Seq<Sample>, dst: Seq<Sample>, factor: usize) -> Seq<Sample> {
    Seq::new(
        dst.len(),
        |i: int|
            if i < interp_count(src.len(), dst.len(), factor) {
                interp_at(src, i, factor)
            } else {
                dst[i]
            },
    )
}

/// Produces `len(dst)` samples by inserting `factor - 1` linearly
/// interpolated samples between each consecutive pair of source samples,
/// consuming `src` in order and stopping early once the last source sample
/// is reached; slots beyond the filled prefix are untouched. A zero factor
/// is rejected before anything is written; an empty `dst` is a no-op.
pub fn interpolate(src: &Vec<Sample>, dst: &mut Vec<Sample>, factor: usize) -> (res: Result<
    (),
    ResampleError,
>)
    ensures
        (res is Ok) <==> factor != 0,
        (res is Ok) ==> final(dst)@ == interp_seq(src@, old(dst)@, factor),
        (res is Err) ==> final(dst)@ == old(dst)@ && res == Err::<(), ResampleError>(
            ResampleError::ZeroFactor,
        ),
{
    if factor == 0 {
        return Err(ResampleError::ZeroFactor);
    }
    let ghost d0 = dst@;
    if src.len() == 0 {
        proof {
            assert(dst@ =~= interp_seq(src@, d0, factor));
        }
        return Ok(());
    }
    let ghost limit = (src@.len() - 1) * factor + 1;
    let mut i: usize = 0;
    let mut q: usize = 0;
    let mut r: usize = 0;
    let mut more = true;
    while i < dst.len() && more
        invariant
            0 < factor,
            0 < src@.len(),
            limit == (src@.len() - 1) * factor + 1,
            dst@.len() == d0.len(),
            i <= d0.len(),
            i <= limit,
            q <= src@.len(),
            r < factor,
            i == q * factor + r,
            more == (if r == 0 {
                q < src@.len()
            } else {
                q + 1 < src@.len()
            }),
            more ==> i < limit,
            !more ==> i == limit,
            forall|j: int| 0 <= j < i ==> dst@[j] == interp_at(src@, j, factor),
            forall|j: int| i <= j < d0.len() ==> dst@[j] == d0[j],
        decreases d0.len() - i,
    {
        proof {
            lemma_fundamental_div_mod_converse(i as int, factor as int, q as int, r as int);
            if r == 0 {
                assert(i < limit) by (nonlinear_arith)
                    requires
                        limit == (src@.len() - 1) * factor + 1,
                        i == q * factor + r,
                        r == 0,
                        q < src@.len(),
                        0 < factor;
            } else {
                assert(i < limit) by (nonlinear_arith)
                    requires
                        limit == (src@.len() - 1) * factor + 1,
                        i == q * factor + r,
                        0 < r < factor,
                        q + 1 < src@.len(),
                        0 < factor;
            }
        }
        let v = if r == 0 {
            src[q]
        } else {
            lerp_one(src[q], src[q + 1], r, factor)
        };
        dst.set(i, v);
        i += 1;
        r += 1;
        if r == factor {
            r = 0;
            q += 1;
            proof {
                assert(i == q * factor) by (nonlinear_arith)
                    requires
                        i == (q - 1) * factor + factor;
            }
        }
        more = if r == 0 {
            q < src.len()
        } else {
            q < src.len() - 1
        };
        proof {
            if more {
                if r == 0 {
                    assert(i < limit) by (nonlinear_arith)
                        requires
                            limit == (src@.len() - 1) * factor + 1,
                            i == q * factor + r,
                            r == 0,
                            q < src@.len(),
                            0 < factor;
                } else {
                    assert(i < limit) by (nonlinear_arith)
                        requires
                            limit == (src@.len() - 1) * factor + 1,
                            i == q * factor + r,
                            0 < r < factor,
                            q + 1 < src@.len(),
                            0 < factor;
                }
            } else {
                if r == 0 {
                    assert(i >= limit) by (nonlinear_arith)
                        requires
                            limit == (src@.len() - 1) * factor + 1,
                            i == q * factor + r,
                            r == 0,
                            q >= src@.len(),
                            0 < factor;
                } else {
                    assert(i >= limit) by (nonlinear_arith)
                        requires
                            limit == (src@.len() - 1) * factor + 1,
                            i == q * factor + r,
                            0 < r < factor,
                            q + 1 >= src@.len(),
                            0 < factor;
                }
            }
        }
    }
    proof {
        assert(dst@ =~= interp_seq(src@, d0, factor));
    }
    Ok(())
}

/// Interpolating with factor 1 into a destination of the source's own length
/// reproduces the source exactly.
pub proof fn lemma_interpolate_identity(src: Seq<Sample>, dst: Seq<Sample>)
    requires
        dst.len() == src.len(),
    ensures
        interp_seq(src, dst, 1) == src,
{
    assert forall|i: int| 0 <= i < src.len() implies interp_seq(src, dst, 1)[i] == src[i] by {
        lemma_fundamental_div_mod_converse(i, 1, i, 0);
    }
    assert(interp_seq(src, dst, 1) =~= src);
}

/// The two decimation strategies agree on every input: both leave
/// `downsample_seq(src, dst)` in the destination, so equal sources and equal
/// destination shapes give byte-for-byte equal outputs.
pub proof fn lemma_downsample_agree(src: Seq<Sample>, dst1: Seq<Sample>, dst2: Seq<Sample>)
    requires
        dst1 == dst2,
    ensures
        downsample_seq(src, dst1) == downsample_seq(src, dst2),
{
}

} // verus!
