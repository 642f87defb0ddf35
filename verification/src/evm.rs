//! Error-vector-magnitude checks: how far each received sample strays from
//! its reference, compared against a relative budget.

use vstd::prelude::*;

use crate::sample::{
    Sample, sub_of, sub_one, norm_sqr_of, norm_sqr_one, sqrt_of, sqrt_one, real_mul_of,
    real_mul_one,
};
use crate::vecops::overlap;

verus! {

/// The error-vector magnitude of one received sample against its reference:
/// the IEEE-754 magnitude of their difference, as a bit pattern.
pub open spec fn error_magnitude_of(actual: Sample, reference: Sample) -> u32 {
    sqrt_of(norm_sqr_of(sub_of(actual, reference)))
}

/// Per-element error magnitude: the magnitude of `actual - reference`,
/// returned as an IEEE-754 bit pattern.
pub fn error_magnitude(actual: Sample, reference: Sample) -> (r: u32)
    ensures
        r == error_magnitude_of(actual, reference),
{
    sqrt_one(norm_sqr_one(sub_one(actual, reference)))
}

/// Whether one element breaches its error budget: its error magnitude
/// exceeds the reference's own magnitude scaled by the relative limit. The
/// magnitudes are nonnegative IEEE-754 values, so comparing their bit
/// patterns as unsigned integers compares the values themselves.
pub open spec fn breach(actual: Sample, reference: Sample, limit: u32) -> bool {
    error_magnitude_of(actual, reference) > real_mul_of(sqrt_of(norm_sqr_of(reference)), limit)
}

/// Where an error-vector check failed.
#[derive(Clone, Copy, PartialEq, Eq, Structural, Debug)]
pub struct EvmError {
    /// The first element whose error magnitude exceeded its budget.
    pub index: usize,
}

/// Checks every element of `actual` against `reference` over the
/// overlapping prefix: each error magnitude must stay within the reference
/// magnitude scaled by the relative `limit` (an IEEE-754 bit pattern).
/// Reports the first breaching element; mismatched lengths are reconciled by
/// the overlap policy, not an error.
pub fn evm_check(actual: &Vec<Sample>, reference: &Vec<Sample>, limit: u32) -> (res: Result<
    (),
    EvmError,
>)
    ensures
        (res is Ok) <==> (forall|j: int|
            0 <= j < overlap(actual@, reference@) ==> !breach(actual@[j], reference@[j], limit)),
        res matches Err(e) ==> e.index < overlap(actual@, reference@) && breach(
            actual@[e.index as int],
            reference@[e.index as int],
            limit,
        ) && (forall|j: int| 0 <= j < e.index ==> !breach(actual@[j], reference@[j], limit)),
{
    let n = if actual.len() <= reference.len() {
        actual.len()
    } else {
        reference.len()
    };
    let mut i: usize = 0;
    while i < n
        invariant
            n == overlap(actual@, reference@),
            i <= n,
            forall|j: int| 0 <= j < i ==> !breach(actual@[j], reference@[j], limit),
        decreases n - i,
    {
        let e = error_magnitude(actual[i], reference[i]);
        let lim = real_mul_one(sqrt_one(norm_sqr_one(reference[i])), limit);
        if e > lim {
            return Err(EvmError { index: i });
        }
        i += 1;
    }
    Ok(())
}

} // verus!
