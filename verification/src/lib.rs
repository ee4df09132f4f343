use vstd::prelude::*;

pub mod errors;
pub mod filter;
pub mod programs;
pub mod refragment;
pub mod sample;
pub mod signal;
pub mod stream;
pub mod transform;

verus! {

/// Checked addition of two counters; the caller guarantees the sum fits.
pub fn add(left: u64, right: u64) -> (r: u64)
    requires
        left + right <= u64::MAX,
    ensures
        r == left + right,
{
    left + right
}

} // verus!
