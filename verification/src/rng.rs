use vstd::prelude::*;

verus! {

/// Relies on `rand::random_range` over `lo..=hi`: the sample is drawn from
/// that range, so it lies between the bounds; the range must not be empty.
#[verifier::external_body]
pub fn rand_range_u64(lo: u64, hi: u64) -> (r: u64)
    requires
        lo <= hi,
    ensures
        lo <= r <= hi,
{
    rand::random_range(lo..=hi)
}

/// Relies on `rand::random_range` over `0..n`: the sample is drawn from that
/// range, so it is below `n`; the range must not be empty.
#[verifier::external_body]
pub fn rand_below_u32(n: u32) -> (r: u32)
    requires
        n > 0,
    ensures
        r < n,
{
    rand::random_range(0..n)
}

/// Relies on `rand::random_range` over `0..n`: the sample is drawn from that
/// range, so it is below `n`; the range must not be empty.
#[verifier::external_body]
pub fn rand_below_usize(n: usize) -> (r: usize)
    requires
        n > 0,
    ensures
        r < n,
{
    rand::random_range(0..n)
}

} // verus!
