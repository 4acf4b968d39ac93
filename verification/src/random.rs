use vstd::prelude::*;
use rand::Rng;
use rand::rngs::{StdRng, ThreadRng};

verus! {

#[verifier::external_type_specification]
#[verifier::external_body]
pub struct ExStdRng(StdRng);

#[verifier::external_type_specification]
#[verifier::external_body]
pub struct ExThreadRng(ThreadRng);

/// Calls `rand::Rng::gen_range(lo..hi)` on a seeded generator. The contract
/// claims only what every draw satisfies: the number lies in `lo..hi`
/// (which one comes is chance). The range must not be empty: an empty range
/// panics.
#[verifier::external_body]
pub(crate) fn std_gen_range(rng: &mut StdRng, lo: u32, hi: u32) -> (r: u32)
    requires
        lo < hi,
    ensures
        lo <= r < hi,
{
    rng.gen_range(lo..hi)
}

/// Calls `rand::Rng::gen_range(lo..hi)` on the thread-local generator. The
/// contract claims only that the number lies in `lo..hi`; the range must not
/// be empty.
#[verifier::external_body]
pub(crate) fn thread_gen_range(rng: &mut ThreadRng, lo: u32, hi: u32) -> (r: u32)
    requires
        lo < hi,
    ensures
        lo <= r < hi,
{
    rng.gen_range(lo..hi)
}

} // verus!
