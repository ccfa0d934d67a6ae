use rand::Rng;
use vstd::prelude::*;

verus! {

/// `rand::Rng::gen_range` on the thread's generator, over a closed range:
/// some number from `low` to `high`, both included. Which one is left
/// open, and two calls may give two numbers.
#[verifier::external_body]
pub(crate) fn random_in_range(low: u32, high: u32) -> (value: u32)
    requires
        low <= high,
    ensures
        low <= value <= high,
{
    rand::thread_rng().gen_range(low..=high)
}

} // verus!
