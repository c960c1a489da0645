//! Numbers drawn at random.

use vstd::prelude::*;

verus! {

/// `rand::random` draws a number at random. Nothing is claimed of it.
#[verifier::external_body]
fn random_bits() -> (r: u64)
{
    rand::random::<u64>()
}

/// Whether `bits` may have been drawn at random: whether [`random_bits`] gives it.
pub closed spec fn drawn(bits: u64) -> bool {
    call_ensures(random_bits, (), bits)
}

/// A number drawn at random.
pub(crate) fn draw() -> (r: u64)
    ensures
        drawn(r),
{
    random_bits()
}

} // verus!
