use vstd::prelude::*;

verus! {

/// Draws one byte from `rand::random`, which samples the thread-local
/// generator uniformly over all 256 values.
///
/// Nothing is claimed of the byte: any value may come back, and two calls
/// may give different ones.
#[verifier::external_body]
pub(crate) fn random_byte() -> (r: u8) {
    rand::random::<u8>()
}

} // verus!
