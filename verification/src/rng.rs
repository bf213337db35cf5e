use vstd::prelude::*;

verus! {

/// Relies on rand::random: draws a value from the process random generator.
/// The result is random, so nothing is promised of it.
#[verifier::external_body]
pub(crate) fn draw_random_u64() -> u64 {
    rand::random::<u64>()
}

} // verus!
