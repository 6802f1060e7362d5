//! The source of random bytes.

use vstd::prelude::*;

verus! {

/// A byte from `rand::random`, which draws it from the generator that the
/// `rand` crate keeps for the current thread and seeds from the operating
/// system.
///
/// Nothing here is proved, and nothing is claimed of the byte beyond its
/// type, so whatever is proved of a step that draws one holds for every
/// byte. The call is taken to return: it panics only where the operating
/// system gives the thread's generator no seed.
#[verifier::external_body]
pub(crate) fn random_byte() -> (byte: u8) {
    rand::random::<u8>()
}

} // verus!
