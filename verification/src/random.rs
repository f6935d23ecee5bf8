//! The source of random bytes.
use rand::Rng;
use vstd::prelude::*;

verus! {

/// Draws one byte from the thread-local generator of the `rand` crate, by
/// `rand::thread_rng().gen::<u8>()`.
///
/// Not verified. Nothing is claimed of the byte: whatever the caller proves
/// holds of every value that could come back. The generator seeds itself
/// from the operating system on its first use in a thread and panics if
/// the system has no entropy to give.
#[verifier::external_body]
pub(crate) fn random_byte() -> (byte: u8) {
    rand::thread_rng().gen::<u8>()
}

} // verus!
