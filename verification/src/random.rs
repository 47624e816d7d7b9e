//! Numbers and bytes from the operating system's generator.

use vstd::prelude::*;

verus! {

/// The error of the `getrandom` crate: the system has no randomness to give.
#[verifier::external_type_specification]
#[verifier::external_body]
pub struct ExError(getrandom::Error);

/// `getrandom::u32` draws a number, or reports that the system has none to
/// give. Nothing is claimed of the number.
pub assume_specification[ getrandom::u32 ]() -> (r: Result<u32, getrandom::Error>);

/// `getrandom::fill` overwrites the bytes of a buffer, or reports that the
/// system has none to give. An empty buffer is filled without asking the system,
/// so that always succeeds. Nothing is claimed of the bytes, but that there are as
/// many as before.
pub assume_specification[ getrandom::fill ](dest: &mut [u8]) -> (r: Result<(), getrandom::Error>)
    ensures
        final(dest)@.len() == old(dest)@.len(),
        old(dest)@.len() == 0 ==> r is Ok,
;

/// A random number, unless the system has none to give.
pub(crate) fn draw_u32() -> (r: Option<u32>) {
    match getrandom::u32() {
        Ok(v) => Some(v),
        Err(_) => None,
    }
}

/// Random bytes, unless the system has none to give. No bytes can always be had.
pub(crate) fn draw_bytes<const N: usize>() -> (r: Option<[u8; N]>)
    ensures
        N == 0 ==> r is Some,
{
    let mut bytes: [u8; N] = [0u8; N];
    match getrandom::fill(&mut bytes) {
        Ok(_) => Some(bytes),
        Err(_) => None,
    }
}

} // verus!
