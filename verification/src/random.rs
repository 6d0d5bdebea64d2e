use vstd::prelude::*;

verus! {

/// The error type of the `getrandom` crate, carried through as it is.
#[verifier::external_type_specification]
#[verifier::external_body]
pub struct ExRandomSourceError(getrandom::Error);

/// Asks `getrandom::getrandom` to fill a buffer of one byte from the system's
/// random source and hands back that byte, or the crate's error where the
/// source failed. Nothing is claimed of the byte: every value can come back,
/// and two calls need not agree.
#[verifier::external_body]
pub(crate) fn random_byte() -> (r: Result<u8, getrandom::Error>) {
    let mut buf = [0u8; 1];
    match getrandom::getrandom(&mut buf) {
        Ok(()) => Ok(buf[0]),
        Err(e) => Err(e),
    }
}

} // verus!
