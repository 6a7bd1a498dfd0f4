use vstd::prelude::*;
use dryoc::types::NewByteArray;

verus! {

/// `dryoc::rng::randombytes_buf`: that many bytes from the operating system's
/// generator. Nothing is claimed of their values. The crate panics when the
/// operating system has no random bytes to give.
#[verifier::external_body]
pub(crate) fn random_bytes(length: usize) -> (bytes: Vec<u8>)
    ensures
        bytes@.len() == length,
{
    dryoc::rng::randombytes_buf(length)
}

/// `NewByteArray::generate` for a 32-byte array: a fresh random key. Nothing
/// is claimed of its value.
#[verifier::external_body]
pub(crate) fn random_key() -> [u8; 32] {
    <[u8; 32] as NewByteArray<32>>::generate()
}

/// `NewByteArray::generate` for a 24-byte array: a fresh random nonce.
/// Nothing is claimed of its value.
#[verifier::external_body]
pub(crate) fn random_nonce() -> [u8; 24] {
    <[u8; 24] as NewByteArray<24>>::generate()
}

} // verus!
