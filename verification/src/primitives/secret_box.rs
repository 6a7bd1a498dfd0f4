use vstd::prelude::*;
use dryoc::dryocsecretbox::{DryocSecretBox, VecBox};
use crate::bytes::optional_bytes;

verus! {

/// Bytes that the authentication tag adds in front of a ciphertext.
pub const SECRET_BOX_TAG_LENGTH: usize = 16;

/// What `DryocSecretBox::encrypt_to_vecbox` makes of a message under a nonce
/// and a key, as tag followed by ciphertext.
pub uninterp spec fn secret_box_sealed(message: Seq<u8>, nonce: Seq<u8>, key: Seq<u8>) -> Seq<u8>;

/// What `DryocSecretBox::decrypt_to_vec` recovers from tag and ciphertext under
/// a nonce and a key; nothing when authentication fails.
pub uninterp spec fn secret_box_opened(sealed: Seq<u8>, nonce: Seq<u8>, key: Seq<u8>) -> Option<
    Seq<u8>,
>;

/// `DryocSecretBox::encrypt_to_vecbox`, the box given as tag followed by
/// ciphertext. Believed: it fails only on a message longer than the crate's
/// limit; the box is 16 bytes longer than the message, and opening it with
/// the same nonce and key gives the message back.
#[verifier::external_body]
pub(crate) fn secret_box_seal(message: &[u8], nonce: &[u8; 24], key: &[u8; 32]) -> (sealed:
    Option<Vec<u8>>)
    ensures
        message@.len() + SECRET_BOX_TAG_LENGTH <= usize::MAX ==> sealed.is_some(),
        sealed.is_some() ==> sealed.unwrap()@ == secret_box_sealed(message@, nonce@, key@),
        sealed.is_some() ==> sealed.unwrap()@.len() == message@.len() + SECRET_BOX_TAG_LENGTH,
        sealed.is_some() ==> secret_box_opened(sealed.unwrap()@, nonce@, key@) == Some(message@),
{
    DryocSecretBox::encrypt_to_vecbox(message, nonce, key).ok().map(|sealed| sealed.to_vec())
}

/// `DryocSecretBox::decrypt_to_vec` on a box given as tag followed by
/// ciphertext. Believed: a box shorter than its tag is refused, and a message
/// that comes out is 16 bytes shorter than the box.
#[verifier::external_body]
pub(crate) fn secret_box_open(sealed: &[u8], nonce: &[u8; 24], key: &[u8; 32]) -> (message:
    Option<Vec<u8>>)
    ensures
        optional_bytes(message) == secret_box_opened(sealed@, nonce@, key@),
        sealed@.len() < SECRET_BOX_TAG_LENGTH ==> message.is_none(),
        message.is_some() ==> message.unwrap()@.len() + SECRET_BOX_TAG_LENGTH == sealed@.len(),
{
    let parsed = VecBox::from_bytes(sealed).ok()?;
    parsed.decrypt_to_vec(nonce, key).ok()
}

} // verus!
