use vstd::prelude::*;
use dryoc::dryocbox::{DryocBox, StackKeyPair, VecBox};
use dryoc::types::ByteArray;
use crate::bytes::optional_bytes;

verus! {

/// Bytes that a sealed box adds to a message: the sender's one-time public
/// key and the authentication tag.
pub const SEALED_BOX_OVERHEAD: usize = 48;

/// The public key that belongs to a secret key: the one that
/// `KeyPair::generate` derives from the secret key that it draws.
pub uninterp spec fn box_public_key(secret_key: Seq<u8>) -> Seq<u8>;

/// What `DryocBox::open_to_vec` recovers from a sealed box with the
/// recipient's key pair; nothing when the box is not for that pair or was
/// altered.
pub uninterp spec fn sealed_box_opened(
    sealed: Seq<u8>,
    public_key: Seq<u8>,
    secret_key: Seq<u8>,
) -> Option<Seq<u8>>;

/// Whether `DryocBox::seal_to_vecbox` refuses a recipient's public key: the
/// crate documents that it does so for the low-order keys, to which every
/// shared secret is zero.
pub uninterp spec fn sealed_box_refuses(public_key: Seq<u8>) -> bool;

/// `KeyPair::generate`: a fresh key pair, public key first. Believed: the
/// public key is derived from the secret key alone, so that it is the one
/// that belongs to the secret key; nothing is claimed of the secret key.
#[verifier::external_body]
pub(crate) fn generate_key_pair() -> (pair: ([u8; 32], [u8; 32]))
    ensures
        pair.0@ == box_public_key(pair.1@),
{
    let pair = StackKeyPair::generate();
    (*pair.public_key.as_array(), *pair.secret_key.as_array())
}

/// `DryocBox::seal_to_vecbox`, the box given as one-time public key, tag and
/// ciphertext. Believed: a message whose box has a length is refused exactly
/// when the recipient's key is one that the crate refuses; a box that comes
/// out is 48 bytes longer than the message, and whoever holds a secret key to
/// which the recipient's public key belongs opens it to the message. Nothing
/// says which keys are refused, nor that a generated key is not.
#[verifier::external_body]
pub(crate) fn sealed_box_seal(message: &[u8], public_key: &[u8; 32]) -> (sealed: Option<
    Vec<u8>,
>)
    ensures
        message@.len() + SEALED_BOX_OVERHEAD <= usize::MAX ==> (sealed.is_none()
            <==> sealed_box_refuses(public_key@)),
        sealed.is_some() ==> sealed.unwrap()@.len() == message@.len() + SEALED_BOX_OVERHEAD,
        sealed.is_some() ==> forall|secret_key: Seq<u8>| #[trigger]
            box_public_key(secret_key) == public_key@ ==> sealed_box_opened(
                sealed.unwrap()@,
                public_key@,
                secret_key,
            ) == Some(message@),
{
    DryocBox::seal_to_vecbox(message, public_key).ok().map(|sealed| sealed.to_vec())
}

/// `DryocBox::open_to_vec` on a box given as one-time public key, tag and
/// ciphertext. Believed: a box shorter than 48 bytes is refused, and a
/// message that comes out is 48 bytes shorter than the box.
#[verifier::external_body]
pub(crate) fn sealed_box_open(sealed: &[u8], public_key: &[u8; 32], secret_key: &[u8; 32]) -> (message:
    Option<Vec<u8>>)
    ensures
        optional_bytes(message) == sealed_box_opened(sealed@, public_key@, secret_key@),
        sealed@.len() < SEALED_BOX_OVERHEAD ==> message.is_none(),
        message.is_some() ==> message.unwrap()@.len() + SEALED_BOX_OVERHEAD == sealed@.len(),
{
    let pair = StackKeyPair::from_slices(public_key, secret_key).ok()?;
    let parsed = VecBox::from_sealed_bytes(sealed).ok()?;
    parsed.open_to_vec(&pair).ok()
}

} // verus!
