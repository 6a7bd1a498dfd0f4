//! Authenticated symmetric encryption of byte strings, with a fresh nonce for
//! every message.

use vstd::prelude::*;
use crate::error::VaultError;
use crate::primitives::random::random_nonce;
use crate::primitives::secret_box::{
    secret_box_open, secret_box_opened, secret_box_seal, secret_box_sealed,
    SECRET_BOX_TAG_LENGTH,
};

verus! {

/// A key of the symmetric cipher.
pub type SymmetricKey = [u8; 32];

/// The key that `create_random` encrypts under: 32 zero bytes.
pub open spec fn zero_key() -> Seq<u8> {
    Seq::new(32, |i: int| 0u8)
}

/// The message that `create_random` encrypts: the one letter `a`.
pub open spec fn sample_message() -> Seq<u8> {
    seq![97u8]
}

/// Represents a symmetric encrypted data and the associated nonce.
#[derive(PartialEq, Debug)]
pub struct SymEncryptedData {
    /// Authentication tag followed by the ciphertext.
    pub secret_box: Vec<u8>,
    /// The nonce that the message was encrypted under.
    pub nonce: [u8; 24],
}

/// What a `SymEncryptedData` holds.
pub struct SymEncryptedDataView {
    pub secret_box: Seq<u8>,
    pub nonce: Seq<u8>,
}

impl SymEncryptedDataView {
    /// What decryption under `key` gives: the message, or nothing when the
    /// data does not authenticate under that key.
    pub open spec fn opened(self, key: Seq<u8>) -> Option<Seq<u8>> {
        secret_box_opened(self.secret_box, self.nonce, key)
    }
}

impl View for SymEncryptedData {
    type V = SymEncryptedDataView;

    open spec fn view(&self) -> SymEncryptedDataView {
        SymEncryptedDataView { secret_box: self.secret_box@, nonce: self.nonce@ }
    }
}

impl Clone for SymEncryptedData {
    fn clone(&self) -> (copy: Self)
        ensures
            copy@ == self@,
    {
        let copy = SymEncryptedData { secret_box: self.secret_box.clone(), nonce: self.nonce };
        assert(copy.secret_box@ =~= self.secret_box@);
        copy
    }
}

impl SymEncryptedData {
    /// Encrypts a message under a fresh random nonce. The result decrypts
    /// under the same key to the message.
    pub fn encrypt(message: &[u8], key: &SymmetricKey) -> (data: Self)
        requires
            message@.len() + SECRET_BOX_TAG_LENGTH <= usize::MAX,
        ensures
            data@.secret_box == secret_box_sealed(message@, data@.nonce, key@),
            data@.secret_box.len() == message@.len() + SECRET_BOX_TAG_LENGTH,
            data@.opened(key@) == Some(message@),
    {
        let nonce = random_nonce();
        let sealed = secret_box_seal(message, &nonce, key);
        SymEncryptedData { secret_box: sealed.unwrap(), nonce }
    }

    /// Decrypts the data. Fails with `CryptographyError` exactly when the
    /// data does not authenticate under the key.
    pub fn decrypt(&self, key: &SymmetricKey) -> (result: Result<Vec<u8>, VaultError>)
        ensures
            match self@.opened(key@) {
                Some(message) => result.is_ok() && result.unwrap()@ == message,
                None => result == Err::<Vec<u8>, VaultError>(VaultError::CryptographyError),
            },
    {
        match secret_box_open(self.secret_box.as_slice(), &self.nonce, key) {
            Some(message) => Ok(message),
            None => Err(VaultError::CryptographyError),
        }
    }

    /// Creates a mock value: the letter `a` encrypted under the all-zero key.
    /// Useful for testing.
    pub fn create_random() -> (data: Self)
        ensures
            data@.opened(zero_key()) == Some(sample_message()),
    {
        let key: [u8; 32] = [0u8; 32];
        let mut message: Vec<u8> = Vec::new();
        message.push(97u8);
        assert(key@ =~= zero_key());
        assert(message@ =~= sample_message());
        Self::encrypt(message.as_slice(), &key)
    }
}

} // verus!
