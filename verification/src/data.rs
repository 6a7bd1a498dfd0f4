//! The records that travel between client and server, and that the server
//! stores.

use vstd::prelude::*;
use vstd::utf8::{decode_utf8, encode_utf8, encode_utf8_decode_utf8, encode_utf8_valid_utf8, valid_utf8};
use crate::error::VaultError;
use crate::primitives::sealed_box::{
    box_public_key, generate_key_pair, sealed_box_opened, sealed_box_refuses, sealed_box_seal,
    SEALED_BOX_OVERHEAD,
};
use crate::primitives::secret_box::SECRET_BOX_TAG_LENGTH;
use crate::primitives::text::string_from_utf8;
use crate::symmetric_encryption_helper::{
    sample_message, zero_key, SymEncryptedData, SymEncryptedDataView, SymmetricKey,
};

verus! {

/// Identifies a document on the server: 32 random bytes.
pub type DocumentID = Vec<u8>;

pub const DOCUMENT_ID_LENGTH_BYTES: usize = 32;

/// Proves that a session has unlocked an organization: 32 random bytes.
pub type Token = Vec<u8>;

pub const TOKEN_LENGTH_BYTES: usize = 32;

/// A session token sealed to the organization's public key.
pub type EncryptedToken = Vec<u8>;

/// A document's symmetric key sealed to an organization's public key.
pub type EncryptedDocumentKey = Vec<u8>;

/// The public half of an organization's key pair.
pub type PublicKey = [u8; 32];

/// The secret half of an organization's key pair.
pub type SecretKey = [u8; 32];

/// An organization's key pair.
#[derive(PartialEq, Debug)]
pub struct KeyPair {
    pub public_key: PublicKey,
    pub secret_key: SecretKey,
}

impl KeyPair {
    /// The public key is the one that belongs to the secret key.
    pub open spec fn matches(&self) -> bool {
        self.public_key@ == box_public_key(self.secret_key@)
    }

    /// A fresh random key pair.
    pub fn generate() -> (pair: Self)
        ensures
            pair.matches(),
    {
        let (public_key, secret_key) = generate_key_pair();
        KeyPair { public_key, secret_key }
    }
}

impl Clone for KeyPair {
    fn clone(&self) -> (copy: Self)
        ensures
            copy == *self,
    {
        KeyPair { public_key: self.public_key, secret_key: self.secret_key }
    }
}

/// The cost parameters of the password hash of one organization.
#[derive(PartialEq, Eq, Debug, Clone, Copy)]
pub struct ArgonConfig {
    /// Memory that one hash uses, in bytes.
    pub memlimit: usize,
    /// Number of passes over that memory.
    pub opslimit: u64,
}

pub const ARGON_MEMLIMIT_INTERACTIVE: usize = 67108864;

pub const ARGON_OPSLIMIT_INTERACTIVE: u64 = 2;

impl ArgonConfig {
    /// The parameters for interactive use: 64 MiB and 2 passes.
    pub fn interactive() -> (config: Self)
        ensures
            config.memlimit == ARGON_MEMLIMIT_INTERACTIVE,
            config.opslimit == ARGON_OPSLIMIT_INTERACTIVE,
    {
        ArgonConfig { memlimit: ARGON_MEMLIMIT_INTERACTIVE, opslimit: ARGON_OPSLIMIT_INTERACTIVE }
    }

    /// These parameters with another memory limit.
    pub fn with_memlimit(self, memlimit: usize) -> (config: Self)
        ensures
            config.memlimit == memlimit,
            config.opslimit == self.opslimit,
    {
        ArgonConfig { memlimit, opslimit: self.opslimit }
    }

    /// These parameters with another number of passes.
    pub fn with_opslimit(self, opslimit: u64) -> (config: Self)
        ensures
            config.memlimit == self.memlimit,
            config.opslimit == opslimit,
    {
        ArgonConfig { memlimit: self.memlimit, opslimit }
    }
}

impl Default for ArgonConfig {
    fn default() -> (config: Self)
        ensures
            config.memlimit == ARGON_MEMLIMIT_INTERACTIVE,
            config.opslimit == ARGON_OPSLIMIT_INTERACTIVE,
    {
        ArgonConfig::interactive()
    }
}

/// A document in the clear.
#[derive(PartialEq, Debug)]
pub struct Document {
    pub name: String,
    pub content: String,
}

/// What a `Document` holds.
pub struct DocumentView {
    pub name: Seq<char>,
    pub content: Seq<char>,
}

impl View for Document {
    type V = DocumentView;

    open spec fn view(&self) -> DocumentView {
        DocumentView { name: self.name@, content: self.content@ }
    }
}

impl Clone for Document {
    fn clone(&self) -> (copy: Self)
        ensures
            copy@ == self@,
    {
        Document { name: self.name.clone(), content: self.content.clone() }
    }
}

/// The text that encrypted data holds under a key: its message read as
/// UTF-8. Nothing when the data does not authenticate under the key or the
/// message is no UTF-8.
pub open spec fn decrypted_text(data: SymEncryptedDataView, key: Seq<u8>) -> Option<Seq<char>> {
    match data.opened(key) {
        Some(bytes) => if valid_utf8(bytes) {
            Some(decode_utf8(bytes))
        } else {
            None
        },
        None => None,
    }
}

/// Decrypts a text. Fails with `CryptographyError` exactly when the data has
/// no text under the key.
pub fn decrypt_text(data: &SymEncryptedData, key: &SymmetricKey) -> (result: Result<
    String,
    VaultError,
>)
    ensures
        match decrypted_text(data@, key@) {
            Some(text) => result.is_ok() && result.unwrap()@ == text,
            None => result == Err::<String, VaultError>(VaultError::CryptographyError),
        },
{
    let bytes = match data.decrypt(key) {
        Ok(bytes) => bytes,
        Err(_) => {
            return Err(VaultError::CryptographyError);
        },
    };
    match string_from_utf8(bytes) {
        Some(text) => Ok(text),
        None => Err(VaultError::CryptographyError),
    }
}

/// The length of a text in bytes leaves room for the authentication tag.
pub open spec fn fits_in_a_box(text: Seq<char>) -> bool {
    encode_utf8(text).len() + SECRET_BOX_TAG_LENGTH <= usize::MAX
}

impl DocumentView {
    /// Both texts leave room for the authentication tag.
    pub open spec fn fits_in_boxes(self) -> bool {
        fits_in_a_box(self.name) && fits_in_a_box(self.content)
    }
}

impl Document {
    /// Encrypts name and content, each under a nonce of its own. The result
    /// decrypts under the same key to this document.
    pub fn encrypt(&self, key: &SymmetricKey) -> (encrypted: EncryptedDocument)
        requires
            self@.fits_in_boxes(),
        ensures
            encrypted@.decrypted(key@) == Some(self@),
            encrypted@.name.opened(key@) == Some(encode_utf8(self@.name)),
            encrypted@.content.opened(key@) == Some(encode_utf8(self@.content)),
    {
        let encrypted = EncryptedDocument {
            name: SymEncryptedData::encrypt(self.name.as_str().as_bytes(), key),
            content: SymEncryptedData::encrypt(self.content.as_str().as_bytes(), key),
        };
        proof {
            encode_utf8_valid_utf8(self@.name);
            encode_utf8_decode_utf8(self@.name);
            encode_utf8_valid_utf8(self@.content);
            encode_utf8_decode_utf8(self@.content);
        }
        encrypted
    }
}

/// A document as the server stores it.
#[derive(PartialEq, Debug)]
pub struct EncryptedDocument {
    pub name: SymEncryptedData,
    pub content: SymEncryptedData,
}

/// What an `EncryptedDocument` holds.
pub struct EncryptedDocumentView {
    pub name: SymEncryptedDataView,
    pub content: SymEncryptedDataView,
}

impl EncryptedDocumentView {
    /// The document that decryption under `key` gives. Nothing when name or
    /// content has no text under the key.
    pub open spec fn decrypted(self, key: Seq<u8>) -> Option<DocumentView> {
        match (decrypted_text(self.name, key), decrypted_text(self.content, key)) {
            (Some(name), Some(content)) => Some(DocumentView { name, content }),
            _ => None,
        }
    }
}

impl View for EncryptedDocument {
    type V = EncryptedDocumentView;

    open spec fn view(&self) -> EncryptedDocumentView {
        EncryptedDocumentView { name: self.name@, content: self.content@ }
    }
}

impl Clone for EncryptedDocument {
    fn clone(&self) -> (copy: Self)
        ensures
            copy@ == self@,
    {
        EncryptedDocument { name: self.name.clone(), content: self.content.clone() }
    }
}

impl EncryptedDocument {
    /// Decrypts name and content. Fails with `CryptographyError` exactly when
    /// one of them has no text under the key.
    pub fn decrypt(&self, key: &SymmetricKey) -> (result: Result<Document, VaultError>)
        ensures
            match self@.decrypted(key@) {
                Some(document) => result.is_ok() && result.unwrap()@ == document,
                None => result == Err::<Document, VaultError>(VaultError::CryptographyError),
            },
    {
        let name = match decrypt_text(&self.name, key) {
            Ok(name) => name,
            Err(_) => {
                return Err(VaultError::CryptographyError);
            },
        };
        let content = match decrypt_text(&self.content, key) {
            Ok(content) => content,
            Err(_) => {
                return Err(VaultError::CryptographyError);
            },
        };
        Ok(Document { name, content })
    }

    /// Creates a mock EncryptedDocument: name and content are the letter `a`
    /// encrypted under the all-zero key. Useful for testing.
    pub fn create_random() -> (document: Self)
        ensures
            document@.name.opened(zero_key()) == Some(sample_message()),
            document@.content.opened(zero_key()) == Some(sample_message()),
    {
        EncryptedDocument {
            name: SymEncryptedData::create_random(),
            content: SymEncryptedData::create_random(),
        }
    }
}

/// What the server lists of a document: its encrypted name and the key of
/// the listing organization.
#[derive(PartialEq, Debug)]
pub struct EncryptedDocumentNameAndKey {
    pub data: SymEncryptedData,
    pub key: EncryptedDocumentKey,
}

/// What an `EncryptedDocumentNameAndKey` holds.
pub struct EncryptedDocumentNameAndKeyView {
    pub data: SymEncryptedDataView,
    pub key: Seq<u8>,
}

impl View for EncryptedDocumentNameAndKey {
    type V = EncryptedDocumentNameAndKeyView;

    open spec fn view(&self) -> EncryptedDocumentNameAndKeyView {
        EncryptedDocumentNameAndKeyView { data: self.data@, key: self.key@ }
    }
}

impl Clone for EncryptedDocumentNameAndKey {
    fn clone(&self) -> (copy: Self)
        ensures
            copy@ == self@,
    {
        let copy = EncryptedDocumentNameAndKey { data: self.data.clone(), key: self.key.clone() };
        assert(copy.key@ =~= self.key@);
        copy
    }
}

/// One member's part of the organization's secret key, protected by the
/// member's password.
#[derive(PartialEq, Debug)]
pub struct UserShare {
    pub salt: Vec<u8>,
    pub encrypted_private_key_share: SymEncryptedData,
}

/// What a `UserShare` holds.
pub struct UserShareView {
    pub salt: Seq<u8>,
    pub encrypted_private_key_share: SymEncryptedDataView,
}

impl View for UserShare {
    type V = UserShareView;

    open spec fn view(&self) -> UserShareView {
        UserShareView {
            salt: self.salt@,
            encrypted_private_key_share: self.encrypted_private_key_share@,
        }
    }
}

impl Clone for UserShare {
    fn clone(&self) -> (copy: Self)
        ensures
            copy@ == self@,
    {
        let copy = UserShare {
            salt: self.salt.clone(),
            encrypted_private_key_share: self.encrypted_private_key_share.clone(),
        };
        assert(copy.salt@ =~= self.salt@);
        copy
    }
}

/// A user of an organization with the share that the server keeps for the
/// user.
pub struct UserRecordView {
    pub name: Seq<char>,
    pub share: UserShareView,
}

/// Users as a request for a new organization names them: each with the share
/// that the server is to keep.
pub open spec fn user_records(users: Seq<(String, UserShare)>) -> Seq<UserRecordView> {
    Seq::new(users.len(), |i: int| UserRecordView { name: users[i].0@, share: users[i].1@ })
}

impl UserShare {
    /// Creates a mock UserShare: an empty salt, and the letter `a` encrypted
    /// under the all-zero key in place of a share. Useful for testing.
    pub fn create_random() -> (share: Self)
        ensures
            share@.salt.len() == 0,
            share@.encrypted_private_key_share.opened(zero_key()) == Some(sample_message()),
    {
        UserShare {
            salt: Vec::new(),
            encrypted_private_key_share: SymEncryptedData::create_random(),
        }
    }
}

/// Creates a mock document key: the letter `a` sealed to the public key of a
/// fresh key pair that is then forgotten. Nothing when the sealing refuses
/// the public key that was generated.
pub fn random_encrypted_document_key() -> (key: Option<EncryptedDocumentKey>)
    ensures
        key.is_some() ==> key.unwrap()@.len() == 1 + SEALED_BOX_OVERHEAD,
        key.is_some() ==> exists|pair: KeyPair|
            pair.matches() && sealed_box_opened(
                key.unwrap()@,
                pair.public_key@,
                pair.secret_key@,
            ) == Some(sample_message()),
        key.is_none() ==> exists|pair: KeyPair|
            pair.matches() && #[trigger] sealed_box_refuses(pair.public_key@),
{
    let pair = KeyPair::generate();
    let mut message: Vec<u8> = Vec::new();
    message.push(97u8);
    assert(message@ =~= sample_message());
    let sealed = sealed_box_seal(message.as_slice(), &pair.public_key);
    proof {
        if sealed.is_some() {
            assert(box_public_key(pair.secret_key@) == pair.public_key@);
        }
    }
    sealed
}

} // verus!
