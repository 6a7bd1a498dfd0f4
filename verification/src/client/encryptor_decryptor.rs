//! Provides functions that are used once the client has recovered its
//! private key, to access and manipulate the documents.

use vstd::prelude::*;
use crate::bytes::{copy_bytes, key_from_bytes, same_text};
use crate::data::{
    decrypt_text, decrypted_text, Document, DocumentID, DocumentView, EncryptedDocument,
    EncryptedDocumentKey, EncryptedDocumentNameAndKey, EncryptedDocumentNameAndKeyView,
    EncryptedDocumentView, EncryptedToken, KeyPair, PublicKey, Token,
};
use crate::error::VaultError;
use crate::primitives::random::random_key;
use crate::primitives::sealed_box::{
    box_public_key, sealed_box_open, sealed_box_opened, sealed_box_refuses, sealed_box_seal,
};
use crate::primitives::secret_box::SECRET_BOX_TAG_LENGTH;
use crate::server::object_store::listing_view;
use crate::symmetric_encryption_helper::{SymEncryptedData, SymEncryptedDataView, SymmetricKey};

verus! {

/// The document key that a key pair opens from its sealed form. Nothing when
/// the box does not open under the pair or holds no key of 32 bytes.
pub open spec fn document_key_opened(
    encrypted_key: Seq<u8>,
    public_key: Seq<u8>,
    secret_key: Seq<u8>,
) -> Option<Seq<u8>> {
    match sealed_box_opened(encrypted_key, public_key, secret_key) {
        Some(key) => if key.len() == 32 {
            Some(key)
        } else {
            None
        },
        None => None,
    }
}

/// The name that a key pair reads from an encrypted name and the sealed
/// document key.
pub open spec fn document_name_decrypted(
    encrypted_name: SymEncryptedDataView,
    encrypted_key: Seq<u8>,
    public_key: Seq<u8>,
    secret_key: Seq<u8>,
) -> Option<Seq<char>> {
    match document_key_opened(encrypted_key, public_key, secret_key) {
        Some(key) => decrypted_text(encrypted_name, key),
        None => None,
    }
}

/// The document that a key pair reads from an encrypted document and the
/// sealed document key.
pub open spec fn document_decrypted(
    encrypted_document: EncryptedDocumentView,
    encrypted_key: Seq<u8>,
    public_key: Seq<u8>,
    secret_key: Seq<u8>,
) -> Option<DocumentView> {
    match document_key_opened(encrypted_key, public_key, secret_key) {
        Some(key) => encrypted_document.decrypted(key),
        None => None,
    }
}

/// Whether the entry at a position of a listing has that name for the key
/// pair.
pub open spec fn is_named(
    listing: Seq<(Seq<u8>, EncryptedDocumentNameAndKeyView)>,
    position: int,
    name: Seq<char>,
    public_key: Seq<u8>,
    secret_key: Seq<u8>,
) -> bool {
    document_name_decrypted(listing[position].1.data, listing[position].1.key, public_key, secret_key)
        == Some(name)
}

/// The first position of a listing whose entry has that name for the key
/// pair, if there is one.
pub open spec fn first_named(
    listing: Seq<(Seq<u8>, EncryptedDocumentNameAndKeyView)>,
    name: Seq<char>,
    public_key: Seq<u8>,
    secret_key: Seq<u8>,
) -> Option<int> {
    if exists|i: int|
        0 <= i < listing.len() && #[trigger] is_named(listing, i, name, public_key, secret_key) {
        Some(
            choose|i: int|
                0 <= i < listing.len() && #[trigger] is_named(
                    listing,
                    i,
                    name,
                    public_key,
                    secret_key,
                ) && forall|j: int|
                    0 <= j < i ==> !#[trigger] is_named(listing, j, name, public_key, secret_key),
        )
    } else {
        None
    }
}

/// Owns the organization key pair. Performs encryption / decryption of the
/// data coming from / going to the server.
#[derive(PartialEq, Debug)]
pub struct OrganizationEncryptorDecryptor {
    key_pair: KeyPair,
}

impl OrganizationEncryptorDecryptor {
    /// The public key of the organization.
    pub closed spec fn public_key(&self) -> Seq<u8> {
        self.key_pair.public_key@
    }

    /// The secret key of the organization.
    pub closed spec fn secret_key(&self) -> Seq<u8> {
        self.key_pair.secret_key@
    }

    pub fn new(key_pair: KeyPair) -> (encryptor_decryptor: OrganizationEncryptorDecryptor)
        ensures
            encryptor_decryptor.public_key() == key_pair.public_key@,
            encryptor_decryptor.secret_key() == key_pair.secret_key@,
    {
        OrganizationEncryptorDecryptor { key_pair }
    }

    /// The public key of the organization.
    pub fn organization_public_key(&self) -> (public_key: PublicKey)
        ensures
            public_key@ == self.public_key(),
    {
        self.key_pair.public_key
    }

    /// Using a list of document ids and corresponding encrypted document
    /// names coming from the server, searches for the document id of the
    /// document named `document_name`: that of the first entry whose name
    /// decrypts to it.
    pub fn find_document_id_from_name(
        &self,
        encrypted_document_names: &Vec<(DocumentID, EncryptedDocumentNameAndKey)>,
        document_name: &str,
    ) -> (document_id: Option<DocumentID>)
        ensures
            match first_named(
                listing_view(encrypted_document_names@),
                document_name@,
                self.public_key(),
                self.secret_key(),
            ) {
                Some(position) => document_id.is_some() && document_id.unwrap()@
                    == encrypted_document_names@[position].0@ && 0 <= position
                    < encrypted_document_names@.len(),
                None => document_id.is_none(),
            },
    {
        let ghost listing = listing_view(encrypted_document_names@);
        let mut i: usize = 0;
        while i < encrypted_document_names.len()
            invariant
                i <= encrypted_document_names@.len(),
                listing == listing_view(encrypted_document_names@),
                forall|j: int|
                    0 <= j < i ==> !#[trigger] is_named(
                        listing,
                        j,
                        document_name@,
                        self.public_key(),
                        self.secret_key(),
                    ),
            decreases encrypted_document_names@.len() - i,
        {
            let entry = &encrypted_document_names[i];
            let named = match self.decrypt_document_name(&entry.1.data, &entry.1.key) {
                Ok(name) => same_text(name.as_str(), document_name),
                Err(_) => false,
            };
            assert(named == is_named(
                listing,
                i as int,
                document_name@,
                self.public_key(),
                self.secret_key(),
            ));
            if named {
                proof {
                    let found = first_named(
                        listing,
                        document_name@,
                        self.public_key(),
                        self.secret_key(),
                    ).unwrap();
                    if found < i {
                        assert(!is_named(
                            listing,
                            found,
                            document_name@,
                            self.public_key(),
                            self.secret_key(),
                        ));
                    } else if i < found {
                    }
                }
                return Some(copy_bytes(&entry.0));
            }
            i = i + 1;
        }
        None
    }

    /// Chooses a random document key, encrypts the document with the document
    /// key and encrypts the document key with the organization public key.
    /// Whoever holds a secret key to which the organization's public key
    /// belongs reads the document back from the two.
    ///
    /// Fails with `CryptographyError` exactly when name or content is too
    /// long to be encrypted, or the sealing refuses the public key.
    pub fn generate_document_key_and_encrypt_document(&self, document: &Document) -> (result:
        Result<(EncryptedDocument, EncryptedDocumentKey), VaultError>)
        ensures
            result.is_ok() ==> forall|secret_key: Seq<u8>| #[trigger]
                box_public_key(secret_key) == self.public_key() ==> document_decrypted(
                    result.unwrap().0@,
                    result.unwrap().1@,
                    self.public_key(),
                    secret_key,
                ) == Some(document@),
            result.is_err() ==> result.unwrap_err() == VaultError::CryptographyError,
            result.is_err() <==> !document@.fits_in_boxes() || sealed_box_refuses(
                self.public_key(),
            ),
    {
        if !fits(document) {
            return Err(VaultError::CryptographyError);
        }
        let document_key = random_key();
        let encrypted_document_key = match sealed_box_seal(
            document_key.as_slice(),
            &self.key_pair.public_key,
        ) {
            Some(sealed) => sealed,
            None => {
                return Err(VaultError::CryptographyError);
            },
        };
        Ok((document.encrypt(&document_key), encrypted_document_key))
    }

    /// Decrypts the name of a document. Fails with `CryptographyError`
    /// exactly when the key pair reads no name from the two.
    pub fn decrypt_document_name(
        &self,
        encrypted_name: &SymEncryptedData,
        encrypted_document_key: &EncryptedDocumentKey,
    ) -> (result: Result<String, VaultError>)
        ensures
            match document_name_decrypted(
                encrypted_name@,
                encrypted_document_key@,
                self.public_key(),
                self.secret_key(),
            ) {
                Some(name) => result.is_ok() && result.unwrap()@ == name,
                None => result.is_err() && result.unwrap_err() == VaultError::CryptographyError,
            },
    {
        let document_key = match self.decrypt_document_key(encrypted_document_key) {
            Ok(key) => key,
            Err(_) => {
                return Err(VaultError::CryptographyError);
            },
        };
        decrypt_text(encrypted_name, &document_key)
    }

    /// Decrypts a document. Fails with `CryptographyError` exactly when the
    /// key pair reads no document from the two.
    pub fn decrypt_document(
        &self,
        encrypted_document: &EncryptedDocument,
        encrypted_document_key: &EncryptedDocumentKey,
    ) -> (result: Result<Document, VaultError>)
        ensures
            match document_decrypted(
                encrypted_document@,
                encrypted_document_key@,
                self.public_key(),
                self.secret_key(),
            ) {
                Some(document) => result.is_ok() && result.unwrap()@ == document,
                None => result.is_err() && result.unwrap_err() == VaultError::CryptographyError,
            },
    {
        let document_key = match self.decrypt_document_key(encrypted_document_key) {
            Ok(key) => key,
            Err(_) => {
                return Err(VaultError::CryptographyError);
            },
        };
        encrypted_document.decrypt(&document_key)
    }

    /// Encrypts a document under the key of an existing document, so that
    /// every owner of that key reads the new document. Fails with
    /// `CryptographyError` exactly when the key pair opens no document key or
    /// name or content is too long to be encrypted.
    pub fn encrypt_document_with_key(
        &self,
        document: &Document,
        encrypted_document_key: &EncryptedDocumentKey,
    ) -> (result: Result<EncryptedDocument, VaultError>)
        ensures
            result.is_ok() == (document_key_opened(
                encrypted_document_key@,
                self.public_key(),
                self.secret_key(),
            ).is_some() && document@.fits_in_boxes()),
            result.is_ok() ==> result.unwrap()@.decrypted(
                document_key_opened(
                    encrypted_document_key@,
                    self.public_key(),
                    self.secret_key(),
                ).unwrap(),
            ) == Some(document@),
            result.is_ok() ==> document_decrypted(
                result.unwrap()@,
                encrypted_document_key@,
                self.public_key(),
                self.secret_key(),
            ) == Some(document@),
            result.is_err() ==> result.unwrap_err() == VaultError::CryptographyError,
    {
        let document_key = match self.decrypt_document_key(encrypted_document_key) {
            Ok(key) => key,
            Err(_) => {
                return Err(VaultError::CryptographyError);
            },
        };
        if !fits(document) {
            return Err(VaultError::CryptographyError);
        }
        Ok(document.encrypt(&document_key))
    }

    /// Decrypts a document key and encrypts it with the public key of an
    /// other organization. Whoever holds a secret key to which that public
    /// key belongs opens the result to the same document key.
    ///
    /// Fails with `CryptographyError` exactly when the key pair opens no
    /// document key, or the sealing refuses the other public key.
    pub fn encrypt_document_key_for_other_organization(
        &self,
        encrypted_document_key: &EncryptedDocumentKey,
        other_organization_public_key: &PublicKey,
    ) -> (result: Result<EncryptedDocumentKey, VaultError>)
        ensures
            result.is_err() <==> document_key_opened(
                encrypted_document_key@,
                self.public_key(),
                self.secret_key(),
            ).is_none() || sealed_box_refuses(other_organization_public_key@),
            result.is_ok() ==> forall|secret_key: Seq<u8>| #[trigger]
                box_public_key(secret_key) == other_organization_public_key@
                    ==> document_key_opened(
                    result.unwrap()@,
                    other_organization_public_key@,
                    secret_key,
                ) == document_key_opened(
                    encrypted_document_key@,
                    self.public_key(),
                    self.secret_key(),
                ),
            result.is_err() ==> result.unwrap_err() == VaultError::CryptographyError,
    {
        let document_key = match self.decrypt_document_key(encrypted_document_key) {
            Ok(key) => key,
            Err(_) => {
                return Err(VaultError::CryptographyError);
            },
        };
        match sealed_box_seal(document_key.as_slice(), other_organization_public_key) {
            Some(sealed) => Ok(sealed),
            None => Err(VaultError::CryptographyError),
        }
    }

    /// Opens the session token that the server sealed to the organization.
    /// Fails with `CryptographyError` exactly when the box does not open
    /// under the key pair.
    pub fn decrypt_token(&self, encrypted_token: &EncryptedToken) -> (result: Result<
        Token,
        VaultError,
    >)
        ensures
            match sealed_box_opened(encrypted_token@, self.public_key(), self.secret_key()) {
                Some(token) => result.is_ok() && result.unwrap()@ == token,
                None => result.is_err() && result.unwrap_err() == VaultError::CryptographyError,
            },
    {
        match sealed_box_open(
            encrypted_token.as_slice(),
            &self.key_pair.public_key,
            &self.key_pair.secret_key,
        ) {
            Some(token) => Ok(token),
            None => Err(VaultError::CryptographyError),
        }
    }

    /// Opens a sealed document key. Fails with `CryptographyError` exactly
    /// when the box does not open under the key pair or holds no key of 32
    /// bytes.
    pub fn decrypt_document_key(&self, encrypted_key: &EncryptedDocumentKey) -> (result: Result<
        SymmetricKey,
        VaultError,
    >)
        ensures
            match document_key_opened(encrypted_key@, self.public_key(), self.secret_key()) {
                Some(key) => result.is_ok() && result.unwrap()@ == key,
                None => result.is_err() && result.unwrap_err() == VaultError::CryptographyError,
            },
    {
        let symmetric_key_vec = match sealed_box_open(
            encrypted_key.as_slice(),
            &self.key_pair.public_key,
            &self.key_pair.secret_key,
        ) {
            Some(bytes) => bytes,
            None => {
                return Err(VaultError::CryptographyError);
            },
        };
        match key_from_bytes(&symmetric_key_vec) {
            Some(key) => Ok(key),
            None => Err(VaultError::CryptographyError),
        }
    }
}

/// Whether name and content of a document leave room for the authentication
/// tag.
pub fn fits(document: &Document) -> (yes: bool)
    ensures
        yes == document@.fits_in_boxes(),
{
    document.name.as_str().as_bytes().len() <= usize::MAX - SECRET_BOX_TAG_LENGTH
        && document.content.as_str().as_bytes().len() <= usize::MAX - SECRET_BOX_TAG_LENGTH
}

/// A payload that was encrypted under a document key is read by every
/// organization whose sealed key opens to that document key: an update by
/// one owner reaches all owners.
pub proof fn lemma_every_owner_reads_the_update(
    encrypted_document: EncryptedDocumentView,
    document: DocumentView,
    document_key: Seq<u8>,
    encrypted_key: Seq<u8>,
    public_key: Seq<u8>,
    secret_key: Seq<u8>,
)
    requires
        encrypted_document.decrypted(document_key) == Some(document),
        document_key_opened(encrypted_key, public_key, secret_key) == Some(document_key),
    ensures
        document_decrypted(encrypted_document, encrypted_key, public_key, secret_key) == Some(
            document,
        ),
        document_name_decrypted(encrypted_document.name, encrypted_key, public_key, secret_key)
            == Some(document.name),
{
}

/// A document key that was sealed again for another organization opens there
/// to the same key, so the other organization reads from any payload exactly
/// what the first one reads.
pub proof fn lemma_shared_key_reads_the_same(
    encrypted_document: EncryptedDocumentView,
    encrypted_key: Seq<u8>,
    public_key: Seq<u8>,
    secret_key: Seq<u8>,
    shared_key: Seq<u8>,
    other_public_key: Seq<u8>,
    other_secret_key: Seq<u8>,
)
    requires
        document_key_opened(shared_key, other_public_key, other_secret_key) == document_key_opened(
            encrypted_key,
            public_key,
            secret_key,
        ),
    ensures
        document_decrypted(encrypted_document, shared_key, other_public_key, other_secret_key)
            == document_decrypted(encrypted_document, encrypted_key, public_key, secret_key),
        document_name_decrypted(
            encrypted_document.name,
            shared_key,
            other_public_key,
            other_secret_key,
        ) == document_name_decrypted(encrypted_document.name, encrypted_key, public_key, secret_key),
{
}

} // verus!
