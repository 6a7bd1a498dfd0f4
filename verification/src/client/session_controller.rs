//! The unlocked session: the organization's key pair and the session token,
//! and the document operations that a user sees.
//!
//! Every operation is a fixed sequence of requests to the server and of
//! cryptographic steps. Its contract says which requests were made, in terms
//! of what the carrier says of its answers, and what was made of the answers.

use vstd::prelude::*;
use crate::client::encryptor_decryptor::{
    document_decrypted, document_key_opened, document_name_decrypted, first_named,
    OrganizationEncryptorDecryptor,
};
use crate::client::key_pair::{key_refused, private_key_retrieved, retrieve_private_key};
use crate::data::{
    ArgonConfig, Document, DocumentID, DocumentView, EncryptedDocument, EncryptedDocumentKey,
    EncryptedDocumentNameAndKeyView, EncryptedDocumentView, KeyPair, PublicKey, SecretKey, Token,
    UserShareView,
};
use crate::error::VaultError;
use crate::primitives::sealed_box::{box_public_key, sealed_box_opened, sealed_box_refuses};
use crate::server::object_store::listing_view;
use crate::server_connection::{ListedDocument, ServerConnection, UnlockResponse};
use crate::validation::{is_acceptable_name, standard_form, validate_and_standardize_name};

verus! {

/// What the server answered to `unlock_vault`, as the session reads it.
pub struct UnlockResponseView {
    pub user_share1: UserShareView,
    pub user_share2: UserShareView,
    pub argon_config: ArgonConfig,
    pub public_key: Seq<u8>,
    pub encrypted_token: Seq<u8>,
}

/// The view of an answer to `unlock_vault`.
pub open spec fn response_view(response: UnlockResponse) -> UnlockResponseView {
    UnlockResponseView {
        user_share1: response.0@,
        user_share2: response.1@,
        argon_config: response.2,
        public_key: response.3@,
        encrypted_token: response.4@,
    }
}

/// The secret key and the session token that two passwords get out of the
/// server's answer, where the hash function gives the passwords' keys.
/// Nothing when those keys do not recover a secret key, or the token does
/// not open under the key pair.
pub open spec fn session_unlocked(
    response: UnlockResponseView,
    password1: Seq<char>,
    password2: Seq<char>,
) -> Option<(Seq<u8>, Seq<u8>)> {
    match private_key_retrieved(
        password1,
        response.user_share1,
        password2,
        response.user_share2,
        response.argon_config,
    ) {
        Some(secret_key) => match sealed_box_opened(
            response.encrypted_token,
            response.public_key,
            secret_key,
        ) {
            Some(token) => Some((secret_key, token)),
            None => None,
        },
        None => None,
    }
}

/// The session that a recovered secret key opens from the server's answer:
/// it holds the answer's public key, the secret key and the token that the
/// two read out of the answer. `CryptographyError` when no secret key was
/// recovered or the token does not open.
pub open spec fn session_of_private_key(
    response: UnlockResponse,
    private_key: Result<SecretKey, VaultError>,
    result: Result<Controller, VaultError>,
) -> bool {
    match private_key {
        Ok(secret_key) => match sealed_box_opened(response.4@, response.3@, secret_key@) {
            Some(token) => result.is_ok() && result.unwrap().public_key() == response.3@
                && result.unwrap().secret_key() == secret_key@ && result.unwrap().token()
                == token,
            None => result.is_err() && result.unwrap_err() == VaultError::CryptographyError,
        },
        Err(_) => result.is_err() && result.unwrap_err() == VaultError::CryptographyError,
    }
}

/// What holds of the session that two passwords open from the server's
/// answer. Every failure is `CryptographyError`. A session that is opened
/// holds the answer's public key, and the secret key and the token that the
/// passwords get out of the answer. Where they get none out of it, or the
/// hash parameters are out of the hash function's ranges, there is no
/// session.
pub open spec fn session_opened(
    response: UnlockResponse,
    password1: Seq<char>,
    password2: Seq<char>,
    result: Result<Controller, VaultError>,
) -> bool {
    &&& result.is_err() ==> result.unwrap_err() == VaultError::CryptographyError
    &&& session_unlocked(response_view(response), password1, password2).is_none()
        ==> result.is_err()
    &&& key_refused(response.0@.salt, response.2) || key_refused(response.1@.salt, response.2)
        ==> result.is_err()
    &&& result.is_ok() ==> result.unwrap().public_key() == response.3@ && session_unlocked(
        response_view(response),
        password1,
        password2,
    ) == Some((result.unwrap().secret_key(), result.unwrap().token()))
}

/// What is made of the server's answer to `unlock_vault`: its error, or what
/// `session_opened` says of the session that the two passwords open from it.
pub open spec fn unlock_answer_read(
    answer: Result<UnlockResponse, VaultError>,
    password1: Seq<char>,
    password2: Seq<char>,
    result: Result<Controller, VaultError>,
) -> bool {
    match answer {
        Err(error) => result == Err::<Controller, VaultError>(error),
        Ok(response) => session_opened(response, password1, password2, result),
    }
}

/// The names that a key pair reads from a listing, in its order. Nothing
/// when one of them cannot be read.
pub open spec fn names_decrypted(
    listing: Seq<(Seq<u8>, EncryptedDocumentNameAndKeyView)>,
    public_key: Seq<u8>,
    secret_key: Seq<u8>,
) -> Option<Seq<Seq<char>>> {
    if forall|i: int|
        0 <= i < listing.len() ==> (#[trigger] document_name_decrypted(
            listing[i].1.data,
            listing[i].1.key,
            public_key,
            secret_key,
        )).is_some() {
        Some(
            Seq::new(
                listing.len(),
                |i: int|
                    document_name_decrypted(
                        listing[i].1.data,
                        listing[i].1.key,
                        public_key,
                        secret_key,
                    ).unwrap(),
            ),
        )
    } else {
        None
    }
}

/// The texts of a list of names.
pub open spec fn names_view(names: Seq<String>) -> Seq<Seq<char>> {
    Seq::new(names.len(), |i: int| names[i]@)
}

/// The names that a key pair reads from a listing: `CryptographyError` when
/// one of them cannot be read.
pub open spec fn names_listed(
    listing: Seq<(Seq<u8>, EncryptedDocumentNameAndKeyView)>,
    public_key: Seq<u8>,
    secret_key: Seq<u8>,
    result: Result<Vec<String>, VaultError>,
) -> bool {
    match names_decrypted(listing, public_key, secret_key) {
        Some(names) => result.is_ok() && names_view(result.unwrap()@) == names,
        None => result.is_err() && result.unwrap_err() == VaultError::CryptographyError,
    }
}

/// What is made of the server's answer to `list_documents` when names are
/// asked for: its error, or the names that the key pair reads from it.
pub open spec fn names_read(
    answer: Result<Vec<ListedDocument>, VaultError>,
    public_key: Seq<u8>,
    secret_key: Seq<u8>,
    result: Result<Vec<String>, VaultError>,
) -> bool {
    match answer {
        Err(error) => result == Err::<Vec<String>, VaultError>(error),
        Ok(listing) => names_listed(listing_view(listing@), public_key, secret_key, result),
    }
}

/// What is made of the server's answer to `list_documents` when a document
/// is looked for by its name: the server's error, the id of the first listed
/// document that the key pair reads that name from, or `DocumentNotFound`.
pub open spec fn id_read(
    answer: Result<Vec<ListedDocument>, VaultError>,
    document_name: Seq<char>,
    public_key: Seq<u8>,
    secret_key: Seq<u8>,
    result: Result<DocumentID, VaultError>,
) -> bool {
    match answer {
        Err(error) => result == Err::<DocumentID, VaultError>(error),
        Ok(listing) => match first_named(
            listing_view(listing@),
            document_name,
            public_key,
            secret_key,
        ) {
            Some(position) => result.is_ok() && result.unwrap()@ == listing@[position].0@,
            None => result.is_err() && result.unwrap_err() == VaultError::DocumentNotFound,
        },
    }
}

/// What is made of a payload and a key that the server handed out: the
/// document that the key pair reads from them, or `CryptographyError`.
pub open spec fn document_read(
    encrypted_document: EncryptedDocumentView,
    encrypted_key: Seq<u8>,
    public_key: Seq<u8>,
    secret_key: Seq<u8>,
    result: Result<Document, VaultError>,
) -> bool {
    match document_decrypted(encrypted_document, encrypted_key, public_key, secret_key) {
        Some(document) => result.is_ok() && result.unwrap()@ == document,
        None => result.is_err() && result.unwrap_err() == VaultError::CryptographyError,
    }
}

/// Whoever holds a secret key to which the public key belongs reads the
/// document from the payload and the sealed key.
pub open spec fn reads_back(
    encrypted_document: EncryptedDocumentView,
    encrypted_key: Seq<u8>,
    public_key: Seq<u8>,
    document: DocumentView,
) -> bool {
    forall|secret_key: Seq<u8>| #[trigger]
        box_public_key(secret_key) == public_key ==> document_decrypted(
            encrypted_document,
            encrypted_key,
            public_key,
            secret_key,
        ) == Some(document)
}

/// Whoever holds a secret key to which the other public key belongs opens
/// the new sealed key to the document key that the first key pair opens from
/// the old one.
pub open spec fn seals_the_same_key(
    new_key: Seq<u8>,
    other_public_key: Seq<u8>,
    old_key: Seq<u8>,
    public_key: Seq<u8>,
    secret_key: Seq<u8>,
) -> bool {
    forall|other_secret_key: Seq<u8>| #[trigger]
        box_public_key(other_secret_key) == other_public_key ==> document_key_opened(
            new_key,
            other_public_key,
            other_secret_key,
        ) == document_key_opened(old_key, public_key, secret_key)
}

/// Holds an unlocked session: the decrypted key pair and the bearer token.
/// Every operation goes through the connection that it is handed.
#[derive(Debug, PartialEq)]
pub struct Controller {
    encryptor_decryptor: OrganizationEncryptorDecryptor,
    token: Token,
}

impl Controller {
    /// The public key of the session's organization.
    pub closed spec fn public_key(&self) -> Seq<u8> {
        self.encryptor_decryptor.public_key()
    }

    /// The secret key of the session's organization.
    pub closed spec fn secret_key(&self) -> Seq<u8> {
        self.encryptor_decryptor.secret_key()
    }

    /// The bearer token of the session.
    pub closed spec fn token(&self) -> Seq<u8> {
        self.token@
    }

    /// Looking a document up by its name: the server is asked for the
    /// listing, and the answer is read as `id_read` says.
    pub open spec fn finds<A: ServerConnection>(
        &self,
        before: A,
        after: A,
        document_name: Seq<char>,
        result: Result<DocumentID, VaultError>,
    ) -> bool {
        exists|answer: Result<Vec<ListedDocument>, VaultError>| #[trigger]
            before.answers_list_documents(after, self.token(), answer) && id_read(
                answer,
                document_name,
                self.public_key(),
                self.secret_key(),
                result,
            )
    }

    /// Fetching a document by its id: the server is asked for the payload,
    /// then for the key, and the two are read as `document_read` says. An
    /// error of the server ends the operation.
    pub open spec fn fetches<A: ServerConnection>(
        &self,
        before: A,
        after: A,
        document_id: Seq<u8>,
        result: Result<Document, VaultError>,
    ) -> bool {
        exists|payload: Result<EncryptedDocument, VaultError>, then: A| #[trigger]
            before.answers_get_document(then, self.token(), document_id, payload)
                && match payload {
                Err(error) => after == then && result == Err::<Document, VaultError>(error),
                Ok(encrypted_document) => exists|key: Result<EncryptedDocumentKey, VaultError>| #[trigger]
                    then.answers_get_document_key(after, self.token(), document_id, key)
                        && match key {
                        Err(error) => result == Err::<Document, VaultError>(error),
                        Ok(encrypted_key) => document_read(
                            encrypted_document@,
                            encrypted_key@,
                            self.public_key(),
                            self.secret_key(),
                            result,
                        ),
                    },
            }
    }

    /// Downloading a document by its name: it is looked up as `finds` says,
    /// and fetched as `fetches` says if it was found.
    pub open spec fn downloads<A: ServerConnection>(
        &self,
        before: A,
        after: A,
        document_name: Seq<char>,
        result: Result<Document, VaultError>,
    ) -> bool {
        exists|found: Result<DocumentID, VaultError>, then: A| #[trigger]
            self.finds(before, then, document_name, found) && match found {
                Err(error) => after == then && result == Err::<Document, VaultError>(error),
                Ok(document_id) => self.fetches(then, after, document_id@, result),
            }
    }

    /// Replacing a document by its id: the server is asked for the key; the
    /// new document is encrypted under the document key that the key pair
    /// opens from it, and sent as the new payload. `CryptographyError`, and
    /// nothing sent, when no document key opens or the new document is too
    /// long.
    pub open spec fn replaces<A: ServerConnection>(
        &self,
        before: A,
        after: A,
        document_id: Seq<u8>,
        new_document: DocumentView,
        result: Result<(), VaultError>,
    ) -> bool {
        exists|key: Result<EncryptedDocumentKey, VaultError>, then: A| #[trigger]
            before.answers_get_document_key(then, self.token(), document_id, key) && match key {
                Err(error) => after == then && result == Err::<(), VaultError>(error),
                Ok(encrypted_key) => {
                    let document_key = document_key_opened(
                        encrypted_key@,
                        self.public_key(),
                        self.secret_key(),
                    );
                    if document_key.is_some() && new_document.fits_in_boxes() {
                        exists|encrypted_document: EncryptedDocumentView| #[trigger]
                            then.answers_update_document(
                                after,
                                self.token(),
                                document_id,
                                encrypted_document,
                                result,
                            ) && encrypted_document.decrypted(document_key.unwrap()) == Some(
                                new_document,
                            )
                    } else {
                        after == then && result == Err::<(), VaultError>(
                            VaultError::CryptographyError,
                        )
                    }
                },
            }
    }

    /// Updating a document by its name: it is looked up as `finds` says, and
    /// replaced as `replaces` says if it was found.
    pub open spec fn updates<A: ServerConnection>(
        &self,
        before: A,
        after: A,
        document_name: Seq<char>,
        new_document: DocumentView,
        result: Result<(), VaultError>,
    ) -> bool {
        exists|found: Result<DocumentID, VaultError>, then: A| #[trigger]
            self.finds(before, then, document_name, found) && match found {
                Err(error) => after == then && result == Err::<(), VaultError>(error),
                Ok(document_id) => self.replaces(then, after, document_id@, new_document, result),
            }
    }

    /// Handing a document key on: the server is asked for the public key of
    /// the other organization, under the name as it was given; the document
    /// key is sealed to it and sent as the other organization's key.
    /// `CryptographyError`, and nothing sent, exactly when no document key
    /// opens or the sealing refuses the other organization's public key.
    pub open spec fn hands_on<A: ServerConnection>(
        &self,
        before: A,
        after: A,
        document_id: Seq<u8>,
        encrypted_key: Seq<u8>,
        other_organization_name: Seq<char>,
        result: Result<(), VaultError>,
    ) -> bool {
        exists|other: Result<PublicKey, VaultError>, then: A| #[trigger]
            before.answers_get_public_key_of_organization(then, other_organization_name, other)
                && match other {
                Err(error) => after == then && result == Err::<(), VaultError>(error),
                Ok(other_public_key) => if document_key_opened(
                    encrypted_key,
                    self.public_key(),
                    self.secret_key(),
                ).is_none() || sealed_box_refuses(other_public_key@) {
                    after == then && result == Err::<(), VaultError>(
                        VaultError::CryptographyError,
                    )
                } else {
                    exists|new_key: Seq<u8>| #[trigger]
                        then.answers_add_owner(
                            after,
                            self.token(),
                            document_id,
                            other_organization_name,
                            new_key,
                            result,
                        ) && seals_the_same_key(
                            new_key,
                            other_public_key@,
                            encrypted_key,
                            self.public_key(),
                            self.secret_key(),
                        )
                },
            }
    }

    /// Sharing a document by its id: the server is asked for the key, which
    /// is handed on as `hands_on` says.
    pub open spec fn shares_by_id<A: ServerConnection>(
        &self,
        before: A,
        after: A,
        document_id: Seq<u8>,
        other_organization_name: Seq<char>,
        result: Result<(), VaultError>,
    ) -> bool {
        exists|key: Result<EncryptedDocumentKey, VaultError>, then: A| #[trigger]
            before.answers_get_document_key(then, self.token(), document_id, key) && match key {
                Err(error) => after == then && result == Err::<(), VaultError>(error),
                Ok(encrypted_key) => self.hands_on(
                    then,
                    after,
                    document_id,
                    encrypted_key@,
                    other_organization_name,
                    result,
                ),
            }
    }

    /// Sharing a document by its name: it is looked up as `finds` says, and
    /// shared as `shares_by_id` says if it was found.
    pub open spec fn shares<A: ServerConnection>(
        &self,
        before: A,
        after: A,
        document_name: Seq<char>,
        other_organization_name: Seq<char>,
        result: Result<(), VaultError>,
    ) -> bool {
        exists|found: Result<DocumentID, VaultError>, then: A| #[trigger]
            self.finds(before, then, document_name, found) && match found {
                Err(error) => after == then && result == Err::<(), VaultError>(error),
                Ok(document_id) => self.shares_by_id(
                    then,
                    after,
                    document_id@,
                    other_organization_name,
                    result,
                ),
            }
    }

    /// Deleting a document by its name: it is looked up as `finds` says, and
    /// the server is asked to delete it if it was found.
    pub open spec fn deletes<A: ServerConnection>(
        &self,
        before: A,
        after: A,
        document_name: Seq<char>,
        result: Result<(), VaultError>,
    ) -> bool {
        exists|found: Result<DocumentID, VaultError>, then: A| #[trigger]
            self.finds(before, then, document_name, found) && match found {
                Err(error) => after == then && result == Err::<(), VaultError>(error),
                Ok(document_id) => then.answers_delete_document(
                    after,
                    self.token(),
                    document_id@,
                    result,
                ),
            }
    }

    /// Unlocks the vault of an organization with the passwords of two of its
    /// users.
    ///
    /// Fails with `ValidationError`, and asks the server nothing, when a name
    /// is not acceptable. Otherwise the server is asked under the standard
    /// names, and its answer is read as `unlock_answer_read` says.
    pub fn unlock_vault_for_organization<A: ServerConnection>(
        server: &mut A,
        organization_name: &str,
        username1: &str,
        password1: &str,
        username2: &str,
        password2: &str,
    ) -> (result: Result<Self, VaultError>)
        requires
            old(server).wf(),
        ensures
            final(server).wf(),
            !(is_acceptable_name(organization_name@) && is_acceptable_name(username1@)
                && is_acceptable_name(username2@)) ==> (result matches Err(
                VaultError::ValidationError,
            )) && *final(server) == *old(server),
            is_acceptable_name(organization_name@) && is_acceptable_name(username1@)
                && is_acceptable_name(username2@) ==> exists|
                answer: Result<UnlockResponse, VaultError>,
            | #[trigger]
                (*old(server)).answers_unlock_vault(
                    *final(server),
                    standard_form(organization_name@),
                    standard_form(username1@),
                    standard_form(username2@),
                    answer,
                ) && unlock_answer_read(answer, password1@, password2@, result),
    {
        let organization_name = match validate_and_standardize_name(organization_name) {
            Ok(name) => name,
            Err(_) => {
                return Err(VaultError::ValidationError);
            },
        };
        let username1 = match validate_and_standardize_name(username1) {
            Ok(name) => name,
            Err(_) => {
                return Err(VaultError::ValidationError);
            },
        };
        let username2 = match validate_and_standardize_name(username2) {
            Ok(name) => name,
            Err(_) => {
                return Err(VaultError::ValidationError);
            },
        };
        let answer = server.unlock_vault(
            organization_name.as_str(),
            username1.as_str(),
            username2.as_str(),
        );
        let ghost witness = answer;
        let result = match answer {
            Ok(response) => Self::open_session(&response, password1, password2),
            Err(error) => Err(error),
        };
        proof {
            assert(unlock_answer_read(witness, password1@, password2@, result));
        }
        result
    }

    /// Opens the session from the server's answer: the two passwords recover
    /// the secret key from the two shares, and `session_from_private_key`
    /// opens the session with it. What holds of the outcome is what
    /// `session_opened` says; the hash function decides whether the passwords
    /// give keys at all.
    pub fn open_session(response: &UnlockResponse, password1: &str, password2: &str) -> (result:
        Result<Self, VaultError>)
        ensures
            session_opened(*response, password1@, password2@, result),
    {
        let private_key = retrieve_private_key(
            password1,
            &response.0,
            password2,
            &response.1,
            &response.2,
        );
        Self::session_from_private_key(response, private_key)
    }

    /// Opens the session with the secret key that was recovered, if one was:
    /// the key pair of the answer's public key and the secret key opens the
    /// token. Fails with `CryptographyError` exactly when no secret key was
    /// recovered or the token does not open under the key pair.
    pub fn session_from_private_key(
        response: &UnlockResponse,
        private_key: Result<SecretKey, VaultError>,
    ) -> (result: Result<Self, VaultError>)
        ensures
            session_of_private_key(*response, private_key, result),
    {
        let private_key = match private_key {
            Ok(key) => key,
            Err(_) => {
                return Err(VaultError::CryptographyError);
            },
        };
        let encryptor_decryptor = OrganizationEncryptorDecryptor::new(
            KeyPair { public_key: response.3, secret_key: private_key },
        );
        let token = match encryptor_decryptor.decrypt_token(&response.4) {
            Ok(token) => token,
            Err(_) => {
                return Err(VaultError::CryptographyError);
            },
        };
        Ok(Controller { encryptor_decryptor, token })
    }

    /// Asks the server to remove a user from the organization. Fails with
    /// `ValidationError`, and asks the server nothing, when the name is not
    /// acceptable; otherwise the server is asked under the standard name, and
    /// the answer is the server's.
    pub fn revoke_user<A: ServerConnection>(&mut self, server: &mut A, username: &str) -> (result:
        Result<(), VaultError>)
        requires
            old(server).wf(),
        ensures
            final(server).wf(),
            *final(self) == *old(self),
            !is_acceptable_name(username@) ==> (result matches Err(VaultError::ValidationError))
                && *final(server) == *old(server),
            is_acceptable_name(username@) ==> (*old(server)).answers_revoke_user(
                *final(server),
                old(self).token(),
                standard_form(username@),
                result,
            ),
    {
        let username = match validate_and_standardize_name(username) {
            Ok(name) => name,
            Err(_) => {
                return Err(VaultError::ValidationError);
            },
        };
        server.revoke_user(&self.token, username.as_str())
    }

    /// Asks the server to end the session. The answer is the server's.
    pub fn revoke_token<A: ServerConnection>(&mut self, server: &mut A) -> (result: Result<
        (),
        VaultError,
    >)
        requires
            old(server).wf(),
        ensures
            final(server).wf(),
            *final(self) == *old(self),
            (*old(server)).answers_revoke_token(*final(server), old(self).token(), result),
    {
        server.revoke_token(&self.token)
    }

    /// Encrypts a document under a fresh key and stores it on the server.
    ///
    /// Fails with `CryptographyError`, and sends nothing, exactly when the
    /// document is too long to be encrypted or the sealing refuses the
    /// organization's public key. Otherwise what is sent is a payload and a
    /// sealed key from which the organization reads the document, and the
    /// answer is the server's.
    pub fn upload<A: ServerConnection>(&mut self, server: &mut A, document: &Document) -> (result:
        Result<(), VaultError>)
        requires
            old(server).wf(),
        ensures
            final(server).wf(),
            *final(self) == *old(self),
            !document@.fits_in_boxes() || sealed_box_refuses(old(self).public_key()) ==> (
            result matches Err(VaultError::CryptographyError)) && *final(server) == *old(server),
            document@.fits_in_boxes() && !sealed_box_refuses(old(self).public_key()) ==> exists|
                encrypted_document: EncryptedDocumentView,
                encrypted_key: Seq<u8>,
            | #[trigger]
                (*old(server)).answers_new_document(
                    *final(server),
                    old(self).token(),
                    encrypted_document,
                    encrypted_key,
                    result,
                ) && reads_back(
                    encrypted_document,
                    encrypted_key,
                    old(self).public_key(),
                    document@,
                ),
    {
        let (encrypted_document, encrypted_key) =
            match self.encryptor_decryptor.generate_document_key_and_encrypt_document(document) {
            Ok(encrypted) => encrypted,
            Err(_) => {
                return Err(VaultError::CryptographyError);
            },
        };
        let result = server.new_document(&self.token, &encrypted_document, &encrypted_key);
        proof {
            assert(reads_back(
                encrypted_document@,
                encrypted_key@,
                self.public_key(),
                document@,
            ));
            assert((*old(server)).answers_new_document(
                *server,
                self.token(),
                encrypted_document@,
                encrypted_key@,
                result,
            ));
        }
        result
    }

    /// The names of the organization's documents: the server is asked for
    /// the listing, and its answer is read as `names_read` says.
    pub fn list_document_names<A: ServerConnection>(&mut self, server: &mut A) -> (result: Result<
        Vec<String>,
        VaultError,
    >)
        requires
            old(server).wf(),
        ensures
            final(server).wf(),
            *final(self) == *old(self),
            exists|answer: Result<Vec<ListedDocument>, VaultError>| #[trigger]
                (*old(server)).answers_list_documents(*final(server), old(self).token(), answer)
                    && names_read(
                    answer,
                    old(self).public_key(),
                    old(self).secret_key(),
                    result,
                ),
    {
        let answer = server.list_documents(&self.token);
        let ghost witness = answer;
        let result = match answer {
            Ok(listing) => self.decrypt_document_names(&listing),
            Err(error) => Err(error),
        };
        proof {
            assert(names_read(witness, self.public_key(), self.secret_key(), result));
            assert((*old(server)).answers_list_documents(*server, self.token(), witness));
        }
        result
    }

    /// The names that the session reads from a listing, in its order. Fails
    /// with `CryptographyError` exactly when one of them cannot be read.
    pub fn decrypt_document_names(&self, encrypted_document_names: &Vec<ListedDocument>) -> (result:
        Result<Vec<String>, VaultError>)
        ensures
            names_listed(
                listing_view(encrypted_document_names@),
                self.public_key(),
                self.secret_key(),
                result,
            ),
    {
        let ghost listing = listing_view(encrypted_document_names@);
        let mut names: Vec<String> = Vec::new();
        let mut i: usize = 0;
        while i < encrypted_document_names.len()
            invariant
                i <= encrypted_document_names@.len(),
                listing == listing_view(encrypted_document_names@),
                names@.len() == i,
                forall|k: int|
                    0 <= k < i ==> document_name_decrypted(
                        listing[k].1.data,
                        listing[k].1.key,
                        self.public_key(),
                        self.secret_key(),
                    ) == Some((#[trigger] names@[k])@),
            decreases encrypted_document_names@.len() - i,
        {
            let entry = &encrypted_document_names[i];
            match self.encryptor_decryptor.decrypt_document_name(&entry.1.data, &entry.1.key) {
                Ok(name) => {
                    names.push(name);
                },
                Err(_) => {
                    assert(document_name_decrypted(
                        listing[i as int].1.data,
                        listing[i as int].1.key,
                        self.public_key(),
                        self.secret_key(),
                    ).is_none());
                    return Err(VaultError::CryptographyError);
                },
            }
            i = i + 1;
        }
        proof {
            let expected = names_decrypted(listing, self.public_key(), self.secret_key());
            assert forall|k: int| 0 <= k < listing.len() implies (#[trigger] document_name_decrypted(
                listing[k].1.data,
                listing[k].1.key,
                self.public_key(),
                self.secret_key(),
            )).is_some() by {
                assert(names@[k]@ == names@[k]@);
            }
            assert(names_view(names@) =~= expected.unwrap());
        }
        Ok(names)
    }

    /// The id of the document of that name, as `finds` says.
    pub fn get_id_of_document_by_name<A: ServerConnection>(
        &mut self,
        server: &mut A,
        document_name: &str,
    ) -> (result: Result<DocumentID, VaultError>)
        requires
            old(server).wf(),
        ensures
            final(server).wf(),
            *final(self) == *old(self),
            old(self).finds(*old(server), *final(server), document_name@, result),
    {
        let answer = server.list_documents(&self.token);
        let ghost witness = answer;
        let result = match answer {
            Ok(document_list) => match self.encryptor_decryptor.find_document_id_from_name(
                &document_list,
                document_name,
            ) {
                Some(document_id) => Ok(document_id),
                None => Err(VaultError::DocumentNotFound),
            },
            Err(error) => Err(error),
        };
        proof {
            assert(id_read(
                witness,
                document_name@,
                self.public_key(),
                self.secret_key(),
                result,
            ));
            assert((*old(server)).answers_list_documents(*server, self.token(), witness));
        }
        result
    }

    /// Fetches the payload and the key of a document, and decrypts it, as
    /// `fetches` says.
    pub fn download_by_id<A: ServerConnection>(&mut self, server: &mut A, document_id: &DocumentID) -> (result:
        Result<Document, VaultError>)
        requires
            old(server).wf(),
        ensures
            final(server).wf(),
            *final(self) == *old(self),
            old(self).fetches(*old(server), *final(server), document_id@, result),
    {
        let ghost before = *server;
        let payload = server.get_document(&self.token, document_id);
        let ghost payload_witness = payload;
        let ghost then = *server;
        let encrypted_document = match payload {
            Ok(document) => document,
            Err(error) => {
                let result = Err(error);
                proof {
                    assert(before.answers_get_document(
                        then,
                        self.token(),
                        document_id@,
                        payload_witness,
                    ));
                }
                return result;
            },
        };
        let key = server.get_document_key(&self.token, document_id);
        let ghost key_witness = key;
        let result = match key {
            Ok(document_key) => self.encryptor_decryptor.decrypt_document(
                &encrypted_document,
                &document_key,
            ),
            Err(error) => Err(error),
        };
        proof {
            assert(then.answers_get_document_key(
                *server,
                self.token(),
                document_id@,
                key_witness,
            ));
            assert(before.answers_get_document(
                then,
                self.token(),
                document_id@,
                payload_witness,
            ));
        }
        result
    }

    /// Fetches the document of that name and its key, and decrypts it, as
    /// `downloads` says.
    pub fn download<A: ServerConnection>(&mut self, server: &mut A, document_name: &str) -> (result:
        Result<Document, VaultError>)
        requires
            old(server).wf(),
        ensures
            final(server).wf(),
            *final(self) == *old(self),
            old(self).downloads(*old(server), *final(server), document_name@, result),
    {
        let ghost before = *server;
        let found = self.get_id_of_document_by_name(server, document_name);
        let ghost found_witness = found;
        let ghost then = *server;
        let result = match found {
            Ok(document_id) => self.download_by_id(server, &document_id),
            Err(error) => Err(error),
        };
        proof {
            assert(self.finds(before, then, document_name@, found_witness));
        }
        result
    }

    /// Replaces the payload of a document by a new document, encrypted under
    /// the same document key, as `replaces` says.
    pub fn update_by_id<A: ServerConnection>(
        &mut self,
        server: &mut A,
        document_id: &DocumentID,
        new_document: &Document,
    ) -> (result: Result<(), VaultError>)
        requires
            old(server).wf(),
        ensures
            final(server).wf(),
            *final(self) == *old(self),
            old(self).replaces(*old(server), *final(server), document_id@, new_document@, result),
    {
        let ghost before = *server;
        let key = server.get_document_key(&self.token, document_id);
        let ghost key_witness = key;
        let ghost then = *server;
        let document_key = match key {
            Ok(document_key) => document_key,
            Err(error) => {
                let result = Err(error);
                proof {
                    assert(before.answers_get_document_key(
                        then,
                        self.token(),
                        document_id@,
                        key_witness,
                    ));
                }
                return result;
            },
        };
        let new_document_encrypted = match self.encryptor_decryptor.encrypt_document_with_key(
            new_document,
            &document_key,
        ) {
            Ok(encrypted) => encrypted,
            Err(_) => {
                proof {
                    assert(before.answers_get_document_key(
                        then,
                        self.token(),
                        document_id@,
                        key_witness,
                    ));
                }
                return Err(VaultError::CryptographyError);
            },
        };
        let result = server.update_document(&self.token, document_id, &new_document_encrypted);
        proof {
            assert(then.answers_update_document(
                *server,
                self.token(),
                document_id@,
                new_document_encrypted@,
                result,
            ));
            assert(before.answers_get_document_key(
                then,
                self.token(),
                document_id@,
                key_witness,
            ));
        }
        result
    }

    /// Replaces the document of that name by a new one, encrypted under the
    /// same document key, so that every owner reads the new document, as
    /// `updates` says.
    pub fn update<A: ServerConnection>(
        &mut self,
        server: &mut A,
        document_name: &str,
        new_document: &Document,
    ) -> (result: Result<(), VaultError>)
        requires
            old(server).wf(),
        ensures
            final(server).wf(),
            *final(self) == *old(self),
            old(self).updates(
                *old(server),
                *final(server),
                document_name@,
                new_document@,
                result,
            ),
    {
        let ghost before = *server;
        let found = self.get_id_of_document_by_name(server, document_name);
        let ghost found_witness = found;
        let ghost then = *server;
        let result = match found {
            Ok(document_id) => self.update_by_id(server, &document_id, new_document),
            Err(error) => Err(error),
        };
        proof {
            assert(self.finds(before, then, document_name@, found_witness));
        }
        result
    }

    /// Shares a document with another organization: its key is sealed again
    /// for the public key of the other organization and handed to the
    /// server, as `shares_by_id` says.
    pub fn share_by_id<A: ServerConnection>(
        &mut self,
        server: &mut A,
        document_id: &DocumentID,
        other_organization_name: &str,
    ) -> (result: Result<(), VaultError>)
        requires
            old(server).wf(),
        ensures
            final(server).wf(),
            *final(self) == *old(self),
            old(self).shares_by_id(
                *old(server),
                *final(server),
                document_id@,
                other_organization_name@,
                result,
            ),
    {
        let ghost before = *server;
        let key = server.get_document_key(&self.token, document_id);
        let ghost key_witness = key;
        let ghost then = *server;
        let encrypted_document_key = match key {
            Ok(document_key) => document_key,
            Err(error) => {
                let result = Err(error);
                proof {
                    assert(before.answers_get_document_key(
                        then,
                        self.token(),
                        document_id@,
                        key_witness,
                    ));
                }
                return result;
            },
        };
        let other = server.get_public_key_of_organization(other_organization_name);
        let ghost other_witness = other;
        let ghost next = *server;
        let other_organization_public_key = match other {
            Ok(public_key) => public_key,
            Err(error) => {
                let result = Err(error);
                proof {
                    assert(then.answers_get_public_key_of_organization(
                        next,
                        other_organization_name@,
                        other_witness,
                    ));
                    assert(self.hands_on(
                        then,
                        next,
                        document_id@,
                        encrypted_document_key@,
                        other_organization_name@,
                        result,
                    ));
                    assert(before.answers_get_document_key(
                        then,
                        self.token(),
                        document_id@,
                        key_witness,
                    ));
                }
                return result;
            },
        };
        let new_encrypted_document_key =
            match self.encryptor_decryptor.encrypt_document_key_for_other_organization(
            &encrypted_document_key,
            &other_organization_public_key,
        ) {
            Ok(key) => key,
            Err(_) => {
                let result = Err(VaultError::CryptographyError);
                proof {
                    assert(then.answers_get_public_key_of_organization(
                        next,
                        other_organization_name@,
                        other_witness,
                    ));
                    assert(self.hands_on(
                        then,
                        next,
                        document_id@,
                        encrypted_document_key@,
                        other_organization_name@,
                        result,
                    ));
                    assert(before.answers_get_document_key(
                        then,
                        self.token(),
                        document_id@,
                        key_witness,
                    ));
                }
                return result;
            },
        };
        let result = server.add_owner(
            &self.token,
            document_id,
            other_organization_name,
            &new_encrypted_document_key,
        );
        proof {
            assert(seals_the_same_key(
                new_encrypted_document_key@,
                other_organization_public_key@,
                encrypted_document_key@,
                self.public_key(),
                self.secret_key(),
            ));
            assert(next.answers_add_owner(
                *server,
                self.token(),
                document_id@,
                other_organization_name@,
                new_encrypted_document_key@,
                result,
            ));
            assert(then.answers_get_public_key_of_organization(
                next,
                other_organization_name@,
                other_witness,
            ));
            assert(self.hands_on(
                then,
                *server,
                document_id@,
                encrypted_document_key@,
                other_organization_name@,
                result,
            ));
            assert(before.answers_get_document_key(
                then,
                self.token(),
                document_id@,
                key_witness,
            ));
        }
        result
    }

    /// Shares the document of that name with another organization, as
    /// `shares` says.
    pub fn share<A: ServerConnection>(
        &mut self,
        server: &mut A,
        document_name: &str,
        other_organization_name: &str,
    ) -> (result: Result<(), VaultError>)
        requires
            old(server).wf(),
        ensures
            final(server).wf(),
            *final(self) == *old(self),
            old(self).shares(
                *old(server),
                *final(server),
                document_name@,
                other_organization_name@,
                result,
            ),
    {
        let ghost before = *server;
        let found = self.get_id_of_document_by_name(server, document_name);
        let ghost found_witness = found;
        let ghost then = *server;
        let result = match found {
            Ok(document_id) => self.share_by_id(server, &document_id, other_organization_name),
            Err(error) => Err(error),
        };
        proof {
            assert(self.finds(before, then, document_name@, found_witness));
        }
        result
    }

    /// Takes the document of that name away from the organization; other
    /// owners keep it. The requests are as `deletes` says.
    pub fn delete<A: ServerConnection>(&mut self, server: &mut A, document_name: &str) -> (result:
        Result<(), VaultError>)
        requires
            old(server).wf(),
        ensures
            final(server).wf(),
            *final(self) == *old(self),
            old(self).deletes(*old(server), *final(server), document_name@, result),
    {
        let ghost before = *server;
        let found = self.get_id_of_document_by_name(server, document_name);
        let ghost found_witness = found;
        let ghost then = *server;
        let result = match found {
            Ok(document_id) => server.delete_document(&self.token, &document_id),
            Err(error) => Err(error),
        };
        proof {
            assert(self.finds(before, then, document_name@, found_witness));
        }
        result
    }
}

} // verus!
