//! API that the server provides to the client.

use vstd::prelude::*;
use crate::data::{
    user_records, ArgonConfig, DocumentID, EncryptedDocument, EncryptedDocumentKey,
    EncryptedDocumentNameAndKey, EncryptedDocumentView, EncryptedToken, PublicKey, Token,
    UserRecordView, UserShare,
};
use crate::error::VaultError;

verus! {

/// What `unlock_vault` answers: the shares of the two users, the hash
/// parameters and public key of the organization, and a fresh session token
/// sealed to that public key.
pub type UnlockResponse = (UserShare, UserShare, ArgonConfig, PublicKey, EncryptedToken);

/// One listed document: its id, its encrypted name and the key of the
/// listing organization.
pub type ListedDocument = (DocumentID, EncryptedDocumentNameAndKey);

/// The endpoints of the vault server, one method for each. The client logic
/// runs unchanged against any carrier that implements them.
///
/// For each endpoint a carrier may say, in the specification function beside
/// it, how a request turns the carrier before the call into the carrier after
/// it and what is answered. A carrier that says nothing promises nothing: the
/// client is verified for whatever comes back.
pub trait ServerConnection: Sized {
    /// What the carrier needs to hold of itself between calls; nothing, for a
    /// carrier that does not say otherwise.
    open spec fn wf(&self) -> bool {
        true
    }

    /// What the carrier says of `create_organization`.
    open spec fn answers_create_organization(
        self,
        after: Self,
        organization_name: Seq<char>,
        users: Seq<UserRecordView>,
        public_key: Seq<u8>,
        argon_config: ArgonConfig,
        answer: Result<(), VaultError>,
    ) -> bool {
        true
    }

    /// What the carrier says of `unlock_vault`.
    open spec fn answers_unlock_vault(
        self,
        after: Self,
        organization_name: Seq<char>,
        user_name1: Seq<char>,
        user_name2: Seq<char>,
        answer: Result<UnlockResponse, VaultError>,
    ) -> bool {
        true
    }

    /// What the carrier says of `revoke_user`.
    open spec fn answers_revoke_user(
        self,
        after: Self,
        token: Seq<u8>,
        user_name: Seq<char>,
        answer: Result<(), VaultError>,
    ) -> bool {
        true
    }

    /// What the carrier says of `revoke_token`.
    open spec fn answers_revoke_token(
        self,
        after: Self,
        token: Seq<u8>,
        answer: Result<(), VaultError>,
    ) -> bool {
        true
    }

    /// What the carrier says of `new_document`.
    open spec fn answers_new_document(
        self,
        after: Self,
        token: Seq<u8>,
        encrypted_document: EncryptedDocumentView,
        encrypted_key: Seq<u8>,
        answer: Result<(), VaultError>,
    ) -> bool {
        true
    }

    /// What the carrier says of `list_documents`.
    open spec fn answers_list_documents(
        self,
        after: Self,
        token: Seq<u8>,
        answer: Result<Vec<ListedDocument>, VaultError>,
    ) -> bool {
        true
    }

    /// What the carrier says of `get_document_key`.
    open spec fn answers_get_document_key(
        self,
        after: Self,
        token: Seq<u8>,
        document_id: Seq<u8>,
        answer: Result<EncryptedDocumentKey, VaultError>,
    ) -> bool {
        true
    }

    /// What the carrier says of `get_document`.
    open spec fn answers_get_document(
        self,
        after: Self,
        token: Seq<u8>,
        document_id: Seq<u8>,
        answer: Result<EncryptedDocument, VaultError>,
    ) -> bool {
        true
    }

    /// What the carrier says of `update_document`.
    open spec fn answers_update_document(
        self,
        after: Self,
        token: Seq<u8>,
        document_id: Seq<u8>,
        encrypted_document: EncryptedDocumentView,
        answer: Result<(), VaultError>,
    ) -> bool {
        true
    }

    /// What the carrier says of `delete_document`.
    open spec fn answers_delete_document(
        self,
        after: Self,
        token: Seq<u8>,
        document_id: Seq<u8>,
        answer: Result<(), VaultError>,
    ) -> bool {
        true
    }

    /// What the carrier says of `get_public_key_of_organization`.
    open spec fn answers_get_public_key_of_organization(
        self,
        after: Self,
        organization_name: Seq<char>,
        answer: Result<PublicKey, VaultError>,
    ) -> bool {
        true
    }

    /// What the carrier says of `add_owner`.
    open spec fn answers_add_owner(
        self,
        after: Self,
        token: Seq<u8>,
        document_id: Seq<u8>,
        other_organization_name: Seq<char>,
        encrypted_document_key: Seq<u8>,
        answer: Result<(), VaultError>,
    ) -> bool {
        true
    }

    fn create_organization(
        &mut self,
        organization_name: &str,
        users_data: &Vec<(String, UserShare)>,
        public_key: &PublicKey,
        argon2_config: &ArgonConfig,
    ) -> (result: Result<(), VaultError>)
        requires
            old(self).wf(),
        ensures
            final(self).wf(),
            (*old(self)).answers_create_organization(
                *final(self),
                organization_name@,
                user_records(users_data@),
                public_key@,
                *argon2_config,
                result,
            ),
    ;

    fn unlock_vault(&mut self, organization_name: &str, user_name1: &str, user_name2: &str) -> (result:
        Result<UnlockResponse, VaultError>)
        requires
            old(self).wf(),
        ensures
            final(self).wf(),
            (*old(self)).answers_unlock_vault(
                *final(self),
                organization_name@,
                user_name1@,
                user_name2@,
                result,
            ),
    ;

    fn revoke_user(&mut self, token: &Token, user_name: &str) -> (result: Result<(), VaultError>)
        requires
            old(self).wf(),
        ensures
            final(self).wf(),
            (*old(self)).answers_revoke_user(*final(self), token@, user_name@, result),
    ;

    fn revoke_token(&mut self, token: &Token) -> (result: Result<(), VaultError>)
        requires
            old(self).wf(),
        ensures
            final(self).wf(),
            (*old(self)).answers_revoke_token(*final(self), token@, result),
    ;

    fn new_document(
        &mut self,
        token: &Token,
        encrypted_document: &EncryptedDocument,
        encrypted_key: &EncryptedDocumentKey,
    ) -> (result: Result<(), VaultError>)
        requires
            old(self).wf(),
        ensures
            final(self).wf(),
            (*old(self)).answers_new_document(
                *final(self),
                token@,
                encrypted_document@,
                encrypted_key@,
                result,
            ),
    ;

    fn list_documents(&mut self, token: &Token) -> (result: Result<
        Vec<ListedDocument>,
        VaultError,
    >)
        requires
            old(self).wf(),
        ensures
            final(self).wf(),
            (*old(self)).answers_list_documents(*final(self), token@, result),
    ;

    fn get_document_key(&mut self, token: &Token, document_id: &DocumentID) -> (result: Result<
        EncryptedDocumentKey,
        VaultError,
    >)
        requires
            old(self).wf(),
        ensures
            final(self).wf(),
            (*old(self)).answers_get_document_key(*final(self), token@, document_id@, result),
    ;

    fn get_document(&mut self, token: &Token, document_id: &DocumentID) -> (result: Result<
        EncryptedDocument,
        VaultError,
    >)
        requires
            old(self).wf(),
        ensures
            final(self).wf(),
            (*old(self)).answers_get_document(*final(self), token@, document_id@, result),
    ;

    fn update_document(
        &mut self,
        token: &Token,
        document_id: &DocumentID,
        encrypted_document: &EncryptedDocument,
    ) -> (result: Result<(), VaultError>)
        requires
            old(self).wf(),
        ensures
            final(self).wf(),
            (*old(self)).answers_update_document(
                *final(self),
                token@,
                document_id@,
                encrypted_document@,
                result,
            ),
    ;

    fn delete_document(&mut self, token: &Token, document_id: &DocumentID) -> (result: Result<
        (),
        VaultError,
    >)
        requires
            old(self).wf(),
        ensures
            final(self).wf(),
            (*old(self)).answers_delete_document(*final(self), token@, document_id@, result),
    ;

    fn get_public_key_of_organization(&mut self, organization_name: &str) -> (result: Result<
        PublicKey,
        VaultError,
    >)
        requires
            old(self).wf(),
        ensures
            final(self).wf(),
            (*old(self)).answers_get_public_key_of_organization(
                *final(self),
                organization_name@,
                result,
            ),
    ;

    fn add_owner(
        &mut self,
        token: &Token,
        document_id: &DocumentID,
        other_organization_name: &str,
        encrypted_document_key: &EncryptedDocumentKey,
    ) -> (result: Result<(), VaultError>)
        requires
            old(self).wf(),
        ensures
            final(self).wf(),
            (*old(self)).answers_add_owner(
                *final(self),
                token@,
                document_id@,
                other_organization_name@,
                encrypted_document_key@,
                result,
            ),
    ;
}

} // verus!
