//! The object store: what the server keeps of organizations and documents.
//!
//! An organization owns a document exactly when the store holds a document
//! key for it under that organization. Documents are stored once, whoever
//! owns them.

use vstd::prelude::*;
use crate::bytes::{copy_bytes, same_bytes, same_text};
use crate::data::{
    user_records, ArgonConfig, DocumentID, EncryptedDocument, EncryptedDocumentKey,
    EncryptedDocumentNameAndKey, EncryptedDocumentNameAndKeyView, EncryptedDocumentView,
    PublicKey, UserRecordView, UserShare, UserShareView, DOCUMENT_ID_LENGTH_BYTES,
};
use crate::error::VaultError;
use crate::validation::is_standard_name;

verus! {

/// A member of an organization, as stored.
pub struct UserRecord {
    pub name: String,
    pub share: UserShare,
}

impl View for UserRecord {
    type V = UserRecordView;

    open spec fn view(&self) -> UserRecordView {
        UserRecordView { name: self.name@, share: self.share@ }
    }
}

/// The key of one document for one organization, as stored.
pub struct DocumentKeyRecord {
    pub document_id: DocumentID,
    pub key: EncryptedDocumentKey,
}

/// What a `DocumentKeyRecord` holds.
pub struct DocumentKeyRecordView {
    pub document_id: Seq<u8>,
    pub key: Seq<u8>,
}

impl View for DocumentKeyRecord {
    type V = DocumentKeyRecordView;

    open spec fn view(&self) -> DocumentKeyRecordView {
        DocumentKeyRecordView { document_id: self.document_id@, key: self.key@ }
    }
}

/// An organization, as stored.
pub struct OrganizationRecord {
    pub name: String,
    pub public_key: PublicKey,
    pub argon_config: ArgonConfig,
    pub users: Vec<UserRecord>,
    pub document_keys: Vec<DocumentKeyRecord>,
}

/// What an `OrganizationRecord` holds.
pub struct OrganizationView {
    pub name: Seq<char>,
    pub public_key: Seq<u8>,
    pub argon_config: ArgonConfig,
    pub users: Seq<UserRecordView>,
    pub document_keys: Seq<DocumentKeyRecordView>,
}

impl View for OrganizationRecord {
    type V = OrganizationView;

    open spec fn view(&self) -> OrganizationView {
        OrganizationView {
            name: self.name@,
            public_key: self.public_key@,
            argon_config: self.argon_config,
            users: Seq::new(self.users@.len(), |i: int| self.users@[i]@),
            document_keys: Seq::new(self.document_keys@.len(), |i: int| self.document_keys@[i]@),
        }
    }
}

/// A document, as stored.
pub struct DocumentRecord {
    pub document_id: DocumentID,
    pub document: EncryptedDocument,
}

/// What a `DocumentRecord` holds.
pub struct DocumentRecordView {
    pub document_id: Seq<u8>,
    pub document: EncryptedDocumentView,
}

impl View for DocumentRecord {
    type V = DocumentRecordView;

    open spec fn view(&self) -> DocumentRecordView {
        DocumentRecordView { document_id: self.document_id@, document: self.document@ }
    }
}

impl OrganizationView {
    /// Whether a user of that name is a member.
    pub open spec fn has_user(self, user_name: Seq<char>) -> bool {
        exists|i: int| 0 <= i < self.users.len() && (#[trigger] self.users[i]).name == user_name
    }

    /// Where the member of that name stands among the users.
    pub open spec fn user_position(self, user_name: Seq<char>) -> int {
        choose|i: int| 0 <= i < self.users.len() && (#[trigger] self.users[i]).name == user_name
    }

    /// Whether the organization holds a key for that document.
    pub open spec fn has_document_key(self, document_id: Seq<u8>) -> bool {
        exists|i: int|
            0 <= i < self.document_keys.len() && (#[trigger] self.document_keys[i]).document_id
                == document_id
    }

    /// Where the key for that document stands among the organization's keys.
    pub open spec fn document_key_position(self, document_id: Seq<u8>) -> int {
        choose|i: int|
            0 <= i < self.document_keys.len() && (#[trigger] self.document_keys[i]).document_id
                == document_id
    }

    /// Names are standard, no user and no document occurs twice, and there
    /// are at least two users.
    pub open spec fn wf(self) -> bool {
        &&& is_standard_name(self.name)
        &&& self.public_key.len() == 32
        &&& self.users.len() >= 2
        &&& forall|i: int|
            0 <= i < self.users.len() ==> is_standard_name((#[trigger] self.users[i]).name)
        &&& forall|i: int, j: int|
            0 <= i < j < self.users.len() ==> (#[trigger] self.users[i]).name != (
            #[trigger] self.users[j]).name
        &&& forall|i: int|
            0 <= i < self.document_keys.len() ==> (#[trigger] self.document_keys[i]).document_id.len()
                == DOCUMENT_ID_LENGTH_BYTES
        &&& forall|i: int, j: int|
            0 <= i < j < self.document_keys.len() ==> (
            #[trigger] self.document_keys[i]).document_id != (
            #[trigger] self.document_keys[j]).document_id
    }

    /// In a well-formed organization the user found at a position is the
    /// user of that name.
    proof fn lemma_user_found(self, position: int)
        requires
            self.wf(),
            0 <= position < self.users.len(),
        ensures
            self.has_user(self.users[position].name),
            self.user_position(self.users[position].name) == position,
    {
        let name = self.users[position].name;
        let p = self.user_position(name);
        assert(self.users[p].name == name);
        if p < position {
            assert(self.users[p].name != self.users[position].name);
        } else if position < p {
            assert(self.users[position].name != self.users[p].name);
        }
    }

    /// In a well-formed organization the key found at a position is the key
    /// for that document.
    proof fn lemma_document_key_found(self, position: int)
        requires
            self.wf(),
            0 <= position < self.document_keys.len(),
        ensures
            self.has_document_key(self.document_keys[position].document_id),
            self.document_key_position(self.document_keys[position].document_id) == position,
    {
        let id = self.document_keys[position].document_id;
        let p = self.document_key_position(id);
        assert(self.document_keys[p].document_id == id);
        if p < position {
            assert(self.document_keys[p].document_id != self.document_keys[position].document_id);
        } else if position < p {
            assert(self.document_keys[position].document_id != self.document_keys[p].document_id);
        }
    }

    /// An organization of more than two users stays well formed without one
    /// of them.
    proof fn lemma_user_removed(self, position: int)
        requires
            self.wf(),
            self.users.len() > 2,
            0 <= position < self.users.len(),
        ensures
            self.without_user_at(position).wf(),
    {
        let rest = self.without_user_at(position);
        assert forall|i: int| 0 <= i < rest.users.len() implies is_standard_name(
            (#[trigger] rest.users[i]).name,
        ) by {
            let i0 = if i < position { i } else { i + 1 };
            assert(rest.users[i] == self.users[i0]);
        }
        assert forall|i: int, j: int| 0 <= i < j < rest.users.len() implies (
        #[trigger] rest.users[i]).name != (#[trigger] rest.users[j]).name by {
            let i0 = if i < position { i } else { i + 1 };
            let j0 = if j < position { j } else { j + 1 };
            assert(rest.users[i] == self.users[i0]);
            assert(rest.users[j] == self.users[j0]);
        }
    }

    /// An organization stays well formed without one of its document keys,
    /// and every key it keeps is one it had.
    proof fn lemma_document_key_removed(self, position: int)
        requires
            self.wf(),
            0 <= position < self.document_keys.len(),
        ensures
            self.without_document_key_at(position).wf(),
            !self.without_document_key_at(position).has_document_key(
                self.document_keys[position].document_id,
            ),
            forall|n: int|
                0 <= n < self.without_document_key_at(position).document_keys.len()
                    ==> self.has_document_key(
                    (#[trigger] self.without_document_key_at(
                        position,
                    ).document_keys[n]).document_id,
                ),
    {
        let rest = self.without_document_key_at(position);
        assert forall|i: int| 0 <= i < rest.document_keys.len() implies (
        #[trigger] rest.document_keys[i]).document_id.len() == DOCUMENT_ID_LENGTH_BYTES by {
            let i0 = if i < position { i } else { i + 1 };
            assert(rest.document_keys[i] == self.document_keys[i0]);
        }
        assert forall|i: int, j: int| 0 <= i < j < rest.document_keys.len() implies (
        #[trigger] rest.document_keys[i]).document_id != (
        #[trigger] rest.document_keys[j]).document_id by {
            let i0 = if i < position { i } else { i + 1 };
            let j0 = if j < position { j } else { j + 1 };
            assert(rest.document_keys[i] == self.document_keys[i0]);
            assert(rest.document_keys[j] == self.document_keys[j0]);
        }
        assert forall|n: int| 0 <= n < rest.document_keys.len() implies self.has_document_key(
            (#[trigger] rest.document_keys[n]).document_id,
        ) by {
            let n0 = if n < position { n } else { n + 1 };
            assert(rest.document_keys[n] == self.document_keys[n0]);
        }
        if rest.has_document_key(self.document_keys[position].document_id) {
            let q = rest.document_key_position(self.document_keys[position].document_id);
            let q0 = if q < position { q } else { q + 1 };
            assert(rest.document_keys[q] == self.document_keys[q0]);
            if q0 < position {
                assert(self.document_keys[q0].document_id != self.document_keys[position].document_id);
            } else {
                assert(self.document_keys[position].document_id != self.document_keys[q0].document_id);
            }
        }
    }

    /// The organization with one more document key, after those it has.
    pub open spec fn with_document_key(self, document_id: Seq<u8>, key: Seq<u8>) -> Self {
        OrganizationView {
            document_keys: self.document_keys.push(DocumentKeyRecordView { document_id, key }),
            ..self
        }
    }

    /// The organization without the key at that position.
    pub open spec fn without_document_key_at(self, position: int) -> Self {
        OrganizationView { document_keys: self.document_keys.remove(position), ..self }
    }

    /// The organization without the user at that position.
    pub open spec fn without_user_at(self, position: int) -> Self {
        OrganizationView { users: self.users.remove(position), ..self }
    }
}

/// What an `ObjectStore` holds.
pub struct StoreView {
    pub organizations: Seq<OrganizationView>,
    pub documents: Seq<DocumentRecordView>,
}

impl StoreView {
    /// Whether an organization of that name exists.
    pub open spec fn has_organization(self, name: Seq<char>) -> bool {
        exists|i: int|
            0 <= i < self.organizations.len() && (#[trigger] self.organizations[i]).name == name
    }

    /// Where the organization of that name stands among the organizations.
    pub open spec fn organization_position(self, name: Seq<char>) -> int {
        choose|i: int|
            0 <= i < self.organizations.len() && (#[trigger] self.organizations[i]).name == name
    }

    /// The organization of that name.
    pub open spec fn organization(self, name: Seq<char>) -> OrganizationView {
        self.organizations[self.organization_position(name)]
    }

    /// Whether the payload of that document is stored.
    pub open spec fn has_document(self, document_id: Seq<u8>) -> bool {
        exists|i: int|
            0 <= i < self.documents.len() && (#[trigger] self.documents[i]).document_id
                == document_id
    }

    /// Where the payload of that document stands among the documents.
    pub open spec fn document_position(self, document_id: Seq<u8>) -> int {
        choose|i: int|
            0 <= i < self.documents.len() && (#[trigger] self.documents[i]).document_id
                == document_id
    }

    /// The stored payload of that document.
    pub open spec fn document(self, document_id: Seq<u8>) -> EncryptedDocumentView {
        self.documents[self.document_position(document_id)].document
    }

    /// An organization owns a document when it exists and holds a key for
    /// the document.
    pub open spec fn owns(self, organization_name: Seq<char>, document_id: Seq<u8>) -> bool {
        self.has_organization(organization_name) && self.organization(
            organization_name,
        ).has_document_key(document_id)
    }

    /// The key that an owning organization holds for a document.
    pub open spec fn document_key(self, organization_name: Seq<char>, document_id: Seq<u8>) -> Seq<
        u8,
    > {
        let organization = self.organization(organization_name);
        organization.document_keys[organization.document_key_position(document_id)].key
    }

    /// Every organization is well formed, no organization and no document
    /// occurs twice, document ids have 32 bytes, and every document that an
    /// organization holds a key for is stored.
    pub open spec fn wf(self) -> bool {
        &&& forall|i: int|
            0 <= i < self.organizations.len() ==> (#[trigger] self.organizations[i]).wf()
        &&& forall|i: int, j: int|
            0 <= i < j < self.organizations.len() ==> (#[trigger] self.organizations[i]).name != (
            #[trigger] self.organizations[j]).name
        &&& forall|i: int|
            0 <= i < self.documents.len() ==> (#[trigger] self.documents[i]).document_id.len()
                == DOCUMENT_ID_LENGTH_BYTES
        &&& forall|i: int, j: int|
            0 <= i < j < self.documents.len() ==> (#[trigger] self.documents[i]).document_id != (
            #[trigger] self.documents[j]).document_id
        &&& forall|i: int, k: int|
            0 <= i < self.organizations.len() && 0 <= k < self.organizations[i].document_keys.len()
                ==> self.has_document(
                (#[trigger] self.organizations[i].document_keys[k]).document_id,
            )
    }

    /// How a request to share a document ends: refused with `ServerError`
    /// when the organization does not own it or the other organization does
    /// not exist, with `FileError` when the other organization already holds
    /// a key for it, and granted otherwise.
    pub open spec fn add_owner_outcome(
        self,
        organization_name: Seq<char>,
        document_id: Seq<u8>,
        other_organization_name: Seq<char>,
    ) -> Result<(), VaultError> {
        if !self.owns(organization_name, document_id) {
            Err(VaultError::ServerError)
        } else if !self.has_organization(other_organization_name) {
            Err(VaultError::ServerError)
        } else if self.owns(other_organization_name, document_id) {
            Err(VaultError::FileError)
        } else {
            Ok(())
        }
    }

    /// In a well-formed store the organization found at a position is the
    /// organization of its name.
    proof fn lemma_organization_found(self, position: int)
        requires
            self.wf(),
            0 <= position < self.organizations.len(),
        ensures
            self.has_organization(self.organizations[position].name),
            self.organization_position(self.organizations[position].name) == position,
            self.organization(self.organizations[position].name) == self.organizations[position],
    {
        let name = self.organizations[position].name;
        let p = self.organization_position(name);
        assert(self.organizations[p].name == name);
        if p < position {
            assert(self.organizations[p].name != self.organizations[position].name);
        } else if position < p {
            assert(self.organizations[position].name != self.organizations[p].name);
        }
    }

    /// Giving an organization a key for a document that is stored, and for
    /// which it has none, keeps the store well formed.
    proof fn lemma_key_added(self, position: int, owner: int, document_id: Seq<u8>, key: Seq<u8>)
        requires
            self.wf(),
            0 <= position < self.organizations.len(),
            0 <= owner < self.organizations.len(),
            self.organizations[owner].has_document_key(document_id),
            !self.organizations[position].has_document_key(document_id),
        ensures
            self.with_organization_at(
                position,
                self.organizations[position].with_document_key(document_id, key),
            ).wf(),
    {
        let grown = self.organizations[position].with_document_key(document_id, key);
        let after = self.with_organization_at(position, grown);
        let k = self.organizations[owner].document_key_position(document_id);
        assert(self.has_document(self.organizations[owner].document_keys[k].document_id));
        assert(self.organizations[owner].document_keys[k].document_id.len()
            == DOCUMENT_ID_LENGTH_BYTES);
        let last = grown.document_keys.len() - 1;
        assert forall|i: int, j: int| 0 <= i < j < grown.document_keys.len() implies (
        #[trigger] grown.document_keys[i]).document_id != (
        #[trigger] grown.document_keys[j]).document_id by {
            if j == last {
                assert(self.organizations[position].document_keys[i].document_id != document_id);
            } else {
                assert(grown.document_keys[i] == self.organizations[position].document_keys[i]);
                assert(grown.document_keys[j] == self.organizations[position].document_keys[j]);
            }
        }
        assert forall|i: int| 0 <= i < grown.document_keys.len() implies (
        #[trigger] grown.document_keys[i]).document_id.len() == DOCUMENT_ID_LENGTH_BYTES by {
            if i < last {
                assert(grown.document_keys[i] == self.organizations[position].document_keys[i]);
            }
        }
        assert(grown.wf());
        assert forall|i: int| 0 <= i < after.organizations.len() implies (
        #[trigger] after.organizations[i]).wf() by {
            if i != position {
                assert(after.organizations[i] == self.organizations[i]);
            }
        }
        assert forall|i: int, j: int| 0 <= i < j < after.organizations.len() implies (
        #[trigger] after.organizations[i]).name != (#[trigger] after.organizations[j]).name by {
            assert(after.organizations[i].name == self.organizations[i].name);
            assert(after.organizations[j].name == self.organizations[j].name);
        }
        assert forall|i: int, n: int|
            0 <= i < after.organizations.len() && 0 <= n
                < after.organizations[i].document_keys.len() implies after.has_document(
            (#[trigger] after.organizations[i].document_keys[n]).document_id,
        ) by {
            if i == position && n == last {
                let d = self.document_position(document_id);
                assert(after.documents[d].document_id == document_id);
            } else {
                let id = self.organizations[i].document_keys[n].document_id;
                assert(after.organizations[i].document_keys[n].document_id == id);
                assert(self.has_document(id));
                let d = self.document_position(id);
                assert(after.documents[d].document_id == id);
            }
        }
    }

    /// Adding an organization whose name is new keeps the store well formed.
    proof fn lemma_organization_added(self, organization: OrganizationView)
        requires
            self.wf(),
            organization.wf(),
            organization.document_keys.len() == 0,
            !self.has_organization(organization.name),
        ensures
            (StoreView { organizations: self.organizations.push(organization), ..self }).wf(),
    {
        let after = StoreView { organizations: self.organizations.push(organization), ..self };
        let last = after.organizations.len() - 1;
        assert forall|i: int| 0 <= i < after.organizations.len() implies (
        #[trigger] after.organizations[i]).wf() by {
            if i < last {
                assert(after.organizations[i] == self.organizations[i]);
            }
        }
        assert forall|i: int, j: int| 0 <= i < j < after.organizations.len() implies (
        #[trigger] after.organizations[i]).name != (#[trigger] after.organizations[j]).name by {
            assert(after.organizations[i] == self.organizations[i]);
            if j < last {
                assert(after.organizations[j] == self.organizations[j]);
            }
        }
        assert forall|i: int, n: int|
            0 <= i < after.organizations.len() && 0 <= n
                < after.organizations[i].document_keys.len() implies after.has_document(
            (#[trigger] after.organizations[i].document_keys[n]).document_id,
        ) by {
            assert(after.organizations[i] == self.organizations[i]);
            let id = self.organizations[i].document_keys[n].document_id;
            assert(self.has_document(id));
            let d = self.document_position(id);
            assert(after.documents[d].document_id == id);
        }
    }

    /// Replacing an organization by one that differs in its users only, or
    /// that has lost one document key, keeps the store well formed.
    proof fn lemma_organization_reduced(self, position: int, reduced: OrganizationView)
        requires
            self.wf(),
            0 <= position < self.organizations.len(),
            reduced.wf(),
            reduced.name == self.organizations[position].name,
            forall|n: int|
                0 <= n < reduced.document_keys.len() ==> self.organizations[position].has_document_key(
                    (#[trigger] reduced.document_keys[n]).document_id,
                ),
        ensures
            self.with_organization_at(position, reduced).wf(),
    {
        let after = self.with_organization_at(position, reduced);
        assert forall|i: int| 0 <= i < after.organizations.len() implies (
        #[trigger] after.organizations[i]).wf() by {
            if i != position {
                assert(after.organizations[i] == self.organizations[i]);
            }
        }
        assert forall|i: int, j: int| 0 <= i < j < after.organizations.len() implies (
        #[trigger] after.organizations[i]).name != (#[trigger] after.organizations[j]).name by {
            assert(after.organizations[i].name == self.organizations[i].name);
            assert(after.organizations[j].name == self.organizations[j].name);
        }
        assert forall|i: int, n: int|
            0 <= i < after.organizations.len() && 0 <= n
                < after.organizations[i].document_keys.len() implies after.has_document(
            (#[trigger] after.organizations[i].document_keys[n]).document_id,
        ) by {
            let id = after.organizations[i].document_keys[n].document_id;
            if i == position {
                assert(self.organizations[position].has_document_key(id));
                let k = self.organizations[position].document_key_position(id);
                assert(self.has_document(self.organizations[position].document_keys[k].document_id));
            } else {
                assert(after.organizations[i] == self.organizations[i]);
                assert(self.has_document(self.organizations[i].document_keys[n].document_id));
            }
            let d = self.document_position(id);
            assert(after.documents[d].document_id == id);
        }
    }

    /// Storing a new document with its first key keeps the store well
    /// formed.
    proof fn lemma_document_added(
        self,
        position: int,
        document_id: Seq<u8>,
        document: EncryptedDocumentView,
        key: Seq<u8>,
    )
        requires
            self.wf(),
            0 <= position < self.organizations.len(),
            document_id.len() == DOCUMENT_ID_LENGTH_BYTES,
            !self.has_document(document_id),
        ensures
            self.with_new_document(position, document_id, document, key).wf(),
            !self.organizations[position].has_document_key(document_id),
    {
        let owner = self.organizations[position];
        if owner.has_document_key(document_id) {
            let k = owner.document_key_position(document_id);
            assert(self.has_document(self.organizations[position].document_keys[k].document_id));
        }
        let grown = owner.with_document_key(document_id, key);
        let after = self.with_new_document(position, document_id, document, key);
        let last = grown.document_keys.len() - 1;
        assert forall|i: int, j: int| 0 <= i < j < grown.document_keys.len() implies (
        #[trigger] grown.document_keys[i]).document_id != (
        #[trigger] grown.document_keys[j]).document_id by {
            if j == last {
                assert(owner.document_keys[i].document_id != document_id);
            } else {
                assert(grown.document_keys[i] == owner.document_keys[i]);
                assert(grown.document_keys[j] == owner.document_keys[j]);
            }
        }
        assert forall|i: int| 0 <= i < grown.document_keys.len() implies (
        #[trigger] grown.document_keys[i]).document_id.len() == DOCUMENT_ID_LENGTH_BYTES by {
            if i < last {
                assert(grown.document_keys[i] == owner.document_keys[i]);
            }
        }
        assert(grown.wf());
        assert forall|i: int| 0 <= i < after.organizations.len() implies (
        #[trigger] after.organizations[i]).wf() by {
            if i != position {
                assert(after.organizations[i] == self.organizations[i]);
            }
        }
        assert forall|i: int, j: int| 0 <= i < j < after.organizations.len() implies (
        #[trigger] after.organizations[i]).name != (#[trigger] after.organizations[j]).name by {
            assert(after.organizations[i].name == self.organizations[i].name);
            assert(after.organizations[j].name == self.organizations[j].name);
        }
        let end = after.documents.len() - 1;
        assert forall|i: int| 0 <= i < after.documents.len() implies (
        #[trigger] after.documents[i]).document_id.len() == DOCUMENT_ID_LENGTH_BYTES by {
            if i < end {
                assert(after.documents[i] == self.documents[i]);
            }
        }
        assert forall|i: int, j: int| 0 <= i < j < after.documents.len() implies (
        #[trigger] after.documents[i]).document_id != (
        #[trigger] after.documents[j]).document_id by {
            assert(after.documents[i] == self.documents[i]);
            if j < end {
                assert(after.documents[j] == self.documents[j]);
            }
        }
        assert forall|i: int, n: int|
            0 <= i < after.organizations.len() && 0 <= n
                < after.organizations[i].document_keys.len() implies after.has_document(
            (#[trigger] after.organizations[i].document_keys[n]).document_id,
        ) by {
            if i == position && n == last {
                assert(after.documents[end].document_id == document_id);
            } else {
                let id = self.organizations[i].document_keys[n].document_id;
                assert(after.organizations[i].document_keys[n].document_id == id);
                assert(self.has_document(id));
                let d = self.document_position(id);
                assert(after.documents[d] == self.documents[d]);
            }
        }
    }

    /// Replacing the payload of a stored document keeps the store well
    /// formed.
    proof fn lemma_document_replaced(self, position: int, document: EncryptedDocumentView)
        requires
            self.wf(),
            0 <= position < self.documents.len(),
        ensures
            self.with_document_at(position, document).wf(),
    {
        let after = self.with_document_at(position, document);
        assert forall|i: int| 0 <= i < after.documents.len() implies (
        #[trigger] after.documents[i]).document_id.len() == DOCUMENT_ID_LENGTH_BYTES by {
            assert(after.documents[i].document_id == self.documents[i].document_id);
        }
        assert forall|i: int, j: int| 0 <= i < j < after.documents.len() implies (
        #[trigger] after.documents[i]).document_id != (
        #[trigger] after.documents[j]).document_id by {
            assert(after.documents[i].document_id == self.documents[i].document_id);
            assert(after.documents[j].document_id == self.documents[j].document_id);
        }
        assert forall|i: int, n: int|
            0 <= i < after.organizations.len() && 0 <= n
                < after.organizations[i].document_keys.len() implies after.has_document(
            (#[trigger] after.organizations[i].document_keys[n]).document_id,
        ) by {
            let id = self.organizations[i].document_keys[n].document_id;
            assert(self.has_document(id));
            let d = self.document_position(id);
            assert(after.documents[d].document_id == id);
        }
    }

    /// In a well-formed store the document found at a position is the
    /// document of its id.
    proof fn lemma_document_found(self, position: int)
        requires
            self.wf(),
            0 <= position < self.documents.len(),
        ensures
            self.has_document(self.documents[position].document_id),
            self.document_position(self.documents[position].document_id) == position,
            self.document(self.documents[position].document_id) == self.documents[position].document,
    {
        let id = self.documents[position].document_id;
        let p = self.document_position(id);
        assert(self.documents[p].document_id == id);
        if p < position {
            assert(self.documents[p].document_id != self.documents[position].document_id);
        } else if position < p {
            assert(self.documents[position].document_id != self.documents[p].document_id);
        }
    }

    /// The store with a new document, and its first key with the
    /// organization at that position.
    pub open spec fn with_new_document(
        self,
        position: int,
        document_id: Seq<u8>,
        document: EncryptedDocumentView,
        key: Seq<u8>,
    ) -> Self {
        StoreView {
            organizations: self.organizations.update(
                position,
                self.organizations[position].with_document_key(document_id, key),
            ),
            documents: self.documents.push(DocumentRecordView { document_id, document }),
        }
    }

    /// The store with another payload for the document at that position.
    pub open spec fn with_document_at(self, position: int, document: EncryptedDocumentView) -> Self {
        StoreView {
            documents: self.documents.update(
                position,
                DocumentRecordView { document_id: self.documents[position].document_id, document },
            ),
            ..self
        }
    }

    /// What two members need to unlock the vault: their shares, the hash
    /// parameters and the public key. Nothing when the organization or one of
    /// the users is unknown.
    pub open spec fn unlock_records(
        self,
        organization_name: Seq<char>,
        user_name1: Seq<char>,
        user_name2: Seq<char>,
    ) -> Option<(UserShareView, UserShareView, ArgonConfig, Seq<u8>)> {
        if self.has_organization(organization_name) {
            let organization = self.organization(organization_name);
            if organization.has_user(user_name1) && organization.has_user(user_name2) {
                Some(
                    (
                        organization.users[organization.user_position(user_name1)].share,
                        organization.users[organization.user_position(user_name2)].share,
                        organization.argon_config,
                        organization.public_key,
                    ),
                )
            } else {
                None
            }
        } else {
            None
        }
    }

    /// A user may be removed from an organization that exists, has more than
    /// two users, and has that user.
    pub open spec fn may_revoke_user(self, organization_name: Seq<char>, user_name: Seq<char>) -> bool {
        &&& self.has_organization(organization_name)
        &&& self.organization(organization_name).users.len() != 2
        &&& self.organization(organization_name).has_user(user_name)
    }

    /// Replacing an organization by one of the same name moves no
    /// organization: every name is found where it was.
    proof fn lemma_names_stay(self, position: int, replacement: OrganizationView, name: Seq<char>)
        requires
            self.wf(),
            0 <= position < self.organizations.len(),
            replacement.name == self.organizations[position].name,
            self.with_organization_at(position, replacement).wf(),
        ensures
            self.with_organization_at(position, replacement).has_organization(name)
                == self.has_organization(name),
            self.has_organization(name) ==> self.with_organization_at(
                position,
                replacement,
            ).organization_position(name) == self.organization_position(name),
            self.has_organization(name) && self.organization_position(name) != position
                ==> self.with_organization_at(position, replacement).organization(name)
                == self.organization(name),
            self.has_organization(name) && self.organization_position(name) == position
                ==> self.with_organization_at(position, replacement).organization(name)
                == replacement,
    {
        let after = self.with_organization_at(position, replacement);
        if self.has_organization(name) {
            let p = self.organization_position(name);
            assert(after.organizations[p].name == name);
            after.lemma_organization_found(p);
        }
        if after.has_organization(name) {
            let p = after.organization_position(name);
            assert(self.organizations[p].name == name);
        }
    }

    /// Sharing a document adds an owner and takes nothing away: afterwards
    /// the other organization owns the document, with the key that was
    /// handed in, every organization still owns what it owned, and no
    /// payload has changed.
    pub proof fn lemma_sharing_adds_an_owner(
        self,
        organization_name: Seq<char>,
        document_id: Seq<u8>,
        other_organization_name: Seq<char>,
        key: Seq<u8>,
        any_organization: Seq<char>,
        any_document: Seq<u8>,
    )
        requires
            self.wf(),
            self.add_owner_outcome(organization_name, document_id, other_organization_name).is_ok(),
        ensures
            ({
                let after = self.with_organization_at(
                    self.organization_position(other_organization_name),
                    self.organization(other_organization_name).with_document_key(document_id, key),
                );
                &&& after.wf()
                &&& after.owns(other_organization_name, document_id)
                &&& after.document_key(other_organization_name, document_id) == key
                &&& after.owns(organization_name, document_id)
                &&& self.owns(any_organization, any_document) ==> after.owns(
                    any_organization,
                    any_document,
                )
                &&& after.documents == self.documents
            }),
    {
        let other = self.organization_position(other_organization_name);
        let owner = self.organization_position(organization_name);
        let old_other = self.organizations[other];
        let grown = old_other.with_document_key(document_id, key);
        let after = self.with_organization_at(other, grown);
        self.lemma_key_added(other, owner, document_id, key);
        self.lemma_names_stay(other, grown, other_organization_name);
        self.lemma_names_stay(other, grown, organization_name);
        self.lemma_names_stay(other, grown, any_organization);
        let last = grown.document_keys.len() - 1;
        assert(grown.document_keys[last].document_id == document_id);
        grown.lemma_document_key_found(last);
        if self.owns(any_organization, any_document) {
            let holder = self.organization(any_organization);
            let k = holder.document_key_position(any_document);
            if self.organization_position(any_organization) == other {
                assert(grown.document_keys[k] == old_other.document_keys[k]);
            }
        }
        if owner == other {
            let k = old_other.document_key_position(document_id);
            assert(grown.document_keys[k] == old_other.document_keys[k]);
        }
    }

    /// Deleting a document touches its owner's key only: afterwards that
    /// organization no longer owns the document, and whatever any
    /// organization owned besides is still owned, under the same key and
    /// with the same payload.
    pub proof fn lemma_delete_isolates(
        self,
        organization_name: Seq<char>,
        document_id: Seq<u8>,
        any_organization: Seq<char>,
        any_document: Seq<u8>,
    )
        requires
            self.wf(),
            self.owns(organization_name, document_id),
        ensures
            ({
                let after = self.with_organization_at(
                    self.organization_position(organization_name),
                    self.organization(organization_name).without_document_key_at(
                        self.organization(organization_name).document_key_position(document_id),
                    ),
                );
                &&& after.wf()
                &&& !after.owns(organization_name, document_id)
                &&& after.documents == self.documents
                &&& self.owns(any_organization, any_document) && (any_organization
                    != organization_name || any_document != document_id) ==> {
                    &&& after.owns(any_organization, any_document)
                    &&& after.document_key(any_organization, any_document) == self.document_key(
                        any_organization,
                        any_document,
                    )
                    &&& after.document(any_document) == self.document(any_document)
                }
            }),
    {
        let position = self.organization_position(organization_name);
        let owner = self.organizations[position];
        let gone = owner.document_key_position(document_id);
        let reduced = owner.without_document_key_at(gone);
        let after = self.with_organization_at(position, reduced);
        owner.lemma_document_key_found(gone);
        owner.lemma_document_key_removed(gone);
        self.lemma_organization_reduced(position, reduced);
        self.lemma_names_stay(position, reduced, organization_name);
        if self.owns(any_organization, any_document) && (any_organization != organization_name
            || any_document != document_id) {
            self.lemma_names_stay(position, reduced, any_organization);
            if self.organization_position(any_organization) == position {
                assert(self.organizations[position].name == any_organization);
                let k = owner.document_key_position(any_document);
                owner.lemma_document_key_found(k);
                let k1 = if k < gone { k } else { k - 1 };
                assert(reduced.document_keys[k1] == owner.document_keys[k]);
                reduced.lemma_document_key_found(k1);
            }
        }
    }

    /// A new document belongs to the organization that stored it, with the
    /// key and the payload that were handed in, and nothing else has changed:
    /// whatever any organization owned is still owned, under the same key and
    /// with the same payload.
    pub proof fn lemma_new_document_is_owned(
        self,
        organization_name: Seq<char>,
        document_id: Seq<u8>,
        document: EncryptedDocumentView,
        key: Seq<u8>,
        any_organization: Seq<char>,
        any_document: Seq<u8>,
    )
        requires
            self.wf(),
            self.has_organization(organization_name),
            document_id.len() == DOCUMENT_ID_LENGTH_BYTES,
            !self.has_document(document_id),
        ensures
            ({
                let after = self.with_new_document(
                    self.organization_position(organization_name),
                    document_id,
                    document,
                    key,
                );
                &&& after.wf()
                &&& after.owns(organization_name, document_id)
                &&& after.document_key(organization_name, document_id) == key
                &&& after.document(document_id) == document
                &&& self.owns(any_organization, any_document) ==> {
                    &&& after.owns(any_organization, any_document)
                    &&& after.document_key(any_organization, any_document) == self.document_key(
                        any_organization,
                        any_document,
                    )
                    &&& after.document(any_document) == self.document(any_document)
                }
            }),
    {
        let position = self.organization_position(organization_name);
        let owner = self.organizations[position];
        let grown = owner.with_document_key(document_id, key);
        let after = self.with_new_document(position, document_id, document, key);
        self.lemma_document_added(position, document_id, document, key);
        assert(after.organizations[position].name == organization_name);
        after.lemma_organization_found(position);
        let last = grown.document_keys.len() - 1;
        assert(grown.document_keys[last].document_id == document_id);
        grown.lemma_document_key_found(last);
        let end = after.documents.len() - 1;
        assert(after.documents[end].document_id == document_id);
        after.lemma_document_found(end);
        if self.owns(any_organization, any_document) {
            let holder_position = self.organization_position(any_organization);
            let holder = self.organizations[holder_position];
            assert(after.organizations[holder_position].name == any_organization);
            after.lemma_organization_found(holder_position);
            let k = holder.document_key_position(any_document);
            holder.lemma_document_key_found(k);
            assert(after.organizations[holder_position].document_keys[k]
                == holder.document_keys[k]);
            after.organizations[holder_position].lemma_document_key_found(k);
            assert(self.has_document(
                self.organizations[holder_position].document_keys[k].document_id,
            ));
            let d = self.document_position(any_document);
            self.lemma_document_found(d);
            assert(after.documents[d] == self.documents[d]);
            after.lemma_document_found(d);
        }
    }

    /// An update replaces the payload of one document for all its owners,
    /// and nothing else: every organization owns what it owned, under the
    /// same key, and every other document has the payload that it had.
    pub proof fn lemma_update_reaches_every_owner(
        self,
        document_id: Seq<u8>,
        document: EncryptedDocumentView,
        any_organization: Seq<char>,
        any_document: Seq<u8>,
    )
        requires
            self.wf(),
            self.has_document(document_id),
        ensures
            ({
                let after = self.with_document_at(self.document_position(document_id), document);
                &&& after.wf()
                &&& after.organizations == self.organizations
                &&& after.document(document_id) == document
                &&& self.owns(any_organization, any_document) ==> {
                    &&& after.owns(any_organization, any_document)
                    &&& after.document_key(any_organization, any_document) == self.document_key(
                        any_organization,
                        any_document,
                    )
                    &&& any_document != document_id ==> after.document(any_document)
                        == self.document(any_document)
                }
            }),
    {
        let position = self.document_position(document_id);
        let after = self.with_document_at(position, document);
        self.lemma_document_replaced(position, document);
        self.lemma_document_found(position);
        assert(after.documents[position].document_id == document_id);
        after.lemma_document_found(position);
        if self.owns(any_organization, any_document) {
            let holder = self.organization(any_organization);
            let k = holder.document_key_position(any_document);
            assert(self.has_document(
                self.organizations[self.organization_position(
                    any_organization,
                )].document_keys[k].document_id,
            ));
            let d = self.document_position(any_document);
            self.lemma_document_found(d);
            assert(after.documents[d].document_id == any_document);
            after.lemma_document_found(d);
        }
    }

    /// The store with another organization in place of the one at that
    /// position.
    pub open spec fn with_organization_at(self, position: int, organization: OrganizationView) -> Self {
        StoreView { organizations: self.organizations.update(position, organization), ..self }
    }

    /// What an organization sees when it lists its documents: for each of its
    /// keys, in their order, the document's id, its encrypted name and the
    /// key.
    pub open spec fn listing(self, organization_name: Seq<char>) -> Seq<
        (Seq<u8>, EncryptedDocumentNameAndKeyView),
    > {
        let keys = self.organization(organization_name).document_keys;
        Seq::new(
            keys.len(),
            |i: int|
                (
                    keys[i].document_id,
                    EncryptedDocumentNameAndKeyView {
                        data: self.document(keys[i].document_id).name,
                        key: keys[i].key,
                    },
                ),
        )
    }
}

/// The store of the server.
pub struct ObjectStore {
    pub organizations: Vec<OrganizationRecord>,
    pub documents: Vec<DocumentRecord>,
}

impl View for ObjectStore {
    type V = StoreView;

    open spec fn view(&self) -> StoreView {
        StoreView {
            organizations: Seq::new(self.organizations@.len(), |i: int| self.organizations@[i]@),
            documents: Seq::new(self.documents@.len(), |i: int| self.documents@[i]@),
        }
    }
}

/// A list of users for a new organization is in order when there are at
/// least two, all names are standard and no name occurs twice.
pub open spec fn users_in_order(users: Seq<UserRecordView>) -> bool {
    &&& users.len() >= 2
    &&& forall|i: int| 0 <= i < users.len() ==> is_standard_name((#[trigger] users[i]).name)
    &&& forall|i: int, j: int|
        0 <= i < j < users.len() ==> (#[trigger] users[i]).name != (#[trigger] users[j]).name
}

/// What a listing holds.
pub open spec fn listing_view(listing: Seq<(DocumentID, EncryptedDocumentNameAndKey)>) -> Seq<
    (Seq<u8>, EncryptedDocumentNameAndKeyView),
> {
    Seq::new(listing.len(), |i: int| (listing[i].0@, listing[i].1@))
}

impl ObjectStore {
    /// An empty store.
    pub fn new() -> (store: Self)
        ensures
            store@.wf(),
            store@.organizations.len() == 0,
            store@.documents.len() == 0,
    {
        ObjectStore { organizations: Vec::new(), documents: Vec::new() }
    }

    /// Gives an organization a key for a document that another organization
    /// already owns. Nothing else changes: the payload is not copied.
    ///
    /// Refused with `ServerError` when the first organization does not own
    /// the document or the other organization does not exist, and with
    /// `FileError` when the other organization already holds a key for it.
    pub fn add_owner(
        &mut self,
        organization_name: &str,
        document_id: &DocumentID,
        other_organization_name: &str,
        encrypted_document_key: &EncryptedDocumentKey,
    ) -> (result: Result<(), VaultError>)
        requires
            old(self)@.wf(),
        ensures
            final(self)@.wf(),
            old(self)@.add_owner_outcome(organization_name@, document_id@, other_organization_name@)
                == result,
            result.is_err() ==> final(self)@ == old(self)@,
            result.is_ok() ==> final(self)@ == old(self)@.with_organization_at(
                old(self)@.organization_position(other_organization_name@),
                old(self)@.organization(other_organization_name@).with_document_key(
                    document_id@,
                    encrypted_document_key@,
                ),
            ),
    {
        let owner = match self.find_organization(organization_name) {
            Some(i) => i,
            None => {
                return Err(VaultError::ServerError);
            },
        };
        proof {
            self@.lemma_organization_found(owner as int);
        }
        if find_document_key(&self.organizations[owner], document_id).is_none() {
            return Err(VaultError::ServerError);
        }
        let other = match self.find_organization(other_organization_name) {
            Some(i) => i,
            None => {
                return Err(VaultError::ServerError);
            },
        };
        proof {
            self@.lemma_organization_found(other as int);
        }
        if find_document_key(&self.organizations[other], document_id).is_some() {
            return Err(VaultError::FileError);
        }
        let ghost before = self@;
        let record = DocumentKeyRecord {
            document_id: copy_bytes(document_id),
            key: copy_bytes(encrypted_document_key),
        };
        self.organizations[other].document_keys.push(record);
        proof {
            let grown = before.organizations[other as int].with_document_key(
                document_id@,
                encrypted_document_key@,
            );
            assert(self@.organizations[other as int].document_keys =~= grown.document_keys);
            assert(self@.organizations[other as int].users =~= grown.users);
            assert(self@.organizations =~= before.organizations.update(other as int, grown));
            assert(self@.documents =~= before.documents);
            before.lemma_key_added(other as int, owner as int, document_id@, encrypted_document_key@);
        }
        Ok(())
    }

    /// Stores a new organization with its users, public key and hash
    /// parameters. Refused with `FileError`, and nothing written, when an
    /// organization of that name exists.
    pub fn create_organization(
        &mut self,
        organization_name: &str,
        users: &Vec<(String, UserShare)>,
        public_key: &PublicKey,
        argon_config: &ArgonConfig,
    ) -> (result: Result<(), VaultError>)
        requires
            old(self)@.wf(),
            is_standard_name(organization_name@),
            users_in_order(user_records(users@)),
        ensures
            final(self)@.wf(),
            old(self)@.has_organization(organization_name@) ==> result == Err::<(), VaultError>(
                VaultError::FileError,
            ) && final(self)@ == old(self)@,
            !old(self)@.has_organization(organization_name@) ==> result.is_ok() && final(self)@
                == (StoreView {
                organizations: old(self)@.organizations.push(
                    OrganizationView {
                        name: organization_name@,
                        public_key: public_key@,
                        argon_config: *argon_config,
                        users: user_records(users@),
                        document_keys: Seq::empty(),
                    },
                ),
                documents: old(self)@.documents,
            }),
    {
        if self.find_organization(organization_name).is_some() {
            return Err(VaultError::FileError);
        }
        let mut records: Vec<UserRecord> = Vec::new();
        let mut i: usize = 0;
        while i < users.len()
            invariant
                i <= users@.len(),
                records@.len() == i,
                forall|k: int| 0 <= k < i ==> (#[trigger] records@[k])@ == user_records(users@)[k],
            decreases users@.len() - i,
        {
            records.push(UserRecord { name: users[i].0.clone(), share: users[i].1.clone() });
            i = i + 1;
        }
        let ghost before = self@;
        let organization = OrganizationRecord {
            name: organization_name.to_owned(),
            public_key: *public_key,
            argon_config: *argon_config,
            users: records,
            document_keys: Vec::new(),
        };
        proof {
            let expected = OrganizationView {
                name: organization_name@,
                public_key: public_key@,
                argon_config: *argon_config,
                users: user_records(users@),
                document_keys: Seq::empty(),
            };
            assert(organization@.users =~= expected.users);
            assert(organization@.document_keys =~= expected.document_keys);
            assert(organization@ == expected);
            before.lemma_organization_added(expected);
        }
        self.organizations.push(organization);
        proof {
            assert(self@.organizations =~= before.organizations.push(
                OrganizationView {
                    name: organization_name@,
                    public_key: public_key@,
                    argon_config: *argon_config,
                    users: user_records(users@),
                    document_keys: Seq::empty(),
                },
            ));
            assert(self@.documents =~= before.documents);
        }
        Ok(())
    }

    /// What two members need to unlock the vault: their shares, the hash
    /// parameters and the public key. Fails with `ServerError` exactly when the
    /// organization or one of the users is unknown.
    pub fn unlock_records(&self, organization_name: &str, user_name1: &str, user_name2: &str) -> (result:
        Result<(UserShare, UserShare, ArgonConfig, PublicKey), VaultError>)
        requires
            self@.wf(),
        ensures
            match self@.unlock_records(organization_name@, user_name1@, user_name2@) {
                Some(records) => result.is_ok() && result.unwrap().0@ == records.0
                    && result.unwrap().1@ == records.1 && result.unwrap().2 == records.2
                    && result.unwrap().3@ == records.3,
                None => result.is_err() && result.unwrap_err() == VaultError::ServerError,
            },
    {
        let position = match self.find_organization(organization_name) {
            Some(i) => i,
            None => {
                return Err(VaultError::ServerError);
            },
        };
        proof {
            self@.lemma_organization_found(position as int);
        }
        let organization = &self.organizations[position];
        let first = match find_user(organization, user_name1) {
            Some(i) => i,
            None => {
                return Err(VaultError::ServerError);
            },
        };
        let second = match find_user(organization, user_name2) {
            Some(i) => i,
            None => {
                return Err(VaultError::ServerError);
            },
        };
        proof {
            organization@.lemma_user_found(first as int);
            organization@.lemma_user_found(second as int);
        }
        Ok(
            (
                organization.users[first].share.clone(),
                organization.users[second].share.clone(),
                organization.argon_config,
                organization.public_key,
            ),
        )
    }

    /// Removes a user from an organization. Refused with `ServerError`, and
    /// nothing changed, when the organization is unknown, has only two users
    /// left, or has no such user.
    pub fn revoke_user(&mut self, organization_name: &str, user_name: &str) -> (result: Result<
        (),
        VaultError,
    >)
        requires
            old(self)@.wf(),
        ensures
            final(self)@.wf(),
            result.is_ok() == old(self)@.may_revoke_user(organization_name@, user_name@),
            result.is_err() ==> result.unwrap_err() == VaultError::ServerError && final(self)@
                == old(self)@,
            result.is_ok() ==> final(self)@ == old(self)@.with_organization_at(
                old(self)@.organization_position(organization_name@),
                old(self)@.organization(organization_name@).without_user_at(
                    old(self)@.organization(organization_name@).user_position(user_name@),
                ),
            ),
    {
        let position = match self.find_organization(organization_name) {
            Some(i) => i,
            None => {
                return Err(VaultError::ServerError);
            },
        };
        proof {
            self@.lemma_organization_found(position as int);
        }
        if self.organizations[position].users.len() == 2 {
            return Err(VaultError::ServerError);
        }
        let user = match find_user(&self.organizations[position], user_name) {
            Some(i) => i,
            None => {
                return Err(VaultError::ServerError);
            },
        };
        let ghost before = self@;
        proof {
            before.organizations[position as int].lemma_user_found(user as int);
            before.organizations[position as int].lemma_user_removed(user as int);
        }
        let removed = self.organizations[position].users.remove(user);
        proof {
            let reduced = before.organizations[position as int].without_user_at(user as int);
            assert(self@.organizations[position as int].users =~= reduced.users);
            assert(self@.organizations[position as int].document_keys =~= reduced.document_keys);
            assert(self@.organizations =~= before.organizations.update(position as int, reduced));
            assert(self@.documents =~= before.documents);
            assert forall|n: int|
                0 <= n < reduced.document_keys.len() implies before.organizations[position as int].has_document_key(
                (#[trigger] reduced.document_keys[n]).document_id,
            ) by {
                before.organizations[position as int].lemma_document_key_found(n);
            }
            before.lemma_organization_reduced(position as int, reduced);
        }
        Ok(())
    }

    /// Stores a new document under a new id, and its key with the
    /// organization that uploads it. Refused, and nothing written, with
    /// `ServerError` when the organization is unknown and with `FileError`
    /// when a document of that id is stored already.
    pub fn new_document(
        &mut self,
        organization_name: &str,
        document_id: &DocumentID,
        encrypted_document: &EncryptedDocument,
        encrypted_key: &EncryptedDocumentKey,
    ) -> (result: Result<(), VaultError>)
        requires
            old(self)@.wf(),
            document_id@.len() == DOCUMENT_ID_LENGTH_BYTES,
        ensures
            final(self)@.wf(),
            !old(self)@.has_organization(organization_name@) ==> result == Err::<(), VaultError>(
                VaultError::ServerError,
            ),
            old(self)@.has_organization(organization_name@) && old(self)@.has_document(
                document_id@,
            ) ==> result == Err::<(), VaultError>(VaultError::FileError),
            old(self)@.has_organization(organization_name@) && !old(self)@.has_document(
                document_id@,
            ) ==> result.is_ok(),
            result.is_err() ==> final(self)@ == old(self)@,
            result.is_ok() ==> final(self)@ == old(self)@.with_new_document(
                old(self)@.organization_position(organization_name@),
                document_id@,
                encrypted_document@,
                encrypted_key@,
            ),
    {
        let position = match self.find_organization(organization_name) {
            Some(i) => i,
            None => {
                return Err(VaultError::ServerError);
            },
        };
        proof {
            self@.lemma_organization_found(position as int);
        }
        if self.find_document(document_id).is_some() {
            return Err(VaultError::FileError);
        }
        let ghost before = self@;
        proof {
            before.lemma_document_added(
                position as int,
                document_id@,
                encrypted_document@,
                encrypted_key@,
            );
        }
        self.documents.push(
            DocumentRecord {
                document_id: copy_bytes(document_id),
                document: encrypted_document.clone(),
            },
        );
        self.organizations[position].document_keys.push(
            DocumentKeyRecord {
                document_id: copy_bytes(document_id),
                key: copy_bytes(encrypted_key),
            },
        );
        proof {
            let after = before.with_new_document(
                position as int,
                document_id@,
                encrypted_document@,
                encrypted_key@,
            );
            assert(self@.organizations[position as int].document_keys
                =~= after.organizations[position as int].document_keys);
            assert(self@.organizations[position as int].users
                =~= after.organizations[position as int].users);
            assert(self@.organizations =~= after.organizations);
            assert(self@.documents =~= after.documents);
        }
        Ok(())
    }

    /// Lists the documents of an organization: for each of its keys the
    /// document's id, its encrypted name and the key. Fails with
    /// `ServerError` exactly when the organization is unknown.
    pub fn list_documents(&self, organization_name: &str) -> (result: Result<
        Vec<(DocumentID, EncryptedDocumentNameAndKey)>,
        VaultError,
    >)
        requires
            self@.wf(),
        ensures
            self@.has_organization(organization_name@) ==> result.is_ok() && listing_view(
                result.unwrap()@,
            ) == self@.listing(organization_name@),
            !self@.has_organization(organization_name@) ==> result.is_err()
                && result.unwrap_err() == VaultError::ServerError,
    {
        let position = match self.find_organization(organization_name) {
            Some(i) => i,
            None => {
                return Err(VaultError::ServerError);
            },
        };
        proof {
            self@.lemma_organization_found(position as int);
        }
        let organization = &self.organizations[position];
        let mut listing: Vec<(DocumentID, EncryptedDocumentNameAndKey)> = Vec::new();
        let mut i: usize = 0;
        while i < organization.document_keys.len()
            invariant
                self@.wf(),
                position < self.organizations@.len(),
                *organization == self.organizations@[position as int],
                self@.organization(organization_name@) == organization@,
                i <= organization.document_keys@.len(),
                listing@.len() == i,
                forall|k: int|
                    0 <= k < i ==> (#[trigger] listing@[k]).0@ == self@.listing(
                        organization_name@,
                    )[k].0 && listing@[k].1@ == self@.listing(organization_name@)[k].1,
            decreases organization.document_keys@.len() - i,
        {
            let record = &organization.document_keys[i];
            assert(record@ == self@.organizations[position as int].document_keys[i as int]);
            assert(self@.has_document(
                self@.organizations[position as int].document_keys[i as int].document_id,
            ));
            let stored = match self.find_document(&record.document_id) {
                Some(d) => d,
                None => {
                    return Err(VaultError::ServerError);
                },
            };
            proof {
                self@.lemma_document_found(stored as int);
            }
            listing.push(
                (
                    copy_bytes(&record.document_id),
                    EncryptedDocumentNameAndKey {
                        data: self.documents[stored].document.name.clone(),
                        key: copy_bytes(&record.key),
                    },
                ),
            );
            i = i + 1;
        }
        proof {
            assert(listing_view(listing@) =~= self@.listing(organization_name@));
        }
        Ok(listing)
    }

    /// The key that an organization holds for a document. Fails with
    /// `ServerError` exactly when the organization does not own the
    /// document, whether or not the document exists.
    pub fn get_document_key(&self, organization_name: &str, document_id: &DocumentID) -> (result:
        Result<EncryptedDocumentKey, VaultError>)
        requires
            self@.wf(),
        ensures
            self@.owns(organization_name@, document_id@) ==> result.is_ok() && result.unwrap()@
                == self@.document_key(organization_name@, document_id@),
            !self@.owns(organization_name@, document_id@) ==> result.is_err()
                && result.unwrap_err() == VaultError::ServerError,
    {
        let position = match self.find_organization(organization_name) {
            Some(i) => i,
            None => {
                return Err(VaultError::ServerError);
            },
        };
        proof {
            self@.lemma_organization_found(position as int);
        }
        let organization = &self.organizations[position];
        match find_document_key(organization, document_id) {
            Some(k) => {
                proof {
                    organization@.lemma_document_key_found(k as int);
                }
                Ok(copy_bytes(&organization.document_keys[k].key))
            },
            None => Err(VaultError::ServerError),
        }
    }

    /// The payload of a document, for an organization that owns it. Fails
    /// with `ServerError` exactly when the organization does not own the
    /// document, whether or not the document exists.
    pub fn get_document(&self, organization_name: &str, document_id: &DocumentID) -> (result:
        Result<EncryptedDocument, VaultError>)
        requires
            self@.wf(),
        ensures
            self@.owns(organization_name@, document_id@) ==> result.is_ok() && result.unwrap()@
                == self@.document(document_id@),
            !self@.owns(organization_name@, document_id@) ==> result.is_err()
                && result.unwrap_err() == VaultError::ServerError,
    {
        let stored = match self.owned_document(organization_name, document_id) {
            Some(d) => d,
            None => {
                return Err(VaultError::ServerError);
            },
        };
        Ok(self.documents[stored].document.clone())
    }

    /// Replaces the payload of a document, for every owner, on behalf of an
    /// organization that owns it. Refused with `ServerError`, and nothing
    /// changed, exactly when the organization does not own the document.
    pub fn update_document(
        &mut self,
        organization_name: &str,
        document_id: &DocumentID,
        encrypted_document: &EncryptedDocument,
    ) -> (result: Result<(), VaultError>)
        requires
            old(self)@.wf(),
        ensures
            final(self)@.wf(),
            result.is_ok() == old(self)@.owns(organization_name@, document_id@),
            result.is_err() ==> result.unwrap_err() == VaultError::ServerError && final(self)@
                == old(self)@,
            result.is_ok() ==> final(self)@ == old(self)@.with_document_at(
                old(self)@.document_position(document_id@),
                encrypted_document@,
            ),
    {
        let stored = match self.owned_document(organization_name, document_id) {
            Some(d) => d,
            None => {
                return Err(VaultError::ServerError);
            },
        };
        let ghost before = self@;
        proof {
            before.lemma_document_replaced(stored as int, encrypted_document@);
        }
        self.documents.set(
            stored,
            DocumentRecord {
                document_id: copy_bytes(document_id),
                document: encrypted_document.clone(),
            },
        );
        proof {
            assert(self@.documents =~= before.with_document_at(
                stored as int,
                encrypted_document@,
            ).documents);
            assert(self@.organizations =~= before.organizations);
        }
        Ok(())
    }

    /// Takes a document away from an organization that owns it: its key for
    /// the document is removed. The payload and the keys of other
    /// organizations stay. Refused with `ServerError`, and nothing changed,
    /// exactly when the organization does not own the document.
    pub fn delete_document(&mut self, organization_name: &str, document_id: &DocumentID) -> (result:
        Result<(), VaultError>)
        requires
            old(self)@.wf(),
        ensures
            final(self)@.wf(),
            result.is_ok() == old(self)@.owns(organization_name@, document_id@),
            result.is_err() ==> result.unwrap_err() == VaultError::ServerError && final(self)@
                == old(self)@,
            result.is_ok() ==> final(self)@ == old(self)@.with_organization_at(
                old(self)@.organization_position(organization_name@),
                old(self)@.organization(organization_name@).without_document_key_at(
                    old(self)@.organization(organization_name@).document_key_position(
                        document_id@,
                    ),
                ),
            ),
    {
        let position = match self.find_organization(organization_name) {
            Some(i) => i,
            None => {
                return Err(VaultError::ServerError);
            },
        };
        proof {
            self@.lemma_organization_found(position as int);
        }
        let key = match find_document_key(&self.organizations[position], document_id) {
            Some(k) => k,
            None => {
                return Err(VaultError::ServerError);
            },
        };
        let ghost before = self@;
        proof {
            before.organizations[position as int].lemma_document_key_found(key as int);
            before.organizations[position as int].lemma_document_key_removed(key as int);
        }
        let removed = self.organizations[position].document_keys.remove(key);
        proof {
            let reduced = before.organizations[position as int].without_document_key_at(
                key as int,
            );
            assert(self@.organizations[position as int].users =~= reduced.users);
            assert(self@.organizations[position as int].document_keys =~= reduced.document_keys);
            assert(self@.organizations =~= before.organizations.update(position as int, reduced));
            assert(self@.documents =~= before.documents);
            before.lemma_organization_reduced(position as int, reduced);
        }
        Ok(())
    }

    /// The public key of an organization. Fails with `ServerError` exactly when
    /// the organization is unknown.
    pub fn get_public_key_of_organization(&self, organization_name: &str) -> (result: Result<
        PublicKey,
        VaultError,
    >)
        requires
            self@.wf(),
        ensures
            self@.has_organization(organization_name@) ==> result.is_ok() && result.unwrap()@
                == self@.organization(organization_name@).public_key,
            !self@.has_organization(organization_name@) ==> result.is_err()
                && result.unwrap_err() == VaultError::ServerError,
    {
        match self.find_organization(organization_name) {
            Some(i) => {
                proof {
                    self@.lemma_organization_found(i as int);
                }
                Ok(self.organizations[i].public_key)
            },
            None => Err(VaultError::ServerError),
        }
    }

    /// Whether the organization owns the document.
    pub fn is_client_owner_of_document(&self, organization_name: &str, document_id: &DocumentID) -> (owner:
        bool)
        requires
            self@.wf(),
        ensures
            owner == self@.owns(organization_name@, document_id@),
    {
        self.owned_document(organization_name, document_id).is_some()
    }

    fn owned_document(&self, organization_name: &str, document_id: &DocumentID) -> (position:
        Option<usize>)
        requires
            self@.wf(),
        ensures
            position.is_some() == self@.owns(organization_name@, document_id@),
            position.is_some() ==> position.unwrap() < self@.documents.len()
                && self@.documents[position.unwrap() as int].document_id == document_id@
                && self@.document_position(document_id@) == position.unwrap(),
    {
        let organization = match self.find_organization(organization_name) {
            Some(i) => i,
            None => {
                return None;
            },
        };
        proof {
            self@.lemma_organization_found(organization as int);
        }
        let key = match find_document_key(&self.organizations[organization], document_id) {
            Some(k) => k,
            None => {
                return None;
            },
        };
        assert(self@.has_document(
            self@.organizations[organization as int].document_keys[key as int].document_id,
        ));
        let stored = self.find_document(document_id);
        proof {
            if stored.is_some() {
                self@.lemma_document_found(stored.unwrap() as int);
            }
        }
        stored
    }

    fn find_organization(&self, name: &str) -> (position: Option<usize>)
        ensures
            match position {
                Some(i) => i < self@.organizations.len() && self@.organizations[i as int].name
                    == name@,
                None => !self@.has_organization(name@),
            },
    {
        let mut i: usize = 0;
        while i < self.organizations.len()
            invariant
                i <= self.organizations@.len(),
                forall|k: int| 0 <= k < i ==> (#[trigger] self@.organizations[k]).name != name@,
            decreases self.organizations@.len() - i,
        {
            if same_text(self.organizations[i].name.as_str(), name) {
                assert(self@.organizations[i as int].name == name@);
                return Some(i);
            }
            assert(self@.organizations[i as int].name != name@);
            i = i + 1;
        }
        None
    }

    fn find_document(&self, document_id: &DocumentID) -> (position: Option<usize>)
        ensures
            match position {
                Some(i) => i < self@.documents.len() && self@.documents[i as int].document_id
                    == document_id@,
                None => !self@.has_document(document_id@),
            },
    {
        let mut i: usize = 0;
        while i < self.documents.len()
            invariant
                i <= self.documents@.len(),
                forall|k: int|
                    0 <= k < i ==> (#[trigger] self@.documents[k]).document_id != document_id@,
            decreases self.documents@.len() - i,
        {
            if same_bytes(&self.documents[i].document_id, document_id) {
                assert(self@.documents[i as int].document_id == document_id@);
                return Some(i);
            }
            assert(self@.documents[i as int].document_id != document_id@);
            i = i + 1;
        }
        None
    }
}

fn find_user(organization: &OrganizationRecord, user_name: &str) -> (position: Option<usize>)
    ensures
        match position {
            Some(i) => i < organization@.users.len() && organization@.users[i as int].name
                == user_name@,
            None => !organization@.has_user(user_name@),
        },
{
    let mut i: usize = 0;
    while i < organization.users.len()
        invariant
            i <= organization.users@.len(),
            forall|k: int| 0 <= k < i ==> (#[trigger] organization@.users[k]).name != user_name@,
        decreases organization.users@.len() - i,
    {
        if same_text(organization.users[i].name.as_str(), user_name) {
            assert(organization@.users[i as int].name == user_name@);
            return Some(i);
        }
        assert(organization@.users[i as int].name != user_name@);
        i = i + 1;
    }
    None
}

fn find_document_key(organization: &OrganizationRecord, document_id: &DocumentID) -> (position:
    Option<usize>)
    ensures
        match position {
            Some(i) => i < organization@.document_keys.len()
                && organization@.document_keys[i as int].document_id == document_id@,
            None => !organization@.has_document_key(document_id@),
        },
{
    let mut i: usize = 0;
    while i < organization.document_keys.len()
        invariant
            i <= organization.document_keys@.len(),
            forall|k: int|
                0 <= k < i ==> (#[trigger] organization@.document_keys[k]).document_id
                    != document_id@,
        decreases organization.document_keys@.len() - i,
    {
        if same_bytes(&organization.document_keys[i].document_id, document_id) {
            assert(organization@.document_keys[i as int].document_id == document_id@);
            return Some(i);
        }
        assert(organization@.document_keys[i as int].document_id != document_id@);
        i = i + 1;
    }
    None
}

} // verus!
