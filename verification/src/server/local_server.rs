//! The vault server, in process: the endpoints over the session manager and
//! the object store.

use vstd::prelude::*;
use crate::bytes::same_text;
use crate::data::{
    user_records, ArgonConfig, DocumentID, EncryptedDocument, EncryptedDocumentKey,
    EncryptedDocumentView, PublicKey, Token, UserRecordView, UserShare, UserShareView,
    DOCUMENT_ID_LENGTH_BYTES, TOKEN_LENGTH_BYTES,
};
use crate::error::VaultError;
use crate::primitives::random::random_bytes;
use crate::primitives::sealed_box::{
    box_public_key, sealed_box_opened, sealed_box_refuses, sealed_box_seal,
};
use crate::server::object_store::{listing_view, ObjectStore, OrganizationView, StoreView};
use crate::server::session_manager::{
    after_lookup, after_opening, optional_text, organization_of, purged, was_ended,
    was_looked_up, was_opened, SessionManager, SessionView, Sessions,
};
use crate::server_connection::{ListedDocument, ServerConnection, UnlockResponse};
use crate::validation::{
    is_acceptable_name, is_standard_name, standard_form, validate_and_standardize_name,
};

verus! {

/// Seconds of disuse after which a session expires.
pub const SESSION_TIMEOUT: u64 = 300;

/// Whether a user of that name is in the list.
pub open spec fn lists_user(users: Seq<UserRecordView>, name: Seq<char>) -> bool {
    exists|i: int| 0 <= i < users.len() && (#[trigger] users[i]).name == name
}

/// Where the user of that name stands in the list.
pub open spec fn listed_position(users: Seq<UserRecordView>, name: Seq<char>) -> int {
    choose|i: int| 0 <= i < users.len() && (#[trigger] users[i]).name == name
}

/// The list with the record in place of the one of the same name, or at the
/// end if there is none.
pub open spec fn with_user(users: Seq<UserRecordView>, record: UserRecordView) -> Seq<
    UserRecordView,
> {
    if lists_user(users, record.name) {
        users.update(listed_position(users, record.name), record)
    } else {
        users.push(record)
    }
}

/// The users of a request under their standard names, a later record
/// replacing an earlier one of the same standard name. Nothing when a name is
/// not acceptable.
pub open spec fn validated_users(users: Seq<UserRecordView>) -> Option<Seq<UserRecordView>>
    decreases users.len(),
{
    if users.len() == 0 {
        Some(Seq::empty())
    } else {
        match validated_users(users.drop_last()) {
            Some(earlier) => if is_acceptable_name(users.last().name) {
                Some(
                    with_user(
                        earlier,
                        UserRecordView {
                            name: standard_form(users.last().name),
                            share: users.last().share,
                        },
                    ),
                )
            } else {
                None
            },
            None => None,
        }
    }
}

/// The organization that a request describes, if the request is in order:
/// `ValidationError` for a name that is not acceptable, `ServerError` for
/// fewer than two users.
pub open spec fn requested_organization(
    organization_name: Seq<char>,
    users: Seq<UserRecordView>,
    public_key: Seq<u8>,
    argon_config: ArgonConfig,
) -> Result<OrganizationView, VaultError> {
    if !is_acceptable_name(organization_name) {
        Err(VaultError::ValidationError)
    } else if users.len() < 2 {
        Err(VaultError::ServerError)
    } else {
        match validated_users(users) {
            None => Err(VaultError::ValidationError),
            Some(validated) => if validated.len() < 2 {
                Err(VaultError::ServerError)
            } else {
                Ok(
                    OrganizationView {
                        name: standard_form(organization_name),
                        public_key,
                        argon_config,
                        users: validated,
                        document_keys: Seq::empty(),
                    },
                )
            },
        }
    }
}

/// In the list all names are standard and no name occurs twice.
pub open spec fn names_in_order(users: Seq<UserRecordView>) -> bool {
    &&& forall|i: int| 0 <= i < users.len() ==> is_standard_name((#[trigger] users[i]).name)
    &&& forall|i: int, j: int|
        0 <= i < j < users.len() ==> (#[trigger] users[i]).name != (#[trigger] users[j]).name
}

fn find_listed_user(users: &Vec<(String, UserShare)>, name: &str) -> (position: Option<usize>)
    requires
        names_in_order(user_records(users@)),
    ensures
        match position {
            Some(i) => i < users@.len() && lists_user(user_records(users@), name@)
                && listed_position(user_records(users@), name@) == i,
            None => !lists_user(user_records(users@), name@),
        },
{
    let mut i: usize = 0;
    while i < users.len()
        invariant
            i <= users@.len(),
            names_in_order(user_records(users@)),
            forall|k: int| 0 <= k < i ==> (#[trigger] user_records(users@)[k]).name != name@,
        decreases users@.len() - i,
    {
        if same_text(users[i].0.as_str(), name) {
            proof {
                let records = user_records(users@);
                assert(records[i as int].name == name@);
                let p = listed_position(records, name@);
                assert(records[p].name == name@);
                if p < i {
                    assert(records[p].name != records[i as int].name);
                } else if i < p {
                    assert(records[i as int].name != records[p].name);
                }
            }
            return Some(i);
        }
        assert(user_records(users@)[i as int].name != name@);
        i = i + 1;
    }
    None
}

/// Brings the users of a request under their standard names, a later record
/// replacing an earlier one of the same standard name. Fails with
/// `ValidationError` exactly when a name is not acceptable.
pub fn validate_users(users_data: &Vec<(String, UserShare)>) -> (result: Result<
    Vec<(String, UserShare)>,
    VaultError,
>)
    ensures
        match validated_users(user_records(users_data@)) {
            Some(validated) => result.is_ok() && user_records(result.unwrap()@) == validated
                && names_in_order(validated),
            None => result.is_err() && result.unwrap_err() == VaultError::ValidationError,
        },
{
    let mut validated: Vec<(String, UserShare)> = Vec::new();
    let mut i: usize = 0;
    assert(user_records(users_data@).take(0) =~= Seq::<UserRecordView>::empty());
    assert(user_records(validated@) =~= Seq::<UserRecordView>::empty());
    while i < users_data.len()
        invariant
            i <= users_data@.len(),
            validated_users(user_records(users_data@).take(i as int)) == Some(
                user_records(validated@),
            ),
            names_in_order(user_records(validated@)),
        decreases users_data@.len() - i,
    {
        let ghost all = user_records(users_data@);
        let ghost earlier = user_records(validated@);
        proof {
            assert(all.take(i + 1).drop_last() =~= all.take(i as int));
            assert(all.take(i + 1).last() == all[i as int]);
        }
        let name = match validate_and_standardize_name(users_data[i].0.as_str()) {
            Ok(name) => name,
            Err(_) => {
                proof {
                    lemma_validation_fails_later(all, i + 1);
                }
                return Err(VaultError::ValidationError);
            },
        };
        let ghost record = UserRecordView { name: name@, share: users_data@[i as int].1@ };
        match find_listed_user(&validated, name.as_str()) {
            Some(position) => {
                validated.set(position, (name, users_data[i].1.clone()));
                proof {
                    let later = user_records(validated@);
                    assert(later =~= earlier.update(position as int, record));
                    assert forall|a: int, b: int| 0 <= a < b < later.len() implies (
                    #[trigger] later[a]).name != (#[trigger] later[b]).name by {
                        assert(later[a].name == earlier[a].name);
                        assert(later[b].name == earlier[b].name);
                    }
                    assert forall|a: int| 0 <= a < later.len() implies is_standard_name(
                        (#[trigger] later[a]).name,
                    ) by {
                        assert(later[a].name == earlier[a].name);
                    }
                }
            },
            None => {
                validated.push((name, users_data[i].1.clone()));
                proof {
                    let later = user_records(validated@);
                    assert(later =~= earlier.push(record));
                    let last = later.len() - 1;
                    assert forall|a: int, b: int| 0 <= a < b < later.len() implies (
                    #[trigger] later[a]).name != (#[trigger] later[b]).name by {
                        assert(later[a] == earlier[a]);
                        if b < last {
                            assert(later[b] == earlier[b]);
                        }
                    }
                    assert forall|a: int| 0 <= a < later.len() implies is_standard_name(
                        (#[trigger] later[a]).name,
                    ) by {
                        if a < last {
                            assert(later[a] == earlier[a]);
                        }
                    }
                }
            },
        }
        i = i + 1;
    }
    proof {
        assert(user_records(users_data@).take(users_data@.len() as int) =~= user_records(
            users_data@,
        ));
    }
    Ok(validated)
}

proof fn lemma_validation_fails_later(users: Seq<UserRecordView>, failed: int)
    requires
        0 <= failed <= users.len(),
        validated_users(users.take(failed)).is_none(),
    ensures
        validated_users(users).is_none(),
    decreases users.len() - failed,
{
    if failed < users.len() {
        assert(users.take(failed + 1).drop_last() =~= users.take(failed));
        lemma_validation_fails_later(users, failed + 1);
    } else {
        assert(users.take(failed) =~= users);
    }
}

/// Every session is that of an organization of the store.
pub open spec fn sessions_belong(sessions: Sessions, store: StoreView) -> bool {
    forall|token: Seq<u8>|
        sessions.dom().contains(token) ==> store.has_organization(
            (#[trigger] sessions[token]).organization_name,
        )
}

/// Where every organization keeps its place and its name, and organizations
/// are only added, the sessions that belonged before belong after.
proof fn lemma_sessions_still_belong(sessions: Sessions, before: StoreView, after: StoreView)
    requires
        sessions_belong(sessions, before),
        before.organizations.len() <= after.organizations.len(),
        forall|i: int|
            0 <= i < before.organizations.len() ==> (#[trigger] after.organizations[i]).name
                == before.organizations[i].name,
    ensures
        sessions_belong(sessions, after),
{
    assert forall|token: Seq<u8>| sessions.dom().contains(token) implies after.has_organization(
        (#[trigger] sessions[token]).organization_name,
    ) by {
        let name = sessions[token].organization_name;
        let i = before.organization_position(name);
        assert(before.organizations[i].name == name);
        assert(after.organizations[i].name == name);
    }
}

/// The vault server.
pub struct LocalServer {
    data_path: String,
    sessions: SessionManager,
    store: ObjectStore,
}

impl LocalServer {
    /// What the server stores.
    pub closed spec fn store(&self) -> StoreView {
        self.store@
    }

    /// The sessions that the server knows.
    pub closed spec fn sessions(&self) -> Sessions {
        self.sessions@
    }

    /// The directory under which the store is kept on disk.
    pub closed spec fn data_path(&self) -> Seq<char> {
        self.data_path@
    }

    /// The sessions and the store are well formed, sessions expire after 300
    /// seconds, and every session is that of an organization of the store.
    pub closed spec fn consistent(&self) -> bool {
        &&& self.sessions.wf()
        &&& self.sessions.timeout() == SESSION_TIMEOUT
        &&& self.store@.wf()
        &&& sessions_belong(self.sessions@, self.store@)
    }

    /// In a consistent server every session is that of an organization of
    /// the store.
    pub proof fn lemma_sessions_belong(&self)
        requires
            self.consistent(),
        ensures
            sessions_belong(self.sessions(), self.store()),
    {
    }

    /// A consistent server stores a well-formed store.
    pub proof fn lemma_store_is_well_formed(&self)
        requires
            self.consistent(),
        ensures
            self.store().wf(),
    {
    }

    /// A server with an empty store and no session, to be kept under
    /// `data_path`.
    pub fn new(data_path: &str) -> (server: LocalServer)
        ensures
            server.consistent(),
            server.data_path() == data_path@,
            server.store().organizations.len() == 0,
            server.store().documents.len() == 0,
            server.sessions() == Map::<Seq<u8>, SessionView>::empty(),
    {
        LocalServer {
            data_path: data_path.to_owned(),
            sessions: SessionManager::new(SESSION_TIMEOUT),
            store: ObjectStore::new(),
        }
    }

    /// A server without sessions over a store that was kept from an earlier
    /// run.
    pub fn from_store(data_path: &str, store: ObjectStore) -> (server: LocalServer)
        requires
            store@.wf(),
        ensures
            server.consistent(),
            server.data_path() == data_path@,
            server.store() == store@,
            server.sessions() == Map::<Seq<u8>, SessionView>::empty(),
    {
        LocalServer {
            data_path: data_path.to_owned(),
            sessions: SessionManager::new(SESSION_TIMEOUT),
            store,
        }
    }

    /// The directory under which the store is kept on disk.
    pub fn data_directory(&self) -> (path: &str)
        ensures
            path@ == self.data_path(),
    {
        self.data_path.as_str()
    }

    /// The store, for whoever keeps it on disk.
    pub fn object_store(&self) -> (store: &ObjectStore)
        ensures
            store@ == self.store(),
    {
        &self.store
    }

    /// The name of the organization that a token stands for, if its session
    /// is live; the session then counts as used now.
    fn organization_of_token(&mut self, token: &Token) -> (name: Option<String>)
        requires
            old(self).consistent(),
        ensures
            final(self).consistent(),
            final(self).store() == old(self).store(),
            final(self).data_path() == old(self).data_path(),
            name.is_some() ==> old(self).store().has_organization(name.unwrap()@),
            exists|now: u128| #[trigger]
                was_looked_up(
                    old(self).sessions(),
                    final(self).sessions(),
                    SESSION_TIMEOUT,
                    token@,
                    now,
                    optional_text(name),
                ),
    {
        let ghost before = self.sessions@;
        let ghost timeout = self.sessions.timeout();
        let name = self.sessions.get_organization_name_from_token(token);
        proof {
            let now = choose|now: u128| #[trigger]
                was_looked_up(before, self.sessions@, timeout, token@, now, optional_text(name));
            assert(was_looked_up(
                old(self).sessions(),
                self.sessions(),
                SESSION_TIMEOUT,
                token@,
                now,
                optional_text(name),
            ));
            let after = self.sessions@;
            assert forall|t: Seq<u8>| after.dom().contains(t) implies before.dom().contains(t)
                && (#[trigger] after[t]).organization_name == before[t].organization_name by {}
            assert(sessions_belong(after, self.store@));
            if name.is_some() {
                assert(before.dom().contains(token@));
                assert(self.store@.has_organization(before[token@].organization_name));
            }
        }
        name
    }
}

/// How an endpoint finds the organization of its caller: the token was looked
/// up at `now`, which left the sessions as `after`.
pub open spec fn caller_at(before: Sessions, after: Sessions, token: Seq<u8>, now: u128) -> Option<
    Seq<char>,
> {
    organization_of(before, SESSION_TIMEOUT, token, now)
}

/// The token was looked up at `now`: the expired sessions are gone and the
/// token's session, if live, counts as used.
pub open spec fn looked_up(before: Sessions, after: Sessions, token: Seq<u8>, now: u128) -> bool {
    after == after_lookup(before, SESSION_TIMEOUT, token, now)
}

/// What `revoke_user` does for a caller: without a live session it is refused
/// with `ServerError`; with one the user is removed if the store allows it.
pub open spec fn user_revoked(
    sessions_before: Sessions,
    sessions_after: Sessions,
    token: Seq<u8>,
    now: u128,
    user_name: Seq<char>,
    before: StoreView,
    after: StoreView,
    result: Result<(), VaultError>,
) -> bool {
    looked_up(sessions_before, sessions_after, token, now) && match caller_at(
        sessions_before,
        sessions_after,
        token,
        now,
    ) {
        Some(organization) => {
            &&& result.is_ok() == before.may_revoke_user(organization, user_name)
            &&& result.is_err() ==> result.unwrap_err() == VaultError::ServerError && after
                == before
            &&& result.is_ok() ==> after == before.with_organization_at(
                before.organization_position(organization),
                before.organization(organization).without_user_at(
                    before.organization(organization).user_position(user_name),
                ),
            )
        },
        None => result == Err::<(), VaultError>(VaultError::ServerError) && after == before,
    }
}

/// What `new_document` does for a caller: without a live session it is
/// refused with `ServerError`; with one the document is stored under a new id
/// of 32 bytes, unless the id that was drawn is taken (`FileError`).
pub open spec fn document_stored(
    sessions_before: Sessions,
    sessions_after: Sessions,
    token: Seq<u8>,
    now: u128,
    document_id: Seq<u8>,
    document: EncryptedDocumentView,
    key: Seq<u8>,
    before: StoreView,
    after: StoreView,
    result: Result<(), VaultError>,
) -> bool {
    looked_up(sessions_before, sessions_after, token, now) && match caller_at(
        sessions_before,
        sessions_after,
        token,
        now,
    ) {
        Some(organization) => {
            &&& document_id.len() == DOCUMENT_ID_LENGTH_BYTES
            &&& before.has_document(document_id) ==> result == Err::<(), VaultError>(
                VaultError::FileError,
            )
            &&& !before.has_document(document_id) ==> result.is_ok()
            &&& result.is_err() ==> after == before
            &&& result.is_ok() ==> after == before.with_new_document(
                before.organization_position(organization),
                document_id,
                document,
                key,
            )
        },
        None => result == Err::<(), VaultError>(VaultError::ServerError) && after == before,
    }
}

/// What `list_documents` answers a caller: the listing of its organization;
/// `ServerError` without a live session.
pub open spec fn documents_listed(
    sessions_before: Sessions,
    sessions_after: Sessions,
    token: Seq<u8>,
    now: u128,
    store: StoreView,
    result: Result<Vec<ListedDocument>, VaultError>,
) -> bool {
    looked_up(sessions_before, sessions_after, token, now) && match caller_at(
        sessions_before,
        sessions_after,
        token,
        now,
    ) {
        Some(organization) => result.is_ok() && listing_view(result.unwrap()@) == store.listing(
            organization,
        ),
        None => result.is_err() && result.unwrap_err() == VaultError::ServerError,
    }
}

/// What `get_document_key` answers a caller: the key that its organization
/// holds for the document; `ServerError` otherwise, the same without a live
/// session and for an organization that does not own the document, whether
/// or not the document exists.
pub open spec fn document_key_given(
    sessions_before: Sessions,
    sessions_after: Sessions,
    token: Seq<u8>,
    now: u128,
    document_id: Seq<u8>,
    store: StoreView,
    result: Result<EncryptedDocumentKey, VaultError>,
) -> bool {
    looked_up(sessions_before, sessions_after, token, now) && match caller_at(
        sessions_before,
        sessions_after,
        token,
        now,
    ) {
        Some(organization) => if store.owns(organization, document_id) {
            result.is_ok() && result.unwrap()@ == store.document_key(organization, document_id)
        } else {
            result.is_err() && result.unwrap_err() == VaultError::ServerError
        },
        None => result.is_err() && result.unwrap_err() == VaultError::ServerError,
    }
}

/// What `get_document` answers a caller: the payload of a document that its
/// organization owns; `ServerError` otherwise, whether or not the document
/// exists.
pub open spec fn document_given(
    sessions_before: Sessions,
    sessions_after: Sessions,
    token: Seq<u8>,
    now: u128,
    document_id: Seq<u8>,
    store: StoreView,
    result: Result<EncryptedDocument, VaultError>,
) -> bool {
    looked_up(sessions_before, sessions_after, token, now) && match caller_at(
        sessions_before,
        sessions_after,
        token,
        now,
    ) {
        Some(organization) => if store.owns(organization, document_id) {
            result.is_ok() && result.unwrap()@ == store.document(document_id)
        } else {
            result.is_err() && result.unwrap_err() == VaultError::ServerError
        },
        None => result.is_err() && result.unwrap_err() == VaultError::ServerError,
    }
}

/// What `update_document` does for a caller: the payload of a document that
/// its organization owns is replaced; otherwise it is refused with
/// `ServerError` and nothing changes.
pub open spec fn document_updated(
    sessions_before: Sessions,
    sessions_after: Sessions,
    token: Seq<u8>,
    now: u128,
    document_id: Seq<u8>,
    document: EncryptedDocumentView,
    before: StoreView,
    after: StoreView,
    result: Result<(), VaultError>,
) -> bool {
    looked_up(sessions_before, sessions_after, token, now) && match caller_at(
        sessions_before,
        sessions_after,
        token,
        now,
    ) {
        Some(organization) => if before.owns(organization, document_id) {
            result.is_ok() && after == before.with_document_at(
                before.document_position(document_id),
                document,
            )
        } else {
            result == Err::<(), VaultError>(VaultError::ServerError) && after == before
        },
        None => result == Err::<(), VaultError>(VaultError::ServerError) && after == before,
    }
}

/// What `delete_document` does for a caller: the key that its organization
/// holds for the document is removed; otherwise it is refused with
/// `ServerError` and nothing changes.
pub open spec fn document_deleted(
    sessions_before: Sessions,
    sessions_after: Sessions,
    token: Seq<u8>,
    now: u128,
    document_id: Seq<u8>,
    before: StoreView,
    after: StoreView,
    result: Result<(), VaultError>,
) -> bool {
    looked_up(sessions_before, sessions_after, token, now) && match caller_at(
        sessions_before,
        sessions_after,
        token,
        now,
    ) {
        Some(organization) => if before.owns(organization, document_id) {
            result.is_ok() && after == before.with_organization_at(
                before.organization_position(organization),
                before.organization(organization).without_document_key_at(
                    before.organization(organization).document_key_position(document_id),
                ),
            )
        } else {
            result == Err::<(), VaultError>(VaultError::ServerError) && after == before
        },
        None => result == Err::<(), VaultError>(VaultError::ServerError) && after == before,
    }
}

/// What `add_owner` does for a caller: the other organization gets the key
/// for a document that the caller's organization owns; otherwise it is
/// refused as the store says, and nothing changes.
pub open spec fn owner_added(
    sessions_before: Sessions,
    sessions_after: Sessions,
    token: Seq<u8>,
    now: u128,
    document_id: Seq<u8>,
    other_organization_name: Seq<char>,
    key: Seq<u8>,
    before: StoreView,
    after: StoreView,
    result: Result<(), VaultError>,
) -> bool {
    looked_up(sessions_before, sessions_after, token, now) && match caller_at(
        sessions_before,
        sessions_after,
        token,
        now,
    ) {
        Some(organization) => {
            &&& result == before.add_owner_outcome(
                organization,
                document_id,
                other_organization_name,
            )
            &&& result.is_err() ==> after == before
            &&& result.is_ok() ==> after == before.with_organization_at(
                before.organization_position(other_organization_name),
                before.organization(other_organization_name).with_document_key(document_id, key),
            )
        },
        None => result == Err::<(), VaultError>(VaultError::ServerError) && after == before,
    }
}

/// What `unlock_vault` answers once the names are accepted and the records
/// found. A session is opened at `now` under a fresh token. The answer holds
/// the records and the token, sealed so that whoever holds the organization's
/// secret key can read it. If the sealing refuses the organization's public
/// key, and only then, the answer is `ServerError` and the session is ended
/// again at `later`: nobody holds its token, and what is left are the
/// sessions that were live.
pub open spec fn vault_unlocked(
    organization_name: Seq<char>,
    records: (UserShareView, UserShareView, ArgonConfig, Seq<u8>),
    token: Seq<u8>,
    now: u128,
    later: u128,
    before: Sessions,
    after: Sessions,
    result: Result<UnlockResponse, VaultError>,
) -> bool {
    &&& token.len() == TOKEN_LENGTH_BYTES
    &&& result.is_err() <==> sealed_box_refuses(records.3)
    &&& result.is_err() ==> {
        &&& result.unwrap_err() == VaultError::ServerError
        &&& after == purged(
            purged(before, now, SESSION_TIMEOUT),
            later,
            SESSION_TIMEOUT,
        ).remove(token)
    }
    &&& result.is_ok() ==> {
        &&& after == after_opening(before, SESSION_TIMEOUT, organization_name, token, now)
        &&& result.unwrap().0@ == records.0
        &&& result.unwrap().1@ == records.1
        &&& result.unwrap().2 == records.2
        &&& result.unwrap().3@ == records.3
        &&& forall|secret_key: Seq<u8>| #[trigger]
            box_public_key(secret_key) == records.3 ==> sealed_box_opened(
                result.unwrap().4@,
                records.3,
                secret_key,
            ) == Some(token)
    }
}

impl ServerConnection for LocalServer {
    open spec fn wf(&self) -> bool {
        self.consistent()
    }

    /// The names are brought to their standard form. A request with a name
    /// that is not acceptable is refused with `ValidationError`, one with
    /// fewer than two users with `ServerError`, one for a name that is taken
    /// with `FileError`. A refused request writes nothing; a granted one adds
    /// the organization, without documents. Sessions are not touched.
    open spec fn answers_create_organization(
        self,
        after: Self,
        organization_name: Seq<char>,
        users: Seq<UserRecordView>,
        public_key: Seq<u8>,
        argon_config: ArgonConfig,
        answer: Result<(), VaultError>,
    ) -> bool {
        &&& after.sessions() == self.sessions()
        &&& after.data_path() == self.data_path()
        &&& match requested_organization(organization_name, users, public_key, argon_config) {
            Err(error) => answer == Err::<(), VaultError>(error) && after.store() == self.store(),
            Ok(organization) => if self.store().has_organization(organization.name) {
                answer == Err::<(), VaultError>(VaultError::FileError) && after.store()
                    == self.store()
            } else {
                answer.is_ok() && after.store() == (StoreView {
                    organizations: self.store().organizations.push(organization),
                    documents: self.store().documents,
                })
            },
        }
    }

    /// Refused with `ValidationError` when a name is not acceptable and with
    /// `ServerError` when the organization or a user is unknown; no session
    /// is opened then. Otherwise a session is opened and the answer is as
    /// `vault_unlocked` says. The store is not touched.
    open spec fn answers_unlock_vault(
        self,
        after: Self,
        organization_name: Seq<char>,
        user_name1: Seq<char>,
        user_name2: Seq<char>,
        answer: Result<UnlockResponse, VaultError>,
    ) -> bool {
        &&& after.store() == self.store()
        &&& after.data_path() == self.data_path()
        &&& if is_acceptable_name(organization_name) && is_acceptable_name(user_name1)
            && is_acceptable_name(user_name2) {
            match self.store().unlock_records(
                standard_form(organization_name),
                standard_form(user_name1),
                standard_form(user_name2),
            ) {
                None => answer.is_err() && answer.unwrap_err() == VaultError::ServerError
                    && after.sessions() == self.sessions(),
                Some(records) => exists|token: Seq<u8>, now: u128, later: u128| #[trigger]
                    vault_unlocked(
                        standard_form(organization_name),
                        records,
                        token,
                        now,
                        later,
                        self.sessions(),
                        after.sessions(),
                        answer,
                    ),
            }
        } else {
            answer.is_err() && answer.unwrap_err() == VaultError::ValidationError
                && after.sessions() == self.sessions()
        }
    }

    /// Refused with `ValidationError`, and nothing touched, when the name is
    /// not acceptable; otherwise the token is looked up, and the rest is as
    /// `user_revoked` says of the standard name.
    open spec fn answers_revoke_user(
        self,
        after: Self,
        token: Seq<u8>,
        user_name: Seq<char>,
        answer: Result<(), VaultError>,
    ) -> bool {
        &&& after.data_path() == self.data_path()
        &&& if is_acceptable_name(user_name) {
            exists|now: u128| #[trigger]
                user_revoked(
                    self.sessions(),
                    after.sessions(),
                    token,
                    now,
                    standard_form(user_name),
                    self.store(),
                    after.store(),
                    answer,
                )
        } else {
            answer == Err::<(), VaultError>(VaultError::ValidationError) && after.store()
                == self.store() && after.sessions() == self.sessions()
        }
    }

    /// Always granted: the session of the token is ended, if there was one.
    /// The store is not touched.
    open spec fn answers_revoke_token(
        self,
        after: Self,
        token: Seq<u8>,
        answer: Result<(), VaultError>,
    ) -> bool {
        &&& answer.is_ok()
        &&& after.store() == self.store()
        &&& after.data_path() == self.data_path()
        &&& exists|now: u128| #[trigger]
            was_ended(self.sessions(), after.sessions(), SESSION_TIMEOUT, token, now)
    }

    /// The token is looked up, and the rest is as `document_stored` says for
    /// the id of 32 random bytes that was drawn.
    open spec fn answers_new_document(
        self,
        after: Self,
        token: Seq<u8>,
        encrypted_document: EncryptedDocumentView,
        encrypted_key: Seq<u8>,
        answer: Result<(), VaultError>,
    ) -> bool {
        &&& after.data_path() == self.data_path()
        &&& exists|now: u128, document_id: Seq<u8>| #[trigger]
            document_stored(
                self.sessions(),
                after.sessions(),
                token,
                now,
                document_id,
                encrypted_document,
                encrypted_key,
                self.store(),
                after.store(),
                answer,
            )
    }

    /// The token is looked up, and the answer is as `documents_listed` says.
    /// The store is not touched.
    open spec fn answers_list_documents(
        self,
        after: Self,
        token: Seq<u8>,
        answer: Result<Vec<ListedDocument>, VaultError>,
    ) -> bool {
        &&& after.store() == self.store()
        &&& after.data_path() == self.data_path()
        &&& exists|now: u128| #[trigger]
            documents_listed(self.sessions(), after.sessions(), token, now, self.store(), answer)
    }

    /// The token is looked up, and the answer is as `document_key_given`
    /// says. The store is not touched.
    open spec fn answers_get_document_key(
        self,
        after: Self,
        token: Seq<u8>,
        document_id: Seq<u8>,
        answer: Result<EncryptedDocumentKey, VaultError>,
    ) -> bool {
        &&& after.store() == self.store()
        &&& after.data_path() == self.data_path()
        &&& exists|now: u128| #[trigger]
            document_key_given(
                self.sessions(),
                after.sessions(),
                token,
                now,
                document_id,
                self.store(),
                answer,
            )
    }

    /// The token is looked up, and the answer is as `document_given` says.
    /// The store is not touched.
    open spec fn answers_get_document(
        self,
        after: Self,
        token: Seq<u8>,
        document_id: Seq<u8>,
        answer: Result<EncryptedDocument, VaultError>,
    ) -> bool {
        &&& after.store() == self.store()
        &&& after.data_path() == self.data_path()
        &&& exists|now: u128| #[trigger]
            document_given(
                self.sessions(),
                after.sessions(),
                token,
                now,
                document_id,
                self.store(),
                answer,
            )
    }

    /// The token is looked up, and the rest is as `document_updated` says.
    open spec fn answers_update_document(
        self,
        after: Self,
        token: Seq<u8>,
        document_id: Seq<u8>,
        encrypted_document: EncryptedDocumentView,
        answer: Result<(), VaultError>,
    ) -> bool {
        &&& after.data_path() == self.data_path()
        &&& exists|now: u128| #[trigger]
            document_updated(
                self.sessions(),
                after.sessions(),
                token,
                now,
                document_id,
                encrypted_document,
                self.store(),
                after.store(),
                answer,
            )
    }

    /// The token is looked up, and the rest is as `document_deleted` says.
    open spec fn answers_delete_document(
        self,
        after: Self,
        token: Seq<u8>,
        document_id: Seq<u8>,
        answer: Result<(), VaultError>,
    ) -> bool {
        &&& after.data_path() == self.data_path()
        &&& exists|now: u128| #[trigger]
            document_deleted(
                self.sessions(),
                after.sessions(),
                token,
                now,
                document_id,
                self.store(),
                after.store(),
                answer,
            )
    }

    /// The public key of the organization of that name, in its standard
    /// form: `ValidationError` when the name is not acceptable, `ServerError`
    /// when the organization is unknown. Nothing is touched.
    open spec fn answers_get_public_key_of_organization(
        self,
        after: Self,
        organization_name: Seq<char>,
        answer: Result<PublicKey, VaultError>,
    ) -> bool {
        &&& after.store() == self.store()
        &&& after.sessions() == self.sessions()
        &&& after.data_path() == self.data_path()
        &&& if !is_acceptable_name(organization_name) {
            answer.is_err() && answer.unwrap_err() == VaultError::ValidationError
        } else if self.store().has_organization(standard_form(organization_name)) {
            answer.is_ok() && answer.unwrap()@ == self.store().organization(
                standard_form(organization_name),
            ).public_key
        } else {
            answer.is_err() && answer.unwrap_err() == VaultError::ServerError
        }
    }

    /// Refused with `ValidationError`, and nothing touched, when the other
    /// name is not acceptable; otherwise the token is looked up, and the rest
    /// is as `owner_added` says of the standard name.
    open spec fn answers_add_owner(
        self,
        after: Self,
        token: Seq<u8>,
        document_id: Seq<u8>,
        other_organization_name: Seq<char>,
        encrypted_document_key: Seq<u8>,
        answer: Result<(), VaultError>,
    ) -> bool {
        &&& after.data_path() == self.data_path()
        &&& if is_acceptable_name(other_organization_name) {
            exists|now: u128| #[trigger]
                owner_added(
                    self.sessions(),
                    after.sessions(),
                    token,
                    now,
                    document_id,
                    standard_form(other_organization_name),
                    encrypted_document_key,
                    self.store(),
                    after.store(),
                    answer,
                )
        } else {
            answer == Err::<(), VaultError>(VaultError::ValidationError) && after.store()
                == self.store() && after.sessions() == self.sessions()
        }
    }

    /// Creates an organization, as `answers_create_organization` says.
    fn create_organization(
        &mut self,
        organization_name: &str,
        users_data: &Vec<(String, UserShare)>,
        public_key: &PublicKey,
        argon2_config: &ArgonConfig,
    ) -> (result: Result<(), VaultError>) {
        let name = match validate_and_standardize_name(organization_name) {
            Ok(name) => name,
            Err(_) => {
                return Err(VaultError::ValidationError);
            },
        };
        if users_data.len() < 2 {
            return Err(VaultError::ServerError);
        }
        let validated = match validate_users(users_data) {
            Ok(validated) => validated,
            Err(_) => {
                return Err(VaultError::ValidationError);
            },
        };
        if validated.len() < 2 {
            return Err(VaultError::ServerError);
        }
        let ghost stored = self.store@;
        let result = self.store.create_organization(
            name.as_str(),
            &validated,
            public_key,
            argon2_config,
        );
        proof {
            lemma_sessions_still_belong(self.sessions@, stored, self.store@);
        }
        result
    }

    /// Opens a session for an organization and hands out what two of its
    /// users need to unlock the vault, as `answers_unlock_vault` says.
    fn unlock_vault(&mut self, organization_name: &str, user_name1: &str, user_name2: &str) -> (result:
        Result<UnlockResponse, VaultError>) {
        let organization = match validate_and_standardize_name(organization_name) {
            Ok(name) => name,
            Err(_) => {
                return Err(VaultError::ValidationError);
            },
        };
        let first = match validate_and_standardize_name(user_name1) {
            Ok(name) => name,
            Err(_) => {
                return Err(VaultError::ValidationError);
            },
        };
        let second = match validate_and_standardize_name(user_name2) {
            Ok(name) => name,
            Err(_) => {
                return Err(VaultError::ValidationError);
            },
        };
        let records = match self.store.unlock_records(
            organization.as_str(),
            first.as_str(),
            second.as_str(),
        ) {
            Ok(records) => records,
            Err(_) => {
                return Err(VaultError::ServerError);
            },
        };
        let ghost before = self.sessions@;
        let ghost timeout = self.sessions.timeout();
        let token = self.sessions.new_session(organization.as_str());
        let ghost opened = self.sessions@;
        let ghost now = choose|now: u128| #[trigger]
            was_opened(before, opened, timeout, organization@, token@, now);
        proof {
            assert(was_opened(before, opened, timeout, organization@, token@, now));
            assert forall|t: Seq<u8>| opened.dom().contains(t) implies self.store@.has_organization(
                (#[trigger] opened[t]).organization_name,
            ) by {
                if t != token@ {
                    assert(before.dom().contains(t));
                    assert(opened[t] == before[t]);
                }
            }
        }
        let sealed = sealed_box_seal(token.as_slice(), &records.3);
        let ghost mut later: u128 = now;
        let result = match sealed {
            Some(encrypted_token) => Ok((records.0, records.1, records.2, records.3, encrypted_token)),
            None => {
                // Nobody will ever hold this token.
                self.sessions.end_session(&token);
                proof {
                    later = choose|later: u128| #[trigger]
                        was_ended(opened, self.sessions@, timeout, token@, later);
                    assert(was_ended(opened, self.sessions@, timeout, token@, later));
                    let ended = self.sessions@;
                    assert(ended =~= purged(
                        purged(before, now, SESSION_TIMEOUT),
                        later,
                        SESSION_TIMEOUT,
                    ).remove(token@));
                    assert forall|t: Seq<u8>| ended.dom().contains(t) implies opened.dom().contains(
                        t,
                    ) && (#[trigger] ended[t]) == opened[t] by {}
                    assert(sessions_belong(ended, self.store@));
                }
                Err(VaultError::ServerError)
            },
        };
        proof {
            assert(vault_unlocked(
                standard_form(organization_name@),
                old(self).store().unlock_records(
                    standard_form(organization_name@),
                    standard_form(user_name1@),
                    standard_form(user_name2@),
                ).unwrap(),
                token@,
                now,
                later,
                old(self).sessions(),
                self.sessions(),
                result,
            ));
        }
        result
    }

    /// Removes a user from the caller's organization, as
    /// `answers_revoke_user` says.
    fn revoke_user(&mut self, token: &Token, user_name: &str) -> (result: Result<(), VaultError>) {
        let user = match validate_and_standardize_name(user_name) {
            Ok(name) => name,
            Err(_) => {
                return Err(VaultError::ValidationError);
            },
        };
        let ghost before = self.sessions@;
        let caller = self.organization_of_token(token);
        let ghost now = choose|now: u128| #[trigger]
            was_looked_up(before, self.sessions@, SESSION_TIMEOUT, token@, now, optional_text(caller));
        let ghost stored = self.store@;
        let result = match caller {
            Some(organization) => self.store.revoke_user(organization.as_str(), user.as_str()),
            None => Err(VaultError::ServerError),
        };
        proof {
            lemma_sessions_still_belong(self.sessions@, stored, self.store@);
            assert(user_revoked(
                old(self).sessions(),
                self.sessions(),
                token@,
                now,
                standard_form(user_name@),
                old(self).store(),
                self.store(),
                result,
            ));
        }
        result
    }

    /// Ends the session of a token, as `answers_revoke_token` says.
    fn revoke_token(&mut self, token: &Token) -> (result: Result<(), VaultError>) {
        let ghost before = self.sessions@;
        let ghost timeout = self.sessions.timeout();
        self.sessions.end_session(token);
        proof {
            let now = choose|now: u128| #[trigger]
                was_ended(before, self.sessions@, timeout, token@, now);
            assert(was_ended(
                old(self).sessions(),
                self.sessions(),
                SESSION_TIMEOUT,
                token@,
                now,
            ));
        }
        Ok(())
    }

    /// Stores a new document for the caller's organization, under an id of
    /// 32 random bytes, as `answers_new_document` says.
    fn new_document(
        &mut self,
        token: &Token,
        encrypted_document: &EncryptedDocument,
        encrypted_key: &EncryptedDocumentKey,
    ) -> (result: Result<(), VaultError>) {
        let ghost before = self.sessions@;
        let caller = self.organization_of_token(token);
        let ghost now = choose|now: u128| #[trigger]
            was_looked_up(before, self.sessions@, SESSION_TIMEOUT, token@, now, optional_text(caller));
        let document_id = random_bytes(DOCUMENT_ID_LENGTH_BYTES);
        let ghost stored = self.store@;
        let result = match caller {
            Some(organization) => self.store.new_document(
                organization.as_str(),
                &document_id,
                encrypted_document,
                encrypted_key,
            ),
            None => Err(VaultError::ServerError),
        };
        proof {
            lemma_sessions_still_belong(self.sessions@, stored, self.store@);
            assert(document_stored(
                old(self).sessions(),
                self.sessions(),
                token@,
                now,
                document_id@,
                encrypted_document@,
                encrypted_key@,
                old(self).store(),
                self.store(),
                result,
            ));
        }
        result
    }

    /// Lists the documents of the caller's organization, as
    /// `answers_list_documents` says.
    fn list_documents(&mut self, token: &Token) -> (result: Result<Vec<ListedDocument>, VaultError>) {
        let ghost before = self.sessions@;
        let caller = self.organization_of_token(token);
        let ghost now = choose|now: u128| #[trigger]
            was_looked_up(before, self.sessions@, SESSION_TIMEOUT, token@, now, optional_text(caller));
        let result = match caller {
            Some(organization) => match self.store.list_documents(organization.as_str()) {
                Ok(listing) => Ok(listing),
                Err(_) => Err(VaultError::ServerError),
            },
            None => Err(VaultError::ServerError),
        };
        proof {
            assert(documents_listed(
                old(self).sessions(),
                self.sessions(),
                token@,
                now,
                old(self).store(),
                result,
            ));
        }
        result
    }

    /// The key that the caller's organization holds for a document, as
    /// `answers_get_document_key` says.
    fn get_document_key(&mut self, token: &Token, document_id: &DocumentID) -> (result: Result<
        EncryptedDocumentKey,
        VaultError,
    >) {
        let ghost before = self.sessions@;
        let caller = self.organization_of_token(token);
        let ghost now = choose|now: u128| #[trigger]
            was_looked_up(before, self.sessions@, SESSION_TIMEOUT, token@, now, optional_text(caller));
        let result = match caller {
            Some(organization) => match self.store.get_document_key(
                organization.as_str(),
                document_id,
            ) {
                Ok(key) => Ok(key),
                Err(_) => Err(VaultError::ServerError),
            },
            None => Err(VaultError::ServerError),
        };
        proof {
            assert(document_key_given(
                old(self).sessions(),
                self.sessions(),
                token@,
                now,
                document_id@,
                self.store(),
                result,
            ));
        }
        result
    }

    /// The payload of a document that the caller's organization owns, as
    /// `answers_get_document` says.
    fn get_document(&mut self, token: &Token, document_id: &DocumentID) -> (result: Result<
        EncryptedDocument,
        VaultError,
    >) {
        let ghost before = self.sessions@;
        let caller = self.organization_of_token(token);
        let ghost now = choose|now: u128| #[trigger]
            was_looked_up(before, self.sessions@, SESSION_TIMEOUT, token@, now, optional_text(caller));
        let result = match caller {
            Some(organization) => match self.store.get_document(
                organization.as_str(),
                document_id,
            ) {
                Ok(document) => Ok(document),
                Err(_) => Err(VaultError::ServerError),
            },
            None => Err(VaultError::ServerError),
        };
        proof {
            assert(document_given(
                old(self).sessions(),
                self.sessions(),
                token@,
                now,
                document_id@,
                self.store(),
                result,
            ));
        }
        result
    }

    /// Replaces the payload of a document that the caller's organization
    /// owns, for all its owners, as `answers_update_document` says.
    fn update_document(
        &mut self,
        token: &Token,
        document_id: &DocumentID,
        encrypted_document: &EncryptedDocument,
    ) -> (result: Result<(), VaultError>) {
        let ghost before = self.sessions@;
        let caller = self.organization_of_token(token);
        let ghost now = choose|now: u128| #[trigger]
            was_looked_up(before, self.sessions@, SESSION_TIMEOUT, token@, now, optional_text(caller));
        let ghost stored = self.store@;
        let result = match caller {
            Some(organization) => self.store.update_document(
                organization.as_str(),
                document_id,
                encrypted_document,
            ),
            None => Err(VaultError::ServerError),
        };
        proof {
            lemma_sessions_still_belong(self.sessions@, stored, self.store@);
            assert(document_updated(
                old(self).sessions(),
                self.sessions(),
                token@,
                now,
                document_id@,
                encrypted_document@,
                old(self).store(),
                self.store(),
                result,
            ));
        }
        result
    }

    /// Takes a document away from the caller's organization; other owners
    /// keep it, as `answers_delete_document` says.
    fn delete_document(&mut self, token: &Token, document_id: &DocumentID) -> (result: Result<
        (),
        VaultError,
    >) {
        let ghost before = self.sessions@;
        let caller = self.organization_of_token(token);
        let ghost now = choose|now: u128| #[trigger]
            was_looked_up(before, self.sessions@, SESSION_TIMEOUT, token@, now, optional_text(caller));
        let ghost stored = self.store@;
        let result = match caller {
            Some(organization) => self.store.delete_document(organization.as_str(), document_id),
            None => Err(VaultError::ServerError),
        };
        proof {
            lemma_sessions_still_belong(self.sessions@, stored, self.store@);
            assert(document_deleted(
                old(self).sessions(),
                self.sessions(),
                token@,
                now,
                document_id@,
                old(self).store(),
                self.store(),
                result,
            ));
        }
        result
    }

    /// The public key of an organization, as
    /// `answers_get_public_key_of_organization` says.
    fn get_public_key_of_organization(&mut self, organization_name: &str) -> (result: Result<
        PublicKey,
        VaultError,
    >) {
        let name = match validate_and_standardize_name(organization_name) {
            Ok(name) => name,
            Err(_) => {
                return Err(VaultError::ValidationError);
            },
        };
        match self.store.get_public_key_of_organization(name.as_str()) {
            Ok(key) => Ok(key),
            Err(_) => Err(VaultError::ServerError),
        }
    }

    /// Shares a document of the caller's organization with another
    /// organization, as `answers_add_owner` says.
    fn add_owner(
        &mut self,
        token: &Token,
        document_id: &DocumentID,
        other_organization_name: &str,
        encrypted_document_key: &EncryptedDocumentKey,
    ) -> (result: Result<(), VaultError>) {
        let other = match validate_and_standardize_name(other_organization_name) {
            Ok(name) => name,
            Err(_) => {
                return Err(VaultError::ValidationError);
            },
        };
        let ghost before = self.sessions@;
        let caller = self.organization_of_token(token);
        let ghost now = choose|now: u128| #[trigger]
            was_looked_up(before, self.sessions@, SESSION_TIMEOUT, token@, now, optional_text(caller));
        let ghost stored = self.store@;
        let result = match caller {
            Some(organization) => self.store.add_owner(
                organization.as_str(),
                document_id,
                other.as_str(),
                encrypted_document_key,
            ),
            None => Err(VaultError::ServerError),
        };
        proof {
            lemma_sessions_still_belong(self.sessions@, stored, self.store@);
            assert(owner_added(
                old(self).sessions(),
                self.sessions(),
                token@,
                now,
                document_id@,
                standard_form(other_organization_name@),
                encrypted_document_key@,
                old(self).store(),
                self.store(),
                result,
            ));
        }
        result
    }
}

} // verus!
