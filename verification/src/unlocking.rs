//! Unlocking, from the organization's records to the open session: what the
//! client and the server in process state each of its own half, put together.

use vstd::prelude::*;
use crate::client::key_pair::{
    password_key, private_key_recovered, private_key_retrieved, protects, recovers,
};
use crate::client::session_controller::{
    response_view, session_of_private_key, session_unlocked, unlock_answer_read, Controller,
};
use crate::data::{ArgonConfig, SecretKey, UserRecordView};
use crate::error::VaultError;
use crate::primitives::sealed_box::{box_public_key, sealed_box_opened, sealed_box_refuses};
use crate::server::local_server::{
    lists_user, names_in_order, validated_users, vault_unlocked, LocalServer, SESSION_TIMEOUT,
};
use crate::server::object_store::OrganizationView;
use crate::server::session_manager::after_opening;
use crate::server_connection::{ServerConnection, UnlockResponse};
use crate::validation::{
    is_acceptable_name, is_standard_name, lemma_standard_form_is_standard, standard_form,
};

verus! {

/// Two different users of an organization unlock its vault with their
/// passwords.
///
/// The server stores an organization whose records and public key protect a
/// secret key under the users' passwords, as `create_protected_key_pair`
/// makes them. It is asked to unlock in the names of two different users, and
/// the session is opened from its answer with their passwords.
///
/// If the server answers, the keys of the two passwords get out of the answer
/// the secret key that belongs to the organization's public key, which any
/// two users recover, and a token that the server has bound to the
/// organization; and a session that is opened holds the public key, that
/// secret key and that token. Two failures are left. `ServerError` is the
/// server's, exactly when the sealing refuses the organization's public key.
/// `CryptographyError` is the hash function's, when on this machine it gave
/// no key for a password; what happens once it has given the keys is in
/// `lemma_the_keys_of_the_right_passwords_unlock`.
pub proof fn lemma_the_right_passwords_unlock(
    before: LocalServer,
    after: LocalServer,
    organization_name: Seq<char>,
    username1: Seq<char>,
    username2: Seq<char>,
    user_credentials: Seq<(Seq<char>, Seq<char>)>,
    first: int,
    second: int,
    answer: Result<UnlockResponse, VaultError>,
    result: Result<Controller, VaultError>,
)
    requires
        before.consistent(),
        is_acceptable_name(organization_name),
        is_acceptable_name(username1),
        is_acceptable_name(username2),
        before.store().has_organization(standard_form(organization_name)),
        protects(
            before.store().organization(standard_form(organization_name)).users,
            before.store().organization(standard_form(organization_name)).public_key,
            user_credentials,
            before.store().organization(standard_form(organization_name)).argon_config,
        ),
        0 <= first < before.store().organization(standard_form(organization_name)).users.len(),
        0 <= second < before.store().organization(standard_form(organization_name)).users.len(),
        first != second,
        standard_form(username1) == user_credentials[first].0,
        standard_form(username2) == user_credentials[second].0,
        before.answers_unlock_vault(
            after,
            standard_form(organization_name),
            standard_form(username1),
            standard_form(username2),
            answer,
        ),
        unlock_answer_read(
            answer,
            user_credentials[first].1,
            user_credentials[second].1,
            result,
        ),
    ensures
        after.store() == before.store(),
        answer.is_err() <==> sealed_box_refuses(
            before.store().organization(standard_form(organization_name)).public_key,
        ),
        answer.is_err() ==> (result matches Err(VaultError::ServerError)),
        answer.is_ok() && result.is_err() ==> (result matches Err(VaultError::CryptographyError)),
        answer.is_ok() ==> {
            let organization = before.store().organization(standard_form(organization_name));
            let unlocked = session_unlocked(
                response_view(answer.unwrap()),
                user_credentials[first].1,
                user_credentials[second].1,
            );
            &&& answer.unwrap().3@ == organization.public_key
            &&& unlocked.is_some()
            &&& box_public_key(unlocked.unwrap().0) == organization.public_key
            &&& recovers(
                organization.users,
                unlocked.unwrap().0,
                user_credentials,
                organization.argon_config,
            )
            &&& after.sessions().dom().contains(unlocked.unwrap().1)
            &&& after.sessions()[unlocked.unwrap().1].organization_name == standard_form(
                organization_name,
            )
            &&& result.is_ok() ==> result.unwrap().public_key() == organization.public_key && (
                result.unwrap().secret_key(),
                result.unwrap().token(),
            ) == unlocked.unwrap()
        },
{
    let name = standard_form(organization_name);
    let user1 = standard_form(username1);
    let user2 = standard_form(username2);
    lemma_standard_form_is_standard(organization_name);
    lemma_standard_form_is_standard(username1);
    lemma_standard_form_is_standard(username2);
    before.lemma_store_is_well_formed();
    let store = before.store();
    let organization = store.organization(name);
    assert(organization == store.organizations[store.organization_position(name)]);
    assert(organization.wf());
    let users = organization.users;
    assert(users[first].name == user1);
    assert(users[second].name == user2);
    assert(organization.has_user(user1));
    assert(organization.has_user(user2));
    let found1 = organization.user_position(user1);
    let found2 = organization.user_position(user2);
    assert(found1 == first) by {
        if found1 < first {
            assert(users[found1].name != users[first].name);
        } else if first < found1 {
            assert(users[first].name != users[found1].name);
        }
    }
    assert(found2 == second) by {
        if found2 < second {
            assert(users[found2].name != users[second].name);
        } else if second < found2 {
            assert(users[second].name != users[found2].name);
        }
    }
    let records = store.unlock_records(name, user1, user2).unwrap();
    assert(records == (
        users[first].share,
        users[second].share,
        organization.argon_config,
        organization.public_key,
    ));
    let secret_key = choose|secret_key: Seq<u8>| #[trigger]
        box_public_key(secret_key) == organization.public_key && recovers(
            users,
            secret_key,
            user_credentials,
            organization.argon_config,
        );
    assert(private_key_retrieved(
        user_credentials[first].1,
        users[first].share,
        user_credentials[second].1,
        users[second].share,
        organization.argon_config,
    ) == Some(secret_key));
    let (token, now, later) = choose|token: Seq<u8>, now: u128, later: u128| #[trigger]
        vault_unlocked(
            name,
            records,
            token,
            now,
            later,
            before.sessions(),
            after.sessions(),
            answer,
        );
    if answer.is_ok() {
        let response = answer.unwrap();
        assert(sealed_box_opened(response.4@, organization.public_key, secret_key) == Some(
            token,
        ));
        assert(session_unlocked(
            response_view(response),
            user_credentials[first].1,
            user_credentials[second].1,
        ) == Some((secret_key, token)));
        assert(after.sessions() == after_opening(
            before.sessions(),
            SESSION_TIMEOUT,
            name,
            token,
            now,
        ));
    }
}

/// Once the hash function has given the keys of their passwords, two
/// different users of an organization unlock its vault, unless the sealing
/// refuses the organization's public key.
///
/// The server stores an organization whose records and public key protect a
/// secret key under the users' passwords, and seals a token to a public key
/// that the sealing does not refuse. The secret key is recovered from the
/// answer with the two keys, as `retrieve_private_key_with_keys` does, and
/// the session opened with what was recovered, as `session_from_private_key`
/// does. Then the server has answered, the secret key is recovered, and the
/// session is opened: it holds the organization's public key, the secret key
/// that belongs to it, and a token that the server has bound to the
/// organization.
pub proof fn lemma_the_keys_of_the_right_passwords_unlock(
    before: LocalServer,
    after: LocalServer,
    organization_name: Seq<char>,
    username1: Seq<char>,
    username2: Seq<char>,
    user_credentials: Seq<(Seq<char>, Seq<char>)>,
    first: int,
    second: int,
    answer: Result<UnlockResponse, VaultError>,
    private_key: Result<SecretKey, VaultError>,
    result: Result<Controller, VaultError>,
)
    requires
        before.consistent(),
        is_acceptable_name(organization_name),
        is_acceptable_name(username1),
        is_acceptable_name(username2),
        before.store().has_organization(standard_form(organization_name)),
        protects(
            before.store().organization(standard_form(organization_name)).users,
            before.store().organization(standard_form(organization_name)).public_key,
            user_credentials,
            before.store().organization(standard_form(organization_name)).argon_config,
        ),
        !sealed_box_refuses(
            before.store().organization(standard_form(organization_name)).public_key,
        ),
        0 <= first < before.store().organization(standard_form(organization_name)).users.len(),
        0 <= second < before.store().organization(standard_form(organization_name)).users.len(),
        first != second,
        standard_form(username1) == user_credentials[first].0,
        standard_form(username2) == user_credentials[second].0,
        before.answers_unlock_vault(
            after,
            standard_form(organization_name),
            standard_form(username1),
            standard_form(username2),
            answer,
        ),
        answer.is_ok() ==> private_key_recovered(
            password_key(
                user_credentials[first].1,
                answer.unwrap().0@.salt,
                answer.unwrap().2,
            ),
            answer.unwrap().0@,
            password_key(
                user_credentials[second].1,
                answer.unwrap().1@.salt,
                answer.unwrap().2,
            ),
            answer.unwrap().1@,
            private_key,
        ) && session_of_private_key(answer.unwrap(), private_key, result),
    ensures
        answer.is_ok(),
        private_key.is_ok(),
        result.is_ok(),
        ({
            let organization = before.store().organization(standard_form(organization_name));
            let session = result.unwrap();
            &&& session.public_key() == organization.public_key
            &&& session.secret_key() == private_key.unwrap()@
            &&& box_public_key(session.secret_key()) == organization.public_key
            &&& recovers(
                organization.users,
                session.secret_key(),
                user_credentials,
                organization.argon_config,
            )
            &&& after.sessions().dom().contains(session.token())
            &&& after.sessions()[session.token()].organization_name == standard_form(
                organization_name,
            )
        }),
{
    let opened: Result<Controller, VaultError> = match answer {
        Ok(_) => Err(VaultError::CryptographyError),
        Err(error) => Err(error),
    };
    lemma_the_right_passwords_unlock(
        before,
        after,
        organization_name,
        username1,
        username2,
        user_credentials,
        first,
        second,
        answer,
        opened,
    );
    let response = answer.unwrap();
    let unlocked = session_unlocked(
        response_view(response),
        user_credentials[first].1,
        user_credentials[second].1,
    );
    assert(private_key_retrieved(
        user_credentials[first].1,
        response.0@,
        user_credentials[second].1,
        response.1@,
        response.2,
    ) == Some(unlocked.unwrap().0));
    assert(sealed_box_opened(response.4@, response.3@, unlocked.unwrap().0) == Some(
        unlocked.unwrap().1,
    ));
}

/// Users under standard names, no two alike, pass the server's validation as
/// they are.
pub proof fn lemma_users_in_order_are_kept(users: Seq<UserRecordView>)
    requires
        names_in_order(users),
    ensures
        validated_users(users) == Some(users),
    decreases users.len(),
{
    if users.len() == 0 {
        assert(users =~= Seq::empty());
    } else {
        let earlier = users.drop_last();
        let last = users.last();
        assert forall|i: int| 0 <= i < earlier.len() implies (#[trigger] earlier[i]) == users[i] by {}
        assert(names_in_order(earlier)) by {
            assert forall|i: int| 0 <= i < earlier.len() implies is_standard_name(
                (#[trigger] earlier[i]).name,
            ) by {
                assert(earlier[i] == users[i]);
            }
            assert forall|i: int, j: int| 0 <= i < j < earlier.len() implies (
            #[trigger] earlier[i]).name != (#[trigger] earlier[j]).name by {
                assert(earlier[i] == users[i]);
                assert(earlier[j] == users[j]);
            }
        }
        lemma_users_in_order_are_kept(earlier);
        assert(is_standard_name(users[users.len() - 1].name));
        assert(!lists_user(earlier, last.name)) by {
            if lists_user(earlier, last.name) {
                let i = choose|i: int| 0 <= i < earlier.len() && (#[trigger] earlier[i]).name
                    == last.name;
                assert(earlier[i] == users[i]);
                assert(users[i].name != users[users.len() - 1].name);
            }
        }
        assert(earlier.push(UserRecordView { name: standard_form(last.name), share: last.share })
            =~= users);
    }
}

/// An organization under a free name, with two or more users under standard
/// names, no two alike, is created, and stored with its records as they were
/// sent.
pub proof fn lemma_a_new_organization_is_stored(
    before: LocalServer,
    after: LocalServer,
    organization_name: Seq<char>,
    users: Seq<UserRecordView>,
    public_key: Seq<u8>,
    argon_config: ArgonConfig,
    answer: Result<(), VaultError>,
)
    requires
        after.consistent(),
        is_acceptable_name(organization_name),
        !before.store().has_organization(standard_form(organization_name)),
        users.len() >= 2,
        names_in_order(users),
        before.answers_create_organization(
            after,
            organization_name,
            users,
            public_key,
            argon_config,
            answer,
        ),
    ensures
        answer.is_ok(),
        after.sessions() == before.sessions(),
        after.store().has_organization(standard_form(organization_name)),
        after.store().organization(standard_form(organization_name)) == (OrganizationView {
            name: standard_form(organization_name),
            public_key,
            argon_config,
            users,
            document_keys: Seq::empty(),
        }),
{
    lemma_users_in_order_are_kept(users);
    after.lemma_store_is_well_formed();
    let name = standard_form(organization_name);
    let store = after.store();
    let last = store.organizations.len() - 1;
    assert(store.organizations[last].name == name);
    let found = store.organization_position(name);
    if found < last {
        assert(store.organizations[found].name != store.organizations[last].name);
    }
}

/// A new organization unlocks: an organization is created from a key pair
/// that `create_protected_key_pair` made for its users, under a free name,
/// and next its vault is unlocked in the names of two different users with
/// their passwords. Then the organization was created. If the server
/// answers the unlocking, the keys of the two passwords get out of the answer
/// the secret key that belongs to the public key and a token that the server
/// has bound to the organization, and a session that is opened holds them.
/// Left are `ServerError`, exactly when the sealing refuses the public key, and
/// `CryptographyError`, when on this machine the hash function gave no key
/// for a password.
pub proof fn lemma_a_new_organization_unlocks(
    before: LocalServer,
    created: LocalServer,
    after: LocalServer,
    organization_name: Seq<char>,
    user_shares: Seq<UserRecordView>,
    public_key: Seq<u8>,
    user_credentials: Seq<(Seq<char>, Seq<char>)>,
    argon_config: ArgonConfig,
    first: int,
    second: int,
    creation: Result<(), VaultError>,
    answer: Result<UnlockResponse, VaultError>,
    result: Result<Controller, VaultError>,
)
    requires
        created.consistent(),
        is_acceptable_name(organization_name),
        !before.store().has_organization(standard_form(organization_name)),
        user_shares.len() >= 2,
        names_in_order(user_shares),
        protects(user_shares, public_key, user_credentials, argon_config),
        before.answers_create_organization(
            created,
            organization_name,
            user_shares,
            public_key,
            argon_config,
            creation,
        ),
        0 <= first < user_shares.len(),
        0 <= second < user_shares.len(),
        first != second,
        created.answers_unlock_vault(
            after,
            standard_form(organization_name),
            user_credentials[first].0,
            user_credentials[second].0,
            answer,
        ),
        unlock_answer_read(
            answer,
            user_credentials[first].1,
            user_credentials[second].1,
            result,
        ),
    ensures
        creation.is_ok(),
        answer.is_err() <==> sealed_box_refuses(public_key),
        answer.is_err() ==> (result matches Err(VaultError::ServerError)),
        answer.is_ok() && result.is_err() ==> (result matches Err(VaultError::CryptographyError)),
        answer.is_ok() ==> {
            let unlocked = session_unlocked(
                response_view(answer.unwrap()),
                user_credentials[first].1,
                user_credentials[second].1,
            );
            &&& unlocked.is_some()
            &&& box_public_key(unlocked.unwrap().0) == public_key
            &&& recovers(user_shares, unlocked.unwrap().0, user_credentials, argon_config)
            &&& after.sessions().dom().contains(unlocked.unwrap().1)
            &&& after.sessions()[unlocked.unwrap().1].organization_name == standard_form(
                organization_name,
            )
            &&& result.is_ok() ==> result.unwrap().public_key() == public_key && (
                result.unwrap().secret_key(),
                result.unwrap().token(),
            ) == unlocked.unwrap()
        },
{
    lemma_a_new_organization_is_stored(
        before,
        created,
        organization_name,
        user_shares,
        public_key,
        argon_config,
        creation,
    );
    let username1 = user_credentials[first].0;
    let username2 = user_credentials[second].0;
    assert(user_shares[first].name == username1);
    assert(user_shares[second].name == username2);
    lemma_the_right_passwords_unlock(
        created,
        after,
        organization_name,
        username1,
        username2,
        user_credentials,
        first,
        second,
        answer,
        result,
    );
}

} // verus!
