use vault::data::{ArgonConfig, EncryptedDocument, UserShare};
use vault::error::VaultError;
use vault::server::local_server::validate_users;
use vault::server::object_store::ObjectStore;

fn users(names: &[&str]) -> Vec<(String, UserShare)> {
    names.iter().map(|name| (name.to_string(), UserShare::create_random())).collect()
}

fn store_with_two_organizations() -> ObjectStore {
    let mut store = ObjectStore::new();
    let config = ArgonConfig { memlimit: 10000, opslimit: 1 };
    store.create_organization("apsci", &users(&["chell", "cave", "glados"]), &[1u8; 32], &config).unwrap();
    store.create_organization("starwars", &users(&["luke", "leila"]), &[2u8; 32], &config).unwrap();
    store
}

#[test]
fn a_new_store_is_empty() {
    let store = ObjectStore::new();
    assert!(store.organizations.is_empty());
    assert!(store.documents.is_empty());
    assert_eq!(store.list_documents("apsci"), Err(VaultError::ServerError));
    assert_eq!(store.get_public_key_of_organization("apsci"), Err(VaultError::ServerError));
}

#[test]
fn an_organization_is_stored_as_it_was_requested() {
    let store = store_with_two_organizations();
    assert_eq!(store.organizations.len(), 2);
    let apsci = &store.organizations[0];
    assert_eq!(apsci.name, "apsci");
    assert_eq!(apsci.public_key, [1u8; 32]);
    assert_eq!(apsci.argon_config, ArgonConfig { memlimit: 10000, opslimit: 1 });
    assert_eq!(
        apsci.users.iter().map(|user| user.name.as_str()).collect::<Vec<_>>(),
        ["chell", "cave", "glados"]
    );
    assert!(apsci.document_keys.is_empty());
    assert_eq!(store.get_public_key_of_organization("starwars"), Ok([2u8; 32]));
    assert_eq!(store.list_documents("starwars"), Ok(Vec::new()));
}

#[test]
fn a_taken_name_is_a_file_error_and_writes_nothing() {
    let mut store = store_with_two_organizations();
    let config = ArgonConfig::default();
    assert_eq!(
        store.create_organization("apsci", &users(&["a", "b"]), &[9u8; 32], &config),
        Err(VaultError::FileError)
    );
    assert_eq!(store.organizations.len(), 2);
    assert_eq!(store.organizations[0].public_key, [1u8; 32]);
}

#[test]
fn unlock_records_are_those_of_the_two_users() {
    let store = store_with_two_organizations();
    let (first, second, config, public_key) =
        store.unlock_records("apsci", "glados", "chell").unwrap();
    assert_eq!(first, store.organizations[0].users[2].share);
    assert_eq!(second, store.organizations[0].users[0].share);
    assert_eq!(config, ArgonConfig { memlimit: 10000, opslimit: 1 });
    assert_eq!(public_key, [1u8; 32]);
    assert_eq!(store.unlock_records("apsci", "luke", "chell").map(|_| ()), Err(VaultError::ServerError));
    assert_eq!(store.unlock_records("lotr", "chell", "cave").map(|_| ()), Err(VaultError::ServerError));
}

#[test]
fn documents_and_keys_are_stored_in_the_order_of_their_arrival() {
    let mut store = store_with_two_organizations();
    let first = EncryptedDocument::create_random();
    let second = EncryptedDocument::create_random();
    assert_eq!(store.new_document("apsci", &vec![1u8; 32], &first, &vec![10u8; 80]), Ok(()));
    assert_eq!(store.new_document("starwars", &vec![2u8; 32], &second, &vec![20u8; 80]), Ok(()));
    assert_eq!(store.add_owner("starwars", &vec![2u8; 32], "apsci", &vec![30u8; 80]), Ok(()));
    let listing = store.list_documents("apsci").unwrap();
    assert_eq!(listing.len(), 2);
    assert_eq!(listing[0].0, vec![1u8; 32]);
    assert_eq!(listing[0].1.data, first.name);
    assert_eq!(listing[0].1.key, vec![10u8; 80]);
    assert_eq!(listing[1].0, vec![2u8; 32]);
    assert_eq!(listing[1].1.data, second.name);
    assert_eq!(listing[1].1.key, vec![30u8; 80]);
    assert!(store.is_client_owner_of_document("apsci", &vec![2u8; 32]));
    assert!(store.is_client_owner_of_document("starwars", &vec![2u8; 32]));
    assert!(!store.is_client_owner_of_document("starwars", &vec![1u8; 32]));
    assert!(!store.is_client_owner_of_document("lotr", &vec![1u8; 32]));
    assert!(!store.is_client_owner_of_document("apsci", &vec![3u8; 32]));
}

#[test]
fn a_document_id_is_used_once() {
    let mut store = store_with_two_organizations();
    let document = EncryptedDocument::create_random();
    store.new_document("apsci", &vec![1u8; 32], &document, &vec![10u8; 80]).unwrap();
    assert_eq!(
        store.new_document("starwars", &vec![1u8; 32], &document, &vec![10u8; 80]),
        Err(VaultError::FileError)
    );
    assert_eq!(
        store.new_document("lotr", &vec![2u8; 32], &document, &vec![10u8; 80]),
        Err(VaultError::ServerError)
    );
    assert_eq!(store.documents.len(), 1);
    assert!(store.organizations[1].document_keys.is_empty());
}

#[test]
fn errors_of_the_store() {
    let mut store = store_with_two_organizations();
    let document = EncryptedDocument::create_random();
    let id = vec![1u8; 32];
    store.new_document("apsci", &id, &document, &vec![10u8; 80]).unwrap();
    assert_eq!(store.get_document("starwars", &id).map(|_| ()), Err(VaultError::ServerError));
    assert_eq!(store.get_document_key("starwars", &id), Err(VaultError::ServerError));
    assert_eq!(store.get_document_key("lotr", &id), Err(VaultError::ServerError));
    assert_eq!(store.update_document("starwars", &id, &document), Err(VaultError::ServerError));
    assert_eq!(store.delete_document("starwars", &id), Err(VaultError::ServerError));
    assert_eq!(store.add_owner("starwars", &id, "apsci", &vec![1]), Err(VaultError::ServerError));
    assert_eq!(store.add_owner("apsci", &id, "lotr", &vec![1]), Err(VaultError::ServerError));
    assert_eq!(store.add_owner("apsci", &id, "apsci", &vec![1]), Err(VaultError::FileError));
    assert_eq!(store.revoke_user("lotr", "frodo"), Err(VaultError::ServerError));
    assert_eq!(store.revoke_user("starwars", "luke"), Err(VaultError::ServerError));
    assert_eq!(store.revoke_user("apsci", "luke"), Err(VaultError::ServerError));
    assert_eq!(store.revoke_user("apsci", "cave"), Ok(()));
    assert_eq!(store.revoke_user("apsci", "chell"), Err(VaultError::ServerError));
}

#[test]
fn users_of_a_request_are_brought_to_standard_names() {
    let validated = validate_users(&users(&["Chell", "CAVE", "chell", "GLaDOS"])).unwrap();
    assert_eq!(
        validated.iter().map(|user| user.0.as_str()).collect::<Vec<_>>(),
        ["chell", "cave", "glados"]
    );
    assert_eq!(validate_users(&Vec::new()).map(|list| list.len()), Ok(0));
    assert_eq!(
        validate_users(&users(&["chell", "ca ve"])).map(|_| ()),
        Err(VaultError::ValidationError)
    );
}

#[test]
fn a_later_record_of_a_user_replaces_the_earlier_one() {
    let request = users(&["Chell", "cave", "chell"]);
    let validated = validate_users(&request).unwrap();
    assert_eq!(validated.len(), 2);
    assert_eq!(validated[0].1, request[2].1);
    assert_eq!(validated[1].1, request[1].1);
}
