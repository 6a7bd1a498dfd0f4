use dryoc::dryocbox::{DryocBox, StackKeyPair, VecBox};
use vault::data::{
    random_encrypted_document_key, ArgonConfig, DocumentID, EncryptedDocument, KeyPair, Token,
    UserShare,
};
use vault::error::VaultError;
use vault::server::local_server::LocalServer;
use vault::server_connection::ServerConnection;

fn create_server() -> LocalServer {
    LocalServer::new("test data server")
}

fn create_server_with_organizations_and_documents() -> (LocalServer, Vec<Token>, DocumentID) {
    let mut server = create_server();

    let mut tokens = Vec::new();
    tokens.push(create_organization_and_unlock("ApertureScience", &mut server));
    tokens.push(create_organization_and_unlock("BlackMesa", &mut server));

    server
        .new_document(
            &tokens[0],
            &EncryptedDocument::create_random(),
            &random_encrypted_document_key().unwrap(),
        )
        .unwrap();
    let document_id = server.list_documents(&tokens[0]).unwrap().iter().next().unwrap().0.clone();

    (server, tokens, document_id)
}

fn open_token(encrypted_token: &[u8], key_pair: &KeyPair) -> Token {
    VecBox::from_sealed_bytes(encrypted_token)
        .unwrap()
        .open_to_vec(
            &StackKeyPair::from_slices(&key_pair.public_key, &key_pair.secret_key).unwrap(),
        )
        .unwrap()
}

fn create_organization_and_unlock(name: &str, server: &mut LocalServer) -> Token {
    let key_pair = create_organization(name, "user1", "user2", server).unwrap();

    let (.., encrypted_token) = server.unlock_vault(name, "user1", "user2").unwrap();

    open_token(&encrypted_token, &key_pair)
}

fn create_organization(
    name: &str,
    username1: &str,
    username2: &str,
    server: &mut LocalServer,
) -> Result<KeyPair, VaultError> {
    let key_pair = KeyPair::generate();

    let user_data = vec![
        (username1.to_string(), UserShare::create_random()),
        (username2.to_string(), UserShare::create_random()),
    ];

    server.create_organization(name, &user_data, &key_pair.public_key, &ArgonConfig::default())?;

    Ok(key_pair)
}

#[test]
fn correct_token() {
    let (mut server, tokens, document_id) = create_server_with_organizations_and_documents();

    server.get_document(&tokens[0], &document_id).unwrap();
    server
        .update_document(&tokens[0], &document_id, &EncryptedDocument::create_random())
        .unwrap();
    server
        .add_owner(
            &tokens[0],
            &document_id,
            "BlackMesa",
            &random_encrypted_document_key().unwrap(),
        )
        .unwrap();
    server.delete_document(&tokens[0], &document_id).unwrap();
}

#[test]
fn local_server_wrong_token() {
    let (mut server, tokens, document_id) = create_server_with_organizations_and_documents();

    assert!(server.get_document(&tokens[1], &document_id).is_err());
    assert!(server
        .update_document(&tokens[1], &document_id, &EncryptedDocument::create_random())
        .is_err());
    assert!(server
        .add_owner(
            &tokens[1],
            &document_id,
            "BlackMesa",
            &random_encrypted_document_key().unwrap()
        )
        .is_err());
    assert!(server.delete_document(&tokens[1], &document_id).is_err());
}

#[test]
fn names_validation_create_organization() {
    let mut server = create_server();

    assert!(matches!(
        create_organization("../../name", "user1", "user2", &mut server),
        Err(VaultError::ValidationError)
    ));

    assert!(matches!(
        create_organization("name", "../../user1", "user2", &mut server),
        Err(VaultError::ValidationError)
    ));
}

#[test]
fn names_validation_unlock_vault() {
    let mut server = create_server();

    assert!(matches!(
        server.unlock_vault("../../name", "user1", "user2"),
        Err(VaultError::ValidationError)
    ));

    assert!(matches!(
        server.unlock_vault("name", "../../user1", "user2"),
        Err(VaultError::ValidationError)
    ));
}

#[test]
fn names_validation_revoke_user() {
    let (mut server, tokens, ..) = create_server_with_organizations_and_documents();

    assert!(matches!(
        server.revoke_user(&tokens[0], "../../user1"),
        Err(VaultError::ValidationError)
    ));
}

#[test]
fn names_validation_get_organization_key() {
    let (mut server, ..) = create_server_with_organizations_and_documents();

    assert!(matches!(
        server.get_public_key_of_organization("../../org"),
        Err(VaultError::ValidationError)
    ));
}

#[test]
fn names_validation_add_owner() {
    let (mut server, tokens, document_id) = create_server_with_organizations_and_documents();
    assert_eq!(
        server.add_owner(
            &tokens[0],
            &document_id,
            "../BlackMesa",
            &random_encrypted_document_key().unwrap()
        ),
        Err(VaultError::ValidationError)
    );
}

#[test]
fn every_endpoint_refuses_an_unknown_token_with_server_error() {
    let (mut server, _, document_id) = create_server_with_organizations_and_documents();
    let unknown: Token = vec![0u8; 32];
    let key = random_encrypted_document_key().unwrap();
    let document = EncryptedDocument::create_random();
    assert_eq!(server.revoke_user(&unknown, "user1"), Err(VaultError::ServerError));
    assert_eq!(server.new_document(&unknown, &document, &key), Err(VaultError::ServerError));
    assert_eq!(server.list_documents(&unknown), Err(VaultError::ServerError));
    assert_eq!(server.list_documents(&Vec::new()), Err(VaultError::ServerError));
    assert_eq!(server.get_document_key(&unknown, &document_id), Err(VaultError::ServerError));
    assert_eq!(server.get_document(&unknown, &document_id), Err(VaultError::ServerError));
    assert_eq!(
        server.update_document(&unknown, &document_id, &document),
        Err(VaultError::ServerError)
    );
    assert_eq!(server.delete_document(&unknown, &document_id), Err(VaultError::ServerError));
    assert_eq!(
        server.add_owner(&unknown, &document_id, "BlackMesa", &key),
        Err(VaultError::ServerError)
    );
    assert_eq!(server.revoke_token(&unknown), Ok(()));
}

#[test]
fn an_organization_needs_two_users() {
    let mut server = create_server();
    let key_pair = KeyPair::generate();
    let config = ArgonConfig::default();
    assert_eq!(
        server.create_organization("apsci", &Vec::new(), &key_pair.public_key, &config),
        Err(VaultError::ServerError)
    );
    let one = vec![("chell".to_string(), UserShare::create_random())];
    assert_eq!(
        server.create_organization("apsci", &one, &key_pair.public_key, &config),
        Err(VaultError::ServerError)
    );
    // Two records of one user are one user.
    let twice = vec![
        ("Chell".to_string(), UserShare::create_random()),
        ("chell".to_string(), UserShare::create_random()),
    ];
    assert_eq!(
        server.create_organization("apsci", &twice, &key_pair.public_key, &config),
        Err(VaultError::ServerError)
    );
    // The name of the organization is looked at first, the number of users next.
    assert_eq!(
        server.create_organization("../evil", &one, &key_pair.public_key, &config),
        Err(VaultError::ValidationError)
    );
    let bad_user = vec![("../chell".to_string(), UserShare::create_random())];
    assert_eq!(
        server.create_organization("apsci", &bad_user, &key_pair.public_key, &config),
        Err(VaultError::ServerError)
    );
    assert!(server.object_store().organizations.is_empty());
}

#[test]
fn an_organization_is_created_once() {
    let mut server = create_server();
    create_organization("ApertureScience", "user1", "user2", &mut server).unwrap();
    assert_eq!(
        create_organization("aperturescience", "user3", "user4", &mut server).map(|_| ()),
        Err(VaultError::FileError)
    );
    let store = server.object_store();
    assert_eq!(store.organizations.len(), 1);
    assert_eq!(store.organizations[0].name, "aperturescience");
    assert_eq!(store.organizations[0].users.len(), 2);
    assert_eq!(store.organizations[0].users[0].name, "user1");
    assert_eq!(store.organizations[0].users[1].name, "user2");
}

#[test]
fn names_are_stored_in_standard_form() {
    let mut server = create_server();
    let key_pair = create_organization("ApertureScience", "Chell", "CAVE", &mut server).unwrap();
    let (share1, share2, config, public_key, _) =
        server.unlock_vault("APERTURESCIENCE", "cave", "chell").unwrap();
    assert_eq!(public_key, key_pair.public_key);
    assert_eq!(config, ArgonConfig::default());
    let store = server.object_store();
    assert_eq!(share1, store.organizations[0].users[1].share);
    assert_eq!(share2, store.organizations[0].users[0].share);
    assert_eq!(server.get_public_key_of_organization("aPERTUREsCIENCE"), Ok(key_pair.public_key));
}

#[test]
fn unknown_organizations_and_users_are_server_errors() {
    let mut server = create_server();
    create_organization("apsci", "chell", "cave", &mut server).unwrap();
    assert_eq!(
        server.unlock_vault("blackmesa", "chell", "cave").map(|_| ()),
        Err(VaultError::ServerError)
    );
    assert_eq!(
        server.unlock_vault("apsci", "glados", "cave").map(|_| ()),
        Err(VaultError::ServerError)
    );
    assert_eq!(
        server.unlock_vault("apsci", "chell", "glados").map(|_| ()),
        Err(VaultError::ServerError)
    );
    assert_eq!(server.get_public_key_of_organization("blackmesa"), Err(VaultError::ServerError));
}

#[test]
fn a_public_key_that_cannot_be_sealed_to_unlocks_nothing() {
    let mut server = create_server();
    let user_data = vec![
        ("chell".to_string(), UserShare::create_random()),
        ("cave".to_string(), UserShare::create_random()),
    ];
    // To the point of order one every shared secret is zero, which the box refuses.
    server.create_organization("apsci", &user_data, &[0u8; 32], &ArgonConfig::default()).unwrap();
    assert_eq!(
        server.unlock_vault("apsci", "chell", "cave").map(|_| ()),
        Err(VaultError::ServerError)
    );
    assert_eq!(server.get_public_key_of_organization("apsci"), Ok([0u8; 32]));
}

#[test]
fn the_token_is_sealed_to_the_organization() {
    let mut server = create_server();
    let key_pair = create_organization("apsci", "chell", "cave", &mut server).unwrap();
    let (.., encrypted_token) = server.unlock_vault("apsci", "chell", "cave").unwrap();
    assert_eq!(encrypted_token.len(), 32 + 48);
    let token = open_token(&encrypted_token, &key_pair);
    assert_eq!(token.len(), 32);
    assert_eq!(server.list_documents(&token), Ok(Vec::new()));
    assert!(DryocBox::open_to_vec(
        &VecBox::from_sealed_bytes(&encrypted_token).unwrap(),
        &StackKeyPair::generate()
    )
    .is_err());
}

#[test]
fn a_revoked_token_is_unknown() {
    let (mut server, tokens, document_id) = create_server_with_organizations_and_documents();
    assert_eq!(server.revoke_token(&tokens[0]), Ok(()));
    assert_eq!(server.get_document(&tokens[0], &document_id).map(|_| ()), Err(VaultError::ServerError));
    assert_eq!(server.revoke_token(&tokens[0]), Ok(()));
    assert_eq!(server.list_documents(&tokens[1]), Ok(Vec::new()));
}

#[test]
fn revoking_a_user_never_leaves_fewer_than_two() {
    let mut server = create_server();
    let key_pair = KeyPair::generate();
    let users = vec![
        ("chell".to_string(), UserShare::create_random()),
        ("cave".to_string(), UserShare::create_random()),
        ("glados".to_string(), UserShare::create_random()),
    ];
    server
        .create_organization("apsci", &users, &key_pair.public_key, &ArgonConfig::default())
        .unwrap();
    let (.., encrypted_token) = server.unlock_vault("apsci", "chell", "cave").unwrap();
    let token = open_token(&encrypted_token, &key_pair);

    assert_eq!(server.revoke_user(&token, "wheatley"), Err(VaultError::ServerError));
    assert_eq!(server.revoke_user(&token, "Cave"), Ok(()));
    assert_eq!(
        server.unlock_vault("apsci", "chell", "cave").map(|_| ()),
        Err(VaultError::ServerError)
    );
    assert_eq!(server.revoke_user(&token, "chell"), Err(VaultError::ServerError));
    assert_eq!(server.revoke_user(&token, "glados"), Err(VaultError::ServerError));
    let store = server.object_store();
    assert_eq!(store.organizations[0].users.len(), 2);
    assert_eq!(store.organizations[0].users[0].name, "chell");
    assert_eq!(store.organizations[0].users[1].name, "glados");
    server.unlock_vault("apsci", "chell", "glados").unwrap();
}

#[test]
fn a_new_document_gets_an_id_of_32_bytes_and_is_listed() {
    let (mut server, tokens, document_id) = create_server_with_organizations_and_documents();
    assert_eq!(document_id.len(), 32);
    let document = EncryptedDocument::create_random();
    let key = random_encrypted_document_key().unwrap();
    server.new_document(&tokens[0], &document, &key).unwrap();
    let listing = server.list_documents(&tokens[0]).unwrap();
    assert_eq!(listing.len(), 2);
    assert_eq!(listing[0].0, document_id);
    assert_ne!(listing[1].0, document_id);
    assert_eq!(listing[1].0.len(), 32);
    assert_eq!(listing[1].1.data, document.name);
    assert_eq!(listing[1].1.key, key);
    assert_eq!(server.get_document(&tokens[0], &listing[1].0), Ok(document));
    assert_eq!(server.get_document_key(&tokens[0], &listing[1].0), Ok(key));
    assert_eq!(server.list_documents(&tokens[1]), Ok(Vec::new()));
}

#[test]
fn who_does_not_own_a_document_learns_nothing_of_it() {
    let (mut server, tokens, document_id) = create_server_with_organizations_and_documents();
    let unknown_document: DocumentID = vec![0u8; 32];
    assert_eq!(
        server.get_document(&tokens[1], &document_id).map(|_| ()),
        server.get_document(&tokens[1], &unknown_document).map(|_| ())
    );
    assert_eq!(
        server.get_document_key(&tokens[1], &document_id),
        server.get_document_key(&tokens[1], &unknown_document)
    );
    assert_eq!(server.get_document_key(&tokens[1], &document_id), Err(VaultError::ServerError));
    assert_eq!(
        server.get_document_key(&vec![7u8; 32], &document_id),
        server.get_document_key(&tokens[1], &document_id)
    );
    assert_eq!(
        server.get_document(&tokens[0], &b"../../etc/passwd".to_vec()).map(|_| ()),
        Err(VaultError::ServerError)
    );
}

#[test]
fn sharing_adds_an_owner_and_keeps_the_first() {
    let (mut server, tokens, document_id) = create_server_with_organizations_and_documents();
    let key = random_encrypted_document_key().unwrap();
    let own_key = server.get_document_key(&tokens[0], &document_id).unwrap();
    let document = server.get_document(&tokens[0], &document_id).unwrap();

    assert_eq!(server.add_owner(&tokens[0], &document_id, "BlackMesa", &key), Ok(()));

    assert_eq!(server.get_document_key(&tokens[1], &document_id), Ok(key.clone()));
    assert_eq!(server.get_document(&tokens[1], &document_id), Ok(document.clone()));
    assert_eq!(server.get_document_key(&tokens[0], &document_id), Ok(own_key));
    assert_eq!(server.get_document(&tokens[0], &document_id), Ok(document));
    assert_eq!(server.object_store().documents.len(), 1);

    // A second key for the same owner is refused, as is an unknown organization.
    assert_eq!(
        server.add_owner(&tokens[0], &document_id, "blackmesa", &key),
        Err(VaultError::FileError)
    );
    assert_eq!(
        server.add_owner(&tokens[0], &document_id, "ApertureScience", &key),
        Err(VaultError::FileError)
    );
    assert_eq!(
        server.add_owner(&tokens[0], &document_id, "starwars", &key),
        Err(VaultError::ServerError)
    );
    assert_eq!(server.object_store().organizations.len(), 2);
}

#[test]
fn deleting_takes_the_document_from_one_owner_only() {
    let (mut server, tokens, document_id) = create_server_with_organizations_and_documents();
    let key = random_encrypted_document_key().unwrap();
    server.add_owner(&tokens[0], &document_id, "BlackMesa", &key).unwrap();
    let document = server.get_document(&tokens[1], &document_id).unwrap();

    assert_eq!(server.delete_document(&tokens[0], &document_id), Ok(()));

    assert_eq!(server.list_documents(&tokens[0]), Ok(Vec::new()));
    assert_eq!(
        server.get_document(&tokens[0], &document_id).map(|_| ()),
        Err(VaultError::ServerError)
    );
    assert_eq!(server.delete_document(&tokens[0], &document_id), Err(VaultError::ServerError));
    assert_eq!(server.get_document(&tokens[1], &document_id), Ok(document));
    assert_eq!(server.get_document_key(&tokens[1], &document_id), Ok(key));
    assert_eq!(server.list_documents(&tokens[1]).unwrap().len(), 1);

    // The payload stays even when the last owner has deleted the document.
    assert_eq!(server.delete_document(&tokens[1], &document_id), Ok(()));
    assert_eq!(server.object_store().documents.len(), 1);
}

#[test]
fn an_update_is_seen_by_every_owner() {
    let (mut server, tokens, document_id) = create_server_with_organizations_and_documents();
    let key = random_encrypted_document_key().unwrap();
    server.add_owner(&tokens[0], &document_id, "BlackMesa", &key).unwrap();
    let update = EncryptedDocument::create_random();
    assert_eq!(server.update_document(&tokens[1], &document_id, &update), Ok(()));
    assert_eq!(server.get_document(&tokens[0], &document_id), Ok(update.clone()));
    assert_eq!(server.get_document(&tokens[1], &document_id), Ok(update.clone()));
    assert_eq!(server.list_documents(&tokens[0]).unwrap()[0].1.data, update.name);
    assert_eq!(server.object_store().documents.len(), 1);
}

#[test]
fn a_refused_request_changes_nothing() {
    let (mut server, tokens, document_id) = create_server_with_organizations_and_documents();
    let document = server.get_document(&tokens[0], &document_id).unwrap();
    let key = server.get_document_key(&tokens[0], &document_id).unwrap();
    let other = EncryptedDocument::create_random();
    let other_key = random_encrypted_document_key().unwrap();
    assert!(server.update_document(&tokens[1], &document_id, &other).is_err());
    assert!(server.delete_document(&tokens[1], &document_id).is_err());
    assert!(server.add_owner(&tokens[1], &document_id, "BlackMesa", &other_key).is_err());
    assert!(server.revoke_user(&tokens[1], "user1").is_err());
    assert_eq!(server.get_document(&tokens[0], &document_id), Ok(document));
    assert_eq!(server.get_document_key(&tokens[0], &document_id), Ok(key));
    assert_eq!(server.list_documents(&tokens[1]), Ok(Vec::new()));
    server.unlock_vault("BlackMesa", "user1", "user2").unwrap();
}
