use vault::client::key_pair::{create_protected_key_pair, retrieve_private_key};
use vault::client::organization_creation::OrganizationBuilder;
use vault::client::session_controller::Controller;
use vault::data::{ArgonConfig, Document};
use vault::error::VaultError;
use vault::server::local_server::LocalServer;
use vault::server_connection::ServerConnection;

const PASSWORD1: &str = "pw1-80m32Z$GIdKGK*M";
const PASSWORD2: &str = "pw2-80m32Z$GIdKGK*M";

fn config() -> ArgonConfig {
    ArgonConfig::default().with_memlimit(10000).with_opslimit(1)
}

fn create(server: &mut LocalServer, organization: &str, users: &[(&str, &str)]) {
    let mut builder = OrganizationBuilder::new(organization, &config()).unwrap();
    for (name, password) in users {
        builder = builder.add_user(name, password).unwrap();
    }
    builder.create_organization(server).unwrap();
}

fn server_with_two_organizations() -> (LocalServer, Controller, Controller) {
    let mut server = LocalServer::new("vault-data");
    create(&mut server, "apsci", &[("chell", PASSWORD1), ("cave", PASSWORD2)]);
    create(&mut server, "starwars", &[("luke", PASSWORD1), ("leila", PASSWORD2)]);
    let apsci = Controller::unlock_vault_for_organization(
        &mut server,
        "apsci",
        "chell",
        PASSWORD1,
        "cave",
        PASSWORD2,
    )
    .unwrap();
    let starwars = Controller::unlock_vault_for_organization(
        &mut server,
        "starwars",
        "luke",
        PASSWORD1,
        "leila",
        PASSWORD2,
    )
    .unwrap();
    (server, apsci, starwars)
}

fn document(name: &str, content: &str) -> Document {
    Document { name: name.to_string(), content: content.to_string() }
}

#[test]
fn unlocking_needs_both_passwords() {
    let (mut server, mut apsci, _) = server_with_two_organizations();
    assert_eq!(apsci.list_document_names(&mut server), Ok(Vec::new()));

    let wrong = Controller::unlock_vault_for_organization(
        &mut server,
        "apsci",
        "chell",
        "wrong",
        "cave",
        PASSWORD2,
    );
    assert_eq!(wrong, Err(VaultError::CryptographyError));
    let wrong = Controller::unlock_vault_for_organization(
        &mut server,
        "apsci",
        "chell",
        PASSWORD1,
        "cave",
        PASSWORD1,
    );
    assert_eq!(wrong, Err(VaultError::CryptographyError));
    let alone = Controller::unlock_vault_for_organization(
        &mut server,
        "apsci",
        "chell",
        PASSWORD1,
        "chell",
        PASSWORD1,
    );
    assert_eq!(alone, Err(VaultError::CryptographyError));
    let swapped = Controller::unlock_vault_for_organization(
        &mut server,
        "apsci",
        "cave",
        PASSWORD2,
        "chell",
        PASSWORD1,
    );
    assert!(swapped.is_ok());
}

#[test]
fn an_uploaded_document_is_listed_and_downloaded_unchanged() {
    let (mut server, mut apsci, mut starwars) = server_with_two_organizations();
    assert_eq!(apsci.upload(&mut server, &document("note", "hi")), Ok(()));
    assert_eq!(apsci.list_document_names(&mut server), Ok(vec!["note".to_string()]));
    assert_eq!(apsci.download(&mut server, "note"), Ok(document("note", "hi")));
    assert_eq!(starwars.list_document_names(&mut server), Ok(Vec::new()));
    assert_eq!(starwars.download(&mut server, "note"), Err(VaultError::DocumentNotFound));
    let payload = &server.object_store().documents[0].document;
    assert!(!payload.content.secret_box.windows(2).any(|window| window == b"hi"));
}

#[test]
fn an_updated_document_is_found_under_its_new_name() {
    let (mut server, mut apsci, _) = server_with_two_organizations();
    apsci.upload(&mut server, &document("note", "hi")).unwrap();
    assert_eq!(apsci.update(&mut server, "note", &document("note2", "bye")), Ok(()));
    assert_eq!(apsci.download(&mut server, "note"), Err(VaultError::DocumentNotFound));
    assert_eq!(apsci.download(&mut server, "note2"), Ok(document("note2", "bye")));
    assert_eq!(
        apsci.update(&mut server, "note", &document("note3", "")),
        Err(VaultError::DocumentNotFound)
    );
}

#[test]
fn a_shared_document_is_read_and_updated_by_both_owners() {
    let (mut server, mut apsci, mut starwars) = server_with_two_organizations();
    apsci.upload(&mut server, &document("note2", "bye")).unwrap();
    assert_eq!(apsci.share(&mut server, "note2", "starwars"), Ok(()));
    assert_eq!(starwars.download(&mut server, "note2"), Ok(document("note2", "bye")));
    assert_eq!(apsci.update(&mut server, "note2", &document("note2", "x")), Ok(()));
    assert_eq!(starwars.download(&mut server, "note2").unwrap().content, "x");
    assert_eq!(starwars.update(&mut server, "note2", &document("note2", "y")), Ok(()));
    assert_eq!(apsci.download(&mut server, "note2"), Ok(document("note2", "y")));
    assert_eq!(server.object_store().documents.len(), 1);
}

#[test]
fn a_deleted_document_stays_with_its_other_owners() {
    let (mut server, mut apsci, mut starwars) = server_with_two_organizations();
    apsci.upload(&mut server, &document("note2", "x")).unwrap();
    apsci.share(&mut server, "note2", "StarWars").unwrap();
    assert_eq!(apsci.delete(&mut server, "note2"), Ok(()));
    assert!(!apsci.list_document_names(&mut server).unwrap().contains(&"note2".to_string()));
    assert_eq!(apsci.download(&mut server, "note2"), Err(VaultError::DocumentNotFound));
    assert!(starwars.list_document_names(&mut server).unwrap().contains(&"note2".to_string()));
    assert_eq!(starwars.download(&mut server, "note2"), Ok(document("note2", "x")));
}

#[test]
fn an_organization_with_a_single_user_is_not_created() {
    let mut server = LocalServer::new("vault-data");
    let builder =
        OrganizationBuilder::new("apsci", &config()).unwrap().add_user("chell", PASSWORD1).unwrap();
    assert_eq!(builder.create_organization(&mut server), Err(VaultError::NotEnoughUsers));
    let empty = OrganizationBuilder::new("apsci", &config()).unwrap();
    assert_eq!(empty.create_organization(&mut server), Err(VaultError::NotEnoughUsers));
    // The same user twice is one user.
    let twice = OrganizationBuilder::new("apsci", &config())
        .unwrap()
        .add_user("chell", PASSWORD1)
        .unwrap()
        .add_user("Chell", PASSWORD2)
        .unwrap();
    assert_eq!(twice.create_organization(&mut server), Err(VaultError::NotEnoughUsers));
    assert!(server.object_store().organizations.is_empty());
}

#[test]
fn a_user_is_not_revoked_when_only_two_remain() {
    let (mut server, mut apsci, _) = server_with_two_organizations();
    assert_eq!(apsci.revoke_user(&mut server, "cave"), Err(VaultError::ServerError));
    assert_eq!(apsci.revoke_user(&mut server, "../cave"), Err(VaultError::ValidationError));
    assert!(Controller::unlock_vault_for_organization(
        &mut server,
        "apsci",
        "chell",
        PASSWORD1,
        "cave",
        PASSWORD2
    )
    .is_ok());
}

#[test]
fn names_that_would_leave_the_data_directory_are_refused() {
    let mut server = LocalServer::new("vault-data");
    assert_eq!(
        OrganizationBuilder::new("../evil", &config()).map(|_| ()),
        Err(VaultError::ValidationError)
    );
    assert_eq!(
        OrganizationBuilder::new("apsci", &config()).unwrap().add_user("../chell", PASSWORD1).map(|_| ()),
        Err(VaultError::ValidationError)
    );
    assert_eq!(
        Controller::unlock_vault_for_organization(
            &mut server,
            "../evil",
            "chell",
            PASSWORD1,
            "cave",
            PASSWORD2
        ),
        Err(VaultError::ValidationError)
    );
    assert_eq!(
        Controller::unlock_vault_for_organization(
            &mut server,
            "apsci",
            "chell",
            PASSWORD1,
            "ca/ve",
            PASSWORD2
        ),
        Err(VaultError::ValidationError)
    );
}

#[test]
fn a_later_password_of_a_user_replaces_the_earlier_one() {
    let mut server = LocalServer::new("vault-data");
    OrganizationBuilder::new("apsci", &config())
        .unwrap()
        .add_user("chell", PASSWORD1)
        .unwrap()
        .add_user("cave", PASSWORD2)
        .unwrap()
        .add_user("CHELL", "another-80m32Z$GIdKGK*M")
        .unwrap()
        .create_organization(&mut server)
        .unwrap();
    assert_eq!(server.object_store().organizations[0].users.len(), 2);
    assert_eq!(server.object_store().organizations[0].users[0].name, "chell");
    assert_eq!(server.object_store().organizations[0].users[1].name, "cave");
    assert!(Controller::unlock_vault_for_organization(
        &mut server,
        "apsci",
        "chell",
        "another-80m32Z$GIdKGK*M",
        "cave",
        PASSWORD2
    )
    .is_ok());
    assert_eq!(
        Controller::unlock_vault_for_organization(
            &mut server,
            "apsci",
            "chell",
            PASSWORD1,
            "cave",
            PASSWORD2
        ),
        Err(VaultError::CryptographyError)
    );
}

#[test]
fn sharing_with_an_unknown_organization_fails() {
    let (mut server, mut apsci, _) = server_with_two_organizations();
    apsci.upload(&mut server, &document("note", "hi")).unwrap();
    assert_eq!(apsci.share(&mut server, "note", "lotr"), Err(VaultError::ServerError));
    assert_eq!(apsci.share(&mut server, "note", "../lotr"), Err(VaultError::ValidationError));
    assert_eq!(apsci.share(&mut server, "nothing", "starwars"), Err(VaultError::DocumentNotFound));
}

#[test]
fn any_two_users_of_a_new_organization_unlock_it() {
    let credentials = vec![
        ("chell".to_string(), "pa89fjqp3f".to_string()),
        ("cave".to_string(), "japo288asfd".to_string()),
        ("glados".to_string(), "q27jafa;fkds".to_string()),
    ];
    let (user_shares, public_key) = create_protected_key_pair(&credentials, &config()).unwrap();
    let mut server = LocalServer::new("vault-data");
    assert_eq!(server.create_organization("ApSci", &user_shares, &public_key, &config()), Ok(()));
    assert_eq!(server.get_public_key_of_organization("apsci"), Ok(public_key));

    for first in 0..3usize {
        for second in 0..3usize {
            let session = Controller::unlock_vault_for_organization(
                &mut server,
                "apsci",
                &credentials[first].0,
                &credentials[first].1,
                &credentials[second].0,
                &credentials[second].1,
            );
            if first == second {
                assert_eq!(session, Err(VaultError::CryptographyError));
            } else {
                // The token is bound to the organization: the server answers it.
                let mut session = session.unwrap();
                assert_eq!(session.list_document_names(&mut server), Ok(Vec::new()));
                session.upload(&mut server, &document("note", "hi")).unwrap();
                assert_eq!(session.download(&mut server, "note"), Ok(document("note", "hi")));
                session.delete(&mut server, "note").unwrap();
            }
        }
    }
}

#[test]
fn the_recovered_secret_key_opens_the_session() {
    let credentials = vec![
        ("chell".to_string(), "pa89fjqp3f".to_string()),
        ("cave".to_string(), "japo288asfd".to_string()),
    ];
    let (user_shares, public_key) = create_protected_key_pair(&credentials, &config()).unwrap();
    let mut server = LocalServer::new("vault-data");
    server.create_organization("apsci", &user_shares, &public_key, &config()).unwrap();
    let response = server.unlock_vault("apsci", "chell", "cave").unwrap();
    let secret_key = retrieve_private_key(
        &credentials[0].1,
        &response.0,
        &credentials[1].1,
        &response.1,
        &response.2,
    );
    assert!(secret_key.is_ok());

    let mut session = Controller::session_from_private_key(&response, secret_key).unwrap();
    assert_eq!(session.list_document_names(&mut server), Ok(Vec::new()));
    assert_eq!(
        Controller::open_session(&response, &credentials[0].1, &credentials[1].1),
        Ok(session)
    );

    assert_eq!(
        Controller::session_from_private_key(&response, Err(VaultError::CryptographyError)),
        Err(VaultError::CryptographyError)
    );
    assert_eq!(
        Controller::session_from_private_key(&response, Err(VaultError::ServerError)),
        Err(VaultError::CryptographyError)
    );
    assert_eq!(
        Controller::session_from_private_key(&response, Ok([1u8; 32])),
        Err(VaultError::CryptographyError)
    );
}

#[test]
fn an_organization_is_sent_only_with_a_protected_key_pair() {
    let mut server = LocalServer::new("vault-data");
    let builder = OrganizationBuilder::new("ApSci", &config())
        .unwrap()
        .add_user("chell", PASSWORD1)
        .unwrap()
        .add_user("cave", PASSWORD2)
        .unwrap();
    assert_eq!(
        builder.send_organization(&mut server, &Err(VaultError::CryptographyError)),
        Err(VaultError::CryptographyError)
    );
    assert_eq!(
        builder.send_organization(&mut server, &Err(VaultError::ServerError)),
        Err(VaultError::CryptographyError)
    );
    assert!(server.object_store().organizations.is_empty());

    let credentials = vec![
        ("chell".to_string(), PASSWORD1.to_string()),
        ("cave".to_string(), PASSWORD2.to_string()),
    ];
    let protected = create_protected_key_pair(&credentials, &config());
    assert!(protected.is_ok());
    assert_eq!(builder.send_organization(&mut server, &protected), Ok(()));
    assert_eq!(server.object_store().organizations.len(), 1);
    assert_eq!(server.object_store().organizations[0].name, "apsci");
    assert!(Controller::unlock_vault_for_organization(
        &mut server,
        "apsci",
        "chell",
        PASSWORD1,
        "cave",
        PASSWORD2
    )
    .is_ok());
}

#[test]
fn hash_parameters_out_of_range_create_no_organization() {
    let mut server = LocalServer::new("vault-data");
    let too_little_memory = ArgonConfig::default().with_memlimit(8191).with_opslimit(1);
    let builder = OrganizationBuilder::new("apsci", &too_little_memory)
        .unwrap()
        .add_user("chell", PASSWORD1)
        .unwrap()
        .add_user("cave", PASSWORD2)
        .unwrap();
    assert_eq!(builder.create_organization(&mut server), Err(VaultError::CryptographyError));
    assert!(server.object_store().organizations.is_empty());
}
