use vault::client::organization_creation::OrganizationBuilder;
use vault::client::session_controller::Controller;
use vault::data::{
    ArgonConfig, Document, DocumentID, EncryptedDocument, EncryptedDocumentKey, PublicKey, Token,
    UserShare,
};
use vault::error::VaultError;
use vault::error::VaultError::{DocumentNotFound, ServerError};
use vault::server::local_server::LocalServer;
use vault::server_connection::{ListedDocument, ServerConnection, UnlockResponse};

fn fast_and_unsafe_argon_config() -> ArgonConfig {
    ArgonConfig::default().with_memlimit(10000).with_opslimit(1)
}

/// Stands in for the carrier between client and server: whatever the server
/// refuses reaches the client as a server error, without its reason.
struct Connection {
    server: LocalServer,
}

fn collapse<A>(answer: Result<A, VaultError>) -> Result<A, VaultError> {
    answer.map_err(|_| ServerError)
}

impl ServerConnection for Connection {
    fn create_organization(
        &mut self,
        organization_name: &str,
        users_data: &Vec<(String, UserShare)>,
        public_key: &PublicKey,
        argon2_config: &ArgonConfig,
    ) -> Result<(), VaultError> {
        collapse(self.server.create_organization(
            organization_name,
            users_data,
            public_key,
            argon2_config,
        ))
    }

    fn unlock_vault(
        &mut self,
        organization_name: &str,
        user_name1: &str,
        user_name2: &str,
    ) -> Result<UnlockResponse, VaultError> {
        collapse(self.server.unlock_vault(organization_name, user_name1, user_name2))
    }

    fn revoke_user(&mut self, token: &Token, user_name: &str) -> Result<(), VaultError> {
        collapse(self.server.revoke_user(token, user_name))
    }

    fn revoke_token(&mut self, token: &Token) -> Result<(), VaultError> {
        collapse(self.server.revoke_token(token))
    }

    fn new_document(
        &mut self,
        token: &Token,
        encrypted_document: &EncryptedDocument,
        encrypted_key: &EncryptedDocumentKey,
    ) -> Result<(), VaultError> {
        collapse(self.server.new_document(token, encrypted_document, encrypted_key))
    }

    fn list_documents(&mut self, token: &Token) -> Result<Vec<ListedDocument>, VaultError> {
        collapse(self.server.list_documents(token))
    }

    fn get_document_key(
        &mut self,
        token: &Token,
        document_id: &DocumentID,
    ) -> Result<EncryptedDocumentKey, VaultError> {
        collapse(self.server.get_document_key(token, document_id))
    }

    fn get_document(
        &mut self,
        token: &Token,
        document_id: &DocumentID,
    ) -> Result<EncryptedDocument, VaultError> {
        collapse(self.server.get_document(token, document_id))
    }

    fn update_document(
        &mut self,
        token: &Token,
        document_id: &DocumentID,
        encrypted_document: &EncryptedDocument,
    ) -> Result<(), VaultError> {
        collapse(self.server.update_document(token, document_id, encrypted_document))
    }

    fn delete_document(&mut self, token: &Token, document_id: &DocumentID) -> Result<(), VaultError> {
        collapse(self.server.delete_document(token, document_id))
    }

    fn get_public_key_of_organization(
        &mut self,
        organization_name: &str,
    ) -> Result<PublicKey, VaultError> {
        collapse(self.server.get_public_key_of_organization(organization_name))
    }

    fn add_owner(
        &mut self,
        token: &Token,
        document_id: &DocumentID,
        other_organization_name: &str,
        encrypted_document_key: &EncryptedDocumentKey,
    ) -> Result<(), VaultError> {
        collapse(self.server.add_owner(
            token,
            document_id,
            other_organization_name,
            encrypted_document_key,
        ))
    }
}

fn set_up_server_with_organizations() -> Connection {
    let mut server = Connection { server: LocalServer::new("test data") };

    OrganizationBuilder::new("ApertureScience", &fast_and_unsafe_argon_config())
        .unwrap()
        .add_user("Glados", "glados80m32Z$GIdKGK*M")
        .unwrap()
        .add_user("Chell", "chell80m32Z$GIdKGK*M")
        .unwrap()
        .add_user("Wheatley", "wheatley80m32Z$GIdKGK*M")
        .unwrap()
        .add_user("Cave", "cave80m32Z$GIdKGK*M")
        .unwrap()
        .create_organization(&mut server)
        .unwrap();

    OrganizationBuilder::new("StarWars", &fast_and_unsafe_argon_config())
        .unwrap()
        .add_user("DarthVador", "darthvador80m32Z$GIdKGK*M")
        .unwrap()
        .add_user("Luke", "luke80m32Z$GIdKGK*M")
        .unwrap()
        .add_user("Leila", "leila80m32Z$GIdKGK*M")
        .unwrap()
        .add_user("R2D2", "r2d280m32Z$GIdKGK*M")
        .unwrap()
        .create_organization(&mut server)
        .unwrap();

    OrganizationBuilder::new("LotR", &fast_and_unsafe_argon_config())
        .unwrap()
        .add_user("Gandalf", "gandalf80m32Z$GIdKGK*M")
        .unwrap()
        .add_user("Frodo", "frodo80m32Z$GIdKGK*M")
        .unwrap()
        .create_organization(&mut server)
        .unwrap();

    server
}

fn authenticate_clients_for_server(server: &mut Connection) -> Vec<Controller> {
    vec![
        ("ApertureScience", "Chell", "chell80m32Z$GIdKGK*M", "Cave", "cave80m32Z$GIdKGK*M"),
        ("StarWars", "Luke", "luke80m32Z$GIdKGK*M", "Leila", "leila80m32Z$GIdKGK*M"),
        ("LotR", "Gandalf", "gandalf80m32Z$GIdKGK*M", "Frodo", "frodo80m32Z$GIdKGK*M"),
    ]
    .iter()
    .map(|(organization, user1, password1, user2, password2)| {
        Controller::unlock_vault_for_organization(
            server,
            organization,
            user1,
            password1,
            user2,
            password2,
        )
        .unwrap()
    })
    .collect()
}

fn set_up_server_with_organizations_and_documents() -> (Connection, Vec<Controller>) {
    let mut server = set_up_server_with_organizations();
    let mut client_controllers = authenticate_clients_for_server(&mut server);

    let document = Document {
        name: "aperture science 1".to_string(),
        content: "aperture science content 1".to_string(),
    };
    client_controllers[0].upload(&mut server, &document).unwrap();

    let document = Document {
        name: "aperture science 2".to_string(),
        content: "aperture science content 2".to_string(),
    };
    client_controllers[0].upload(&mut server, &document).unwrap();

    let document = Document {
        name: "aperture science star wars shared".to_string(),
        content: "shared content".to_string(),
    };
    client_controllers[0].upload(&mut server, &document).unwrap();
    client_controllers[0]
        .share(&mut server, "aperture science star wars shared", "StarWars")
        .unwrap();

    let document =
        Document { name: "star wars".to_string(), content: "star wars content".to_string() };
    client_controllers[1].upload(&mut server, &document).unwrap();

    (server, client_controllers)
}

fn builder() -> OrganizationBuilder {
    OrganizationBuilder::new("ApertureScience", &fast_and_unsafe_argon_config()).unwrap()
}

#[test]
fn create_organization_weak_password() {
    let builder = builder();

    assert!(
        matches!(builder.clone().add_user("username", "1234"), Err(VaultError::PasswordNotStrong(_))),
        "Weak password"
    );

    assert!(
        matches!(
            builder.clone().add_user("username", "ApertureScience&42"),
            Err(VaultError::PasswordNotStrong(_))
        ),
        "Strong password but similar to organization name"
    );

    assert!(
        matches!(
            builder.clone().add_user("usernameFooBarJohnPeter", "usernameFooBarJohnPeter1234"),
            Err(VaultError::PasswordNotStrong(_))
        ),
        "Strong password but similar to user name"
    );
}

#[test]
fn already_existing_organization_name() {
    let mut server = set_up_server_with_organizations();

    let result = OrganizationBuilder::new("ApertureScience", &fast_and_unsafe_argon_config())
        .unwrap()
        .add_user("user1", "80m32Z$GIdKGK*M")
        .unwrap()
        .add_user("user2", "80m32Z$GIdKGK*M")
        .unwrap()
        .create_organization(&mut server);

    assert!(matches!(result, Err(ServerError)));
}

#[test]
fn create_organizations_and_unlock() {
    let mut server = set_up_server_with_organizations();
    authenticate_clients_for_server(&mut server);
}

#[test]
fn client_server_delete_user() {
    let mut server = set_up_server_with_organizations();
    let mut client_controller = Controller::unlock_vault_for_organization(
        &mut server,
        "StarWars",
        "Luke",
        "luke80m32Z$GIdKGK*M",
        "Leila",
        "leila80m32Z$GIdKGK*M",
    )
    .unwrap();

    client_controller.revoke_user(&mut server, "DarthVador").unwrap();

    let controller_result = Controller::unlock_vault_for_organization(
        &mut server,
        "StarWars",
        "DarthVador",
        "darthvador80m32Z$GIdKGK*M",
        "Leila",
        "leila80m32Z$GIdKGK*M",
    );
    assert!(matches!(controller_result, Err(ServerError)));
}

#[test]
fn client_server_delete_user_wrong_token() {
    let mut server = set_up_server_with_organizations();
    let mut client_controllers = authenticate_clients_for_server(&mut server);

    assert!(matches!(client_controllers[0].revoke_user(&mut server, "DarthVador"), Err(ServerError)));

    Controller::unlock_vault_for_organization(
        &mut server,
        "StarWars",
        "Luke",
        "luke80m32Z$GIdKGK*M",
        "Leila",
        "leila80m32Z$GIdKGK*M",
    )
    .unwrap();
}

#[test]
fn revoke_token() {
    let (mut server, mut client_controllers) = set_up_server_with_organizations_and_documents();

    client_controllers[0].revoke_token(&mut server).unwrap();

    assert!(matches!(client_controllers[0].list_document_names(&mut server), Err(ServerError)));
    client_controllers[1].list_document_names(&mut server).unwrap();
}

#[test]
fn client_server_list_documents() {
    let (mut server, mut client_controllers) = set_up_server_with_organizations_and_documents();

    let organization0_document_names =
        client_controllers[0].list_document_names(&mut server).unwrap();
    assert_eq!(3, organization0_document_names.len());
    assert!(organization0_document_names.contains(&"aperture science 1".into()));
    assert!(organization0_document_names.contains(&"aperture science 2".into()));
    assert!(organization0_document_names.contains(&"aperture science star wars shared".into()));

    let organization1_document_names =
        client_controllers[1].list_document_names(&mut server).unwrap();
    assert_eq!(2, organization1_document_names.len());
    assert!(organization1_document_names.contains(&"star wars".into()));
    assert!(organization1_document_names.contains(&"aperture science star wars shared".into()));

    let organization2_document_names =
        client_controllers[2].list_document_names(&mut server).unwrap();
    assert_eq!(0, organization2_document_names.len());
}

#[test]
fn client_server_get_document() {
    let (mut server, mut client_controllers) = set_up_server_with_organizations_and_documents();

    let document1 = client_controllers[0].download(&mut server, "aperture science 1").unwrap();
    assert_eq!(
        document1,
        Document {
            name: "aperture science 1".to_string(),
            content: "aperture science content 1".to_string()
        }
    );

    let document2 = client_controllers[0].download(&mut server, "aperture science 2").unwrap();
    assert_eq!(
        document2,
        Document {
            name: "aperture science 2".to_string(),
            content: "aperture science content 2".to_string()
        }
    );

    let document3 =
        client_controllers[0].download(&mut server, "aperture science star wars shared").unwrap();
    assert_eq!(
        document3,
        Document {
            name: "aperture science star wars shared".to_string(),
            content: "shared content".to_string()
        }
    );

    let document4 =
        client_controllers[1].download(&mut server, "aperture science star wars shared").unwrap();
    assert_eq!(
        document4,
        Document {
            name: "aperture science star wars shared".to_string(),
            content: "shared content".to_string()
        }
    );

    let document5 = client_controllers[1].download(&mut server, "star wars").unwrap();
    assert_eq!(
        document5,
        Document { name: "star wars".to_string(), content: "star wars content".to_string() }
    );
}

#[test]
fn client_server_update_document() {
    let (mut server, mut client_controllers) = set_up_server_with_organizations_and_documents();

    let new_document =
        Document { name: "new name".to_string(), content: "new content".to_string() };
    client_controllers[0].update(&mut server, "aperture science 1", &new_document).unwrap();

    assert!(matches!(
        client_controllers[0].download(&mut server, "aperture science 1"),
        Err(DocumentNotFound)
    ));

    let downloaded_document = client_controllers[0].download(&mut server, "new name").unwrap();
    assert_eq!(new_document, downloaded_document);
}

#[test]
fn client_server_update_shared_document() {
    let (mut server, mut client_controllers) = set_up_server_with_organizations_and_documents();

    let new_document =
        Document { name: "new name".to_string(), content: "new content".to_string() };
    client_controllers[0]
        .update(&mut server, "aperture science star wars shared", &new_document)
        .unwrap();

    assert!(matches!(
        client_controllers[1].download(&mut server, "aperture science star wars shared"),
        Err(DocumentNotFound)
    ));

    let downloaded_document = client_controllers[1].download(&mut server, "new name").unwrap();
    assert_eq!(new_document, downloaded_document);
}

#[test]
fn client_server_delete_document() {
    let (mut server, mut client_controllers) = set_up_server_with_organizations_and_documents();

    client_controllers[0].delete(&mut server, "aperture science 1").unwrap();

    let organization_document_names =
        client_controllers[0].list_document_names(&mut server).unwrap();
    assert!(!organization_document_names.contains(&"aperture science 1".into()));
}

#[test]
fn client_server_delete_shared_document() {
    let (mut server, mut client_controllers) = set_up_server_with_organizations_and_documents();

    client_controllers[0].delete(&mut server, "aperture science star wars shared").unwrap();

    let organization_document_names =
        client_controllers[1].list_document_names(&mut server).unwrap();
    assert!(organization_document_names.contains(&"aperture science star wars shared".into()));
}
