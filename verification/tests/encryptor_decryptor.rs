use dryoc::dryocbox::DryocBox;
use vault::client::encryptor_decryptor::OrganizationEncryptorDecryptor;
use vault::data::{Document, EncryptedDocumentNameAndKey, KeyPair, Token};
use vault::error::VaultError;

fn test_document() -> Document {
    Document {
        name: String::from("test document name"),
        content: String::from("test document content"),
    }
}

fn mock_encryptor_decryptor() -> OrganizationEncryptorDecryptor {
    OrganizationEncryptorDecryptor::new(KeyPair::generate())
}

#[test]
fn encryptor_decryptor_encryption_then_decryption() {
    let encryptor_decryptor = mock_encryptor_decryptor();

    let (encrypted_document, encrypted_key) = encryptor_decryptor
        .generate_document_key_and_encrypt_document(&test_document())
        .unwrap();

    let decrypted_document = encryptor_decryptor
        .decrypt_document(&encrypted_document, &encrypted_key)
        .unwrap();

    assert_eq!(decrypted_document, test_document());
}

#[test]
fn encryptor_decryptor_encryption_then_name_decryption() {
    let encryptor_decryptor = mock_encryptor_decryptor();

    let (encrypted_document, encrypted_key) = encryptor_decryptor
        .generate_document_key_and_encrypt_document(&test_document())
        .unwrap();

    let decrypted_name = encryptor_decryptor
        .decrypt_document_name(&encrypted_document.name, &encrypted_key)
        .unwrap();

    assert_eq!(decrypted_name, test_document().name);
}

#[test]
fn encryptor_decryptor_encryption_then_update_then_decryption() {
    let encryptor_decryptor = mock_encryptor_decryptor();

    let (.., encrypted_key) = encryptor_decryptor
        .generate_document_key_and_encrypt_document(&test_document())
        .unwrap();
    let encrypted_document = encryptor_decryptor
        .encrypt_document_with_key(&test_document(), &encrypted_key)
        .unwrap();
    let decrypted_document = encryptor_decryptor
        .decrypt_document(&encrypted_document, &encrypted_key)
        .unwrap();

    assert_eq!(decrypted_document, test_document())
}

#[test]
fn encryptor_decryptor_encryption_then_add_owner_then_decryption() {
    let encryptor_decryptor1 = mock_encryptor_decryptor();
    let encryptor_decryptor2 = mock_encryptor_decryptor();

    let (encrypted_document, encrypted_key) = encryptor_decryptor1
        .generate_document_key_and_encrypt_document(&test_document())
        .unwrap();
    let other_encrypted_key = encryptor_decryptor1
        .encrypt_document_key_for_other_organization(
            &encrypted_key,
            &encryptor_decryptor2.organization_public_key(),
        )
        .unwrap();
    let decrypted_document = encryptor_decryptor2
        .decrypt_document(&encrypted_document, &other_encrypted_key)
        .unwrap();

    assert_eq!(decrypted_document, test_document())
}

#[test]
fn decrypt_token() {
    let encryptor_decryptor = mock_encryptor_decryptor();

    let token: Token = "my token".into();
    let encrypted_token =
        DryocBox::seal_to_vecbox(&token, &encryptor_decryptor.organization_public_key())
            .unwrap()
            .to_vec();

    assert_eq!(token, encryptor_decryptor.decrypt_token(&encrypted_token).unwrap())
}

#[test]
fn another_organization_reads_nothing() {
    let owner = mock_encryptor_decryptor();
    let stranger = mock_encryptor_decryptor();

    let (encrypted_document, encrypted_key) =
        owner.generate_document_key_and_encrypt_document(&test_document()).unwrap();

    assert_eq!(
        stranger.decrypt_document(&encrypted_document, &encrypted_key),
        Err(VaultError::CryptographyError)
    );
    assert_eq!(
        stranger.decrypt_document_name(&encrypted_document.name, &encrypted_key),
        Err(VaultError::CryptographyError)
    );
    assert_eq!(
        stranger.encrypt_document_with_key(&test_document(), &encrypted_key),
        Err(VaultError::CryptographyError)
    );
    assert_eq!(
        stranger.encrypt_document_key_for_other_organization(
            &encrypted_key,
            &owner.organization_public_key()
        ),
        Err(VaultError::CryptographyError)
    );
    assert_eq!(stranger.decrypt_token(&encrypted_key), Err(VaultError::CryptographyError));
}

#[test]
fn a_sealed_key_is_48_bytes_longer_than_the_key() {
    let encryptor_decryptor = mock_encryptor_decryptor();
    let (encrypted_document, encrypted_key) = encryptor_decryptor
        .generate_document_key_and_encrypt_document(&test_document())
        .unwrap();
    assert_eq!(encrypted_key.len(), 32 + 48);
    assert_eq!(encrypted_document.name.secret_box.len(), "test document name".len() + 16);
    assert_eq!(
        encrypted_document.content.secret_box.len(),
        "test document content".len() + 16
    );
    assert_ne!(encrypted_document.name.nonce, encrypted_document.content.nonce);
}

#[test]
fn a_token_that_is_no_sealed_box_is_refused() {
    let encryptor_decryptor = mock_encryptor_decryptor();
    assert_eq!(
        encryptor_decryptor.decrypt_token(&vec![1, 2, 3]),
        Err(VaultError::CryptographyError)
    );
    assert_eq!(
        encryptor_decryptor.decrypt_document_key(&Vec::new()),
        Err(VaultError::CryptographyError)
    );
}

#[test]
fn a_sealed_box_that_holds_no_key_is_refused() {
    let encryptor_decryptor = mock_encryptor_decryptor();
    let sealed = DryocBox::seal_to_vecbox(
        b"too short for a key",
        &encryptor_decryptor.organization_public_key(),
    )
    .unwrap()
    .to_vec();
    assert_eq!(
        encryptor_decryptor.decrypt_document_key(&sealed),
        Err(VaultError::CryptographyError)
    );
    assert_eq!(
        encryptor_decryptor.decrypt_token(&sealed),
        Ok(b"too short for a key".to_vec())
    );
}

#[test]
fn the_first_document_of_a_name_is_found() {
    let encryptor_decryptor = mock_encryptor_decryptor();
    let stranger = mock_encryptor_decryptor();
    let mut listing = Vec::new();
    for (id, name, readable) in
        [(1u8, "one", true), (2, "two", false), (3, "two", true), (4, "two", true)]
    {
        let document = Document { name: name.to_string(), content: String::new() };
        let (encrypted, key) = if readable {
            encryptor_decryptor.generate_document_key_and_encrypt_document(&document).unwrap()
        } else {
            stranger.generate_document_key_and_encrypt_document(&document).unwrap()
        };
        listing.push((vec![id; 32], EncryptedDocumentNameAndKey { data: encrypted.name, key }));
    }
    assert_eq!(
        encryptor_decryptor.find_document_id_from_name(&listing, "one"),
        Some(vec![1u8; 32])
    );
    assert_eq!(
        encryptor_decryptor.find_document_id_from_name(&listing, "two"),
        Some(vec![3u8; 32])
    );
    assert_eq!(encryptor_decryptor.find_document_id_from_name(&listing, "three"), None);
    assert_eq!(encryptor_decryptor.find_document_id_from_name(&Vec::new(), "one"), None);
    assert_eq!(stranger.find_document_id_from_name(&listing, "two"), Some(vec![2u8; 32]));
}

#[test]
fn a_public_key_that_the_sealing_refuses_is_a_cryptography_error() {
    // To the point of order one every shared secret is zero.
    let refused = [0u8; 32];
    let own = mock_encryptor_decryptor();
    let (_, encrypted_key) =
        own.generate_document_key_and_encrypt_document(&test_document()).unwrap();
    assert_eq!(
        own.encrypt_document_key_for_other_organization(&encrypted_key, &refused),
        Err(VaultError::CryptographyError)
    );
    let other = KeyPair::generate();
    assert!(own
        .encrypt_document_key_for_other_organization(&encrypted_key, &other.public_key)
        .is_ok());

    let unable = OrganizationEncryptorDecryptor::new(KeyPair {
        public_key: refused,
        secret_key: [1u8; 32],
    });
    assert_eq!(
        unable.generate_document_key_and_encrypt_document(&test_document()).map(|_| ()),
        Err(VaultError::CryptographyError)
    );
}
