//! The client side: protecting and recovering the organization's key pair,
//! encrypting documents, creating organizations, and the unlocked session.

pub mod client_config;
pub mod encryptor_decryptor;
pub mod key_pair;
pub mod organization_creation;
pub mod session_controller;
