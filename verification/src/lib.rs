//! End-to-end encrypted document vault shared by several organizations.
//!
//! The server stores ciphertext only. An organization's secret key is split
//! between its members with a two-of-N threshold scheme, each share being
//! protected by the member's password.

pub mod bytes;
pub mod client;
pub mod data;
pub mod error;
pub mod primitives;
pub mod server;
pub mod server_connection;
pub mod symmetric_encryption_helper;
pub mod unlocking;
pub mod utils;
pub mod validation;
