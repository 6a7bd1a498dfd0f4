//! Calls into code that is not verified here. Every item of these modules
//! carries a contract that is believed, not proved.

pub mod base32;
pub mod clock;
pub mod password_hash;
pub mod password_strength;
pub mod pem;
pub mod random;
pub mod sealed_box;
pub mod secret_box;
pub mod secret_sharing;
pub mod text;
