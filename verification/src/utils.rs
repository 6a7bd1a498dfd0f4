//! Certificates and keys out of PEM texts.

use vstd::prelude::*;
use crate::error::VaultError;
use crate::primitives::pem::{
    pem_certificates, pem_pkcs8_private_keys, read_certificates, read_pkcs8_private_keys,
};

verus! {

/// The first of a list of byte strings, if the list was read and is not
/// empty.
pub open spec fn first_of(sections: Option<Seq<Seq<u8>>>) -> Option<Seq<u8>> {
    match sections {
        Some(list) => if list.len() > 0 {
            Some(list[0])
        } else {
            None
        },
        None => None,
    }
}

fn take_first(sections: Option<Vec<Vec<u8>>>) -> (result: Result<Vec<u8>, VaultError>)
    ensures
        match first_of(crate::primitives::pem::optional_byte_strings(sections)) {
            Some(first) => result.is_ok() && result.unwrap()@ == first,
            None => result.is_err() && result.unwrap_err() == VaultError::FileError,
        },
{
    match sections {
        Some(mut list) => {
            if list.len() == 0 {
                Err(VaultError::FileError)
            } else {
                // remove and not get because we want to get an owned value, not a reference
                Ok(list.remove(0))
            }
        },
        None => Err(VaultError::FileError),
    }
}

/// The first certificate of a PEM text, in DER form. Fails with `FileError`
/// exactly when the text cannot be read or holds no certificate.
pub fn get_certificate_der_from_pem(pem: &[u8]) -> (result: Result<Vec<u8>, VaultError>)
    ensures
        match first_of(pem_certificates(pem@)) {
            Some(certificate) => result.is_ok() && result.unwrap()@ == certificate,
            None => result.is_err() && result.unwrap_err() == VaultError::FileError,
        },
{
    take_first(read_certificates(pem))
}

/// The first PKCS#8 private key of a PEM text, in DER form. Fails with
/// `FileError` exactly when the text cannot be read or holds no such key.
pub fn get_key_der_from_pem(pem: &[u8]) -> (result: Result<Vec<u8>, VaultError>)
    ensures
        match first_of(pem_pkcs8_private_keys(pem@)) {
            Some(key) => result.is_ok() && result.unwrap()@ == key,
            None => result.is_err() && result.unwrap_err() == VaultError::FileError,
        },
{
    take_first(read_pkcs8_private_keys(pem))
}

} // verus!
