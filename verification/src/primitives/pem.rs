use vstd::prelude::*;
use crate::bytes::byte_strings;

verus! {

/// The contents of the certificate sections that `rustls_pemfile::certs`
/// finds in a PEM text, in their order; nothing when it cannot read the
/// text.
pub uninterp spec fn pem_certificates(pem: Seq<u8>) -> Option<Seq<Seq<u8>>>;

/// The contents of the PKCS#8 private key sections that
/// `rustls_pemfile::pkcs8_private_keys` finds in a PEM text, in their order;
/// nothing when it cannot read the text.
pub uninterp spec fn pem_pkcs8_private_keys(pem: Seq<u8>) -> Option<Seq<Seq<u8>>>;

/// The byte strings of an optional list of byte vectors.
pub open spec fn optional_byte_strings(value: Option<Vec<Vec<u8>>>) -> Option<Seq<Seq<u8>>> {
    match value {
        Some(list) => Some(byte_strings(list@)),
        None => None,
    }
}

/// `rustls_pemfile::certs` on a PEM text held in memory.
#[verifier::external_body]
pub(crate) fn read_certificates(pem: &[u8]) -> (certificates: Option<Vec<Vec<u8>>>)
    ensures
        optional_byte_strings(certificates) == pem_certificates(pem@),
{
    let mut reader = pem;
    rustls_pemfile::certs(&mut reader).ok()
}

/// `rustls_pemfile::pkcs8_private_keys` on a PEM text held in memory.
#[verifier::external_body]
pub(crate) fn read_pkcs8_private_keys(pem: &[u8]) -> (keys: Option<Vec<Vec<u8>>>)
    ensures
        optional_byte_strings(keys) == pem_pkcs8_private_keys(pem@),
{
    let mut reader = pem;
    rustls_pemfile::pkcs8_private_keys(&mut reader).ok()
}

} // verus!
