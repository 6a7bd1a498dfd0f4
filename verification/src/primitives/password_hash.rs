use vstd::prelude::*;
use dryoc::pwhash::{Config, VecPwHash};

verus! {

/// The arguments that `PwHash::hash_with_salt` refuses on every machine,
/// before it hashes: a salt that has not 16 bytes, fewer than one pass or
/// more than 4294967295, a memory limit below 8192 bytes, an output of fewer
/// than 16 bytes.
pub open spec fn hash_refuses(
    salt_length: nat,
    opslimit: u64,
    memlimit: usize,
    hash_length: usize,
) -> bool {
    salt_length != 16 || opslimit < 1 || opslimit > 4294967295 || memlimit < 8192 || hash_length
        < 16
}

/// The bytes that `PwHash::hash_with_salt` derives from a password and a salt
/// under Argon2id with the given limits and output length, wherever it
/// derives any.
pub uninterp spec fn password_hashed(
    password: Seq<u8>,
    salt: Seq<u8>,
    opslimit: u64,
    memlimit: usize,
    hash_length: usize,
) -> Seq<u8>;

/// `PwHash::hash_with_salt` with a configuration built from the crate's
/// default and the given limits and output length. Believed: a hash that
/// comes out is the one that these arguments always give, and has the length
/// asked for; arguments out of the crate's ranges are refused. Whether a hash
/// comes out is not a matter of the arguments alone: the crate reserves the
/// memory limit before it hashes and answers with an error when the machine
/// cannot give it, and the largest limit that it accepts depends on the
/// machine's word size. So nothing says when a hash comes out.
#[verifier::external_body]
pub(crate) fn hash_password(
    password: &[u8],
    salt: &Vec<u8>,
    opslimit: u64,
    memlimit: usize,
    hash_length: usize,
) -> (hash: Option<Vec<u8>>)
    ensures
        hash.is_some() ==> hash.unwrap()@ == password_hashed(
            password@,
            salt@,
            opslimit,
            memlimit,
            hash_length,
        ) && hash.unwrap()@.len() == hash_length,
        hash_refuses(salt@.len(), opslimit, memlimit, hash_length) ==> hash.is_none(),
{
    let config = Config::default().with_opslimit(opslimit).with_memlimit(memlimit)
        .with_hash_length(hash_length);
    VecPwHash::hash_with_salt(password, salt.clone(), config).ok().map(|hash| hash.into_parts().0)
}

/// `PwHash::hash` with a configuration built from the crate's interactive
/// preset and the given limits: one hash of the password under a random salt.
/// Tells whether the crate accepted the limits and produced a hash.
#[verifier::external_body]
pub(crate) fn hash_password_once(password: &[u8], opslimit: u64, memlimit: usize) -> bool {
    let config = Config::interactive().with_memlimit(memlimit).with_opslimit(opslimit);
    VecPwHash::hash(password, config).is_ok()
}

} // verus!
