//! The organization's key pair under split-password protection: the secret
//! key is dealt into shares, two of which recover it, and each share is
//! encrypted under a key derived from one member's password.

use vstd::prelude::*;
use vstd::utf8::encode_utf8;
use crate::bytes::key_from_bytes;
use crate::data::{
    user_records, ArgonConfig, KeyPair, PublicKey, SecretKey, UserRecordView, UserShare,
    UserShareView,
};
use crate::error::VaultError;
use crate::primitives::password_hash::{hash_password, hash_refuses, password_hashed};
use crate::primitives::secret_box::SECRET_BOX_TAG_LENGTH;
use crate::primitives::random::random_bytes;
use crate::primitives::sealed_box::box_public_key;
use crate::primitives::secret_sharing::{deal_shares, recover_secret, secret_recovered, MAX_SHARES};
use crate::symmetric_encryption_helper::{SymEncryptedData, SymmetricKey};

verus! {

pub const NB_USERS_REQUIRED_TO_RETRIEVE_PRIVATE_KEY: u8 = 2;

pub const SALT_LENGTH_BYTES: usize = 16;

/// Length of the keys that passwords are hashed to.
pub const PASSWORD_KEY_LENGTH_BYTES: usize = 32;

/// The key that a password gives under a salt and the organization's hash
/// parameters, wherever the hash function gives one.
pub open spec fn password_key(password: Seq<char>, salt: Seq<u8>, argon_config: ArgonConfig) -> Seq<
    u8,
> {
    password_hashed(
        encode_utf8(password),
        salt,
        argon_config.opslimit,
        argon_config.memlimit,
        PASSWORD_KEY_LENGTH_BYTES,
    )
}

/// The hash function gives no key under that salt and those parameters, on
/// whatever machine: they are out of its ranges.
pub open spec fn key_refused(salt: Seq<u8>, argon_config: ArgonConfig) -> bool {
    hash_refuses(
        salt.len(),
        argon_config.opslimit,
        argon_config.memlimit,
        PASSWORD_KEY_LENGTH_BYTES,
    )
}

/// The secret key that two users' keys recover from their records. Nothing
/// when a record does not authenticate under its key, the two shares do not
/// combine, or what they combine to is no key of 32 bytes.
pub open spec fn private_key_from_keys(
    key1: Seq<u8>,
    user_share1: UserShareView,
    key2: Seq<u8>,
    user_share2: UserShareView,
) -> Option<Seq<u8>> {
    match (
        user_share1.encrypted_private_key_share.opened(key1),
        user_share2.encrypted_private_key_share.opened(key2),
    ) {
        (Some(share1), Some(share2)) => match secret_recovered(
            NB_USERS_REQUIRED_TO_RETRIEVE_PRIVATE_KEY,
            seq![share1, share2],
        ) {
            Some(secret) => if secret.len() == 32 {
                Some(secret)
            } else {
                None
            },
            None => None,
        },
        _ => None,
    }
}

/// What recovering the secret key from two users' keys and records gives:
/// the secret key that the keys recover, or `CryptographyError` when they
/// recover none.
pub open spec fn private_key_recovered(
    key1: Seq<u8>,
    user_share1: UserShareView,
    key2: Seq<u8>,
    user_share2: UserShareView,
    result: Result<SecretKey, VaultError>,
) -> bool {
    match private_key_from_keys(key1, user_share1, key2, user_share2) {
        Some(secret_key) => result.is_ok() && result.unwrap()@ == secret_key,
        None => result.is_err() && result.unwrap_err() == VaultError::CryptographyError,
    }
}

/// The share that a password unlocks from a user's record, where the hash
/// function gives the password's key. Nothing when the record does not
/// authenticate under that key.
pub open spec fn share_unlocked(
    password: Seq<char>,
    user_share: UserShareView,
    argon_config: ArgonConfig,
) -> Option<Seq<u8>> {
    user_share.encrypted_private_key_share.opened(
        password_key(password, user_share.salt, argon_config),
    )
}

/// The secret key that two passwords recover from two users' records, where
/// the hash function gives the passwords' keys: what the two keys recover.
pub open spec fn private_key_retrieved(
    password1: Seq<char>,
    user_share1: UserShareView,
    password2: Seq<char>,
    user_share2: UserShareView,
    argon_config: ArgonConfig,
) -> Option<Seq<u8>> {
    private_key_from_keys(
        password_key(password1, user_share1.salt, argon_config),
        user_share1,
        password_key(password2, user_share2.salt, argon_config),
        user_share2,
    )
}

/// The names and passwords of a list of credentials.
pub open spec fn credentials_view(credentials: Seq<(String, String)>) -> Seq<
    (Seq<char>, Seq<char>),
> {
    Seq::new(credentials.len(), |i: int| (credentials[i].0@, credentials[i].1@))
}

/// What `create_protected_key_pair` has made when it succeeds: for each of
/// the first 255 users, under the same name, a share such that the keys of
/// any two different users' passwords recover one and the same secret key,
/// to which the public key belongs, while one user alone recovers nothing.
pub open spec fn protects(
    user_shares: Seq<UserRecordView>,
    public_key: Seq<u8>,
    user_credentials: Seq<(Seq<char>, Seq<char>)>,
    argon_config: ArgonConfig,
) -> bool {
    &&& user_shares.len() == if user_credentials.len() <= MAX_SHARES {
        user_credentials.len()
    } else {
        MAX_SHARES as nat
    }
    &&& forall|i: int|
        0 <= i < user_shares.len() ==> (#[trigger] user_shares[i]).name == user_credentials[i].0
    &&& forall|i: int|
        0 <= i < user_shares.len() ==> (#[trigger] user_shares[i]).share.salt.len()
            == SALT_LENGTH_BYTES
    &&& exists|secret_key: Seq<u8>| #[trigger]
        box_public_key(secret_key) == public_key && recovers(
            user_shares,
            secret_key,
            user_credentials,
            argon_config,
        )
}

/// The keys that the passwords of any two different users hash to recover
/// the secret key; one user alone recovers nothing.
pub open spec fn recovers(
    user_shares: Seq<UserRecordView>,
    secret_key: Seq<u8>,
    user_credentials: Seq<(Seq<char>, Seq<char>)>,
    argon_config: ArgonConfig,
) -> bool {
    &&& forall|i: int, j: int|
        0 <= i < user_shares.len() && 0 <= j < user_shares.len() && i != j
            ==> private_key_retrieved(
            user_credentials[i].1,
            (#[trigger] user_shares[i]).share,
            user_credentials[j].1,
            (#[trigger] user_shares[j]).share,
            argon_config,
        ) == Some(secret_key)
    &&& forall|i: int|
        0 <= i < user_shares.len() ==> private_key_retrieved(
            user_credentials[i].1,
            (#[trigger] user_shares[i]).share,
            user_credentials[i].1,
            user_shares[i].share,
            argon_config,
        ).is_none()
}

/// One user's protected share, from the key that the password gave: the
/// share encrypted under it, with the salt and under the user's name. Where
/// the password gave no key, the failure is `CryptographyError`.
pub fn protect_share(
    user_name: &str,
    share: &[u8],
    salt: Vec<u8>,
    key: Result<SymmetricKey, VaultError>,
) -> (result: Result<(String, UserShare), VaultError>)
    requires
        share@.len() + SECRET_BOX_TAG_LENGTH <= usize::MAX,
    ensures
        key.is_err() ==> result == Err::<(String, UserShare), VaultError>(
            VaultError::CryptographyError,
        ),
        key.is_ok() ==> result.is_ok() && result.unwrap().0@ == user_name@
            && result.unwrap().1@.salt == salt@
            && result.unwrap().1@.encrypted_private_key_share.opened(key.unwrap()@) == Some(
            share@,
        ),
{
    match key {
        Ok(user_key) => {
            let encrypted_private_key_share = SymEncryptedData::encrypt(share, &user_key);
            Ok((user_name.to_owned(), UserShare { salt, encrypted_private_key_share }))
        },
        Err(_) => Err(VaultError::CryptographyError),
    }
}

/// Generates the organization's key pair and protects the secret key with
/// the users' passwords: it is dealt into shares with threshold 2, one for
/// each of the first 255 users, and each share is encrypted under the key
/// that the user's password gives with a fresh salt of 16 bytes, as
/// `protect_share` says.
///
/// Fails, with `CryptographyError`, only when the hash function gives no key
/// for a password. It gives none where the parameters are out of its ranges;
/// where they are in range it is the machine that decides, so that success
/// is promised only where no password is hashed.
pub fn create_protected_key_pair(
    user_credentials: &Vec<(String, String)>,
    argon_config: &ArgonConfig,
) -> (result: Result<(Vec<(String, UserShare)>, PublicKey), VaultError>)
    ensures
        result.is_ok() ==> protects(
            user_records(result.unwrap().0@),
            result.unwrap().1@,
            credentials_view(user_credentials@),
            *argon_config,
        ),
        result.is_err() ==> result.unwrap_err() == VaultError::CryptographyError,
        user_credentials@.len() == 0 ==> result.is_ok(),
        user_credentials@.len() > 0 && hash_refuses(
            SALT_LENGTH_BYTES as nat,
            argon_config.opslimit,
            argon_config.memlimit,
            PASSWORD_KEY_LENGTH_BYTES,
        ) ==> result.is_err(),
{
    let key_pair = KeyPair::generate();
    let shares = deal_shares(
        NB_USERS_REQUIRED_TO_RETRIEVE_PRIVATE_KEY,
        key_pair.secret_key.as_slice(),
        user_credentials.len(),
    );
    let mut user_shares: Vec<(String, UserShare)> = Vec::new();
    let mut i: usize = 0;
    while i < shares.len()
        invariant
            i <= shares@.len(),
            shares@.len() <= user_credentials@.len(),
            user_shares@.len() == i,
            i > 0 ==> !hash_refuses(
                SALT_LENGTH_BYTES as nat,
                argon_config.opslimit,
                argon_config.memlimit,
                PASSWORD_KEY_LENGTH_BYTES,
            ),
            forall|k: int|
                0 <= k < shares@.len() ==> (#[trigger] shares@[k])@.len() == 33,
            forall|k: int|
                0 <= k < i ==> (#[trigger] user_shares@[k]).0@ == user_credentials@[k].0@,
            forall|k: int|
                0 <= k < i ==> (#[trigger] user_shares@[k]).1@.salt.len() == SALT_LENGTH_BYTES,
            forall|k: int|
                0 <= k < i ==> share_unlocked(
                    user_credentials@[k].1@,
                    (#[trigger] user_shares@[k]).1@,
                    *argon_config,
                ) == Some(shares@[k]@),
        decreases shares@.len() - i,
    {
        let salt = random_bytes(SALT_LENGTH_BYTES);
        let ghost salt_bytes = salt@;
        let user_key = get_key_from_password(user_credentials[i].1.as_str(), &salt, argon_config);
        let user_share = match protect_share(
            user_credentials[i].0.as_str(),
            shares[i].as_slice(),
            salt,
            user_key,
        ) {
            Ok(user_share) => user_share,
            Err(_) => {
                return Err(VaultError::CryptographyError);
            },
        };
        assert(user_key.unwrap()@ == password_key(
            user_credentials@[i as int].1@,
            salt_bytes,
            *argon_config,
        ));
        user_shares.push(user_share);
        i = i + 1;
    }
    proof {
        let secret_key = key_pair.secret_key@;
        let records = user_records(user_shares@);
        let credentials = credentials_view(user_credentials@);
        assert forall|a: int, b: int|
            0 <= a < records.len() && 0 <= b < records.len() && a != b implies private_key_retrieved(
            credentials[a].1,
            (#[trigger] records[a]).share,
            credentials[b].1,
            (#[trigger] records[b]).share,
            *argon_config,
        ) == Some(secret_key) by {
            assert(records[a].share == user_shares@[a].1@);
            assert(records[b].share == user_shares@[b].1@);
            assert(share_unlocked(credentials[a].1, records[a].share, *argon_config) == Some(
                shares@[a]@,
            ));
            assert(share_unlocked(credentials[b].1, records[b].share, *argon_config) == Some(
                shares@[b]@,
            ));
            assert(secret_recovered(
                NB_USERS_REQUIRED_TO_RETRIEVE_PRIVATE_KEY,
                seq![shares@[a]@, shares@[b]@],
            ) == Some(secret_key));
        }
        assert forall|a: int| 0 <= a < records.len() implies private_key_retrieved(
            credentials[a].1,
            (#[trigger] records[a]).share,
            credentials[a].1,
            records[a].share,
            *argon_config,
        ).is_none() by {
            assert(records[a].share == user_shares@[a].1@);
            assert(share_unlocked(credentials[a].1, records[a].share, *argon_config) == Some(
                shares@[a]@,
            ));
            assert(secret_recovered(
                NB_USERS_REQUIRED_TO_RETRIEVE_PRIVATE_KEY,
                seq![shares@[a]@, shares@[a]@],
            ).is_none());
        }
        assert forall|a: int| 0 <= a < records.len() implies (#[trigger] records[a]).name
            == credentials[a].0 && records[a].share.salt.len() == SALT_LENGTH_BYTES by {
            assert(records[a].name == user_shares@[a].0@);
        }
        assert(recovers(records, secret_key, credentials, *argon_config));
        assert(box_public_key(secret_key) == key_pair.public_key@);
    }
    Ok((user_shares, key_pair.public_key))
}

/// Recovers the organization's secret key from two users' records and the
/// keys that their passwords gave. Fails with `CryptographyError` exactly
/// when a record does not authenticate under its key or the shares do not
/// combine to a key.
pub fn retrieve_private_key_with_keys(
    key1: &SymmetricKey,
    user_share1: &UserShare,
    key2: &SymmetricKey,
    user_share2: &UserShare,
) -> (result: Result<SecretKey, VaultError>)
    ensures
        private_key_recovered(key1@, user_share1@, key2@, user_share2@, result),
{
    let share1 = match user_share1.encrypted_private_key_share.decrypt(key1) {
        Ok(share) => share,
        Err(_) => {
            return Err(VaultError::CryptographyError);
        },
    };
    let share2 = match user_share2.encrypted_private_key_share.decrypt(key2) {
        Ok(share) => share,
        Err(_) => {
            return Err(VaultError::CryptographyError);
        },
    };
    let mut shares: Vec<Vec<u8>> = Vec::new();
    shares.push(share1);
    shares.push(share2);
    assert(crate::bytes::byte_strings(shares@) =~= seq![shares@[0]@, shares@[1]@]);
    let recovered_secret = match recover_secret(
        NB_USERS_REQUIRED_TO_RETRIEVE_PRIVATE_KEY,
        &shares,
    ) {
        Some(secret) => secret,
        None => {
            return Err(VaultError::CryptographyError);
        },
    };
    match key_from_bytes(&recovered_secret) {
        Some(secret_key) => Ok(secret_key),
        None => Err(VaultError::CryptographyError),
    }
}

/// Recovers the organization's secret key from two users' passwords and
/// records: each password is hashed to its key, and the two keys recover the
/// secret key as `retrieve_private_key_with_keys` says.
///
/// Every failure is `CryptographyError`: a password that the hash function
/// gives no key for, a record that does not authenticate, shares that do not
/// combine to a key. A secret key that comes out is the one that the
/// passwords' keys recover. Whether the hash function gives a key is for the
/// machine to say, so success is not promised.
pub fn retrieve_private_key(
    password1: &str,
    user_share1: &UserShare,
    password2: &str,
    user_share2: &UserShare,
    argon_config: &ArgonConfig,
) -> (result: Result<SecretKey, VaultError>)
    ensures
        result.is_ok() ==> private_key_retrieved(
            password1@,
            user_share1@,
            password2@,
            user_share2@,
            *argon_config,
        ) == Some(result.unwrap()@),
        result.is_err() ==> result.unwrap_err() == VaultError::CryptographyError,
        private_key_retrieved(
            password1@,
            user_share1@,
            password2@,
            user_share2@,
            *argon_config,
        ).is_none() ==> result.is_err(),
        key_refused(user_share1@.salt, *argon_config) || key_refused(
            user_share2@.salt,
            *argon_config,
        ) ==> result.is_err(),
{
    let key1 = match get_key_from_password(password1, &user_share1.salt, argon_config) {
        Ok(key) => key,
        Err(_) => {
            return Err(VaultError::CryptographyError);
        },
    };
    let key2 = match get_key_from_password(password2, &user_share2.salt, argon_config) {
        Ok(key) => key,
        Err(_) => {
            return Err(VaultError::CryptographyError);
        },
    };
    retrieve_private_key_with_keys(&key1, user_share1, &key2, user_share2)
}

/// The key that a password gives under a salt: the hash of the password.
/// Every failure is `CryptographyError`, and a salt or parameters out of the
/// hash function's ranges fail. Whether the hash function gives a key for
/// arguments in range is for the machine to say.
pub fn get_key_from_password(password: &str, salt: &Vec<u8>, argon_config: &ArgonConfig) -> (result:
    Result<SymmetricKey, VaultError>)
    ensures
        result.is_ok() ==> result.unwrap()@ == password_key(password@, salt@, *argon_config),
        result.is_err() ==> result.unwrap_err() == VaultError::CryptographyError,
        key_refused(salt@, *argon_config) ==> result.is_err(),
{
    let hash = hash_password(
        password.as_bytes(),
        salt,
        argon_config.opslimit,
        argon_config.memlimit,
        PASSWORD_KEY_LENGTH_BYTES,
    );
    key_of_hash(hash)
}

/// The key that a hash is, if the hash function gave one of 32 bytes;
/// `CryptographyError` if not.
pub fn key_of_hash(hash: Option<Vec<u8>>) -> (result: Result<SymmetricKey, VaultError>)
    ensures
        match hash {
            Some(bytes) => if bytes@.len() == PASSWORD_KEY_LENGTH_BYTES {
                result.is_ok() && result.unwrap()@ == bytes@
            } else {
                result == Err::<SymmetricKey, VaultError>(VaultError::CryptographyError)
            },
            None => result == Err::<SymmetricKey, VaultError>(VaultError::CryptographyError),
        },
{
    match hash {
        Some(bytes) => match key_from_bytes(&bytes) {
            Some(key) => Ok(key),
            None => Err(VaultError::CryptographyError),
        },
        None => Err(VaultError::CryptographyError),
    }
}

/// The share that a password unlocks from a user's record: the password is
/// hashed to its key, and the record decrypted under it. Every failure is
/// `CryptographyError`; a share that comes out is the one that the
/// password's key unlocks, and a record that does not authenticate under
/// that key fails.
pub fn decrypt_share_with_password(share: &UserShare, password: &str, argon_config: &ArgonConfig) -> (result:
    Result<Vec<u8>, VaultError>)
    ensures
        result.is_ok() ==> share_unlocked(password@, share@, *argon_config) == Some(
            result.unwrap()@,
        ),
        result.is_err() ==> result.unwrap_err() == VaultError::CryptographyError,
        share_unlocked(password@, share@, *argon_config).is_none() ==> result.is_err(),
        key_refused(share@.salt, *argon_config) ==> result.is_err(),
{
    let user_key = match get_key_from_password(password, &share.salt, argon_config) {
        Ok(key) => key,
        Err(_) => {
            return Err(VaultError::CryptographyError);
        },
    };
    match share.encrypted_private_key_share.decrypt(&user_key) {
        Ok(bytes) => Ok(bytes),
        Err(_) => Err(VaultError::CryptographyError),
    }
}

} // verus!
