//! Provides functions that must be called from the user interface to create
//! an organization.

use vstd::prelude::*;
use vstd::arithmetic::div_mod::lemma_fundamental_div_mod_converse;
use vstd::arithmetic::power::{lemma_pow0, lemma_pow_increases, pow};
use vstd::arithmetic::power2::{lemma2_to64, lemma2_to64_rest, lemma_pow2, lemma_pow2_adds, pow2};
use vstd::string::StrSliceExecFns;
use crate::bytes::same_text;
use crate::client::key_pair::{
    create_protected_key_pair, credentials_view, protects, PASSWORD_KEY_LENGTH_BYTES,
    SALT_LENGTH_BYTES,
};
use crate::data::{user_records, ArgonConfig, PublicKey, UserRecordView, UserShare};
use crate::error::{advice_of, VaultError};
use crate::primitives::clock::{clock_reading, nanoseconds_since, NANOSECONDS_PER_SECOND};
use crate::primitives::password_hash::{hash_password_once, hash_refuses};
use crate::primitives::password_strength::{estimate_strength, StrengthEstimate};
use crate::server_connection::ServerConnection;
use crate::validation::{
    is_acceptable_name, is_standard_name, standard_form, validate_and_standardize_name,
};

verus! {

/// The lowest score of the strength estimator that a password needs.
pub const MINIMUM_PASSWORD_SCORE: u8 = 4;

/// The fewest users that an organization can be created with.
pub const MINIMUM_USERS: usize = 2;

/// Seconds that one hash is meant to take at least.
pub const HASHING_TIME_TARGET_SECONDS: u64 = 10;

/// How many operation counts the calibration tries before it gives up.
pub const CALIBRATION_STEPS: u32 = 100;

/// What an `OrganizationBuilder` holds.
pub struct OrganizationBuilderView {
    pub organization_name: Seq<char>,
    pub argon_config: ArgonConfig,
    pub user_credentials: Seq<(Seq<char>, Seq<char>)>,
}

/// Whether the credentials hold a user of that name.
pub open spec fn has_credentials(credentials: Seq<(Seq<char>, Seq<char>)>, name: Seq<char>) -> bool {
    exists|i: int| 0 <= i < credentials.len() && (#[trigger] credentials[i]).0 == name
}

/// Where the user of that name stands in the credentials.
pub open spec fn credentials_position(
    credentials: Seq<(Seq<char>, Seq<char>)>,
    name: Seq<char>,
) -> int {
    choose|i: int| 0 <= i < credentials.len() && (#[trigger] credentials[i]).0 == name
}

/// The credentials with the password of a user: in place of the password
/// that the user had, or at the end for a new user.
pub open spec fn with_credentials(
    credentials: Seq<(Seq<char>, Seq<char>)>,
    name: Seq<char>,
    password: Seq<char>,
) -> Seq<(Seq<char>, Seq<char>)> {
    if has_credentials(credentials, name) {
        credentials.update(credentials_position(credentials, name), (name, password))
    } else {
        credentials.push((name, password))
    }
}

/// No user occurs twice, and all names are standard.
pub open spec fn credentials_in_order(credentials: Seq<(Seq<char>, Seq<char>)>) -> bool {
    &&& forall|i: int|
        0 <= i < credentials.len() ==> is_standard_name((#[trigger] credentials[i]).0)
    &&& forall|i: int, j: int|
        0 <= i < j < credentials.len() ==> (#[trigger] credentials[i]).0 != (
        #[trigger] credentials[j]).0
}

/// Used to prepare the data needed to create an organization and to send it
/// to the server.
///
/// Once an instance of OrganizationBuilder is created, at least two users
/// must be added by calling add_user. The organization request can then be
/// sent to the server with create_organization.
pub struct OrganizationBuilder {
    organization_name: String,
    argon_config: ArgonConfig,
    user_credentials: Vec<(String, String)>,
}

impl View for OrganizationBuilder {
    type V = OrganizationBuilderView;

    closed spec fn view(&self) -> OrganizationBuilderView {
        OrganizationBuilderView {
            organization_name: self.organization_name@,
            argon_config: self.argon_config,
            user_credentials: credentials_view(self.user_credentials@),
        }
    }
}

impl Clone for OrganizationBuilder {
    fn clone(&self) -> (copy: Self)
        ensures
            copy@ == self@,
    {
        let mut user_credentials: Vec<(String, String)> = Vec::new();
        let mut i: usize = 0;
        while i < self.user_credentials.len()
            invariant
                i <= self.user_credentials@.len(),
                user_credentials@.len() == i,
                forall|k: int|
                    0 <= k < i ==> (#[trigger] user_credentials@[k]).0@
                        == self.user_credentials@[k].0@ && user_credentials@[k].1@
                        == self.user_credentials@[k].1@,
            decreases self.user_credentials@.len() - i,
        {
            user_credentials.push(
                (self.user_credentials[i].0.clone(), self.user_credentials[i].1.clone()),
            );
            i = i + 1;
        }
        let copy = OrganizationBuilder {
            organization_name: self.organization_name.clone(),
            argon_config: self.argon_config,
            user_credentials,
        };
        assert(copy@.user_credentials =~= self@.user_credentials);
        copy
    }
}

/// What adding a user gives, once the strength of the password has been
/// estimated: `PasswordNotStrong` without advice if the estimator refused the
/// password, `PasswordNotStrong` with the estimator's advice if the score is
/// below 4, and otherwise the credentials with the user's password.
pub open spec fn user_added(
    before: OrganizationBuilderView,
    user_name: Seq<char>,
    password: Seq<char>,
    estimate: Option<StrengthEstimate>,
    result: Result<OrganizationBuilder, VaultError>,
) -> bool {
    match estimate {
        None => result matches Err(VaultError::PasswordNotStrong(None)),
        Some(strength) => if strength.score < MINIMUM_PASSWORD_SCORE {
            match result {
                Err(VaultError::PasswordNotStrong(Some(advice))) => advice_of(strength) == Some(
                    advice@,
                ),
                Err(VaultError::PasswordNotStrong(None)) => advice_of(strength).is_none(),
                _ => false,
            }
        } else {
            &&& result.is_ok()
            &&& result.unwrap()@ == (OrganizationBuilderView {
                user_credentials: with_credentials(before.user_credentials, user_name, password),
                ..before
            })
            &&& result.unwrap().wf()
        },
    }
}

impl OrganizationBuilder {
    /// The organization's name is standard, no user occurs twice, and all
    /// user names are standard.
    pub closed spec fn wf(&self) -> bool {
        &&& is_standard_name(self.organization_name@)
        &&& credentials_in_order(credentials_view(self.user_credentials@))
    }

    /// A builder without users. Fails with `ValidationError` exactly when the
    /// name is not acceptable.
    pub fn new(organization_name: &str, argon_config: &ArgonConfig) -> (result: Result<
        Self,
        VaultError,
    >)
        ensures
            is_acceptable_name(organization_name@) ==> result.is_ok() && result.unwrap().wf()
                && result.unwrap()@ == (OrganizationBuilderView {
                organization_name: standard_form(organization_name@),
                argon_config: *argon_config,
                user_credentials: Seq::empty(),
            }),
            !is_acceptable_name(organization_name@) ==> result matches Err(
                VaultError::ValidationError,
            ),
    {
        let organization_name = match validate_and_standardize_name(organization_name) {
            Ok(name) => name,
            Err(_) => {
                return Err(VaultError::ValidationError);
            },
        };
        let builder = OrganizationBuilder {
            organization_name,
            argon_config: *argon_config,
            user_credentials: Vec::new(),
        };
        assert(builder@.user_credentials =~= Seq::empty());
        Ok(builder)
    }

    /// Adds a user and its password.
    ///
    /// Fails with `ValidationError` when the name is not acceptable. The
    /// strength of the password is then estimated, with the names of the
    /// user and of the organization held against it; what follows is what
    /// `add_user_with_estimate` does with the estimate.
    pub fn add_user(self, username: &str, password: &str) -> (result: Result<Self, VaultError>)
        requires
            self.wf(),
        ensures
            !is_acceptable_name(username@) ==> result matches Err(VaultError::ValidationError),
            is_acceptable_name(username@) ==> exists|estimate: Option<StrengthEstimate>| #[trigger]
                user_added(self@, standard_form(username@), password@, estimate, result),
    {
        let username = match validate_and_standardize_name(username) {
            Ok(name) => name,
            Err(_) => {
                return Err(VaultError::ValidationError);
            },
        };
        let estimate = estimate_strength(
            password,
            username.as_str(),
            self.organization_name.as_str(),
        );
        let ghost before = self@;
        let ghost witness = estimate;
        let result = self.add_user_with_estimate(username, password, estimate);
        proof {
            assert(user_added(before, standard_form(username@), password@, witness, result));
        }
        result
    }

    /// Adds a user whose password the strength estimator has judged.
    ///
    /// If the user password is not strong enough, a PasswordNotStrong error
    /// is returned, with an optional text providing useful information to
    /// improve the password. A user that was added before gets the new
    /// password.
    pub fn add_user_with_estimate(
        self,
        username: String,
        password: &str,
        estimate: Option<StrengthEstimate>,
    ) -> (result: Result<Self, VaultError>)
        requires
            self.wf(),
            is_standard_name(username@),
        ensures
            user_added(self@, username@, password@, estimate, result),
    {
        let strength = match estimate {
            Some(strength) => strength,
            None => {
                return Err(VaultError::PasswordNotStrong(None));
            },
        };
        if strength.score < MINIMUM_PASSWORD_SCORE {
            return Err(VaultError::from(&strength));
        }
        let OrganizationBuilder { organization_name, argon_config, mut user_credentials } = self;
        let ghost earlier = credentials_view(user_credentials@);
        let ghost name = username@;
        let mut found: Option<usize> = None;
        let mut i: usize = 0;
        while i < user_credentials.len() && found.is_none()
            invariant
                i <= user_credentials@.len(),
                earlier == credentials_view(user_credentials@),
                found.is_none() ==> forall|k: int| 0 <= k < i ==> (#[trigger] earlier[k]).0 != name,
                found.is_some() ==> found.unwrap() < user_credentials@.len()
                    && earlier[found.unwrap() as int].0 == name,
                name == username@,
            decreases user_credentials@.len() - i + (if found.is_none() { 1int } else { 0int }),
        {
            if same_text(user_credentials[i].0.as_str(), username.as_str()) {
                found = Some(i);
            } else {
                assert(earlier[i as int].0 != name);
                i = i + 1;
            }
        }
        match found {
            Some(position) => {
                proof {
                    let p = credentials_position(earlier, name);
                    assert(earlier[p].0 == name);
                    if p < position {
                        assert(earlier[p].0 != earlier[position as int].0);
                    } else if position < p {
                        assert(earlier[position as int].0 != earlier[p].0);
                    }
                }
                user_credentials.set(position, (username, password.to_owned()));
                proof {
                    let later = credentials_view(user_credentials@);
                    assert(later =~= earlier.update(position as int, (name, password@)));
                    assert forall|a: int, b: int| 0 <= a < b < later.len() implies (
                    #[trigger] later[a]).0 != (#[trigger] later[b]).0 by {
                        assert(later[a].0 == earlier[a].0);
                        assert(later[b].0 == earlier[b].0);
                    }
                    assert forall|a: int| 0 <= a < later.len() implies is_standard_name(
                        (#[trigger] later[a]).0,
                    ) by {
                        assert(later[a].0 == earlier[a].0);
                    }
                }
            },
            None => {
                user_credentials.push((username, password.to_owned()));
                proof {
                    let later = credentials_view(user_credentials@);
                    assert(later =~= earlier.push((name, password@)));
                    let last = later.len() - 1;
                    assert forall|a: int, b: int| 0 <= a < b < later.len() implies (
                    #[trigger] later[a]).0 != (#[trigger] later[b]).0 by {
                        assert(later[a] == earlier[a]);
                        if b < last {
                            assert(later[b] == earlier[b]);
                        }
                    }
                    assert forall|a: int| 0 <= a < later.len() implies is_standard_name(
                        (#[trigger] later[a]).0,
                    ) by {
                        if a < last {
                            assert(later[a] == earlier[a]);
                        }
                    }
                }
            },
        }
        Ok(OrganizationBuilder { organization_name, argon_config, user_credentials })
    }

    /// Creates the organization key pair, protects the private key with the
    /// user passwords and sends an organization creation request to the
    /// server.
    ///
    /// Fails with `NotEnoughUsers`, and sends nothing, when fewer than two
    /// users were added. Otherwise the key pair is made and protected, and
    /// `send_organization` does the rest: `CryptographyError`, and nothing
    /// sent, when the key pair could not be protected, which is so wherever
    /// the hash parameters are out of the hash function's ranges; else a
    /// request that holds the organization's name and hash parameters, and a
    /// public key and shares that protect the secret key as `protects` says,
    /// with the server's answer.
    pub fn create_organization<A: ServerConnection>(self, server: &mut A) -> (result: Result<
        (),
        VaultError,
    >)
        requires
            self.wf(),
            old(server).wf(),
        ensures
            final(server).wf(),
            self@.user_credentials.len() < MINIMUM_USERS ==> result.is_err()
                && result.unwrap_err() == VaultError::NotEnoughUsers && *final(server) == *old(
                server,
            ),
            self@.user_credentials.len() >= MINIMUM_USERS ==> (*final(server) == *old(server)
                && result.is_err() && result.unwrap_err() == VaultError::CryptographyError)
                || exists|user_shares: Seq<UserRecordView>, public_key: Seq<u8>| #[trigger]
                (*old(server)).answers_create_organization(
                    *final(server),
                    self@.organization_name,
                    user_shares,
                    public_key,
                    self@.argon_config,
                    result,
                ) && protects(
                    user_shares,
                    public_key,
                    self@.user_credentials,
                    self@.argon_config,
                ),
            self@.user_credentials.len() >= MINIMUM_USERS && hash_refuses(
                SALT_LENGTH_BYTES as nat,
                self@.argon_config.opslimit,
                self@.argon_config.memlimit,
                PASSWORD_KEY_LENGTH_BYTES,
            ) ==> *final(server) == *old(server) && result.is_err() && result.unwrap_err()
                == VaultError::CryptographyError,
    {
        if self.user_credentials.len() < MINIMUM_USERS {
            return Err(VaultError::NotEnoughUsers);
        }
        let protected = create_protected_key_pair(&self.user_credentials, &self.argon_config);
        let result = self.send_organization(server, &protected);
        proof {
            if protected.is_ok() {
                assert((*old(server)).answers_create_organization(
                    *server,
                    self@.organization_name,
                    user_records(protected.unwrap().0@),
                    protected.unwrap().1@,
                    self@.argon_config,
                    result,
                ));
            }
        }
        result
    }

    /// Sends the request to create the organization with a protected key
    /// pair, if there is one. Where the key pair could not be protected, the
    /// failure is `CryptographyError` and nothing is sent. Else the request
    /// holds the organization's name, the users' shares, the public key and
    /// the hash parameters, and the answer is the server's.
    pub fn send_organization<A: ServerConnection>(
        &self,
        server: &mut A,
        protected: &Result<(Vec<(String, UserShare)>, PublicKey), VaultError>,
    ) -> (result: Result<(), VaultError>)
        requires
            self.wf(),
            old(server).wf(),
        ensures
            final(server).wf(),
            protected.is_err() ==> *final(server) == *old(server) && result.is_err()
                && result.unwrap_err() == VaultError::CryptographyError,
            protected.is_ok() ==> (*old(server)).answers_create_organization(
                *final(server),
                self@.organization_name,
                user_records(protected.unwrap().0@),
                protected.unwrap().1@,
                self@.argon_config,
                result,
            ),
    {
        match protected {
            Ok((encrypted_user_shares, public_key)) => server.create_organization(
                self.organization_name.as_str(),
                encrypted_user_shares,
                public_key,
                &self.argon_config,
            ),
            Err(_) => Err(VaultError::CryptographyError),
        }
    }
}

/// The operation count that the calibration tries at a step: the whole part
/// of 1.5 to the power of the step, that is 1, 1, 2, 3, 5, 7, 11, and so on.
pub open spec fn iteration_cost(step: nat) -> int {
    pow(3, step) / pow(2, step)
}

/// The operation count of a step.
pub fn iteration_cost_of(step: u32) -> (cost: u64)
    requires
        step < CALIBRATION_STEPS,
    ensures
        cost == iteration_cost(step as nat),
{
    // Invariant: 3^k == whole * halves + rest, where halves == 2^k.
    let mut whole: u128 = 1;
    let mut rest: u128 = 0;
    let mut halves: u128 = 1;
    let mut k: u32 = 0;
    proof {
        lemma_pow0(3);
        lemma_pow0(2);
        lemma_power_of_two_bound(0);
    }
    while k < step
        invariant
            k <= step < CALIBRATION_STEPS,
            pow(3, k as nat) == whole * halves + rest,
            rest < halves,
            halves == pow(2, k as nat),
            halves <= 0x10_0000_0000_0000_0000_0000_0000,
            pow(3, k as nat) <= halves * halves,
        decreases step - k,
    {
        proof {
            lemma_power_of_two_bound(k as nat);
            lemma_power_of_two_bound((k + 1) as nat);
            assert(whole <= halves) by (nonlinear_arith)
                requires
                    whole * halves + rest <= halves * halves,
                    halves > 0,
            ;
            lemma_power_step(3, k as nat);
            lemma_power_step(2, k as nat);
        }
        let ghost old_whole = whole;
        let ghost old_rest = rest;
        let ghost old_halves = halves;
        let triple: u128 = 3 * whole;
        let carried: u128 = triple / 2;
        let odd: u128 = triple % 2;
        let spill: u128 = if odd == 1 {
            halves + 3 * rest
        } else {
            3 * rest
        };
        let doubled: u128 = 2 * halves;
        whole = carried + spill / doubled;
        rest = spill % doubled;
        halves = doubled;
        proof {
            if odd == 1 {
                assert(odd * old_halves == old_halves);
            } else {
                assert(odd == 0);
                assert(odd * old_halves == 0);
            }
            assert(3 * (old_whole * old_halves + old_rest) == whole * halves + rest) by (nonlinear_arith)
                requires
                    3 * old_whole == 2 * carried + odd,
                    spill == odd * old_halves + 3 * old_rest,
                    halves == 2 * old_halves,
                    halves > 0,
                    whole == carried + spill / halves,
                    rest == spill % halves,
            ;
            assert(3 * (old_halves * old_halves) <= halves * halves) by (nonlinear_arith)
                requires
                    halves == 2 * old_halves,
            ;
        }
        k = k + 1;
    }
    proof {
        lemma_fundamental_div_mod_converse(
            pow(3, step as nat),
            pow(2, step as nat),
            whole as int,
            rest as int,
        );
        lemma_iteration_cost_fits(step as nat, whole as int);
    }
    whole as u64
}

proof fn lemma_small_powers()
    ensures
        pow(3, 0) == 1,
        pow(3, 1) == 3,
        pow(3, 2) == 9,
        pow(3, 3) == 27,
        pow(3, 4) == 81,
        pow(3, 5) == 243,
        pow(2, 8) == 256,
{
    reveal_with_fuel(pow, 10);
}

proof fn lemma_five_steps_stay_below_eight_doublings(chunks: nat)
    ensures
        0 < pow(3, 5 * chunks) <= pow(2, 8 * chunks),
    decreases chunks,
{
    if chunks == 0 {
        lemma_pow0(3);
        lemma_pow0(2);
    } else {
        let fewer = (chunks - 1) as nat;
        lemma_five_steps_stay_below_eight_doublings(fewer);
        vstd::arithmetic::power::lemma_pow_adds(3, 5 * fewer, 5);
        vstd::arithmetic::power::lemma_pow_adds(2, 8 * fewer, 8);
        lemma_small_powers();
        assert(5 * fewer + 5 == 5 * chunks);
        assert(8 * fewer + 8 == 8 * chunks);
        assert(0 < pow(3, 5 * fewer) * 243 <= pow(2, 8 * fewer) * 256) by (nonlinear_arith)
            requires
                0 < pow(3, 5 * fewer) <= pow(2, 8 * fewer),
        ;
    }
}

proof fn lemma_iteration_cost_fits(step: nat, whole: int)
    requires
        step < CALIBRATION_STEPS,
        0 <= whole,
        whole * pow(2, step) <= pow(3, step),
    ensures
        whole <= 0xffff_ffff_ffff_ffff,
{
    let chunks = step / 5;
    let left = step % 5;
    assert(step == 5 * chunks + left && chunks <= 19 && left <= 4);
    lemma_five_steps_stay_below_eight_doublings(chunks);
    lemma_small_powers();
    vstd::arithmetic::power::lemma_pow_adds(3, 5 * chunks, left);
    vstd::arithmetic::power::lemma_pow_adds(2, 5 * chunks, 3 * chunks);
    assert(5 * chunks + 3 * chunks == 8 * chunks);
    lemma_pow_increases(2, 5 * chunks, step);
    lemma_pow_increases(2, 3 * chunks, 57);
    vstd::arithmetic::power::lemma_pow_positive(2, step);
    vstd::arithmetic::power::lemma_pow_positive(2, 5 * chunks);
    vstd::arithmetic::power::lemma_pow_positive(2, 3 * chunks);
    lemma_pow2(57);
    lemma2_to64_rest();
    let three_left = pow(3, left);
    assert(0 < three_left <= 81);
    let small = pow(2, 5 * chunks);
    let gain = pow(2, 3 * chunks);
    let all = pow(2, step);
    assert(pow(3, step) <= small * gain * 81) by (nonlinear_arith)
        requires
            pow(3, step) == pow(3, 5 * chunks) * three_left,
            0 < pow(3, 5 * chunks) <= small * gain,
            0 < three_left <= 81,
    ;
    assert(whole <= gain * 81) by (nonlinear_arith)
        requires
            whole * all <= small * gain * 81,
            0 < small <= all,
            0 < gain,
            0 <= whole,
    ;
    assert(gain <= 0x200000000000000);
}

proof fn lemma_power_step(base: int, exponent: nat)
    ensures
        pow(base, exponent + 1) == base * pow(base, exponent),
{
    vstd::arithmetic::power::lemma_pow_adds(base, 1, exponent);
    vstd::arithmetic::power::lemma_pow1(base);
}

proof fn lemma_power_of_two_bound(exponent: nat)
    requires
        exponent <= CALIBRATION_STEPS,
    ensures
        0 < pow(2, exponent) <= 0x10_0000_0000_0000_0000_0000_0000,
{
    lemma_pow2(exponent);
    lemma_pow2(100);
    lemma_pow2(64);
    lemma_pow2(36);
    lemma2_to64();
    lemma2_to64_rest();
    lemma_pow2_adds(64, 36);
    vstd::arithmetic::power::lemma_pow_positive(2, exponent);
    lemma_pow_increases(2, exponent, 100);
    assert(pow2(100) == 0x10_0000_0000_0000_0000_0000_0000) by {
        assert(pow2(64) == 0x10000000000000000);
        assert(pow2(36) == 0x1000000000);
        assert(0x10000000000000000 * 0x1000000000 == 0x10_0000_0000_0000_0000_0000_0000) by (nonlinear_arith);
    }
}

/// Whether a hash that took that many nanoseconds is slow enough: whether
/// the whole seconds in them reach the target.
pub fn is_slow_enough(hashing_nanoseconds: u128) -> (yes: bool)
    ensures
        yes == (hashing_nanoseconds / NANOSECONDS_PER_SECOND >= HASHING_TIME_TARGET_SECONDS),
{
    hashing_nanoseconds / NANOSECONDS_PER_SECOND >= HASHING_TIME_TARGET_SECONDS as u128
}

/// What one step of the calibration leads to.
#[derive(PartialEq, Eq, Debug)]
pub enum Calibration {
    /// The hash was slow enough: these are the parameters.
    Chosen(ArgonConfig),
    /// The hash was too fast: the step to try next.
    Next(u32),
    /// The hash function refused, or the last step was too fast.
    Failed,
}

/// What follows from one timed hash at a step: failure if the hash function
/// refused; the parameters of the step if the hash took 10 seconds or more;
/// else the next step, and failure after the last one.
pub open spec fn calibration_after(
    argon_memlimit_kb: usize,
    step: u32,
    hashed: bool,
    hashing_nanoseconds: u128,
) -> Calibration {
    if !hashed {
        Calibration::Failed
    } else if hashing_nanoseconds / NANOSECONDS_PER_SECOND >= HASHING_TIME_TARGET_SECONDS {
        Calibration::Chosen(
            ArgonConfig {
                memlimit: argon_memlimit_kb,
                opslimit: iteration_cost(step as nat) as u64,
            },
        )
    } else if step + 1 < CALIBRATION_STEPS {
        Calibration::Next((step + 1) as u32)
    } else {
        Calibration::Failed
    }
}

/// Decides one step of the calibration from what the hash function and the
/// clock said: whether the hash of the step was granted, and how long it
/// took.
pub fn calibration_step(
    argon_memlimit_kb: usize,
    step: u32,
    hashed: bool,
    hashing_nanoseconds: u128,
) -> (next: Calibration)
    requires
        step < CALIBRATION_STEPS,
    ensures
        next == calibration_after(argon_memlimit_kb, step, hashed, hashing_nanoseconds),
{
    if !hashed {
        Calibration::Failed
    } else if is_slow_enough(hashing_nanoseconds) {
        Calibration::Chosen(
            ArgonConfig::interactive().with_memlimit(argon_memlimit_kb).with_opslimit(
                iteration_cost_of(step),
            ),
        )
    } else if step + 1 < CALIBRATION_STEPS {
        Calibration::Next(step + 1)
    } else {
        Calibration::Failed
    }
}

/// Automatically chooses an Argon2 computation cost such that computing a
/// hash takes at least 10 seconds.
///
/// The operation counts 1, 1, 2, 3, 5, 7, 11 and so on are tried in turn, up
/// to 100 of them: one hash of a fixed password is made and timed with the
/// count and the memory limit that was asked for, and `calibration_step`
/// decides from the hash and the time whether the count is chosen, the next
/// one is tried, or the calibration fails. Which count is chosen depends on
/// the machine and the moment, so of the outcome only this is stated: chosen
/// parameters hold the memory limit and a count of the progression, and a
/// failure is `CryptographyError`.
pub fn empirically_choose_argon_config(argon_memlimit_kb: usize) -> (result: Result<
    ArgonConfig,
    VaultError,
>)
    ensures
        result.is_ok() ==> result.unwrap().memlimit == argon_memlimit_kb && exists|step: nat|
            step < CALIBRATION_STEPS && result.unwrap().opslimit == #[trigger] iteration_cost(
                step,
            ),
        result.is_err() ==> result.unwrap_err() == VaultError::CryptographyError,
{
    let password = "testPassword1234".as_bytes_vec();
    let mut step: u32 = 0;
    while step < CALIBRATION_STEPS
        invariant
            step <= CALIBRATION_STEPS,
        decreases CALIBRATION_STEPS - step,
    {
        let cost = iteration_cost_of(step);
        let start_time = clock_reading();
        let hashed = hash_password_once(password.as_slice(), cost, argon_memlimit_kb);
        let hashing_duration = nanoseconds_since(&start_time);
        match calibration_step(argon_memlimit_kb, step, hashed, hashing_duration) {
            Calibration::Chosen(argon_config) => {
                assert(argon_config.opslimit == iteration_cost(step as nat));
                return Ok(argon_config);
            },
            Calibration::Next(next) => {
                step = next;
            },
            Calibration::Failed => {
                return Err(VaultError::CryptographyError);
            },
        }
    }
    Err(VaultError::CryptographyError)
}

} // verus!
