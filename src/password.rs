use pbkdf2::password_hash::{PasswordHash, PasswordHasher, PasswordVerifier, SaltString};
use pbkdf2::{Params, Pbkdf2};
use rand_core::{OsRng, RngCore};
use vstd::prelude::*;

verus! {

/// PBKDF2 rounds used unless a hasher is configured otherwise.
pub const RECOMMENDED_ROUNDS: u32 = 600000;

/// Longest plaintext password, in characters, that is accepted for hashing.
pub const MAX_PASSWORD_CHARS: usize = 1024;

/// Whether `password` matches the self-describing hash record `record`
/// (algorithm, cost, salt and derived key in PHC string form).
pub uninterp spec fn password_verifies(password: Seq<char>, record: Seq<char>) -> bool;

/// Relies on `RngCore::try_fill_bytes` of `rand_core::OsRng`: 16 bytes from
/// the operating system's entropy source, or `None` when that source fails.
#[verifier::external_body]
fn os_random_16() -> Option<[u8; 16]> {
    let mut bytes = [0u8; 16];
    match OsRng.try_fill_bytes(&mut bytes) {
        Ok(()) => Some(bytes),
        Err(_) => None,
    }
}

/// Relies on `PasswordHasher::hash_password_customized` of `pbkdf2::Pbkdf2`
/// (PBKDF2-HMAC-SHA256, `rounds` iterations, the default key length) with the
/// salt `SaltString::encode_b64(salt)`, and on the PHC string form of its
/// result, which records the algorithm, `i`, `l`, the salt and the key, so
/// that `verify_password` recomputes the same key from it. With the default
/// algorithm, no version and a 16-byte salt the call has no failing path.
#[verifier::external_body]
fn pbkdf2_hash(password: &str, salt: &[u8; 16], rounds: u32) -> (r: Option<String>)
    ensures
        r is Some,
        r matches Some(record) ==> password_verifies(password@, record@),
{
    let params = Params { rounds, ..Params::default() };
    let salt = match SaltString::encode_b64(salt) {
        Ok(salt) => salt,
        Err(_) => return None,
    };
    match Pbkdf2.hash_password_customized(password.as_bytes(), None, None, params, &salt) {
        Ok(hash) => Some(hash.to_string()),
        Err(_) => None,
    }
}

/// Relies on `PasswordHash::new`, which refuses an empty string and one that
/// does not start with `$`, and on `PasswordVerifier::verify_password` of
/// `pbkdf2::Pbkdf2`, which recomputes the key with the record's parameters and
/// compares it in constant time. A record that does not parse is a mismatch.
#[verifier::external_body]
fn pbkdf2_verify(password: &str, record: &str) -> (r: bool)
    ensures
        r == password_verifies(password@, record@),
        record@.len() == 0 || record@[0] != '$' ==> !r,
{
    match PasswordHash::new(record) {
        Ok(hash) => Pbkdf2.verify_password(password.as_bytes(), &hash).is_ok(),
        Err(_) => false,
    }
}

/// Why a password could not be hashed.
#[derive(Clone, Copy, Debug, PartialEq, Eq, Structural)]
pub enum HashError {
    /// The password is empty or longer than `MAX_PASSWORD_CHARS`.
    InvalidInput,
    /// The operating system's entropy source gave no salt.
    SaltUnavailable,
}

/// A password that may be hashed: not empty and not over the length bound.
pub open spec fn acceptable_password(password: Seq<char>) -> bool {
    0 < password.len() <= MAX_PASSWORD_CHARS
}

/// The credential hasher: salted PBKDF2 with a configured number of rounds.
#[derive(Clone, Copy, Debug, PartialEq, Eq, Structural)]
pub struct CredentialHasher {
    pub rounds: u32,
}

impl CredentialHasher {
    /// A hasher with the recommended cost.
    pub fn new() -> (r: CredentialHasher)
        ensures
            r.rounds == RECOMMENDED_ROUNDS,
    {
        CredentialHasher { rounds: RECOMMENDED_ROUNDS }
    }

    /// A hasher with `rounds` PBKDF2 iterations.
    pub fn with_rounds(rounds: u32) -> (r: CredentialHasher)
        ensures
            r.rounds == rounds,
    {
        CredentialHasher { rounds }
    }

    /// Hashes `password` with the 16 random bytes `salt`. An acceptable
    /// password always gives a record, and that record verifies against it.
    pub fn hash_with_salt(&self, password: &str, salt: &[u8; 16]) -> (r: Result<String, HashError>)
        ensures
            !acceptable_password(password@) ==> r == Err::<String, HashError>(
                HashError::InvalidInput,
            ),
            acceptable_password(password@) ==> r is Ok,
            r matches Ok(record) ==> password_verifies(password@, record@),
    {
        let n = password.unicode_len();
        if n == 0 || n > MAX_PASSWORD_CHARS {
            return Err(HashError::InvalidInput);
        }
        match pbkdf2_hash(password, salt, self.rounds) {
            Some(record) => Ok(record),
            None => Err(HashError::SaltUnavailable),
        }
    }

    /// Hashes `password` with a fresh salt from the operating system. Only a
    /// failing entropy source keeps an acceptable password from being hashed.
    pub fn hash(&self, password: &str) -> (r: Result<String, HashError>)
        ensures
            r == Err::<String, HashError>(HashError::InvalidInput) <==> !acceptable_password(
                password@,
            ),
            r is Err ==> r == Err::<String, HashError>(HashError::InvalidInput) || r == Err::<
                String,
                HashError,
            >(HashError::SaltUnavailable),
            r matches Ok(record) ==> password_verifies(password@, record@),
    {
        let n = password.unicode_len();
        if n == 0 || n > MAX_PASSWORD_CHARS {
            return Err(HashError::InvalidInput);
        }
        match os_random_16() {
            Some(salt) => self.hash_with_salt(password, &salt),
            None => Err(HashError::SaltUnavailable),
        }
    }
}

/// Checks `password` against a stored hash record. A record that is not a
/// hash record gives `false`; nothing here panics.
pub fn verify_password(password: &str, record: &str) -> (r: bool)
    ensures
        r == password_verifies(password@, record@),
        record@.len() == 0 || record@[0] != '$' ==> !r,
{
    pbkdf2_verify(password, record)
}

} // verus!
