//! One-way credential hashing: a salted, cost-tuned work function
//! through the `bcrypt` crate. A hash produced from a password
//! verifies against it; verification is a fixed function of the
//! password and the hash, and a malformed hash verifies as false
//! rather than raising.

use vstd::prelude::*;

use crate::errors::AppError;

verus! {

/// Whether the bcrypt work function accepts `password` against the
/// stored `hash` text; deterministic in the pair, since the salt and
/// cost are read back out of the hash itself.
pub uninterp spec fn bcrypt_matches(password: Seq<char>, hash: Seq<char>) -> bool;

/// Relies on bcrypt::hash with DEFAULT_COST: it salts randomly and
/// returns a hash that bcrypt::verify accepts against this password.
#[verifier::external_body]
fn bcrypt_hash(password: &str) -> (r: Option<String>)
    ensures
        r matches Some(h) ==> bcrypt_matches(password@, h@),
{
    match bcrypt::hash(password, bcrypt::DEFAULT_COST) {
        Ok(h) => Some(h),
        Err(_) => None,
    }
}

/// Relies on bcrypt::verify: it recomputes the hash with the salt and
/// cost carried in `hash` and compares; an error (malformed hash)
/// counts as a mismatch.
#[verifier::external_body]
fn bcrypt_verify(password: &str, hash: &str) -> (r: bool)
    ensures
        r == bcrypt_matches(password@, hash@),
{
    match bcrypt::verify(password, hash) {
        Ok(b) => b,
        Err(_) => false,
    }
}

/// Hash a plaintext for storage; a failure of the work function is
/// surfaced as the internal error category.
pub fn hash_password(password: &str) -> (r: Result<String, AppError>)
    ensures
        r matches Ok(h) ==> bcrypt_matches(password@, h@),
        r matches Err(e) ==> e == AppError::InternalServerError,
{
    match bcrypt_hash(password) {
        Some(h) => Ok(h),
        None => Err(AppError::InternalServerError),
    }
}

/// Whether a plaintext matches a stored hash; false on any malformed
/// hash.
pub fn verify_password(password: &str, hash: &str) -> (r: bool)
    ensures
        r == bcrypt_matches(password@, hash@),
{
    bcrypt_verify(password, hash)
}

} // verus!
