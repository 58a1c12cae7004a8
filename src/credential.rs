use vstd::prelude::*;
use crate::error::AppError;

verus! {

/// What `bcrypt::verify` answers for a password and a stored hash: `None` where
/// the hash is malformed, else whether the password matches it.
pub uninterp spec fn bcrypt_verdict(password: Seq<char>, hash: Seq<char>) -> Option<bool>;

/// Relies on `bcrypt::hash` at `bcrypt::DEFAULT_COST`: the salt is random, so
/// only one thing is known of the hash, that `bcrypt::verify` accepts the
/// password it was made from.
#[verifier::external_body]
fn bcrypt_hash(password: &str) -> (r: Option<String>)
    ensures
        r matches Some(h) ==> bcrypt_verdict(password@, h@) == Some(true),
{
    bcrypt::hash(password, bcrypt::DEFAULT_COST).ok()
}

/// Relies on `bcrypt::verify`: a constant-time check of a password against a
/// hash, failing only on a malformed hash.
#[verifier::external_body]
fn bcrypt_verify(password: &str, hash: &str) -> (r: Option<bool>)
    ensures
        r == bcrypt_verdict(password@, hash@),
{
    bcrypt::verify(password, hash).ok()
}

/// A salted one-way hash of `password`, which [`verify_password_hash`] accepts.
pub fn hash_password(password: &str) -> (r: Result<String, AppError>)
    ensures
        r matches Ok(h) ==> bcrypt_verdict(password@, h@) == Some(true),
        r matches Err(e) ==> e == AppError::Crypto,
{
    match bcrypt_hash(password) {
        Some(h) => Ok(h),
        None => Err(AppError::Crypto),
    }
}

/// Whether `password` matches `hash`; `Crypto` only where the hash is malformed.
pub fn verify_password_hash(password: &str, hash: &str) -> (r: Result<bool, AppError>)
    ensures
        r == match bcrypt_verdict(password@, hash@) {
            Some(b) => Ok::<bool, AppError>(b),
            None => Err(AppError::Crypto),
        },
{
    match bcrypt_verify(password, hash) {
        Some(b) => Ok(b),
        None => Err(AppError::Crypto),
    }
}

} // verus!
