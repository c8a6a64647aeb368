//! Checking a password against the hash stored for a user.

use vstd::prelude::*;

verus! {

/// What Argon2 with its default parameters makes of a password and a
/// stored PHC hash string: whether the password matches, or nothing where
/// the hash cannot be read or used.
pub uninterp spec fn argon2_verdict(password: Seq<u8>, hash: Seq<char>) -> Option<bool>;

/// Parses `hash` with `PasswordHash::new` and checks `password` against it
/// with `Argon2::default().verify_password`. Claimed: a password that does
/// not match comes back as `Ok(false)`, a match as `Ok(true)`, and any other
/// failure as the error; which of these it is depends on the two arguments
/// alone. The error is handed back as its text.
#[verifier::external_body]
fn argon2_verify(password: &[u8], hash: &str) -> (r: Result<bool, String>)
    ensures
        r is Ok <==> argon2_verdict(password@, hash@) is Some,
        r matches Ok(b) ==> argon2_verdict(password@, hash@) == Some(b),
{
    let parsed = match argon2::PasswordHash::new(hash) {
        Ok(p) => p,
        Err(e) => return Err(e.to_string()),
    };
    let argon = argon2::Argon2::default();
    match argon2::PasswordVerifier::verify_password(&argon, password, &parsed) {
        Ok(()) => Ok(true),
        Err(argon2::password_hash::Error::Password) => Ok(false),
        Err(e) => Err(e.to_string()),
    }
}

/// Why a stored hash could not be checked.
#[derive(Debug)]
pub struct PasswordCheckError(pub String);

/// Compares a password to the hash stored for a user: `Ok(true)` when it
/// matches, `Ok(false)` when it does not.
pub fn verify_password(password: &[u8], hash: &str) -> (r: Result<bool, PasswordCheckError>)
    ensures
        r is Ok <==> argon2_verdict(password@, hash@) is Some,
        r matches Ok(b) ==> argon2_verdict(password@, hash@) == Some(b),
{
    match argon2_verify(password, hash) {
        Ok(b) => Ok(b),
        Err(e) => Err(PasswordCheckError(e)),
    }
}


/// Hashes a new user's password with `Argon2::default().hash_password` and a
/// salt that `SaltString::generate` draws from the operating system's
/// random source. The salt is random, so the text is not named. Claimed of
/// every outcome: a hash that comes back is one that Argon2 with its
/// default parameters verifies the same password against. Failures of the
/// hasher come back as their text. Left unsaid: the random source panics
/// where the operating system cannot supply randomness, which no
/// `requires` over the password can rule out.
#[verifier::external_body]
fn argon2_hash(password: &[u8]) -> (r: Result<String, String>)
    ensures
        r matches Ok(h) ==> argon2_verdict(password@, h@) == Some(true),
{
    let salt = argon2::password_hash::SaltString::generate(&mut rand::rngs::OsRng);
    match argon2::PasswordHasher::hash_password(&argon2::Argon2::default(), password, &salt) {
        Ok(h) => Ok(h.to_string()),
        Err(e) => Err(e.to_string()),
    }
}

/// The hash to store for a new user: one that the same password verifies,
/// so that the user can log in with it; or why hashing failed.
pub fn hash_new_password(password: &[u8]) -> (r: Result<String, PasswordCheckError>)
    ensures
        r matches Ok(h) ==> argon2_verdict(password@, h@) == Some(true),
{
    match argon2_hash(password) {
        Ok(h) => Ok(h),
        Err(e) => Err(PasswordCheckError(e)),
    }
}

} // verus!
