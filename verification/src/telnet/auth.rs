//! Password hashing for telnet logins (Argon2id, PHC string format).

use vstd::prelude::*;
use vstd::string::*;
use argon2::{PasswordHasher, PasswordVerifier};

verus! {

/// An error of the password hashing crate.
#[verifier::external_type_specification]
#[verifier::external_body]
pub struct ExPasswordHashError(argon2::password_hash::Error);

/// Why a password could not be hashed.
#[derive(Debug, Clone, Copy, PartialEq, Eq, Structural)]
pub enum AuthError {
    /// Argon2 refused the password.
    HashFailed,
}

/// The longest password, in bytes, that Argon2 hashes.
pub const MAX_PASSWORD_BYTES: u64 = 0xffff_ffff;

/// Whether Argon2 accepts `plain` against the PHC string `phc`: the string
/// parses, and hashing `plain` with the parameters and the salt in it gives
/// the digest in it.
pub uninterp spec fn password_accepted(plain: Seq<char>, phc: Seq<char>) -> bool;

/// Trusted: `SaltString::generate` with the system's random numbers, then
/// `Argon2::hash_password` and `PasswordHash::to_string`. The salt differs
/// from call to call, so which string comes back is left open; whatever it
/// is, it is an Argon2id PHC string against which the same password is
/// accepted. Argon2 refuses exactly the passwords above its length limit.
#[verifier::external_body]
fn argon2_hash(plain: &str) -> (r: Result<String, argon2::password_hash::Error>)
    ensures
        r is Ok <==> plain.spec_bytes().len() <= MAX_PASSWORD_BYTES,
        r matches Ok(phc) ==> password_accepted(plain@, phc@) && phc@.len() > 10 && phc@.take(10)
            == "$argon2id$"@,
{
    let salt = argon2::password_hash::SaltString::generate(
        &mut argon2::password_hash::rand_core::OsRng,
    );
    let hash = argon2::Argon2::default().hash_password(plain.as_bytes(), &salt)?;
    Ok(hash.to_string())
}

/// Trusted: `PasswordHash::new`, then `Argon2::verify_password` on what it
/// parsed. An error means that the string is malformed or that the password
/// is not the one that was hashed.
#[verifier::external_body]
fn argon2_verify(plain: &str, phc: &str) -> (r: Result<(), argon2::password_hash::Error>)
    ensures
        r is Ok <==> password_accepted(plain@, phc@),
{
    let parsed = argon2::PasswordHash::new(phc)?;
    argon2::Argon2::default().verify_password(plain.as_bytes(), &parsed)
}

/// Hash `plain` with a fresh random salt into a PHC string.
///
/// What the string is beyond its prefix is left open: it depends on the salt.
pub fn hash_password(plain: &str) -> (r: Result<String, AuthError>)
    ensures
        plain.spec_bytes().len() <= MAX_PASSWORD_BYTES ==> r is Ok,
        plain.spec_bytes().len() > MAX_PASSWORD_BYTES ==> r == Err::<String, AuthError>(
            AuthError::HashFailed,
        ),
        r matches Ok(phc) ==> password_accepted(plain@, phc@) && phc@.take(10) == "$argon2id$"@,
{
    match argon2_hash(plain) {
        Ok(phc) => Ok(phc),
        Err(_) => Err(AuthError::HashFailed),
    }
}

/// Whether `plain` is the password that `phc` was made from. A malformed
/// `phc` is never accepted.
pub fn verify_password(plain: &str, phc: &str) -> (r: bool)
    ensures
        r == password_accepted(plain@, phc@),
{
    match argon2_verify(plain, phc) {
        Ok(_) => true,
        Err(_) => false,
    }
}

} // verus!
