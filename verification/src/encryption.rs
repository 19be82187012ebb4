//! Password hashing and verification.
use vstd::prelude::*;

verus! {

/// The number of rounds to use for the bcrypt hash.
pub const SALT_ROUNDS: u32 = 10;

/// What bcrypt's verification concludes for a password against a hash
/// string: `Some(true)` when they match, `Some(false)` when they do not,
/// and `None` when the hash string is not a bcrypt hash. The outcome is a
/// function of the two strings alone.
pub uninterp spec fn bcrypt_check_of(password: Seq<char>, hashed: Seq<char>) -> Option<bool>;

/// Hashes a password with a salt drawn fresh on every call.
///
/// Relies on bcrypt::hash: whatever salt was drawn, bcrypt::verify accepts
/// the password against the produced hash.
#[verifier::external_body]
pub fn hash_password(password: &str) -> (r: Option<String>)
    ensures
        r matches Some(h) ==> bcrypt_check_of(password@, h@) == Some(true),
{
    bcrypt::hash(password, SALT_ROUNDS).ok()
}

/// Verifies a password against a hashed password.
///
/// Relies on bcrypt::verify: the outcome depends on the password and the
/// hash string alone; a string that is not a bcrypt hash is rejected.
#[verifier::external_body]
pub fn verify_password(password: &str, hashed_password: &str) -> (r: Option<bool>)
    ensures
        r == bcrypt_check_of(password@, hashed_password@),
{
    bcrypt::verify(password, hashed_password).ok()
}

} // verus!
