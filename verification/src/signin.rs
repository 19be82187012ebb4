//! The signin decision: credential checking and token issuance.
use crate::encryption::{bcrypt_check_of, verify_password};
use crate::numfmt::dec_int;
use crate::oid::{hex_of_bytes, id_wf};
use crate::token::{claims_ok, jwt_verify_of, Token, ONE_DAY_IN_SECONDS};
use crate::user::User;
use vstd::prelude::*;

verus! {

/// The payload of a signin request.
pub struct SignInPayload {
    pub name: String,
    pub password: String,
}

/// What checking a signin's credentials concludes.
#[derive(Clone, Copy, Debug, PartialEq, Eq, Structural)]
pub enum SigninCheck {
    /// The account exists and the password matches.
    Accepted,
    /// The account does not exist, or the password does not match; the
    /// two cases are indistinguishable on purpose.
    InvalidCredentials,
    /// The stored hash could not be checked at all.
    HashFailure,
}

pub open spec fn opt_user(u: Option<&User>) -> Option<User> {
    match u {
        Some(x) => Some(*x),
        None => None,
    }
}

/// What `signin_check` concludes for a looked-up account and a password.
pub open spec fn signin_check_post(user: Option<User>, password: Seq<char>, r: SigninCheck) -> bool {
    match user {
        None => r == SigninCheck::InvalidCredentials,
        Some(u) => match bcrypt_check_of(password, u.password@) {
            Some(true) => r == SigninCheck::Accepted,
            Some(false) => r == SigninCheck::InvalidCredentials,
            None => r == SigninCheck::HashFailure,
        },
    }
}

/// Checks a password against the account the name lookup found, if any.
pub fn signin_check(user: Option<&User>, password: &str) -> (r: SigninCheck)
    ensures
        signin_check_post(opt_user(user), password@, r),
{
    match user {
        None => SigninCheck::InvalidCredentials,
        Some(u) => match verify_password(password, u.password.as_str()) {
            Some(true) => SigninCheck::Accepted,
            Some(false) => SigninCheck::InvalidCredentials,
            None => SigninCheck::HashFailure,
        },
    }
}

/// Law: signin rejects a wrong password and an unknown name the same
/// way. Both come back as `InvalidCredentials`, so a caller learns
/// nothing about whether the account exists.
pub proof fn lemma_signin_uniform_rejection(
    u: User,
    pw_wrong: Seq<char>,
    pw_unknown: Seq<char>,
    r_wrong: SigninCheck,
    r_missing: SigninCheck,
)
    requires
        bcrypt_check_of(pw_wrong, u.password@) == Some(false),
        signin_check_post(Some(u), pw_wrong, r_wrong),
        signin_check_post(None, pw_unknown, r_missing),
    ensures
        r_wrong == r_missing,
        r_wrong == SigninCheck::InvalidCredentials,
{
}

pub open spec fn signin_status_of(c: SigninCheck) -> u16 {
    match c {
        SigninCheck::Accepted => 200u16,
        SigninCheck::InvalidCredentials => 401u16,
        SigninCheck::HashFailure => 500u16,
    }
}

pub open spec fn signin_message_of(c: SigninCheck) -> Seq<char> {
    match c {
        SigninCheck::Accepted => "Login successful"@,
        SigninCheck::InvalidCredentials => "Invalid name or password"@,
        SigninCheck::HashFailure => "Internal server error"@,
    }
}

impl SigninCheck {
    /// The HTTP status this conclusion is reported with.
    pub fn status_code(&self) -> (s: u16)
        ensures
            s == signin_status_of(*self),
    {
        match self {
            SigninCheck::Accepted => 200,
            SigninCheck::InvalidCredentials => 401,
            SigninCheck::HashFailure => 500,
        }
    }

    /// The message this conclusion is reported with; the rejection
    /// message is one fixed string for every rejected signin.
    pub fn message(&self) -> (m: String)
        ensures
            m@ == signin_message_of(*self),
    {
        match self {
            SigninCheck::Accepted => String::from_str("Login successful"),
            SigninCheck::InvalidCredentials => String::from_str("Invalid name or password"),
            SigninCheck::HashFailure => String::from_str("Internal server error"),
        }
    }
}

/// The outcome of a whole signin attempt.
pub enum SigninOutcome {
    /// Credentials accepted; carries the signed session token.
    Success(String),
    /// Unknown name or wrong password.
    Rejected,
    /// The hash could not be checked, or the token could not be signed.
    Failure,
}

/// Decides a signin attempt: checks the password against the account the
/// name lookup found and, when it matches, issues a session token as of
/// the current time.
pub fn signin(user: Option<&User>, password: &str, jwt_secret: &str) -> (r: SigninOutcome)
    requires
        user matches Some(u) ==> u.id matches Some(b) && id_wf(b@),
    ensures
        user is None ==> r is Rejected,
        user matches Some(u) ==> match bcrypt_check_of(password@, u.password@) {
            Some(true) => r is Success || r is Failure,
            Some(false) => r is Rejected,
            None => r is Failure,
        },
        r matches SigninOutcome::Success(t) ==> user matches Some(u) && exists|now: int|
            jwt_verify_of(t@, jwt_secret@) == claims_ok(
                hex_of_bytes(u.id->Some_0@),
                u.name@,
                #[trigger] dec_int(now),
                dec_int(now + ONE_DAY_IN_SECONDS),
            ),
{
    match signin_check(user, password) {
        SigninCheck::InvalidCredentials => SigninOutcome::Rejected,
        SigninCheck::HashFailure => SigninOutcome::Failure,
        SigninCheck::Accepted => {
            let u = match user {
                Some(u) => u,
                None => {
                    return SigninOutcome::Failure;
                },
            };
            match Token::from_user(u, jwt_secret) {
                Some(t) => SigninOutcome::Success(t),
                None => SigninOutcome::Failure,
            }
        },
    }
}

} // verus!
