//! The signup decision: building the stored user and the response fields.
use crate::clock::{rfc3339_of, rfc3339_utc_of_millis, MAX_TIMESTAMP_MILLIS, MIN_TIMESTAMP_MILLIS};
use crate::user::{role_name, User, UserRole};
use vstd::prelude::*;

verus! {

/// The payload of a signup request.
pub struct SignUpPayload {
    pub name: String,
    pub password: String,
}

/// Builds the user a signup stores: no id yet, the ordinary role, and
/// both timestamps set to the moment of creation.
pub fn signup_user(name: String, password_hash: String, now_ms: i64) -> (u: User)
    ensures
        u.id is None,
        u.name == name,
        u.password == password_hash,
        u.role == UserRole::User,
        u.created_at == now_ms,
        u.updated_at == now_ms,
{
    User {
        id: None,
        name,
        password: password_hash,
        role: UserRole::User,
        created_at: now_ms,
        updated_at: now_ms,
    }
}

/// The fields a successful signup reports back: the name, the role's
/// name, and both timestamps in RFC 3339 text. The password never
/// leaves.
pub fn signup_response_parts(user: &User) -> (r: (String, &'static str, String, String))
    requires
        MIN_TIMESTAMP_MILLIS <= user.created_at <= MAX_TIMESTAMP_MILLIS,
        MIN_TIMESTAMP_MILLIS <= user.updated_at <= MAX_TIMESTAMP_MILLIS,
    ensures
        r.0@ == user.name@,
        r.1@ == role_name(user.role),
        r.2@ == rfc3339_of(user.created_at as int),
        r.3@ == rfc3339_of(user.updated_at as int),
{
    (
        user.name.clone(),
        user.role.as_str(),
        rfc3339_utc_of_millis(user.created_at),
        rfc3339_utc_of_millis(user.updated_at),
    )
}

} // verus!
