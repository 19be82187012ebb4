//! Users and their roles.
use crate::oid::id_wf;
use vstd::prelude::*;

verus! {

/// Role of a user.
///
/// - `Root`: root user of the entire application
/// - `User`: all other users
#[derive(Clone, Copy, Debug, PartialEq, Eq, Structural)]
pub enum UserRole {
    Root,
    User,
}

pub open spec fn role_name(r: UserRole) -> Seq<char> {
    match r {
        UserRole::Root => "Root"@,
        UserRole::User => "User"@,
    }
}

impl UserRole {
    /// The role's name as text.
    pub fn as_str(&self) -> (r: &'static str)
        ensures
            r@ == role_name(*self),
    {
        match self {
            UserRole::Root => "Root",
            UserRole::User => "User",
        }
    }
}

/// A stored user. The id is the store's twelve-byte document id; it is
/// absent on a user that has not been saved yet. Timestamps are
/// milliseconds since the epoch.
#[derive(Clone, Debug)]
pub struct User {
    pub id: Option<Vec<u8>>,
    pub name: String,
    pub password: String,
    pub role: UserRole,
    pub created_at: i64,
    pub updated_at: i64,
}

impl User {
    /// A well-formed user carries a well-formed id, if any.
    pub open spec fn wf(&self) -> bool {
        match self.id {
            Some(b) => id_wf(b@),
            None => true,
        }
    }
}

} // verus!
