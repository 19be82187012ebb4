//! Request payloads and the decisions the comment endpoints make.
use crate::clock::{MAX_TIMESTAMP_MILLIS, MIN_TIMESTAMP_MILLIS};
use crate::comment::Comment;
use crate::oid::{id_of_hex, id_from_hex, id_wf};
use crate::user::{User, UserRole};
use vstd::prelude::*;

verus! {

/// Query of the comment listing endpoint.
pub struct ListCommentsQuery {
    pub slug: String,
}

/// Query of the recent-comments endpoint.
pub struct RecentCommentsQuery {
    pub limit: i64,
}

/// How many recent comments are returned when the query names no limit.
pub fn default_limit() -> (r: i64)
    ensures
        r == 6,
{
    6
}

/// The payload of a comment creation request.
pub struct AddCommentPayload {
    pub post_slug: String,
    pub name: String,
    pub email: Option<String>,
    pub url: Option<String>,
    pub body: String,
    pub parent_comment_id: Option<String>,
}

/// Whether validator's HTML5-style email check accepts the string: a
/// function of the string alone.
pub uninterp spec fn email_valid_of(s: Seq<char>) -> bool;

/// Whether validator's URL check accepts the string: a function of the
/// string alone.
pub uninterp spec fn url_valid_of(s: Seq<char>) -> bool;

/// Relies on validator's ValidateEmail for string slices: the HTML5
/// specification's email shape, decided by the characters alone.
#[verifier::external_body]
fn is_valid_email(s: &str) -> (r: bool)
    ensures
        r == email_valid_of(s@),
{
    validator::ValidateEmail::validate_email(&s)
}

/// Relies on validator's ValidateUrl for string slices: whether the
/// string parses as a URL, decided by the characters alone.
#[verifier::external_body]
fn is_valid_url(s: &str) -> (r: bool)
    ensures
        r == url_valid_of(s@),
{
    validator::ValidateUrl::validate_url(s)
}

/// The field messages validation reports for a payload, in field order;
/// empty exactly when the payload is acceptable.
pub open spec fn validation_msgs(p: AddCommentPayload) -> Seq<Seq<char>> {
    (if p.post_slug@.len() == 0 {
        seq!["Post slug cannot be empty"@]
    } else {
        Seq::empty()
    }) + (if p.name@.len() == 0 {
        seq!["Name cannot be empty"@]
    } else {
        Seq::empty()
    }) + (if p.email matches Some(e) && !email_valid_of(e@) {
        seq!["Invalid email format"@]
    } else {
        Seq::empty()
    }) + (if p.url matches Some(u) && !url_valid_of(u@) {
        seq!["Invalid URL format"@]
    } else {
        Seq::empty()
    }) + (if p.body@.len() == 0 {
        seq!["Comment body cannot be empty"@]
    } else {
        Seq::empty()
    })
}

impl AddCommentPayload {
    /// Validates the payload: the slug, name and body must be nonempty,
    /// and the email and URL, where given, must have their shapes.
    /// Returns every failing field's message, in field order.
    pub fn validate(&self) -> (r: Vec<String>)
        ensures
            r@.map_values(|s: String| s@) == validation_msgs(*self),
    {
        let mut r: Vec<String> = Vec::new();
        if self.post_slug.as_str().is_empty() {
            r.push(String::from_str("Post slug cannot be empty"));
        }
        if self.name.as_str().is_empty() {
            r.push(String::from_str("Name cannot be empty"));
        }
        match &self.email {
            Some(e) => {
                if !is_valid_email(e.as_str()) {
                    r.push(String::from_str("Invalid email format"));
                }
            },
            None => {},
        }
        match &self.url {
            Some(u) => {
                if !is_valid_url(u.as_str()) {
                    r.push(String::from_str("Invalid URL format"));
                }
            },
            None => {},
        }
        if self.body.as_str().is_empty() {
            r.push(String::from_str("Comment body cannot be empty"));
        }
        proof {
            assert(r@.map_values(|s: String| s@) =~= validation_msgs(*self));
        }
        r
    }

    /// Builds the comment a creation request stores. The parent id is
    /// read out of its hexadecimal text; text that is no id means no
    /// parent, as the store would silently drop such a reference.
    pub fn to_comment(&self, by_post_author: bool, now_ms: i64) -> (c: Comment)
        requires
            MIN_TIMESTAMP_MILLIS <= now_ms <= MAX_TIMESTAMP_MILLIS,
        ensures
            c.wf(),
            c.id is None,
            c.replies is None,
            c.name@ == self.name@,
            c.post_slug@ == self.post_slug@,
            c.body@ == self.body@,
            c.email@ == match self.email {
                Some(e) => e@,
                None => Seq::<char>::empty(),
            },
            c.url@ == match self.url {
                Some(u) => u@,
                None => Seq::<char>::empty(),
            },
            c.by_post_author == by_post_author,
            c.created_at == now_ms,
            c.updated_at == now_ms,
            match self.parent_comment_id {
                Some(s) => match id_of_hex(s@) {
                    Some(b) => c.parent_comment_id matches Some(pb) && pb@ == b,
                    None => c.parent_comment_id is None,
                },
                None => c.parent_comment_id is None,
            },
    {
        let parent = match &self.parent_comment_id {
            Some(s) => id_from_hex(s.as_str()),
            None => None,
        };
        let email = match &self.email {
            Some(e) => e.clone(),
            None => String::new(),
        };
        let url = match &self.url {
            Some(u) => u.clone(),
            None => String::new(),
        };
        Comment {
            id: None,
            name: self.name.clone(),
            post_slug: self.post_slug.clone(),
            by_post_author,
            email,
            url,
            body: self.body.clone(),
            parent_comment_id: parent,
            created_at: now_ms,
            updated_at: now_ms,
            replies: None,
        }
    }
}

/// Whether the request comes from the post author: a signed-in user
/// holding the root role.
pub fn is_root_author(user: Option<&User>) -> (b: bool)
    ensures
        b == (user matches Some(u) && u.role == UserRole::Root),
{
    match user {
        Some(u) => matches!(u.role, UserRole::Root),
        None => false,
    }
}

/// How deleting a comment fails.
#[derive(Clone, Copy, Debug, PartialEq, Eq, Structural)]
pub enum DeleteError {
    /// The id text is not a well-formed document id.
    InvalidId,
    /// The store deleted nothing: no comment carries the id.
    NotFound,
}

/// Reads the id a deletion names; text that is no id cannot name a
/// stored comment.
pub fn delete_target(id_text: &str) -> (r: Result<Vec<u8>, DeleteError>)
    ensures
        match r {
            Ok(b) => id_of_hex(id_text@) == Some(b@) && id_wf(b@),
            Err(e) => id_of_hex(id_text@) is None && e == DeleteError::InvalidId,
        },
{
    match id_from_hex(id_text) {
        Some(b) => Ok(b),
        None => Err(DeleteError::InvalidId),
    }
}

/// Judges what the store reports after a deletion: deleting nothing
/// means the comment was not found.
pub fn delete_outcome(deleted_count: u64) -> (r: Result<(), DeleteError>)
    ensures
        r == if deleted_count == 0 {
            Err::<(), DeleteError>(DeleteError::NotFound)
        } else {
            Ok::<(), DeleteError>(())
        },
{
    if deleted_count == 0 {
        Err(DeleteError::NotFound)
    } else {
        Ok(())
    }
}

/// Whether the caller may delete comments at all: only the root user.
pub fn can_delete(role: &UserRole) -> (b: bool)
    ensures
        b == (*role == UserRole::Root),
{
    matches!(role, UserRole::Root)
}

/// The response of the deletion endpoint. A caller without the root
/// role is turned away before the store is touched; for the root
/// caller, any store failure — a malformed id, a missing comment — is
/// reported as an internal failure, as the service currently does.
pub fn delete_response(role: &UserRole, outcome: &Option<Result<(), DeleteError>>) -> (r: (
    u16,
    String,
))
    requires
        (*role == UserRole::Root) <==> outcome is Some,
    ensures
        *role != UserRole::Root ==> r.0 == 403 && r.1@
            == "You don't have permission to delete this comment"@,
        (*role == UserRole::Root && outcome matches Some(Ok(()))) ==> r.0 == 200 && r.1@
            == "Comment deleted successfully"@,
        (*role == UserRole::Root && (outcome matches Some(o) && o is Err)) ==> r.0 == 500 && r.1@
            == "Failed to delete comment"@,
{
    if !can_delete(role) {
        return (403, String::from_str("You don't have permission to delete this comment"));
    }
    match outcome {
        Some(Ok(())) => (200, String::from_str("Comment deleted successfully")),
        Some(Err(_)) => (500, String::from_str("Failed to delete comment")),
        None => (500, String::from_str("Failed to delete comment")),
    }
}

} // verus!
