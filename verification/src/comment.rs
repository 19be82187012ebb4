//! Comments, their response form, and the threading of a flat list into
//! root comments with their attached replies.
use crate::clock::{rfc3339_of, rfc3339_utc_of_millis, MAX_TIMESTAMP_MILLIS, MIN_TIMESTAMP_MILLIS};
use crate::oid::{hex_of_bytes, hex_string_of_bytes, id_is_zero, id_wf, id_zero_check};
use vstd::prelude::*;

verus! {

/// The name given to a comment whose author left none.
pub fn default_name() -> (r: String)
    ensures
        r@ == "\u{c775}\u{ba85}"@,
{
    String::from_str("\u{c775}\u{ba85}")
}

/// A stored comment. Ids are the store's twelve-byte document ids;
/// timestamps are milliseconds since the epoch. `replies` is derived,
/// populated only by threading, never stored.
#[derive(Debug)]
pub struct Comment {
    pub id: Option<Vec<u8>>,
    /// Name of the comment author.
    pub name: String,
    /// Slug of the post this comment belongs to.
    pub post_slug: String,
    /// Whether this comment was made by the post author.
    pub by_post_author: bool,
    /// Optional email of the commenter; empty when absent.
    pub email: String,
    /// Optional website URL of the commenter; empty when absent.
    pub url: String,
    /// The comment content.
    pub body: String,
    /// Reference to the parent comment if this is a reply.
    pub parent_comment_id: Option<Vec<u8>>,
    /// Creation timestamp.
    pub created_at: i64,
    /// Last update timestamp.
    pub updated_at: i64,
    /// Replies to this comment.
    pub replies: Option<Vec<Comment>>,
}

/// The response form of a comment: ids and timestamps rendered as text.
#[derive(Debug)]
pub struct CommentResponse {
    pub id: String,
    pub name: String,
    pub post_slug: String,
    pub by_post_author: bool,
    pub email: String,
    pub url: String,
    pub body: String,
    pub parent_comment_id: Option<String>,
    pub created_at: String,
    pub updated_at: Option<String>,
    pub replies: Option<Vec<CommentResponse>>,
}

impl Comment {
    /// A well-formed comment carries well-formed ids and timestamps the
    /// text rendering admits.
    pub open spec fn wf(&self) -> bool {
        &&& match self.id {
            Some(b) => id_wf(b@),
            None => true,
        }
        &&& match self.parent_comment_id {
            Some(b) => id_wf(b@),
            None => true,
        }
        &&& MIN_TIMESTAMP_MILLIS <= self.created_at <= MAX_TIMESTAMP_MILLIS
        &&& MIN_TIMESTAMP_MILLIS <= self.updated_at <= MAX_TIMESTAMP_MILLIS
    }
}

/// A reply is a comment whose parent id is present and not the all-zero
/// sentinel; everything else counts as a root comment.
pub open spec fn is_reply(c: Comment) -> bool {
    match c.parent_comment_id {
        Some(p) => !id_is_zero(p@),
        None => false,
    }
}

/// Whether `r` names `root` as its parent.
pub open spec fn parent_is(r: Comment, root: Comment) -> bool {
    match (r.parent_comment_id, root.id) {
        (Some(p), Some(b)) => p@ == b@,
        _ => false,
    }
}

/// The root comments of `s`, in their order in `s`.
pub open spec fn root_order(s: Seq<Comment>) -> Seq<Comment>
    decreases s.len(),
{
    if s.len() == 0 {
        Seq::empty()
    } else if is_reply(s.last()) {
        root_order(s.drop_last())
    } else {
        root_order(s.drop_last()).push(s.last())
    }
}

/// The replies of `s`, in their order in `s`.
pub open spec fn reply_seq(s: Seq<Comment>) -> Seq<Comment>
    decreases s.len(),
{
    if s.len() == 0 {
        Seq::empty()
    } else if is_reply(s.last()) {
        reply_seq(s.drop_last()).push(s.last())
    } else {
        reply_seq(s.drop_last())
    }
}

/// The members of `pool` that reply to `root`, in their order in `pool`.
pub open spec fn replies_to(pool: Seq<Comment>, root: Comment) -> Seq<Comment>
    decreases pool.len(),
{
    if pool.len() == 0 {
        Seq::empty()
    } else if parent_is(pool.last(), root) {
        replies_to(pool.drop_last(), root).push(pool.last())
    } else {
        replies_to(pool.drop_last(), root)
    }
}

/// The replies attached to `root` when threading `all`: taken from the
/// replies of `all` read backwards, so in ascending time when `all` is
/// in descending time.
pub open spec fn attached_replies(all: Seq<Comment>, root: Comment) -> Seq<Comment> {
    replies_to(reply_seq(all).reverse(), root)
}

/// The response fields carry the comment's data, with ids in hexadecimal
/// and timestamps in RFC 3339 text.
pub open spec fn response_fields_match(c: Comment, r: CommentResponse) -> bool {
    &&& c.id matches Some(b) && r.id@ == hex_of_bytes(b@)
    &&& r.name@ == c.name@
    &&& r.post_slug@ == c.post_slug@
    &&& r.by_post_author == c.by_post_author
    &&& r.email@ == c.email@
    &&& r.url@ == c.url@
    &&& r.body@ == c.body@
    &&& match (c.parent_comment_id, r.parent_comment_id) {
        (Some(p), Some(s)) => s@ == hex_of_bytes(p@),
        (None, None) => true,
        _ => false,
    }
    &&& r.created_at@ == rfc3339_of(c.created_at as int)
    &&& r.updated_at matches Some(u) && u@ == rfc3339_of(c.updated_at as int)
}

/// A plain response: matching fields and no derived replies.
pub open spec fn response_matches(c: Comment, r: CommentResponse) -> bool {
    response_fields_match(c, r) && r.replies is None
}

pub open spec fn responses_match(cs: Seq<Comment>, rs: Seq<CommentResponse>) -> bool {
    rs.len() == cs.len() && forall|i: int|
        0 <= i < cs.len() ==> response_matches(cs[i], #[trigger] rs[i])
}

/// A threaded root response: matching fields, and its replies are the
/// responses of exactly the comments attached to this root.
pub open spec fn threaded_match(all: Seq<Comment>, root: Comment, r: CommentResponse) -> bool {
    &&& response_fields_match(root, r)
    &&& r.replies matches Some(rs) && responses_match(attached_replies(all, root), rs@)
}

proof fn lemma_root_order_push(s: Seq<Comment>, c: Comment)
    ensures
        root_order(s.push(c)) == if is_reply(c) {
            root_order(s)
        } else {
            root_order(s).push(c)
        },
        reply_seq(s.push(c)) == if is_reply(c) {
            reply_seq(s).push(c)
        } else {
            reply_seq(s)
        },
{
    assert(s.push(c).drop_last() =~= s);
    assert(s.push(c).last() == c);
}

proof fn lemma_replies_to_push(pool: Seq<Comment>, root: Comment, c: Comment)
    ensures
        replies_to(pool.push(c), root) == if parent_is(c, root) {
            replies_to(pool, root).push(c)
        } else {
            replies_to(pool, root)
        },
{
    assert(pool.push(c).drop_last() =~= pool);
    assert(pool.push(c).last() == c);
}

fn clone_bytes(b: &Vec<u8>) -> (r: Vec<u8>)
    ensures
        r@ == b@,
{
    let mut r: Vec<u8> = Vec::new();
    let mut i: usize = 0;
    while i < b.len()
        invariant
            0 <= i <= b@.len(),
            r@ == b@.subrange(0, i as int),
        decreases b@.len() - i,
    {
        r.push(b[i]);
        assert(b@.subrange(0, i as int).push(b@[i as int]) =~= b@.subrange(0, i as int + 1));
        i += 1;
    }
    proof {
        assert(b@.subrange(0, b@.len() as int) =~= b@);
    }
    r
}

fn bytes_eq(a: &Vec<u8>, b: &Vec<u8>) -> (r: bool)
    ensures
        r == (a@ == b@),
{
    if a.len() != b.len() {
        proof {
            assert(a@.len() != b@.len());
        }
        return false;
    }
    let mut i: usize = 0;
    while i < a.len()
        invariant
            0 <= i <= a@.len(),
            a@.len() == b@.len(),
            forall|j: int| 0 <= j < i ==> a@[j] == b@[j],
        decreases a@.len() - i,
    {
        if a[i] != b[i] {
            return false;
        }
        i += 1;
    }
    proof {
        assert(a@ =~= b@);
    }
    true
}

impl Comment {
    /// Renders this comment in its response form, without derived
    /// replies.
    pub fn to_response(&self) -> (r: CommentResponse)
        requires
            self.wf(),
            self.id is Some,
        ensures
            response_matches(*self, r),
    {
        let id_text = match &self.id {
            Some(b) => hex_string_of_bytes(b),
            None => String::new(),
        };
        let parent_text = match &self.parent_comment_id {
            Some(b) => Some(hex_string_of_bytes(b)),
            None => None,
        };
        CommentResponse {
            id: id_text,
            name: self.name.clone(),
            post_slug: self.post_slug.clone(),
            by_post_author: self.by_post_author,
            email: self.email.clone(),
            url: self.url.clone(),
            body: self.body.clone(),
            parent_comment_id: parent_text,
            created_at: rfc3339_utc_of_millis(self.created_at),
            updated_at: Some(rfc3339_utc_of_millis(self.updated_at)),
            replies: None,
        }
    }

    /// Renders each comment in its response form, keeping the order.
    pub fn to_responses(comments: &Vec<Comment>) -> (r: Vec<CommentResponse>)
        requires
            forall|i: int|
                0 <= i < comments@.len() ==> (#[trigger] comments@[i]).wf() && comments@[i].id
                    is Some,
        ensures
            responses_match(comments@, r@),
    {
        let mut r: Vec<CommentResponse> = Vec::new();
        let mut i: usize = 0;
        while i < comments.len()
            invariant
                0 <= i <= comments@.len(),
                r@.len() == i,
                forall|j: int|
                    0 <= j < comments@.len() ==> (#[trigger] comments@[j]).wf() && comments@[j].id
                        is Some,
                forall|j: int| 0 <= j < i ==> response_matches(comments@[j], #[trigger] r@[j]),
            decreases comments@.len() - i,
        {
            let resp = comments[i].to_response();
            r.push(resp);
            i += 1;
        }
        r
    }

    /// Threads a flat list of comments for one post: partitions it into
    /// root comments and replies, keeping the order of each, and
    /// attaches to every root the replies that name it as parent, read
    /// backwards so that they come out in ascending time when the input
    /// is in descending time. A reply whose parent is not a root is
    /// dropped from the output.
    pub fn thread(comments: &Vec<Comment>) -> (out: Vec<CommentResponse>)
        requires
            forall|i: int|
                0 <= i < comments@.len() ==> (#[trigger] comments@[i]).wf() && comments@[i].id
                    is Some,
        ensures
            out@.len() == root_order(comments@).len(),
            forall|i: int|
                0 <= i < out@.len() ==> threaded_match(
                    comments@,
                    root_order(comments@)[i],
                    #[trigger] out@[i],
                ),
    {
        let n = comments.len();
        let mut roots_idx: Vec<usize> = Vec::new();
        let mut replies_idx: Vec<usize> = Vec::new();
        let mut i: usize = 0;
        while i < n
            invariant
                0 <= i <= n,
                n == comments@.len(),
                roots_idx@.len() == root_order(comments@.subrange(0, i as int)).len(),
                replies_idx@.len() == reply_seq(comments@.subrange(0, i as int)).len(),
                forall|k: int|
                    0 <= k < roots_idx@.len() ==> (#[trigger] roots_idx@[k]) < i && comments@[
                        roots_idx@[k] as int
                    ] == root_order(comments@.subrange(0, i as int))[k],
                forall|k: int|
                    0 <= k < replies_idx@.len() ==> (#[trigger] replies_idx@[k]) < i && comments@[
                        replies_idx@[k] as int
                    ] == reply_seq(comments@.subrange(0, i as int))[k],
            decreases n - i,
        {
            let ghost pre = comments@.subrange(0, i as int);
            let c = &comments[i];
            let is_reply_now: bool = match &c.parent_comment_id {
                Some(p) => !id_zero_check(p),
                None => false,
            };
            proof {
                assert(comments@.subrange(0, i as int + 1) =~= pre.push(comments@[i as int]));
                lemma_root_order_push(pre, comments@[i as int]);
                assert(is_reply_now == is_reply(comments@[i as int]));
            }
            if is_reply_now {
                replies_idx.push(i);
            } else {
                roots_idx.push(i);
            }
            i += 1;
        }
        proof {
            assert(comments@.subrange(0, n as int) =~= comments@);
        }

        let ghost pool = reply_seq(comments@).reverse();
        let m = replies_idx.len();
        let mut out: Vec<CommentResponse> = Vec::new();
        let mut r_i: usize = 0;
        while r_i < roots_idx.len()
            invariant
                0 <= r_i <= roots_idx@.len(),
                n == comments@.len(),
                m == replies_idx@.len(),
                pool == reply_seq(comments@).reverse(),
                m == reply_seq(comments@).len(),
                roots_idx@.len() == root_order(comments@).len(),
                forall|k: int|
                    0 <= k < roots_idx@.len() ==> (#[trigger] roots_idx@[k]) < n && comments@[
                        roots_idx@[k] as int
                    ] == root_order(comments@)[k],
                forall|k: int|
                    0 <= k < m ==> (#[trigger] replies_idx@[k]) < n && comments@[
                        replies_idx@[k] as int
                    ] == reply_seq(comments@)[k],
                forall|j: int|
                    0 <= j < comments@.len() ==> (#[trigger] comments@[j]).wf() && comments@[j].id
                        is Some,
                out@.len() == r_i,
                forall|k: int|
                    0 <= k < r_i ==> threaded_match(
                        comments@,
                        root_order(comments@)[k],
                        #[trigger] out@[k],
                    ),
            decreases roots_idx@.len() - r_i,
        {
            let root_pos = roots_idx[r_i];
            let root = &comments[root_pos];
            let mut collected: Vec<CommentResponse> = Vec::new();
            let mut k: usize = 0;
            while k < m
                invariant
                    0 <= k <= m,
                    n == comments@.len(),
                    m == replies_idx@.len(),
                    pool == reply_seq(comments@).reverse(),
                    m == reply_seq(comments@).len(),
                    root_pos < n,
                    *root == comments@[root_pos as int],
                    forall|j: int|
                        0 <= j < m ==> (#[trigger] replies_idx@[j]) < n && comments@[
                            replies_idx@[j] as int
                        ] == reply_seq(comments@)[j],
                    forall|j: int|
                        0 <= j < comments@.len() ==> (#[trigger] comments@[j]).wf()
                            && comments@[j].id is Some,
                    responses_match(replies_to(pool.subrange(0, k as int), *root), collected@),
                decreases m - k,
            {
                let idx = replies_idx[m - 1 - k];
                let cand = &comments[idx];
                proof {
                    assert(pool[k as int] == reply_seq(comments@)[m - 1 - k]);
                    assert(*cand == pool[k as int]);
                    assert(pool.subrange(0, k as int + 1) =~= pool.subrange(0, k as int).push(
                        pool[k as int],
                    ));
                    lemma_replies_to_push(pool.subrange(0, k as int), *root, pool[k as int]);
                }
                let matched: bool = match (&cand.parent_comment_id, &root.id) {
                    (Some(p), Some(b)) => bytes_eq(p, b),
                    _ => false,
                };
                proof {
                    assert(matched == parent_is(*cand, *root));
                }
                if matched {
                    let resp = cand.to_response();
                    collected.push(resp);
                }
                k += 1;
            }
            proof {
                assert(pool.subrange(0, m as int) =~= pool);
            }
            let mut resp = root.to_response();
            resp.replies = Some(collected);
            proof {
                assert(threaded_match(comments@, root_order(comments@)[r_i as int], resp));
            }
            out.push(resp);
            r_i += 1;
        }
        out
    }
}

} // verus!
