use blog_api::comment::{default_name, Comment};
use blog_api::webhook::comment_embed;

fn comment(id: u8, parent: Option<Vec<u8>>, t_secs: i64, slug: &str) -> Comment {
    Comment {
        id: Some(vec![id; 12]),
        name: format!("author{}", id),
        post_slug: slug.to_string(),
        by_post_author: false,
        email: String::new(),
        url: String::new(),
        body: format!("body{}", id),
        parent_comment_id: parent,
        created_at: t_secs * 1000,
        updated_at: t_secs * 1000,
        replies: None,
    }
}

fn hex_of(byte: u8) -> String {
    let mut s = String::new();
    for _ in 0..12 {
        s.push_str(&format!("{:02x}", byte));
    }
    s
}

#[test]
fn threads_roots_and_attaches_replies() {
    // C1 (root, t=3), C2 (root, t=2), C3 (reply to C1, t=1),
    // listed newest first as the store returns them
    let c1 = comment(1, None, 3, "post");
    let c2 = comment(2, None, 2, "post");
    let c3 = comment(3, Some(vec![1; 12]), 1, "post");
    let out = Comment::thread(&vec![c1, c2, c3]);
    assert_eq!(out.len(), 2);
    assert_eq!(out[0].id, hex_of(1));
    assert_eq!(out[1].id, hex_of(2));
    let replies = out[0].replies.as_ref().unwrap();
    assert_eq!(replies.len(), 1);
    assert_eq!(replies[0].id, hex_of(3));
    assert_eq!(replies[0].parent_comment_id.as_deref(), Some(hex_of(1).as_str()));
    assert_eq!(out[1].replies.as_ref().unwrap().len(), 0);
}

#[test]
fn reply_to_a_reply_is_dropped() {
    let c1 = comment(1, None, 3, "post");
    let c2 = comment(2, Some(vec![1; 12]), 2, "post");
    let c3 = comment(3, Some(vec![2; 12]), 1, "post");
    let out = Comment::thread(&vec![c1, c2, c3]);
    assert_eq!(out.len(), 1);
    let replies = out[0].replies.as_ref().unwrap();
    assert_eq!(replies.len(), 1);
    assert_eq!(replies[0].id, hex_of(2));
}

#[test]
fn zero_parent_id_counts_as_a_root() {
    let c1 = comment(1, Some(vec![0; 12]), 2, "post");
    let out = Comment::thread(&vec![c1]);
    assert_eq!(out.len(), 1);
    assert_eq!(out[0].id, hex_of(1));
}

#[test]
fn replies_come_out_in_ascending_time() {
    // replies arrive newest first; they attach oldest first
    let c1 = comment(1, None, 9, "post");
    let r_new = comment(2, Some(vec![1; 12]), 5, "post");
    let r_old = comment(3, Some(vec![1; 12]), 1, "post");
    let out = Comment::thread(&vec![c1, r_new, r_old]);
    let replies = out[0].replies.as_ref().unwrap();
    assert_eq!(replies.len(), 2);
    assert_eq!(replies[0].id, hex_of(3));
    assert_eq!(replies[1].id, hex_of(2));
}

#[test]
fn empty_input_threads_to_nothing() {
    let out = Comment::thread(&vec![]);
    assert_eq!(out.len(), 0);
}

#[test]
fn response_renders_ids_and_timestamps_as_text() {
    let mut c = comment(1, Some(vec![2; 12]), 0, "post");
    c.created_at = 0;
    c.updated_at = 1500;
    let r = c.to_response();
    assert_eq!(r.id, hex_of(1));
    assert_eq!(r.parent_comment_id.as_deref(), Some(hex_of(2).as_str()));
    assert_eq!(r.created_at, "1970-01-01T00:00:00+00:00");
    assert_eq!(r.updated_at.as_deref(), Some("1970-01-01T00:00:01.500+00:00"));
    assert_eq!(r.name, "author1");
    assert_eq!(r.post_slug, "post");
    assert_eq!(r.body, "body1");
    assert!(r.replies.is_none());
}

#[test]
fn responses_keep_the_input_order() {
    let a = comment(1, None, 3, "post");
    let b = comment(2, None, 2, "post");
    let out = Comment::to_responses(&vec![a, b]);
    assert_eq!(out.len(), 2);
    assert_eq!(out[0].id, hex_of(1));
    assert_eq!(out[1].id, hex_of(2));
}

#[test]
fn anonymous_commenters_get_the_default_name() {
    assert_eq!(default_name(), "\u{c775}\u{ba85}");
}

#[test]
fn comment_embed_announces_the_comment() {
    let mut c = comment(1, None, 0, "my-post");
    c.name = "dana".to_string();
    c.url = "https://example.com".to_string();
    c.body = "hello".to_string();
    let e = comment_embed(&c);
    assert_eq!(e.embed_type, "rich");
    assert_eq!(e.title, "New comment added");
    assert_eq!(e.description, "New comment added by dana on my-post");
    assert_eq!(e.fields.len(), 3);
    assert_eq!(e.fields[0].name, "Name");
    assert_eq!(e.fields[0].value, "dana");
    assert_eq!(e.fields[1].name, "URL");
    assert_eq!(e.fields[1].value, "https://example.com");
    assert_eq!(e.fields[2].name, "Content");
    assert_eq!(e.fields[2].value, "hello");
    assert!(e.color.is_none());
    assert!(e.footer.is_none());
}
