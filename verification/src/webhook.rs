//! The shape of the side-channel notification sent when a comment is
//! created, and the embed built for one.
use crate::comment::Comment;
use vstd::prelude::*;
use vstd::string::StringExecFns;

verus! {

pub struct DiscordAlert {
    pub embeds: Vec<DiscordEmbed>,
}

pub struct DiscordEmbed {
    pub embed_type: String,
    pub title: String,
    pub description: String,
    pub color: Option<i32>,
    pub fields: Vec<DiscordField>,
    pub footer: Option<DiscordFooter>,
}

pub struct DiscordField {
    pub name: String,
    pub value: String,
}

pub struct DiscordFooter {
    pub text: String,
}

/// The notification text for a new comment.
pub open spec fn comment_alert_text(c: Comment) -> Seq<char> {
    "New comment added by "@ + c.name@ + " on "@ + c.post_slug@
}

/// Builds the embed announcing a newly created comment: a rich embed
/// titled with the fixed announcement, describing who commented on
/// which post, and carrying the name, URL and content as fields.
pub fn comment_embed(comment: &Comment) -> (e: DiscordEmbed)
    ensures
        e.embed_type@ == "rich"@,
        e.title@ == "New comment added"@,
        e.description@ == comment_alert_text(*comment),
        e.color is None,
        e.footer is None,
        e.fields@.len() == 3,
        e.fields@[0].name@ == "Name"@ && e.fields@[0].value@ == comment.name@,
        e.fields@[1].name@ == "URL"@ && e.fields@[1].value@ == comment.url@,
        e.fields@[2].name@ == "Content"@ && e.fields@[2].value@ == comment.body@,
{
    let mut description = String::from_str("New comment added by ");
    description.append(comment.name.as_str());
    description.append(" on ");
    description.append(comment.post_slug.as_str());
    let mut fields: Vec<DiscordField> = Vec::new();
    fields.push(
        DiscordField { name: String::from_str("Name"), value: comment.name.clone() },
    );
    fields.push(DiscordField { name: String::from_str("URL"), value: comment.url.clone() });
    fields.push(
        DiscordField { name: String::from_str("Content"), value: comment.body.clone() },
    );
    DiscordEmbed {
        embed_type: String::from_str("rich"),
        title: String::from_str("New comment added"),
        description,
        color: None,
        fields,
        footer: None,
    }
}

} // verus!
