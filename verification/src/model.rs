//! The records that the listings are made of, holding plain values.
use vstd::prelude::*;

verus! {

/// One piece of a user's or a post's flair: a text or an emoji.
pub struct FlairPart {
    pub flair_part_type: String,
    pub value: String,
}

/// A flair as shown next to an author or a post.
pub struct Flair {
    pub flair_parts: Vec<FlairPart>,
    pub text: String,
    pub background_color: String,
    pub foreground_color: String,
}

/// The author of a post or a comment.
pub struct Author {
    pub name: String,
    pub flair: Flair,
    pub distinguished: String,
}

/// One award given to a post or a comment.
pub struct Award {
    pub name: String,
    pub icon_url: String,
    pub description: String,
    pub count: i64,
}

/// The awards given to a post or a comment.
pub struct Awards {
    pub items: Vec<Award>,
}

/// The flags of a post.
pub struct Flags {
    pub spoiler: bool,
    pub nsfw: bool,
    pub stickied: bool,
}

/// A comment of a thread, with its replies.
pub struct Comment {
    pub id: String,
    pub kind: String,
    pub parent_id: String,
    pub parent_kind: String,
    pub post_link: String,
    pub post_author: String,
    pub body: String,
    pub author: Author,
    pub score: (String, String),
    pub rel_time: String,
    pub created: String,
    pub created_ts: u64,
    pub edited: (String, String),
    pub replies: Vec<Comment>,
    pub highlighted: bool,
    pub awards: Awards,
    pub collapsed: bool,
    pub is_filtered: bool,
    pub more_count: i64,
}

/// A post of a listing.
pub struct Post {
    pub id: String,
    pub title: String,
    pub community: String,
    pub body: String,
    pub author: Author,
    pub permalink: String,
    pub score: (String, String),
    pub upvote_ratio: i64,
    pub post_type: String,
    pub flair: Flair,
    pub flags: Flags,
    pub rel_time: String,
    pub created: String,
    pub created_ts: u64,
    pub num_duplicates: u64,
    pub comments: (String, String),
    pub awards: Awards,
    pub nsfw: bool,
}

} // verus!
