//! The user-post listing of the JSON API: request paths, the batched fetch, and pages.
use vstd::prelude::*;
use crate::model::{Author, Awards, Flags, Flair, Post};
use crate::number::{decimal, push_decimal};
use crate::text::{push_str, str_opt};

verus! {

/// A post as the API lists it, borrowing from the post it shows.
#[derive(Clone, Copy)]
pub struct FlatUserPost<'a> {
    pub id: &'a str,
    pub title: &'a str,
    pub community: &'a str,
    pub body: &'a str,
    pub author: &'a Author,
    pub permalink: &'a str,
    pub score: &'a (String, String),
    pub upvote_ratio: i64,
    pub post_type: &'a str,
    pub flair: &'a Flair,
    pub flags: &'a Flags,
    pub rel_time: &'a str,
    pub created: &'a str,
    pub created_ts: u64,
    pub num_duplicates: u64,
    pub comments: &'a (String, String),
    pub awards: &'a Awards,
    pub nsfw: bool,
}

/// One page of a user's posts, and the id to ask for the next page after.
pub struct PaginatedUserPosts<'a> {
    pub items: &'a [FlatUserPost<'a>],
    pub after: Option<&'a str>,
}

/// `f` shows the post `p`.
pub open spec fn shows_post(f: FlatUserPost, p: Post) -> bool {
    &&& f.id@ == p.id@
    &&& f.title@ == p.title@
    &&& f.community@ == p.community@
    &&& f.body@ == p.body@
    &&& *f.author == p.author
    &&& f.permalink@ == p.permalink@
    &&& *f.score == p.score
    &&& f.upvote_ratio == p.upvote_ratio
    &&& f.post_type@ == p.post_type@
    &&& *f.flair == p.flair
    &&& *f.flags == p.flags
    &&& f.rel_time@ == p.rel_time@
    &&& f.created@ == p.created@
    &&& f.created_ts == p.created_ts
    &&& f.num_duplicates == p.num_duplicates
    &&& *f.comments == p.comments
    &&& *f.awards == p.awards
    &&& f.nsfw == p.nsfw
}

/// A post's entry carries each field of the post under the field's own name: the score as
/// `score` and the comment count as `comments`, and so on.
pub proof fn lemma_entry_carries_post_fields(f: FlatUserPost, p: Post)
    requires
        shows_post(f, p),
    ensures
        f.id@ == p.id@,
        f.title@ == p.title@,
        f.community@ == p.community@,
        f.body@ == p.body@,
        *f.author == p.author,
        f.permalink@ == p.permalink@,
        *f.score == p.score,
        f.upvote_ratio == p.upvote_ratio,
        f.post_type@ == p.post_type@,
        *f.flair == p.flair,
        *f.flags == p.flags,
        f.rel_time@ == p.rel_time@,
        f.created@ == p.created@,
        f.created_ts == p.created_ts,
        f.num_duplicates == p.num_duplicates,
        *f.comments == p.comments,
        *f.awards == p.awards,
        f.nsfw == p.nsfw,
{
}

impl<'a> FlatUserPost<'a> {
    /// The listing entry of a post.
    pub fn from_post(p: &'a Post) -> (f: Self)
        ensures
            shows_post(f, *p),
            f.id@ == p.id@,
            f.title@ == p.title@,
            f.community@ == p.community@,
            f.body@ == p.body@,
            *f.author == p.author,
            f.permalink@ == p.permalink@,
            *f.score == p.score,
            f.upvote_ratio == p.upvote_ratio,
            f.post_type@ == p.post_type@,
            *f.flair == p.flair,
            *f.flags == p.flags,
            f.rel_time@ == p.rel_time@,
            f.created@ == p.created@,
            f.created_ts == p.created_ts,
            f.num_duplicates == p.num_duplicates,
            *f.comments == p.comments,
            *f.awards == p.awards,
            f.nsfw == p.nsfw,
    {
        FlatUserPost {
            id: p.id.as_str(),
            title: p.title.as_str(),
            community: p.community.as_str(),
            body: p.body.as_str(),
            author: &p.author,
            permalink: p.permalink.as_str(),
            score: &p.score,
            upvote_ratio: p.upvote_ratio,
            post_type: p.post_type.as_str(),
            flair: &p.flair,
            flags: &p.flags,
            rel_time: p.rel_time.as_str(),
            created: p.created.as_str(),
            created_ts: p.created_ts,
            num_duplicates: p.num_duplicates,
            comments: &p.comments,
            awards: &p.awards,
            nsfw: p.nsfw,
        }
    }
}

/// The listing entries of posts, in order.
pub fn flatten_posts<'a>(posts: &'a Vec<Post>) -> (out: Vec<FlatUserPost<'a>>)
    ensures
        out@.len() == posts@.len(),
        forall|i: int| 0 <= i < posts@.len() ==> shows_post(#[trigger] out@[i], posts@[i]),
{
    let mut out: Vec<FlatUserPost<'a>> = Vec::new();
    let mut i: usize = 0;
    while i < posts.len()
        invariant
            i <= posts@.len(),
            out@.len() == i,
            forall|k: int| 0 <= k < i ==> shows_post(#[trigger] out@[k], posts@[k]),
        decreases posts@.len() - i,
    {
        out.push(FlatUserPost::from_post(&posts[i]));
        i = i + 1;
    }
    out
}

/// The page of the posts Reddit returned, all of them; `after` is Reddit's cursor unless it is
/// empty.
pub fn user_posts_page<'a>(items: &'a Vec<FlatUserPost<'a>>, reddit_after: &'a str) -> (page: PaginatedUserPosts<'a>)
    ensures
        page.items@ == items@,
        page.after == if reddit_after@.len() == 0 {
            None
        } else {
            Some(reddit_after)
        },
{
    let after = if reddit_after.is_empty() {
        None
    } else {
        Some(reddit_after)
    };
    PaginatedUserPosts { items: items.as_slice(), after }
}

/// The page of posts gathered by a batched fetch; `after` is the id of the last one when more
/// posts remain.
pub fn fetched_posts_page<'a>(items: &'a Vec<FlatUserPost<'a>>, more: bool) -> (page: PaginatedUserPosts<'a>)
    ensures
        page.items@ == items@,
        page.after == if more && items@.len() > 0 {
            Some(items@.last().id)
        } else {
            None
        },
{
    let after = if more && items.len() > 0 {
        Some(items[items.len() - 1].id)
    } else {
        None
    };
    PaginatedUserPosts { items: items.as_slice(), after }
}

/// The query parameters of a listing request, each preceded by `&`.
pub open spec fn listing_params(after: Option<Seq<char>>, limit: Option<nat>, sort: Option<Seq<char>>) -> Seq<char> {
    (match after {
        Some(a) => "&after="@ + a,
        None => Seq::empty(),
    }) + (match limit {
        Some(n) => "&limit="@ + decimal(n),
        None => Seq::empty(),
    }) + (match sort {
        Some(s) => "&sort="@ + s,
        None => Seq::empty(),
    })
}

/// The Reddit path of a user's listing.
pub open spec fn listing_path_of(
    user: Seq<char>,
    listing: Seq<char>,
    after: Option<Seq<char>>,
    limit: Option<nat>,
    sort: Option<Seq<char>>,
) -> Seq<char> {
    "/user/"@ + user + "/"@ + listing + ".json?raw_json=1"@ + listing_params(after, limit, sort)
}

/// The Reddit path of a user's listing, with the parameters that are given.
pub fn listing_path(user: &str, listing: &str, after: Option<&str>, limit: Option<u64>, sort: Option<&str>) -> (path: String)
    ensures
        path@ == listing_path_of(
            user@,
            listing@,
            str_opt(after),
            match limit {
                Some(n) => Some(n as nat),
                None => None,
            },
            str_opt(sort),
        ),
{
    let mut path = String::new();
    push_str(&mut path, "/user/");
    push_str(&mut path, user);
    push_str(&mut path, "/");
    push_str(&mut path, listing);
    push_str(&mut path, ".json?raw_json=1");
    let ghost base = path@;
    assert(base =~= "/user/"@ + user@ + "/"@ + listing@ + ".json?raw_json=1"@);
    let ghost p1: Seq<char> = match after {
        Some(a) => "&after="@ + a@,
        None => Seq::empty(),
    };
    if let Some(a) = after {
        push_str(&mut path, "&after=");
        push_str(&mut path, a);
    }
    assert(path@ =~= base + p1);
    let ghost p2: Seq<char> = match limit {
        Some(n) => "&limit="@ + decimal(n as nat),
        None => Seq::empty(),
    };
    if let Some(n) = limit {
        push_str(&mut path, "&limit=");
        push_decimal(&mut path, n);
    }
    assert(path@ =~= base + p1 + p2);
    let ghost p3: Seq<char> = match sort {
        Some(s) => "&sort="@ + s@,
        None => Seq::empty(),
    };
    if let Some(s) = sort {
        push_str(&mut path, "&sort=");
        push_str(&mut path, s);
    }
    assert(path@ =~= base + (p1 + p2 + p3));
    path
}

/// The Reddit path for one page of a user's listing: the limit is sent only when it is not
/// Reddit's default of 25.
pub fn user_posts_path(user: &str, listing: &str, after: Option<&str>, limit: usize, sort: Option<&str>) -> (path: String)
    ensures
        path@ == listing_path_of(
            user@,
            listing@,
            str_opt(after),
            if limit != 25 {
                Some(limit as nat)
            } else {
                None
            },
            str_opt(sort),
        ),
{
    let sent: Option<u64> = if limit != 25 {
        Some(limit as u64)
    } else {
        None
    };
    listing_path(user, listing, after, sent, sort)
}

} // verus!
