//! Building the comment tree of a thread, and searching it.
use vstd::prelude::*;
use crate::model::{Author, Awards, Comment};
use crate::text::{
    after_char, before_char, has_substring, lemma_split_absent, lemma_split_at_first, lowercase, contains_char,
    contains_str, push_str, split_first_two,
    str_eq, to_lowercase,
};

verus! {

/// What a listing node of a comment holds, read out of the thread's JSON.
pub struct RawComment {
    pub id: String,
    pub kind: String,
    pub author: Author,
    /// The comment's text as written (`body`).
    pub body: String,
    /// The comment's rendered HTML, emotes already rewritten (`body_html`).
    pub body_html: String,
    /// The parent's full name: its kind, `_`, its id (`parent_id`).
    pub parent_id: String,
    pub stickied: bool,
    pub score_hidden: bool,
    /// The score as it is displayed (short form, full form).
    pub score: (String, String),
    pub rel_time: String,
    pub created: String,
    pub created_ts: u64,
    pub edited: (String, String),
    pub awards: Awards,
    pub more_count: i64,
    pub replies: Vec<RawComment>,
}

/// What the comments of one thread are built with.
pub struct CommentContext {
    pub post_link: String,
    pub post_author: String,
    /// The id of the comment that the page points at, if any (empty otherwise).
    pub highlighted_comment: String,
    /// The user's filters; an author is filtered by the entry `u_<name>`.
    pub filters: Vec<String>,
    /// The host of the archive that removed comments link to.
    pub removed_frontend: String,
}

/// A comment whose text was deleted or removed by its author or by Reddit.
pub open spec fn is_removed(r: RawComment) -> bool {
    (r.author.name@ == "[deleted]"@ && r.body@ == "[removed]"@) || r.body@ == "[ Removed by Reddit ]"@
}

/// The body shown in place of a removed comment: a link to the archived copy.
pub open spec fn removed_notice(frontend: Seq<char>, post_link: Seq<char>, id: Seq<char>) -> Seq<char> {
    "<div class=\"md\"><p>[removed] \u{2014} <a href=\"https://"@ + frontend + post_link + id
        + "\">view removed comment</a></p></div>"@
}

/// The body a comment is shown with.
pub open spec fn comment_body(r: RawComment, ctx: CommentContext) -> Seq<char> {
    if is_removed(r) {
        removed_notice(ctx.removed_frontend@, ctx.post_link@, r.id@)
    } else {
        r.body_html@
    }
}

/// Whether the filters hide an author: they hold `u_` followed by the author's name.
pub open spec fn author_is_filtered(filters: Seq<String>, name: Seq<char>) -> bool {
    exists|i: int| 0 <= i < filters.len() && #[trigger] filters[i]@ == "u_"@ + name
}

/// Every field of `c`, but its replies, is what `r` in `ctx` gives.
pub open spec fn built_from(c: Comment, r: RawComment, ctx: CommentContext) -> bool {
    &&& c.id == r.id
    &&& c.kind == r.kind
    &&& c.parent_kind@ == before_char(r.parent_id@, '_')
    &&& c.parent_id@ == before_char(after_char(r.parent_id@, '_'), '_')
    &&& c.post_link@ == ctx.post_link@
    &&& c.post_author@ == ctx.post_author@
    &&& c.body@ == comment_body(r, ctx)
    &&& c.author == r.author
    &&& (if r.score_hidden {
        c.score.0@ == "\u{2022}"@ && c.score.1@ == "Hidden"@
    } else {
        c.score == r.score
    })
    &&& c.rel_time == r.rel_time
    &&& c.created == r.created
    &&& c.created_ts == r.created_ts
    &&& c.edited == r.edited
    &&& c.highlighted == (r.id@ == ctx.highlighted_comment@)
    &&& c.awards == r.awards
    &&& c.is_filtered == author_is_filtered(ctx.filters@, r.author.name@)
    &&& c.collapsed == ((r.author.distinguished@ == "moderator"@ && r.stickied) || c.is_filtered)
    &&& c.more_count == r.more_count
}

/// `c` is built from `r`, and so are its replies from `r`'s, in order.
pub open spec fn built_tree(c: Comment, r: RawComment, ctx: CommentContext) -> bool
    decreases r,
{
    &&& built_from(c, r, ctx)
    &&& c.replies@.len() == r.replies@.len()
    &&& forall|i: int| 0 <= i < r.replies@.len() ==> built_tree(#[trigger] c.replies@[i], r.replies@[i], ctx)
}

/// Every comment of the forest names a parent as `<kind>_<id>`.
pub open spec fn parents_named(raws: Seq<RawComment>) -> bool
    decreases raws,
{
    forall|i: int| 0 <= i < raws.len() ==> {
        &&& (#[trigger] raws[i]).parent_id@.contains('_')
        &&& parents_named(raws[i].replies@)
    }
}

/// Whether the filters hide the author `name`.
pub fn is_author_filtered(filters: &Vec<String>, name: &str) -> (r: bool)
    ensures
        r == author_is_filtered(filters@, name@),
{
    let mut target = String::new();
    push_str(&mut target, "u_");
    push_str(&mut target, name);
    assert(Seq::<char>::empty() + "u_"@ =~= "u_"@);
    let mut i: usize = 0;
    while i < filters.len()
        invariant
            i <= filters@.len(),
            target@ == "u_"@ + name@,
            forall|k: int| 0 <= k < i ==> #[trigger] filters@[k]@ != "u_"@ + name@,
        decreases filters@.len() - i,
    {
        if str_eq(filters[i].as_str(), target.as_str()) {
            return true;
        }
        i = i + 1;
    }
    false
}

/// Whether every comment of the forest names its parent as `<kind>_<id>`, which building a
/// comment needs.
pub fn parents_well_named(raws: &Vec<RawComment>) -> (r: bool)
    ensures
        r == parents_named(raws@),
    decreases raws@,
{
    let mut i: usize = 0;
    while i < raws.len()
        invariant
            i <= raws@.len(),
            forall|k: int| 0 <= k < i ==> {
                &&& (#[trigger] raws@[k]).parent_id@.contains('_')
                &&& parents_named(raws@[k].replies@)
            },
        decreases raws@.len() - i,
    {
        let r = &raws[i];
        if !contains_char(r.parent_id.as_str(), '_') {
            return false;
        }
        assert(decreases_to!(raws@ => r.replies@));
        if !parents_well_named(&r.replies) {
            return false;
        }
        i = i + 1;
    }
    true
}

/// A comment is collapsed exactly when it is a stickied comment distinguished as a
/// moderator's, or its author is filtered: a moderator's comment that is not stickied, and a
/// stickied one that is not a moderator's, stay open unless their author is filtered.
pub proof fn lemma_collapsed_only_stickied_moderator_or_filtered(c: Comment, r: RawComment, ctx: CommentContext)
    requires
        built_from(c, r, ctx),
    ensures
        !r.stickied && !author_is_filtered(ctx.filters@, r.author.name@) ==> !c.collapsed,
        r.author.distinguished@ != "moderator"@ && !author_is_filtered(ctx.filters@, r.author.name@) ==> !c.collapsed,
        r.author.distinguished@ == "moderator"@ && r.stickied ==> c.collapsed,
        author_is_filtered(ctx.filters@, r.author.name@) ==> c.collapsed && c.is_filtered,
        !author_is_filtered(ctx.filters@, r.author.name@) ==> !c.is_filtered,
{
}

/// A parent named `<kind>_<id>`, neither part holding `_`, gives the comment that kind as its
/// parent kind and that id as its parent id (`t1_abc` gives `t1` and `abc`).
pub proof fn lemma_parent_kind_then_id(c: Comment, r: RawComment, ctx: CommentContext, kind: Seq<char>, id: Seq<char>)
    requires
        built_from(c, r, ctx),
        r.parent_id@ == kind + "_"@ + id,
        forall|k: int| 0 <= k < kind.len() ==> kind[k] != '_',
        forall|k: int| 0 <= k < id.len() ==> id[k] != '_',
    ensures
        c.parent_kind@ == kind,
        c.parent_id@ == id,
{
    let s = r.parent_id@;
    reveal_strlit("_");
    assert(s.len() == kind.len() + 1 + id.len());
    assert(s[kind.len() as int] == '_');
    assert forall|k: int| 0 <= k < kind.len() implies s[k] != '_' by {
        assert(s[k] == kind[k]);
    }
    lemma_split_at_first(s, '_', kind.len() as int);
    assert(s.take(kind.len() as int) =~= kind);
    assert(s.skip(kind.len() + 1int) =~= id);
    lemma_split_absent(id, '_');
}

/// Builds one comment out of its listing node, with the replies already built.
pub fn build_comment(r: RawComment, replies: Vec<Comment>, ctx: &CommentContext) -> (c: Comment)
    requires
        r.parent_id@.contains('_'),
    ensures
        built_from(c, r, *ctx),
        c.replies == replies,
        !r.stickied && !author_is_filtered(ctx.filters@, r.author.name@) ==> !c.collapsed,
        r.author.distinguished@ != "moderator"@ && !author_is_filtered(ctx.filters@, r.author.name@) ==> !c.collapsed,
        r.author.distinguished@ == "moderator"@ && r.stickied ==> c.collapsed,
        author_is_filtered(ctx.filters@, r.author.name@) ==> c.collapsed && c.is_filtered,
        c.parent_kind@ == before_char(r.parent_id@, '_'),
        c.parent_id@ == before_char(after_char(r.parent_id@, '_'), '_'),
{
    let removed = (str_eq(r.author.name.as_str(), "[deleted]") && str_eq(r.body.as_str(), "[removed]"))
        || str_eq(r.body.as_str(), "[ Removed by Reddit ]");
    let body = if removed {
        let mut b = String::new();
        push_str(&mut b, "<div class=\"md\"><p>[removed] \u{2014} <a href=\"https://");
        push_str(&mut b, ctx.removed_frontend.as_str());
        push_str(&mut b, ctx.post_link.as_str());
        push_str(&mut b, r.id.as_str());
        push_str(&mut b, "\">view removed comment</a></p></div>");
        assert(b@ =~= removed_notice(ctx.removed_frontend@, ctx.post_link@, r.id@));
        b
    } else {
        r.body_html
    };
    let (parent_kind, parent_id) = split_first_two(r.parent_id.as_str(), '_');
    let highlighted = str_eq(r.id.as_str(), ctx.highlighted_comment.as_str());
    let is_filtered = is_author_filtered(&ctx.filters, r.author.name.as_str());
    let is_moderator_comment = str_eq(r.author.distinguished.as_str(), "moderator");
    let collapsed = (is_moderator_comment && r.stickied) || is_filtered;
    let score = if r.score_hidden {
        ("\u{2022}".to_owned(), "Hidden".to_owned())
    } else {
        r.score
    };
    Comment {
        id: r.id,
        kind: r.kind,
        parent_id,
        parent_kind,
        post_link: ctx.post_link.clone(),
        post_author: ctx.post_author.clone(),
        body,
        author: r.author,
        score,
        rel_time: r.rel_time,
        created: r.created,
        created_ts: r.created_ts,
        edited: r.edited,
        replies,
        highlighted,
        awards: r.awards,
        collapsed,
        is_filtered,
        more_count: r.more_count,
    }
}

/// Builds the comments of a listing, each with its replies, in listing order.
pub fn parse_comments(raws: Vec<RawComment>, ctx: &CommentContext) -> (out: Vec<Comment>)
    requires
        parents_named(raws@),
    ensures
        out@.len() == raws@.len(),
        forall|i: int| 0 <= i < raws@.len() ==> built_tree(#[trigger] out@[i], raws@[i], *ctx),
    decreases raws@,
{
    let ghost rs = raws@;
    let mut out: Vec<Comment> = Vec::new();
    for r in it: raws.into_iter()
        invariant
            it.seq() == rs,
            parents_named(rs),
            out@.len() == it.index(),
            forall|k: int| 0 <= k < it.index() ==> built_tree(#[trigger] out@[k], rs[k], *ctx),
    {
        let ghost k = it.index();
        let ghost node = r;
        assert(r == rs[k]);
        let mut r = r;
        let mut raw_replies: Vec<RawComment> = Vec::new();
        std::mem::swap(&mut raw_replies, &mut r.replies);
        assert(decreases_to!(rs => raw_replies@));
        let replies = parse_comments(raw_replies, ctx);
        let c = build_comment(r, replies, ctx);
        assert(built_from(c, node, *ctx));
        out.push(c);
    }
    out
}

/// Whether a body matches a search, ignoring case.
pub open spec fn matches_search(body: Seq<char>, query: Seq<char>) -> bool {
    has_substring(lowercase(body), lowercase(query))
}

/// The comments of a forest that match a search: for each comment in order, the matches among
/// its replies, then the comment itself if it matches.
pub open spec fn search_hits(raws: Seq<RawComment>, ctx: CommentContext, query: Seq<char>) -> Seq<RawComment>
    decreases raws,
{
    if raws.len() == 0 {
        Seq::empty()
    } else {
        let last = raws.last();
        search_hits(raws.drop_last(), ctx, query) + search_hits(last.replies@, ctx, query) + (if matches_search(
            comment_body(last, ctx),
            query,
        ) {
            seq![last]
        } else {
            Seq::empty()
        })
    }
}

/// Every comment that a search finds matches it.
pub proof fn lemma_search_hits_match(raws: Seq<RawComment>, ctx: CommentContext, query: Seq<char>, i: int)
    requires
        0 <= i < search_hits(raws, ctx, query).len(),
    ensures
        matches_search(comment_body(search_hits(raws, ctx, query)[i], ctx), query),
    decreases raws,
{
    let last = raws.last();
    let a = search_hits(raws.drop_last(), ctx, query);
    let b = search_hits(last.replies@, ctx, query);
    if i < a.len() {
        lemma_search_hits_match(raws.drop_last(), ctx, query, i);
    } else if i < a.len() + b.len() {
        assert(decreases_to!(raws => last.replies@));
        lemma_search_hits_match(last.replies@, ctx, query, i - a.len());
    }
}

/// The comments of a thread, at any depth, whose body matches a search ignoring case; each is
/// built without its replies.
pub fn query_comments(raws: Vec<RawComment>, ctx: &CommentContext, query: &str) -> (out: Vec<Comment>)
    requires
        parents_named(raws@),
    ensures
        out@.len() == search_hits(raws@, *ctx, query@).len(),
        forall|i: int| 0 <= i < out@.len() ==> {
            &&& built_from(#[trigger] out@[i], search_hits(raws@, *ctx, query@)[i], *ctx)
            &&& out@[i].replies@.len() == 0
        },
        forall|i: int| 0 <= i < out@.len() ==> matches_search(#[trigger] out@[i].body@, query@),
    decreases raws@,
{
    let ghost rs = raws@;
    let lowered_query = to_lowercase(query);
    let mut results: Vec<Comment> = Vec::new();
    assert(rs.take(0) =~= Seq::<RawComment>::empty());
    for r in it: raws.into_iter()
        invariant
            it.seq() == rs,
            parents_named(rs),
            lowered_query@ == lowercase(query@),
            results@.len() == search_hits(rs.take(it.index() as int), *ctx, query@).len(),
            forall|k: int| 0 <= k < results@.len() ==> {
                &&& built_from(#[trigger] results@[k], search_hits(rs.take(it.index() as int), *ctx, query@)[k], *ctx)
                &&& results@[k].replies@.len() == 0
            },
    {
        let ghost k = it.index();
        let ghost node = r;
        let ghost before = results@;
        assert(r == rs[k]);
        let mut r = r;
        let mut raw_replies: Vec<RawComment> = Vec::new();
        std::mem::swap(&mut raw_replies, &mut r.replies);
        assert(decreases_to!(rs => raw_replies@));
        let mut sub = query_comments(raw_replies, ctx, query);
        let ghost sub_view = sub@;
        results.append(&mut sub);
        let c = build_comment(r, Vec::new(), ctx);
        let lowered_body = to_lowercase(c.body.as_str());
        let hit = contains_str(lowered_body.as_str(), lowered_query.as_str());
        let ghost prefix = rs.take(k + 1);
        assert(prefix.drop_last() =~= rs.take(k));
        assert(prefix.last() == node);
        if hit {
            results.push(c);
        }
        proof {
            let hits = search_hits(prefix, *ctx, query@);
            let tail: Seq<RawComment> = if matches_search(comment_body(node, *ctx), query@) {
                seq![node]
            } else {
                Seq::empty()
            };
            assert(hits == search_hits(rs.take(k), *ctx, query@) + search_hits(node.replies@, *ctx, query@) + tail);
            assert forall|j: int| 0 <= j < results@.len() implies {
                &&& built_from(#[trigger] results@[j], hits[j], *ctx)
                &&& results@[j].replies@.len() == 0
            } by {
                if j < before.len() {
                } else if j < before.len() + sub_view.len() {
                    assert(results@[j] == sub_view[j - before.len()]);
                } else {
                    assert(results@[j] == c);
                }
            }
        }
    }
    assert(rs.take(rs.len() as int) =~= rs);
    proof {
        assert forall|i: int| 0 <= i < results@.len() implies matches_search(#[trigger] results@[i].body@, query@) by {
            lemma_search_hits_match(rs, *ctx, query@, i);
        }
    }
    results
}

} // verus!
