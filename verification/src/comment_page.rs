//! The comment listing of the JSON API: a thread flattened, newest first, one page at a time.
use vstd::prelude::*;
use crate::model::{Author, Awards, Comment};
use crate::text::{str_eq, str_opt};

verus! {

/// A comment as the API lists it, borrowing from the comment it shows.
#[derive(Clone, Copy)]
pub struct FlatComment<'a> {
    pub id: &'a str,
    pub kind: &'a str,
    pub parent_id: &'a str,
    pub parent_kind: &'a str,
    pub post_link: &'a str,
    pub post_author: &'a str,
    pub body: &'a str,
    pub author: &'a Author,
    pub score: &'a (String, String),
    pub rel_time: &'a str,
    pub created: &'a str,
    pub created_ts: u64,
    pub edited: &'a (String, String),
    pub highlighted: bool,
    pub awards: &'a Awards,
    pub collapsed: bool,
    pub is_filtered: bool,
    pub more_count: i64,
}

/// One page of the comment listing, and the id to ask for the next page after.
pub struct PaginatedComments<'a> {
    pub items: &'a [FlatComment<'a>],
    pub after: Option<&'a str>,
}

/// `f` shows the comment `c`: every field but the replies.
pub open spec fn shows_comment(f: FlatComment, c: Comment) -> bool {
    &&& f.id@ == c.id@
    &&& f.kind@ == c.kind@
    &&& f.parent_id@ == c.parent_id@
    &&& f.parent_kind@ == c.parent_kind@
    &&& f.post_link@ == c.post_link@
    &&& f.post_author@ == c.post_author@
    &&& f.body@ == c.body@
    &&& *f.author == c.author
    &&& *f.score == c.score
    &&& f.rel_time@ == c.rel_time@
    &&& f.created@ == c.created@
    &&& f.created_ts == c.created_ts
    &&& *f.edited == c.edited
    &&& f.highlighted == c.highlighted
    &&& *f.awards == c.awards
    &&& f.collapsed == c.collapsed
    &&& f.is_filtered == c.is_filtered
    &&& f.more_count == c.more_count
}

/// A listing entry carries each field of the comment it shows under the field's own name: the
/// parent's id as `parent_id` and its kind as `parent_kind`, the score as `score`, and so on.
pub proof fn lemma_entry_carries_comment_fields(f: FlatComment, c: Comment)
    requires
        shows_comment(f, c),
    ensures
        f.id@ == c.id@,
        f.kind@ == c.kind@,
        f.parent_id@ == c.parent_id@,
        f.parent_kind@ == c.parent_kind@,
        f.post_link@ == c.post_link@,
        f.post_author@ == c.post_author@,
        f.body@ == c.body@,
        *f.author == c.author,
        *f.score == c.score,
        f.rel_time@ == c.rel_time@,
        f.created@ == c.created@,
        f.created_ts == c.created_ts,
        *f.edited == c.edited,
        f.highlighted == c.highlighted,
        *f.awards == c.awards,
        f.collapsed == c.collapsed,
        f.is_filtered == c.is_filtered,
        f.more_count == c.more_count,
{
}

impl<'a> FlatComment<'a> {
    /// The listing entry of a comment.
    pub fn from_comment(c: &'a Comment) -> (f: Self)
        ensures
            shows_comment(f, *c),
            f.id@ == c.id@,
            f.kind@ == c.kind@,
            f.parent_id@ == c.parent_id@,
            f.parent_kind@ == c.parent_kind@,
            f.post_link@ == c.post_link@,
            f.post_author@ == c.post_author@,
            f.body@ == c.body@,
            *f.author == c.author,
            *f.score == c.score,
            f.rel_time@ == c.rel_time@,
            f.created@ == c.created@,
            f.created_ts == c.created_ts,
            *f.edited == c.edited,
            f.highlighted == c.highlighted,
            *f.awards == c.awards,
            f.collapsed == c.collapsed,
            f.is_filtered == c.is_filtered,
            f.more_count == c.more_count,
    {
        FlatComment {
            id: c.id.as_str(),
            kind: c.kind.as_str(),
            parent_id: c.parent_id.as_str(),
            parent_kind: c.parent_kind.as_str(),
            post_link: c.post_link.as_str(),
            post_author: c.post_author.as_str(),
            body: c.body.as_str(),
            author: &c.author,
            score: &c.score,
            rel_time: c.rel_time.as_str(),
            created: c.created.as_str(),
            created_ts: c.created_ts,
            edited: &c.edited,
            highlighted: c.highlighted,
            awards: &c.awards,
            collapsed: c.collapsed,
            is_filtered: c.is_filtered,
            more_count: c.more_count,
        }
    }
}

/// The comments of a forest in pre-order: each comment, then its replies, then its next
/// sibling.
pub open spec fn preorder(cs: Seq<Comment>) -> Seq<Comment>
    decreases cs,
{
    if cs.len() == 0 {
        Seq::empty()
    } else {
        preorder(cs.drop_last()) + seq![cs.last()] + preorder(cs.last().replies@)
    }
}

/// `fs` lists the comments `cs`, one entry for each, in order.
pub open spec fn lists_comments(fs: Seq<FlatComment>, cs: Seq<Comment>) -> bool {
    &&& fs.len() == cs.len()
    &&& forall|i: int| 0 <= i < cs.len() ==> shows_comment(#[trigger] fs[i], cs[i])
}

fn flatten_into<'a>(cs: &'a Vec<Comment>, out: &mut Vec<FlatComment<'a>>)
    ensures
        final(out)@.len() == old(out)@.len() + preorder(cs@).len(),
        forall|i: int| 0 <= i < old(out)@.len() ==> #[trigger] final(out)@[i] == old(out)@[i],
        lists_comments(final(out)@.skip(old(out)@.len() as int), preorder(cs@)),
    decreases cs@,
{
    let ghost start = out@;
    let mut i: usize = 0;
    assert(cs@.take(0) =~= Seq::<Comment>::empty());
    assert(out@.skip(start.len() as int) =~= Seq::<FlatComment>::empty());
    while i < cs.len()
        invariant
            i <= cs@.len(),
            out@.len() == start.len() + preorder(cs@.take(i as int)).len(),
            forall|k: int| 0 <= k < start.len() ==> #[trigger] out@[k] == start[k],
            lists_comments(out@.skip(start.len() as int), preorder(cs@.take(i as int))),
        decreases cs@.len() - i,
    {
        let ghost before = out@;
        let c = &cs[i];
        out.push(FlatComment::from_comment(c));
        let ghost mid = out@;
        assert(decreases_to!(cs@ => c.replies@));
        flatten_into(&c.replies, out);
        proof {
            let prefix = cs@.take(i + 1);
            assert(prefix.drop_last() =~= cs@.take(i as int));
            assert(prefix.last() == *c);
            let p_old = preorder(cs@.take(i as int));
            let p_sub = preorder(c.replies@);
            assert(preorder(prefix) == p_old + seq![*c] + p_sub);
            let listed = out@.skip(start.len() as int);
            assert forall|k: int| 0 <= k < p_old.len() + 1 + p_sub.len() implies shows_comment(
                #[trigger] listed[k],
                (p_old + seq![*c] + p_sub)[k],
            ) by {
                if k < p_old.len() {
                    assert(listed[k] == before.skip(start.len() as int)[k]);
                } else if k == p_old.len() {
                    assert(listed[k] == mid[start.len() + k]);
                } else {
                    assert(listed[k] == out@.skip(mid.len() as int)[k - p_old.len() - 1]);
                }
            }
        }
        i = i + 1;
    }
    assert(cs@.take(cs@.len() as int) =~= cs@);
}

/// The listing entries of a thread's comments at every depth, in pre-order.
pub fn flatten_comments<'a>(comments: &'a Vec<Comment>) -> (out: Vec<FlatComment<'a>>)
    ensures
        lists_comments(out@, preorder(comments@)),
{
    let mut out: Vec<FlatComment<'a>> = Vec::new();
    flatten_into(comments, &mut out);
    assert(out@.skip(0) =~= out@);
    out
}

/// No entry is older than one after it.
pub open spec fn newest_first(s: Seq<FlatComment>) -> bool {
    forall|i: int, j: int| 0 <= i < j < s.len() ==> s[i].created_ts >= s[j].created_ts
}

/// The entries created at time `t`, in order.
pub open spec fn created_at<'a>(s: Seq<FlatComment<'a>>, t: u64) -> Seq<FlatComment<'a>> {
    s.filter(|f: FlatComment<'a>| f.created_ts == t)
}

/// `r` orders `s` newest first, keeping entries of the same time in their order: the stable
/// sort by time, descending.
pub open spec fn sorted_newest_first<'a>(r: Seq<FlatComment<'a>>, s: Seq<FlatComment<'a>>) -> bool {
    &&& newest_first(r)
    &&& forall|t: u64| #[trigger] created_at(r, t) == created_at(s, t)
}

proof fn lemma_created_at_push<'a>(s: Seq<FlatComment<'a>>, x: FlatComment<'a>, t: u64)
    ensures
        created_at(s.push(x), t) == if x.created_ts == t {
            created_at(s, t).push(x)
        } else {
            created_at(s, t)
        },
{
    reveal(Seq::filter);
    assert(s.push(x).drop_last() =~= s);
}

proof fn lemma_created_at_insert<'a>(r: Seq<FlatComment<'a>>, p: int, x: FlatComment<'a>, t: u64)
    requires
        0 <= p <= r.len(),
        forall|k: int| p <= k < r.len() ==> r[k].created_ts < x.created_ts,
    ensures
        created_at(r.insert(p, x), t) == if x.created_ts == t {
            created_at(r, t).push(x)
        } else {
            created_at(r, t)
        },
{
    let pred = |f: FlatComment<'a>| f.created_ts == t;
    let a = r.take(p);
    let b = r.skip(p);
    assert(r.insert(p, x) =~= a.push(x) + b);
    assert(r =~= a + b);
    Seq::filter_distributes_over_add(a.push(x), b, pred);
    Seq::filter_distributes_over_add(a, b, pred);
    lemma_created_at_push(a, x, t);
    if x.created_ts == t {
        b.lemma_all_neg_filter_empty(pred);
        assert(b.filter(pred) =~= Seq::<FlatComment<'a>>::empty());
        assert(a.filter(pred).push(x) + b.filter(pred) =~= (a.filter(pred) + b.filter(pred)).push(x));
    }
}

proof fn lemma_insert_multiset<'a>(r: Seq<FlatComment<'a>>, p: int, x: FlatComment<'a>)
    requires
        0 <= p <= r.len(),
    ensures
        r.insert(p, x).to_multiset() =~= r.to_multiset().insert(x),
{
    broadcast use vstd::multiset::group_multiset_axioms;
    let a = r.take(p);
    let b = r.skip(p);
    assert(r.insert(p, x) =~= a.push(x) + b);
    assert(r =~= a + b);
    vstd::seq_lib::lemma_multiset_commutative(a.push(x), b);
    vstd::seq_lib::lemma_multiset_commutative(a, b);
    a.to_multiset_ensures();
}

/// The entries ordered newest first; entries of the same time keep their order. The result
/// holds the same entries.
pub fn sort_newest_first<'a>(v: &Vec<FlatComment<'a>>) -> (r: Vec<FlatComment<'a>>)
    ensures
        sorted_newest_first(r@, v@),
        r@.to_multiset() == v@.to_multiset(),
{
    let mut r: Vec<FlatComment<'a>> = Vec::new();
    let mut i: usize = 0;
    proof {
        assert(v@.take(0) =~= r@);
    }
    while i < v.len()
        invariant
            i <= v@.len(),
            newest_first(r@),
            forall|t: u64| #[trigger] created_at(r@, t) == created_at(v@.take(i as int), t),
            r@.to_multiset() == v@.take(i as int).to_multiset(),
        decreases v@.len() - i,
    {
        let x = v[i];
        let mut p: usize = 0;
        while p < r.len() && r[p].created_ts >= x.created_ts
            invariant
                p <= r@.len(),
                forall|k: int| 0 <= k < p ==> r@[k].created_ts >= x.created_ts,
            decreases r@.len() - p,
        {
            p = p + 1;
        }
        let ghost old_r = r@;
        r.insert(p, x);
        proof {
            assert forall|k: int| p <= k < old_r.len() implies old_r[k].created_ts < x.created_ts by {
                assert(old_r[k].created_ts <= old_r[p as int].created_ts);
            }
            old_r.insert_ensures(p as int, x);
            assert forall|a: int, b: int| 0 <= a < b < r@.len() implies r@[a].created_ts
                >= r@[b].created_ts by {
                if b < p {
                } else if b == p {
                } else if a < p {
                    assert(r@[b] == old_r[b - 1]);
                } else if a == p {
                    assert(r@[b] == old_r[b - 1]);
                } else {
                    assert(r@[a] == old_r[a - 1]);
                    assert(r@[b] == old_r[b - 1]);
                }
            }
            assert(v@.take(i + 1) =~= v@.take(i as int).push(x));
            lemma_insert_multiset(old_r, p as int, x);
            v@.take(i as int).to_multiset_ensures();
            assert forall|t: u64| #[trigger] created_at(r@, t) == created_at(v@.take(i + 1), t) by {
                lemma_created_at_insert(old_r, p as int, x, t);
                lemma_created_at_push(v@.take(i as int), x, t);
            }
        }
        i = i + 1;
    }
    assert(v@.take(v@.len() as int) =~= v@);
    r
}

/// The entries that are comments, not placeholders for more of them (kind `more`), created at
/// or after `until_sec` (0 keeps every time).
pub open spec fn comments_since<'a>(s: Seq<FlatComment<'a>>, until_sec: u64) -> Seq<FlatComment<'a>> {
    s.filter(|f: FlatComment<'a>| f.kind@ != "more"@ && f.created_ts >= until_sec)
}

/// Without a time bound (0) every entry but the `more` placeholders is kept.
pub proof fn lemma_no_bound_keeps_every_comment<'a>(s: Seq<FlatComment<'a>>)
    ensures
        comments_since(s, 0) == s.filter(|f: FlatComment<'a>| f.kind@ != "more"@),
    decreases s.len(),
{
    reveal(Seq::filter);
    if s.len() > 0 {
        lemma_no_bound_keeps_every_comment(s.drop_last());
    }
}

/// Keeps, in order, the entries that are comments created at or after `until_sec`.
pub fn keep_comments_since<'a>(v: &Vec<FlatComment<'a>>, until_sec: u64) -> (r: Vec<FlatComment<'a>>)
    ensures
        r@ == comments_since(v@, until_sec),
{
    let mut r: Vec<FlatComment<'a>> = Vec::new();
    let mut i: usize = 0;
    proof {
        reveal(Seq::filter);
        assert(v@.take(0) =~= Seq::<FlatComment<'a>>::empty());
    }
    while i < v.len()
        invariant
            i <= v@.len(),
            r@ == comments_since(v@.take(i as int), until_sec),
        decreases v@.len() - i,
    {
        let x = v[i];
        if !str_eq(x.kind, "more") && x.created_ts >= until_sec {
            r.push(x);
        }
        proof {
            reveal(Seq::filter);
            assert(v@.take(i + 1).drop_last() =~= v@.take(i as int));
        }
        i = i + 1;
    }
    assert(v@.take(v@.len() as int) =~= v@);
    r
}

/// The entries of a thread, at every depth, newest first.
pub fn newest_first_comments<'a>(comments: &'a Vec<Comment>) -> (r: Vec<FlatComment<'a>>)
    ensures
        exists|f: Seq<FlatComment<'a>>| lists_comments(f, preorder(comments@)) && sorted_newest_first(r@, f),
{
    let flat = flatten_comments(comments);
    sort_newest_first(&flat)
}

/// The entries of a thread that are comments, not `more` placeholders, created at or after
/// `until_sec` (0 for any time), newest first.
pub fn newest_first_comments_since<'a>(comments: &'a Vec<Comment>, until_sec: u64) -> (r: Vec<FlatComment<'a>>)
    ensures
        exists|f: Seq<FlatComment<'a>>|
            lists_comments(f, preorder(comments@)) && sorted_newest_first(r@, comments_since(f, until_sec)),
{
    let flat = flatten_comments(comments);
    let kept = keep_comments_since(&flat, until_sec);
    sort_newest_first(&kept)
}

/// Index of the first entry with id `id`, or the length when there is none.
pub open spec fn id_index(s: Seq<FlatComment>, id: Seq<char>) -> int
    decreases s.len(),
{
    if s.len() == 0 {
        0
    } else if s[0].id@ == id {
        0
    } else {
        1 + id_index(s.skip(1), id)
    }
}

/// Where a page starts: just after the first entry with the id `after`; at the start when
/// there is no `after` or no such entry.
pub open spec fn page_start(s: Seq<FlatComment>, after: Option<Seq<char>>) -> int {
    match after {
        Some(a) => if id_index(s, a) < s.len() {
            id_index(s, a) + 1
        } else {
            0
        },
        None => 0,
    }
}

/// Where a page of at most `limit` entries from `start` ends.
pub open spec fn page_end(start: int, limit: int, len: int) -> int {
    if start + limit >= len {
        len
    } else {
        start + limit
    }
}

/// No two entries have the same id.
pub open spec fn distinct_ids(s: Seq<FlatComment>) -> bool {
    forall|i: int, j: int| 0 <= i < j < s.len() ==> s[i].id@ != s[j].id@
}

proof fn lemma_id_index_at(s: Seq<FlatComment>, id: Seq<char>, k: int)
    requires
        0 <= k <= s.len(),
        k < s.len() ==> s[k].id@ == id,
        forall|j: int| 0 <= j < k ==> s[j].id@ != id,
    ensures
        id_index(s, id) == k,
    decreases k,
{
    if k > 0 {
        lemma_id_index_at(s.skip(1), id, k - 1);
    }
}

fn position_of_id<'a>(s: &[FlatComment<'a>], id: &str) -> (r: usize)
    ensures
        r == id_index(s@, id@),
        r <= s@.len(),
{
    let mut i: usize = 0;
    while i < s.len()
        invariant
            i <= s@.len(),
            forall|j: int| 0 <= j < i ==> s@[j].id@ != id@,
        decreases s@.len() - i,
    {
        if str_eq(s[i].id, id) {
            proof {
                lemma_id_index_at(s@, id@, i as int);
            }
            return i;
        }
        i = i + 1;
    }
    proof {
        lemma_id_index_at(s@, id@, i as int);
    }
    i
}

fn start_of_page<'a>(s: &[FlatComment<'a>], after: Option<&str>) -> (r: usize)
    ensures
        r == page_start(s@, str_opt(after)),
        r <= s@.len(),
{
    match after {
        Some(a) => {
            let k = position_of_id(s, a);
            if k < s.len() {
                k + 1
            } else {
                0
            }
        },
        None => 0,
    }
}

/// A page of at most `limit` entries, starting just after the entry with id `after` (at the
/// start when it is absent or unknown); the page's `after` is the id of its last entry when
/// entries remain beyond it.
pub fn paginate_comments<'a>(items: &'a Vec<FlatComment<'a>>, after: Option<&str>, limit: usize) -> (page: PaginatedComments<'a>)
    ensures
        ({
            let start = page_start(items@, str_opt(after));
            let end = page_end(start, limit as int, items@.len() as int);
            &&& 0 <= start <= end <= items@.len()
            &&& page.items@ == items@.subrange(start, end)
            &&& page.items@.len() <= limit
            &&& page.after == if start < end < items@.len() {
                Some(items@[end - 1].id)
            } else {
                None
            }
        }),
{
    let s = items.as_slice();
    let start = start_of_page(s, after);
    let end = if limit >= s.len() - start {
        s.len()
    } else {
        start + limit
    };
    let page_items = &s[start..end];
    let last = if start < end && end < s.len() {
        Some(s[end - 1].id)
    } else {
        None
    };
    PaginatedComments { items: page_items, after: last }
}

/// A page of the entries after the one with id `after` (from the start when it is absent or
/// unknown): at most `limit` of them, or all when `limit` is 0. Its `after` is the id of its
/// last entry when entries remain beyond it.
pub fn paginate_fetched_comments<'a>(items: &'a Vec<FlatComment<'a>>, after: Option<&str>, limit: usize) -> (page: PaginatedComments<'a>)
    ensures
        ({
            let start = page_start(items@, str_opt(after));
            let end = if limit == 0 {
                items@.len() as int
            } else {
                page_end(start, limit as int, items@.len() as int)
            };
            &&& 0 <= start <= end <= items@.len()
            &&& page.items@ == items@.subrange(start, end)
            &&& (limit != 0 ==> page.items@.len() <= limit)
            &&& page.after == if end < items@.len() {
                Some(items@[end - 1].id)
            } else {
                None
            }
        }),
{
    let s = items.as_slice();
    let start = start_of_page(s, after);
    let end = if limit == 0 || limit >= s.len() - start {
        s.len()
    } else {
        start + limit
    };
    let page_items = &s[start..end];
    let last = if end < s.len() {
        Some(s[end - 1].id)
    } else {
        None
    };
    PaginatedComments { items: page_items, after: last }
}

/// Paging on: when no two entries share an id, asking for the page after the entry at `k` (the
/// last entry of a page) starts at the entry right after it.
pub proof fn lemma_next_page_follows(items: Seq<FlatComment>, k: int)
    requires
        distinct_ids(items),
        0 <= k < items.len(),
    ensures
        page_start(items, Some(items[k].id@)) == k + 1,
{
    lemma_id_index_at(items, items[k].id@, k);
}

} // verus!
