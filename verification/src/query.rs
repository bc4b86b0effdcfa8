//! Reading the parameters of an API request from its query string.
use vstd::prelude::*;
use crate::number::{digit_value, digits_value, parse_unsigned, parsed_unsigned, unsigned_digits};
use crate::text::{str_eq, string_opt};

verus! {

/// The (name, value) pairs that `application/x-www-form-urlencoded` parsing reads from a
/// text, as `url::form_urlencoded::parse` reads them.
pub uninterp spec fn form_urlencoded_pairs(input: Seq<char>) -> Seq<(Seq<char>, Seq<char>)>;

/// The views of string pairs.
pub open spec fn pairs_view(pairs: Seq<(String, String)>) -> Seq<(Seq<char>, Seq<char>)> {
    pairs.map_values(|p: (String, String)| (p.0@, p.1@))
}

/// `url::form_urlencoded::parse` on the bytes of `input`, each pair made owned. The result is
/// named `form_urlencoded_pairs` of the input: the crate splits the input at `&`, skips empty
/// pieces, splits each at its first `=`, reads `+` as a space and decodes `%` escapes. The one
/// fact stated besides the name: an input that begins with `q=` yields first a pair named `q`
/// (its first piece is not empty and its name decodes to itself).
#[verifier::external_body]
pub(crate) fn parse_form(input: &str) -> (r: Vec<(String, String)>)
    ensures
        pairs_view(r@) == form_urlencoded_pairs(input@),
        (input@.len() >= 2 && input@[0] == 'q' && input@[1] == '=') ==> (r@.len() > 0
            && r@[0].0@ == seq!['q']),
{
    url::form_urlencoded::parse(input.as_bytes()).into_owned().collect()
}

/// The value of the first pair named `key`.
pub open spec fn first_value(pairs: Seq<(Seq<char>, Seq<char>)>, key: Seq<char>) -> Option<Seq<char>>
    decreases pairs.len(),
{
    if pairs.len() == 0 {
        None
    } else if pairs[0].0 == key {
        Some(pairs[0].1)
    } else {
        first_value(pairs.skip(1), key)
    }
}

/// The value of the last pair named `key` (what a map collected from the pairs holds).
pub open spec fn last_value(pairs: Seq<(Seq<char>, Seq<char>)>, key: Seq<char>) -> Option<Seq<char>>
    decreases pairs.len(),
{
    if pairs.len() == 0 {
        None
    } else if pairs.last().0 == key {
        Some(pairs.last().1)
    } else {
        last_value(pairs.drop_last(), key)
    }
}

/// The value of the first pair named `key`.
pub fn find_first_value(pairs: &Vec<(String, String)>, key: &str) -> (r: Option<String>)
    ensures
        string_opt(r) == first_value(pairs_view(pairs@), key@),
{
    let ghost ps = pairs_view(pairs@);
    let mut i: usize = 0;
    assert(ps.skip(0) =~= ps);
    while i < pairs.len()
        invariant
            ps == pairs_view(pairs@),
            i <= pairs@.len(),
            first_value(ps.skip(i as int), key@) == first_value(ps, key@),
        decreases pairs@.len() - i,
    {
        let ghost rest = ps.skip(i as int);
        assert(rest[0] == (pairs@[i as int].0@, pairs@[i as int].1@));
        if str_eq(pairs[i].0.as_str(), key) {
            return Some(pairs[i].1.clone());
        }
        assert(rest.skip(1) =~= ps.skip(i + 1));
        i = i + 1;
    }
    None
}

/// The value of the last pair named `key`.
pub fn find_last_value(pairs: &Vec<(String, String)>, key: &str) -> (r: Option<String>)
    ensures
        string_opt(r) == last_value(pairs_view(pairs@), key@),
{
    let ghost ps = pairs_view(pairs@);
    let mut i: usize = pairs.len();
    assert(ps.take(ps.len() as int) =~= ps);
    while i > 0
        invariant
            ps == pairs_view(pairs@),
            i <= pairs@.len(),
            last_value(ps.take(i as int), key@) == last_value(ps, key@),
        decreases i,
    {
        let ghost front = ps.take(i as int);
        assert(front.last() == (pairs@[i - 1].0@, pairs@[i - 1].1@));
        if str_eq(pairs[i - 1].0.as_str(), key) {
            return Some(pairs[i - 1].1.clone());
        }
        assert(front.drop_last() =~= ps.take(i - 1));
        i = i - 1;
    }
    None
}

/// When the first pair is named `key`, some pair named `key` is last among them.
pub proof fn lemma_last_value_exists(pairs: Seq<(Seq<char>, Seq<char>)>, key: Seq<char>)
    requires
        pairs.len() > 0,
        pairs[0].0 == key,
    ensures
        last_value(pairs, key) is Some,
    decreases pairs.len(),
{
    if pairs.len() > 1 && pairs.last().0 != key {
        lemma_last_value_exists(pairs.drop_last(), key);
    }
}

/// The limit asked for: the first `limit` parameter read as a count, else 25.
pub open spec fn limit_param(pairs: Seq<(Seq<char>, Seq<char>)>) -> nat {
    match first_value(pairs, "limit"@) {
        Some(v) => match parsed_unsigned(v, usize::MAX as nat) {
            Some(n) => n,
            None => 25,
        },
        None => 25,
    }
}

/// The time bound asked for: the first `until` parameter read as a timestamp.
pub open spec fn until_param(pairs: Seq<(Seq<char>, Seq<char>)>) -> Option<nat> {
    match first_value(pairs, "until"@) {
        Some(v) => parsed_unsigned(v, u64::MAX as nat),
        None => None,
    }
}

/// The parameters of a request for a thread's comments.
pub struct CommentsQuery {
    pub limit: usize,
    pub after: Option<String>,
    pub until: Option<u64>,
}

/// The parameters of a request for a user's posts.
pub struct UserPostsQuery {
    pub listing: String,
    pub limit: usize,
    pub after: Option<String>,
    pub sort: Option<String>,
    pub until: Option<u64>,
}

/// The view of an optional count.
pub open spec fn opt_nat(n: Option<u64>) -> Option<nat> {
    match n {
        Some(x) => Some(x as nat),
        None => None,
    }
}

fn read_limit(pairs: &Vec<(String, String)>) -> (r: usize)
    ensures
        r as nat == limit_param(pairs_view(pairs@)),
{
    match find_first_value(pairs, "limit") {
        Some(v) => match parse_unsigned(v.as_str(), usize::MAX as u64) {
            Some(n) => n as usize,
            None => 25,
        },
        None => 25,
    }
}

fn read_until(pairs: &Vec<(String, String)>) -> (r: Option<u64>)
    ensures
        opt_nat(r) == until_param(pairs_view(pairs@)),
{
    match find_first_value(pairs, "until") {
        Some(v) => parse_unsigned(v.as_str(), u64::MAX),
        None => None,
    }
}

proof fn lemma_first_value_at(pairs: Seq<(Seq<char>, Seq<char>)>, key: Seq<char>, k: int)
    requires
        0 <= k < pairs.len(),
        pairs[k].0 == key,
        forall|j: int| 0 <= j < k ==> pairs[j].0 != key,
    ensures
        first_value(pairs, key) == Some(pairs[k].1),
    decreases k,
{
    if k > 0 {
        lemma_first_value_at(pairs.skip(1), key, k - 1);
    }
}

proof fn lemma_first_value_update_other(
    pairs: Seq<(Seq<char>, Seq<char>)>,
    key: Seq<char>,
    k: int,
    pair: (Seq<char>, Seq<char>),
)
    requires
        0 <= k < pairs.len(),
        pairs[k].0 != key,
        pair.0 != key,
    ensures
        first_value(pairs.update(k, pair), key) == first_value(pairs, key),
    decreases k,
{
    let fixed = pairs.update(k, pair);
    if k > 0 {
        lemma_first_value_update_other(pairs.skip(1), key, k - 1, pair);
        assert(fixed.skip(1) =~= pairs.skip(1).update(k - 1, pair));
        assert(fixed[0] == pairs[0]);
    } else {
        assert(fixed.skip(1) =~= pairs.skip(1));
    }
}

/// An unreadable limit counts as the default: when the first `limit` value does not read as a
/// count, the request asks for 25, just as it would with `limit=25` in that place, and no other
/// parameter changes.
pub proof fn lemma_unreadable_limit_is_default(pairs: Seq<(Seq<char>, Seq<char>)>, k: int)
    requires
        0 <= k < pairs.len(),
        pairs[k].0 == "limit"@,
        forall|j: int| 0 <= j < k ==> pairs[j].0 != "limit"@,
        parsed_unsigned(pairs[k].1, usize::MAX as nat) is None,
    ensures
        ({
            let fixed = pairs.update(k, ("limit"@, "25"@));
            &&& limit_param(pairs) == 25
            &&& limit_param(fixed) == 25
            &&& until_param(fixed) == until_param(pairs)
            &&& first_value(fixed, "after"@) == first_value(pairs, "after"@)
            &&& first_value(fixed, "sort"@) == first_value(pairs, "sort"@)
            &&& listing_param(fixed) == listing_param(pairs)
        }),
{
    let fixed = pairs.update(k, ("limit"@, "25"@));
    lemma_first_value_at(pairs, "limit"@, k);
    lemma_first_value_at(fixed, "limit"@, k);
    reveal_strlit("25");
    reveal_strlit("limit");
    reveal_strlit("until");
    reveal_strlit("after");
    reveal_strlit("sort");
    reveal_strlit("where");
    let d = unsigned_digits("25"@);
    assert(d =~= seq!['2', '5']);
    assert(d.drop_last() =~= seq!['2']);
    assert(d.drop_last().drop_last() =~= Seq::<char>::empty());
    assert(digit_value('2') == 2);
    assert(digit_value('5') == 5);
    assert(digits_value(d.drop_last().drop_last()) == 0);
    assert(digits_value(d.drop_last()) == 2);
    assert(digits_value(d) == 25);
    assert("limit"@[0] != "until"@[0]);
    assert("limit"@[0] != "after"@[0]);
    assert("limit"@[0] != "sort"@[0]);
    assert("limit"@[0] != "where"@[0]);
    lemma_first_value_update_other(pairs, "until"@, k, ("limit"@, "25"@));
    lemma_first_value_update_other(pairs, "after"@, k, ("limit"@, "25"@));
    lemma_first_value_update_other(pairs, "sort"@, k, ("limit"@, "25"@));
    lemma_first_value_update_other(pairs, "where"@, k, ("limit"@, "25"@));
}

/// The parameters of a comments request, from the pairs of its query string.
pub fn comments_query_from_pairs(pairs: &Vec<(String, String)>) -> (q: CommentsQuery)
    ensures
        q.limit as nat == limit_param(pairs_view(pairs@)),
        string_opt(q.after) == first_value(pairs_view(pairs@), "after"@),
        opt_nat(q.until) == until_param(pairs_view(pairs@)),
{
    CommentsQuery { limit: read_limit(pairs), after: find_first_value(pairs, "after"), until: read_until(pairs) }
}

/// The listing asked for: the first `where` parameter, else `overview`.
pub open spec fn listing_param(pairs: Seq<(Seq<char>, Seq<char>)>) -> Seq<char> {
    match first_value(pairs, "where"@) {
        Some(v) => v,
        None => "overview"@,
    }
}

/// The parameters of a user-posts request, from the pairs of its query string.
pub fn user_posts_query_from_pairs(pairs: &Vec<(String, String)>) -> (q: UserPostsQuery)
    ensures
        q.listing@ == listing_param(pairs_view(pairs@)),
        q.limit as nat == limit_param(pairs_view(pairs@)),
        string_opt(q.after) == first_value(pairs_view(pairs@), "after"@),
        string_opt(q.sort) == first_value(pairs_view(pairs@), "sort"@),
        opt_nat(q.until) == until_param(pairs_view(pairs@)),
{
    let listing = match find_first_value(pairs, "where") {
        Some(v) => v,
        None => "overview".to_owned(),
    };
    UserPostsQuery {
        listing,
        limit: read_limit(pairs),
        after: find_first_value(pairs, "after"),
        sort: find_first_value(pairs, "sort"),
        until: read_until(pairs),
    }
}

/// The pairs of an optional query string: none when there is no query.
pub open spec fn query_pairs_of(query: Option<&str>) -> Seq<(Seq<char>, Seq<char>)> {
    match query {
        Some(q) => form_urlencoded_pairs(q@),
        None => Seq::empty(),
    }
}

fn query_pairs(query: Option<&str>) -> (r: Vec<(String, String)>)
    ensures
        pairs_view(r@) == query_pairs_of(query),
{
    match query {
        Some(q) => parse_form(q),
        None => {
            let r: Vec<(String, String)> = Vec::new();
            assert(pairs_view(r@) =~= Seq::<(Seq<char>, Seq<char>)>::empty());
            r
        },
    }
}

/// The parameters of a comments request with the query string `query`.
pub fn comments_query(query: Option<&str>) -> (q: CommentsQuery)
    ensures
        q.limit as nat == limit_param(query_pairs_of(query)),
        string_opt(q.after) == first_value(query_pairs_of(query), "after"@),
        opt_nat(q.until) == until_param(query_pairs_of(query)),
{
    let pairs = query_pairs(query);
    comments_query_from_pairs(&pairs)
}

/// The parameters of a user-posts request with the query string `query`.
pub fn user_posts_query(query: Option<&str>) -> (q: UserPostsQuery)
    ensures
        q.listing@ == listing_param(query_pairs_of(query)),
        q.limit as nat == limit_param(query_pairs_of(query)),
        string_opt(q.after) == first_value(query_pairs_of(query), "after"@),
        string_opt(q.sort) == first_value(query_pairs_of(query), "sort"@),
        opt_nat(q.until) == until_param(query_pairs_of(query)),
{
    let pairs = query_pairs(query);
    user_posts_query_from_pairs(&pairs)
}

} // verus!
