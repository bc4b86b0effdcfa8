//! The thread page: its Reddit path, the comment sort, and searching its comments.
use vstd::prelude::*;
use crate::model::Comment;
use crate::query::{form_urlencoded_pairs, find_last_value, last_value, lemma_last_value_exists, pairs_view, parse_form};
use crate::text::{push_str, replace_all, replaced, str_eq, string_opt, trim_end_matches, trimmed_end};
use crate::thread::{
    built_from, built_tree, parents_named, parse_comments, query_comments, search_hits, CommentContext,
    RawComment,
};

verus! {

/// The Reddit path of a thread page: the page's path with `.json`, its query, and raw JSON.
pub open spec fn thread_json_path_of(path: Seq<char>, query: Seq<char>) -> Seq<char> {
    path + ".json?"@ + query + "&raw_json=1"@
}

/// The Reddit path of a thread page.
pub fn thread_json_path(path: &str, query: &str) -> (r: String)
    ensures
        r@ == thread_json_path_of(path@, query@),
{
    let mut r = String::new();
    push_str(&mut r, path);
    push_str(&mut r, ".json?");
    push_str(&mut r, query);
    push_str(&mut r, "&raw_json=1");
    assert(r@ =~= thread_json_path_of(path@, query@));
    r
}

/// The comment sort of a thread page and the Reddit path to fetch: the page's own `sort`
/// parameter if it has one; else the user's default sort, which is then added to the path;
/// else no sort.
pub fn resolve_comment_sort(sort_param: Option<String>, default_sort: String, path: &str, query: &str) -> (r: (
    String,
    String,
))
    ensures
        match sort_param {
            Some(s) => r.0 == s && r.1@ == thread_json_path_of(path@, query@),
            None => if default_sort@.len() == 0 {
                r.0@.len() == 0 && r.1@ == thread_json_path_of(path@, query@)
            } else {
                r.0 == default_sort && r.1@ == path@ + ".json?"@ + query@ + "&sort="@ + default_sort@
                    + "&raw_json=1"@
            },
        },
{
    match sort_param {
        Some(s) => (s, thread_json_path(path, query)),
        None => {
            if default_sort.as_str().is_empty() {
                (String::new(), thread_json_path(path, query))
            } else {
                let mut r = String::new();
                push_str(&mut r, path);
                push_str(&mut r, ".json?");
                push_str(&mut r, query);
                push_str(&mut r, "&sort=");
                push_str(&mut r, default_sort.as_str());
                push_str(&mut r, "&raw_json=1");
                assert(r@ =~= path@ + ".json?"@ + query@ + "&sort="@ + default_sort@ + "&raw_json=1"@);
                (default_sort, r)
            }
        },
    }
}

/// The first group that the regular expression `pattern` captures in `text`, as the `regex`
/// crate finds it; none when the pattern does not compile or does not match.
pub uninterp spec fn regex_first_group(pattern: Seq<char>, text: Seq<char>) -> Option<Seq<char>>;

/// `regex::Regex::new(pattern)` then `captures(text)` and group 1. The result is named
/// `regex_first_group` of the pattern and the text; nothing more is claimed of it.
#[verifier::external_body]
pub(crate) fn capture_first_group(pattern: &str, text: &str) -> (r: Option<String>)
    ensures
        string_opt(r) == regex_first_group(pattern@, text@),
{
    let re = match regex::Regex::new(pattern) {
        Ok(re) => re,
        Err(_) => return None,
    };
    match re.captures(text) {
        Some(caps) => match caps.get(1) {
            Some(m) => Some(m.as_str().to_string()),
            None => None,
        },
        None => None,
    }
}

/// The pattern that finds a comment search in a thread page's URL.
pub open spec fn search_pattern() -> Seq<char> {
    "\\?q=(.*)&type=comment"@
}

/// The form that a comment search is read back from: `q=`, the captured search with `%20`
/// and `+` read as spaces, then `&type=comment`.
pub open spec fn search_form_of(capture: Option<Seq<char>>) -> Seq<char> {
    "q="@ + (match capture {
        Some(c) => replaced(replaced(c, "%20"@, " "@), "+"@, " "@),
        None => Seq::empty(),
    }) + "&type=comment"@
}

/// The form that a comment search is read back from.
pub fn search_form(capture: Option<String>) -> (r: String)
    ensures
        r@ == search_form_of(string_opt(capture)),
{
    let mut r = String::new();
    push_str(&mut r, "q=");
    let ghost head = r@;
    if let Some(c) = capture {
        let spaced = replace_all(c.as_str(), "%20", " ");
        let body = replace_all(spaced.as_str(), "+", " ");
        push_str(&mut r, body.as_str());
    }
    push_str(&mut r, "&type=comment");
    assert(r@ =~= search_form_of(string_opt(capture)));
    r
}

/// The comment search of a thread page whose URL is `url`: the last `q` value of the search
/// form (empty when the URL holds no search).
pub fn comment_search_query(url: &str) -> (q: String)
    ensures
        Some(q@) == last_value(
            form_urlencoded_pairs(search_form_of(regex_first_group(search_pattern(), url@))),
            "q"@,
        ),
{
    let capture = capture_first_group("\\?q=(.*)&type=comment", url);
    let form = search_form(capture);
    proof {
        reveal_strlit("q=");
        reveal_strlit("q");
        assert(form@[0] == 'q' && form@[1] == '=');
    }
    let pairs = parse_form(form.as_str());
    proof {
        assert("q"@ =~= seq!['q']);
        assert(pairs_view(pairs@)[0].0 == pairs@[0].0@);
        lemma_last_value_exists(pairs_view(pairs@), "q"@);
    }
    match find_last_value(&pairs, "q") {
        Some(v) => v,
        None => String::new(),
    }
}

/// The page URL without its comment search: trailing copies of `?q=<query>&type=comment`
/// removed.
pub fn url_without_query(url: &str, query: &str) -> (r: String)
    ensures
        r@ == trimmed_end(url@, "?q="@ + query@ + "&type=comment"@),
{
    let mut suffix = String::new();
    push_str(&mut suffix, "?q=");
    push_str(&mut suffix, query);
    push_str(&mut suffix, "&type=comment");
    assert(suffix@ =~= "?q="@ + query@ + "&type=comment"@);
    trim_end_matches(url, suffix.as_str())
}

/// The comments a thread page shows: the whole tree without a search, else the comments at any
/// depth that match it.
pub fn thread_comments(raws: Vec<RawComment>, ctx: &CommentContext, query: &str) -> (out: Vec<Comment>)
    requires
        parents_named(raws@),
    ensures
        query@.len() == 0 ==> {
            &&& out@.len() == raws@.len()
            &&& forall|i: int| 0 <= i < raws@.len() ==> built_tree(#[trigger] out@[i], raws@[i], *ctx)
        },
        query@.len() > 0 ==> {
            &&& out@.len() == search_hits(raws@, *ctx, query@).len()
            &&& forall|i: int| 0 <= i < out@.len() ==> {
                &&& built_from(#[trigger] out@[i], search_hits(raws@, *ctx, query@)[i], *ctx)
                &&& out@[i].replies@.len() == 0
            }
        },
{
    if query.is_empty() {
        parse_comments(raws, ctx)
    } else {
        query_comments(raws, ctx, query)
    }
}

/// Whether a failed fetch of a thread is answered with the quarantine page: Reddit called the
/// community quarantined or gated.
pub fn shows_quarantine_page(msg: &str) -> (r: bool)
    ensures
        r == (msg@ == "quarantined"@ || msg@ == "gated"@),
{
    str_eq(msg, "quarantined") || str_eq(msg, "gated")
}

/// The Reddit path that fetches a thread with as many of its comments as one request gives.
pub fn comments_json_path(post_id: &str) -> (r: String)
    ensures
        r@ == "/comments/"@ + post_id@ + ".json?depth=100&limit=500&raw_json=1"@,
{
    let mut r = String::new();
    push_str(&mut r, "/comments/");
    push_str(&mut r, post_id);
    push_str(&mut r, ".json?depth=100&limit=500&raw_json=1");
    assert(r@ =~= "/comments/"@ + post_id@ + ".json?depth=100&limit=500&raw_json=1"@);
    r
}

} // verus!
