//! The user page: its Reddit paths, the redirect target, and what its template shows.
use vstd::prelude::*;
use crate::model::Post;
use crate::text::{chars_of, push_str, replace_all, replaced, str_eq, string_opt};

verus! {

/// The Reddit path of a user's listing page, with the page's query.
pub open spec fn user_page_path_of(name: Seq<char>, listing: Seq<char>, query: Seq<char>) -> Seq<char> {
    "/user/"@ + name + "/"@ + listing + ".json?"@ + query + "&raw_json=1"@
}

/// The Reddit path of a user's listing page.
pub fn user_page_path(name: &str, listing: &str, query: &str) -> (r: String)
    ensures
        r@ == user_page_path_of(name@, listing@, query@),
{
    let mut r = String::new();
    push_str(&mut r, "/user/");
    push_str(&mut r, name);
    push_str(&mut r, "/");
    push_str(&mut r, listing);
    push_str(&mut r, ".json?");
    push_str(&mut r, query);
    push_str(&mut r, "&raw_json=1");
    assert(r@ =~= user_page_path_of(name@, listing@, query@));
    r
}

/// The Reddit path of a user's about page.
pub fn user_about_path(name: &str) -> (r: String)
    ensures
        r@ == "/user/"@ + name@ + "/about.json?raw_json=1"@,
{
    let mut r = String::new();
    push_str(&mut r, "/user/");
    push_str(&mut r, name);
    push_str(&mut r, "/about.json?raw_json=1");
    assert(r@ =~= "/user/"@ + name@ + "/about.json?raw_json=1"@);
    r
}

/// The page's path and query without its leading character, with `?` and `&` escaped, for
/// use inside a query parameter.
pub open spec fn redirect_of(url: Seq<char>) -> Seq<char> {
    replaced(replaced(url.skip(1), "?"@, "%3F"@), "&"@, "%26"@)
}

/// The redirect target of a user page.
pub fn redirect_url(url: &str) -> (r: String)
    requires
        url@.len() > 0,
        (url@[0] as u32) < 128,
    ensures
        r@ == redirect_of(url@),
{
    let v = chars_of(url);
    let mut rest = String::new();
    let mut i: usize = 1;
    while i < v.len()
        invariant
            1 <= i <= v@.len(),
            rest@ == v@.subrange(1, i as int),
        decreases v@.len() - i,
    {
        crate::text::push_char(&mut rest, v[i]);
        i = i + 1;
        assert(rest@ =~= v@.subrange(1, i as int));
    }
    assert(rest@ =~= url@.skip(1));
    let escaped = replace_all(rest.as_str(), "?", "%3F");
    replace_all(escaped.as_str(), "&", "%26")
}

/// Whether every post was hidden for being NSFW: there are posts, all flagged NSFW, and the
/// user has not turned on showing NSFW content.
pub open spec fn all_hidden_nsfw(posts: Seq<Post>, show_nsfw: Seq<char>) -> bool {
    &&& posts.len() > 0
    &&& forall|i: int| 0 <= i < posts.len() ==> #[trigger] posts[i].flags.nsfw
    &&& show_nsfw != "on"@
}

/// The flag that every post was hidden as NSFW holds exactly when there is a post, no post is
/// free of the NSFW flag, and showing NSFW content is not turned on: one post that is not
/// NSFW, wherever it stands, clears it.
pub proof fn lemma_one_safe_post_clears_hidden_flag(posts: Seq<Post>, show_nsfw: Seq<char>)
    ensures
        (exists|i: int| 0 <= i < posts.len() && !(#[trigger] posts[i]).flags.nsfw) ==> !all_hidden_nsfw(posts, show_nsfw),
        posts.len() == 0 ==> !all_hidden_nsfw(posts, show_nsfw),
        show_nsfw == "on"@ ==> !all_hidden_nsfw(posts, show_nsfw),
        (posts.len() > 0 && show_nsfw != "on"@ && forall|i: int| 0 <= i < posts.len() ==> (#[trigger] posts[i]).flags.nsfw)
            ==> all_hidden_nsfw(posts, show_nsfw),
{
}

/// Whether every post was hidden for being NSFW.
pub fn all_posts_hidden_nsfw(posts: &Vec<Post>, show_nsfw: &str) -> (r: bool)
    ensures
        r == all_hidden_nsfw(posts@, show_nsfw@),
        (exists|i: int| 0 <= i < posts@.len() && !(#[trigger] posts@[i]).flags.nsfw) ==> !r,
        posts@.len() == 0 ==> !r,
        show_nsfw@ == "on"@ ==> !r,
        (posts@.len() > 0 && show_nsfw@ != "on"@ && forall|i: int| 0 <= i < posts@.len() ==> (#[trigger] posts@[i]).flags.nsfw) ==> r,
{
    if posts.len() == 0 {
        return false;
    }
    let mut i: usize = 0;
    while i < posts.len()
        invariant
            i <= posts@.len(),
            forall|k: int| 0 <= k < i ==> #[trigger] posts@[k].flags.nsfw,
        decreases posts@.len() - i,
    {
        if !posts[i].flags.nsfw {
            return false;
        }
        i = i + 1;
    }
    !str_eq(show_nsfw, "on")
}

/// What the `time` crate writes for a Unix time in seconds, as a UTC date, by a format
/// description (of its first version): the text, or none when the description does not parse
/// or the date cannot be written by it.
pub uninterp spec fn time_formatted(secs: i64, description: Seq<char>) -> Option<Seq<char>>;

/// The Unix times in seconds that the `time` crate holds as a date: from the first moment of
/// year -9999 to the last of year 9999.
pub open spec fn time_range(secs: i64) -> bool {
    -377705116800 <= secs && secs <= 253402300799
}

/// Whether `time::OffsetDateTime::from_unix_timestamp(secs)` gives a date: it does exactly for
/// the times of `time_range`, between `Date::MIN` at midnight and `Date::MAX` at its last second.
#[verifier::external_body]
fn time_holds(secs: i64) -> (r: bool)
    ensures
        r == time_range(secs),
{
    time::OffsetDateTime::from_unix_timestamp(secs).is_ok()
}

/// `time::OffsetDateTime::from_unix_timestamp(secs)` formatted by the description that
/// `time::format_description::parse_borrowed::<1>` reads from `description`; none where
/// either of those fails. The result is named `time_formatted` of the time and the
/// description; nothing more is claimed of it.
#[verifier::external_body]
fn format_time(secs: i64, description: &str) -> (r: Option<String>)
    requires
        time_range(secs),
    ensures
        string_opt(r) == time_formatted(secs, description@),
{
    match (time::OffsetDateTime::from_unix_timestamp(secs), time::format_description::parse_borrowed::<1>(description)) {
        (Ok(t), Ok(items)) => t.format(&items).ok(),
        _ => None,
    }
}

/// How the user page writes the day an account was made: short month, day, and the year's
/// last two digits.
pub open spec fn created_date_description() -> Seq<char> {
    "[month repr:short] [day] '[year repr:last_two]"@
}

/// The time that the user page writes for an account's creation: its own where the `time`
/// crate holds it as a date, else the Unix epoch.
pub open spec fn created_date_seconds(created_unix: i64) -> i64 {
    if time_range(created_unix) {
        created_unix
    } else {
        0
    }
}

/// The account's creation day as the user page writes it; empty where it cannot be written.
pub fn user_created_date(created_unix: i64) -> (r: String)
    ensures
        r@ == match time_formatted(created_date_seconds(created_unix), created_date_description()) {
            Some(s) => s,
            None => Seq::<char>::empty(),
        },
{
    let secs: i64 = if time_holds(created_unix) { created_unix } else { 0 };
    let description = "[month repr:short] [day] '[year repr:last_two]";
    proof {
        reveal_strlit("[month repr:short] [day] '[year repr:last_two]");
    }
    match format_time(secs, description) {
        Some(s) => s,
        None => String::new(),
    }
}

} // verus!
