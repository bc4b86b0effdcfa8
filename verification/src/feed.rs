//! The RSS feed of a user's posts: what each entry shows.
use vstd::prelude::*;
use crate::model::Post;
use crate::text::string_opt;

verus! {

/// What an entry of the feed shows of a post; the link and the rewriting of the body's links
/// are added by the server.
pub struct FeedEntry {
    pub title: String,
    pub author: String,
    /// The post's time, written as RFC 2822.
    pub pub_date: String,
    /// The post's body with its HTML entities decoded.
    pub content: String,
}

/// What `htmlescape::decode_html` gives for a text: the text with its HTML entities decoded,
/// or none when an entity is malformed.
pub uninterp spec fn html_decoded(s: Seq<char>) -> Option<Seq<char>>;

/// What `chrono` writes as RFC 2822 for a Unix time in seconds that it holds as a date: the
/// time as a UTC date.
pub uninterp spec fn rfc2822_date(secs: i64) -> Seq<char>;

/// The Unix times in seconds that chrono holds as a date: from its first date (year -262143)
/// to the end of its last (year 262142).
pub open spec fn chrono_range(secs: i64) -> bool {
    -8334601228800 <= secs && secs <= 8210266876799
}

/// The times that chrono can hold as a date but not write as RFC 2822: years after 9999 up to
/// the end of 262142, and the years from chrono's first date up to before year 0.
pub open spec fn rfc2822_unwritable(secs: i64) -> bool {
    (253402300800 <= secs && secs <= 8210266876799) || (-8334601228800 <= secs && secs < -62167219200)
}

/// `htmlescape::decode_html`, its error read as none. The result is named `html_decoded` of
/// the text; nothing more is claimed of it.
#[verifier::external_body]
pub(crate) fn decode_html(s: &str) -> (r: Option<String>)
    ensures
        string_opt(r) == html_decoded(s@),
{
    match htmlescape::decode_html(s) {
        Ok(d) => Some(d),
        Err(_) => None,
    }
}

/// Whether `chrono::DateTime::from_timestamp(secs, 0)` gives a date: it does exactly for the
/// times of `chrono_range`, the span between chrono's `MIN_UTC` and `MAX_UTC`.
#[verifier::external_body]
fn chrono_holds(secs: i64) -> (r: bool)
    ensures
        r == chrono_range(secs),
{
    chrono::DateTime::from_timestamp(secs, 0).is_some()
}

/// `chrono::DateTime::from_timestamp(secs, 0)` written by `to_rfc2822`, none where chrono gives
/// no date. The writing panics on the times of `rfc2822_unwritable`, which are left out. For
/// the times of `chrono_range` the result is some text, named `rfc2822_date` of the time;
/// nothing more is claimed of it.
#[verifier::external_body]
fn rfc2822_of(secs: i64) -> (r: Option<String>)
    requires
        !rfc2822_unwritable(secs),
    ensures
        r is Some <==> chrono_range(secs),
        r matches Some(s) ==> s@ == rfc2822_date(secs),
{
    match chrono::DateTime::from_timestamp(secs, 0) {
        Some(d) => Some(d.to_rfc2822()),
        None => None,
    }
}

/// The time of a post as the feed passes it to chrono.
pub open spec fn feed_seconds(p: Post) -> i64 {
    p.created_ts as i64
}

/// Whether a post's time can be written in the feed.
pub fn feed_date_writable(created_ts: u64) -> (r: bool)
    ensures
        r == !rfc2822_unwritable(created_ts as i64),
{
    let secs = created_ts as i64;
    !((253402300800 <= secs && secs <= 8210266876799) || (-8334601228800 <= secs && secs < -62167219200))
}

/// The time that the feed writes for a post: its own where chrono holds it as a date, else
/// the Unix epoch (chrono's default date).
pub open spec fn feed_date_seconds(p: Post) -> i64 {
    if chrono_range(feed_seconds(p)) {
        feed_seconds(p)
    } else {
        0
    }
}

/// `e` shows the post `p` in the feed.
pub open spec fn feed_entry_of(e: FeedEntry, p: Post) -> bool {
    &&& e.title@ == p.title@
    &&& e.author@ == p.author.name@
    &&& e.pub_date@ == rfc2822_date(feed_date_seconds(p))
    &&& html_decoded(p.body@) == Some(e.content@)
}

/// The feed entries of posts, in order; none when the HTML of a post's body does not decode.
/// A post's time that chrono cannot hold as a date is written as the Unix epoch.
pub fn feed_entries(posts: &Vec<Post>) -> (r: Option<Vec<FeedEntry>>)
    requires
        forall|i: int| 0 <= i < posts@.len() ==> !rfc2822_unwritable(feed_seconds(#[trigger] posts@[i])),
    ensures
        r is None <==> exists|i: int| 0 <= i < posts@.len() && html_decoded(#[trigger] posts@[i].body@) is None,
        r matches Some(es) ==> es@.len() == posts@.len() && forall|i: int|
            0 <= i < posts@.len() ==> feed_entry_of(#[trigger] es@[i], posts@[i]),
{
    let mut es: Vec<FeedEntry> = Vec::new();
    let mut i: usize = 0;
    while i < posts.len()
        invariant
            i <= posts@.len(),
            es@.len() == i,
            forall|k: int| 0 <= k < posts@.len() ==> !rfc2822_unwritable(feed_seconds(#[trigger] posts@[k])),
            forall|k: int| 0 <= k < i ==> feed_entry_of(#[trigger] es@[k], posts@[k]),
        decreases posts@.len() - i,
    {
        let p = &posts[i];
        let content = match decode_html(p.body.as_str()) {
            Some(c) => c,
            None => {
                assert(html_decoded(posts@[i as int].body@) is None);
                return None;
            },
        };
        let secs = p.created_ts as i64;
        let shown: i64 = if chrono_holds(secs) { secs } else { 0 };
        assert(shown == feed_date_seconds(posts@[i as int]));
        let pub_date = match rfc2822_of(shown) {
            Some(d) => d,
            None => {
                assert(false);
                String::new()
            },
        };
        es.push(FeedEntry { title: p.title.clone(), author: p.author.name.clone(), pub_date, content });
        i = i + 1;
    }
    assert forall|k: int| 0 <= k < posts@.len() implies html_decoded(#[trigger] posts@[k].body@) is Some by {
        assert(feed_entry_of(es@[k], posts@[k]));
    }
    Some(es)
}

} // verus!
