use chrono::Datelike;
use redlib::feed::{feed_date_writable, feed_entries};
use redlib::model::{Author, Awards, Flags, Flair, Post};

fn flair() -> Flair {
    Flair { flair_parts: Vec::new(), text: String::new(), background_color: String::new(), foreground_color: String::new() }
}

fn post(id: &str, body: &str, created_ts: u64) -> Post {
    Post {
        id: id.to_string(),
        title: format!("title {}", id),
        community: "rust".to_string(),
        body: body.to_string(),
        author: Author { name: "spez".to_string(), flair: flair(), distinguished: String::new() },
        permalink: format!("/r/rust/comments/{}/", id),
        score: ("5".to_string(), "5".to_string()),
        upvote_ratio: 90,
        post_type: "self".to_string(),
        flair: flair(),
        flags: Flags { spoiler: false, nsfw: false, stickied: false },
        rel_time: String::new(),
        created: String::new(),
        created_ts,
        num_duplicates: 0,
        comments: ("0".to_string(), "0".to_string()),
        awards: Awards { items: Vec::new() },
        nsfw: false,
    }
}

#[test]
fn feed_entries_show_title_author_date_and_decoded_body() {
    let posts = vec![post("a", "fish &amp; chips &lt;b&gt;", 0), post("b", "plain", 1625097600)];
    let es = feed_entries(&posts).unwrap();
    assert_eq!(es.len(), 2);
    assert_eq!(es[0].title, "title a");
    assert_eq!(es[0].author, "spez");
    assert_eq!(es[0].content, "fish & chips <b>");
    assert_eq!(es[0].pub_date, "Thu, 1 Jan 1970 00:00:00 +0000");
    assert_eq!(es[1].content, "plain");
    assert_eq!(es[1].pub_date, chrono::DateTime::from_timestamp(1625097600, 0).unwrap().to_rfc2822());
}

#[test]
fn feed_entries_none_on_bad_entity() {
    let posts = vec![post("a", "ok", 0), post("b", "bad &nosuchentity; here", 0)];
    assert!(feed_entries(&posts).is_none());
}

#[test]
fn feed_date_bounds_match_chrono() {
    for secs in [
        0i64,
        253402300799,
        253402300800,
        8210266876799,
        8210266876800,
        -62167219200,
        -62167219201,
        -8334601228800,
        -8334601228801,
        -8334601315200,
        i64::MAX,
        i64::MIN,
    ] {
        let expected = match chrono::DateTime::from_timestamp(secs, 0) {
            None => true,
            Some(d) => (0..=9999).contains(&d.year()),
        };
        assert_eq!(feed_date_writable(secs as u64), expected, "{}", secs);
    }
}


#[test]
fn feed_entries_write_times_chrono_cannot_hold_as_the_epoch() {
    let epoch = "Thu, 1 Jan 1970 00:00:00 +0000";
    let posts = vec![post("a", "x", 8210266876800), post("b", "y", u64::MAX / 2 + 1), post("c", "z", 253402300799)];
    let es = feed_entries(&posts).unwrap();
    assert_eq!(es[0].pub_date, epoch);
    assert_eq!(es[1].pub_date, epoch);
    assert_eq!(es[2].pub_date, "Fri, 31 Dec 9999 23:59:59 +0000");
}
