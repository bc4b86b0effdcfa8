use redlib::model::{Author, Awards, Flags, Flair, Post};
use redlib::post_fetch::{until_seconds, wants_batched_fetch, PostFetch};
use redlib::profile::{all_posts_hidden_nsfw, redirect_url, user_about_path, user_created_date, user_page_path};
use redlib::user_posts::{fetched_posts_page, flatten_posts, listing_path, user_posts_page, user_posts_path, FlatUserPost};

fn flair() -> Flair {
    Flair { flair_parts: Vec::new(), text: String::new(), background_color: String::new(), foreground_color: String::new() }
}

fn post(id: &str, created_ts: u64, nsfw: bool) -> Post {
    Post {
        id: id.to_string(),
        title: format!("title {}", id),
        community: "rust".to_string(),
        body: String::new(),
        author: Author { name: "spez".to_string(), flair: flair(), distinguished: String::new() },
        permalink: format!("/r/rust/comments/{}/", id),
        score: ("5".to_string(), "5".to_string()),
        upvote_ratio: 90,
        post_type: "self".to_string(),
        flair: flair(),
        flags: Flags { spoiler: false, nsfw, stickied: false },
        rel_time: "1d ago".to_string(),
        created: "Jan 1".to_string(),
        created_ts,
        num_duplicates: 0,
        comments: ("3".to_string(), "3".to_string()),
        awards: Awards { items: Vec::new() },
        nsfw,
    }
}

#[test]
fn from_post_borrows_fields() {
    let p = post("p1", 7, true);
    let f = FlatUserPost::from_post(&p);
    assert_eq!(f.id, "p1");
    assert_eq!(f.title, "title p1");
    assert_eq!(f.permalink, "/r/rust/comments/p1/");
    assert_eq!(f.created_ts, 7);
    assert_eq!(f.upvote_ratio, 90);
    assert!(f.nsfw);
    assert!(f.flags.nsfw);
    assert_eq!(f.author.name, "spez");
}

#[test]
fn listing_paths() {
    assert_eq!(listing_path("spez", "overview", None, None, None), "/user/spez/overview.json?raw_json=1");
    assert_eq!(
        listing_path("spez", "submitted", Some("t3_x"), Some(100), Some("top")),
        "/user/spez/submitted.json?raw_json=1&after=t3_x&limit=100&sort=top"
    );
    assert_eq!(user_posts_path("spez", "overview", None, 25, None), "/user/spez/overview.json?raw_json=1");
    assert_eq!(user_posts_path("spez", "overview", None, 7, Some("new")), "/user/spez/overview.json?raw_json=1&limit=7&sort=new");
    assert_eq!(user_page_path("spez", "comments", "sort=new"), "/user/spez/comments.json?sort=new&raw_json=1");
    assert_eq!(user_about_path("spez"), "/user/spez/about.json?raw_json=1");
}

#[test]
fn until_and_batching_decisions() {
    assert_eq!(until_seconds(0), 0);
    assert_eq!(until_seconds(1625097600), 1625097600);
    assert_eq!(until_seconds(9999999999), 9999999999);
    assert_eq!(until_seconds(1625097600000), 1625097600);
    assert!(wants_batched_fetch(Some(0), 25));
    assert!(wants_batched_fetch(None, 0));
    assert!(wants_batched_fetch(None, 101));
    assert!(!wants_batched_fetch(None, 100));
    assert!(!wants_batched_fetch(None, 25));
}

#[test]
fn fetch_stops_at_limit_and_truncates() {
    let mut f = PostFetch::new("spez".to_string(), "overview".to_string(), 3, None, None, 0);
    assert_eq!(f.next_path().unwrap(), "/user/spez/overview.json?raw_json=1&limit=100");
    f.record_batch(vec![post("a", 50, false), post("b", 40, false)], "t3_b".to_string());
    assert!(!f.done);
    assert_eq!(f.next_path().unwrap(), "/user/spez/overview.json?raw_json=1&after=t3_b&limit=100");
    f.record_batch(vec![post("c", 30, false), post("d", 20, false)], "t3_d".to_string());
    assert!(f.done);
    assert_eq!(f.next_path(), None);
    let (posts, more) = f.finish();
    let ids: Vec<&str> = posts.iter().map(|p| p.id.as_str()).collect();
    assert_eq!(ids, vec!["a", "b", "c"]);
    assert!(more);
}

#[test]
fn fetch_stops_when_batch_reaches_before_bound() {
    let mut f = PostFetch::new("u".to_string(), "submitted".to_string(), 0, Some("t3_z".to_string()), Some("new".to_string()), 45000);
    assert_eq!(f.until_sec, 45000);
    assert_eq!(f.next_path().unwrap(), "/user/u/submitted.json?raw_json=1&after=t3_z&limit=100&sort=new");
    f.record_batch(vec![post("a", 50000, false), post("b", 44000, false), post("c", 46000, false)], "t3_c".to_string());
    assert!(f.done);
    let (posts, more) = f.finish();
    let ids: Vec<&str> = posts.iter().map(|p| p.id.as_str()).collect();
    assert_eq!(ids, vec!["a", "c"]);
    assert!(!more);
}

#[test]
fn fetch_cut_by_limit_in_first_batch_still_has_more() {
    let mut f = PostFetch::new("u".to_string(), "overview".to_string(), 1, None, None, 0);
    f.record_batch(vec![post("a", 300, false), post("b", 200, false)], "t3_b".to_string());
    assert!(f.done);
    let (posts, more) = f.finish();
    let ids: Vec<&str> = posts.iter().map(|p| p.id.as_str()).collect();
    assert_eq!(ids, vec!["a"]);
    assert!(more);
    let flat = flatten_posts(&posts);
    assert_eq!(fetched_posts_page(&flat, more).after, Some("a"));
}

#[test]
fn fetch_limit_reached_exactly_keeps_reddit_cursor() {
    let mut f = PostFetch::new("u".to_string(), "overview".to_string(), 2, None, None, 0);
    f.record_batch(vec![post("a", 300, false), post("b", 200, false)], "t3_b".to_string());
    assert!(f.done);
    assert_eq!(f.current_after.as_deref(), Some("t3_b"));
    let (posts, more) = f.finish();
    assert_eq!(posts.len(), 2);
    assert!(more);
}

#[test]
fn fetch_stops_on_empty_batch_or_missing_cursor() {
    let mut f = PostFetch::new("u".to_string(), "overview".to_string(), 0, None, None, 0);
    f.record_batch(vec![post("a", 1, false)], String::new());
    assert!(f.done);
    let (posts, more) = f.finish();
    assert_eq!(posts.len(), 1);
    assert!(!more);

    let mut g = PostFetch::new("u".to_string(), "overview".to_string(), 0, None, None, 0);
    g.record_batch(Vec::new(), "t3_q".to_string());
    assert!(g.done);
    let (posts, more) = g.finish();
    assert!(posts.is_empty());
    assert!(!more);
}

#[test]
fn fetch_makes_at_most_twenty_five_requests() {
    let mut f = PostFetch::new("u".to_string(), "overview".to_string(), 0, None, None, 0);
    let mut n = 0;
    while let Some(_path) = f.next_path() {
        f.record_batch(vec![post(&format!("p{}", n), 10, false)], format!("t3_p{}", n));
        n += 1;
    }
    assert_eq!(n, 25);
    let (posts, more) = f.finish();
    assert_eq!(posts.len(), 25);
    assert!(more);
}

#[test]
fn user_post_pages() {
    let posts = vec![post("a", 1, false), post("b", 2, false)];
    let flat = flatten_posts(&posts);
    let page = user_posts_page(&flat, "t3_b");
    assert_eq!(page.items.len(), 2);
    assert_eq!(page.after, Some("t3_b"));
    let page = user_posts_page(&flat, "");
    assert_eq!(page.after, None);
    let page = fetched_posts_page(&flat, true);
    assert_eq!(page.after, Some("b"));
    let page = fetched_posts_page(&flat, false);
    assert_eq!(page.after, None);
    let empty: Vec<FlatUserPost> = Vec::new();
    assert_eq!(fetched_posts_page(&empty, true).after, None);
}

#[test]
fn profile_helpers() {
    assert_eq!(redirect_url("/user/spez?sort=top&t=all"), "user/spez%3Fsort=top%26t=all");
    assert_eq!(redirect_url("/"), "");
    assert!(all_posts_hidden_nsfw(&vec![post("a", 1, true)], "off"));
    assert!(!all_posts_hidden_nsfw(&vec![post("a", 1, true)], "on"));
    assert!(!all_posts_hidden_nsfw(&vec![post("a", 1, true), post("b", 1, false)], ""));
    assert!(!all_posts_hidden_nsfw(&Vec::new(), ""));
}

#[test]
fn user_created_date_writes_month_day_and_short_year() {
    assert_eq!(user_created_date(1625097600), "Jul 01 '21");
    assert_eq!(user_created_date(0), "Jan 01 '70");
    assert_eq!(user_created_date(1134028003), "Dec 08 '05");
}

#[test]
fn user_created_date_writes_times_out_of_range_as_the_epoch() {
    assert_eq!(user_created_date(253402300800), "Jan 01 '70");
    assert_eq!(user_created_date(-377705116801), "Jan 01 '70");
    assert_eq!(user_created_date(i64::MAX), "Jan 01 '70");
    assert_eq!(user_created_date(253402300799), "Dec 31 '99");
}

#[test]
fn user_created_date_bounds_match_time_crate() {
    let items = time::format_description::parse_borrowed::<1>("[month repr:short] [day] '[year repr:last_two]").unwrap();
    let epoch = time::OffsetDateTime::UNIX_EPOCH.format(&items).unwrap();
    for secs in [0i64, 253402300799, 253402300800, -377705116800, -377705116801, i64::MIN, i64::MAX, -1] {
        let expected = match time::OffsetDateTime::from_unix_timestamp(secs) {
            Ok(t) => t.format(&items).unwrap(),
            Err(_) => epoch.clone(),
        };
        assert_eq!(user_created_date(secs), expected, "{}", secs);
    }
    assert!(time::OffsetDateTime::from_unix_timestamp(-377705116800).is_ok());
    assert!(time::OffsetDateTime::from_unix_timestamp(-377705116801).is_err());
    assert!(time::OffsetDateTime::from_unix_timestamp(253402300800).is_err());
}
