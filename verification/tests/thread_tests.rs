use redlib::comment_page::{
    flatten_comments, newest_first_comments, newest_first_comments_since, paginate_comments,
    paginate_fetched_comments, sort_newest_first, FlatComment,
};
use redlib::model::{Author, Awards, Comment, Flair};
use redlib::thread::{
    build_comment, is_author_filtered, parents_well_named, parse_comments, query_comments, CommentContext,
    RawComment,
};
use redlib::thread_page::{
    comment_search_query, resolve_comment_sort, search_form, thread_comments, thread_json_path,
    url_without_query,
};

fn author(name: &str, distinguished: &str) -> Author {
    Author {
        name: name.to_string(),
        flair: Flair {
            flair_parts: Vec::new(),
            text: String::new(),
            background_color: String::new(),
            foreground_color: String::new(),
        },
        distinguished: distinguished.to_string(),
    }
}

fn raw(id: &str, author_name: &str, body: &str, created_ts: u64, replies: Vec<RawComment>) -> RawComment {
    RawComment {
        id: id.to_string(),
        kind: "t1".to_string(),
        author: author(author_name, ""),
        body: body.to_string(),
        body_html: format!("<p>{}</p>", body),
        parent_id: "t3_post1".to_string(),
        stickied: false,
        score_hidden: false,
        score: ("1k".to_string(), "1000".to_string()),
        rel_time: "1h ago".to_string(),
        created: "Jan 1 2024".to_string(),
        created_ts,
        edited: (String::new(), String::new()),
        awards: Awards { items: Vec::new() },
        more_count: 0,
        replies,
    }
}

fn ctx() -> CommentContext {
    CommentContext {
        post_link: "/r/rust/comments/post1/title/".to_string(),
        post_author: "op".to_string(),
        highlighted_comment: String::new(),
        filters: Vec::new(),
        removed_frontend: "undelete.pullpush.io".to_string(),
    }
}

#[test]
fn build_comment_copies_fields_and_splits_parent() {
    let mut r = raw("c1", "alice", "hello", 10, Vec::new());
    r.parent_id = "t1_abc".to_string();
    let c = build_comment(r, Vec::new(), &ctx());
    assert_eq!(c.id, "c1");
    assert_eq!(c.parent_kind, "t1");
    assert_eq!(c.parent_id, "abc");
    assert_eq!(c.body, "<p>hello</p>");
    assert_eq!(c.post_link, "/r/rust/comments/post1/title/");
    assert_eq!(c.post_author, "op");
    assert_eq!(c.score, ("1k".to_string(), "1000".to_string()));
    assert!(!c.highlighted);
    assert!(!c.collapsed);
    assert!(!c.is_filtered);
}

#[test]
fn build_comment_parent_second_piece_stops_at_next_underscore() {
    let mut r = raw("c1", "alice", "hello", 10, Vec::new());
    r.parent_id = "t1_ab_cd".to_string();
    let c = build_comment(r, Vec::new(), &ctx());
    assert_eq!(c.parent_kind, "t1");
    assert_eq!(c.parent_id, "ab");
}

#[test]
fn build_comment_removed_links_to_archive() {
    let r = raw("xyz", "[deleted]", "[removed]", 10, Vec::new());
    let c = build_comment(r, Vec::new(), &ctx());
    assert_eq!(
        c.body,
        "<div class=\"md\"><p>[removed] \u{2014} <a href=\"https://undelete.pullpush.io/r/rust/comments/post1/title/xyz\">view removed comment</a></p></div>"
    );
    let r = raw("xyz", "bob", "[ Removed by Reddit ]", 10, Vec::new());
    let c = build_comment(r, Vec::new(), &ctx());
    assert!(c.body.starts_with("<div class=\"md\"><p>[removed]"));
    let r = raw("xyz", "bob", "[removed]", 10, Vec::new());
    let c = build_comment(r, Vec::new(), &ctx());
    assert_eq!(c.body, "<p>[removed]</p>");
}

#[test]
fn build_comment_hidden_score_highlight_filter_and_sticky() {
    let mut r = raw("c9", "mod", "rules", 10, Vec::new());
    r.score_hidden = true;
    r.stickied = true;
    r.author.distinguished = "moderator".to_string();
    let mut context = ctx();
    context.highlighted_comment = "c9".to_string();
    let c = build_comment(r, Vec::new(), &context);
    assert_eq!(c.score, ("\u{2022}".to_string(), "Hidden".to_string()));
    assert!(c.highlighted);
    assert!(c.collapsed);
    assert!(!c.is_filtered);

    let r = raw("c10", "spammer", "buy", 10, Vec::new());
    let mut context = ctx();
    context.filters = vec!["r_rust".to_string(), "u_spammer".to_string()];
    let c = build_comment(r, Vec::new(), &context);
    assert!(c.is_filtered);
    assert!(c.collapsed);
}

#[test]
fn author_filter_needs_exact_entry() {
    let filters = vec!["u_alice".to_string()];
    assert!(is_author_filtered(&filters, "alice"));
    assert!(!is_author_filtered(&filters, "alic"));
    assert!(!is_author_filtered(&filters, "u_alice"));
}

#[test]
fn parent_names_are_checked_at_every_depth() {
    let good = vec![raw("a", "x", "b", 1, vec![raw("b", "y", "c", 2, Vec::new())])];
    assert!(parents_well_named(&good));
    let mut inner = raw("b", "y", "c", 2, Vec::new());
    inner.parent_id = "noseparator".to_string();
    let bad = vec![raw("a", "x", "b", 1, vec![inner])];
    assert!(!parents_well_named(&bad));
}

fn sample_tree() -> Vec<RawComment> {
    vec![
        raw("a", "u1", "Rust is great", 100, vec![
            raw("a1", "u2", "I agree about RUST", 300, Vec::new()),
            raw("a2", "u3", "no", 200, vec![raw("a21", "u4", "rusty", 300, Vec::new())]),
        ]),
        raw("b", "u5", "other topic", 50, Vec::new()),
    ]
}

#[test]
fn parse_comments_keeps_tree_shape() {
    let cs = parse_comments(sample_tree(), &ctx());
    assert_eq!(cs.len(), 2);
    assert_eq!(cs[0].id, "a");
    assert_eq!(cs[0].replies.len(), 2);
    assert_eq!(cs[0].replies[1].replies[0].id, "a21");
    assert_eq!(cs[1].id, "b");
    assert!(cs[1].replies.is_empty());
}

#[test]
fn query_comments_finds_matches_case_insensitively_replies_first() {
    let hits = query_comments(sample_tree(), &ctx(), "RuSt");
    let ids: Vec<&str> = hits.iter().map(|c| c.id.as_str()).collect();
    assert_eq!(ids, vec!["a1", "a21", "a"]);
    assert!(hits.iter().all(|c| c.replies.is_empty()));
}

#[test]
fn thread_comments_switches_on_query() {
    let all = thread_comments(sample_tree(), &ctx(), "");
    assert_eq!(all.len(), 2);
    let found = thread_comments(sample_tree(), &ctx(), "other");
    assert_eq!(found.len(), 1);
    assert_eq!(found[0].id, "b");
}

fn ids(fs: &[FlatComment]) -> Vec<String> {
    fs.iter().map(|f| f.id.to_string()).collect()
}

#[test]
fn flatten_is_preorder() {
    let cs = parse_comments(sample_tree(), &ctx());
    let flat = flatten_comments(&cs);
    assert_eq!(ids(&flat), vec!["a", "a1", "a2", "a21", "b"]);
    assert_eq!(flat[3].created_ts, 300);
    assert_eq!(flat[0].author.name, "u1");
    assert_eq!(flat[1].body, "<p>I agree about RUST</p>");
}

#[test]
fn sort_is_newest_first_and_stable() {
    let cs = parse_comments(sample_tree(), &ctx());
    let flat = flatten_comments(&cs);
    let sorted = sort_newest_first(&flat);
    assert_eq!(ids(&sorted), vec!["a1", "a21", "a2", "a", "b"]);
    let again = newest_first_comments(&cs);
    assert_eq!(ids(&again), ids(&sorted));
}

#[test]
fn more_placeholders_are_dropped() {
    let mut tree = sample_tree();
    tree[1].kind = "more".to_string();
    let cs = parse_comments(tree, &ctx());
    let real = newest_first_comments_since(&cs, 0);
    assert_eq!(ids(&real), vec!["a1", "a21", "a2", "a"]);
}

#[test]
fn comments_since_a_time() {
    let cs = parse_comments(sample_tree(), &ctx());
    let recent = newest_first_comments_since(&cs, 200);
    assert_eq!(ids(&recent), vec!["a1", "a21", "a2"]);
    let none = newest_first_comments_since(&cs, 301);
    assert!(none.is_empty());
}

#[test]
fn pages_follow_each_other() {
    let cs = parse_comments(sample_tree(), &ctx());
    let sorted = newest_first_comments(&cs);
    let first = paginate_comments(&sorted, None, 2);
    assert_eq!(ids(first.items), vec!["a1", "a21"]);
    assert_eq!(first.after, Some("a21"));
    let second = paginate_comments(&sorted, first.after, 2);
    assert_eq!(ids(second.items), vec!["a2", "a"]);
    assert_eq!(second.after, Some("a"));
    let third = paginate_comments(&sorted, second.after, 2);
    assert_eq!(ids(third.items), vec!["b"]);
    assert_eq!(third.after, None);
    let past = paginate_comments(&sorted, Some("b"), 2);
    assert!(past.items.is_empty());
    assert_eq!(past.after, None);
    let exact = paginate_comments(&sorted, Some("a21"), 3);
    assert_eq!(ids(exact.items), vec!["a2", "a", "b"]);
    assert_eq!(exact.after, None);
    let unknown = paginate_comments(&sorted, Some("zzz"), 1);
    assert_eq!(ids(unknown.items), vec!["a1"]);
}

#[test]
fn fetched_pages_no_limit_and_after_only_when_more() {
    let cs = parse_comments(sample_tree(), &ctx());
    let sorted = newest_first_comments_since(&cs, 0);
    let all = paginate_fetched_comments(&sorted, None, 0);
    assert_eq!(all.items.len(), 5);
    assert_eq!(all.after, None);
    let some = paginate_fetched_comments(&sorted, Some("a21"), 2);
    assert_eq!(ids(some.items), vec!["a2", "a"]);
    assert_eq!(some.after, Some("a"));
    let rest = paginate_fetched_comments(&sorted, Some("a"), 2);
    assert_eq!(ids(rest.items), vec!["b"]);
    assert_eq!(rest.after, None);
    let end = paginate_fetched_comments(&sorted, Some("b"), 3);
    assert!(end.items.is_empty());
    assert_eq!(end.after, None);
}

#[test]
fn thread_path_and_sort() {
    assert_eq!(thread_json_path("/r/rust/comments/x", "a=1"), "/r/rust/comments/x.json?a=1&raw_json=1");
    let (sort, path) = resolve_comment_sort(Some("top".to_string()), "new".to_string(), "/p", "q=1");
    assert_eq!(sort, "top");
    assert_eq!(path, "/p.json?q=1&raw_json=1");
    let (sort, path) = resolve_comment_sort(None, "new".to_string(), "/p", "q=1");
    assert_eq!(sort, "new");
    assert_eq!(path, "/p.json?q=1&sort=new&raw_json=1");
    let (sort, path) = resolve_comment_sort(None, String::new(), "/p", "");
    assert_eq!(sort, "");
    assert_eq!(path, "/p.json?&raw_json=1");
}

#[test]
fn search_query_is_read_from_url() {
    assert_eq!(comment_search_query("/r/rust/comments/x/t/?q=hello%20world&type=comment"), "hello world");
    assert_eq!(comment_search_query("/r/rust/comments/x/t/?q=a+b%21&type=comment"), "a b!");
    assert_eq!(comment_search_query("/r/rust/comments/x/t/"), "");
    assert_eq!(comment_search_query("/x?q=one&q=two&type=comment"), "two");
}

#[test]
fn search_form_replaces_spaces() {
    assert_eq!(search_form(Some("a%20b+c".to_string())), "q=a b c&type=comment");
    assert_eq!(search_form(None), "q=&type=comment");
}

#[test]
fn url_without_query_trims_search() {
    assert_eq!(url_without_query("/r/x/?q=rust&type=comment", "rust"), "/r/x/");
    assert_eq!(url_without_query("/r/x/?q=rust&type=comment?q=rust&type=comment", "rust"), "/r/x/");
    assert_eq!(url_without_query("/r/x/", "rust"), "/r/x/");
}

#[test]
fn quarantine_errors() {
    assert!(redlib::thread_page::shows_quarantine_page("quarantined"));
    assert!(redlib::thread_page::shows_quarantine_page("gated"));
    assert!(!redlib::thread_page::shows_quarantine_page("Quarantined"));
    assert!(!redlib::thread_page::shows_quarantine_page("error"));
}

#[test]
fn comments_path() {
    assert_eq!(redlib::thread_page::comments_json_path("abc123"), "/comments/abc123.json?depth=100&limit=500&raw_json=1");
}
