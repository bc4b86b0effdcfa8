use redlib::number::{parse_unsigned, push_decimal};
use redlib::query::{comments_query, find_first_value, find_last_value, user_posts_query};
use redlib::text::{contains_str, replace_all, split_first_two, str_eq, trim_end_matches};

#[test]
fn replace_all_is_left_to_right_non_overlapping() {
    assert_eq!(replace_all("aaa", "aa", "b"), "ba");
    assert_eq!(replace_all("a?b&c?", "?", "%3F"), "a%3Fb&c%3F");
    assert_eq!(replace_all("", "x", "y"), "");
    assert_eq!(replace_all("héllo wörld", "ö", "o"), "héllo world");
    assert_eq!(replace_all("ab", "", "-"), "-a-b-");
    assert_eq!(replace_all("", "", "-"), "-");
    for (s, p, t) in [("abcabc", "bc", "X"), ("aaaa", "aa", "a"), ("xyz", "", "_"), ("q=a+b", "+", " ")] {
        assert_eq!(replace_all(s, p, t), s.replace(p, t));
    }
}

#[test]
fn trim_and_contains_and_split() {
    assert_eq!(trim_end_matches("abcbc", "bc"), "a");
    assert_eq!(trim_end_matches("abc", ""), "abc");
    for (s, p) in [("xx", "x"), ("abab", "ab"), ("aab", "ab"), ("", "a")] {
        assert_eq!(trim_end_matches(s, p), s.trim_end_matches(p));
    }
    assert!(contains_str("hello", "ell"));
    assert!(contains_str("hello", ""));
    assert!(!contains_str("hello", "hellos"));
    assert_eq!(split_first_two("t3_abc", '_'), ("t3".to_string(), "abc".to_string()));
    assert_eq!(split_first_two("_x", '_'), (String::new(), "x".to_string()));
    assert_eq!(split_first_two("a_", '_'), ("a".to_string(), String::new()));
    assert!(str_eq("ü", "ü"));
    assert!(!str_eq("a", "ab"));
}

#[test]
fn unsigned_parsing_follows_str_parse() {
    assert_eq!(parse_unsigned("25", u64::MAX), Some(25));
    assert_eq!(parse_unsigned("+7", u64::MAX), Some(7));
    assert_eq!(parse_unsigned("007", u64::MAX), Some(7));
    assert_eq!(parse_unsigned("", u64::MAX), None);
    assert_eq!(parse_unsigned("+", u64::MAX), None);
    assert_eq!(parse_unsigned("-1", u64::MAX), None);
    assert_eq!(parse_unsigned("1a", u64::MAX), None);
    assert_eq!(parse_unsigned("18446744073709551615", u64::MAX), Some(u64::MAX));
    assert_eq!(parse_unsigned("18446744073709551616", u64::MAX), None);
    assert_eq!(parse_unsigned("256", 255), None);
    for s in ["0", "12", "+3", "x", "99999999999999999999", " 1"] {
        assert_eq!(parse_unsigned(s, u64::MAX), s.parse::<u64>().ok());
    }
}

#[test]
fn decimal_writing() {
    for n in [0u64, 7, 10, 100, 1234567890, u64::MAX] {
        let mut s = String::from("x");
        push_decimal(&mut s, n);
        assert_eq!(s, format!("x{}", n));
    }
}

#[test]
fn query_parameters() {
    let q = comments_query(Some("limit=10&after=def456"));
    assert_eq!(q.limit, 10);
    assert_eq!(q.after.as_deref(), Some("def456"));
    assert_eq!(q.until, None);
    let q = comments_query(Some("until=1625097600000&limit=abc&limit=3"));
    assert_eq!(q.limit, 25);
    assert_eq!(q.until, Some(1625097600000));
    let q = comments_query(None);
    assert_eq!(q.limit, 25);
    assert_eq!(q.after, None);
    let q = user_posts_query(Some("where=overview&limit=10&sort=top"));
    assert_eq!(q.listing, "overview");
    assert_eq!(q.limit, 10);
    assert_eq!(q.sort.as_deref(), Some("top"));
    let q = user_posts_query(Some("until=0&limit=1000000"));
    assert_eq!(q.listing, "overview");
    assert_eq!(q.limit, 1000000);
    assert_eq!(q.until, Some(0));
    let q = user_posts_query(Some("where=sub+mitted&after=t3%5Fx"));
    assert_eq!(q.listing, "sub mitted");
    assert_eq!(q.after.as_deref(), Some("t3_x"));
}

#[test]
fn first_and_last_values() {
    let pairs = vec![
        ("a".to_string(), "1".to_string()),
        ("b".to_string(), "2".to_string()),
        ("a".to_string(), "3".to_string()),
    ];
    assert_eq!(find_first_value(&pairs, "a").as_deref(), Some("1"));
    assert_eq!(find_last_value(&pairs, "a").as_deref(), Some("3"));
    assert_eq!(find_first_value(&pairs, "c"), None);
}

#[test]
fn unreadable_limit_reads_as_default() {
    let bad = comments_query(Some("limit=abc&after=x&until=5"));
    let fixed = comments_query(Some("limit=25&after=x&until=5"));
    assert_eq!(bad.limit, 25);
    assert_eq!(fixed.limit, 25);
    assert_eq!(bad.after, fixed.after);
    assert_eq!(bad.until, fixed.until);
    assert_eq!(comments_query(Some("limit=-5")).limit, 25);
}
