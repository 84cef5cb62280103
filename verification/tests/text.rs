use saba_core::text::{after, before, chars_of, contains, find, trim_prefix};

#[test]
fn chars_of_gives_each_character() {
    assert_eq!(chars_of(""), Vec::<char>::new());
    assert_eq!(chars_of("a:b"), vec!['a', ':', 'b']);
    assert_eq!(chars_of("\u{e9}t\u{e9}"), vec!['\u{e9}', 't', '\u{e9}']);
}

#[test]
fn contains_finds_a_pattern_anywhere() {
    assert!(contains("http://example.com", "http://"));
    assert!(contains("foo.http://bar", "http://"));
    assert!(contains("see http://", "http://"));
    assert!(contains("hhttp://", "http://"));
    assert!(contains("http:/http://", "http://"));
}

#[test]
fn contains_refuses_what_is_not_there() {
    assert!(!contains("https://example.com", "http://"));
    assert!(!contains("example.com", "http://"));
    assert!(!contains("http:/", "http://"));
    assert!(!contains("", "http://"));
    assert!(!contains("ab", "abc"));
}

#[test]
fn empty_pattern_is_in_every_text() {
    assert!(contains("abc", ""));
    assert!(contains("", ""));
}

#[test]
fn trim_prefix_takes_one_leading_pattern() {
    assert_eq!(trim_prefix("http://example.com", "http://"), "example.com");
    assert_eq!(trim_prefix("http://http://a", "http://"), "http://a");
    assert_eq!(trim_prefix("http://", "http://"), "");
    assert_eq!(trim_prefix("\u{e9}\u{e9}x", "\u{e9}"), "\u{e9}x");
}

#[test]
fn trim_prefix_leaves_other_texts() {
    assert_eq!(trim_prefix("foo.http://bar", "http://"), "foo.http://bar");
    assert_eq!(trim_prefix("http:/", "http://"), "http:/");
    assert_eq!(trim_prefix("", "http://"), "");
    assert_eq!(trim_prefix("abc", ""), "abc");
}

#[test]
fn find_gives_the_first_position() {
    assert_eq!(find("a/b/c", '/'), Some(1));
    assert_eq!(find("/a", '/'), Some(0));
    assert_eq!(find("a/", '/'), Some(1));
    assert_eq!(find("abc", '/'), None);
    assert_eq!(find("", '/'), None);
    assert_eq!(find("\u{4f8b}\u{3048}:8", ':'), Some(2));
}

#[test]
fn before_cuts_at_the_first_delimiter() {
    assert_eq!(before("example.com:8080", ':'), "example.com");
    assert_eq!(before("a/b/c", '/'), "a");
    assert_eq!(before("/a", '/'), "");
    assert_eq!(before("abc", '/'), "abc");
    assert_eq!(before("", '/'), "");
    assert_eq!(before("\u{4f8b}\u{3048}/x", '/'), "\u{4f8b}\u{3048}");
}

#[test]
fn after_gives_what_follows_the_first_delimiter() {
    assert_eq!(after("example.com:8080", ':'), Some("8080"));
    assert_eq!(after("a/b/c", '/'), Some("b/c"));
    assert_eq!(after("a/", '/'), Some(""));
    assert_eq!(after("abc", '/'), None);
    assert_eq!(after("", '/'), None);
    assert_eq!(after("\u{4f8b}?\u{3048}", '?'), Some("\u{3048}"));
}
