use mini_http::bytes::{
    equal, find_from, matches_at, push_decimal, remove_prefix, split_on, starts_with,
};

fn pieces(parts: &[&[u8]]) -> Vec<Vec<u8>> {
    parts.iter().map(|p| p.to_vec()).collect()
}

#[test]
fn matches_at_finds_pattern_only_where_it_stands() {
    assert!(matches_at(b"hello world", b"world", 6));
    assert!(!matches_at(b"hello world", b"world", 5));
    assert!(!matches_at(b"hello world", b"world", 7));
    assert!(matches_at(b"hello", b"", 5));
    assert!(!matches_at(b"hello", b"", 6));
    assert!(!matches_at(b"ab", b"abc", 0));
}

#[test]
fn find_from_returns_leftmost_occurrence() {
    assert_eq!(find_from(b"a, b, c", b", ", 0), Some(1));
    assert_eq!(find_from(b"a, b, c", b", ", 1), Some(1));
    assert_eq!(find_from(b"a, b, c", b", ", 2), Some(4));
    assert_eq!(find_from(b"a, b, c", b", ", 5), None);
    assert_eq!(find_from(b"abc", b"abcd", 0), None);
    assert_eq!(find_from(b"abc", b"c", 9), None);
}

#[test]
fn split_on_separator_gives_every_piece() {
    assert_eq!(split_on(b"a b c", b" "), pieces(&[b"a", b"b", b"c"]));
    assert_eq!(split_on(b"abc", b" "), pieces(&[b"abc"]));
    assert_eq!(split_on(b"", b" "), pieces(&[b""]));
    assert_eq!(split_on(b" a ", b" "), pieces(&[b"", b"a", b""]));
    assert_eq!(split_on(b"a  b", b" "), pieces(&[b"a", b"", b"b"]));
    assert_eq!(split_on(b"x\r\ny\r\n\r\nz", b"\r\n"), pieces(&[b"x", b"y", b"", b"z"]));
    assert_eq!(split_on(b"k: v: w", b": "), pieces(&[b"k", b"v", b"w"]));
}

#[test]
fn split_on_takes_matches_leftmost_without_overlap() {
    assert_eq!(split_on(b"aaa", b"aa"), pieces(&[b"", b"a"]));
    assert_eq!(split_on(b"aaaa", b"aa"), pieces(&[b"", b"", b""]));
}

#[test]
fn split_on_empty_separator_keeps_the_input_whole() {
    assert_eq!(split_on(b"abc", b""), pieces(&[b"abc"]));
}

#[test]
fn split_on_agrees_with_str_split() {
    let samples = ["", "a", "a, b", ", ", "a, , b", "gzip, deflate, br", ",  ,", "a,b, c"];
    for text in samples {
        let expected: Vec<Vec<u8>> = text.split(", ").map(|p| p.as_bytes().to_vec()).collect();
        assert_eq!(split_on(text.as_bytes(), b", "), expected);
    }
}

#[test]
fn equal_compares_whole_strings() {
    assert!(equal(b"gzip", b"gzip"));
    assert!(!equal(b"gzip", b"gzi"));
    assert!(!equal(b"gzi", b"gzip"));
    assert!(!equal(b"gzip", b"gziq"));
    assert!(equal(b"", b""));
}

#[test]
fn starts_with_checks_prefix() {
    assert!(starts_with(b"/echo/abc", b"/echo"));
    assert!(starts_with(b"/echo", b"/echo"));
    assert!(!starts_with(b"/ech", b"/echo"));
    assert!(!starts_with(b"x/echo", b"/echo"));
    assert!(starts_with(b"abc", b""));
}

#[test]
fn remove_prefix_takes_the_prefix_away_once() {
    assert_eq!(remove_prefix(b"/echo/abc", b"/echo/"), b"abc".to_vec());
    assert_eq!(remove_prefix(b"/echo//echo/abc", b"/echo/"), b"/echo/abc".to_vec());
    assert_eq!(remove_prefix(b"/echo/", b"/echo/"), b"".to_vec());
    assert_eq!(remove_prefix(b"abc", b""), b"abc".to_vec());
}

#[test]
fn remove_prefix_keeps_what_does_not_begin_with_it() {
    assert_eq!(remove_prefix(b"/echoabc", b"/echo/"), b"/echoabc".to_vec());
    assert_eq!(remove_prefix(b"/echo", b"/echo/"), b"/echo".to_vec());
    assert_eq!(remove_prefix(b"x/echo/abc", b"/echo/"), b"x/echo/abc".to_vec());
    assert_eq!(remove_prefix(b"", b"/echo/"), b"".to_vec());
}

#[test]
fn remove_prefix_agrees_with_str_strip_prefix() {
    let samples = ["/echo/abc", "/echo//echo/", "/echo", "/echo/echo/", "", "/echo/x/echo/"];
    for text in samples {
        let expected = text.strip_prefix("/echo/").unwrap_or(text).as_bytes().to_vec();
        assert_eq!(remove_prefix(text.as_bytes(), b"/echo/"), expected);
    }
}

#[test]
fn push_decimal_appends_digits() {
    let numbers: [usize; 9] = [0, 7, 9, 10, 11, 99, 100, 1024, 4294967295];
    for n in numbers {
        let mut out = b"n=".to_vec();
        push_decimal(&mut out, n);
        assert_eq!(out, format!("n={}", n).into_bytes());
    }
    let mut out = Vec::new();
    push_decimal(&mut out, usize::MAX);
    assert_eq!(out, format!("{}", usize::MAX).into_bytes());
}
