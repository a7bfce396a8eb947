use ndnd::text::{chars_of, decimal_string, split_last, split_nth, string_of};

#[test]
fn split_nth_takes_the_piece_between_separators() {
    assert_eq!(split_nth("a?code=xyz?code=w", "?code=", 1), Some(String::from("xyz")));
    assert_eq!(split_nth("a?code=xyz?code=w", "?code=", 2), Some(String::from("w")));
    assert_eq!(split_nth("a?code=xyz", "?code=", 0), Some(String::from("a")));
}

#[test]
fn split_nth_is_none_past_the_last_piece() {
    assert_eq!(split_nth("no marker here", "?code=", 1), None);
    assert_eq!(split_nth("abc", "b", 2), None);
}

#[test]
fn split_nth_keeps_empty_pieces() {
    assert_eq!(split_nth("C:C:x", "C:", 1), Some(String::new()));
    assert_eq!(split_nth("xC:", "C:", 1), Some(String::new()));
}

#[test]
fn split_nth_matches_std_on_overlapping_patterns() {
    let s = "aaaa";
    for n in 0..4 {
        assert_eq!(split_nth(s, "aa", n), s.split("aa").nth(n).map(String::from));
    }
}

#[test]
fn split_last_takes_the_tail() {
    assert_eq!(split_last("https://nyaa.si/download/123.torrent", "/"), "123.torrent");
    assert_eq!(split_last("plain", "/"), "plain");
    assert_eq!(split_last("ends/", "/"), "");
}

#[test]
fn split_then_join_gives_back_the_text() {
    let s = "one/two//three/";
    let mut pieces = Vec::new();
    let mut n = 0;
    while let Some(p) = split_nth(s, "/", n) {
        pieces.push(p);
        n += 1;
    }
    assert_eq!(pieces.join("/"), s);
}

#[test]
fn decimal_renders_digits() {
    assert_eq!(decimal_string(0), "0");
    assert_eq!(decimal_string(7), "7");
    assert_eq!(decimal_string(10), "10");
    assert_eq!(decimal_string(123456789), "123456789");
    assert_eq!(decimal_string(u64::MAX), "18446744073709551615");
}

#[test]
fn decimal_reads_back_as_the_number() {
    for n in [0u64, 9, 10, 99, 100, 4096, u64::MAX] {
        assert_eq!(decimal_string(n).parse::<u64>().unwrap(), n);
    }
}

#[test]
fn chars_and_substrings() {
    let v = chars_of("héllo");
    assert_eq!(v, vec!['h', 'é', 'l', 'l', 'o']);
    assert_eq!(string_of(&v, 1, 3), "él");
    assert_eq!(string_of(&v, 2, 2), "");
}
