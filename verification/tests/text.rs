use celestial_overlay::text::{
    chars_of, ends_with, find_last, matches_at, starts_with, string_of, suffix_after_last,
};

#[test]
fn chars_of_gives_each_character_in_order() {
    assert_eq!(chars_of("a\u{e9}z"), vec!['a', '\u{e9}', 'z']);
    assert_eq!(chars_of(""), Vec::<char>::new());
}

#[test]
fn string_of_cuts_the_range() {
    let chars = chars_of("wallpaper");
    assert_eq!(string_of(&chars, 4, 9), "paper");
    assert_eq!(string_of(&chars, 0, 4), "wall");
    assert_eq!(string_of(&chars, 3, 3), "");
}

#[test]
fn matches_at_tells_where_the_marker_stands() {
    let text = chars_of("abcabc");
    let marker = chars_of("bc");
    assert!(matches_at(&text, &marker, 1));
    assert!(matches_at(&text, &marker, 4));
    assert!(!matches_at(&text, &marker, 0));
    assert!(!matches_at(&text, &marker, 3));
}

#[test]
fn find_last_gives_the_rightmost_place() {
    let text = chars_of("abcabc");
    assert_eq!(find_last(&text, &chars_of("bc")), Some(4));
    assert_eq!(find_last(&text, &chars_of("ab")), Some(3));
    assert_eq!(find_last(&text, &chars_of("abcabc")), Some(0));
    assert_eq!(find_last(&text, &chars_of("x")), None);
    assert_eq!(find_last(&text, &chars_of("abcabcd")), None);
}

#[test]
fn find_last_of_the_empty_marker_is_the_end() {
    assert_eq!(find_last(&chars_of("abc"), &chars_of("")), Some(3));
    assert_eq!(find_last(&chars_of(""), &chars_of("")), Some(0));
}

#[test]
fn find_last_sees_overlapping_places() {
    assert_eq!(find_last(&chars_of("aaa"), &chars_of("aa")), Some(1));
}

#[test]
fn suffix_after_last_cuts_behind_the_last_marker() {
    assert_eq!(suffix_after_last("photo.tar.gz", "."), "gz");
    assert_eq!(suffix_after_last("https://a.b/c.JPG", "."), "JPG");
    assert_eq!(suffix_after_last("one--two--three", "--"), "three");
    assert_eq!(suffix_after_last("ends.", "."), "");
}

#[test]
fn suffix_after_last_keeps_a_text_without_the_marker() {
    assert_eq!(suffix_after_last("plain", "."), "plain");
    assert_eq!(suffix_after_last("", "."), "");
    assert_eq!(suffix_after_last("ab", "abc"), "ab");
}

#[test]
fn starts_with_and_ends_with_compare_the_ends() {
    let text = chars_of("https://x.y/z.png");
    assert!(starts_with(&text, &chars_of("https://")));
    assert!(!starts_with(&text, &chars_of("http://")));
    assert!(starts_with(&text, &chars_of("")));
    assert!(ends_with(&text, &chars_of(".png")));
    assert!(!ends_with(&text, &chars_of(".jpg")));
    assert!(ends_with(&text, &chars_of("")));
    assert!(!starts_with(&chars_of("ht"), &chars_of("http://")));
    assert!(!ends_with(&chars_of("ng"), &chars_of(".png")));
}
