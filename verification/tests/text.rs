use comic_core::text::chars_of;
use comic_core::text::contains;
use comic_core::text::find;
use comic_core::text::find_char_from;
use comic_core::text::matches_at;
use comic_core::text::push_decimal;

fn text_chars(text: &str) -> Vec<char> {
    text.chars().collect()
}

#[test]
fn chars_of_gives_the_characters() {
    assert_eq!(chars_of("aé漫"), vec!['a', 'é', '漫']);
    assert_eq!(chars_of(""), Vec::<char>::new());
}

#[test]
fn find_gives_the_first_occurrence() {
    let hay = text_chars("abcabcabc");
    assert_eq!(find(&hay, &text_chars("abc")), Some(0));
    assert_eq!(find(&hay, &text_chars("bca")), Some(1));
    assert_eq!(find(&hay, &text_chars("cab")), Some(2));
    assert_eq!(find(&hay, &text_chars("c")), Some(2));
    assert_eq!(find(&hay, &text_chars("abcabcabc")), Some(0));
}

#[test]
fn find_finds_at_the_very_end() {
    assert_eq!(find(&text_chars("xxxyz"), &text_chars("yz")), Some(3));
}

#[test]
fn find_of_what_is_absent_is_none() {
    let hay = text_chars("abcabcabc");
    assert_eq!(find(&hay, &text_chars("abd")), None);
    assert_eq!(find(&hay, &text_chars("abcabcabca")), None);
    assert_eq!(find(&text_chars(""), &text_chars("a")), None);
}

#[test]
fn find_of_the_empty_text_is_at_the_start() {
    assert_eq!(find(&text_chars("abc"), &text_chars("")), Some(0));
    assert_eq!(find(&text_chars(""), &text_chars("")), Some(0));
}

#[test]
fn find_counts_characters_not_bytes() {
    assert_eq!(find(&text_chars("漫画moduleInfo"), &text_chars("moduleInfo")), Some(2));
}

#[test]
fn matches_at_compares_in_place() {
    let hay = text_chars("hello");
    assert!(matches_at(&hay, &text_chars("ell"), 1));
    assert!(!matches_at(&hay, &text_chars("ell"), 0));
    assert!(!matches_at(&hay, &text_chars("lo!"), 3));
    assert!(matches_at(&hay, &text_chars(""), 5));
    assert!(!matches_at(&hay, &text_chars(""), 6));
}

#[test]
fn contains_agrees_with_find() {
    let hay = text_chars("function getCategories() {}");
    assert!(contains(&hay, &text_chars("function getCategories")));
    assert!(!contains(&hay, &text_chars("getCategories =")));
}

#[test]
fn find_char_from_starts_where_told() {
    let hay = text_chars("a{b{c");
    assert_eq!(find_char_from(&hay, '{', 0), Some(1));
    assert_eq!(find_char_from(&hay, '{', 1), Some(1));
    assert_eq!(find_char_from(&hay, '{', 2), Some(3));
    assert_eq!(find_char_from(&hay, '{', 4), None);
    assert_eq!(find_char_from(&hay, '{', 99), None);
}

#[test]
fn push_decimal_writes_numerals() {
    for n in [0u32, 7, 10, 42, 100, 1009, 65535, 4294967295] {
        let mut out = String::from("n=");
        push_decimal(&mut out, n);
        assert_eq!(out, format!("n={}", n));
    }
}
