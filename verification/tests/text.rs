use guloader::order::{less, sort_dedup};
use guloader::text::{
    begins_with, chars_of, chain, control, discard, discard_pattern, find, find_from, holds,
    occurs_at, slice, space, split, trim, Trim,
};

fn chars(s: &str) -> Vec<char> {
    s.chars().collect()
}

#[test]
fn chars_of_reads_every_character() {
    assert_eq!(chars_of("a→b"), vec!['a', '→', 'b']);
    assert_eq!(chars_of(""), Vec::<char>::new());
}

#[test]
fn find_gives_the_leftmost_occurrence() {
    assert_eq!(find(&chars("abcabc"), &chars("bc")), Some(1));
    assert_eq!(find(&chars("abcabc"), &chars("cb")), None);
    assert_eq!(find(&chars("abc"), &chars("")), Some(0));
    assert_eq!(find(&chars(""), &chars("a")), None);
    assert_eq!(find(&chars("ab"), &chars("abc")), None);
}

#[test]
fn find_from_counts_from_the_start_index() {
    assert_eq!(find_from(&chars("abcabc"), 2, &chars("bc")), Some(2));
    assert_eq!(find_from(&chars("abcabc"), 6, &chars("")), Some(0));
    assert_eq!(find_from(&chars("abcabc"), 5, &chars("bc")), None);
}

#[test]
fn occurrences_are_tested_in_place() {
    assert!(occurs_at(&chars("hello"), &chars("ll"), 2));
    assert!(!occurs_at(&chars("hello"), &chars("ll"), 3));
    assert!(!occurs_at(&chars("hello"), &chars("lo"), 4));
    assert!(begins_with(&chars("https://x"), &chars("http")));
    assert!(!begins_with(&chars("ftp://x"), &chars("http")));
    assert!(holds(&chars("a.jpeg"), &chars(".jpeg")));
    assert!(!holds(&chars("a.jpeg"), &chars(".jpg")));
}

#[test]
fn slice_and_concat_are_inverse() {
    let s = chars("chapter");
    assert_eq!(slice(&s, 2, 5), chars("apt"));
    assert_eq!(chain(&slice(&s, 0, 3), &slice(&s, 3, 7)), s);
}

#[test]
fn trim_removes_white_space_at_both_ends() {
    assert_eq!(trim(&chars(" \t a b \n"), Trim::WhiteSpace), chars("a b"));
    assert_eq!(trim(&chars("\u{a0}\u{3000}x\u{2009}"), Trim::WhiteSpace), chars("x"));
    assert_eq!(trim(&chars("   "), Trim::WhiteSpace), chars(""));
    assert_eq!(trim(&chars(".a."), Trim::WhiteSpace), chars(".a."));
}

#[test]
fn trim_removes_dots_and_spaces_in_any_mixture() {
    assert_eq!(trim(&chars(". .a. ."), Trim::DotsAndSpaces), chars("a"));
    assert_eq!(trim(&chars(" .. "), Trim::DotsAndSpaces), chars(""));
    assert_eq!(trim(&chars("a.b c"), Trim::DotsAndSpaces), chars("a.b c"));
}

#[test]
fn white_space_and_control_characters_are_told_apart() {
    assert!(space(' ') && space('\n') && space('\u{85}') && space('\u{2028}'));
    assert!(!space('a') && !space('\u{200b}') && !space('\u{1f}'));
    assert!(control('\u{0}') && control('\u{1f}') && control('\u{7f}') && control('\u{9f}'));
    assert!(!control(' ') && !control('\u{a0}') && !control('~'));
}

#[test]
fn discard_removes_single_characters() {
    assert_eq!(discard(&chars("\"a\\/b\"]"), &chars("\"\\]")), chars("a/b"));
    assert_eq!(discard(&chars("abc"), &chars("")), chars("abc"));
}

#[test]
fn discard_pattern_removes_occurrences_from_left_to_right() {
    assert_eq!(discard_pattern(&chars("xabyabz"), &chars("ab")), chars("xyz"));
    assert_eq!(discard_pattern(&chars("aaa"), &chars("aa")), chars("a"));
    assert_eq!(discard_pattern(&chars("abc"), &chars("")), chars("abc"));
}

#[test]
fn split_keeps_empty_pieces() {
    assert_eq!(split(&chars("a,,b,"), ','), vec![chars("a"), chars(""), chars("b"), chars("")]);
    assert_eq!(split(&chars(""), ','), vec![chars("")]);
    assert_eq!(split(&chars("abc"), ','), vec![chars("abc")]);
}

#[test]
fn texts_compare_as_strings_do() {
    let samples = ["", "a", "ab", "b", "B", "é", "a\u{10000}", "a\u{ffff}"];
    for x in samples {
        for y in samples {
            assert_eq!(less(&chars(x), &chars(y)), x < y, "{:?} < {:?}", x, y);
        }
    }
}

#[test]
fn sort_dedup_sorts_and_drops_repeats() {
    let items = vec![chars("b"), chars("a"), chars("c"), chars("a"), chars("b")];
    assert_eq!(sort_dedup(&items), vec![chars("a"), chars("b"), chars("c")]);
    assert_eq!(sort_dedup(&Vec::new()), Vec::<Vec<char>>::new());
}
