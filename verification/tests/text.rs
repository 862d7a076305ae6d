use repon::text::{
    byte_index, byte_len, contains, count_prefix, count_suffix, cut_at, eq_ignore_ascii_case,
    find_after_last, find_char, join, lower, one_char, pad, same, slice, to_decimal, Run,
};

#[test]
fn lowering_follows_every_character_beyond_ascii_too() {
    assert_eq!(lower("ABC def"), "abc def");
    assert_eq!(lower("\u{00C9}T\u{00C9}"), "\u{00E9}t\u{00E9}");
    assert_eq!(lower("\u{0130}"), "i\u{0307}");
}

#[test]
fn a_text_holds_another_wherever_it_starts() {
    assert!(contains("reinstall", "install"));
    assert!(contains("reinstall", ""));
    assert!(contains("", ""));
    assert!(!contains("reinstall", "Install"));
    assert!(!contains("re", "rei"));
    assert!(contains("caf\u{00E9} noir", "\u{00E9} n"));
}

#[test]
fn texts_compare_with_and_without_their_ascii_case() {
    assert!(same("abc", "abc"));
    assert!(!same("abc", "abC"));
    assert!(eq_ignore_ascii_case("KIND", "kind"));
    assert!(!eq_ignore_ascii_case("KIND", "kinds"));
    assert!(!eq_ignore_ascii_case("\u{00C9}", "\u{00E9}"));
}

#[test]
fn a_number_is_written_in_decimal() {
    for n in [0u64, 7, 10, 99, 100, 1_000_000, u64::MAX] {
        assert_eq!(to_decimal(n), n.to_string());
    }
}

#[test]
fn parts_join_with_a_separator_between_them_only() {
    let parts = |texts: &[&str]| -> Vec<String> { texts.iter().map(|t| t.to_string()).collect() };
    assert_eq!(join(&parts(&[]), ", "), "");
    assert_eq!(join(&parts(&["a"]), ", "), "a");
    assert_eq!(join(&parts(&["a", "", "c"]), ", "), "a, , c");
}

#[test]
fn a_short_text_is_padded_and_a_long_one_is_left() {
    assert_eq!(pad("ab", 4), "ab  ");
    assert_eq!(pad("\u{00E9}", 3), "\u{00E9}  ");
    assert_eq!(pad("abcd", 2), "abcd");
    assert_eq!(one_char('\u{00E9}'), "\u{00E9}");
}

#[test]
fn byte_positions_count_encoded_characters() {
    let text = "a\u{00E9}\u{2003}b";
    assert_eq!(byte_len(text), 7);
    assert_eq!(byte_index(text, 0), 0);
    assert_eq!(byte_index(text, 2), 3);
    assert_eq!(byte_index(text, 4), 7);
    assert_eq!(cut_at(text, 3), ("a\u{00E9}", "\u{2003}b"));
    assert_eq!(slice(text, 1, 6), "\u{00E9}\u{2003}");
}

#[test]
fn runs_are_counted_from_either_end() {
    assert_eq!(count_prefix("  \u{2003}ab ", Run::Whitespace), 3);
    assert_eq!(count_suffix("ab \u{00A0}", Run::Whitespace), 2);
    assert_eq!(count_suffix("a bc", Run::Word), 2);
    assert_eq!(count_prefix("ab\ncd", Run::Line), 2);
}

#[test]
fn a_character_is_found_by_the_characters_ahead_of_it() {
    assert_eq!(find_char("kind:repo", ':'), 4);
    assert_eq!(find_char("kind", ':'), 4);
    assert_eq!(find_after_last("a,b,c", ','), 4);
    assert_eq!(find_after_last("abc", ','), 0);
}

#[test]
fn the_lowercase_of_ascii_text_has_its_capitals_as_small_letters() {
    let all: String = (0u8..128).map(char::from).collect();
    let want: String = all.chars().map(|c| c.to_ascii_lowercase()).collect();
    assert_eq!(lower(&all), want);
    assert_eq!(lower(""), "");
    assert_eq!(lower("\u{00C9}A"), "\u{00E9}a");
}
