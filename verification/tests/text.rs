use reddit_video::chars::{chars_of, push_str, string_of};
use reddit_video::escape::sanitize_shell_characters;
use reddit_video::wrap::wrap_text;

#[test]
fn chars_and_strings_convert_both_ways() {
    assert_eq!(chars_of("a\u{1F600}b"), vec!['a', '\u{1F600}', 'b']);
    assert_eq!(string_of(&vec!['x', 'y']), "xy");
    let mut text = vec!['a'];
    push_str(&mut text, "bc");
    assert_eq!(text, vec!['a', 'b', 'c']);
}

#[test]
fn sanitize_escapes_each_reserved_character() {
    assert_eq!(sanitize_shell_characters("\\"), "\\\\");
    assert_eq!(sanitize_shell_characters("\""), "\"\"");
    assert_eq!(sanitize_shell_characters("'"), "''");
    assert_eq!(sanitize_shell_characters("%"), "\\%");
    assert_eq!(sanitize_shell_characters(":"), "\\:");
    assert_eq!(sanitize_shell_characters("&"), "\\&");
}

#[test]
fn sanitize_keeps_plain_text() {
    assert_eq!(sanitize_shell_characters(""), "");
    assert_eq!(sanitize_shell_characters("plain text, no marks!"), "plain text, no marks!");
}

#[test]
fn sanitize_escapes_inside_a_sentence() {
    assert_eq!(
        sanitize_shell_characters("it's 50% done: a\\b & \"c\""),
        "it''s 50\\% done\\: a\\\\b \\& \"\"c\"\""
    );
}

#[test]
fn sanitize_escapes_again_what_was_escaped() {
    assert_eq!(sanitize_shell_characters("\\:"), "\\\\\\:");
}

#[test]
fn wrap_empty_text_is_one_empty_line() {
    assert_eq!(wrap_text("", 60), "");
    assert_eq!(wrap_text("", 2), "");
}

#[test]
fn wrap_keeps_short_text_on_one_line() {
    assert_eq!(wrap_text("hello world", 60), "hello world");
}

#[test]
fn wrap_breaks_before_the_width_is_reached() {
    assert_eq!(wrap_text("aaa bbb ccc", 8), "aaa bbb\nccc");
    assert_eq!(wrap_text("aaa bbb ccc", 7), "aaa\nbbb\nccc");
    assert_eq!(wrap_text("aaa bbb ccc", 12), "aaa bbb ccc");
    assert_eq!(wrap_text("aaa bbb ccc", 11), "aaa bbb\nccc");
}

#[test]
fn wrap_every_line_is_shorter_than_the_width() {
    let text = "the quick brown fox jumps over the lazy dog and runs far away from here";
    for width in 10..40 {
        let wrapped = wrap_text(text, width);
        for line in wrapped.split('\n') {
            assert!(line.chars().count() < width);
        }
        let words: Vec<&str> = wrapped.split(|c| c == ' ' || c == '\n').collect();
        let expected: Vec<&str> = text.split(' ').collect();
        assert_eq!(words, expected);
    }
}

#[test]
fn wrap_cuts_a_long_word_with_hyphens() {
    assert_eq!(wrap_text("abcdefghij", 5), "\nabcd-\nefgh-\nij");
    assert_eq!(wrap_text("x abcdefghij", 5), "x\nabcd-\nefgh-\nij");
    assert_eq!(wrap_text("abcdefgh", 5), "\nabcd-\nefgh");
}

#[test]
fn wrap_leaves_a_word_whole_that_just_fits() {
    assert_eq!(wrap_text("abcd", 5), "abcd");
    assert_eq!(wrap_text("abcd efgh", 5), "abcd\nefgh");
}

#[test]
fn wrap_passes_over_repeated_spaces() {
    assert_eq!(wrap_text("a  b", 10), "a b");
    assert_eq!(wrap_text(" a ", 10), "a");
    assert_eq!(wrap_text("   ", 10), "");
}

#[test]
fn wrap_counts_characters_not_bytes() {
    assert_eq!(wrap_text("\u{e9}\u{e9}\u{e9} \u{e9}\u{e9}\u{e9}", 8), "\u{e9}\u{e9}\u{e9} \u{e9}\u{e9}\u{e9}");
    assert_eq!(wrap_text("\u{e9}\u{e9}\u{e9} \u{e9}\u{e9}\u{e9}", 7), "\u{e9}\u{e9}\u{e9}\n\u{e9}\u{e9}\u{e9}");
}

#[test]
fn wrap_with_the_smallest_width() {
    assert_eq!(wrap_text("a b", 2), "a\nb");
    assert_eq!(wrap_text("ab", 2), "\na-\nb");
}
