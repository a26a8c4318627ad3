use treeupdt::edit::{apply_edits, char_index, char_width, check_ordered, replace_spans, Edit};
use treeupdt::text::{
    count_leading_spaces, find_in, from_chars, is_whitespace, join_from, lines_of, split_on,
    to_chars, trimmed, trimmed_end, words_of,
};
use treeupdt::types::Error;

fn c(s: &str) -> Vec<char> {
    s.chars().collect()
}

fn s(v: &Vec<char>) -> String {
    v.iter().collect()
}

fn all(v: &Vec<Vec<char>>) -> Vec<String> {
    v.iter().map(s).collect()
}

#[test]
fn characters_convert_both_ways() {
    assert_eq!(to_chars("héllo"), c("héllo"));
    assert_eq!(from_chars(&c("héllo")), "héllo");
    assert_eq!(to_chars(""), Vec::<char>::new());
}

#[test]
fn find_gives_the_first_occurrence() {
    assert_eq!(find_in(&c("a//b//c"), &c("//")), Some(1));
    assert_eq!(find_in(&c("abc"), &c("//")), None);
    assert_eq!(find_in(&c("abc"), &c("")), Some(0));
    assert_eq!(find_in(&c(""), &c("")), Some(0));
    assert_eq!(find_in(&c("ab"), &c("abc")), None);
    assert_eq!(find_in(&c("aab"), &c("ab")), Some(1));
}

#[test]
fn split_keeps_empty_pieces() {
    assert_eq!(all(&split_on(&c("a/b//c"), '/')), vec!["a", "b", "", "c"]);
    assert_eq!(all(&split_on(&c(""), '/')), vec![""]);
    assert_eq!(all(&split_on(&c("/"), '/')), vec!["", ""]);
    assert_eq!(all(&split_on(&c("abc"), '/')), vec!["abc"]);
}

#[test]
fn join_puts_the_separator_between() {
    let parts = split_on(&c("a/b/c/d"), '/');
    assert_eq!(s(&join_from(&parts, 2, "/")), "c/d");
    assert_eq!(s(&join_from(&parts, 0, ", ")), "a, b, c, d");
    assert_eq!(s(&join_from(&parts, 3, "/")), "d");
    assert_eq!(s(&join_from(&parts, 4, "/")), "");
}

#[test]
fn lines_end_at_line_feeds() {
    assert_eq!(all(&lines_of(&c("a\nb\r\nc"))), vec!["a", "b", "c"]);
    assert_eq!(all(&lines_of(&c("a\n"))), vec!["a"]);
    assert_eq!(all(&lines_of(&c("a\n\n"))), vec!["a", ""]);
    assert_eq!(all(&lines_of(&c(""))), Vec::<String>::new());
    assert_eq!(all(&lines_of(&c("\n"))), vec![""]);
    // a carriage return without a line feed after it stays
    assert_eq!(all(&lines_of(&c("a\rb\r"))), vec!["a\rb\r"]);
    for text in ["a\nb\r\nc", "a\n", "a\n\n", "", "\n", "a\rb\r", "\r\n\r\n x"] {
        let expected: Vec<String> = text.lines().map(|l| l.to_string()).collect();
        assert_eq!(all(&lines_of(&c(text))), expected);
    }
}

#[test]
fn words_are_runs_without_white_space() {
    assert_eq!(all(&words_of(&c("  a\tbc   d "))), vec!["a", "bc", "d"]);
    assert_eq!(all(&words_of(&c(""))), Vec::<String>::new());
    assert_eq!(all(&words_of(&c("   "))), Vec::<String>::new());
    for text in ["  a\tbc   d ", "x", " x", "x ", "a\u{00a0}b\u{3000}c"] {
        let expected: Vec<String> = text.split_whitespace().map(|l| l.to_string()).collect();
        assert_eq!(all(&words_of(&c(text))), expected);
    }
}

#[test]
fn trimming_takes_white_space_off_the_ends() {
    assert_eq!(s(&trimmed(&c("  a b \t\n"))), "a b");
    assert_eq!(s(&trimmed(&c("   "))), "");
    assert_eq!(s(&trimmed(&c(""))), "");
    assert_eq!(s(&trimmed_end(&c("  a b  "))), "  a b");
    assert_eq!(count_leading_spaces(&c(" \t x ")), 3);
}

#[test]
fn white_space_is_what_unicode_says() {
    for n in 0u32..0x3100 {
        if let Some(ch) = char::from_u32(n) {
            assert_eq!(is_whitespace(ch), ch.is_whitespace(), "U+{:04X}", n);
        }
    }
}

#[test]
fn width_is_the_length_in_utf8() {
    for ch in ['a', 'é', '€', '😀', '\u{7f}', '\u{80}', '\u{7ff}', '\u{800}', '\u{ffff}', '\u{10000}'] {
        assert_eq!(char_width(ch), ch.len_utf8());
    }
}

#[test]
fn byte_offsets_map_to_characters() {
    let text = c("aé€😀z");
    assert_eq!(char_index(&text, 0), Some(0));
    assert_eq!(char_index(&text, 1), Some(1));
    assert_eq!(char_index(&text, 2), None);
    assert_eq!(char_index(&text, 3), Some(2));
    assert_eq!(char_index(&text, 6), Some(3));
    assert_eq!(char_index(&text, 10), Some(4));
    assert_eq!(char_index(&text, 11), Some(5));
    assert_eq!(char_index(&text, 12), None);
}

fn edit(start: usize, end: usize, text: &str) -> Edit {
    Edit { start, end, text: c(text) }
}

#[test]
fn edits_are_applied_without_moving_each_other() {
    let content = c("0123456789");
    let edits = vec![edit(1, 3, "abcdef"), edit(5, 5, "+"), edit(8, 10, "")];
    assert!(check_ordered(&edits, content.len()));
    assert_eq!(s(&apply_edits(&content, &edits)), "0abcdef34+567");
    assert_eq!(s(&apply_edits(&content, &vec![])), "0123456789");
}

#[test]
fn edits_out_of_order_are_refused() {
    assert!(!check_ordered(&vec![edit(5, 6, "a"), edit(1, 2, "b")], 10));
    assert!(!check_ordered(&vec![edit(1, 4, "a"), edit(3, 5, "b")], 10));
    assert!(!check_ordered(&vec![edit(3, 2, "a")], 10));
    assert!(!check_ordered(&vec![edit(8, 11, "a")], 10));
    assert!(check_ordered(&vec![edit(0, 0, "a"), edit(0, 10, "b"), edit(10, 10, "c")], 10));
}

#[test]
fn spans_of_bytes_are_replaced_in_text_with_wide_characters() {
    let content = c("é = \"1.0\"; ü");
    // "1.0" lies at bytes 6..9
    let done = replace_spans(&content, &vec![edit(6, 9, "2.0.1")]).unwrap();
    assert_eq!(s(&done), "é = \"2.0.1\"; ü");
    // a span that begins inside a character does not belong to this text
    assert_eq!(replace_spans(&content, &vec![edit(1, 9, "x")]), Err(Error::StructuralQueryError));
    assert_eq!(
        replace_spans(&content, &vec![edit(6, 9, "a"), edit(5, 6, "b")]),
        Err(Error::StructuralQueryError)
    );
}

#[test]
fn trimming_agrees_with_the_standard_library() {
    for text in ["", " ", "a", " a", "a ", "\t a b \r\n", "\u{a0}x\u{2003}", "\u{feff}x", "é "] {
        assert_eq!(s(&trimmed(&c(text))), text.trim());
        assert_eq!(s(&trimmed_end(&c(text))), text.trim_end());
    }
}

#[test]
fn find_agrees_with_the_standard_library() {
    for (text, pattern) in [("a?ref=b?ref=c", "?ref="), ("aaa", "aa"), ("abc", "c"), ("", "x"), ("héllo", "l")] {
        let expected = text.find(pattern).map(|byte| text[..byte].chars().count());
        assert_eq!(find_in(&c(text), &c(pattern)), expected);
    }
}
