use doc_sync::text::{
    chars_of, is_white_space_char, join, lines, replace_all, same_lines, same_text, split_text,
    substring, trim,
};

fn texts(items: &[&str]) -> Vec<String> {
    items.iter().map(|s| s.to_string()).collect()
}

#[test]
fn joins_with_the_separator_between() {
    assert_eq!(join(&texts(&["a", "b", "c"]), ", "), "a, b, c");
    assert_eq!(join(&texts(&["a"]), ", "), "a");
    assert_eq!(join(&texts(&[]), ", "), "");
    assert_eq!(join(&texts(&["", ""]), "-"), "-");
}

#[test]
fn splits_at_either_separator() {
    assert_eq!(split_text("a/b\\c", '/', '\\'), texts(&["a", "b", "c"]));
    assert_eq!(split_text("/a//", '/', '/'), texts(&["", "a", "", ""]));
    assert_eq!(split_text("", '/', '/'), texts(&[""]));
    assert_eq!(split_text("é/ü", '/', '/'), texts(&["é", "ü"]));
}

#[test]
fn lines_end_at_line_feeds() {
    assert_eq!(lines("a\nb"), texts(&["a", "b"]));
    assert_eq!(lines("a\nb\n"), texts(&["a", "b"]));
    assert_eq!(lines("a\r\nb\r\n"), texts(&["a", "b"]));
    assert_eq!(lines("a\n\nb"), texts(&["a", "", "b"]));
    assert_eq!(lines("\n"), texts(&[""]));
    assert_eq!(lines(""), texts(&[]));
    assert_eq!(lines("a\r"), texts(&["a\r"]));
}

#[test]
fn lines_are_those_of_the_standard_library() {
    for text in ["", "a", "a\n", "\n\n", "a\r\nb\rc\n\rd", "x\r\n\r\n", "é\nü"] {
        let expected: Vec<String> = text.lines().map(|l| l.to_string()).collect();
        assert_eq!(lines(text), expected, "for {text:?}");
    }
}

#[test]
fn trims_unicode_white_space() {
    assert_eq!(trim("  a b \n"), "a b");
    assert_eq!(trim("\u{2003}x\u{85}"), "x");
    assert_eq!(trim(" \t\r\n"), "");
    assert_eq!(trim(""), "");
    assert_eq!(trim("é"), "é");
}

#[test]
fn white_space_is_that_of_the_standard_library() {
    for code in 0u32..0x3100 {
        if let Some(c) = char::from_u32(code) {
            assert_eq!(is_white_space_char(c), c.is_whitespace(), "for {code:#x}");
        }
    }
    assert!(!is_white_space_char('\u{feff}'));
}

#[test]
fn replaces_every_occurrence() {
    assert_eq!(replace_all("a-b-c", "-", "_"), "a_b_c");
    assert_eq!(replace_all("aaa", "aa", "b"), "ba");
    assert_eq!(replace_all("abc", "x", "y"), "abc");
    assert_eq!(replace_all("", "x", "y"), "");
    assert_eq!(replace_all("xx", "x", ""), "");
    assert_eq!(replace_all("é-é", "é", "e"), "e-e");
}

#[test]
fn substrings_count_characters() {
    assert_eq!(substring("héllo", 1, 3), "él");
    assert_eq!(substring("abc", 0, 0), "");
    assert_eq!(chars_of("hé"), vec!['h', 'é']);
}

#[test]
fn texts_compare_by_content() {
    assert!(same_text("abc", "abc"));
    assert!(!same_text("abc", "abd"));
    assert!(same_lines(&texts(&["a", "b"]), &texts(&["a", "b"])));
    assert!(!same_lines(&texts(&["a", "b"]), &texts(&["a"])));
    assert!(!same_lines(&texts(&["a", "b"]), &texts(&["a", "c"])));
}
