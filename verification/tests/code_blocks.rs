use doc_sync::edit_docs::code_blocks::{from_markdown, is_bare_fence, to_markdown};

fn lines(items: &[&str]) -> Vec<String> {
    items.iter().map(|s| s.to_string()).collect()
}

#[test]
fn export_strips_the_tag_to_a_bare_fence() {
    let mut docs = lines(&["```rs", "let x = 1;", "```"]);
    to_markdown(&mut docs);
    assert_eq!(docs, lines(&["```", "let x = 1;", "```"]));
}

#[test]
fn export_strips_both_forms_of_the_tag_wherever_they_stand() {
    let mut docs = lines(&["```rs", "a", "```", "```rust", "b", "```", "x ```rs y ```rust z"]);
    to_markdown(&mut docs);
    assert_eq!(docs, lines(&["```", "a", "```", "```", "b", "```", "x ``` y ``` z"]));
}

#[test]
fn export_keeps_the_white_space_around_a_fence() {
    let mut docs = lines(&["  ```rs  ", "code", "\t```"]);
    to_markdown(&mut docs);
    assert_eq!(docs, lines(&["  ```  ", "code", "\t```"]));
}

#[test]
fn export_leaves_other_text_alone() {
    let mut docs = lines(&["plain", "```text", "``", "rs", "", "```"]);
    to_markdown(&mut docs);
    assert_eq!(docs, lines(&["plain", "```text", "``", "rs", "", "```"]));
}

#[test]
fn import_tags_opening_fences_only() {
    let mut docs = lines(&["Text", "```", "let x = 1;", "```", "more", "```", "y", "```"]);
    from_markdown(&mut docs);
    assert_eq!(
        docs,
        lines(&["Text", "```rs", "let x = 1;", "```", "more", "```rs", "y", "```"])
    );
}

#[test]
fn import_keeps_the_white_space_around_a_fence() {
    let mut docs = lines(&["  ```  ", "code", "\t```"]);
    from_markdown(&mut docs);
    assert_eq!(docs, lines(&["  ```rs  ", "code", "\t```"]));
}

#[test]
fn import_counts_bare_fences_only() {
    let mut docs = lines(&["```text", "not rust", "```", "```", "rust", "```"]);
    from_markdown(&mut docs);
    assert_eq!(docs, lines(&["```text", "not rust", "```rs", "```", "rust", "```rs"]));
}

#[test]
fn fences_come_back_as_they_were() {
    let written = lines(&["```rs", "let x = 1;", "```"]);
    let mut docs = written.clone();
    to_markdown(&mut docs);
    from_markdown(&mut docs);
    assert_eq!(docs, written);
}

#[test]
fn paired_fences_come_back_with_their_white_space() {
    let written =
        lines(&["Intro", "```rs", "fn main() {}", "```", "", "  ```rs", "more();", "  ```\t", "end ``` x"]);
    let mut docs = written.clone();
    to_markdown(&mut docs);
    assert_eq!(
        docs,
        lines(&["Intro", "```", "fn main() {}", "```", "", "  ```", "more();", "  ```\t", "end ``` x"])
    );
    from_markdown(&mut docs);
    assert_eq!(docs, written);
}

#[test]
fn markdown_without_tags_comes_back_from_the_source() {
    let markdown = lines(&["Intro", "```", "code", " ``` ", "``` not a fence"]);
    let mut docs = markdown.clone();
    from_markdown(&mut docs);
    assert_eq!(docs, lines(&["Intro", "```rs", "code", " ``` ", "``` not a fence"]));
    to_markdown(&mut docs);
    assert_eq!(docs, markdown);
}

#[test]
fn a_bare_fence_is_a_fence_and_white_space() {
    assert!(is_bare_fence("```"));
    assert!(is_bare_fence("  ``` \t"));
    assert!(is_bare_fence("\u{a0}```\u{3000}"));
    assert!(!is_bare_fence("```rs"));
    assert!(!is_bare_fence("````"));
    assert!(!is_bare_fence("``"));
    assert!(!is_bare_fence("a ```"));
    assert!(!is_bare_fence(""));
}

#[test]
fn nothing_happens_to_no_lines() {
    let mut docs: Vec<String> = Vec::new();
    to_markdown(&mut docs);
    assert!(docs.is_empty());
    from_markdown(&mut docs);
    assert!(docs.is_empty());
}
