use doc_sync::doc_comment_parser::{get_doc_comment, locate, DocComment, DocCommentType};

fn lines(items: &[&str]) -> Vec<String> {
    items.iter().map(|s| s.to_string()).collect()
}

fn found(text: &str) -> Option<(DocCommentType, usize, usize)> {
    get_doc_comment(&text.to_string()).map(|c| (c.comment_type, c.start_index, c.end_index))
}

#[test]
fn outer_single_prefixes_every_line() {
    let got = DocCommentType::OuterSingle.edit_lines_for_comment_type(lines(&["a", "", "b c"]));
    assert_eq!(got, lines(&["/// a", "/// ", "/// b c"]));
}

#[test]
fn inner_single_prefixes_every_line() {
    let got = DocCommentType::InnerSingle.edit_lines_for_comment_type(lines(&["top", "of file"]));
    assert_eq!(got, lines(&["//! top", "//! of file"]));
}

#[test]
fn outer_multi_wraps_the_lines() {
    let got = DocCommentType::OuterMulti.edit_lines_for_comment_type(lines(&["a", "b"]));
    assert_eq!(got, lines(&["/**", "a", "b", "*/"]));
}

#[test]
fn inner_multi_wraps_the_lines() {
    let got = DocCommentType::InnerMulti.edit_lines_for_comment_type(lines(&["a", "b"]));
    assert_eq!(got, lines(&["/*!", "a", "b", "*/"]));
}

#[test]
fn no_lines_render_to_nothing_in_a_line_style() {
    let got = DocCommentType::OuterSingle.edit_lines_for_comment_type(Vec::new());
    assert!(got.is_empty());
}

#[test]
fn no_lines_render_to_an_empty_block() {
    let got = DocCommentType::OuterMulti.edit_lines_for_comment_type(Vec::new());
    assert_eq!(got, lines(&["/**", "*/"]));
}

#[test]
fn rendered_lines_read_back_in_every_style() {
    let plain = lines(&["first", "", "  indented", "ünïcödé"]);
    for style in [
        DocCommentType::OuterSingle,
        DocCommentType::InnerSingle,
        DocCommentType::OuterMulti,
        DocCommentType::InnerMulti,
    ] {
        let rendered = style.edit_lines_for_comment_type(plain.clone());
        assert_eq!(style.plain_lines_for_comment_type(rendered), Some(plain.clone()));
    }
}

#[test]
fn reading_back_refuses_a_line_without_its_marker() {
    let style = DocCommentType::OuterSingle;
    assert_eq!(style.plain_lines_for_comment_type(lines(&["/// a", "//! b"])), None);
    assert_eq!(style.plain_lines_for_comment_type(lines(&["///a"])), None);
    assert_eq!(style.plain_lines_for_comment_type(lines(&["///"])), None);
}

#[test]
fn reading_back_refuses_a_block_that_is_not_closed() {
    let style = DocCommentType::OuterMulti;
    assert_eq!(style.plain_lines_for_comment_type(lines(&["/**", "a"])), None);
    assert_eq!(style.plain_lines_for_comment_type(lines(&["/*!", "a", "*/"])), None);
    assert_eq!(style.plain_lines_for_comment_type(lines(&["/**"])), None);
    assert_eq!(style.plain_lines_for_comment_type(lines(&["/**", "*/"])), Some(Vec::new()));
}

#[test]
fn markers_name_their_styles() {
    assert_eq!(DocCommentType::from_marker("///").unwrap(), DocCommentType::OuterSingle);
    assert_eq!(DocCommentType::from_marker("//!").unwrap(), DocCommentType::InnerSingle);
    assert_eq!(DocCommentType::from_marker("/**").unwrap(), DocCommentType::OuterMulti);
    assert_eq!(DocCommentType::from_marker("/*!").unwrap(), DocCommentType::InnerMulti);
    assert_eq!("//!".parse::<DocCommentType>().unwrap(), DocCommentType::InnerSingle);
}

#[test]
fn anything_else_is_no_marker() {
    let err = DocCommentType::from_marker("//").unwrap_err();
    assert_eq!(err.0, "//");
    assert!(DocCommentType::from_marker("/// ").is_err());
    assert!(DocCommentType::from_marker("").is_err());
    assert!("/*".parse::<DocCommentType>().is_err());
}

#[test]
fn finds_a_run_of_outer_lines() {
    assert_eq!(
        found("/// one\n    /// two\nfn f() {}"),
        Some((DocCommentType::OuterSingle, 0, 19))
    );
}

#[test]
fn finds_a_single_inner_line() {
    assert_eq!(found("//! top\n#![allow(x)]"), Some((DocCommentType::InnerSingle, 0, 7)));
}

#[test]
fn a_comment_may_end_the_text() {
    assert_eq!(found("/// only"), Some((DocCommentType::OuterSingle, 0, 8)));
    assert_eq!(found("/// a\n/// b"), Some((DocCommentType::OuterSingle, 0, 11)));
}

#[test]
fn leading_white_space_is_passed_over() {
    assert_eq!(found("\n \t/// doc\nfn f() {}"), Some((DocCommentType::OuterSingle, 3, 10)));
}

#[test]
fn an_empty_line_ends_a_run() {
    assert_eq!(found("/// a\n\n/// b\nfn f() {}"), Some((DocCommentType::OuterSingle, 0, 5)));
}

#[test]
fn the_last_line_of_a_mixed_run_gives_the_style() {
    assert_eq!(found("/// a\n//! b\nfn f() {}"), Some((DocCommentType::InnerSingle, 0, 11)));
}

#[test]
fn finds_an_outer_block() {
    assert_eq!(found("/** a\n b */\nfn f() {}"), Some((DocCommentType::OuterMulti, 0, 11)));
}

#[test]
fn finds_an_inner_block() {
    assert_eq!(found("  /*! a */ mod m;"), Some((DocCommentType::InnerMulti, 2, 10)));
}

#[test]
fn a_block_ends_at_the_first_closer() {
    assert_eq!(found("/** a */ b */"), Some((DocCommentType::OuterMulti, 0, 8)));
}

#[test]
fn an_open_block_is_no_comment() {
    assert_eq!(found("/** never closed"), None);
    assert_eq!(found("/**/"), None);
}

#[test]
fn finds_no_comment_on_a_bare_declaration() {
    assert_eq!(found("fn f() {}"), None);
    assert_eq!(found("// plain\nfn f() {}"), None);
    assert_eq!(found("/* plain */ fn f() {}"), None);
    assert_eq!(found(""), None);
    assert_eq!(found("   \n"), None);
    assert_eq!(found("//"), None);
}

#[test]
fn a_comment_behind_the_declaration_is_not_found() {
    assert_eq!(found("fn f() {}\n/// late"), None);
}

#[test]
fn positions_count_bytes() {
    assert_eq!(found("/// é\nfn f() {}"), Some((DocCommentType::OuterSingle, 0, 6)));
}

#[test]
fn bytes_and_strings_are_located_alike() {
    let text = "\t/// a\n\t/// b\n\tfn f() {}";
    let from_bytes = locate(text.as_bytes()).unwrap();
    let from_string = get_doc_comment(&text.to_string()).unwrap();
    assert_eq!(from_bytes, from_string);
    assert_eq!(
        from_bytes,
        DocComment { comment_type: DocCommentType::OuterSingle, start_index: 1, end_index: 13 }
    );
}

#[test]
fn a_rendered_comment_is_located_whole() {
    let plain = lines(&["one", "two"]);
    for style in [
        DocCommentType::OuterSingle,
        DocCommentType::InnerSingle,
        DocCommentType::OuterMulti,
        DocCommentType::InnerMulti,
    ] {
        let text = style.edit_lines_for_comment_type(plain.clone()).join("\n");
        assert_eq!(found(&text), Some((style, 0, text.len())));
        let followed = format!("{text}\nfn f() {{}}");
        assert_eq!(found(&followed), Some((style, 0, text.len())));
    }
}
