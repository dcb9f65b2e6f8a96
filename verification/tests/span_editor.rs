use doc_sync::doc_comment_parser::{get_doc_comment, locate, DocCommentType};
use doc_sync::from_markdown::item_info::ItemInfo;
use doc_sync::from_markdown::item_path::ItemPath;
use doc_sync::from_markdown::module_paths::RelativeModulePath;
use doc_sync::from_markdown::supported_item::SupportedItem;
use doc_sync::from_markdown::update_docs::resolve_item::{Mismatch, ResolveError};
use doc_sync::from_markdown::update_docs::update_docs_for_span::{
    insert_new_doc_comment, span_fits_file, splice, update_docs_for_span,
};
use doc_sync::from_markdown::update_docs::{cover, cover_all, output_path, update_docs, UpdateError};
use doc_sync::item_index::ItemKind;
use doc_sync::syntax_tree::{LineColumn, NodeKind, SourceSpan, SyntaxNode, SyntaxTree};

fn lines(items: &[&str]) -> Vec<String> {
    items.iter().map(|s| s.to_string()).collect()
}

fn at(line: usize, column: usize) -> LineColumn {
    LineColumn { line, column }
}

fn span(from: (usize, usize), to: (usize, usize)) -> SourceSpan {
    SourceSpan { start: at(from.0, from.1), end: at(to.0, to.1) }
}

fn node(kind: NodeKind, name: &str, children: &[usize], span: SourceSpan) -> SyntaxNode {
    SyntaxNode { kind, name: Some(name.to_string()), has_body: true, children: children.to_vec(), span }
}

fn info(path: &[(&str, ItemKind)], new_docs: &[&str]) -> ItemInfo {
    ItemInfo {
        id: "X1".to_string(),
        rustdoc_item: 0,
        new_docs: lines(new_docs),
        file_path: "src/lib.rs".to_string(),
        file_module_path: RelativeModulePath(Vec::new()),
        item_path: ItemPath(path.iter().map(|(n, k)| (n.to_string(), *k)).collect()),
    }
}

#[test]
fn byte_positions_sum_the_lines_before() {
    let text = "ab\ncde\nf".to_string();
    assert_eq!(at(1, 0).byte_pos(&text), 0);
    assert_eq!(at(1, 1).byte_pos(&text), 1);
    assert_eq!(at(2, 0).byte_pos(&text), 3);
    assert_eq!(at(2, 2).byte_pos(&text), 5);
    assert_eq!(at(3, 0).byte_pos(&text), 7);
    assert_eq!(at(3, 1).byte_pos(&text), 2 + 1 + 3 + 1 + 1);
}

#[test]
fn byte_positions_count_bytes_not_characters() {
    let text = "é\nüö\nx".to_string();
    assert_eq!(at(2, 0).byte_pos(&text), "é".len() + 1);
    assert_eq!(at(3, 0).byte_pos(&text), "é".len() + 1 + "üö".len() + 1);
    assert_eq!(at(3, 1).byte_pos(&text), 9);
}

#[test]
fn line_zero_is_the_first_line() {
    let text = "ab\ncd".to_string();
    assert_eq!(at(0, 1).byte_pos(&text), 1);
}

#[test]
fn lines_beyond_the_text_count_the_whole_text() {
    let text = "ab".to_string();
    assert_eq!(at(2, 0).byte_pos(&text), 3);
    assert_eq!(at(9, 4).byte_pos(&text), 7);
    assert_eq!(at(2, 0).byte_pos(&String::new()), 1);
    let ended = "ab\n".to_string();
    assert_eq!(at(2, 0).byte_pos(&ended), 3);
    assert_eq!(at(3, 0).byte_pos(&ended), 4);
}

#[test]
fn a_position_too_large_for_the_machine_is_none() {
    let text = "ab\ncd".to_string();
    assert_eq!(at(2, usize::MAX).checked_byte_pos(&text), None);
    assert_eq!(at(2, usize::MAX - 3).checked_byte_pos(&text), Some(usize::MAX));
    assert_eq!(at(1, usize::MAX).checked_byte_pos(&text), Some(usize::MAX));
}

#[test]
fn splice_replaces_a_stretch_of_bytes() {
    let mut text = "hello world".to_string();
    splice(&mut text, 6, 11, "there");
    assert_eq!(text, "hello there");
    splice(&mut text, 0, 0, ">> ");
    assert_eq!(text, ">> hello there");
    splice(&mut text, 14, 14, "!");
    assert_eq!(text, ">> hello there!");
    splice(&mut text, 3, 9, "");
    assert_eq!(text, ">> there!");
}

#[test]
fn insert_puts_the_comment_and_one_line_feed() {
    let mut text = "fn f() {}".to_string();
    insert_new_doc_comment(0, lines(&["New doc"]), &mut text, DocCommentType::OuterSingle, false);
    assert_eq!(text, "/// New doc\nfn f() {}");
}

#[test]
fn insert_for_a_file_leaves_an_empty_line() {
    let mut text = "use a;\n".to_string();
    insert_new_doc_comment(0, lines(&["Top", "level"]), &mut text, DocCommentType::InnerSingle, true);
    assert_eq!(text, "//! Top\n//! level\n\nuse a;\n");
}

#[test]
fn insert_in_the_middle_of_a_file() {
    let mut text = "mod m {\n    fn f() {}\n}\n".to_string();
    insert_new_doc_comment(12, lines(&["doc"]), &mut text, DocCommentType::OuterMulti, false);
    assert_eq!(text, "mod m {\n    /**\ndoc\n*/\nfn f() {}\n}\n");
}

#[test]
fn update_replaces_a_comment_in_its_own_style() {
    let mut text = "mod foo {\n    /// Old line\n    fn bar() {}\n}\n".to_string();
    update_docs_for_span(
        span((2, 4), (3, 15)),
        lines(&["New line", "Second line"]),
        &mut text,
        DocCommentType::InnerSingle,
        true,
    );
    assert_eq!(text, "mod foo {\n    /// New line\n/// Second line\n    fn bar() {}\n}\n");
}

#[test]
fn update_replaces_a_block_comment() {
    let mut text = "/** old\n text */\nstruct S;".to_string();
    update_docs_for_span(span((1, 0), (3, 9)), lines(&["new"]), &mut text, DocCommentType::OuterSingle, false);
    assert_eq!(text, "/**\nnew\n*/\nstruct S;");
}

#[test]
fn update_replaces_a_comment_that_ends_the_span() {
    let mut text = "x\n/// a\n/// b".to_string();
    update_docs_for_span(span((2, 0), (3, 5)), lines(&["c"]), &mut text, DocCommentType::OuterSingle, false);
    assert_eq!(text, "x\n/// c");
}

#[test]
fn update_inserts_where_there_is_no_comment() {
    let mut text = "mod foo {\n    fn bar() {}\n}\n".to_string();
    update_docs_for_span(span((2, 4), (2, 15)), lines(&["New doc"]), &mut text, DocCommentType::OuterSingle, false);
    assert_eq!(text, "mod foo {\n    /// New doc\nfn bar() {}\n}\n");
}

#[test]
fn an_inserted_comment_is_found_again() {
    for (style, extra) in [
        (DocCommentType::OuterSingle, false),
        (DocCommentType::InnerSingle, true),
        (DocCommentType::OuterMulti, false),
        (DocCommentType::InnerMulti, true),
    ] {
        let before = "fn a() {}\n  fn bar() {}\nfn c() {}".to_string();
        let (start, end) = (12, 23);
        assert!(locate(&before.as_bytes()[start..end]).is_none());
        let mut after = before.clone();
        update_docs_for_span(span((2, 2), (2, 13)), lines(&["one", "two"]), &mut after, style, extra);
        let inserted = after.len() - before.len();
        let comment = style.edit_lines_for_comment_type(lines(&["one", "two"])).join("\n");
        assert_eq!(inserted, comment.len() + if extra { 2 } else { 1 });
        let found = locate(&after.as_bytes()[start..end + inserted]).unwrap();
        assert_eq!(found.comment_type, style);
        assert_eq!(found.start_index, 0);
        assert_eq!(found.end_index, comment.len());
        assert_eq!(&after[start..start + found.end_index], comment);
    }
}

#[test]
fn spans_must_lie_in_the_file_between_characters() {
    let text = "aé\nb".to_string();
    assert!(span_fits_file(&span((1, 0), (2, 1)), &text));
    assert!(span_fits_file(&span((1, 1), (1, 3)), &text));
    assert!(!span_fits_file(&span((1, 2), (1, 3)), &text));
    assert!(!span_fits_file(&span((1, 0), (1, 2)), &text));
    assert!(!span_fits_file(&span((2, 1), (1, 0)), &text));
    assert!(!span_fits_file(&span((1, 0), (2, 2)), &text));
    assert!(!span_fits_file(&span((1, 0), (3, 0)), &text));
}

#[test]
fn covering_spans_take_the_outermost_ends() {
    let a = span((2, 4), (2, 9));
    let b = span((1, 7), (2, 6));
    assert_eq!(cover(a, b), span((1, 7), (2, 9)));
    assert_eq!(cover(b, a), span((1, 7), (2, 9)));
    let c = span((3, 0), (3, 1));
    assert_eq!(cover_all(&vec![a, b, c]), span((1, 7), (3, 1)));
    assert_eq!(cover_all(&vec![a]), a);
}

#[test]
fn replace_scenario_from_item_to_text() {
    let source = "mod foo {\n    /// Old line\n    fn bar() {}\n}\n";
    let tree = SyntaxTree {
        nodes: vec![
            node(NodeKind::Module, "foo", &[1], span((1, 0), (4, 1))),
            node(NodeKind::Fn, "bar", &[], span((2, 4), (3, 15))),
        ],
        items: vec![0],
        attrs: Vec::new(),
    };
    let item = info(
        &[("foo", ItemKind::Module), ("bar", ItemKind::Function)],
        &["New line", "Second line"],
    );
    let mut text = source.to_string();
    assert_eq!(update_docs(&tree, item, &mut text), Ok(()));
    assert_eq!(text, "mod foo {\n    /// New line\n/// Second line\n    fn bar() {}\n}\n");
    let replaced = get_doc_comment(&text[14..].to_string()).unwrap();
    assert_eq!(replaced.comment_type, DocCommentType::OuterSingle);
    assert_eq!(&text[14..14 + replaced.end_index], "/// New line\n/// Second line");
}

#[test]
fn insert_scenario_from_item_to_text() {
    let tree = SyntaxTree {
        nodes: vec![node(NodeKind::Struct, "S", &[], span((2, 0), (2, 9)))],
        items: vec![0],
        attrs: Vec::new(),
    };
    let mut text = "use a;\nstruct S;\n".to_string();
    assert_eq!(update_docs(&tree, info(&[("S", ItemKind::Struct)], &["New doc"]), &mut text), Ok(()));
    assert_eq!(text, "use a;\n/// New doc\nstruct S;\n");
}

#[test]
fn file_docs_go_to_the_very_start_of_a_file_without_attributes() {
    let tree = SyntaxTree { nodes: Vec::new(), items: Vec::new(), attrs: Vec::new() };
    let mut text = "fn f() {}\n".to_string();
    assert_eq!(update_docs(&tree, info(&[], &["About", "this file"]), &mut text), Ok(()));
    assert_eq!(text, "//! About\n//! this file\n\nfn f() {}\n");
}

#[test]
fn file_docs_replace_the_comment_at_the_attributes() {
    let tree = SyntaxTree {
        nodes: Vec::new(),
        items: Vec::new(),
        attrs: vec![span((2, 0), (2, 7)), span((1, 0), (1, 7)), span((3, 0), (3, 13))],
    };
    let mut text = "//! old\n//! doc\n#![allow(x)]\nfn f() {}\n".to_string();
    assert_eq!(update_docs(&tree, info(&[], &["new"]), &mut text), Ok(()));
    assert_eq!(text, "//! new\n#![allow(x)]\nfn f() {}\n");
}

#[test]
fn file_docs_are_inserted_before_attributes_without_a_comment() {
    let tree = SyntaxTree {
        nodes: Vec::new(),
        items: Vec::new(),
        attrs: vec![span((1, 0), (1, 12))],
    };
    let mut text = "#![allow(x)]\nfn f() {}\n".to_string();
    assert_eq!(update_docs(&tree, info(&[], &["new"]), &mut text), Ok(()));
    assert_eq!(text, "//! new\n\n#![allow(x)]\nfn f() {}\n");
}

#[test]
fn an_item_that_is_not_in_the_file_leaves_the_text_alone() {
    let tree = SyntaxTree {
        nodes: vec![node(NodeKind::Struct, "S", &[], span((1, 0), (1, 9)))],
        items: vec![0],
        attrs: Vec::new(),
    };
    let mut text = "struct S;\n".to_string();
    assert_eq!(
        update_docs(&tree, info(&[("T", ItemKind::Struct)], &["x"]), &mut text),
        Err(UpdateError::Resolve(ResolveError::PathResolutionFailure {
            chain: vec![],
            expected: ItemKind::Struct,
            cause: Mismatch::NoSuchChild,
        }))
    );
    assert_eq!(
        update_docs(&tree, info(&[("S", ItemKind::Struct), ("f", ItemKind::Function)], &["x"]), &mut text),
        Err(UpdateError::Resolve(ResolveError::PathResolutionFailure {
            chain: vec![SupportedItem::Struct(0)],
            expected: ItemKind::Function,
            cause: Mismatch::WrongKind,
        }))
    );
    assert_eq!(text, "struct S;\n");
}

#[test]
fn a_span_outside_the_file_leaves_the_text_alone() {
    let outside = span((5, 0), (5, 9));
    let tree = SyntaxTree {
        nodes: vec![node(NodeKind::Struct, "S", &[], outside)],
        items: vec![0],
        attrs: Vec::new(),
    };
    let mut text = "struct S;\n".to_string();
    assert_eq!(
        update_docs(&tree, info(&[("S", ItemKind::Struct)], &["x"]), &mut text),
        Err(UpdateError::SpanOutsideFile(outside))
    );
    assert_eq!(text, "struct S;\n");
}

#[test]
fn updated_files_are_written_below_target() {
    assert_eq!(output_path("src/foo/bar.rs"), "target/src/foo/bar.rs");
}
