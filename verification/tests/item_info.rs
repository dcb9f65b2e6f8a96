use doc_sync::from_markdown::item_info::{
    estimate_full_path, get_item_info, item_info_for, ItemInfo, ItemInfoError,
};
use doc_sync::item_index::{Item, ItemEnum, ItemIndex, ItemKind, ItemSummary};

fn texts(items: &[&str]) -> Vec<String> {
    items.iter().map(|s| s.to_string()).collect()
}

fn item(id: &str, docs: Option<&str>, filename: Option<&str>) -> Item {
    Item {
        id: id.to_string(),
        name: Some("bar".to_string()),
        docs: docs.map(|d| d.to_string()),
        filename: filename.map(|f| f.to_string()),
        inner: ItemEnum::Function,
    }
}

fn listed(id: &str, path: &[&str], kind: ItemKind) -> (String, ItemSummary) {
    (id.to_string(), ItemSummary { crate_id: 0, path: texts(path), kind })
}

fn index() -> ItemIndex {
    ItemIndex {
        index: vec![
            item("X1", Some("Old line"), Some("src/foo.rs")),
            item("X2", Some("Old line"), None),
            item("X3", None, Some("src/foo.rs")),
            item("X4", Some("  Old line\n\n"), Some("src/lib.rs")),
        ],
        paths: vec![
            listed("X1", &["krate", "foo", "bar"], ItemKind::Function),
            listed("X2", &["krate", "foo", "baz"], ItemKind::Function),
            listed("M", &["krate", "foo"], ItemKind::Module),
        ],
    }
}

fn file_for(id: &str, body: &str) -> String {
    format!(
        "<!-- DO NOT REMOVE OR EDIT THIS LINE! Otherwise, doc-sync will break! DOC_SYNC_RUSTDOC_ID=\"{id}\" -->\n\n{body}"
    )
}

fn read(json: &ItemIndex, file: &str, contents: &str) -> Result<Option<ItemInfo>, ItemInfoError> {
    get_item_info(json, "out", file, contents)
}

#[test]
fn an_edited_file_gives_the_new_lines_and_the_place() {
    let json = index();
    let info = read(&json, "out/krate/foo/bar~Function.md", &file_for("X1", "New line\nSecond line"))
        .unwrap()
        .unwrap();
    assert_eq!(info.id, "X1");
    assert_eq!(info.rustdoc_item, 0);
    assert_eq!(info.new_docs, texts(&["New line", "Second line"]));
    assert_eq!(info.file_path, "src/foo.rs");
    assert_eq!(info.file_module_path.0, texts(&["foo"]));
    assert_eq!(info.item_path.0, vec![("bar".to_string(), ItemKind::Function)]);
}

#[test]
fn the_id_is_what_stands_between_the_quotes() {
    let json = index();
    match read(&json, "out/a.md", "text before DOC_SYNC_RUSTDOC_ID=\"nope\" and behind\nmore") {
        Err(ItemInfoError::NotFound { id }) => assert_eq!(id, "nope"),
        other => panic!("unexpected: {other:?}"),
    }
    match read(&json, "out/a.md", "DOC_SYNC_RUSTDOC_ID=\"\"") {
        Err(ItemInfoError::NotFound { id }) => assert_eq!(id, ""),
        other => panic!("unexpected: {other:?}"),
    }
}

#[test]
fn the_first_id_of_a_file_counts() {
    let json = index();
    let contents = format!("{}\nDOC_SYNC_RUSTDOC_ID=\"X2\"", file_for("X1", "Changed"));
    let info = read(&json, "out/a.md", &contents).unwrap().unwrap();
    assert_eq!(info.id, "X1");
    assert_eq!(info.new_docs, texts(&["Changed", "DOC_SYNC_RUSTDOC_ID=\"X2\""]));
}

#[test]
fn a_file_without_an_id_is_an_error() {
    let json = index();
    assert!(matches!(read(&json, "out/a.md", "just text"), Err(ItemInfoError::NoRustdocId)));
    assert!(matches!(read(&json, "out/a.md", "DOC_SYNC_RUSTDOC_ID=\"open"), Err(ItemInfoError::NoRustdocId)));
    assert!(matches!(read(&json, "out/a.md", ""), Err(ItemInfoError::NoRustdocId)));
}

#[test]
fn unchanged_docs_say_nothing_new() {
    let json = index();
    assert!(matches!(read(&json, "out/a.md", &file_for("X1", "Old line")), Ok(None)));
    assert!(matches!(read(&json, "out/a.md", &file_for("X1", "\n  Old line  \n\n")), Ok(None)));
    assert!(matches!(read(&json, "out/a.md", &file_for("X4", "Old line")), Ok(None)));
    assert!(matches!(read(&json, "out/a.md", &file_for("X3", "")), Ok(None)));
    assert!(matches!(read(&json, "out/a.md", &file_for("X3", " \n")), Ok(None)));
}

#[test]
fn the_metadata_line_is_no_documentation() {
    let json = index();
    let contents = format!("New{}", file_for("X1", "line"));
    let info = read(&json, "out/a.md", &contents).unwrap().unwrap();
    assert_eq!(info.new_docs, texts(&["New", "", "line"]));
}

#[test]
fn opening_fences_get_their_tag_on_the_way_in() {
    let json = index();
    let info = read(&json, "out/a.md", &file_for("X1", "Example:\n```\nlet x;\n```\n  ```\n```"))
        .unwrap()
        .unwrap();
    assert_eq!(info.new_docs, texts(&["Example:", "```rs", "let x;", "```", "  ```rs", "```"]));
}

#[test]
fn an_item_without_a_place_in_the_source_is_an_error() {
    let json = index();
    assert!(matches!(read(&json, "out/a.md", &file_for("X2", "New")), Err(ItemInfoError::NoSpan)));
}

#[test]
fn a_path_is_estimated_for_an_item_that_has_none() {
    let json = index();
    let info = read(&json, "out/krate/foo/bar~Function.md", &file_for("X3", "New")).unwrap().unwrap();
    assert_eq!(info.item_path.0, vec![("bar".to_string(), ItemKind::Function)]);
    let info = read(&json, "./out/x/../krate//foo/./baz~Function.md", &file_for("X3", "New"))
        .unwrap()
        .unwrap();
    assert_eq!(info.item_path.0, vec![("baz".to_string(), ItemKind::Function)]);
}

#[test]
fn an_estimated_path_must_be_unique_too() {
    let json = index();
    match read(&json, "out/krate/foo/gone~Function.md", &file_for("X3", "New")) {
        Err(ItemInfoError::AmbiguousOrMissing(e)) => {
            assert_eq!(e.prefix, texts(&["gone"]));
            assert_eq!(e.matches, 0);
        },
        other => panic!("unexpected: {other:?}"),
    }
}

#[test]
fn no_path_is_estimated_outside_the_input_directory() {
    let json = index();
    assert!(matches!(
        read(&json, "elsewhere/krate/foo/bar~Function.md", &file_for("X3", "New")),
        Err(ItemInfoError::OutsideInputDir)
    ));
    assert!(matches!(
        read(&json, "/out/krate/foo/bar~Function.md", &file_for("X3", "New")),
        Err(ItemInfoError::OutsideInputDir)
    ));
}

#[test]
fn estimates_follow_the_directories_down_to_the_file() {
    let some = |items: &[&str]| Some(texts(items));
    assert_eq!(estimate_full_path("out/k/foo/bar~Function.md", "out"), some(&["k", "foo", "bar"]));
    assert_eq!(estimate_full_path("/a/out/k~Module.md", "/a/out"), some(&["k"]));
    assert_eq!(estimate_full_path("out/k/x.md/deeper~Function.md", "out"), some(&["k", "x.md"]));
    assert_eq!(estimate_full_path("out/k/a~b~Struct.md", "out"), some(&["k", "a"]));
    assert_eq!(estimate_full_path("out/k/dir", "out"), some(&["k", "dir"]));
    assert_eq!(estimate_full_path("out", "out"), some(&[]));
    assert_eq!(estimate_full_path("k/f.md", "."), some(&["k", "f.md"]));
    assert_eq!(estimate_full_path("out/k/f.md", "other"), None);
    assert_eq!(estimate_full_path("out/k/f.md", "/out"), None);
    assert_eq!(estimate_full_path("out", "out/deeper"), None);
}

#[test]
fn the_id_can_be_handed_in() {
    let json = index();
    let contents = file_for("X1", "New");
    assert!(matches!(
        item_info_for(&json, &contents, None, "out/a.md", "out"),
        Err(ItemInfoError::NoRustdocId)
    ));
    let info = item_info_for(&json, &contents, Some("X1".to_string()), "out/a.md", "out").unwrap().unwrap();
    assert_eq!(info.new_docs, texts(&["New"]));
    let other = item_info_for(&json, &contents, Some("X4".to_string()), "out/a.md", "out").unwrap().unwrap();
    assert_eq!(other.rustdoc_item, 3);
    assert_eq!(other.new_docs[0], contents.lines().next().unwrap());
    assert!(other.item_path.is_empty());
}

#[test]
fn either_separator_parts_the_paths() {
    let some = |items: &[&str]| Some(texts(items));
    assert_eq!(estimate_full_path("out\\k\\foo\\bar~Function.md", "out"), some(&["k", "foo", "bar"]));
    assert_eq!(estimate_full_path("C:\\out\\k/f~Function.md", "C:\\out"), some(&["k", "f"]));
    assert_eq!(estimate_full_path("\\out\\k~Module.md", "/out"), some(&["k"]));
    assert_eq!(estimate_full_path("\\out\\k~Module.md", "out"), None);
}

#[test]
fn the_index_tells_which_items_have_a_listed_path() {
    let json = index();
    assert!(json.has_listed_path("X1"));
    assert!(json.has_listed_path("M"));
    assert!(!json.has_listed_path("X3"));
    assert!(!json.has_listed_path(""));
}

#[test]
fn the_index_tells_whether_an_id_stands_twice() {
    let mut json = index();
    assert!(json.has_unique_ids());
    json.index.push(item("X2", None, None));
    assert!(!json.has_unique_ids());
    json.index.pop();
    assert!(json.has_unique_ids());
    json.paths.push(listed("M", &["krate", "other"], ItemKind::Module));
    assert!(!json.has_unique_ids());
    let empty = ItemIndex { index: vec![], paths: vec![] };
    assert!(empty.has_unique_ids());
}
