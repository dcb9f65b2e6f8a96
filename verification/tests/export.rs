use doc_sync::item_index::{Item, ItemEnum, ItemIndex, ItemKind, ItemSummary, MacroKind, VariantKind};
use doc_sync::to_markdown::handle_item::{handle_item, markdown_file, MarkdownFile};
use doc_sync::to_markdown::iterate_children::{iterate_children, iterate_ids, ExportTask};
use doc_sync::to_markdown::{conflicts, export, ExportError};

fn texts(items: &[&str]) -> Vec<String> {
    items.iter().map(|s| s.to_string()).collect()
}

fn item(id: &str, name: Option<&str>, docs: Option<&str>, inner: ItemEnum) -> Item {
    Item {
        id: id.to_string(),
        name: name.map(|n| n.to_string()),
        docs: docs.map(|d| d.to_string()),
        filename: Some("src/lib.rs".to_string()),
        inner,
    }
}

fn listed(id: &str, crate_id: u32, path: &[&str], kind: ItemKind) -> (String, ItemSummary) {
    (id.to_string(), ItemSummary { crate_id, path: texts(path), kind })
}

fn paths_of(json: &ItemIndex) -> Vec<(String, String)> {
    export(json).unwrap().into_iter().map(|f| (f.id, f.path)).collect()
}

fn pairs(items: &[(&str, &str)]) -> Vec<(String, String)> {
    items.iter().map(|(a, b)| (a.to_string(), b.to_string())).collect()
}

fn child_ids(tasks: Vec<ExportTask>) -> Vec<(String, Vec<String>)> {
    tasks
        .into_iter()
        .map(|t| match t {
            ExportTask::Child { id, parent_path } => (id, parent_path),
            ExportTask::Listed { id, path, .. } => (id, path),
        })
        .collect()
}

const HEAD: &str = "<!-- DO NOT REMOVE OR EDIT THIS LINE! Otherwise, doc-sync will break! ";

#[test]
fn a_function_is_exported_under_its_path_and_kind() {
    let json = ItemIndex {
        index: vec![item("X1", Some("bar"), Some("Old line"), ItemEnum::Function)],
        paths: vec![listed("X1", 0, &["foo", "bar"], ItemKind::Function)],
    };
    let files = export(&json).unwrap();
    assert_eq!(files.len(), 1);
    assert_eq!(files[0].id, "X1");
    assert_eq!(files[0].path, "foo/bar~Function.md");
    assert_eq!(files[0].contents, format!("{HEAD}DOC_SYNC_RUSTDOC_ID=\"X1\" -->\n\nOld line"));
    let body = files[0].contents.splitn(2, "\n\n").nth(1).unwrap();
    assert_eq!(body, "Old line");
}

#[test]
fn fences_lose_their_tag_on_the_way_out() {
    let docs = "Example:\n```rs\nlet x = 1;\n```\n";
    let file = markdown_file(
        &item("7", Some("f"), Some(docs), ItemEnum::Function),
        &texts(&["k", "f"]),
        &ItemKind::Function,
    );
    assert_eq!(
        file.contents,
        format!("{HEAD}DOC_SYNC_RUSTDOC_ID=\"7\" -->\n\nExample:\n```\nlet x = 1;\n```")
    );
}

#[test]
fn an_item_without_docs_gets_an_empty_body() {
    let file = markdown_file(&item("7", None, None, ItemEnum::Module { items: vec![] }), &texts(&["k"]), &ItemKind::Module);
    assert_eq!(file.path, "k~Module.md");
    assert_eq!(file.contents, format!("{HEAD}DOC_SYNC_RUSTDOC_ID=\"7\" -->\n\n"));
}

#[test]
fn every_kind_has_its_name() {
    let all = [
        (ItemKind::Module, "Module"),
        (ItemKind::ExternCrate, "ExternCrate"),
        (ItemKind::Import, "Import"),
        (ItemKind::Struct, "Struct"),
        (ItemKind::StructField, "StructField"),
        (ItemKind::Union, "Union"),
        (ItemKind::Enum, "Enum"),
        (ItemKind::Variant, "Variant"),
        (ItemKind::Function, "Function"),
        (ItemKind::Typedef, "Typedef"),
        (ItemKind::OpaqueTy, "OpaqueTy"),
        (ItemKind::Constant, "Constant"),
        (ItemKind::Trait, "Trait"),
        (ItemKind::TraitAlias, "TraitAlias"),
        (ItemKind::Impl, "Impl"),
        (ItemKind::Static, "Static"),
        (ItemKind::ForeignType, "ForeignType"),
        (ItemKind::Macro, "Macro"),
        (ItemKind::ProcAttribute, "ProcAttribute"),
        (ItemKind::ProcDerive, "ProcDerive"),
        (ItemKind::AssocConst, "AssocConst"),
        (ItemKind::AssocType, "AssocType"),
        (ItemKind::Primitive, "Primitive"),
        (ItemKind::Keyword, "Keyword"),
    ];
    for (kind, name) in all {
        assert_eq!(kind.name(), name);
        assert_eq!(kind.name(), format!("{kind:?}"));
    }
}

#[test]
fn every_item_has_its_kind() {
    let ids = || vec!["a".to_string()];
    let all = [
        (ItemEnum::Module { items: ids() }, ItemKind::Module),
        (ItemEnum::ExternCrate, ItemKind::ExternCrate),
        (ItemEnum::Import, ItemKind::Import),
        (ItemEnum::Union { fields: ids(), impls: ids() }, ItemKind::Union),
        (ItemEnum::Struct { impls: ids() }, ItemKind::Struct),
        (ItemEnum::StructField, ItemKind::StructField),
        (ItemEnum::Enum { variants: ids(), impls: ids() }, ItemKind::Enum),
        (ItemEnum::Variant(VariantKind::Plain), ItemKind::Variant),
        (ItemEnum::Function, ItemKind::Function),
        (ItemEnum::Trait { items: ids(), implementations: ids() }, ItemKind::Trait),
        (ItemEnum::TraitAlias, ItemKind::TraitAlias),
        (ItemEnum::Impl { items: ids() }, ItemKind::Impl),
        (ItemEnum::Typedef, ItemKind::Typedef),
        (ItemEnum::OpaqueTy, ItemKind::OpaqueTy),
        (ItemEnum::Constant, ItemKind::Constant),
        (ItemEnum::Static, ItemKind::Static),
        (ItemEnum::ForeignType, ItemKind::ForeignType),
        (ItemEnum::Macro, ItemKind::Macro),
        (ItemEnum::ProcMacro { kind: MacroKind::Bang }, ItemKind::Macro),
        (ItemEnum::ProcMacro { kind: MacroKind::Attr }, ItemKind::ProcAttribute),
        (ItemEnum::ProcMacro { kind: MacroKind::Derive }, ItemKind::ProcDerive),
        (ItemEnum::Primitive, ItemKind::Primitive),
        (ItemEnum::AssocConst, ItemKind::AssocConst),
        (ItemEnum::AssocType, ItemKind::AssocType),
    ];
    for (inner, kind) in all {
        assert_eq!(inner.to_item_kind(), kind);
    }
}

#[test]
fn children_come_in_their_groups() {
    let path = texts(&["k", "P"]);
    let below = |ids: &[&str]| -> Vec<(String, Vec<String>)> {
        ids.iter().map(|i| (i.to_string(), path.clone())).collect()
    };
    let two = |a: &str, b: &str| texts(&[a, b]);
    assert_eq!(child_ids(iterate_children(&path, &ItemEnum::Module { items: two("a", "b") })), below(&["a", "b"]));
    assert_eq!(
        child_ids(iterate_children(&path, &ItemEnum::Union { fields: two("f", "g"), impls: two("i", "j") })),
        below(&["f", "g", "i", "j"])
    );
    assert_eq!(child_ids(iterate_children(&path, &ItemEnum::Struct { impls: two("i", "j") })), below(&["i", "j"]));
    assert_eq!(
        child_ids(iterate_children(&path, &ItemEnum::Enum { variants: two("v", "w"), impls: two("i", "j") })),
        below(&["v", "w", "i", "j"])
    );
    assert_eq!(
        child_ids(iterate_children(
            &path,
            &ItemEnum::Trait { items: two("m", "n"), implementations: two("i", "j") }
        )),
        below(&["m", "n", "i", "j"])
    );
    assert_eq!(child_ids(iterate_children(&path, &ItemEnum::Impl { items: two("m", "n") })), below(&["m", "n"]));
    assert_eq!(child_ids(iterate_children(&path, &ItemEnum::Variant(VariantKind::Plain))), below(&[]));
    assert_eq!(
        child_ids(iterate_children(
            &path,
            &ItemEnum::Variant(VariantKind::Tuple(vec![Some("0".to_string()), None, Some("2".to_string())]))
        )),
        below(&["0", "2"])
    );
    assert_eq!(
        child_ids(iterate_children(&path, &ItemEnum::Variant(VariantKind::Struct { fields: two("x", "y") }))),
        below(&["x", "y"])
    );
    assert_eq!(child_ids(iterate_children(&path, &ItemEnum::Function)), below(&[]));
    assert_eq!(child_ids(iterate_children(&path, &ItemEnum::StructField)), below(&[]));
}

#[test]
fn ids_are_added_behind_what_is_there() {
    let mut tasks = vec![ExportTask::Listed { id: "0".to_string(), path: texts(&["k"]), kind: ItemKind::Module }];
    iterate_ids(&texts(&["k"]), &texts(&["a", "b"]), &mut tasks);
    assert_eq!(
        child_ids(tasks),
        vec![
            ("0".to_string(), texts(&["k"])),
            ("a".to_string(), texts(&["k"])),
            ("b".to_string(), texts(&["k"]))
        ]
    );
}

fn nested() -> ItemIndex {
    ItemIndex {
        index: vec![
            item("root", Some("k"), None, ItemEnum::Module { items: texts(&["m", "f", "nameless", "E"]) }),
            item("m", Some("inner"), None, ItemEnum::Module { items: texts(&["g", "f"]) }),
            item("f", Some("f"), Some("docs of f"), ItemEnum::Function),
            item("g", Some("g"), None, ItemEnum::Function),
            item("nameless", None, None, ItemEnum::Impl { items: texts(&["hidden"]) }),
            item("hidden", Some("hidden"), None, ItemEnum::Function),
            item("E", Some("E"), None, ItemEnum::Enum { variants: texts(&["V"]), impls: texts(&[]) }),
            item(
                "V",
                Some("V"),
                None,
                ItemEnum::Variant(VariantKind::Tuple(vec![None, Some("V0".to_string())])),
            ),
            item("V0", Some("0"), None, ItemEnum::StructField),
            item("far", Some("far"), None, ItemEnum::Function),
        ],
        paths: vec![
            listed("far", 3, &["other", "far"], ItemKind::Function),
            listed("root", 0, &["k"], ItemKind::Module),
            listed("f", 0, &["k", "f"], ItemKind::Function),
            listed("g", 0, &["k", "elsewhere", "g"], ItemKind::Function),
        ],
    }
}

#[test]
fn items_are_exported_depth_first_and_once() {
    assert_eq!(
        paths_of(&nested()),
        pairs(&[
            ("root", "k~Module.md"),
            ("m", "k/inner~Module.md"),
            ("g", "k/inner/g~Function.md"),
            ("f", "k/inner/f~Function.md"),
            ("E", "k/E~Enum.md"),
            ("V", "k/E/V~Variant.md"),
            ("V0", "k/E/V/0~StructField.md"),
        ])
    );
}

#[test]
fn the_order_of_the_table_decides_the_path() {
    let mut json = nested();
    json.paths.swap(1, 3);
    assert_eq!(
        paths_of(&json),
        pairs(&[
            ("g", "k/elsewhere/g~Function.md"),
            ("f", "k/f~Function.md"),
            ("root", "k~Module.md"),
            ("m", "k/inner~Module.md"),
            ("E", "k/E~Enum.md"),
            ("V", "k/E/V~Variant.md"),
            ("V0", "k/E/V/0~StructField.md"),
        ])
    );
}

#[test]
fn a_listed_item_keeps_its_listed_kind() {
    let json = ItemIndex {
        index: vec![item("a", Some("a"), None, ItemEnum::Function)],
        paths: vec![listed("a", 0, &["k", "x"], ItemKind::Macro)],
    };
    assert_eq!(paths_of(&json), pairs(&[("a", "k/x~Macro.md")]));
}

#[test]
fn an_item_that_the_index_does_not_hold_ends_the_export() {
    let json = ItemIndex {
        index: vec![item("root", Some("k"), None, ItemEnum::Module { items: texts(&["gone"]) })],
        paths: vec![listed("root", 0, &["k"], ItemKind::Module)],
    };
    match export(&json) {
        Err(ExportError::MissingItem { id }) => assert_eq!(id, "gone"),
        other => panic!("unexpected: {other:?}"),
    }
    let json = ItemIndex { index: vec![], paths: vec![listed("lost", 0, &["k"], ItemKind::Module)] };
    match export(&json) {
        Err(ExportError::MissingItem { id }) => assert_eq!(id, "lost"),
        other => panic!("unexpected: {other:?}"),
    }
}

#[test]
fn items_that_contain_each_other_are_exported_once() {
    let json = ItemIndex {
        index: vec![
            item("a", Some("a"), None, ItemEnum::Module { items: texts(&["b", "a"]) }),
            item("b", Some("b"), None, ItemEnum::Module { items: texts(&["a", "b"]) }),
        ],
        paths: vec![listed("a", 0, &["k"], ItemKind::Module), listed("b", 0, &["k", "b"], ItemKind::Module)],
    };
    assert_eq!(paths_of(&json), pairs(&[("a", "k~Module.md"), ("b", "k/b~Module.md")]));
}

#[test]
fn an_empty_index_exports_nothing() {
    let json = ItemIndex { index: vec![], paths: vec![] };
    assert!(export(&json).unwrap().is_empty());
}

#[test]
fn handling_an_item_marks_it() {
    let json = nested();
    let mut handled = vec![false; json.index.len()];
    let (file, tasks) = handle_item(&json, &mut handled, 1, &texts(&["k", "inner"]), &ItemKind::Module).unwrap();
    assert_eq!(file.path, "k/inner~Module.md");
    assert_eq!(
        child_ids(tasks),
        vec![("g".to_string(), texts(&["k", "inner"])), ("f".to_string(), texts(&["k", "inner"]))]
    );
    assert_eq!(handled.iter().filter(|h| **h).count(), 1);
    assert!(handled[1]);
    assert!(handle_item(&json, &mut handled, 1, &texts(&["again"]), &ItemKind::Module).is_none());
    assert_eq!(handled.iter().filter(|h| **h).count(), 1);
}

#[test]
fn items_are_found_by_their_ids() {
    let json = nested();
    assert_eq!(json.find("root"), Some(0));
    assert_eq!(json.find("V0"), Some(8));
    assert_eq!(json.find("nope"), None);
    assert_eq!(json.find_path("f"), Some(2));
    assert_eq!(json.find_path("m"), None);
}

#[test]
fn files_that_overwrite_earlier_ones_are_found() {
    let file = |id: &str, path: &str| MarkdownFile {
        id: id.to_string(),
        path: path.to_string(),
        contents: String::new(),
    };
    let files = vec![
        file("a", "k/x~Function.md"),
        file("b", "k/y~Function.md"),
        file("c", "k/x~Function.md"),
        file("d", "k/x~Function.md"),
        file("e", "k/z~Macro.md"),
        file("f", "k/y~Function.md"),
    ];
    assert_eq!(conflicts(&files), vec![2, 3, 5]);
    let distinct = vec![file("a", "k/x~Function.md"), file("b", "k/y~Function.md")];
    assert_eq!(conflicts(&distinct), Vec::<usize>::new());
    assert_eq!(conflicts(&Vec::new()), Vec::<usize>::new());
}
