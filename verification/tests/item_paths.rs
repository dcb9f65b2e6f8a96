use doc_sync::from_markdown::item_path::ItemPath;
use doc_sync::from_markdown::module_paths::{AbsoluteModulePath, RelativeModulePath};
use doc_sync::item_index::{ItemIndex, ItemKind, ItemSummary};

fn texts(items: &[&str]) -> Vec<String> {
    items.iter().map(|s| s.to_string()).collect()
}

fn entry(id: &str, crate_id: u32, path: &[&str], kind: ItemKind) -> (String, ItemSummary) {
    (id.to_string(), ItemSummary { crate_id, path: texts(path), kind })
}

fn index(paths: Vec<(String, ItemSummary)>) -> ItemIndex {
    ItemIndex { index: Vec::new(), paths }
}

fn build(
    module: &[&str],
    full: &[&str],
    json: &ItemIndex,
) -> Result<Vec<(String, ItemKind)>, (Vec<String>, usize)> {
    let full = texts(full);
    match ItemPath::new(&RelativeModulePath(texts(module)), AbsoluteModulePath(&full), json) {
        Ok(path) => Ok(path.0),
        Err(e) => Err((e.prefix, e.matches)),
    }
}

#[test]
fn one_match_per_step_gives_the_kind_chain() {
    let json = index(vec![
        entry("1", 0, &["krate", "foo", "S"], ItemKind::Struct),
        entry("2", 0, &["krate", "foo", "S", "new"], ItemKind::Function),
        entry("3", 0, &["krate", "foo", "bar"], ItemKind::Function),
    ]);
    assert_eq!(
        build(&["foo"], &["krate", "foo", "S", "new"], &json),
        Ok(vec![("S".to_string(), ItemKind::Struct), ("new".to_string(), ItemKind::Function)])
    );
    assert_eq!(
        build(&["foo"], &["krate", "foo", "bar"], &json),
        Ok(vec![("bar".to_string(), ItemKind::Function)])
    );
}

#[test]
fn two_entries_of_one_name_are_ambiguous() {
    let json = index(vec![
        entry("1", 0, &["krate", "foo", "bar"], ItemKind::Function),
        entry("2", 0, &["krate", "foo", "bar"], ItemKind::Macro),
    ]);
    assert_eq!(build(&["foo"], &["krate", "foo", "bar"], &json), Err((texts(&["bar"]), 2)));
}

#[test]
fn ambiguity_is_not_resolved_by_taking_the_first() {
    let json = index(vec![
        entry("1", 0, &["krate", "bar"], ItemKind::Function),
        entry("2", 0, &["krate", "bar"], ItemKind::Function),
    ]);
    assert_eq!(build(&[], &["krate", "bar"], &json), Err((texts(&["bar"]), 2)));
}

#[test]
fn a_missing_step_fails_with_the_names_down_to_it() {
    let json = index(vec![entry("1", 0, &["krate", "foo", "S"], ItemKind::Struct)]);
    assert_eq!(
        build(&["foo"], &["krate", "foo", "S", "new"], &json),
        Err((texts(&["S", "new"]), 0))
    );
    assert_eq!(build(&["foo"], &["krate", "foo", "T"], &json), Err((texts(&["T"]), 0)));
}

#[test]
fn entries_of_other_crates_and_modules_do_not_count() {
    let json = index(vec![
        entry("1", 1, &["other", "foo", "bar"], ItemKind::Function),
        entry("2", 0, &["krate", "baz", "bar"], ItemKind::Function),
        entry("3", 0, &["krate"], ItemKind::Module),
        entry("4", 0, &[], ItemKind::Module),
    ]);
    assert_eq!(build(&["foo"], &["krate", "foo", "bar"], &json), Err((texts(&["bar"]), 0)));
}

#[test]
fn the_name_of_the_crate_is_not_compared() {
    let json = index(vec![entry("1", 0, &["krate", "foo", "bar"], ItemKind::Function)]);
    assert_eq!(
        build(&["foo"], &["renamed", "foo", "bar"], &json),
        Ok(vec![("bar".to_string(), ItemKind::Function)])
    );
}

#[test]
fn a_path_that_ends_at_the_module_is_empty() {
    let json = index(vec![entry("1", 0, &["krate", "foo"], ItemKind::Module)]);
    let full = texts(&["krate", "foo"]);
    let path =
        ItemPath::new(&RelativeModulePath(texts(&["foo"])), AbsoluteModulePath(&full), &json)
            .unwrap();
    assert!(path.is_empty());
    assert!(path.0.is_empty());
}

#[test]
fn a_path_that_does_not_reach_the_module_fails() {
    let json = index(vec![entry("1", 0, &["krate", "foo"], ItemKind::Module)]);
    assert_eq!(build(&["foo", "bar"], &["krate", "foo"], &json), Err((texts(&[]), 0)));
    assert_eq!(build(&[], &[], &json), Err((texts(&[]), 0)));
}
