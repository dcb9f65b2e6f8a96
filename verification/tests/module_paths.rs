use doc_sync::from_markdown::module_paths::{AbsoluteModulePath, RelativeModulePath};

fn texts(items: &[&str]) -> Vec<String> {
    items.iter().map(|s| s.to_string()).collect()
}

fn derived(path: &str) -> Vec<String> {
    RelativeModulePath::from_file_path(path).0
}

#[test]
fn a_file_stands_for_its_module() {
    assert_eq!(derived("src/foo/bar.rs"), texts(&["foo", "bar"]));
    assert_eq!(derived("src/foo.rs"), texts(&["foo"]));
}

#[test]
fn root_files_add_no_segment() {
    assert_eq!(derived("src/lib.rs"), texts(&[]));
    assert_eq!(derived("src/main.rs"), texts(&[]));
    assert_eq!(derived("src/foo/mod.rs"), texts(&["foo"]));
    assert_eq!(derived(""), texts(&[]));
}

#[test]
fn empty_components_add_no_segment() {
    assert_eq!(derived("/src//foo/bar.rs"), texts(&["foo", "bar"]));
    assert_eq!(derived("src/foo/"), texts(&["foo"]));
}

#[test]
fn only_the_last_segment_loses_its_extension() {
    assert_eq!(derived("a.rs/b.rs"), texts(&["a.rs", "b"]));
    assert_eq!(derived("src/foo.txt"), texts(&["foo.txt"]));
    assert_eq!(derived("src/.rs"), texts(&[""]));
}

#[test]
fn the_separator_does_not_matter() {
    assert_eq!(derived("src\\foo\\bar.rs"), derived("src/foo/bar.rs"));
    assert_eq!(derived("src/foo\\mod.rs"), derived("src\\foo/mod.rs"));
    assert_eq!(derived("src\\lib.rs"), texts(&[]));
}

#[test]
fn a_relative_path_is_written_from_the_crate() {
    assert_eq!(RelativeModulePath(texts(&["a", "b"])).to_string(), "crate::a::b");
    assert_eq!(RelativeModulePath(texts(&[])).to_string(), "crate");
}

#[test]
fn an_absolute_path_is_written_in_full() {
    let full = texts(&["krate", "a", "b"]);
    assert_eq!(AbsoluteModulePath(&full).to_string(), "krate::a::b");
    let none = texts(&[]);
    assert_eq!(AbsoluteModulePath(&none).to_string(), "::");
}
