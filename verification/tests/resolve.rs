use doc_sync::from_markdown::item_path::ItemPath;
use doc_sync::from_markdown::supported_item::SupportedItem;
use doc_sync::from_markdown::update_docs::resolve_item::{resolve_item, Mismatch, ResolveError};
use doc_sync::item_index::ItemKind;
use doc_sync::syntax_tree::{LineColumn, NodeKind, SourceSpan, SyntaxNode, SyntaxTree};

fn span() -> SourceSpan {
    SourceSpan { start: LineColumn { line: 1, column: 0 }, end: LineColumn { line: 1, column: 0 } }
}

fn node(kind: NodeKind, name: Option<&str>, has_body: bool, children: &[usize]) -> SyntaxNode {
    SyntaxNode {
        kind,
        name: name.map(|n| n.to_string()),
        has_body,
        children: children.to_vec(),
        span: span(),
    }
}

fn path(steps: &[(&str, ItemKind)]) -> ItemPath {
    ItemPath(steps.iter().map(|(n, k)| (n.to_string(), *k)).collect())
}

/// ```text
/// 0 mod foo { 1 fn bar() { 2 let; 3 struct Inner { 4 x } } 5 struct S { 6 a, 7 (unnamed) } }
/// 8 enum E { 9 A, 10 B }
/// 11 impl S { 12 const C; 13 fn new() { 14 const K } 15 type T; }
/// 16 trait Tr { 17 const C; 18 fn given() { 19 fn helper() } 20 fn open; 21 type T; }
/// 22 union U { 23 f }
/// 24 mod outside;
/// 25 use x;
/// 26 fn bar()
/// 27 macro m
/// 28 (unsupported item)
/// 29 const bar
/// ```
fn tree() -> SyntaxTree {
    let nodes = vec![
        node(NodeKind::Module, Some("foo"), true, &[1, 5]),
        node(NodeKind::Fn, Some("bar"), true, &[2, 3]),
        node(NodeKind::Other, None, true, &[]),
        node(NodeKind::Struct, Some("Inner"), true, &[4]),
        node(NodeKind::Field, Some("x"), true, &[]),
        node(NodeKind::Struct, Some("S"), true, &[6, 7]),
        node(NodeKind::Field, Some("a"), true, &[]),
        node(NodeKind::Field, None, true, &[]),
        node(NodeKind::Enum, Some("E"), true, &[9, 10]),
        node(NodeKind::Variant, Some("A"), true, &[]),
        node(NodeKind::Variant, Some("B"), true, &[]),
        node(NodeKind::Impl, None, true, &[12, 13, 15]),
        node(NodeKind::ImplConst, Some("C"), true, &[]),
        node(NodeKind::ImplFn, Some("new"), true, &[14]),
        node(NodeKind::Const, Some("K"), true, &[]),
        node(NodeKind::ImplType, Some("T"), true, &[]),
        node(NodeKind::Trait, Some("Tr"), true, &[17, 18, 20, 21]),
        node(NodeKind::TraitConst, Some("C"), true, &[]),
        node(NodeKind::TraitFn, Some("given"), true, &[19]),
        node(NodeKind::Fn, Some("helper"), true, &[]),
        node(NodeKind::TraitFn, Some("open"), false, &[]),
        node(NodeKind::TraitType, Some("T"), true, &[]),
        node(NodeKind::Union, Some("U"), true, &[23]),
        node(NodeKind::Field, Some("f"), true, &[]),
        node(NodeKind::Module, Some("outside"), false, &[]),
        node(NodeKind::Use, None, true, &[]),
        node(NodeKind::Fn, Some("bar"), true, &[]),
        node(NodeKind::Macro, Some("m"), true, &[]),
        node(NodeKind::Other, Some("bar"), true, &[]),
        node(NodeKind::Const, Some("bar"), true, &[]),
    ];
    SyntaxTree { nodes, items: vec![0, 8, 11, 16, 22, 24, 25, 28, 26, 27, 29], attrs: Vec::new() }
}

fn failure(chain: &[SupportedItem], expected: ItemKind, cause: Mismatch) -> ResolveError {
    ResolveError::PathResolutionFailure { chain: chain.to_vec(), expected, cause }
}

#[test]
fn resolves_a_function_inside_a_module() {
    let found = resolve_item(&tree(), &path(&[("foo", ItemKind::Module), ("bar", ItemKind::Function)]));
    assert_eq!(found, Ok(SupportedItem::Fn(1)));
    assert_eq!(found.unwrap().inner(), 1);
}

#[test]
fn a_failure_carries_the_chain_found_so_far() {
    let t = tree();
    let failed = resolve_item(
        &t,
        &path(&[
            ("foo", ItemKind::Module),
            ("bar", ItemKind::Function),
            ("Inner", ItemKind::Struct),
            ("y", ItemKind::StructField),
        ]),
    );
    assert_eq!(
        failed,
        Err(ResolveError::PathResolutionFailure {
            chain: vec![SupportedItem::Module(0), SupportedItem::Fn(1), SupportedItem::Struct(3)],
            expected: ItemKind::StructField,
            cause: Mismatch::NoSuchChild,
        })
    );
}

#[test]
fn resolves_top_level_declarations_by_name_and_kind() {
    let t = tree();
    assert_eq!(resolve_item(&t, &path(&[("bar", ItemKind::Function)])), Ok(SupportedItem::Fn(26)));
    assert_eq!(resolve_item(&t, &path(&[("bar", ItemKind::Constant)])), Ok(SupportedItem::Const(29)));
    assert_eq!(resolve_item(&t, &path(&[("E", ItemKind::Enum)])), Ok(SupportedItem::Enum(8)));
    assert_eq!(resolve_item(&t, &path(&[("m", ItemKind::Macro)])), Ok(SupportedItem::Macro(27)));
    assert_eq!(resolve_item(&t, &path(&[("U", ItemKind::Union)])), Ok(SupportedItem::Union(22)));
}

#[test]
fn impls_and_uses_are_found_by_kind_alone() {
    let t = tree();
    assert_eq!(resolve_item(&t, &path(&[("whatever", ItemKind::Impl)])), Ok(SupportedItem::Impl(11)));
    assert_eq!(resolve_item(&t, &path(&[("x", ItemKind::Import)])), Ok(SupportedItem::Use(25)));
}

#[test]
fn resolves_fields_and_variants() {
    let t = tree();
    assert_eq!(
        resolve_item(
            &t,
            &path(&[("foo", ItemKind::Module), ("S", ItemKind::Struct), ("a", ItemKind::StructField)])
        ),
        Ok(SupportedItem::Field(6))
    );
    assert_eq!(
        resolve_item(&t, &path(&[("E", ItemKind::Enum), ("B", ItemKind::Variant)])),
        Ok(SupportedItem::Variant(10))
    );
}

#[test]
fn resolves_associated_items() {
    let t = tree();
    let in_impl = |name: &str, kind| resolve_item(&t, &path(&[("S", ItemKind::Impl), (name, kind)]));
    assert_eq!(in_impl("C", ItemKind::AssocConst), Ok(SupportedItem::ImplConst(12)));
    assert_eq!(in_impl("new", ItemKind::Function), Ok(SupportedItem::ImplFn(13)));
    assert_eq!(in_impl("T", ItemKind::AssocType), Ok(SupportedItem::ImplType(15)));
    let in_trait = |name: &str, kind| resolve_item(&t, &path(&[("Tr", ItemKind::Trait), (name, kind)]));
    assert_eq!(in_trait("C", ItemKind::AssocConst), Ok(SupportedItem::TraitConst(17)));
    assert_eq!(in_trait("given", ItemKind::Function), Ok(SupportedItem::TraitFn(18)));
    assert_eq!(in_trait("open", ItemKind::Function), Ok(SupportedItem::TraitFn(20)));
    assert_eq!(in_trait("T", ItemKind::AssocType), Ok(SupportedItem::TraitType(21)));
}

#[test]
fn resolves_declarations_inside_function_bodies() {
    let t = tree();
    assert_eq!(
        resolve_item(
            &t,
            &path(&[
                ("foo", ItemKind::Module),
                ("bar", ItemKind::Function),
                ("Inner", ItemKind::Struct),
                ("x", ItemKind::StructField)
            ])
        ),
        Ok(SupportedItem::Field(4))
    );
    assert_eq!(
        resolve_item(
            &t,
            &path(&[("S", ItemKind::Impl), ("new", ItemKind::Function), ("K", ItemKind::Constant)])
        ),
        Ok(SupportedItem::Const(14))
    );
    assert_eq!(
        resolve_item(
            &t,
            &path(&[("Tr", ItemKind::Trait), ("given", ItemKind::Function), ("helper", ItemKind::Function)])
        ),
        Ok(SupportedItem::Fn(19))
    );
}

#[test]
fn an_absent_name_fails_with_the_parent() {
    let t = tree();
    assert_eq!(
        resolve_item(&t, &path(&[("nope", ItemKind::Function)])),
        Err(failure(&[], ItemKind::Function, Mismatch::NoSuchChild))
    );
    assert_eq!(
        resolve_item(&t, &path(&[("foo", ItemKind::Module), ("nope", ItemKind::Function)])),
        Err(failure(&[SupportedItem::Module(0)], ItemKind::Function, Mismatch::NoSuchChild))
    );
}

#[test]
fn a_name_of_another_kind_is_not_found() {
    let t = tree();
    assert_eq!(
        resolve_item(&t, &path(&[("foo", ItemKind::Function)])),
        Err(failure(&[], ItemKind::Function, Mismatch::NoSuchChild))
    );
    assert_eq!(
        resolve_item(&t, &path(&[("bar", ItemKind::Keyword)])),
        Err(failure(&[], ItemKind::Keyword, Mismatch::NoSuchChild))
    );
}

#[test]
fn a_kind_that_the_parent_cannot_hold_is_a_mismatch() {
    let t = tree();
    assert_eq!(
        resolve_item(&t, &path(&[("E", ItemKind::Enum), ("A", ItemKind::Function)])),
        Err(failure(&[SupportedItem::Enum(8)], ItemKind::Function, Mismatch::WrongKind))
    );
    assert_eq!(
        resolve_item(
            &t,
            &path(&[("foo", ItemKind::Module), ("S", ItemKind::Struct), ("a", ItemKind::Variant)])
        ),
        Err(failure(&[SupportedItem::Module(0), SupportedItem::Struct(5)], ItemKind::Variant, Mismatch::WrongKind))
    );
    assert_eq!(
        resolve_item(&t, &path(&[("S", ItemKind::Impl), ("new", ItemKind::StructField)])),
        Err(failure(&[SupportedItem::Impl(11)], ItemKind::StructField, Mismatch::WrongKind))
    );
    assert_eq!(
        resolve_item(&t, &path(&[("Tr", ItemKind::Trait), ("C", ItemKind::Constant)])),
        Err(failure(&[SupportedItem::Trait(16)], ItemKind::Constant, Mismatch::WrongKind))
    );
}

#[test]
fn a_parent_without_a_body_has_no_children() {
    let t = tree();
    assert_eq!(
        resolve_item(&t, &path(&[("outside", ItemKind::Module), ("f", ItemKind::Function)])),
        Err(failure(&[SupportedItem::Module(24)], ItemKind::Function, Mismatch::NoBody))
    );
    assert_eq!(
        resolve_item(
            &t,
            &path(&[("Tr", ItemKind::Trait), ("open", ItemKind::Function), ("f", ItemKind::Function)])
        ),
        Err(failure(&[SupportedItem::Trait(16), SupportedItem::TraitFn(20)], ItemKind::Function, Mismatch::NoBody))
    );
}

#[test]
fn fields_of_unions_and_variants_are_not_supported() {
    let t = tree();
    assert_eq!(
        resolve_item(&t, &path(&[("U", ItemKind::Union), ("f", ItemKind::StructField)])),
        Err(ResolveError::UnsupportedParentKind { chain: vec![SupportedItem::Union(22)] })
    );
    assert_eq!(
        resolve_item(
            &t,
            &path(&[("E", ItemKind::Enum), ("A", ItemKind::Variant), ("0", ItemKind::StructField)])
        ),
        Err(ResolveError::UnsupportedParentKind { chain: vec![SupportedItem::Enum(8), SupportedItem::Variant(9)] })
    );
}

#[test]
fn leaves_have_no_children() {
    let t = tree();
    assert_eq!(
        resolve_item(&t, &path(&[("bar", ItemKind::Constant), ("x", ItemKind::Function)])),
        Err(failure(&[SupportedItem::Const(29)], ItemKind::Function, Mismatch::Leaf))
    );
    assert_eq!(
        resolve_item(
            &t,
            &path(&[
                ("foo", ItemKind::Module),
                ("S", ItemKind::Struct),
                ("a", ItemKind::StructField),
                ("x", ItemKind::StructField)
            ])
        ),
        Err(failure(&[SupportedItem::Module(0), SupportedItem::Struct(5), SupportedItem::Field(6)], ItemKind::StructField, Mismatch::Leaf))
    );
    assert_eq!(
        resolve_item(&t, &path(&[("S", ItemKind::Impl), ("T", ItemKind::AssocType), ("x", ItemKind::Function)])),
        Err(failure(&[SupportedItem::Impl(11), SupportedItem::ImplType(15)], ItemKind::Function, Mismatch::Leaf))
    );
}

#[test]
fn the_empty_path_names_no_declaration() {
    assert_eq!(resolve_item(&tree(), &path(&[])), Err(ResolveError::EmptyPath));
}

#[test]
fn the_first_child_in_source_order_is_taken() {
    let nodes = vec![
        node(NodeKind::Fn, Some("twice"), true, &[]),
        node(NodeKind::Fn, Some("twice"), true, &[]),
    ];
    let t = SyntaxTree { nodes, items: vec![1, 0], attrs: Vec::new() };
    assert_eq!(resolve_item(&t, &path(&[("twice", ItemKind::Function)])), Ok(SupportedItem::Fn(1)));
}

#[test]
fn a_child_outside_the_tree_is_passed_over() {
    let nodes = vec![node(NodeKind::Fn, Some("f"), true, &[])];
    let t = SyntaxTree { nodes, items: vec![7, 0], attrs: Vec::new() };
    assert_eq!(resolve_item(&t, &path(&[("f", ItemKind::Function)])), Ok(SupportedItem::Fn(0)));
}

#[test]
fn from_item_matches_one_node() {
    let t = tree();
    let name = "foo".to_string();
    assert_eq!(
        SupportedItem::from_item(&t, 0, &name, &ItemKind::Module),
        Some(SupportedItem::Module(0))
    );
    assert_eq!(SupportedItem::from_item(&t, 0, &name, &ItemKind::Function), None);
    assert_eq!(SupportedItem::from_item(&t, 1, &name, &ItemKind::Function), None);
    assert_eq!(SupportedItem::from_item(&t, 6, &"a".to_string(), &ItemKind::StructField), None);
    assert_eq!(SupportedItem::from_item(&t, 99, &name, &ItemKind::Module), None);
}
