//! Finding, in a parsed source file, the declaration that an item path
//! names.
//!
//! Resolution walks the path one segment at a time. The first segment is
//! looked for among the top-level declarations of the file. Every later
//! segment is looked for inside the declaration found before it, and where
//! it is looked for depends on what that declaration is: [`child_rule`] is
//! the table.

use crate::from_markdown::item_path::ItemPath;
use crate::from_markdown::supported_item::{candidate, candidate_in, SearchDomain, SupportedItem};
use crate::item_index::ItemKind;
use crate::syntax_tree::SyntaxTree;
use vstd::prelude::*;

verus! {

/// What the resolver does with the segment after a given parent.
#[derive(Clone, Copy, Debug, PartialEq, Eq, Structural)]
pub enum ChildRule {
    /// Children are looked for in this domain.
    Search(SearchDomain),
    /// The parent can hold documented children, but they are not
    /// supported: the fields of a union, the fields of an enum variant.
    Unsupported,
    /// The parent never has children.
    Leaf,
}

/// Why a segment could not be resolved although children of its parent
/// are supported.
#[derive(Clone, Copy, Debug, PartialEq, Eq, Structural)]
pub enum Mismatch {
    /// The parent has children, but none of the kind the path asks for.
    WrongKind,
    /// The parent is declared without a body: a module kept in another
    /// file, a trait method without a default.
    NoBody,
    /// No child of the parent has the name and kind the path asks for.
    NoSuchChild,
    /// The parent is of a kind that never has children.
    Leaf,
}

/// Why one segment could not be resolved.
#[derive(Clone, Copy, Debug, PartialEq, Eq, Structural)]
pub enum StepFailure {
    /// The segment does not name a child of its parent.
    Mismatch(Mismatch),
    /// The parent is a union or an enum variant. Documentation on their
    /// fields is not supported.
    UnsupportedParent,
}

/// Why a path could not be resolved.
///
/// Both failures carry the partial chain: the declarations that the
/// segments before the failing one led to, outermost first. The last of
/// them is the parent in which the failing segment was looked for; an
/// empty chain says that it was looked for in the file itself. The
/// failing segment is the one at the position that is the length of the
/// chain.
#[derive(Clone, Debug, PartialEq, Eq)]
pub enum ResolveError {
    /// The path has no segment: it names the file, not a declaration.
    EmptyPath,
    /// The segment behind `chain` does not name a child of its parent.
    /// `expected` is the kind the path gives to that segment.
    PathResolutionFailure { chain: Vec<SupportedItem>, expected: ItemKind, cause: Mismatch },
    /// The segment behind `chain` asks for a child of a union or of an
    /// enum variant. Documentation on their fields is not supported.
    UnsupportedParentKind { chain: Vec<SupportedItem> },
}

/// A [`ResolveError`] as plain values.
pub enum ResolveErrorView {
    EmptyPath,
    PathResolutionFailure { chain: Seq<SupportedItem>, expected: ItemKind, cause: Mismatch },
    UnsupportedParentKind { chain: Seq<SupportedItem> },
}

impl View for ResolveError {
    type V = ResolveErrorView;

    open spec fn view(&self) -> ResolveErrorView {
        match self {
            ResolveError::EmptyPath => ResolveErrorView::EmptyPath,
            ResolveError::PathResolutionFailure { chain, expected, cause } => {
                ResolveErrorView::PathResolutionFailure {
                    chain: chain@,
                    expected: *expected,
                    cause: *cause,
                }
            },
            ResolveError::UnsupportedParentKind { chain } => {
                ResolveErrorView::UnsupportedParentKind { chain: chain@ }
            },
        }
    }
}

/// The declaration in which the segment behind `chain` is looked for:
/// the last of the chain; `None`, which stands for the file itself, for
/// the empty chain.
pub open spec fn parent_of(chain: Seq<SupportedItem>) -> Option<SupportedItem> {
    if chain.len() == 0 {
        None
    } else {
        Some(chain.last())
    }
}

/// The transition table: where the children of `parent` are looked for.
/// `None` stands for the file itself.
pub open spec fn child_rule_of(parent: Option<SupportedItem>) -> ChildRule {
    match parent {
        None => ChildRule::Search(SearchDomain::Declarations),
        Some(SupportedItem::Module(_)) => ChildRule::Search(SearchDomain::Declarations),
        Some(SupportedItem::Fn(_)) => ChildRule::Search(SearchDomain::Declarations),
        Some(SupportedItem::ImplFn(_)) => ChildRule::Search(SearchDomain::Declarations),
        Some(SupportedItem::TraitFn(_)) => ChildRule::Search(SearchDomain::Declarations),
        Some(SupportedItem::Struct(_)) => ChildRule::Search(SearchDomain::Fields),
        Some(SupportedItem::Enum(_)) => ChildRule::Search(SearchDomain::Variants),
        Some(SupportedItem::Impl(_)) => ChildRule::Search(SearchDomain::ImplItems),
        Some(SupportedItem::Trait(_)) => ChildRule::Search(SearchDomain::TraitItems),
        Some(SupportedItem::Union(_)) => ChildRule::Unsupported,
        Some(SupportedItem::Variant(_)) => ChildRule::Unsupported,
        Some(_) => ChildRule::Leaf,
    }
}

/// Whether a child of index kind `kind` can be found in `domain` at all.
pub open spec fn legal_child_kind(domain: SearchDomain, kind: ItemKind) -> bool {
    match domain {
        SearchDomain::Declarations => true,
        SearchDomain::Fields => kind == ItemKind::StructField,
        SearchDomain::Variants => kind == ItemKind::Variant,
        SearchDomain::ImplItems | SearchDomain::TraitItems => kind == ItemKind::AssocConst || kind
            == ItemKind::Function || kind == ItemKind::AssocType,
    }
}

/// The nodes among which the children of `parent` are looked for, in
/// source order.
pub open spec fn children_of(tree: &SyntaxTree, parent: Option<SupportedItem>) -> Seq<usize> {
    match parent {
        None => tree.items@,
        Some(p) => if p.node() < tree.nodes@.len() {
            tree.nodes@[p.node() as int].children@
        } else {
            Seq::empty()
        },
    }
}

/// Whether `parent` has a body to look into. The file itself always has.
pub open spec fn has_body(tree: &SyntaxTree, parent: Option<SupportedItem>) -> bool {
    match parent {
        None => true,
        Some(p) => p.node() < tree.nodes@.len() && tree.nodes@[p.node() as int].has_body,
    }
}

/// The first of `nodes` that is a candidate for `part` and `kind` in
/// `domain`, as the entity it resolves to.
pub open spec fn first_candidate(
    tree: &SyntaxTree,
    domain: SearchDomain,
    nodes: Seq<usize>,
    part: Seq<char>,
    kind: ItemKind,
) -> Option<SupportedItem>
    decreases nodes.len(),
{
    if nodes.len() == 0 {
        None
    } else {
        match candidate(tree, domain, nodes[0], part, kind) {
            Some(found) => Some(found),
            None => first_candidate(tree, domain, nodes.drop_first(), part, kind),
        }
    }
}

/// One step of resolution: the child of `parent` that the segment
/// (`part`, `kind`) names, or why there is none.
pub open spec fn resolve_step(
    tree: &SyntaxTree,
    parent: Option<SupportedItem>,
    part: Seq<char>,
    kind: ItemKind,
) -> Result<SupportedItem, StepFailure> {
    match child_rule_of(parent) {
        ChildRule::Leaf => Err(StepFailure::Mismatch(Mismatch::Leaf)),
        ChildRule::Unsupported => Err(StepFailure::UnsupportedParent),
        ChildRule::Search(domain) => if !legal_child_kind(domain, kind) {
            Err(StepFailure::Mismatch(Mismatch::WrongKind))
        } else if !has_body(tree, parent) {
            Err(StepFailure::Mismatch(Mismatch::NoBody))
        } else {
            match first_candidate(tree, domain, children_of(tree, parent), part, kind) {
                Some(found) => Ok(found),
                None => Err(StepFailure::Mismatch(Mismatch::NoSuchChild)),
            }
        },
    }
}

/// The error of a path whose segment behind `chain`, which the path
/// gives the kind `expected`, failed with `failure`.
pub open spec fn failed_behind(
    chain: Seq<SupportedItem>,
    expected: ItemKind,
    failure: StepFailure,
) -> ResolveErrorView {
    match failure {
        StepFailure::Mismatch(cause) => ResolveErrorView::PathResolutionFailure {
            chain,
            expected,
            cause,
        },
        StepFailure::UnsupportedParent => ResolveErrorView::UnsupportedParentKind { chain },
    }
}

/// Resolution of the segments of `path` that `chain` has not reached
/// yet; `chain` holds what the segments before them led to.
pub open spec fn resolve_from(
    tree: &SyntaxTree,
    path: Seq<(Seq<char>, ItemKind)>,
    chain: Seq<SupportedItem>,
) -> Result<SupportedItem, ResolveErrorView>
    decreases path.len() - chain.len(),
{
    if chain.len() >= path.len() {
        match parent_of(chain) {
            Some(found) => Ok(found),
            None => Err(ResolveErrorView::EmptyPath),
        }
    } else {
        let segment = path[chain.len() as int];
        match resolve_step(tree, parent_of(chain), segment.0, segment.1) {
            Ok(found) => resolve_from(tree, path, chain.push(found)),
            Err(failure) => Err(failed_behind(chain, segment.1, failure)),
        }
    }
}

/// What `path` resolves to in `tree`: every segment is consumed in order,
/// each inside the declaration that the one before it led to, and the
/// first segment that names nothing ends the resolution with an error
/// that carries the chain of declarations found up to there.
pub open spec fn resolved(tree: &SyntaxTree, path: Seq<(Seq<char>, ItemKind)>) -> Result<
    SupportedItem,
    ResolveErrorView,
> {
    resolve_from(tree, path, Seq::empty())
}

/// Computes [`child_rule_of`].
pub fn child_rule(parent: &Option<SupportedItem>) -> (r: ChildRule)
    ensures
        r == child_rule_of(*parent),
{
    match parent {
        None => ChildRule::Search(SearchDomain::Declarations),
        Some(SupportedItem::Module(_)) => ChildRule::Search(SearchDomain::Declarations),
        Some(SupportedItem::Fn(_)) => ChildRule::Search(SearchDomain::Declarations),
        Some(SupportedItem::ImplFn(_)) => ChildRule::Search(SearchDomain::Declarations),
        Some(SupportedItem::TraitFn(_)) => ChildRule::Search(SearchDomain::Declarations),
        Some(SupportedItem::Struct(_)) => ChildRule::Search(SearchDomain::Fields),
        Some(SupportedItem::Enum(_)) => ChildRule::Search(SearchDomain::Variants),
        Some(SupportedItem::Impl(_)) => ChildRule::Search(SearchDomain::ImplItems),
        Some(SupportedItem::Trait(_)) => ChildRule::Search(SearchDomain::TraitItems),
        Some(SupportedItem::Union(_)) => ChildRule::Unsupported,
        Some(SupportedItem::Variant(_)) => ChildRule::Unsupported,
        Some(_) => ChildRule::Leaf,
    }
}

/// Computes [`legal_child_kind`].
pub fn is_legal_child_kind(domain: SearchDomain, kind: ItemKind) -> (r: bool)
    ensures
        r == legal_child_kind(domain, kind),
{
    match domain {
        SearchDomain::Declarations => true,
        SearchDomain::Fields => kind == ItemKind::StructField,
        SearchDomain::Variants => kind == ItemKind::Variant,
        SearchDomain::ImplItems | SearchDomain::TraitItems => kind == ItemKind::AssocConst || kind
            == ItemKind::Function || kind == ItemKind::AssocType,
    }
}

/// Finds the first of `nodes` that is a candidate for `part` and `kind`
/// in `domain`.
pub fn find_candidate(
    tree: &SyntaxTree,
    domain: SearchDomain,
    nodes: &Vec<usize>,
    part: &String,
    kind: &ItemKind,
) -> (r: Option<SupportedItem>)
    ensures
        r == first_candidate(tree, domain, nodes@, part@, *kind),
        r matches Some(found) ==> found.node() < tree.nodes@.len(),
{
    let mut i: usize = 0;
    assert(nodes@.subrange(0, nodes@.len() as int) == nodes@);
    while i < nodes.len()
        invariant
            i <= nodes@.len(),
            first_candidate(tree, domain, nodes@, part@, *kind) == first_candidate(
                tree,
                domain,
                nodes@.subrange(i as int, nodes@.len() as int),
                part@,
                *kind,
            ),
        decreases nodes@.len() - i,
    {
        let ghost rest = nodes@.subrange(i as int, nodes@.len() as int);
        assert(rest[0] == nodes@[i as int]);
        assert(rest.drop_first() == nodes@.subrange(i + 1, nodes@.len() as int));
        match candidate_in(tree, domain, nodes[i], part, kind) {
            Some(found) => {
                return Some(found);
            },
            None => {},
        }
        i += 1;
    }
    None
}

/// Resolves one segment below `parent`.
pub fn resolve_child(
    tree: &SyntaxTree,
    parent: &Option<SupportedItem>,
    part: &String,
    kind: &ItemKind,
) -> (r: Result<SupportedItem, StepFailure>)
    requires
        parent matches Some(p) ==> p.node() < tree.nodes@.len(),
    ensures
        r == resolve_step(tree, *parent, part@, *kind),
        r matches Ok(found) ==> found.node() < tree.nodes@.len(),
{
    let domain = match child_rule(parent) {
        ChildRule::Leaf => {
            return Err(StepFailure::Mismatch(Mismatch::Leaf));
        },
        ChildRule::Unsupported => {
            return Err(StepFailure::UnsupportedParent);
        },
        ChildRule::Search(domain) => domain,
    };
    if !is_legal_child_kind(domain, *kind) {
        return Err(StepFailure::Mismatch(Mismatch::WrongKind));
    }
    let found = match parent {
        None => find_candidate(tree, domain, &tree.items, part, kind),
        Some(p) => {
            let node = &tree.nodes[p.inner()];
            if !node.has_body {
                return Err(StepFailure::Mismatch(Mismatch::NoBody));
            }
            find_candidate(tree, domain, &node.children, part, kind)
        },
    };
    match found {
        Some(item) => Ok(item),
        None => Err(StepFailure::Mismatch(Mismatch::NoSuchChild)),
    }
}

/// Finds the declaration that `item_path` names in `tree`.
///
/// The first segment is looked for among the top-level declarations of
/// the file, every later one inside the declaration found before it, in
/// the place that [`child_rule_of`] gives for it. The first child in
/// source order that has the name and the kind of the segment is taken.
/// Resolution ends with an error at the first segment that names nothing;
/// it never goes back to try another child. The error carries the chain
/// of declarations that had been found up to there.
pub fn resolve_item(tree: &SyntaxTree, item_path: &ItemPath) -> (r: Result<
    SupportedItem,
    ResolveError,
>)
    ensures
        match r {
            Ok(found) => resolved(tree, item_path@) == Ok::<SupportedItem, ResolveErrorView>(found)
                && found.node() < tree.nodes@.len(),
            Err(e) => resolved(tree, item_path@) == Err::<SupportedItem, ResolveErrorView>(e@),
        },
        item_path@.len() == 0 ==> r matches Err(ResolveError::EmptyPath),
{
    let mut chain: Vec<SupportedItem> = Vec::new();
    let mut parent: Option<SupportedItem> = None;
    let count = item_path.0.len();
    while chain.len() < count
        invariant
            count == item_path@.len(),
            item_path@.len() == item_path.0@.len(),
            chain@.len() <= count,
            parent == parent_of(chain@),
            parent matches Some(p) ==> p.node() < tree.nodes@.len(),
            resolved(tree, item_path@) == resolve_from(tree, item_path@, chain@),
        decreases count - chain@.len(),
    {
        let segment = &item_path.0[chain.len()];
        match resolve_child(tree, &parent, &segment.0, &segment.1) {
            Ok(found) => {
                chain.push(found);
                parent = Some(found);
            },
            Err(StepFailure::Mismatch(cause)) => {
                return Err(
                    ResolveError::PathResolutionFailure { chain, expected: segment.1, cause },
                );
            },
            Err(StepFailure::UnsupportedParent) => {
                return Err(ResolveError::UnsupportedParentKind { chain });
            },
        }
    }
    match parent {
        Some(found) => Ok(found),
        None => Err(ResolveError::EmptyPath),
    }
}

} // verus!
