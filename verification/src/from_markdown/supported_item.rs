//! The syntax nodes that a path can lead to.

use crate::item_index::ItemKind;
use crate::syntax_tree::{NodeKind, SyntaxTree};
use vstd::prelude::*;

verus! {

/// A node of a [`SyntaxTree`] that a path has been resolved to, tagged
/// with the sort of declaration it is. The number is the node's position
/// in [`SyntaxTree::nodes`]; it means something only for the tree it was
/// resolved in.
#[derive(Clone, Copy, Debug, PartialEq, Eq, Structural)]
pub enum SupportedItem {
    // Items
    Const(usize),
    Enum(usize),
    ExternCrate(usize),
    Fn(usize),
    Impl(usize),
    Macro(usize),
    Module(usize),
    Static(usize),
    Struct(usize),
    Trait(usize),
    TraitAlias(usize),
    Type(usize),
    Union(usize),
    Use(usize),
    // Implementation items
    ImplConst(usize),
    ImplFn(usize),
    ImplType(usize),
    // Trait items
    TraitConst(usize),
    TraitFn(usize),
    TraitType(usize),
    // Struct/enum
    Variant(usize),
    Field(usize),
}

/// Where the children of a node are looked for, and which of them count.
#[derive(Clone, Copy, Debug, PartialEq, Eq, Structural)]
pub enum SearchDomain {
    /// Free-standing declarations: the items of a file or module, and the
    /// declarations among the statements of a function body.
    Declarations,
    /// The named fields of a struct.
    Fields,
    /// The variants of an enum.
    Variants,
    /// The associated constants, functions and types of an impl block.
    ImplItems,
    /// The associated constants, functions and types of a trait.
    TraitItems,
}

/// The kind that the item index gives to a declaration of syntax kind
/// `kind`; `None` for syntax that the index never names.
pub open spec fn index_kind_of(kind: NodeKind) -> Option<ItemKind> {
    match kind {
        NodeKind::Const => Some(ItemKind::Constant),
        NodeKind::Enum => Some(ItemKind::Enum),
        NodeKind::ExternCrate => Some(ItemKind::ExternCrate),
        NodeKind::Fn => Some(ItemKind::Function),
        NodeKind::Impl => Some(ItemKind::Impl),
        NodeKind::Macro => Some(ItemKind::Macro),
        NodeKind::Module => Some(ItemKind::Module),
        NodeKind::Static => Some(ItemKind::Static),
        NodeKind::Struct => Some(ItemKind::Struct),
        NodeKind::Trait => Some(ItemKind::Trait),
        NodeKind::TraitAlias => Some(ItemKind::TraitAlias),
        NodeKind::Type => Some(ItemKind::Typedef),
        NodeKind::Union => Some(ItemKind::Union),
        NodeKind::Use => Some(ItemKind::Import),
        NodeKind::ImplConst => Some(ItemKind::AssocConst),
        NodeKind::ImplFn => Some(ItemKind::Function),
        NodeKind::ImplType => Some(ItemKind::AssocType),
        NodeKind::TraitConst => Some(ItemKind::AssocConst),
        NodeKind::TraitFn => Some(ItemKind::Function),
        NodeKind::TraitType => Some(ItemKind::AssocType),
        NodeKind::Variant => Some(ItemKind::Variant),
        NodeKind::Field => Some(ItemKind::StructField),
        NodeKind::Other => None,
    }
}

/// The entity that stands for node `node` of syntax kind `kind`.
pub open spec fn entity_of(kind: NodeKind, node: usize) -> Option<SupportedItem> {
    match kind {
        NodeKind::Const => Some(SupportedItem::Const(node)),
        NodeKind::Enum => Some(SupportedItem::Enum(node)),
        NodeKind::ExternCrate => Some(SupportedItem::ExternCrate(node)),
        NodeKind::Fn => Some(SupportedItem::Fn(node)),
        NodeKind::Impl => Some(SupportedItem::Impl(node)),
        NodeKind::Macro => Some(SupportedItem::Macro(node)),
        NodeKind::Module => Some(SupportedItem::Module(node)),
        NodeKind::Static => Some(SupportedItem::Static(node)),
        NodeKind::Struct => Some(SupportedItem::Struct(node)),
        NodeKind::Trait => Some(SupportedItem::Trait(node)),
        NodeKind::TraitAlias => Some(SupportedItem::TraitAlias(node)),
        NodeKind::Type => Some(SupportedItem::Type(node)),
        NodeKind::Union => Some(SupportedItem::Union(node)),
        NodeKind::Use => Some(SupportedItem::Use(node)),
        NodeKind::ImplConst => Some(SupportedItem::ImplConst(node)),
        NodeKind::ImplFn => Some(SupportedItem::ImplFn(node)),
        NodeKind::ImplType => Some(SupportedItem::ImplType(node)),
        NodeKind::TraitConst => Some(SupportedItem::TraitConst(node)),
        NodeKind::TraitFn => Some(SupportedItem::TraitFn(node)),
        NodeKind::TraitType => Some(SupportedItem::TraitType(node)),
        NodeKind::Variant => Some(SupportedItem::Variant(node)),
        NodeKind::Field => Some(SupportedItem::Field(node)),
        NodeKind::Other => None,
    }
}

/// Whether syntax of kind `kind` is found by its name. An impl block and
/// a use declaration have no name of their own: they are found by kind
/// alone.
pub open spec fn found_by_name(kind: NodeKind) -> bool {
    kind != NodeKind::Impl && kind != NodeKind::Use
}

/// Whether syntax of kind `kind` belongs to the search domain `domain`.
pub open spec fn in_domain(domain: SearchDomain, kind: NodeKind) -> bool {
    match domain {
        SearchDomain::Declarations => matches!(
            kind,
            NodeKind::Const | NodeKind::Enum | NodeKind::ExternCrate | NodeKind::Fn
                | NodeKind::Impl | NodeKind::Macro | NodeKind::Module | NodeKind::Static
                | NodeKind::Struct | NodeKind::Trait | NodeKind::TraitAlias | NodeKind::Type
                | NodeKind::Union | NodeKind::Use
        ),
        SearchDomain::Fields => kind == NodeKind::Field,
        SearchDomain::Variants => kind == NodeKind::Variant,
        SearchDomain::ImplItems => matches!(
            kind,
            NodeKind::ImplConst | NodeKind::ImplFn | NodeKind::ImplType
        ),
        SearchDomain::TraitItems => matches!(
            kind,
            NodeKind::TraitConst | NodeKind::TraitFn | NodeKind::TraitType
        ),
    }
}

/// What node `node` resolves to when a path asks, inside `domain`, for
/// the name `part` with the index kind `kind`: the node's entity if the
/// node exists, belongs to the domain, is of the kind asked for and, where
/// its sort is found by name, carries that name; otherwise nothing.
pub open spec fn candidate(
    tree: &SyntaxTree,
    domain: SearchDomain,
    node: usize,
    part: Seq<char>,
    kind: ItemKind,
) -> Option<SupportedItem> {
    if node < tree.nodes@.len() {
        let n = tree.nodes@[node as int];
        if in_domain(domain, n.kind) && index_kind_of(n.kind) == Some(kind) && (found_by_name(
            n.kind,
        ) ==> n.is_named(part)) {
            entity_of(n.kind, node)
        } else {
            None
        }
    } else {
        None
    }
}

/// Computes [`index_kind_of`].
pub fn index_kind(kind: NodeKind) -> (r: Option<ItemKind>)
    ensures
        r == index_kind_of(kind),
{
    match kind {
        NodeKind::Const => Some(ItemKind::Constant),
        NodeKind::Enum => Some(ItemKind::Enum),
        NodeKind::ExternCrate => Some(ItemKind::ExternCrate),
        NodeKind::Fn => Some(ItemKind::Function),
        NodeKind::Impl => Some(ItemKind::Impl),
        NodeKind::Macro => Some(ItemKind::Macro),
        NodeKind::Module => Some(ItemKind::Module),
        NodeKind::Static => Some(ItemKind::Static),
        NodeKind::Struct => Some(ItemKind::Struct),
        NodeKind::Trait => Some(ItemKind::Trait),
        NodeKind::TraitAlias => Some(ItemKind::TraitAlias),
        NodeKind::Type => Some(ItemKind::Typedef),
        NodeKind::Union => Some(ItemKind::Union),
        NodeKind::Use => Some(ItemKind::Import),
        NodeKind::ImplConst => Some(ItemKind::AssocConst),
        NodeKind::ImplFn => Some(ItemKind::Function),
        NodeKind::ImplType => Some(ItemKind::AssocType),
        NodeKind::TraitConst => Some(ItemKind::AssocConst),
        NodeKind::TraitFn => Some(ItemKind::Function),
        NodeKind::TraitType => Some(ItemKind::AssocType),
        NodeKind::Variant => Some(ItemKind::Variant),
        NodeKind::Field => Some(ItemKind::StructField),
        NodeKind::Other => None,
    }
}

/// Computes [`entity_of`].
pub fn entity(kind: NodeKind, node: usize) -> (r: Option<SupportedItem>)
    ensures
        r == entity_of(kind, node),
{
    match kind {
        NodeKind::Const => Some(SupportedItem::Const(node)),
        NodeKind::Enum => Some(SupportedItem::Enum(node)),
        NodeKind::ExternCrate => Some(SupportedItem::ExternCrate(node)),
        NodeKind::Fn => Some(SupportedItem::Fn(node)),
        NodeKind::Impl => Some(SupportedItem::Impl(node)),
        NodeKind::Macro => Some(SupportedItem::Macro(node)),
        NodeKind::Module => Some(SupportedItem::Module(node)),
        NodeKind::Static => Some(SupportedItem::Static(node)),
        NodeKind::Struct => Some(SupportedItem::Struct(node)),
        NodeKind::Trait => Some(SupportedItem::Trait(node)),
        NodeKind::TraitAlias => Some(SupportedItem::TraitAlias(node)),
        NodeKind::Type => Some(SupportedItem::Type(node)),
        NodeKind::Union => Some(SupportedItem::Union(node)),
        NodeKind::Use => Some(SupportedItem::Use(node)),
        NodeKind::ImplConst => Some(SupportedItem::ImplConst(node)),
        NodeKind::ImplFn => Some(SupportedItem::ImplFn(node)),
        NodeKind::ImplType => Some(SupportedItem::ImplType(node)),
        NodeKind::TraitConst => Some(SupportedItem::TraitConst(node)),
        NodeKind::TraitFn => Some(SupportedItem::TraitFn(node)),
        NodeKind::TraitType => Some(SupportedItem::TraitType(node)),
        NodeKind::Variant => Some(SupportedItem::Variant(node)),
        NodeKind::Field => Some(SupportedItem::Field(node)),
        NodeKind::Other => None,
    }
}

/// Computes [`in_domain`].
pub fn belongs_to(domain: SearchDomain, kind: NodeKind) -> (r: bool)
    ensures
        r == in_domain(domain, kind),
{
    match domain {
        SearchDomain::Declarations => matches!(
            kind,
            NodeKind::Const | NodeKind::Enum | NodeKind::ExternCrate | NodeKind::Fn
                | NodeKind::Impl | NodeKind::Macro | NodeKind::Module | NodeKind::Static
                | NodeKind::Struct | NodeKind::Trait | NodeKind::TraitAlias | NodeKind::Type
                | NodeKind::Union | NodeKind::Use
        ),
        SearchDomain::Fields => kind == NodeKind::Field,
        SearchDomain::Variants => kind == NodeKind::Variant,
        SearchDomain::ImplItems => matches!(
            kind,
            NodeKind::ImplConst | NodeKind::ImplFn | NodeKind::ImplType
        ),
        SearchDomain::TraitItems => matches!(
            kind,
            NodeKind::TraitConst | NodeKind::TraitFn | NodeKind::TraitType
        ),
    }
}

/// Computes [`candidate`].
pub fn candidate_in(
    tree: &SyntaxTree,
    domain: SearchDomain,
    node: usize,
    part: &String,
    kind: &ItemKind,
) -> (r: Option<SupportedItem>)
    ensures
        r == candidate(tree, domain, node, part@, *kind),
{
    if node >= tree.nodes.len() {
        return None;
    }
    let n = &tree.nodes[node];
    if !belongs_to(domain, n.kind) {
        return None;
    }
    match index_kind(n.kind) {
        Some(k) => {
            if k != *kind {
                return None;
            }
        },
        None => {
            return None;
        },
    }
    let by_name = n.kind != NodeKind::Impl && n.kind != NodeKind::Use;
    if by_name && !n.has_name(part) {
        return None;
    }
    entity(n.kind, node)
}

impl SupportedItem {
    /// The position, in the tree's arena, of the node this entity stands
    /// for.
    pub open spec fn node(self) -> usize {
        match self {
            SupportedItem::Const(i) => i,
            SupportedItem::Enum(i) => i,
            SupportedItem::ExternCrate(i) => i,
            SupportedItem::Fn(i) => i,
            SupportedItem::Impl(i) => i,
            SupportedItem::Macro(i) => i,
            SupportedItem::Module(i) => i,
            SupportedItem::Static(i) => i,
            SupportedItem::Struct(i) => i,
            SupportedItem::Trait(i) => i,
            SupportedItem::TraitAlias(i) => i,
            SupportedItem::Type(i) => i,
            SupportedItem::Union(i) => i,
            SupportedItem::Use(i) => i,
            SupportedItem::ImplConst(i) => i,
            SupportedItem::ImplFn(i) => i,
            SupportedItem::ImplType(i) => i,
            SupportedItem::TraitConst(i) => i,
            SupportedItem::TraitFn(i) => i,
            SupportedItem::TraitType(i) => i,
            SupportedItem::Variant(i) => i,
            SupportedItem::Field(i) => i,
        }
    }

    /// The position, in the tree's arena, of the node this entity stands
    /// for.
    pub fn inner(&self) -> (r: usize)
        ensures
            r == self.node(),
    {
        match self {
            SupportedItem::Const(i) => *i,
            SupportedItem::Enum(i) => *i,
            SupportedItem::ExternCrate(i) => *i,
            SupportedItem::Fn(i) => *i,
            SupportedItem::Impl(i) => *i,
            SupportedItem::Macro(i) => *i,
            SupportedItem::Module(i) => *i,
            SupportedItem::Static(i) => *i,
            SupportedItem::Struct(i) => *i,
            SupportedItem::Trait(i) => *i,
            SupportedItem::TraitAlias(i) => *i,
            SupportedItem::Type(i) => *i,
            SupportedItem::Union(i) => *i,
            SupportedItem::Use(i) => *i,
            SupportedItem::ImplConst(i) => *i,
            SupportedItem::ImplFn(i) => *i,
            SupportedItem::ImplType(i) => *i,
            SupportedItem::TraitConst(i) => *i,
            SupportedItem::TraitFn(i) => *i,
            SupportedItem::TraitType(i) => *i,
            SupportedItem::Variant(i) => *i,
            SupportedItem::Field(i) => *i,
        }
    }

    /// The free-standing declaration that node `item` of `tree` is, if it
    /// is the one a path asks for under the name `part` and the index kind
    /// `kind`.
    ///
    /// The node must be a declaration of that kind and carry that name. An
    /// impl block and a use declaration are matched by kind alone. Any
    /// other node, and a position outside the tree, gives `None`.
    pub fn from_item(tree: &SyntaxTree, item: usize, part: &String, kind: &ItemKind) -> (r: Option<
        SupportedItem,
    >)
        ensures
            r == candidate(tree, SearchDomain::Declarations, item, part@, *kind),
            r matches Some(found) ==> found.node() == item && item < tree.nodes@.len(),
    {
        candidate_in(tree, SearchDomain::Declarations, item, part, kind)
    }
}

} // verus!
