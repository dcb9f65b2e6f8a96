//! The kind of an item, read off what the item is.

use crate::item_index::{ItemEnum, ItemKind, MacroKind};
use vstd::prelude::*;

verus! {

/// The kind of an item that is `inner`.
pub open spec fn kind_of(inner: &ItemEnum) -> ItemKind {
    match inner {
        ItemEnum::Module { .. } => ItemKind::Module,
        ItemEnum::ExternCrate => ItemKind::ExternCrate,
        ItemEnum::Import => ItemKind::Import,
        ItemEnum::Union { .. } => ItemKind::Union,
        ItemEnum::Struct { .. } => ItemKind::Struct,
        ItemEnum::StructField => ItemKind::StructField,
        ItemEnum::Enum { .. } => ItemKind::Enum,
        ItemEnum::Variant(_) => ItemKind::Variant,
        ItemEnum::Function => ItemKind::Function,
        ItemEnum::Trait { .. } => ItemKind::Trait,
        ItemEnum::TraitAlias => ItemKind::TraitAlias,
        ItemEnum::Impl { .. } => ItemKind::Impl,
        ItemEnum::Typedef => ItemKind::Typedef,
        ItemEnum::OpaqueTy => ItemKind::OpaqueTy,
        ItemEnum::Constant => ItemKind::Constant,
        ItemEnum::Static => ItemKind::Static,
        ItemEnum::ForeignType => ItemKind::ForeignType,
        ItemEnum::Macro => ItemKind::Macro,
        ItemEnum::ProcMacro { kind } => match kind {
            MacroKind::Bang => ItemKind::Macro,
            MacroKind::Attr => ItemKind::ProcAttribute,
            MacroKind::Derive => ItemKind::ProcDerive,
        },
        ItemEnum::Primitive => ItemKind::Primitive,
        ItemEnum::AssocConst => ItemKind::AssocConst,
        ItemEnum::AssocType => ItemKind::AssocType,
    }
}

/// The name of a kind, as it is written into the name of a markdown file.
pub open spec fn kind_name(kind: ItemKind) -> Seq<char> {
    match kind {
        ItemKind::Module => "Module"@,
        ItemKind::ExternCrate => "ExternCrate"@,
        ItemKind::Import => "Import"@,
        ItemKind::Struct => "Struct"@,
        ItemKind::StructField => "StructField"@,
        ItemKind::Union => "Union"@,
        ItemKind::Enum => "Enum"@,
        ItemKind::Variant => "Variant"@,
        ItemKind::Function => "Function"@,
        ItemKind::Typedef => "Typedef"@,
        ItemKind::OpaqueTy => "OpaqueTy"@,
        ItemKind::Constant => "Constant"@,
        ItemKind::Trait => "Trait"@,
        ItemKind::TraitAlias => "TraitAlias"@,
        ItemKind::Impl => "Impl"@,
        ItemKind::Static => "Static"@,
        ItemKind::ForeignType => "ForeignType"@,
        ItemKind::Macro => "Macro"@,
        ItemKind::ProcAttribute => "ProcAttribute"@,
        ItemKind::ProcDerive => "ProcDerive"@,
        ItemKind::AssocConst => "AssocConst"@,
        ItemKind::AssocType => "AssocType"@,
        ItemKind::Primitive => "Primitive"@,
        ItemKind::Keyword => "Keyword"@,
    }
}

impl ItemEnum {
    /// The kind of the item.
    pub fn to_item_kind(&self) -> (r: ItemKind)
        ensures
            r == kind_of(self),
    {
        match self {
            ItemEnum::Module { .. } => ItemKind::Module,
            ItemEnum::ExternCrate => ItemKind::ExternCrate,
            ItemEnum::Import => ItemKind::Import,
            ItemEnum::Union { .. } => ItemKind::Union,
            ItemEnum::Struct { .. } => ItemKind::Struct,
            ItemEnum::StructField => ItemKind::StructField,
            ItemEnum::Enum { .. } => ItemKind::Enum,
            ItemEnum::Variant(_) => ItemKind::Variant,
            ItemEnum::Function => ItemKind::Function,
            ItemEnum::Trait { .. } => ItemKind::Trait,
            ItemEnum::TraitAlias => ItemKind::TraitAlias,
            ItemEnum::Impl { .. } => ItemKind::Impl,
            ItemEnum::Typedef => ItemKind::Typedef,
            ItemEnum::OpaqueTy => ItemKind::OpaqueTy,
            ItemEnum::Constant => ItemKind::Constant,
            ItemEnum::Static => ItemKind::Static,
            ItemEnum::ForeignType => ItemKind::ForeignType,
            ItemEnum::Macro => ItemKind::Macro,
            ItemEnum::ProcMacro { kind } => match kind {
                MacroKind::Bang => ItemKind::Macro,
                MacroKind::Attr => ItemKind::ProcAttribute,
                MacroKind::Derive => ItemKind::ProcDerive,
            },
            ItemEnum::Primitive => ItemKind::Primitive,
            ItemEnum::AssocConst => ItemKind::AssocConst,
            ItemEnum::AssocType => ItemKind::AssocType,
        }
    }
}

impl ItemKind {
    /// The name of the kind, as it is written into the name of a markdown
    /// file.
    pub fn name(&self) -> (r: &'static str)
        ensures
            r@ == kind_name(*self),
    {
        match self {
            ItemKind::Module => "Module",
            ItemKind::ExternCrate => "ExternCrate",
            ItemKind::Import => "Import",
            ItemKind::Struct => "Struct",
            ItemKind::StructField => "StructField",
            ItemKind::Union => "Union",
            ItemKind::Enum => "Enum",
            ItemKind::Variant => "Variant",
            ItemKind::Function => "Function",
            ItemKind::Typedef => "Typedef",
            ItemKind::OpaqueTy => "OpaqueTy",
            ItemKind::Constant => "Constant",
            ItemKind::Trait => "Trait",
            ItemKind::TraitAlias => "TraitAlias",
            ItemKind::Impl => "Impl",
            ItemKind::Static => "Static",
            ItemKind::ForeignType => "ForeignType",
            ItemKind::Macro => "Macro",
            ItemKind::ProcAttribute => "ProcAttribute",
            ItemKind::ProcDerive => "ProcDerive",
            ItemKind::AssocConst => "AssocConst",
            ItemKind::AssocType => "AssocType",
            ItemKind::Primitive => "Primitive",
            ItemKind::Keyword => "Keyword",
        }
    }
}

} // verus!
