//! A parsed source file, held as an arena of nodes.
//!
//! A node keeps only what path resolution and comment splicing read: what
//! sort of declaration it is, its name, whether it has a body, the
//! declarations directly inside it, and where it stands in the file.
//! Nodes refer to each other by their position in [`SyntaxTree::nodes`].

use vstd::prelude::*;

verus! {

/// A position in a source file. Lines count from 1, columns from 0.
#[derive(Clone, Copy, Debug, PartialEq, Eq, Structural)]
pub struct LineColumn {
    pub line: usize,
    pub column: usize,
}

/// The stretch of a source file a node covers, from its first token to
/// just behind its last.
#[derive(Clone, Copy, Debug, PartialEq, Eq, Structural)]
pub struct SourceSpan {
    pub start: LineColumn,
    pub end: LineColumn,
}

/// What sort of syntax a node is.
///
/// `Other` stands for everything that can never be the target of a path:
/// statements that are not declarations, and declarations of a sort that
/// carries no documentation of its own.
#[derive(Clone, Copy, Debug, PartialEq, Eq, Structural)]
pub enum NodeKind {
    Const,
    Enum,
    ExternCrate,
    Fn,
    Impl,
    Macro,
    Module,
    Static,
    Struct,
    Trait,
    TraitAlias,
    Type,
    Union,
    Use,
    ImplConst,
    ImplFn,
    ImplType,
    TraitConst,
    TraitFn,
    TraitType,
    Variant,
    Field,
    Other,
}

/// One node of a [`SyntaxTree`].
pub struct SyntaxNode {
    pub kind: NodeKind,
    /// The declared name; `None` for what has none (an impl block, a use
    /// declaration, a tuple field, an unnamed macro invocation).
    pub name: Option<String>,
    /// Whether the node has a body of its own: the braces of an inline
    /// module, the default block of a trait method. Always `true` for the
    /// sorts of node whose body cannot be left out.
    pub has_body: bool,
    /// The nodes directly inside this one, in source order: the items of a
    /// module, the statements of a function body, the fields of a struct,
    /// the variants of an enum, the associated items of a trait or impl.
    pub children: Vec<usize>,
    pub span: SourceSpan,
}

/// A parsed source file.
pub struct SyntaxTree {
    pub nodes: Vec<SyntaxNode>,
    /// The top-level declarations of the file, in source order.
    pub items: Vec<usize>,
    /// The spans of the attributes attached to the file itself.
    pub attrs: Vec<SourceSpan>,
}

impl SyntaxNode {
    /// Whether the node is declared under the name `part`.
    pub open spec fn is_named(&self, part: Seq<char>) -> bool {
        self.name matches Some(n) && n@ == part
    }

    /// Tells whether the node is declared under the name `part`.
    pub fn has_name(&self, part: &String) -> (r: bool)
        ensures
            r == self.is_named(part@),
    {
        match &self.name {
            Some(n) => *n == *part,
            None => false,
        }
    }
}

} // verus!
