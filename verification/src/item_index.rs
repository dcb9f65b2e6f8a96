//! The item index: every item the documentation compiler found, as plain
//! values.
//!
//! The index has two tables. One holds the items themselves, each with its
//! documentation and the ids of the items found inside it. The other gives
//! the full path and the kind of every item that can be named from
//! outside. Both are keyed by the id of the item, an opaque text.

use crate::text::same_text;
use vstd::prelude::*;

verus! {

/// What sort of declaration an item is.
#[derive(Clone, Copy, Debug, PartialEq, Eq, Structural, Hash)]
pub enum ItemKind {
    Module,
    ExternCrate,
    Import,
    Struct,
    StructField,
    Union,
    Enum,
    Variant,
    Function,
    Typedef,
    OpaqueTy,
    Constant,
    Trait,
    TraitAlias,
    Impl,
    Static,
    ForeignType,
    Macro,
    ProcAttribute,
    ProcDerive,
    AssocConst,
    AssocType,
    Primitive,
    Keyword,
}

/// How a procedural macro is called.
#[derive(Clone, Copy, Debug, PartialEq, Eq, Structural)]
pub enum MacroKind {
    /// `foo!()`
    Bang,
    /// `#[foo]`
    Attr,
    /// `#[derive(Foo)]`
    Derive,
}

/// What a variant of an enum holds.
#[derive(Debug)]
pub enum VariantKind {
    /// Nothing.
    Plain,
    /// Unnamed fields; `None` stands for a field that is hidden from the
    /// documentation.
    Tuple(Vec<Option<String>>),
    /// Named fields.
    Struct { fields: Vec<String> },
}

/// What an item is, with the ids of the items found inside it.
#[derive(Debug)]
pub enum ItemEnum {
    Module { items: Vec<String> },
    ExternCrate,
    Import,
    Union { fields: Vec<String>, impls: Vec<String> },
    Struct { impls: Vec<String> },
    StructField,
    Enum { variants: Vec<String>, impls: Vec<String> },
    Variant(VariantKind),
    Function,
    Trait { items: Vec<String>, implementations: Vec<String> },
    TraitAlias,
    Impl { items: Vec<String> },
    Typedef,
    OpaqueTy,
    Constant,
    Static,
    ForeignType,
    Macro,
    ProcMacro { kind: MacroKind },
    Primitive,
    AssocConst,
    AssocType,
}

/// One item of the index.
#[derive(Debug)]
pub struct Item {
    /// The id of the item. In a well-formed index no two items share it:
    /// see [`ItemIndex::ids_are_unique`].
    pub id: String,
    /// The declared name; `None` for what has none, such as an impl block.
    pub name: Option<String>,
    /// The documentation of the item; `None` if it has none at all.
    pub docs: Option<String>,
    /// The source file that declares the item; `None` for an item that
    /// has no place in the source, such as one that a macro wrote.
    pub filename: Option<String>,
    pub inner: ItemEnum,
}

/// How an item is named from outside.
#[derive(Debug)]
pub struct ItemSummary {
    /// The crate the item belongs to; 0 is the crate that was documented.
    pub crate_id: u32,
    /// The full path of the item, beginning with the name of its crate.
    pub path: Vec<String>,
    pub kind: ItemKind,
}

/// The item index.
#[derive(Debug)]
pub struct ItemIndex {
    /// The items.
    pub index: Vec<Item>,
    /// The id of every item that has a full path, with that path.
    pub paths: Vec<(String, ItemSummary)>,
}

/// The first position of `ids` that holds `id`.
pub open spec fn position_in(ids: Seq<Seq<char>>, id: Seq<char>) -> Option<int>
    decreases ids.len(),
{
    if ids.len() == 0 {
        None
    } else if position_in(ids.drop_last(), id) is Some {
        position_in(ids.drop_last(), id)
    } else if ids.last() == id {
        Some(ids.len() - 1)
    } else {
        None
    }
}

/// [`position_in`] gives the first position that holds the id, and
/// nothing only where no position holds it.
pub proof fn lemma_position_in(ids: Seq<Seq<char>>, id: Seq<char>)
    ensures
        match position_in(ids, id) {
            Some(at) => 0 <= at < ids.len() && ids[at] == id && forall|k: int|
                0 <= k < at ==> ids[k] != id,
            None => forall|k: int| 0 <= k < ids.len() ==> ids[k] != id,
        },
    decreases ids.len(),
{
    if ids.len() > 0 {
        lemma_position_in(ids.drop_last(), id);
        assert forall|k: int| 0 <= k < ids.len() - 1 implies ids[k] == ids.drop_last()[k] by {}
    }
}

/// Whether no id stands twice among `ids`.
pub open spec fn no_id_twice(ids: Seq<Seq<char>>) -> bool {
    forall|i: int, j: int| #![trigger ids[i], ids[j]] 0 <= i < j < ids.len() ==> ids[i] != ids[j]
}

/// Among ids of which none stands twice, every id is found where it
/// stands.
pub proof fn lemma_unique_id_is_found(ids: Seq<Seq<char>>, at: int)
    requires
        no_id_twice(ids),
        0 <= at < ids.len(),
    ensures
        position_in(ids, ids[at]) == Some(at),
{
    lemma_position_in(ids, ids[at]);
}

impl ItemIndex {
    /// The ids of the items, in the order of the table.
    pub open spec fn item_ids(&self) -> Seq<Seq<char>> {
        Seq::new(self.index@.len(), |i: int| self.index@[i].id@)
    }

    /// The ids of the items that have a full path, in the order of the
    /// table.
    pub open spec fn path_ids(&self) -> Seq<Seq<char>> {
        Seq::new(self.paths@.len(), |i: int| self.paths@[i].0@)
    }

    /// Whether the index is well-formed: no id stands twice among the
    /// items, and none stands twice in the table of paths. Every id then
    /// names one item and one path at most, as it does in the maps that
    /// the documentation compiler writes.
    pub open spec fn ids_are_unique(&self) -> bool {
        no_id_twice(self.item_ids()) && no_id_twice(self.path_ids())
    }

    /// Tells whether no id stands twice in either table.
    pub fn has_unique_ids(&self) -> (r: bool)
        ensures
            r == self.ids_are_unique(),
    {
        let ghost items = self.item_ids();
        let ghost paths = self.path_ids();
        let mut j: usize = 0;
        while j < self.index.len()
            invariant
                j <= self.index@.len(),
                items == self.item_ids(),
                forall|a: int, b: int|
                    #![trigger items[a], items[b]]
                    0 <= a < b < j ==> items[a] != items[b],
            decreases self.index@.len() - j,
        {
            proof {
                lemma_position_in(items, items[j as int]);
            }
            match self.find(self.index[j].id.as_str()) {
                Some(at) => {
                    if at != j {
                        assert(at < j);
                        assert(items[at as int] == items[j as int]);
                        return false;
                    }
                },
                None => {
                    return false;
                },
            }
            j += 1;
        }
        let mut k: usize = 0;
        while k < self.paths.len()
            invariant
                k <= self.paths@.len(),
                paths == self.path_ids(),
                no_id_twice(self.item_ids()),
                forall|a: int, b: int|
                    #![trigger paths[a], paths[b]]
                    0 <= a < b < k ==> paths[a] != paths[b],
            decreases self.paths@.len() - k,
        {
            proof {
                lemma_position_in(paths, paths[k as int]);
            }
            match self.find_path(self.paths[k].0.as_str()) {
                Some(at) => {
                    if at != k {
                        assert(at < k);
                        assert(paths[at as int] == paths[k as int]);
                        return false;
                    }
                },
                None => {
                    return false;
                },
            }
            k += 1;
        }
        true
    }

    /// Tells whether the table of paths lists the item with the id `id`.
    /// An item that it does not list has no full path of its own; where
    /// one is needed, it can only be estimated.
    pub fn has_listed_path(&self, id: &str) -> (r: bool)
        ensures
            r == (position_in(self.path_ids(), id@) is Some),
    {
        self.find_path(id).is_some()
    }

    /// The position of the item with the id `id`.
    pub fn find(&self, id: &str) -> (r: Option<usize>)
        ensures
            r matches Some(at) ==> position_in(self.item_ids(), id@) == Some(at as int) && at
                < self.index@.len() && self.index@[at as int].id@ == id@,
            r is None ==> position_in(self.item_ids(), id@) is None,
            r is None ==> forall|k: int| 0 <= k < self.index@.len() ==> self.index@[k].id@ != id@,
    {

        let ghost ids = self.item_ids();
        let mut i: usize = 0;
        while i < self.index.len()
            invariant
                i <= self.index@.len(),
                ids == self.item_ids(),
                position_in(ids.take(i as int), id@) is None,
            decreases self.index@.len() - i,
        {
            proof {
                assert(ids.take(i + 1).drop_last() == ids.take(i as int));
            }
            if same_text(self.index[i].id.as_str(), id) {
                proof {
                    assert(ids.take(i + 1).last() == id@);
                    lemma_position_prefix(ids, id@, i + 1);
                }
                return Some(i);
            }
            i += 1;
        }
        proof {
            assert(ids.take(ids.len() as int) == ids);
            lemma_position_in(ids, id@);
            assert forall|k: int| 0 <= k < self.index@.len() implies self.index@[k].id@ != id@ by {
                assert(ids[k] == self.index@[k].id@);
            }
        }
        None
    }

    /// The position, in the table of paths, of the entry for the id `id`.
    pub fn find_path(&self, id: &str) -> (r: Option<usize>)
        ensures
            r matches Some(at) ==> position_in(self.path_ids(), id@) == Some(at as int) && at
                < self.paths@.len() && self.paths@[at as int].0@ == id@,
            r is None ==> position_in(self.path_ids(), id@) is None,
            r is None ==> forall|k: int| 0 <= k < self.paths@.len() ==> self.paths@[k].0@ != id@,
    {

        let ghost ids = self.path_ids();
        let mut i: usize = 0;
        while i < self.paths.len()
            invariant
                i <= self.paths@.len(),
                ids == self.path_ids(),
                position_in(ids.take(i as int), id@) is None,
            decreases self.paths@.len() - i,
        {
            proof {
                assert(ids.take(i + 1).drop_last() == ids.take(i as int));
            }
            if same_text(self.paths[i].0.as_str(), id) {
                proof {
                    assert(ids.take(i + 1).last() == id@);
                    lemma_position_prefix(ids, id@, i + 1);
                }
                return Some(i);
            }
            i += 1;
        }
        proof {
            assert(ids.take(ids.len() as int) == ids);
            lemma_position_in(ids, id@);
            assert forall|k: int| 0 <= k < self.paths@.len() implies self.paths@[k].0@ != id@ by {
                assert(ids[k] == self.paths@[k].0@);
            }
        }
        None
    }
}

/// A position found among the first ids is the position among all.
pub proof fn lemma_position_prefix(ids: Seq<Seq<char>>, id: Seq<char>, n: int)
    requires
        0 <= n <= ids.len(),
        position_in(ids.take(n), id) is Some,
    ensures
        position_in(ids, id) == position_in(ids.take(n), id),
    decreases ids.len() - n,
{
    if n < ids.len() {
        assert(ids.take(n + 1).drop_last() == ids.take(n));
        lemma_position_prefix(ids, id, n + 1);
    } else {
        assert(ids.take(n) == ids);
    }
}

} // verus!
