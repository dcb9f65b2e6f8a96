//! The items found inside an item, as work still to be done.

use crate::item_index::{ItemEnum, ItemKind, VariantKind};
use vstd::prelude::*;

verus! {

/// An item that waits to be exported.
#[derive(Debug)]
pub enum ExportTask {
    /// An item of the table of paths. It is exported under its full path
    /// and with the kind that the table gives it.
    Listed { id: String, path: Vec<String>, kind: ItemKind },
    /// An item found inside another item. It is exported under the path
    /// of that item followed by its own name, and with the kind that it
    /// has itself; an item without a name is not exported.
    Child { id: String, parent_path: Vec<String> },
}

/// An [`ExportTask`] as plain values.
pub enum ExportTaskView {
    Listed { id: Seq<char>, path: Seq<Seq<char>>, kind: ItemKind },
    Child { id: Seq<char>, parent_path: Seq<Seq<char>> },
}

impl View for ExportTask {
    type V = ExportTaskView;

    open spec fn view(&self) -> ExportTaskView {
        match self {
            ExportTask::Listed { id, path, kind } => ExportTaskView::Listed {
                id: id@,
                path: path.deep_view(),
                kind: *kind,
            },
            ExportTask::Child { id, parent_path } => ExportTaskView::Child {
                id: id@,
                parent_path: parent_path.deep_view(),
            },
        }
    }
}

/// The tasks of a list, as plain values.
pub open spec fn tasks_view(tasks: Seq<ExportTask>) -> Seq<ExportTaskView> {
    Seq::new(tasks.len(), |i: int| tasks[i]@)
}

/// The ids that are there, in order.
pub open spec fn present(ids: Seq<Option<Seq<char>>>) -> Seq<Seq<char>>
    decreases ids.len(),
{
    if ids.len() == 0 {
        Seq::empty()
    } else {
        present(ids.drop_last()) + match ids.last() {
            Some(id) => seq![id],
            None => Seq::empty(),
        }
    }
}

/// The ids of the items found inside an item that is `inner`, in the
/// order in which they are exported: the items of a module; the fields
/// and then the impls of a union; the impls of a struct; the variants and
/// then the impls of an enum; the fields of a variant; the items and then
/// the implementations of a trait; the items of an impl. Nothing else has
/// items inside it.
pub open spec fn child_ids(inner: &ItemEnum) -> Seq<Seq<char>> {
    match inner {
        ItemEnum::Module { items } => items.deep_view(),
        ItemEnum::Union { fields, impls } => fields.deep_view() + impls.deep_view(),
        ItemEnum::Struct { impls } => impls.deep_view(),
        ItemEnum::Enum { variants, impls } => variants.deep_view() + impls.deep_view(),
        ItemEnum::Variant(VariantKind::Plain) => Seq::empty(),
        ItemEnum::Variant(VariantKind::Tuple(fields)) => present(fields.deep_view()),
        ItemEnum::Variant(VariantKind::Struct { fields }) => fields.deep_view(),
        ItemEnum::Trait { items, implementations } => items.deep_view()
            + implementations.deep_view(),
        ItemEnum::Impl { items } => items.deep_view(),
        _ => Seq::empty(),
    }
}

/// One task for each of `ids`, all below `parent_path`.
pub open spec fn tasks_below(parent_path: Seq<Seq<char>>, ids: Seq<Seq<char>>) -> Seq<
    ExportTaskView,
> {
    Seq::new(ids.len(), |i: int| ExportTaskView::Child { id: ids[i], parent_path })
}

/// The tasks for the items found inside an item that is `inner` and is
/// exported under `parent_path`.
pub open spec fn child_tasks(parent_path: Seq<Seq<char>>, inner: &ItemEnum) -> Seq<ExportTaskView> {
    tasks_below(parent_path, child_ids(inner))
}

/// A copy of a list of names.
pub fn copy_names(names: &Vec<String>) -> (r: Vec<String>)
    ensures
        r.deep_view() == names.deep_view(),
{
    let mut out: Vec<String> = Vec::new();
    let mut i: usize = 0;
    while i < names.len()
        invariant
            i <= names@.len(),
            out.deep_view() == names.deep_view().take(i as int),
        decreases names@.len() - i,
    {
        let ghost done = out.deep_view();
        let name = names[i].clone();
        out.push(name);
        proof {
            assert(out.deep_view() == done.push(name@));
            assert(names.deep_view().take(i + 1) == names.deep_view().take(i as int).push(name@));
        }
        i += 1;
    }
    assert(names.deep_view().take(names@.len() as int) == names.deep_view());
    out
}

/// Adds to `tasks` one task for each of `ids`, all below `parent_path`.
pub fn iterate_ids(parent_path: &Vec<String>, ids: &Vec<String>, tasks: &mut Vec<ExportTask>)
    ensures
        tasks_view(final(tasks)@) == tasks_view(old(tasks)@) + tasks_below(
            parent_path.deep_view(),
            ids.deep_view(),
        ),
{
    let ghost before = tasks_view(tasks@);
    let ghost path = parent_path.deep_view();
    let ghost all = ids.deep_view();
    let mut i: usize = 0;
    assert(before + tasks_below(path, all.take(0)) == before);
    while i < ids.len()
        invariant
            i <= ids@.len(),
            path == parent_path.deep_view(),
            all == ids.deep_view(),
            tasks_view(tasks@) == before + tasks_below(path, all.take(i as int)),
        decreases ids@.len() - i,
    {
        let ghost done = tasks_view(tasks@);
        let task = ExportTask::Child { id: ids[i].clone(), parent_path: copy_names(parent_path) };
        let ghost added = task@;
        tasks.push(task);
        proof {
            assert(tasks_view(tasks@) == done.push(added));
            assert(tasks_below(path, all.take(i + 1)) == tasks_below(path, all.take(i as int)).push(
                added,
            ));
            assert(before + tasks_below(path, all.take(i as int)).push(added) == (before
                + tasks_below(path, all.take(i as int))).push(added));
        }
        i += 1;
    }
    assert(all.take(all.len() as int) == all);
}

/// Adds to `tasks` one task for each of `ids` that is there, all below
/// `parent_path`.
fn iterate_present_ids(
    parent_path: &Vec<String>,
    ids: &Vec<Option<String>>,
    tasks: &mut Vec<ExportTask>,
)
    ensures
        tasks_view(final(tasks)@) == tasks_view(old(tasks)@) + tasks_below(
            parent_path.deep_view(),
            present(ids.deep_view()),
        ),
{
    let ghost before = tasks_view(tasks@);
    let ghost path = parent_path.deep_view();
    let ghost all = ids.deep_view();
    let mut i: usize = 0;
    assert(before + tasks_below(path, present(all.take(0))) == before);
    while i < ids.len()
        invariant
            i <= ids@.len(),
            path == parent_path.deep_view(),
            all == ids.deep_view(),
            tasks_view(tasks@) == before + tasks_below(path, present(all.take(i as int))),
        decreases ids@.len() - i,
    {
        let ghost done = tasks_view(tasks@);
        proof {
            assert(all.take(i + 1).drop_last() == all.take(i as int));
            assert(all.take(i + 1).last() == all[i as int]);
        }
        match &ids[i] {
            Some(id) => {
                let task = ExportTask::Child { id: id.clone(), parent_path: copy_names(parent_path) };
                let ghost added = task@;
                tasks.push(task);
                proof {
                    let so_far = present(all.take(i as int));
                    assert(tasks_view(tasks@) == done.push(added));
                    assert(present(all.take(i + 1)) == so_far.push(id@));
                    assert(tasks_below(path, so_far.push(id@)) == tasks_below(path, so_far).push(
                        added,
                    ));
                    assert(before + tasks_below(path, so_far).push(added) == (before + tasks_below(
                        path,
                        so_far,
                    )).push(added));
                }
            },
            None => {
                assert(present(all.take(i + 1)) == present(all.take(i as int)));
            },
        }
        i += 1;
    }
    assert(all.take(all.len() as int) == all);
}

/// Tasks below the same path for two lists of ids, one behind the other,
/// are the tasks for the two lists joined.
proof fn lemma_tasks_below_concat(path: Seq<Seq<char>>, a: Seq<Seq<char>>, b: Seq<Seq<char>>)
    ensures
        tasks_below(path, a) + tasks_below(path, b) == tasks_below(path, a + b),
{
}

/// The tasks for the items found inside `item`, which is exported under
/// `parent_path`, in the order in which they are to be done.
pub fn iterate_children(parent_path: &Vec<String>, item: &ItemEnum) -> (r: Vec<ExportTask>)
    ensures
        tasks_view(r@) == child_tasks(parent_path.deep_view(), item),
{
    let mut tasks: Vec<ExportTask> = Vec::new();
    let ghost path = parent_path.deep_view();
    assert(tasks_view(tasks@) == Seq::<ExportTaskView>::empty());
    match item {
        ItemEnum::Module { items } => {
            iterate_ids(parent_path, items, &mut tasks);
        },
        ItemEnum::Union { fields, impls } => {
            iterate_ids(parent_path, fields, &mut tasks);
            iterate_ids(parent_path, impls, &mut tasks);
            proof {
                lemma_tasks_below_concat(path, fields.deep_view(), impls.deep_view());
            }
        },
        ItemEnum::Struct { impls } => {
            iterate_ids(parent_path, impls, &mut tasks);
        },
        ItemEnum::Enum { variants, impls } => {
            iterate_ids(parent_path, variants, &mut tasks);
            iterate_ids(parent_path, impls, &mut tasks);
            proof {
                lemma_tasks_below_concat(path, variants.deep_view(), impls.deep_view());
            }
        },
        ItemEnum::Variant(kind) => match kind {
            VariantKind::Plain => {},
            VariantKind::Tuple(fields) => {
                iterate_present_ids(parent_path, fields, &mut tasks);
            },
            VariantKind::Struct { fields } => {
                iterate_ids(parent_path, fields, &mut tasks);
            },
        },
        ItemEnum::Trait { items, implementations } => {
            iterate_ids(parent_path, items, &mut tasks);
            iterate_ids(parent_path, implementations, &mut tasks);
            proof {
                lemma_tasks_below_concat(path, items.deep_view(), implementations.deep_view());
            }
        },
        ItemEnum::Impl { items } => {
            iterate_ids(parent_path, items, &mut tasks);
        },
        _ => {},
    }
    tasks
}

} // verus!
