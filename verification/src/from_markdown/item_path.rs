//! The path of an item inside the file that declares it.

use crate::from_markdown::module_paths::{AbsoluteModulePath, RelativeModulePath};
use crate::item_index::{ItemIndex, ItemKind, ItemSummary};
use crate::text::same_range;
use vstd::prelude::*;

verus! {

/// The chain of declarations that leads from the top of a file down to one
/// item: for each step the name declared there and the sort of declaration.
///
/// The chain is ordered, outermost first. An empty chain stands for the
/// file itself.
#[derive(Debug)]
pub struct ItemPath(pub Vec<(String, ItemKind)>);

/// Why the path of an item could not be built: at some step the index
/// does not hold exactly one item of that name.
#[derive(Debug)]
pub struct AmbiguousOrMissing {
    /// The names from the module boundary down to the step that failed,
    /// that step included. Empty where the full path of the item does not
    /// even reach the module boundary.
    pub prefix: Vec<String>,
    /// How many items of the index have these names: none, or more than
    /// one.
    pub matches: usize,
}

impl View for ItemPath {
    type V = Seq<(Seq<char>, ItemKind)>;

    open spec fn view(&self) -> Seq<(Seq<char>, ItemKind)> {
        Seq::new(self.0@.len(), |i: int| (self.0@[i].0@, self.0@[i].1))
    }
}

/// Whether an entry of the index belongs to the documented crate and to
/// the module `module`: behind the name of the crate, its path goes on
/// with the segments of the module.
pub open spec fn is_in_module(summary: &ItemSummary, module: Seq<Seq<char>>) -> bool {
    summary.crate_id == 0 && summary.path@.len() >= 1 + module.len()
        && summary.path.deep_view().subrange(1, module.len() as int + 1) == module
}

/// Whether an entry of the index is the item that, inside the module
/// `module`, goes by the names `names`.
pub open spec fn is_named(summary: &ItemSummary, module: Seq<Seq<char>>, names: Seq<Seq<char>>) -> bool {
    is_in_module(summary, module) && summary.path.deep_view().subrange(
        module.len() as int + 1,
        summary.path@.len() as int,
    ) == names
}

/// The kinds of the entries that go by the names `names` inside the
/// module `module`, in the order of the table.
pub open spec fn kinds_named(
    paths: Seq<(String, ItemSummary)>,
    module: Seq<Seq<char>>,
    names: Seq<Seq<char>>,
) -> Seq<ItemKind>
    decreases paths.len(),
{
    if paths.len() == 0 {
        Seq::empty()
    } else {
        kinds_named(paths.drop_last(), module, names) + if is_named(
            &paths.last().1,
            module,
            names,
        ) {
            seq![paths.last().1.kind]
        } else {
            Seq::empty()
        }
    }
}

/// The names of the first `count` steps below the module boundary: the
/// segments of `full` behind the name of the crate and the segments of
/// the module.
pub open spec fn names_below(module: Seq<Seq<char>>, full: Seq<Seq<char>>, count: int) -> Seq<
    Seq<char>,
> {
    full.subrange(module.len() as int + 1, module.len() as int + 1 + count)
}

/// Whether `steps` holds, for each of its steps, the name of that step
/// and the kind of the one item that goes by the names down to it.
pub open spec fn steps_are_unique(
    paths: Seq<(String, ItemSummary)>,
    module: Seq<Seq<char>>,
    full: Seq<Seq<char>>,
    steps: Seq<(Seq<char>, ItemKind)>,
) -> bool {
    forall|k: int| 0 <= k < steps.len() ==> #[trigger] step_is_unique(paths, module, full, steps, k)
}

/// Whether step `k` of `steps` holds the name of that step and the kind of
/// the one item that goes by the names down to it.
pub open spec fn step_is_unique(
    paths: Seq<(String, ItemSummary)>,
    module: Seq<Seq<char>>,
    full: Seq<Seq<char>>,
    steps: Seq<(Seq<char>, ItemKind)>,
    k: int,
) -> bool {
    let kinds = kinds_named(paths, module, names_below(module, full, k + 1));
    kinds.len() == 1 && steps[k] == (full[module.len() as int + 1 + k], kinds[0])
}

/// Steps that are unique stay so when one more unique step follows them.
proof fn lemma_one_more_step(
    paths: Seq<(String, ItemSummary)>,
    module: Seq<Seq<char>>,
    full: Seq<Seq<char>>,
    steps: Seq<(Seq<char>, ItemKind)>,
    name: Seq<char>,
    kind: ItemKind,
)
    requires
        steps_are_unique(paths, module, full, steps),
        kinds_named(paths, module, names_below(module, full, steps.len() as int + 1)).len() == 1,
        kinds_named(paths, module, names_below(module, full, steps.len() as int + 1))[0] == kind,
        name == full[module.len() as int + 1 + steps.len()],
    ensures
        steps_are_unique(paths, module, full, steps.push((name, kind))),
{
    let longer = steps.push((name, kind));
    assert forall|k: int| 0 <= k < longer.len() implies #[trigger] step_is_unique(
        paths,
        module,
        full,
        longer,
        k,
    ) by {
        if k < steps.len() {
            assert(step_is_unique(paths, module, full, steps, k));
            assert(longer[k] == steps[k]);
        }
    }
}

/// The names and kinds that `steps` holds.
pub open spec fn steps_view(steps: Seq<(String, ItemKind)>) -> Seq<(Seq<char>, ItemKind)> {
    Seq::new(steps.len(), |i: int| (steps[i].0@, steps[i].1))
}

/// Tells whether an entry of the index is the item that, inside the
/// module `module`, goes by the first `count` names of `full` below the
/// module boundary.
fn names_item(summary: &ItemSummary, module: &Vec<String>, full: &Vec<String>, count: usize) -> (r:
    bool)
    requires
        1 + module@.len() + count <= full@.len(),
    ensures
        r == is_named(
            summary,
            module.deep_view(),
            names_below(module.deep_view(), full.deep_view(), count as int),
        ),
{
    let depth = module.len();
    let full_len = full.len();
    let len = summary.path.len();
    if summary.crate_id != 0 || len <= depth {
        return false;
    }
    if !same_range(&summary.path, 1, module, 0, depth) {
        assert(module.deep_view().subrange(0, depth as int) == module.deep_view());
        return false;
    }
    assert(module.deep_view().subrange(0, depth as int) == module.deep_view());
    if len - (depth + 1) != count {
        assert(summary.path.deep_view().subrange(1 + depth, len as int).len() != names_below(
            module.deep_view(),
            full.deep_view(),
            count as int,
        ).len());
        return false;
    }
    same_range(&summary.path, depth + 1, full, depth + 1, count)
}

/// Whether `outcome` is what building the path of an item comes to,
/// for an item with the full path `full` in a file with the module path
/// `module`.
///
/// The steps of the path are the segments of `full` behind the name of
/// the crate and the segments of `module`. Building succeeds if, at
/// every step, exactly one entry of `paths` goes by the names taken so
/// far; the path then holds the name and the kind of each step. It fails
/// at the first step at which no entry or more than one goes by them,
/// with the names down to that step and the number of such entries. It
/// also fails, with no names, if `full` does not reach below the module.
pub open spec fn is_item_path_of(
    paths: Seq<(String, ItemSummary)>,
    module: Seq<Seq<char>>,
    full: Seq<Seq<char>>,
    outcome: Result<ItemPath, AmbiguousOrMissing>,
) -> bool {
    match outcome {
        Ok(path) => {
            &&& full.len() >= 1 + module.len()
            &&& path@.len() == full.len() - (1 + module.len())
            &&& steps_are_unique(paths, module, full, path@)
        },
        Err(e) => if full.len() < 1 + module.len() {
            e.prefix@.len() == 0 && e.matches == 0
        } else {
            &&& 1 <= e.prefix@.len() <= full.len() - (1 + module.len())
            &&& e.prefix.deep_view() == names_below(module, full, e.prefix@.len() as int)
            &&& e.matches == kinds_named(paths, module, e.prefix.deep_view()).len()
            &&& e.matches != 1
            &&& forall|k: int|
                1 <= k < e.prefix@.len() ==> (#[trigger] kinds_named(
                    paths,
                    module,
                    names_below(module, full, k),
                )).len() == 1
        },
    }
}

impl ItemPath {
    /// Builds the path of an item inside its file from the full path of
    /// the item and the module path of the file.
    ///
    /// The segments of `full_item_path` behind the name of the crate and
    /// the segments of `file_module_path` are taken one at a time. At
    /// each step the index must hold exactly one item of the documented
    /// crate that lies in that module and goes by the names taken so far;
    /// the kind of that item becomes the kind of the step. The first step
    /// at which the index holds no such item, or more than one, ends the
    /// building with an error.
    pub fn new(
        file_module_path: &RelativeModulePath,
        full_item_path: AbsoluteModulePath,
        json: &ItemIndex,
    ) -> (r: Result<ItemPath, AmbiguousOrMissing>)
        ensures
            is_item_path_of(json.paths@, file_module_path@, full_item_path@, r),
    {
        let module = &file_module_path.0;
        let full = full_item_path.0;
        let ghost module_view = module.deep_view();
        let ghost full_view = full.deep_view();
        let depth = module.len();
        let full_len = full.len();
        let paths_len = json.paths.len();
        if full_len <= depth {
            return Err(AmbiguousOrMissing { prefix: Vec::new(), matches: 0 });
        }
        let offset = depth + 1;
        let mut inner: Vec<(String, ItemKind)> = Vec::new();
        let mut step: usize = 0;
        while offset + step < full_len
            invariant
                module_view == module.deep_view(),
                full_view == full.deep_view(),
                module_view == file_module_path@,
                full_view == full_item_path@,
                depth == module@.len(),
                full_len == full@.len(),
                paths_len == json.paths@.len(),
                offset == depth + 1,
                offset + step <= full_len,
                inner@.len() == step,
                steps_are_unique(json.paths@, module_view, full_view, steps_view(inner@)),
            decreases full_len - step,
        {
            let ghost names = names_below(module_view, full_view, step + 1);
            let mut count: usize = 0;
            let mut kind = ItemKind::Module;
            let mut j: usize = 0;
            while j < paths_len
                invariant
                    module_view == module.deep_view(),
                    full_view == full.deep_view(),
                    paths_len == json.paths@.len(),
                    full_len == full@.len(),
                    offset == 1 + module@.len(),
                    offset + step < full@.len(),
                    names == names_below(module_view, full_view, step + 1),
                    j <= paths_len,
                    count <= j,
                    count == kinds_named(json.paths@.take(j as int), module_view, names).len(),
                    count >= 1 ==> kind == kinds_named(
                        json.paths@.take(j as int),
                        module_view,
                        names,
                    )[0],
                decreases paths_len - j,
            {
                proof {
                    assert(json.paths@.take(j + 1).drop_last() == json.paths@.take(j as int));
                    assert(json.paths@.take(j + 1).last() == json.paths@[j as int]);
                }
                let entry = &json.paths[j];
                if names_item(&entry.1, module, full, step + 1) {
                    if count == 0 {
                        kind = entry.1.kind;
                    }
                    count += 1;
                }
                j += 1;
            }
            assert(json.paths@.take(paths_len as int) == json.paths@);
            if count != 1 {
                let mut prefix: Vec<String> = Vec::new();
                let mut n: usize = 0;
                while n <= step
                    invariant
                        full_view == full.deep_view(),
                        full_len == full@.len(),
                        offset + step < full@.len(),
                        n <= step + 1,
                        prefix.deep_view() == full_view.subrange(offset as int, offset + n),
                    decreases step + 1 - n,
                {
                    let ghost done = prefix.deep_view();
                    let name = full[offset + n].clone();
                    prefix.push(name);
                    proof {
                        assert(prefix.deep_view() == done.push(name@));
                        assert(full_view.subrange(offset as int, offset + n + 1)
                            == full_view.subrange(offset as int, offset + n).push(name@));
                    }
                    n += 1;
                }
                proof {
                    assert forall|k: int| 1 <= k < prefix@.len() implies (#[trigger] kinds_named(
                        json.paths@,
                        module_view,
                        names_below(module_view, full_view, k),
                    )).len() == 1 by {
                        assert(step_is_unique(
                            json.paths@,
                            module_view,
                            full_view,
                            steps_view(inner@),
                            k - 1,
                        ));
                    }
                }
                proof {
                    assert(prefix.deep_view() == names);
                    assert(full_item_path@ == full_view);
                    assert(file_module_path@ == module_view);
                }
                return Err(AmbiguousOrMissing { prefix, matches: count });
            }
            let name = full[offset + step].clone();
            let ghost before = inner@;
            inner.push((name, kind));
            step += 1;
            proof {
                assert(inner@ == before.push((name, kind)));
                assert(steps_view(inner@) == steps_view(before).push((name@, kind)));
                lemma_one_more_step(
                    json.paths@,
                    module_view,
                    full_view,
                    steps_view(before),
                    name@,
                    kind,
                );
            }
        }
        let path = ItemPath(inner);
        proof {
            assert(full_item_path@ == full_view);
            assert(file_module_path@ == module_view);
            assert(path@ == steps_view(inner@));
        }
        Ok(path)
    }

    /// Whether the path has no segment, and so stands for the file
    /// itself.
    pub fn is_empty(&self) -> (r: bool)
        ensures
            r == (self@.len() == 0),
    {
        self.0.len() == 0
    }
}

/// Two entries that go by the same names are two kinds found.
pub proof fn lemma_two_named_entries(
    paths: Seq<(String, ItemSummary)>,
    module: Seq<Seq<char>>,
    names: Seq<Seq<char>>,
    i: int,
    j: int,
)
    requires
        0 <= i < j < paths.len(),
        is_named(&paths[i].1, module, names),
        is_named(&paths[j].1, module, names),
    ensures
        kinds_named(paths, module, names).len() >= 2,
    decreases paths.len(),
{
    let shorter = paths.drop_last();
    if j < paths.len() - 1 {
        assert(shorter[i] == paths[i]);
        assert(shorter[j] == paths[j]);
        lemma_two_named_entries(shorter, module, names, i, j);
    } else {
        assert(shorter[i] == paths[i]);
        lemma_one_named_entry(shorter, module, names, i);
    }
}

/// An entry that goes by the names is a kind found.
pub proof fn lemma_one_named_entry(
    paths: Seq<(String, ItemSummary)>,
    module: Seq<Seq<char>>,
    names: Seq<Seq<char>>,
    i: int,
)
    requires
        0 <= i < paths.len(),
        is_named(&paths[i].1, module, names),
    ensures
        kinds_named(paths, module, names).len() >= 1,
    decreases paths.len(),
{
    if i < paths.len() - 1 {
        assert(paths.drop_last()[i] == paths[i]);
        lemma_one_named_entry(paths.drop_last(), module, names, i);
    }
}

/// Ambiguity is never resolved silently: where, at some step, the index
/// holds two entries of the same names, of whatever kinds, building the
/// path of the item fails.
pub proof fn lemma_ambiguous_step_fails(
    paths: Seq<(String, ItemSummary)>,
    module: Seq<Seq<char>>,
    full: Seq<Seq<char>>,
    outcome: Result<ItemPath, AmbiguousOrMissing>,
    step: int,
    i: int,
    j: int,
)
    requires
        is_item_path_of(paths, module, full, outcome),
        1 <= step <= full.len() - (1 + module.len()),
        0 <= i < j < paths.len(),
        is_named(&paths[i].1, module, names_below(module, full, step)),
        is_named(&paths[j].1, module, names_below(module, full, step)),
    ensures
        outcome is Err,
{
    lemma_two_named_entries(paths, module, names_below(module, full, step), i, j);
    if let Ok(path) = outcome {
        assert(step_is_unique(paths, module, full, path@, step - 1));
    }
}

/// Where every step has exactly one entry of its names, building the
/// path of the item succeeds, and the path holds the name and the kind of
/// every step.
pub proof fn lemma_unique_steps_succeed(
    paths: Seq<(String, ItemSummary)>,
    module: Seq<Seq<char>>,
    full: Seq<Seq<char>>,
    outcome: Result<ItemPath, AmbiguousOrMissing>,
)
    requires
        is_item_path_of(paths, module, full, outcome),
        full.len() >= 1 + module.len(),
        forall|k: int|
            1 <= k <= full.len() - (1 + module.len()) ==> (#[trigger] kinds_named(
                paths,
                module,
                names_below(module, full, k),
            )).len() == 1,
    ensures
        outcome matches Ok(path) && path@.len() == full.len() - (1 + module.len())
            && steps_are_unique(paths, module, full, path@),
{
    if let Err(e) = outcome {
        let reached = e.prefix@.len() as int;
        assert(kinds_named(paths, module, names_below(module, full, reached)).len() == 1);
    }
}

} // verus!
