//! Export: from the item index to markdown files.
//!
//! Export starts from the items of the documented crate that the table of
//! paths lists, and goes from each item into the items found inside it,
//! depth first. Every item gets one markdown file, under the path by
//! which it was reached first.

pub mod handle_item;
pub mod item_enum_ext;
pub mod iterate_children;

use crate::item_index::{position_in, ItemIndex, ItemKind, ItemSummary};
use crate::text::same_text;
use crate::options::{
    crate_name_of, get_crate_name, index_path, rustdoc_arguments_for, toml_text_at, ManifestError,
    ToMarkdown, DEFAULT_RUSTDOC_ARGUMENTS,
};
use crate::to_markdown::handle_item::{file_of, handle_item, MarkdownFile, MarkdownFileView};
use crate::to_markdown::item_enum_ext::kind_of;
use crate::to_markdown::iterate_children::{
    child_tasks, copy_names, tasks_view, ExportTask, ExportTaskView,
};
use vstd::prelude::*;

verus! {

/// Why the index could not be exported.
#[derive(Debug)]
pub enum ExportError {
    /// The index names an item with this id, but does not hold it.
    MissingItem { id: String },
}

/// The markdown files of a list, as plain values.
pub open spec fn files_view(files: Seq<MarkdownFile>) -> Seq<MarkdownFileView> {
    Seq::new(files.len(), |i: int| files[i]@)
}

/// How many items have not been exported yet.
pub open spec fn unhandled(handled: Seq<bool>) -> nat
    decreases handled.len(),
{
    if handled.len() == 0 {
        0
    } else {
        unhandled(handled.drop_last()) + if handled.last() {
            0nat
        } else {
            1nat
        }
    }
}

/// Marking an item as exported that was not leaves one item less to
/// export.
pub proof fn lemma_unhandled_update(handled: Seq<bool>, at: int)
    requires
        0 <= at < handled.len(),
        !handled[at],
    ensures
        unhandled(handled.update(at, true)) + 1 == unhandled(handled),
    decreases handled.len(),
{
    let marked = handled.update(at, true);
    if at == handled.len() - 1 {
        assert(marked.drop_last() == handled.drop_last());
    } else {
        assert(marked.drop_last() == handled.drop_last().update(at, true));
        lemma_unhandled_update(handled.drop_last(), at);
    }
}

/// The tasks that export begins with: one for every entry of the table
/// of paths that belongs to the documented crate, in the order of the
/// table.
pub open spec fn listed_tasks(paths: Seq<(String, ItemSummary)>) -> Seq<ExportTaskView>
    decreases paths.len(),
{
    if paths.len() == 0 {
        Seq::empty()
    } else {
        listed_tasks(paths.drop_last()) + if paths.last().1.crate_id == 0 {
            seq![
                ExportTaskView::Listed {
                    id: paths.last().0@,
                    path: paths.last().1.path.deep_view(),
                    kind: paths.last().1.kind,
                },
            ]
        } else {
            Seq::empty()
        }
    }
}

/// The id of the item that a task is about.
pub open spec fn task_id(task: ExportTaskView) -> Seq<char> {
    match task {
        ExportTaskView::Listed { id, .. } => id,
        ExportTaskView::Child { id, .. } => id,
    }
}

/// Where an item is exported.
pub struct Placement {
    /// The position of the item in the index.
    pub position: int,
    /// The path under which the item is exported.
    pub path: Seq<Seq<char>>,
    /// The kind with which the item is exported.
    pub kind: ItemKind,
}

/// Where the item of `task` is exported, given that the index holds it
/// at `position`: a listed item under its full path and with its listed
/// kind; an item found inside another under the path of that other item
/// followed by its own name, and with its own kind. An item found inside
/// another that has no name is not exported at all.
pub open spec fn placement(json: &ItemIndex, task: ExportTaskView, position: int) -> Option<
    Placement,
> {
    match task {
        ExportTaskView::Listed { path, kind, .. } => Some(Placement { position, path, kind }),
        ExportTaskView::Child { parent_path, .. } => match json.index@[position].name {
            Some(name) => Some(
                Placement {
                    position,
                    path: parent_path.push(name@),
                    kind: kind_of(&json.index@[position].inner),
                },
            ),
            None => None,
        },
    }
}

/// The markdown files that come of the tasks of `stack`, the last of
/// which is done first, when `handled` tells which items have been
/// exported already; or the id of the first item asked for that the
/// index does not hold.
///
/// The task done first is taken off the stack. If its item has no place
/// to be exported to, or has been exported already, nothing comes of it.
/// Otherwise the item is exported, it is marked as exported, and the
/// tasks for the items found inside it are done before the rest of the
/// stack, in their order.
pub open spec fn drained(json: &ItemIndex, stack: Seq<ExportTaskView>, handled: Seq<bool>) -> Result<
    Seq<MarkdownFileView>,
    Seq<char>,
>
    decreases unhandled(handled), stack.len(),
{
    if stack.len() == 0 {
        Ok(Seq::empty())
    } else {
        let task = stack.last();
        let rest = stack.drop_last();
        match position_in(json.item_ids(), task_id(task)) {
            None => Err(task_id(task)),
            Some(position) => match placement(json, task, position) {
                None => drained(json, rest, handled),
                Some(place) => if 0 <= position < handled.len() && !handled[position] {
                    proof {
                        lemma_unhandled_update(handled, position);
                    }
                    match drained(
                        json,
                        rest + child_tasks(place.path, &json.index@[position].inner).reverse(),
                        handled.update(position, true),
                    ) {
                        Ok(files) => Ok(
                            seq![file_of(&json.index@[position], place.path, place.kind)] + files,
                        ),
                        Err(id) => Err(id),
                    }
                } else {
                    drained(json, rest, handled)
                },
            },
        }
    }
}

/// The markdown files of an index, in the order in which they are to be
/// written; or the id of the first item asked for that the index does
/// not hold.
pub open spec fn exported(json: &ItemIndex) -> Result<Seq<MarkdownFileView>, Seq<char>> {
    drained(
        json,
        listed_tasks(json.paths@).reverse(),
        Seq::new(json.index@.len(), |i: int| false),
    )
}

/// The files exported so far, followed by what comes of the rest.
pub open spec fn followed_by(
    done: Seq<MarkdownFileView>,
    rest: Result<Seq<MarkdownFileView>, Seq<char>>,
) -> Result<Seq<MarkdownFileView>, Seq<char>> {
    match rest {
        Ok(files) => Ok(done + files),
        Err(id) => Err(id),
    }
}

/// Builds the tasks that export begins with, the one to be done first
/// last.
fn first_tasks(json: &ItemIndex) -> (r: Vec<ExportTask>)
    ensures
        tasks_view(r@) == listed_tasks(json.paths@).reverse(),
{
    let mut stack: Vec<ExportTask> = Vec::new();
    let len = json.paths.len();
    let mut i: usize = len;
    assert(json.paths@.subrange(len as int, len as int) == Seq::<(String, ItemSummary)>::empty());
    assert(tasks_view(stack@) == Seq::<ExportTaskView>::empty());
    assert(Seq::<ExportTaskView>::empty().reverse() == Seq::<ExportTaskView>::empty());
    while i > 0
        invariant
            len == json.paths@.len(),
            i <= len,
            tasks_view(stack@) == listed_tasks(json.paths@.subrange(i as int, len as int)).reverse(),
        decreases i,
    {
        i -= 1;
        let ghost before = tasks_view(stack@);
        let ghost tail = json.paths@.subrange(i + 1, len as int);
        let ghost longer = json.paths@.subrange(i as int, len as int);
        let entry = &json.paths[i];
        proof {
            lemma_listed_first(longer);
            assert(longer.drop_first() == tail);
            assert(longer[0] == json.paths@[i as int]);
        }
        if entry.1.crate_id == 0 {
            let task = ExportTask::Listed {
                id: entry.0.clone(),
                path: copy_names(&entry.1.path),
                kind: entry.1.kind,
            };
            let ghost added = task@;
            stack.push(task);
            proof {
                assert(tasks_view(stack@) == before.push(added));
                let later = listed_tasks(tail);
                assert((seq![added] + later).reverse() == later.reverse().push(added));
            }
        } else {
            assert(Seq::<ExportTaskView>::empty() + listed_tasks(tail) == listed_tasks(tail));
        }
    }
    assert(json.paths@.subrange(0, len as int) == json.paths@);
    stack
}

/// The listed tasks can be read from the front as well: the task of the
/// first entry, if it has one, and then the tasks of the others.
proof fn lemma_listed_first(paths: Seq<(String, ItemSummary)>)
    requires
        paths.len() > 0,
    ensures
        listed_tasks(paths) == (if paths[0].1.crate_id == 0 {
            seq![
                ExportTaskView::Listed {
                    id: paths[0].0@,
                    path: paths[0].1.path.deep_view(),
                    kind: paths[0].1.kind,
                },
            ]
        } else {
            Seq::<ExportTaskView>::empty()
        }) + listed_tasks(paths.drop_first()),
    decreases paths.len(),
{
    if paths.len() == 1 {
        assert(paths.drop_last() == Seq::<(String, ItemSummary)>::empty());
        assert(paths.drop_first() == Seq::<(String, ItemSummary)>::empty());
        assert(listed_tasks(paths.drop_first()) == Seq::<ExportTaskView>::empty());
        assert(listed_tasks(paths.drop_last()) == Seq::<ExportTaskView>::empty());
    } else {
        lemma_listed_first(paths.drop_last());
        assert(paths.drop_last().drop_first() == paths.drop_first().drop_last());
        assert(paths.drop_last()[0] == paths[0]);
        assert(paths.drop_first().last() == paths.last());
    }
}

/// Decides where the item of `task` is exported.
fn place_task(json: &ItemIndex, task: ExportTask, position: usize) -> (r: Option<
    (Vec<String>, ItemKind),
>)
    requires
        position < json.index@.len(),
    ensures
        match r {
            Some((path, kind)) => placement(json, task@, position as int) == Some(
                Placement { position: position as int, path: path.deep_view(), kind },
            ),
            None => placement(json, task@, position as int) is None,
        },
{
    match task {
        ExportTask::Listed { id, path, kind } => Some((path, kind)),
        ExportTask::Child { id, parent_path } => {
            let item = &json.index[position];
            match &item.name {
                Some(name) => {
                    let ghost before = parent_path.deep_view();
                    let mut path = parent_path;
                    path.push(name.clone());
                    assert(path.deep_view() == before.push(name@));
                    Some((path, item.inner.to_item_kind()))
                },
                None => None,
            }
        },
    }
}

/// The id of the item that a task is about.
fn id_of_task(task: &ExportTask) -> (r: &String)
    ensures
        r@ == task_id(task@),
{
    match task {
        ExportTask::Listed { id, .. } => id,
        ExportTask::Child { id, .. } => id,
    }
}

/// Works out the markdown files of an index, in the order in which they
/// are to be written.
///
/// Every item of the documented crate that the table of paths lists is
/// exported under its full path, in the order of the table, and right
/// behind each item the items found inside it, and inside those. An item
/// is exported once, where it is reached first. Export ends with an error
/// at the first item that is asked for and that the index does not hold.
pub fn export(json: &ItemIndex) -> (r: Result<Vec<MarkdownFile>, ExportError>)
    ensures
        match r {
            Ok(files) => exported(json) == Ok::<Seq<MarkdownFileView>, Seq<char>>(
                files_view(files@),
            ),
            Err(ExportError::MissingItem { id }) => exported(json) == Err::<
                Seq<MarkdownFileView>,
                Seq<char>,
            >(id@),
        },
{
    let count = json.index.len();
    let mut handled: Vec<bool> = Vec::new();
    while handled.len() < count
        invariant
            count == json.index@.len(),
            handled@.len() <= count,
            forall|k: int| 0 <= k < handled@.len() ==> !handled@[k],
        decreases count - handled@.len(),
    {
        handled.push(false);
    }
    assert(handled@ == Seq::new(json.index@.len(), |i: int| false));
    let mut stack = first_tasks(json);
    let mut files: Vec<MarkdownFile> = Vec::new();
    assert(files_view(files@) + Seq::<MarkdownFileView>::empty() == Seq::<MarkdownFileView>::empty());
    assert(files_view(files@) == Seq::<MarkdownFileView>::empty());
    loop
        invariant
            count == json.index@.len(),
            handled@.len() == count,
            exported(json) == followed_by(
                files_view(files@),
                drained(json, tasks_view(stack@), handled@),
            ),
        ensures
            stack@.len() == 0,
            exported(json) == followed_by(
                files_view(files@),
                drained(json, tasks_view(stack@), handled@),
            ),
        decreases unhandled(handled@), stack@.len(),
    {
        let ghost whole = tasks_view(stack@);
        let ghost marks = handled@;
        let ghost done = files_view(files@);
        let task = match stack.pop() {
            Some(task) => task,
            None => {
                break ;
            },
        };
        let ghost rest = tasks_view(stack@);
        proof {
            assert(whole.last() == task@);
            assert(whole.drop_last() == rest);
        }
        let position = match json.find(id_of_task(&task).as_str()) {
            Some(position) => position,
            None => {
                return Err(ExportError::MissingItem { id: id_of_task(&task).clone() });
            },
        };
        let ghost asked = task@;
        let (path, kind) = match place_task(json, task, position) {
            Some(place) => place,
            None => {
                continue ;
            },
        };
        match handle_item(json, &mut handled, position, &path, &kind) {
            None => {},
            Some((file, mut children)) => {
                let ghost added = tasks_view(children@);
                let ghost file_view = file@;
                files.push(file);
                proof {
                    lemma_unhandled_update(marks, position as int);
                    assert(files_view(files@) == done.push(file_view));
                    assert(rest + Seq::<ExportTaskView>::empty() == rest);
                    assert(added.subrange(0, added.len() as int) == added);
                }
                let ghost target = rest + added.reverse();
                while children.len() > 0
                    invariant
                        tasks_view(children@) == added.subrange(0, children@.len() as int),
                        children@.len() <= added.len(),
                        tasks_view(stack@) == rest + added.subrange(
                            children@.len() as int,
                            added.len() as int,
                        ).reverse(),
                    decreases children@.len(),
                {
                    let ghost left = children@.len();
                    let ghost lower = tasks_view(stack@);
                    let ghost kids = tasks_view(children@);
                    match children.pop() {
                        Some(child) => {
                            let ghost child_view = child@;
                            stack.push(child);
                            proof {
                                assert(kids[left - 1] == child_view);
                                assert(kids[left - 1] == added[left - 1]);
                                assert(tasks_view(stack@) == lower.push(child_view));
                                let tail = added.subrange(left as int, added.len() as int);
                                let longer = added.subrange(left - 1, added.len() as int);
                                assert(longer == seq![child_view] + tail);
                                assert(longer.reverse() == tail.reverse().push(child_view));
                                assert(rest + tail.reverse().push(child_view) == (rest
                                    + tail.reverse()).push(child_view));
                                assert(tasks_view(children@) == added.subrange(0, left - 1));
                            }
                        },
                        None => {},
                    }
                }
                proof {
                    assert(added.subrange(0, added.len() as int) == added);
                    assert(tasks_view(stack@) == target);
                    let after = drained(json, target, handled@);
                    assert(drained(json, whole, marks) == followed_by(seq![file_view], after));
                    match after {
                        Ok(more) => {
                            assert(done + (seq![file_view] + more) == done.push(file_view) + more);
                        },
                        Err(_) => {},
                    }
                }
            },
        }
    }
    proof {
        assert(tasks_view(stack@) == Seq::<ExportTaskView>::empty());
        assert(files_view(files@) + Seq::<MarkdownFileView>::empty() == files_view(files@));
    }
    Ok(files)
}

/// Whether the file at position `at` goes to the same place as a file
/// before it, and so overwrites it.
pub open spec fn overwrites_earlier(files: Seq<MarkdownFileView>, at: int) -> bool {
    exists|before: int| 0 <= before < at && #[trigger] files[before].path == files[at].path
}

/// Finds the files that go to the same place as a file before them.
///
/// Such a file overwrites the earlier one when the files are written in
/// their order. That is no error, but nothing should be lost without a
/// word: the result lists the positions of these files, in rising order.
pub fn conflicts(files: &Vec<MarkdownFile>) -> (r: Vec<usize>)
    ensures
        forall|k: int|
            0 <= k < r@.len() ==> r@[k] < files@.len() && overwrites_earlier(
                files_view(files@),
                #[trigger] r@[k] as int,
            ),
        forall|at: int|
            0 <= at < files@.len() && overwrites_earlier(files_view(files@), at) ==> r@.contains(
                at as usize,
            ),
        forall|k: int, l: int| 0 <= k < l < r@.len() ==> r@[k] < r@[l],
{
    let ghost views = files_view(files@);
    let count = files.len();
    let mut found: Vec<usize> = Vec::new();
    let mut at: usize = 0;
    while at < count
        invariant
            count == files@.len(),
            views == files_view(files@),
            at <= count,
            forall|k: int|
                0 <= k < found@.len() ==> found@[k] < at && overwrites_earlier(
                    views,
                    #[trigger] found@[k] as int,
                ),
            forall|j: int|
                0 <= j < at && overwrites_earlier(views, j) ==> found@.contains(j as usize),
            forall|k: int, l: int| 0 <= k < l < found@.len() ==> found@[k] < found@[l],
        decreases count - at,
    {
        let mut before: usize = 0;
        let mut same = false;
        while before < at && !same
            invariant
                count == files@.len(),
                views == files_view(files@),
                at < count,
                before <= at,
                same ==> overwrites_earlier(views, at as int),
                !same ==> forall|i: int| 0 <= i < before ==> views[i].path != views[at as int].path,
            decreases at - before, !same as int,
        {
            if same_text(files[before].path.as_str(), files[at].path.as_str()) {
                assert(views[before as int].path == views[at as int].path);
                same = true;
            } else {
                before += 1;
            }
        }
        let ghost earlier = found@;
        if same {
            found.push(at);
            proof {
                assert(found@[earlier.len() as int] == at);
                assert forall|j: int|
                    0 <= j < at + 1 && overwrites_earlier(views, j) implies found@.contains(
                    j as usize,
                ) by {
                    if j < at {
                        let k = choose|k: int| 0 <= k < earlier.len() && earlier[k] == j as usize;
                        assert(found@[k] == j as usize);
                    }
                }
            }
        }
        at += 1;
    }
    found
}

/// How far an export run has come.
#[derive(Debug)]
pub enum ExportState {
    /// Nothing has been done yet.
    Start,
    /// The output directory is being looked at.
    Probing,
    /// The output directory is being cleared.
    Clearing,
    /// The manifest of the package is being read.
    ReadingManifest,
    /// The documentation of the crate `crate_name` is being built.
    BuildingDocs { crate_name: String },
    /// The item index is being read.
    ReadingIndex,
    /// The markdown files are being written.
    WritingFiles,
    /// The run is over.
    Done,
}

/// What has happened since the last step of an export run.
#[derive(Debug)]
pub enum ExportEvent {
    /// The run begins.
    Begun,
    /// The output directory has been looked at: whether it exists, and
    /// whether it holds the file that marks it as imported.
    Probed { exists: bool, marked: bool },
    /// The manifest of the package has been read.
    Manifest(String),
    /// The item index has been read.
    Index(ItemIndex),
    /// What was asked for has been done.
    Done,
}

/// What an export run asks for next.
#[derive(Debug)]
pub enum ExportAction {
    /// Look whether the output directory exists and whether it holds the
    /// file that marks it as imported.
    ProbeOutputDir,
    /// Remove the output directory. `unmarked` tells that it does not
    /// hold the mark and is removed only because that was forced, which
    /// deserves a warning.
    ClearOutputDir { unmarked: bool },
    /// Read the manifest of the package.
    ReadManifest,
    /// Build the documentation, with these arguments for rustdoc.
    BuildDocs { rustdoc_arguments: String },
    /// Read the item index from the file at `path`.
    ReadIndex { path: String },
    /// Write these files below the output directory, in this order.
    WriteFiles { files: Vec<MarkdownFile> },
    /// Nothing is left to do.
    Finish,
}

/// Why an export run ends early.
#[derive(Debug)]
pub enum ExportFailure {
    /// The output directory holds markdown files that have not been
    /// turned back into documentation comments, and overwriting them was
    /// not forced.
    NotYetImported,
    /// The name of the crate could not be read.
    Manifest(ManifestError),
    /// The item index could not be exported.
    Export(ExportError),
    /// The event is not one that can follow the state.
    OutOfTurn,
}

/// Whether `outcome` is the step that an export run takes from `state`
/// on `event`.
///
/// A run looks at the output directory first. A directory that exists is
/// cleared, unless it lacks the mark of an import and overwriting was not
/// forced, which ends the run. Then the manifest is read for the name of
/// the crate, the documentation is built, the item index is read and
/// exported, and the markdown files are written.
pub open spec fn is_export_step(
    args: &ToMarkdown,
    state: ExportState,
    event: ExportEvent,
    outcome: Result<(ExportState, ExportAction), ExportFailure>,
) -> bool {
    match (state, event) {
        (ExportState::Start, ExportEvent::Begun) => outcome matches Ok(
            (ExportState::Probing, ExportAction::ProbeOutputDir),
        ),
        (ExportState::Probing, ExportEvent::Probed { exists, marked }) => if !exists {
            outcome matches Ok((ExportState::ReadingManifest, ExportAction::ReadManifest))
        } else if !marked && !args.force {
            outcome matches Err(ExportFailure::NotYetImported)
        } else {
            outcome matches Ok((ExportState::Clearing, ExportAction::ClearOutputDir { unmarked }))
                && unmarked == !marked
        },
        (ExportState::Clearing, ExportEvent::Done) => outcome matches Ok(
            (ExportState::ReadingManifest, ExportAction::ReadManifest),
        ),
        (ExportState::ReadingManifest, ExportEvent::Manifest(text)) => match toml_text_at(
            text@,
            "package"@,
            "name"@,
        ) {
            Some(package) => outcome matches Ok(
                (
                    ExportState::BuildingDocs { crate_name },
                    ExportAction::BuildDocs { rustdoc_arguments },
                ),
            ) && crate_name@ == crate_name_of(package) && rustdoc_arguments@
                == match args.rustdoc_arguments {
                Some(more) => more@ + " "@ + DEFAULT_RUSTDOC_ARGUMENTS@,
                None => DEFAULT_RUSTDOC_ARGUMENTS@,
            },
            None => outcome matches Err(ExportFailure::Manifest(ManifestError::NoPackageName)),
        },
        (ExportState::BuildingDocs { crate_name }, ExportEvent::Done) => outcome matches Ok(
            (ExportState::ReadingIndex, ExportAction::ReadIndex { path }),
        ) && path@ == "./target/doc/"@ + crate_name@ + ".json"@,
        (ExportState::ReadingIndex, ExportEvent::Index(json)) => match exported(&json) {
            Ok(expected) => outcome matches Ok(
                (ExportState::WritingFiles, ExportAction::WriteFiles { files }),
            ) && files_view(files@) == expected,
            Err(missing) => outcome matches Err(
                ExportFailure::Export(ExportError::MissingItem { id }),
            ) && id@ == missing,
        },
        (ExportState::WritingFiles, ExportEvent::Done) => outcome matches Ok(
            (ExportState::Done, ExportAction::Finish),
        ),
        _ => outcome matches Err(ExportFailure::OutOfTurn),
    }
}

/// Takes one step of an export run: given how far the run has come and
/// what has happened since, says how far it has come now and what is to
/// be done next.
///
/// The caller begins with [`ExportState::Start`] and
/// [`ExportEvent::Begun`], does what the action asks for, and comes back
/// with the new state and the event that tells what came of it, until the
/// action is [`ExportAction::Finish`] or the step fails.
pub fn to_markdown(args: &ToMarkdown, state: ExportState, event: ExportEvent) -> (r: Result<
    (ExportState, ExportAction),
    ExportFailure,
>)
    ensures
        is_export_step(args, state, event, r),
{
    match (state, event) {
        (ExportState::Start, ExportEvent::Begun) => Ok(
            (ExportState::Probing, ExportAction::ProbeOutputDir),
        ),
        (ExportState::Probing, ExportEvent::Probed { exists, marked }) => {
            if !exists {
                Ok((ExportState::ReadingManifest, ExportAction::ReadManifest))
            } else if !marked && !args.force {
                Err(ExportFailure::NotYetImported)
            } else {
                Ok((ExportState::Clearing, ExportAction::ClearOutputDir { unmarked: !marked }))
            }
        },
        (ExportState::Clearing, ExportEvent::Done) => Ok(
            (ExportState::ReadingManifest, ExportAction::ReadManifest),
        ),
        (ExportState::ReadingManifest, ExportEvent::Manifest(text)) => {
            match get_crate_name(text.as_str()) {
                Ok(crate_name) => Ok(
                    (
                        ExportState::BuildingDocs { crate_name },
                        ExportAction::BuildDocs {
                            rustdoc_arguments: rustdoc_arguments_for(&args.rustdoc_arguments),
                        },
                    ),
                ),
                Err(e) => Err(ExportFailure::Manifest(e)),
            }
        },
        (ExportState::BuildingDocs { crate_name }, ExportEvent::Done) => Ok(
            (ExportState::ReadingIndex, ExportAction::ReadIndex { path: index_path(crate_name.as_str()) }),
        ),
        (ExportState::ReadingIndex, ExportEvent::Index(json)) => match export(&json) {
            Ok(files) => Ok((ExportState::WritingFiles, ExportAction::WriteFiles { files })),
            Err(e) => Err(ExportFailure::Export(e)),
        },
        (ExportState::WritingFiles, ExportEvent::Done) => Ok(
            (ExportState::Done, ExportAction::Finish),
        ),
        _ => Err(ExportFailure::OutOfTurn),
    }
}

} // verus!
