//! Import: from edited markdown files back into documentation comments.

pub mod item_info;
pub mod item_path;
pub mod module_paths;
pub mod supported_item;
pub mod update_docs;

use crate::consts::FROM_MARKDOWN_MARKER;
use crate::options::{
    crate_name_of, get_crate_name, index_path, toml_text_at, FromMarkdown, ManifestError,
};
use vstd::prelude::*;
use vstd::string::StringExecFns;

verus! {

/// How far an import run has come.
#[derive(Clone, Copy, Debug, PartialEq, Eq, Structural)]
pub enum ImportState {
    /// Nothing has been done yet.
    Start,
    /// The working tree is being looked at.
    CheckingTree,
    /// The manifest of the package is being read.
    ReadingManifest,
    /// The item index is being read.
    ReadingIndex,
    /// The source files are being updated from the markdown files.
    UpdatingFiles,
    /// The file that marks the input directory as imported is being
    /// written.
    WritingMarker,
    /// The source files are being formatted.
    Formatting,
    /// The run is over.
    Done,
}

/// What has happened since the last step of an import run.
#[derive(Debug)]
pub enum ImportEvent {
    /// The run begins.
    Begun,
    /// The working tree has been looked at: whether it holds changes that
    /// are not committed.
    Tree { dirty: bool },
    /// The manifest of the package has been read.
    Manifest(String),
    /// What was asked for has been done.
    Done,
}

/// What an import run asks for next.
#[derive(Debug)]
pub enum ImportAction {
    /// Look whether the working tree holds changes that are not
    /// committed.
    CheckTree,
    /// Read the manifest of the package. `dirty` tells that the working
    /// tree holds uncommitted changes and the run goes on only because
    /// that was allowed, which deserves a warning.
    ReadManifest { dirty: bool },
    /// Read the item index from the file at `path`.
    ReadIndex { path: String },
    /// Update the source files from every markdown file that matches
    /// `pattern`. A file that cannot be used is passed over; it does not
    /// end the run.
    UpdateFiles { pattern: String },
    /// Write the file that marks the input directory as imported, at
    /// `path`.
    WriteMarker { path: String },
    /// Format the source files.
    Format,
    /// Nothing is left to do.
    Finish,
}

/// Why an import run ends early.
#[derive(Clone, Copy, Debug, PartialEq, Eq, Structural)]
pub enum ImportFailure {
    /// The working tree holds changes that are not committed, and going
    /// on regardless was not allowed.
    UncommittedChanges,
    /// The name of the crate could not be read.
    Manifest(ManifestError),
    /// The event is not one that can follow the state.
    OutOfTurn,
}

/// What the file holds that marks an input directory as imported.
pub const FROM_MARKDOWN_MARKER_CONTENTS: &'static str =
    "This file is created to tell doc-sync's to-markdown subcommand that it's probably safe to overwrite the generated markdown files as a safeguard against losing work.";

/// Whether `outcome` is the step that an import run takes from `state`
/// on `event`.
///
/// A run looks at the working tree first, and ends if it holds
/// uncommitted changes and going on was not allowed. Then the manifest is
/// read for the name of the crate, the item index is read, the source
/// files are updated from the markdown files of the input directory, the
/// directory is marked as imported, and the source files are formatted.
pub open spec fn is_import_step(
    args: &FromMarkdown,
    state: ImportState,
    event: ImportEvent,
    outcome: Result<(ImportState, ImportAction), ImportFailure>,
) -> bool {
    match (state, event) {
        (ImportState::Start, ImportEvent::Begun) => outcome matches Ok(
            (ImportState::CheckingTree, ImportAction::CheckTree),
        ),
        (ImportState::CheckingTree, ImportEvent::Tree { dirty }) => if dirty && !args.allow_dirty {
            outcome matches Err(ImportFailure::UncommittedChanges)
        } else {
            outcome matches Ok((ImportState::ReadingManifest, ImportAction::ReadManifest { dirty: d }))
                && d == dirty
        },
        (ImportState::ReadingManifest, ImportEvent::Manifest(text)) => match toml_text_at(
            text@,
            "package"@,
            "name"@,
        ) {
            Some(package) => outcome matches Ok(
                (ImportState::ReadingIndex, ImportAction::ReadIndex { path }),
            ) && path@ == "./target/doc/"@ + crate_name_of(package) + ".json"@,
            None => outcome matches Err(ImportFailure::Manifest(ManifestError::NoPackageName)),
        },
        (ImportState::ReadingIndex, ImportEvent::Done) => outcome matches Ok(
            (ImportState::UpdatingFiles, ImportAction::UpdateFiles { pattern }),
        ) && pattern@ == args.input_dir@ + "/**/*.md"@,
        (ImportState::UpdatingFiles, ImportEvent::Done) => outcome matches Ok(
            (ImportState::WritingMarker, ImportAction::WriteMarker { path }),
        ) && path@ == args.input_dir@ + "/"@ + FROM_MARKDOWN_MARKER@,
        (ImportState::WritingMarker, ImportEvent::Done) => outcome matches Ok(
            (ImportState::Formatting, ImportAction::Format),
        ),
        (ImportState::Formatting, ImportEvent::Done) => outcome matches Ok(
            (ImportState::Done, ImportAction::Finish),
        ),
        _ => outcome matches Err(ImportFailure::OutOfTurn),
    }
}

/// Takes one step of an import run: given how far the run has come and
/// what has happened since, says how far it has come now and what is to
/// be done next.
///
/// The caller begins with [`ImportState::Start`] and
/// [`ImportEvent::Begun`], does what the action asks for, and comes back
/// with the new state and the event that tells what came of it, until the
/// action is [`ImportAction::Finish`] or the step fails.
pub fn from_markdown(args: &FromMarkdown, state: ImportState, event: ImportEvent) -> (r: Result<
    (ImportState, ImportAction),
    ImportFailure,
>)
    ensures
        is_import_step(args, state, event, r),
{
    match (state, event) {
        (ImportState::Start, ImportEvent::Begun) => Ok(
            (ImportState::CheckingTree, ImportAction::CheckTree),
        ),
        (ImportState::CheckingTree, ImportEvent::Tree { dirty }) => {
            if dirty && !args.allow_dirty {
                Err(ImportFailure::UncommittedChanges)
            } else {
                Ok((ImportState::ReadingManifest, ImportAction::ReadManifest { dirty }))
            }
        },
        (ImportState::ReadingManifest, ImportEvent::Manifest(text)) => {
            match get_crate_name(text.as_str()) {
                Ok(crate_name) => Ok(
                    (
                        ImportState::ReadingIndex,
                        ImportAction::ReadIndex { path: index_path(crate_name.as_str()) },
                    ),
                ),
                Err(e) => Err(ImportFailure::Manifest(e)),
            }
        },
        (ImportState::ReadingIndex, ImportEvent::Done) => {
            let mut pattern = args.input_dir.clone();
            pattern.append("/**/*.md");
            Ok((ImportState::UpdatingFiles, ImportAction::UpdateFiles { pattern }))
        },
        (ImportState::UpdatingFiles, ImportEvent::Done) => {
            let mut path = args.input_dir.clone();
            path.append("/");
            path.append(FROM_MARKDOWN_MARKER);
            Ok((ImportState::WritingMarker, ImportAction::WriteMarker { path }))
        },
        (ImportState::WritingMarker, ImportEvent::Done) => Ok(
            (ImportState::Formatting, ImportAction::Format),
        ),
        (ImportState::Formatting, ImportEvent::Done) => Ok(
            (ImportState::Done, ImportAction::Finish),
        ),
        _ => Err(ImportFailure::OutOfTurn),
    }
}

} // verus!
