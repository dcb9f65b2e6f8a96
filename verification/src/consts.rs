//! The fixed texts of the markdown files.

use vstd::prelude::*;

verus! {

/// What the first line of a markdown file begins with.
pub const METADATA_COMMENT_PREFIX: &'static str =
    "<!-- DO NOT REMOVE OR EDIT THIS LINE! Otherwise, doc-sync will break! ";

/// What the first line of a markdown file ends with.
pub const METADATA_COMMENT_SUFFIX: &'static str = " -->";

/// What stands before the id of the item in the first line of a markdown
/// file.
pub const METADATA_ID_PREFIX: &'static str = "DOC_SYNC_RUSTDOC_ID=\"";

/// What stands behind the id of the item in the first line of a markdown
/// file.
pub const METADATA_ID_SUFFIX: &'static str = "\"";

/// The name of the file that marks a directory of markdown files as
/// imported.
pub const FROM_MARKDOWN_MARKER: &'static str = ".doc_sync_from_markdown";

/// The first line of the markdown file of the item with the id `id`.
pub open spec fn metadata_line(id: Seq<char>) -> Seq<char> {
    METADATA_COMMENT_PREFIX@ + METADATA_ID_PREFIX@ + id + METADATA_ID_SUFFIX@
        + METADATA_COMMENT_SUFFIX@
}

} // verus!
