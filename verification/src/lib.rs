//! Keeps the documentation comments embedded in Rust source files and a
//! directory of editable markdown files in step with each other.
//!
//! The crate is the engine behind both directions. Export walks an item
//! index and decides which markdown file each documented item gets. Import
//! finds the item a markdown file describes inside a parsed source file,
//! looks for the documentation comment the item already carries, and
//! splices the new text into the file, byte for byte.
//!
//! Everything here works on plain values: text, positions, an item index
//! and a syntax tree held in arenas. Reading files, running commands and
//! parsing source code are left to the caller.

pub mod consts;
pub mod doc_comment_parser;
pub mod edit_docs;
pub mod from_markdown;
pub mod item_index;
pub mod options;
pub mod round_trip;
pub mod syntax_tree;
pub mod text;
pub mod to_markdown;
