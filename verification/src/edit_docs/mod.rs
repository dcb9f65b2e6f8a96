//! Changes to documentation text on its way between source and markdown.

pub mod code_blocks;
