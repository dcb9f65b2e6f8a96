//! The markdown file of one item.

use crate::consts::{
    metadata_line, METADATA_COMMENT_PREFIX, METADATA_COMMENT_SUFFIX, METADATA_ID_PREFIX,
    METADATA_ID_SUFFIX,
};
use crate::edit_docs::code_blocks::{to_markdown, untagged};
use crate::item_index::{Item, ItemIndex, ItemKind};
use crate::text::{join, joined, lines, lines_of};
use crate::to_markdown::item_enum_ext::kind_name;
use crate::to_markdown::iterate_children::{child_tasks, iterate_children, tasks_view, ExportTask};
use vstd::prelude::*;
use vstd::string::StringExecFns;

verus! {

/// A markdown file to be written.
#[derive(Debug)]
pub struct MarkdownFile {
    /// The id of the item that the file documents.
    pub id: String,
    /// Where the file goes, relative to the output directory.
    pub path: String,
    pub contents: String,
}

/// A [`MarkdownFile`] as plain values.
pub struct MarkdownFileView {
    pub id: Seq<char>,
    pub path: Seq<char>,
    pub contents: Seq<char>,
}

impl View for MarkdownFile {
    type V = MarkdownFileView;

    open spec fn view(&self) -> MarkdownFileView {
        MarkdownFileView { id: self.id@, path: self.path@, contents: self.contents@ }
    }
}

/// Where the markdown file of an item goes that is exported under `path`
/// with the kind `kind`: the segments of the path, joined by `/`, then
/// `~`, the name of the kind, and `.md`.
pub open spec fn file_path_of(path: Seq<Seq<char>>, kind: ItemKind) -> Seq<char> {
    joined(path, seq!['/']) + seq!['~'] + kind_name(kind) + seq!['.', 'm', 'd']
}

/// The lines of the documentation `docs`; none where there is no
/// documentation.
pub open spec fn doc_lines_of(docs: Option<Seq<char>>) -> Seq<Seq<char>> {
    match docs {
        Some(text) => lines_of(text),
        None => Seq::empty(),
    }
}

/// What the markdown file of an item holds: the line that carries the id
/// of the item, an empty line, and the lines of the documentation, with
/// the Rust tag taken off every fence.
pub open spec fn file_contents_of(id: Seq<char>, docs: Option<Seq<char>>) -> Seq<char> {
    metadata_line(id) + seq!['\n', '\n'] + joined(untagged(doc_lines_of(docs)), seq!['\n'])
}

/// The markdown file of `item`, exported under `path` with the kind
/// `kind`.
pub open spec fn file_of(item: &Item, path: Seq<Seq<char>>, kind: ItemKind) -> MarkdownFileView {
    MarkdownFileView {
        id: item.id@,
        path: file_path_of(path, kind),
        contents: file_contents_of(item.id@, item.docs.deep_view()),
    }
}

/// Builds the markdown file of `item`.
pub fn markdown_file(item: &Item, path: &Vec<String>, kind: &ItemKind) -> (r: MarkdownFile)
    ensures
        r@ == file_of(item, path.deep_view(), *kind),
{
    proof {
        reveal_strlit("/");
        reveal_strlit("~");
        reveal_strlit(".md");
        reveal_strlit("\n");
        reveal_strlit("\n\n");
        assert("/"@ == seq!['/']);
        assert("~"@ == seq!['~']);
        assert(".md"@ == seq!['.', 'm', 'd']);
        assert("\n"@ == seq!['\n']);
        assert("\n\n"@ == seq!['\n', '\n']);
    }
    let mut file_path = join(path, "/");
    file_path.append("~");
    file_path.append(kind.name());
    file_path.append(".md");
    let mut docs: Vec<String> = match &item.docs {
        Some(text) => lines(text.as_str()),
        None => Vec::new(),
    };
    assert(docs.deep_view() == doc_lines_of(item.docs.deep_view()));
    to_markdown(&mut docs);
    let body = join(&docs, "\n");
    let mut contents = String::from_str(METADATA_COMMENT_PREFIX);
    contents.append(METADATA_ID_PREFIX);
    contents.append(item.id.as_str());
    contents.append(METADATA_ID_SUFFIX);
    contents.append(METADATA_COMMENT_SUFFIX);
    contents.append("\n\n");
    contents.append(body.as_str());
    MarkdownFile { id: item.id.clone(), path: file_path, contents }
}

/// Exports the item at position `position` of the index under `path`
/// with the kind `kind`, unless it has been exported before.
///
/// `handled_ids` tells, for every position of the index, whether the item
/// there has been exported. For an item that has not, the result is its
/// markdown file and the tasks for the items found inside it, and the
/// item is marked as exported. For one that has, there is no result and
/// nothing changes: no item is exported under more than one path.
pub fn handle_item(
    json: &ItemIndex,
    handled_ids: &mut Vec<bool>,
    position: usize,
    path: &Vec<String>,
    kind: &ItemKind,
) -> (r: Option<(MarkdownFile, Vec<ExportTask>)>)
    requires
        position < json.index@.len(),
        old(handled_ids)@.len() == json.index@.len(),
    ensures
        match r {
            None => old(handled_ids)@[position as int] && final(handled_ids)@ == old(handled_ids)@,
            Some((file, tasks)) => {
                &&& !old(handled_ids)@[position as int]
                &&& final(handled_ids)@ == old(handled_ids)@.update(position as int, true)
                &&& file@ == file_of(&json.index@[position as int], path.deep_view(), *kind)
                &&& tasks_view(tasks@) == child_tasks(
                    path.deep_view(),
                    &json.index@[position as int].inner,
                )
            },
        },
{
    if handled_ids[position] {
        return None;
    }
    let item = &json.index[position];
    let file = markdown_file(item, path, kind);
    handled_ids[position] = true;
    let tasks = iterate_children(path, &item.inner);
    Some((file, tasks))
}

} // verus!
