//! What a markdown file says about the item it documents.

use crate::consts::{
    metadata_line, METADATA_COMMENT_PREFIX, METADATA_COMMENT_SUFFIX, METADATA_ID_PREFIX,
    METADATA_ID_SUFFIX,
};
use crate::edit_docs::code_blocks::{from_markdown, tagged};
use crate::from_markdown::item_path::{is_item_path_of, AmbiguousOrMissing, ItemPath};
use crate::from_markdown::module_paths::{module_path_of, AbsoluteModulePath, RelativeModulePath};
use crate::item_index::{position_in, ItemIndex};
use crate::text::{
    chars_of, lines, lines_of, replace_all, replaced, same_lines, same_range, same_text,
    separator_at, split, split_text, substring, trim, trimmed,
};
use crate::to_markdown::iterate_children::copy_names;
use vstd::prelude::*;
use vstd::string::StringExecFns;

verus! {

/// What a markdown file says about the item it documents.
#[derive(Debug)]
pub struct ItemInfo {
    /// The id of the item.
    pub id: String,
    /// The position of the item in the index.
    pub rustdoc_item: usize,
    /// The new documentation, line by line, as it goes into the source.
    pub new_docs: Vec<String>,
    /// The source file that declares the item.
    pub file_path: String,
    /// The module that this source file holds.
    pub file_module_path: RelativeModulePath,
    /// The path of the item inside this source file.
    pub item_path: ItemPath,
}

/// Why a markdown file could not be read as the documentation of an item.
#[derive(Debug)]
pub enum ItemInfoError {
    /// The pattern that finds the id in a markdown file is not a pattern.
    InvalidIdPattern,
    /// The file does not carry the id of an item.
    NoRustdocId,
    /// The index holds no item with the id that the file carries.
    NotFound { id: String },
    /// The item has no place in the source.
    NoSpan,
    /// The item has no full path in the index, and the markdown file does
    /// not lie below the input directory, so that none can be estimated.
    OutsideInputDir,
    /// The path of the item inside its file could not be built.
    AmbiguousOrMissing(AmbiguousOrMissing),
}

/// What the first group of the pattern `pattern` captures at the first
/// match of the pattern in `text`: nothing where the pattern does not
/// match or the group takes no part in the match. The outer `None` stands
/// for a pattern that cannot be compiled.
pub uninterp spec fn regex_first_group(pattern: Seq<char>, text: Seq<char>) -> Option<
    Option<Seq<char>>,
>;

/// Searches `text` for the pattern `pattern` and hands back what its
/// first group captures.
///
/// Calls `regex::Regex::new` and `regex::Regex::captures`. Nothing is
/// claimed of the result but that it depends on the pattern and the text
/// alone.
#[verifier::external_body]
fn first_group(pattern: &str, text: &str) -> (r: Option<Option<String>>)
    ensures
        r.deep_view() == regex_first_group(pattern@, text@),
{
    match regex::Regex::new(pattern) {
        Ok(re) => Some(re.captures(text).and_then(|found| found.get(1)).map(|m| m.as_str().to_owned())),
        Err(_) => None,
    }
}

/// Writes a path without its `.` and `..` components and without doubled
/// separators.
///
/// Calls `normalize_path::NormalizePath::normalize`. What counts as a
/// separator depends on the platform, so nothing is claimed of the
/// result.
#[verifier::external_body]
fn normalized(path: &str) -> (r: String) {
    normalize_path::NormalizePath::normalize(std::path::Path::new(path)).to_string_lossy().into_owned()
}

/// The part of the pattern that stands for the id.
pub const ID_GROUP: &'static str = "([^\"]*)";

/// The pattern that finds the id of the item in a markdown file.
pub open spec fn id_pattern() -> Seq<char> {
    METADATA_ID_PREFIX@ + ID_GROUP@ + METADATA_ID_SUFFIX@
}

/// The lines of documentation that a markdown file holds for the item
/// with the id `id`: what is left of the file without the line that
/// carries the id and without the white space around the rest.
pub open spec fn edited_lines(contents: Seq<char>, id: Seq<char>) -> Seq<Seq<char>> {
    lines_of(trimmed(replaced(contents, metadata_line(id), Seq::empty())))
}

/// The lines of the documentation that an item has now.
pub open spec fn current_lines(docs: Option<Seq<char>>) -> Seq<Seq<char>> {
    match docs {
        Some(text) => lines_of(trimmed(text)),
        None => Seq::empty(),
    }
}

/// Whether a path begins at the root of the file system: with a
/// separator, of either sort.
pub open spec fn is_rooted(path: Seq<char>) -> bool {
    path.len() > 0 && (path[0] == '/' || path[0] == '\\')
}

/// Whether a component of a path names a file or a directory.
pub open spec fn is_name(component: Seq<char>) -> bool {
    component.len() > 0 && component != seq!['.']
}

/// The components that name a file or a directory, in order.
pub open spec fn names_among(components: Seq<Seq<char>>) -> Seq<Seq<char>>
    decreases components.len(),
{
    if components.len() == 0 {
        Seq::empty()
    } else {
        names_among(components.drop_last()) + if is_name(components.last()) {
            seq![components.last()]
        } else {
            Seq::empty()
        }
    }
}

/// The names that a path is made of. Its components are parted by `/`
/// or by `\`, whichever the platform writes.
pub open spec fn names_of(path: Seq<char>) -> Seq<Seq<char>> {
    names_among(split(path, '/', '\\'))
}

/// Whether the path `file` lies below the path `dir`.
pub open spec fn is_below(file: Seq<char>, dir: Seq<char>) -> bool {
    is_rooted(file) == is_rooted(dir) && names_of(dir).len() <= names_of(file).len() && names_of(
        file,
    ).subrange(0, names_of(dir).len() as int) == names_of(dir)
}

/// Whether a name is that of a markdown file.
pub open spec fn is_markdown_name(name: Seq<char>) -> bool {
    name.len() >= 3 && name.subrange(name.len() - 3, name.len() as int) == seq!['.', 'm', 'd']
}

/// A name up to its first `~`.
pub open spec fn before_tilde(name: Seq<char>) -> Seq<char> {
    name.subrange(0, separator_at(name, 0, '~', '~'))
}

/// The path that the names from position `from` on stand for: each name
/// is a segment, up to the name of a markdown file, which ends the path
/// with what it holds before its first `~`.
pub open spec fn estimated_from(names: Seq<Seq<char>>, from: int) -> Seq<Seq<char>>
    decreases names.len() - from,
{
    if from < 0 || from >= names.len() {
        Seq::empty()
    } else if is_markdown_name(names[from]) {
        seq![before_tilde(names[from])]
    } else {
        seq![names[from]] + estimated_from(names, from + 1)
    }
}

/// The full path of the item that the markdown file at `file` documents,
/// estimated from where the file lies below the input directory `dir`;
/// nothing where it does not lie below it.
pub open spec fn estimated_path(file: Seq<char>, dir: Seq<char>) -> Option<Seq<Seq<char>>> {
    if is_below(file, dir) {
        Some(estimated_from(names_of(file), names_of(dir).len() as int))
    } else {
        None
    }
}

/// The full path of the item with the id `id`: the one that the table of
/// paths gives it, or else the one estimated from where its markdown
/// file lies.
pub open spec fn full_path_of(json: &ItemIndex, id: Seq<char>, file: Seq<char>, dir: Seq<char>) -> Option<
    Seq<Seq<char>>,
> {
    match position_in(json.path_ids(), id) {
        Some(at) => Some(json.paths@[at].1.path.deep_view()),
        None => estimated_path(file, dir),
    }
}

/// Whether `outcome` is what the markdown file with the contents
/// `contents`, which carries the id `id` and lies at `file` below the
/// input directory `dir`, says about its item.
///
/// A file without an id, and an id that the index does not hold, are
/// errors. A file whose lines are those of the documentation that the
/// item has now says nothing new, and the outcome is `Ok(None)`.
/// Otherwise the item must have a place in the source and a full path,
/// and the path of the item inside its file must be unique at every
/// step; the outcome then holds the new lines, with every fence that
/// opens a code block tagged as Rust.
pub open spec fn is_item_info_of(
    json: &ItemIndex,
    contents: Seq<char>,
    id: Option<Seq<char>>,
    file: Seq<char>,
    dir: Seq<char>,
    outcome: Result<Option<ItemInfo>, ItemInfoError>,
) -> bool {
    match id {
        None => outcome matches Err(ItemInfoError::NoRustdocId),
        Some(id) => match position_in(json.item_ids(), id) {
            None => outcome matches Err(ItemInfoError::NotFound { id: missing }) && missing@ == id,
            Some(at) => if edited_lines(contents, id) == current_lines(
                json.index@[at].docs.deep_view(),
            ) {
                outcome matches Ok(None)
            } else {
                match json.index@[at].filename {
                    None => outcome matches Err(ItemInfoError::NoSpan),
                    Some(filename) => match full_path_of(json, id, file, dir) {
                        None => outcome matches Err(ItemInfoError::OutsideInputDir),
                        Some(full) => match outcome {
                            Ok(Some(info)) => {
                                &&& info.id@ == id
                                &&& info.rustdoc_item == at
                                &&& info.new_docs.deep_view() == tagged(edited_lines(contents, id))
                                &&& info.file_path@ == filename@
                                &&& info.file_module_path@ == module_path_of(filename@)
                                &&& is_item_path_of(
                                    json.paths@,
                                    module_path_of(filename@),
                                    full,
                                    Ok(info.item_path),
                                )
                            },
                            Err(ItemInfoError::AmbiguousOrMissing(e)) => is_item_path_of(
                                json.paths@,
                                module_path_of(filename@),
                                full,
                                Err(e),
                            ),
                            _ => false,
                        },
                    },
                }
            },
        },
    }
}

/// The names that a path is made of.
fn path_names(path: &str) -> (r: Vec<String>)
    ensures
        r.deep_view() == names_of(path@),
{
    proof {
        reveal_strlit("");
        reveal_strlit(".");
        assert("."@ == seq!['.']);
    }
    let components = split_text(path, '/', '\\');
    let ghost all = components.deep_view();
    let mut names: Vec<String> = Vec::new();
    let mut i: usize = 0;
    while i < components.len()
        invariant
            i <= components@.len(),
            all == components.deep_view(),
            ""@.len() == 0,
            "."@ == seq!['.'],
            names.deep_view() == names_among(all.take(i as int)),
        decreases components@.len() - i,
    {
        let ghost done = names.deep_view();
        let component = &components[i];
        proof {
            assert(all.take(i + 1).drop_last() == all.take(i as int));
            assert(all.take(i + 1).last() == component@);
            if component@.len() == 0 {
                assert(component@ == ""@);
            }
        }
        if !(same_text(component.as_str(), "") || same_text(component.as_str(), ".")) {
            names.push(component.clone());
            assert(names.deep_view() == done.push(component@));
            assert(done + seq![component@] == done.push(component@));
        } else {
            assert(done + Seq::<Seq<char>>::empty() == done);
        }
        i += 1;
    }
    assert(all.take(all.len() as int) == all);
    names
}

/// Tells whether a path begins at the root of the file system.
fn begins_at_root(path: &str) -> (r: bool)
    ensures
        r == is_rooted(path@),
{
    let chars = chars_of(path);
    chars.len() > 0 && (chars[0] == '/' || chars[0] == '\\')
}

/// The segment that a name adds to an estimated path, and whether the
/// name is that of a markdown file and so ends the path.
fn estimated_segment(name: &str) -> (r: (String, bool))
    ensures
        r.1 == is_markdown_name(name@),
        r.0@ == if is_markdown_name(name@) {
            before_tilde(name@)
        } else {
            name@
        },
{
    let chars = chars_of(name);
    let len = chars.len();
    proof {
        if len >= 3 {
            let tail = name@.subrange(len - 3, len as int);
            assert(tail[0] == name@[len - 3]);
            assert(tail[1] == name@[len - 2]);
            assert(tail[2] == name@[len - 1]);
            if name@[len - 3] == '.' && name@[len - 2] == 'm' && name@[len - 1] == 'd' {
                assert(tail == seq!['.', 'm', 'd']);
            }
        }
    }
    if len >= 3 && chars[len - 3] == '.' && chars[len - 2] == 'm' && chars[len - 1] == 'd' {
        let mut end: usize = 0;
        while end < len && chars[end] != '~'
            invariant
                len == name@.len(),
                chars@ == name@,
                end <= len,
                separator_at(name@, 0, '~', '~') == separator_at(name@, end as int, '~', '~'),
            decreases len - end,
        {
            end += 1;
        }
        (substring(name, 0, end), true)
    } else {
        (name.to_owned(), false)
    }
}

/// Estimates the full path of the item that the markdown file at `file`
/// documents from where the file lies below the input directory `dir`.
pub fn estimate_full_path(file: &str, dir: &str) -> (r: Option<Vec<String>>)
    ensures
        r.deep_view() == estimated_path(file@, dir@),
{
    let file_names = path_names(file);
    let dir_names = path_names(dir);
    let depth = dir_names.len();
    let count = file_names.len();
    if begins_at_root(file) != begins_at_root(dir) || depth > count {
        return None;
    }
    assert(dir_names.deep_view().subrange(0, depth as int) == dir_names.deep_view());
    if !same_range(&file_names, 0, &dir_names, 0, depth) {
        return None;
    }
    let ghost names = file_names.deep_view();
    let mut out: Vec<String> = Vec::new();
    let mut i: usize = depth;
    let mut ended = false;
    assert(out.deep_view() + estimated_from(names, depth as int) == estimated_from(
        names,
        depth as int,
    ));
    while i < count && !ended
        invariant
            count == file_names@.len(),
            names == file_names.deep_view(),
            depth <= i <= count,
            estimated_from(names, depth as int) == out.deep_view() + if ended {
                Seq::<Seq<char>>::empty()
            } else {
                estimated_from(names, i as int)
            },
        decreases count - i,
    {
        let ghost done = out.deep_view();
        let (segment, last) = estimated_segment(file_names[i].as_str());
        out.push(segment);
        proof {
            assert(out.deep_view() == done.push(segment@));
            if last {
                assert(done + seq![segment@] == done.push(segment@));
                assert(out.deep_view() + Seq::<Seq<char>>::empty() == out.deep_view());
            } else {
                assert(done + (seq![segment@] + estimated_from(names, i + 1)) == done.push(
                    segment@,
                ) + estimated_from(names, i + 1));
            }
        }
        ended = last;
        i += 1;
    }
    proof {
        assert(out.deep_view() + Seq::<Seq<char>>::empty() == out.deep_view());
    }
    Some(out)
}

/// Builds the first line of the markdown file of the item with the id
/// `id`.
fn metadata_line_for(id: &str) -> (r: String)
    ensures
        r@ == metadata_line(id@),
        r@.len() > 0,
{
    let mut line = String::from_str(METADATA_COMMENT_PREFIX);
    line.append(METADATA_ID_PREFIX);
    line.append(id);
    line.append(METADATA_ID_SUFFIX);
    line.append(METADATA_COMMENT_SUFFIX);
    proof {
        reveal_strlit(" -->");
        assert(METADATA_COMMENT_SUFFIX@.len() == 4);
    }
    line
}

/// Reads what a markdown file says about its item, once the id that the
/// file carries is known.
///
/// `contents` is the text of the markdown file, `id` the id found in it,
/// `file` the path of the file and `dir` the input directory, both
/// without `.` and `..` components.
pub fn item_info_for(
    json: &ItemIndex,
    contents: &str,
    id: Option<String>,
    file: &str,
    dir: &str,
) -> (r: Result<Option<ItemInfo>, ItemInfoError>)
    ensures
        is_item_info_of(json, contents@, id.deep_view(), file@, dir@, r),
{
    let id = match id {
        Some(id) => id,
        None => {
            return Err(ItemInfoError::NoRustdocId);
        },
    };
    let position = match json.find(id.as_str()) {
        Some(position) => position,
        None => {
            return Err(ItemInfoError::NotFound { id });
        },
    };
    let item = &json.index[position];
    proof {
        reveal_strlit("");
        assert(""@ == Seq::<char>::empty());
    }
    let line = metadata_line_for(id.as_str());
    let stripped = replace_all(contents, line.as_str(), "");
    let mut new_docs = lines(trim(stripped.as_str()).as_str());
    let old_docs: Vec<String> = match &item.docs {
        Some(text) => lines(trim(text.as_str()).as_str()),
        None => Vec::new(),
    };
    proof {
        assert(new_docs.deep_view() == edited_lines(contents@, id@));
        assert(old_docs.deep_view() == current_lines(item.docs.deep_view()));
        assert(item == json.index@[position as int]);
    }
    if same_lines(&new_docs, &old_docs) {
        return Ok(None);
    }
    from_markdown(&mut new_docs);
    let file_path = match &item.filename {
        Some(filename) => filename.clone(),
        None => {
            return Err(ItemInfoError::NoSpan);
        },
    };
    let file_module_path = RelativeModulePath::from_file_path(file_path.as_str());
    let full: Vec<String> = match json.find_path(id.as_str()) {
        Some(at) => copy_names(&json.paths[at].1.path),
        None => match estimate_full_path(file, dir) {
            Some(estimated) => estimated,
            None => {
                return Err(ItemInfoError::OutsideInputDir);
            },
        },
    };
    assert(Some(full.deep_view()) == full_path_of(json, id@, file@, dir@));
    match ItemPath::new(&file_module_path, AbsoluteModulePath(&full), json) {
        Ok(item_path) => Ok(
            Some(
                ItemInfo {
                    id,
                    rustdoc_item: position,
                    new_docs,
                    file_path,
                    file_module_path,
                    item_path,
                },
            ),
        ),
        Err(e) => Err(ItemInfoError::AmbiguousOrMissing(e)),
    }
}

/// Reads what the markdown file at `file`, with the contents `contents`,
/// says about the item it documents.
///
/// The id of the item is what stands between the quotes of the first
/// `DOC_SYNC_RUSTDOC_ID="…"` in the file. `input_dir` is the directory
/// that holds the markdown files; it is used only for an item that has
/// no full path in the index.
pub fn get_item_info(json: &ItemIndex, input_dir: &str, file: &str, contents: &str) -> (r: Result<
    Option<ItemInfo>,
    ItemInfoError,
>)
    ensures
        match regex_first_group(id_pattern(), contents@) {
            None => r matches Err(ItemInfoError::InvalidIdPattern),
            Some(id) => exists|at: Seq<char>, dir: Seq<char>|
                is_item_info_of(json, contents@, id, at, dir, r),
        },
{
    let mut pattern = String::from_str(METADATA_ID_PREFIX);
    pattern.append(ID_GROUP);
    pattern.append(METADATA_ID_SUFFIX);
    match first_group(pattern.as_str(), contents) {
        None => Err(ItemInfoError::InvalidIdPattern),
        Some(id) => {
            let at = normalized(file);
            let dir = normalized(input_dir);
            item_info_for(json, contents, id, at.as_str(), dir.as_str())
        },
    }
}

} // verus!
