//! Splicing new documentation into the text of a source file.

pub mod resolve_item;
pub mod update_docs_for_span;

use crate::doc_comment_parser::DocCommentType;
use crate::from_markdown::item_info::ItemInfo;
use crate::from_markdown::update_docs::resolve_item::{
    resolve_item, resolved, ResolveError, ResolveErrorView,
};
use crate::from_markdown::update_docs::update_docs_for_span::{
    insert_new_doc_comment, inserted_text, span_end, span_fits, span_fits_file, span_start,
    spliced, update_docs_for_span, updated,
};
use crate::item_index::ItemKind;
use crate::syntax_tree::{LineColumn, SourceSpan, SyntaxTree};
use vstd::prelude::*;
use vstd::string::StringExecFns;
use vstd::utf8::{encode_utf8, encode_utf8_valid_utf8, is_char_boundary_start_end_of_seq};

verus! {

/// Why the documentation of an item could not be written into its file.
#[derive(Clone, Debug, PartialEq, Eq)]
pub enum UpdateError {
    /// The item was not found in the file.
    Resolve(ResolveError),
    /// The place that the syntax tree gives for the item does not lie in
    /// the text of the file, or cuts a character in two.
    SpanOutsideFile(SourceSpan),
}

/// An [`UpdateError`] as plain values.
pub enum UpdateErrorView {
    Resolve(ResolveErrorView),
    SpanOutsideFile(SourceSpan),
}

impl View for UpdateError {
    type V = UpdateErrorView;

    open spec fn view(&self) -> UpdateErrorView {
        match self {
            UpdateError::Resolve(e) => UpdateErrorView::Resolve(e@),
            UpdateError::SpanOutsideFile(span) => UpdateErrorView::SpanOutsideFile(*span),
        }
    }
}

/// Whether position `a` does not come behind position `b`.
pub open spec fn not_behind(a: LineColumn, b: LineColumn) -> bool {
    a.line < b.line || (a.line == b.line && a.column <= b.column)
}

/// The smallest span that covers both `a` and `b`.
pub open spec fn covering(a: SourceSpan, b: SourceSpan) -> SourceSpan {
    SourceSpan {
        start: if not_behind(a.start, b.start) {
            a.start
        } else {
            b.start
        },
        end: if not_behind(a.end, b.end) {
            b.end
        } else {
            a.end
        },
    }
}

/// The smallest span that covers all of `spans`, of which there must be
/// one at least.
pub open spec fn covering_all(spans: Seq<SourceSpan>) -> SourceSpan
    decreases spans.len(),
{
    if spans.len() <= 1 {
        spans[0]
    } else {
        covering(covering_all(spans.drop_last()), spans.last())
    }
}

/// Where the documentation named by `path` stands in the file: the span
/// of the declaration that the path resolves to; for the empty path,
/// which names the file itself, the span that covers the attributes of
/// the file, or nothing if the file has none.
pub open spec fn target_of(tree: &SyntaxTree, path: Seq<(Seq<char>, ItemKind)>) -> Result<
    Option<SourceSpan>,
    ResolveErrorView,
> {
    if path.len() == 0 {
        if tree.attrs@.len() == 0 {
            Ok(None)
        } else {
            Ok(Some(covering_all(tree.attrs@)))
        }
    } else {
        match resolved(tree, path) {
            Ok(found) => Ok(Some(tree.nodes@[found.node() as int].span)),
            Err(e) => Err(e),
        }
    }
}

/// The style in which documentation is written where there was none: the
/// inner line style for a file, the outer line style for a declaration.
pub open spec fn default_style(path: Seq<(Seq<char>, ItemKind)>) -> DocCommentType {
    if path.len() == 0 {
        DocCommentType::InnerSingle
    } else {
        DocCommentType::OuterSingle
    }
}

/// The text of a file after `lines` have become the documentation named
/// by `path`; or why they could not.
pub open spec fn with_docs(
    tree: &SyntaxTree,
    path: Seq<(Seq<char>, ItemKind)>,
    lines: Seq<Seq<char>>,
    text: Seq<u8>,
) -> Result<Seq<u8>, UpdateErrorView> {
    match target_of(tree, path) {
        Err(e) => Err(UpdateErrorView::Resolve(e)),
        Ok(None) => Ok(
            spliced(text, 0, 0, encode_utf8(inserted_text(DocCommentType::InnerSingle, lines, true))),
        ),
        Ok(Some(span)) => if span_fits(span, text) {
            Ok(
                updated(
                    text,
                    span_start(span, text),
                    span_end(span, text),
                    lines,
                    default_style(path),
                    path.len() == 0,
                ),
            )
        } else {
            Err(UpdateErrorView::SpanOutsideFile(span))
        },
    }
}

/// Computes [`covering`].
pub fn cover(a: SourceSpan, b: SourceSpan) -> (r: SourceSpan)
    ensures
        r == covering(a, b),
{
    let start = if a.start.line < b.start.line || (a.start.line == b.start.line && a.start.column
        <= b.start.column) {
        a.start
    } else {
        b.start
    };
    let end = if a.end.line < b.end.line || (a.end.line == b.end.line && a.end.column
        <= b.end.column) {
        b.end
    } else {
        a.end
    };
    SourceSpan { start, end }
}

/// Computes [`covering_all`].
pub fn cover_all(spans: &Vec<SourceSpan>) -> (r: SourceSpan)
    requires
        spans@.len() > 0,
    ensures
        r == covering_all(spans@),
{
    let mut span = spans[0];
    let mut i: usize = 1;
    assert(spans@.take(1)[0] == spans@[0]);
    while i < spans.len()
        invariant
            1 <= i <= spans@.len(),
            span == covering_all(spans@.take(i as int)),
        decreases spans@.len() - i,
    {
        proof {
            assert(spans@.take(i + 1).drop_last() == spans@.take(i as int));
            assert(spans@.take(i + 1).last() == spans@[i as int]);
        }
        span = cover(span, spans[i]);
        i += 1;
    }
    assert(spans@.take(spans@.len() as int) == spans@);
    span
}

/// Where a file with the path `file_path` is written after its
/// documentation has been updated: the source file itself is left as it
/// is.
pub fn output_path(file_path: &str) -> (r: String)
    ensures
        r@ == "target/"@ + file_path@,
{
    let mut out = String::from_str("target/");
    out.append(file_path);
    out
}

/// Writes the new documentation of an item into the text of its source
/// file.
///
/// `tree` is the syntax tree of `file_contents`. An item with an empty
/// path is the file itself: its documentation is an inner comment at the
/// attributes of the file or, where the file has none, at its very
/// start, with an empty line behind it. Any other item is looked up in
/// the tree, and its documentation is an outer comment at its
/// declaration. An existing comment is replaced in its own style.
///
/// On an error the text is left as it was.
pub fn update_docs(tree: &SyntaxTree, item: ItemInfo, file_contents: &mut String) -> (r: Result<
    (),
    UpdateError,
>)
    ensures
        match with_docs(
            tree,
            item.item_path@,
            item.new_docs.deep_view(),
            encode_utf8(old(file_contents)@),
        ) {
            Ok(text) => r is Ok && encode_utf8(final(file_contents)@) == text,
            Err(e) => r matches Err(failure) && failure@ == e && final(file_contents)@ == old(
                file_contents,
            )@,
        },
{
    let ItemInfo { new_docs, item_path, .. } = item;
    if item_path.is_empty() {
        if tree.attrs.len() > 0 {
            let span = cover_all(&tree.attrs);
            if !span_fits_file(&span, file_contents) {
                return Err(UpdateError::SpanOutsideFile(span));
            }
            update_docs_for_span(span, new_docs, file_contents, DocCommentType::InnerSingle, true);
        } else {
            proof {
                encode_utf8_valid_utf8(file_contents@);
                is_char_boundary_start_end_of_seq(encode_utf8(file_contents@));
            }
            insert_new_doc_comment(0, new_docs, file_contents, DocCommentType::InnerSingle, true);
        }
    } else {
        let found = match resolve_item(tree, &item_path) {
            Ok(found) => found,
            Err(e) => {
                return Err(UpdateError::Resolve(e));
            },
        };
        let span = tree.nodes[found.inner()].span;
        if !span_fits_file(&span, file_contents) {
            return Err(UpdateError::SpanOutsideFile(span));
        }
        update_docs_for_span(span, new_docs, file_contents, DocCommentType::OuterSingle, false);
    }
    Ok(())
}

} // verus!
