//! Byte-exact edits of a source file: turning a line and column into a
//! byte position, and replacing or inserting a documentation comment.

use crate::doc_comment_parser::{
    lemma_located_bounds, line_end, locate, located, DocCommentType, NEWLINE,
};
use crate::syntax_tree::{LineColumn, SourceSpan};
use crate::text::{
    join, joined, lemma_boundary_at_ascii, lemma_encode_concat, separator_at, split, split_from,
};
use vstd::prelude::*;
use vstd::slice::slice_subrange;
use vstd::string::StringExecFns;
use vstd::string::StringSliceAdditionalSpecFns;
use vstd::utf8::{encode_utf8, encode_utf8_valid_utf8, is_char_boundary, valid_utf8};

verus! {

/// The position at which the line begins that stands `count` lines
/// behind the line beginning at `from`.
///
/// Every line passed over counts with its bytes and one byte for the line
/// feed behind it; so does the last line of the text, which has none.
/// Lines are not counted beyond it.
pub open spec fn line_start(text: Seq<u8>, from: int, count: nat) -> int
    decreases count,
{
    if count == 0 {
        from
    } else {
        let end = line_end(text, from);
        if end >= text.len() {
            (text.len() + 1) as int
        } else {
            line_start(text, end + 1, (count - 1) as nat)
        }
    }
}

/// The byte position of `column` on line `line` of `text`: the bytes of
/// all lines before `line`, one separator byte for each of them, and
/// `column`.
pub open spec fn byte_offset(line: usize, column: usize, text: Seq<u8>) -> int {
    column + if line > 1 {
        line_start(text, 0, (line - 1) as nat)
    } else {
        0
    }
}

/// `text` with the bytes from `start` up to, not including, `end` replaced
/// by `with`.
pub open spec fn spliced(text: Seq<u8>, start: int, end: int, with: Seq<u8>) -> Seq<u8> {
    text.subrange(0, start) + with + text.subrange(end, text.len() as int)
}

/// The text of a comment of style `style` that holds `lines`: the lines
/// written in that style, joined by line feeds.
pub open spec fn comment_text(style: DocCommentType, lines: Seq<Seq<char>>) -> Seq<char> {
    joined(style.rendered(lines), seq!['\n'])
}

/// What is inserted for a comment that was not there before: the text of
/// the comment and one line feed, and one more line feed where the
/// comment documents a whole file.
pub open spec fn inserted_text(style: DocCommentType, lines: Seq<Seq<char>>, extra_newline: bool) -> Seq<
    char,
> {
    comment_text(style, lines) + seq!['\n'] + if extra_newline {
        seq!['\n']
    } else {
        Seq::<char>::empty()
    }
}

/// Whether the bytes from `start` to `end` are a stretch of `text` that
/// begins and ends between two characters.
pub open spec fn is_span_of(text: Seq<u8>, start: int, end: int) -> bool {
    0 <= start <= end <= text.len() && is_char_boundary(text, start) && is_char_boundary(
        text,
        end,
    )
}

/// `text` after the documentation of the declaration that covers the
/// bytes from `start` to `end` has been set to `lines`.
///
/// Where the declaration opens with a documentation comment, that comment
/// is replaced by `lines` written in its own style. Where it does not, a
/// comment of style `style` is inserted right before the declaration.
pub open spec fn updated(
    text: Seq<u8>,
    start: int,
    end: int,
    lines: Seq<Seq<char>>,
    style: DocCommentType,
    extra_newline: bool,
) -> Seq<u8> {
    match located(text.subrange(start, end)) {
        Some(found) => spliced(
            text,
            start + found.start_index,
            start + found.end_index,
            encode_utf8(comment_text(found.comment_type, lines)),
        ),
        None => spliced(text, start, start, encode_utf8(inserted_text(style, lines, extra_newline))),
    }
}

/// [`line_start`] never goes back, and goes at most one byte beyond the
/// text.
pub proof fn lemma_line_start(text: Seq<u8>, from: int, count: nat)
    requires
        0 <= from <= text.len() + 1,
    ensures
        from <= line_start(text, from, count) <= text.len() + 1,
    decreases count,
{
    if count > 0 {
        crate::doc_comment_parser::lemma_line_end(text, from);
        let end = line_end(text, from);
        if end < text.len() {
            lemma_line_start(text, end + 1, (count - 1) as nat);
        }
    }
}

/// Every line passed over adds its bytes and one byte for its line feed:
/// the line that stands one line further begins behind the end of the
/// line before it.
pub proof fn lemma_line_start_adds_a_line(text: Seq<u8>, from: int, count: nat)
    requires
        0 <= from <= text.len(),
    ensures
        line_start(text, from, count + 1) == if line_start(text, from, count) <= text.len() {
            line_end(text, line_start(text, from, count)) + 1
        } else {
            (text.len() + 1) as int
        },
    decreases count,
{
    if count > 0 {
        crate::doc_comment_parser::lemma_line_end(text, from);
        let end = line_end(text, from);
        if end < text.len() {
            lemma_line_start_adds_a_line(text, end + 1, (count - 1) as nat);
        }
    } else {
        crate::doc_comment_parser::lemma_line_end(text, from);
        assert(line_start(text, from, 1) == if line_end(text, from) >= text.len() {
            (text.len() + 1) as int
        } else {
            line_start(text, line_end(text, from) + 1, 0)
        });
    }
}

/// The bytes that the first `count` of `lines` take up, each with one
/// byte for the separator behind it.
pub open spec fn bytes_of_lines(lines: Seq<Seq<u8>>, count: int) -> int
    decreases count,
{
    if count <= 0 {
        0
    } else {
        bytes_of_lines(lines, count - 1) + lines[count - 1].len() + 1
    }
}

/// The bytes of lines can be counted from the front as well: the first
/// line with its separator, and then the others.
proof fn lemma_bytes_of_lines_front(first: Seq<u8>, others: Seq<Seq<u8>>, count: int)
    requires
        1 <= count <= others.len() + 1,
    ensures
        bytes_of_lines(seq![first] + others, count) == first.len() + 1 + bytes_of_lines(
            others,
            count - 1,
        ),
    decreases count,
{
    let all = seq![first] + others;
    if count == 1 {
        assert(all[0] == first);
        assert(bytes_of_lines(all, 0) == 0);
    } else {
        lemma_bytes_of_lines_front(first, others, count - 1);
        assert(all[count - 1] == others[count - 2]);
    }
}

/// A line ends where the text is parted at line feeds.
proof fn lemma_line_end_is_separator(text: Seq<u8>, from: int)
    ensures
        line_end(text, from) == separator_at(text, from, NEWLINE, NEWLINE),
    decreases text.len() - from,
{
    if 0 <= from < text.len() && text[from] != NEWLINE {
        lemma_line_end_is_separator(text, from + 1);
    }
}

/// The line that stands `count` lines further begins behind the bytes of
/// the lines passed over and their separators.
proof fn lemma_line_start_sums_lines(text: Seq<u8>, from: int, count: nat)
    requires
        0 <= from <= text.len(),
        count < split_from(text, from, NEWLINE, NEWLINE).len(),
    ensures
        line_start(text, from, count) == from + bytes_of_lines(
            split_from(text, from, NEWLINE, NEWLINE),
            count as int,
        ),
    decreases count,
{
    if count > 0 {
        lemma_line_end_is_separator(text, from);
        crate::doc_comment_parser::lemma_line_end(text, from);
        let end = line_end(text, from);
        let pieces = split_from(text, from, NEWLINE, NEWLINE);
        assert(end < text.len());
        let others = split_from(text, end + 1, NEWLINE, NEWLINE);
        let first = text.subrange(from, end);
        assert(pieces == seq![first] + others);
        lemma_line_start_sums_lines(text, end + 1, (count - 1) as nat);
        lemma_bytes_of_lines_front(first, others, count as int);
    }
}

/// The byte position of a line and column is the column and, for every
/// line before that line, the bytes of the line and one byte for its
/// separator. The lines are what the line feeds part the text into.
pub proof fn lemma_byte_offset_sums_lines(line: usize, column: usize, text: Seq<u8>)
    requires
        1 <= line <= split(text, NEWLINE, NEWLINE).len(),
    ensures
        byte_offset(line, column, text) == column + bytes_of_lines(
            split(text, NEWLINE, NEWLINE),
            line - 1,
        ),
{
    if line > 1 {
        lemma_line_start_sums_lines(text, 0, (line - 1) as nat);
    }
}

impl LineColumn {
    /// The byte position of this line and column in `file`, where it fits
    /// into a `usize`.
    pub fn checked_byte_pos(&self, file: &String) -> (r: Option<usize>)
        ensures
            r == if byte_offset(self.line, self.column, encode_utf8(file@)) <= usize::MAX {
                Some(byte_offset(self.line, self.column, encode_utf8(file@)) as usize)
            } else {
                None
            },
    {
        let text = file.as_str().as_bytes();
        let len = text.len();
        let mut pos: usize = 0;
        if self.line > 1 {
            let mut left: usize = self.line - 1;
            while left > 0
                invariant
                    len == text@.len(),
                    text@ == encode_utf8(file@),
                    self.line > 1,
                    0 <= pos <= text@.len(),
                    line_start(text@, 0, (self.line - 1) as nat) == line_start(
                        text@,
                        pos as int,
                        left as nat,
                    ),
                decreases left,
            {
                let end = crate::doc_comment_parser::find_line_end(text, pos);
                if end >= len {
                    if len == usize::MAX || self.column > usize::MAX - (len + 1) {
                        return None;
                    }
                    return Some(len + 1 + self.column);
                }
                pos = end + 1;
                left -= 1;
            }
        }
        if self.column > usize::MAX - pos {
            None
        } else {
            Some(pos + self.column)
        }
    }

    /// The byte position of this line and column in `file`: the bytes of
    /// all lines before this one, each with the one byte of its line
    /// feed, and the column.
    pub fn byte_pos(self, file: &String) -> (r: usize)
        requires
            byte_offset(self.line, self.column, encode_utf8(file@)) <= usize::MAX,
        ensures
            r == byte_offset(self.line, self.column, encode_utf8(file@)),
    {
        proof {
            lemma_line_start(encode_utf8(file@), 0, (self.line - 1) as nat);
        }
        match self.checked_byte_pos(file) {
            Some(pos) => pos,
            None => {
                proof {
                    assert(false);
                }
                0
            },
        }
    }
}

/// Replaces the bytes of `file` from `start` up to, not including, `end`
/// by `with`.
pub fn splice(file: &mut String, start: usize, end: usize, with: &str)
    requires
        is_span_of(encode_utf8(old(file)@), start as int, end as int),
    ensures
        encode_utf8(final(file)@) == spliced(
            encode_utf8(old(file)@),
            start as int,
            end as int,
            encode_utf8(with@),
        ),
{
    let whole = file.as_str();
    let (head, _) = whole.split_at(start);
    let (_, tail) = whole.split_at(end);
    let mut out = head.to_owned();
    out.append(with);
    out.append(tail);
    proof {
        lemma_encode_concat(head@, with@);
        lemma_encode_concat(head@ + with@, tail@);
    }
    *file = out;
}

/// Builds the text that [`inserted_text`] describes.
fn render_inserted(style: DocCommentType, lines: Vec<String>, extra_newline: bool) -> (r: String)
    ensures
        r@ == inserted_text(style, lines.deep_view(), extra_newline),
{
    proof {
        reveal_strlit("\n");
        assert("\n"@ == seq!['\n']);
    }
    let rendered = style.edit_lines_for_comment_type(lines);
    let mut docs = join(&rendered, "\n");
    docs.append("\n");
    if extra_newline {
        docs.append("\n");
    } else {
        assert(docs@ + Seq::<char>::empty() == docs@);
    }
    docs
}

/// Inserts a new documentation comment into `file_string` at the byte
/// position `index`.
///
/// The comment holds `new_docs`, written in the style
/// `default_comment_type`, and is followed by one line feed. With
/// `add_extra_newline_for_new_comments` a second line feed follows, which
/// leaves an empty line behind a comment that documents the whole file.
pub fn insert_new_doc_comment(
    index: usize,
    new_docs: Vec<String>,
    file_string: &mut String,
    default_comment_type: DocCommentType,
    add_extra_newline_for_new_comments: bool,
)
    requires
        is_char_boundary(encode_utf8(old(file_string)@), index as int),
    ensures
        encode_utf8(final(file_string)@) == spliced(
            encode_utf8(old(file_string)@),
            index as int,
            index as int,
            encode_utf8(
                inserted_text(
                    default_comment_type,
                    new_docs.deep_view(),
                    add_extra_newline_for_new_comments,
                ),
            ),
        ),
{
    let docs = render_inserted(default_comment_type, new_docs, add_extra_newline_for_new_comments);
    proof {
        encode_utf8_valid_utf8(file_string@);
        vstd::utf8::is_char_boundary_start_end_of_seq(encode_utf8(file_string@));
        lemma_boundary_in_text(encode_utf8(file_string@), index as int);
    }
    splice(file_string, index, index, docs.as_str());
}

/// The byte position at which `span` begins in `text`.
pub open spec fn span_start(span: SourceSpan, text: Seq<u8>) -> int {
    byte_offset(span.start.line, span.start.column, text)
}

/// The byte position right behind the end of `span` in `text`.
pub open spec fn span_end(span: SourceSpan, text: Seq<u8>) -> int {
    byte_offset(span.end.line, span.end.column, text)
}

/// Whether `span` is a stretch of `text` that begins and ends between
/// two characters.
pub open spec fn span_fits(span: SourceSpan, text: Seq<u8>) -> bool {
    is_span_of(text, span_start(span, text), span_end(span, text))
}

/// Tells whether `span` is a stretch of `file` that begins and ends
/// between two characters.
pub fn span_fits_file(span: &SourceSpan, file: &String) -> (r: bool)
    ensures
        r == span_fits(*span, encode_utf8(file@)),
{
    proof {
        encode_utf8_valid_utf8(file@);
        lemma_line_start(encode_utf8(file@), 0, (span.start.line - 1) as nat);
        lemma_line_start(encode_utf8(file@), 0, (span.end.line - 1) as nat);
    }
    let len = file.as_str().as_bytes().len();
    match span.start.checked_byte_pos(file) {
        Some(start) => match span.end.checked_byte_pos(file) {
            Some(end) => {
                let text = file.as_str();
                proof {
                    if is_char_boundary(encode_utf8(file@), end as int) {
                        lemma_boundary_in_text(encode_utf8(file@), end as int);
                    }
                }
                start <= end && text.is_char_boundary(start) && text.is_char_boundary(end)
            },
            None => false,
        },
        None => false,
    }
}

/// Sets the documentation of the declaration that covers `span` in
/// `file_string` to `new_docs`.
///
/// Where the declaration opens with a documentation comment, that comment
/// is replaced, byte for byte, by `new_docs` written in the comment's own
/// style. Where it does not, a comment of style `default_comment_type` is
/// inserted at the start of the span, as [`insert_new_doc_comment`] does.
pub fn update_docs_for_span(
    span: SourceSpan,
    new_docs: Vec<String>,
    file_string: &mut String,
    default_comment_type: DocCommentType,
    add_extra_newline_for_new_comments: bool,
)
    requires
        span_fits(span, encode_utf8(old(file_string)@)),
    ensures
        encode_utf8(final(file_string)@) == updated(
            encode_utf8(old(file_string)@),
            span_start(span, encode_utf8(old(file_string)@)),
            span_end(span, encode_utf8(old(file_string)@)),
            new_docs.deep_view(),
            default_comment_type,
            add_extra_newline_for_new_comments,
        ),
{
    let ghost bytes = encode_utf8(file_string@);
    let len = file_string.as_str().as_bytes().len();
    let start = span.start.byte_pos(file_string);
    let end = span.end.byte_pos(file_string);
    let found = locate(slice_subrange(file_string.as_str().as_bytes(), start, end));
    match found {
        Some(comment) => {
            proof {
                reveal_strlit("\n");
                assert("\n"@ == seq!['\n']);
                let inside = bytes.subrange(start as int, end as int);
                encode_utf8_valid_utf8(file_string@);
                lemma_located_bounds(inside);
                let from = start + comment.start_index;
                let to = start + comment.end_index;
                assert(bytes[from] == inside[comment.start_index as int]);
                lemma_boundary_at_ascii(bytes, from);
                if comment.end_index == inside.len() {
                } else if inside[comment.end_index as int] == NEWLINE {
                    assert(bytes[to] == inside[comment.end_index as int]);
                    lemma_boundary_at_ascii(bytes, to);
                } else {
                    assert(bytes[to - 1] == inside[comment.end_index - 1]);
                    lemma_boundary_at_ascii(bytes, to - 1);
                }
            }
            let rendered = comment.comment_type.edit_lines_for_comment_type(new_docs);
            let docs = join(&rendered, "\n");
            splice(
                file_string,
                start + comment.start_index,
                start + comment.end_index,
                docs.as_str(),
            );
        },
        None => {
            insert_new_doc_comment(
                start,
                new_docs,
                file_string,
                default_comment_type,
                add_extra_newline_for_new_comments,
            );
        },
    }
}

/// A character boundary lies inside the text.
pub proof fn lemma_boundary_in_text(text: Seq<u8>, at: int)
    requires
        valid_utf8(text),
        is_char_boundary(text, at),
    ensures
        0 <= at <= text.len(),
    decreases text.len(),
{
    if at != 0 && 0 <= at <= text.len() {
    } else if at != 0 {
        assert(!is_char_boundary(text, at));
    }
}

} // verus!
