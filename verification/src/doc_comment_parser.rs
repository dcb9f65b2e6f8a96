//! Documentation comments: the four styles, how plain lines are written
//! in each of them, and how a comment is found at the head of a
//! declaration.

use crate::text::{chars_of, matches_at, same_text, substring};
use vstd::prelude::*;
use vstd::string::StringExecFns;
use vstd::string::StringSliceAdditionalSpecFns;
use vstd::utf8::encode_utf8;

verus! {

/// A documentation comment found in a piece of source text: its style and
/// the bytes it covers, from `start_index` up to, not including,
/// `end_index`.
#[derive(Clone, Copy, Debug, PartialEq, Eq, Structural)]
pub struct DocComment {
    pub comment_type: DocCommentType,
    pub start_index: usize,
    pub end_index: usize,
}

/// The four styles of documentation comment.
#[derive(Clone, Copy, Debug, PartialEq, Eq, Structural)]
pub enum DocCommentType {
    /// `///`
    OuterSingle,
    /// `//!`
    InnerSingle,
    /// `/** */`
    OuterMulti,
    /// `/*! */`
    InnerMulti,
}

/// A text that is not the opening marker of any comment style.
#[derive(Debug)]
pub struct InvalidDocCommentType(pub String);

/// The byte `/`.
pub const SLASH: u8 = 0x2f;

/// The byte `*`.
pub const STAR: u8 = 0x2a;

/// The byte `!`.
pub const BANG: u8 = 0x21;

/// The byte that ends a line.
pub const NEWLINE: u8 = 0x0a;

/// Whether `line` begins with `prefix`.
pub open spec fn opens_with(line: Seq<char>, prefix: Seq<char>) -> bool {
    line.len() >= prefix.len() && line.subrange(0, prefix.len() as int) == prefix
}

/// The text `*/`, which closes a block comment.
pub open spec fn block_closer() -> Seq<char> {
    seq!['*', '/']
}

impl DocCommentType {
    /// The three characters that open a comment of this style.
    pub open spec fn marker(self) -> Seq<char> {
        match self {
            DocCommentType::OuterSingle => seq!['/', '/', '/'],
            DocCommentType::InnerSingle => seq!['/', '/', '!'],
            DocCommentType::OuterMulti => seq!['/', '*', '*'],
            DocCommentType::InnerMulti => seq!['/', '*', '!'],
        }
    }

    /// Whether the style marks every line, rather than wrapping a block.
    pub open spec fn is_line_style(self) -> bool {
        self == DocCommentType::OuterSingle || self == DocCommentType::InnerSingle
    }

    /// One plain line written in a line style: the marker, one space, the
    /// line.
    pub open spec fn rendered_line(self, line: Seq<char>) -> Seq<char> {
        self.marker() + seq![' '] + line
    }

    /// Plain lines written as a comment of this style. A line style puts
    /// the marker and one space before every line. A block style puts the
    /// opening marker on a line of its own before the lines, and the
    /// closing `*/` on a line of its own behind them.
    pub open spec fn rendered(self, lines: Seq<Seq<char>>) -> Seq<Seq<char>> {
        if self.is_line_style() {
            Seq::new(lines.len(), |i: int| self.rendered_line(lines[i]))
        } else {
            seq![self.marker()] + lines + seq![block_closer()]
        }
    }

    /// What a line style puts before every line: the marker and one
    /// space.
    pub open spec fn line_prefix(self) -> Seq<char> {
        self.marker() + seq![' ']
    }

    /// The plain lines that the lines of a comment of this style stand
    /// for, if the comment has the shape that [`Self::rendered`] gives:
    /// every line of a line style must open with the marker and one
    /// space; a block style must open with the marker on a line of its
    /// own and close with `*/` on a line of its own.
    pub open spec fn plain(self, lines: Seq<Seq<char>>) -> Option<Seq<Seq<char>>> {
        if self.is_line_style() {
            if forall|i: int|
                0 <= i < lines.len() ==> opens_with(#[trigger] lines[i], self.line_prefix()) {
                Some(Seq::new(lines.len(), |i: int| lines[i].subrange(4, lines[i].len() as int)))
            } else {
                None
            }
        } else {
            if lines.len() >= 2 && lines[0] == self.marker() && lines.last() == block_closer() {
                Some(lines.subrange(1, lines.len() - 1))
            } else {
                None
            }
        }
    }

    /// The opening marker, with the space that a line style puts behind
    /// it.
    fn opener(&self) -> (r: &'static str)
        ensures
            r@ == if self.is_line_style() {
                self.marker() + seq![' ']
            } else {
                self.marker()
            },
    {
        proof {
            reveal_strlit("/// ");
            reveal_strlit("//! ");
            reveal_strlit("/**");
            reveal_strlit("/*!");
        }
        match self {
            DocCommentType::OuterSingle => {
                assert("/// "@ == seq!['/', '/', '/'] + seq![' ']);
                "/// "
            },
            DocCommentType::InnerSingle => {
                assert("//! "@ == seq!['/', '/', '!'] + seq![' ']);
                "//! "
            },
            DocCommentType::OuterMulti => {
                assert("/**"@ == seq!['/', '*', '*']);
                "/**"
            },
            DocCommentType::InnerMulti => {
                assert("/*!"@ == seq!['/', '*', '!']);
                "/*!"
            },
        }
    }

    /// Writes plain lines as a comment of this style.
    pub fn edit_lines_for_comment_type(&self, lines: Vec<String>) -> (r: Vec<String>)
        ensures
            r.deep_view() == self.rendered(lines.deep_view()),
    {
        let opener = self.opener();
        let line_style = match self {
            DocCommentType::OuterSingle | DocCommentType::InnerSingle => true,
            _ => false,
        };
        let ghost plain = lines.deep_view();
        let mut out: Vec<String> = Vec::new();
        if !line_style {
            out.push(String::from_str(opener));
        }
        let ghost base = out.deep_view();
        let mut i: usize = 0;
        while i < lines.len()
            invariant
                i <= lines@.len(),
                plain == lines.deep_view(),
                plain.len() == lines@.len(),
                opener@ == if self.is_line_style() {
                    self.marker() + seq![' ']
                } else {
                    self.marker()
                },
                line_style == self.is_line_style(),
                base == if line_style {
                    Seq::<Seq<char>>::empty()
                } else {
                    seq![self.marker()]
                },
                out.deep_view() == base + if line_style {
                    Seq::new(i as nat, |k: int| self.rendered_line(plain[k]))
                } else {
                    plain.take(i as int)
                },
            decreases lines@.len() - i,
        {
            let ghost before = out.deep_view();
            let line = if line_style {
                let mut l = String::from_str(opener);
                l.append(lines[i].as_str());
                l
            } else {
                lines[i].clone()
            };
            out.push(line);
            proof {
                assert(out.deep_view() == before.push(line@));
                if line_style {
                    assert(line@ == self.rendered_line(plain[i as int]));
                    assert(Seq::new((i + 1) as nat, |k: int| self.rendered_line(plain[k])) == Seq::new(
                        i as nat,
                        |k: int| self.rendered_line(plain[k]),
                    ).push(line@));
                } else {
                    assert(plain.take(i + 1) == plain.take(i as int).push(line@));
                }
            }
            i += 1;
        }
        if !line_style {
            let ghost before = out.deep_view();
            proof {
                reveal_strlit("*/");
                assert("*/"@ == block_closer());
                assert(plain.take(plain.len() as int) == plain);
            }
            out.push(String::from_str("*/"));
            assert(out.deep_view() == before.push(block_closer()));
        }
        out
    }

    /// Reads the plain lines back from the lines of a comment of this
    /// style; `None` where the lines do not have the shape of such a
    /// comment.
    pub fn plain_lines_for_comment_type(&self, lines: Vec<String>) -> (r: Option<Vec<String>>)
        ensures
            r.deep_view() == self.plain(lines.deep_view()),
    {
        let ghost all = lines.deep_view();
        let opener = chars_of(self.opener());
        let count = lines.len();
        let line_style = match self {
            DocCommentType::OuterSingle | DocCommentType::InnerSingle => true,
            _ => false,
        };
        let mut out: Vec<String> = Vec::new();
        if line_style {
            let mut i: usize = 0;
            while i < count
                invariant
                    count == lines@.len(),
                    all == lines.deep_view(),
                    self.is_line_style(),
                    opener@ == self.line_prefix(),
                    i <= count,
                    forall|k: int| 0 <= k < i ==> opens_with(#[trigger] all[k], self.line_prefix()),
                    out.deep_view() == Seq::new(
                        i as nat,
                        |k: int| all[k].subrange(4, all[k].len() as int),
                    ),
                decreases count - i,
            {
                let ghost done = out.deep_view();
                let line = lines[i].as_str();
                let chars = chars_of(line);
                if !matches_at(&chars, 0, &opener) {
                    assert(!opens_with(all[i as int], self.line_prefix()));
                    return None;
                }
                let rest = substring(line, 4, chars.len());
                out.push(rest);
                proof {
                    assert(out.deep_view() == done.push(rest@));
                    assert(Seq::new((i + 1) as nat, |k: int| all[k].subrange(4, all[k].len() as int))
                        == Seq::new(i as nat, |k: int| all[k].subrange(4, all[k].len() as int)).push(
                        rest@,
                    ));
                }
                i += 1;
            }
            Some(out)
        } else {
            proof {
                reveal_strlit("*/");
                assert("*/"@ == block_closer());
            }
            if count < 2 || !same_text(lines[0].as_str(), self.opener()) || !same_text(
                lines[count - 1].as_str(),
                "*/",
            ) {
                return None;
            }
            let mut i: usize = 1;
            while i + 1 < count
                invariant
                    count == lines@.len(),
                    count >= 2,
                    all == lines.deep_view(),
                    1 <= i <= count - 1,
                    out.deep_view() == all.subrange(1, i as int),
                decreases count - i,
            {
                let ghost done = out.deep_view();
                let line = lines[i].clone();
                out.push(line);
                proof {
                    assert(out.deep_view() == done.push(all[i as int]));
                    assert(all.subrange(1, i + 1) == all.subrange(1, i as int).push(all[i as int]));
                }
                i += 1;
            }
            Some(out)
        }
    }

    /// The style that the text `s` opens, if `s` is exactly one of the
    /// four opening markers; otherwise the text is handed back as the
    /// error.
    pub fn from_marker(s: &str) -> (r: Result<DocCommentType, InvalidDocCommentType>)
        ensures
            match r {
                Ok(style) => s@ == style.marker(),
                Err(e) => e.0@ == s@ && forall|style: DocCommentType| s@ != style.marker(),
            },
    {
        proof {
            reveal_strlit("///");
            reveal_strlit("//!");
            reveal_strlit("/**");
            reveal_strlit("/*!");
            assert("///"@ == DocCommentType::OuterSingle.marker());
            assert("//!"@ == DocCommentType::InnerSingle.marker());
            assert("/**"@ == DocCommentType::OuterMulti.marker());
            assert("/*!"@ == DocCommentType::InnerMulti.marker());
        }
        if same_text(s, "///") {
            Ok(DocCommentType::OuterSingle)
        } else if same_text(s, "//!") {
            Ok(DocCommentType::InnerSingle)
        } else if same_text(s, "/**") {
            Ok(DocCommentType::OuterMulti)
        } else if same_text(s, "/*!") {
            Ok(DocCommentType::InnerMulti)
        } else {
            Err(InvalidDocCommentType(s.to_owned()))
        }
    }
}

/// Reading back what was written gives the lines that were written:
/// plain lines rendered in a style are, read as a comment of that style,
/// the plain lines again.
pub proof fn lemma_rendered_lines_read_back(style: DocCommentType, lines: Seq<Seq<char>>)
    ensures
        style.plain(style.rendered(lines)) == Some(lines),
{
    let rendered = style.rendered(lines);
    if style.is_line_style() {
        assert forall|i: int| 0 <= i < rendered.len() implies opens_with(
            #[trigger] rendered[i],
            style.line_prefix(),
        ) by {
            assert(rendered[i] == style.line_prefix() + lines[i]);
            assert(rendered[i].subrange(0, 4) == style.line_prefix());
        }
        assert forall|i: int| 0 <= i < rendered.len() implies rendered[i].subrange(
            4,
            rendered[i].len() as int,
        ) == lines[i] by {
            assert(rendered[i] == style.line_prefix() + lines[i]);
        }
        assert(Seq::new(
            rendered.len(),
            |i: int| rendered[i].subrange(4, rendered[i].len() as int),
        ) == lines);
    } else {
        assert(rendered.subrange(1, rendered.len() - 1) == lines);
    }
}

/// Whether a byte is white space that may stand before a declaration:
/// a space, a tab, a line feed or a carriage return.
pub open spec fn is_blank(b: u8) -> bool {
    b == 0x20 || b == 0x09 || b == 0x0a || b == 0x0d
}

/// Whether a byte indents a line: a space or a tab.
pub open spec fn is_indent(b: u8) -> bool {
    b == 0x20 || b == 0x09
}

/// The first position at or behind `from` that holds no blank byte; the
/// length of the text if there is none.
pub open spec fn after_blanks(text: Seq<u8>, from: int) -> int
    decreases text.len() - from,
{
    if 0 <= from < text.len() && is_blank(text[from]) {
        after_blanks(text, from + 1)
    } else {
        from
    }
}

/// The first position at or behind `from` that holds no indenting byte;
/// the length of the text if there is none.
pub open spec fn after_indent(text: Seq<u8>, from: int) -> int
    decreases text.len() - from,
{
    if 0 <= from < text.len() && is_indent(text[from]) {
        after_indent(text, from + 1)
    } else {
        from
    }
}

/// The first position at or behind `from` that holds a line feed; the
/// length of the text if there is none.
pub open spec fn line_end(text: Seq<u8>, from: int) -> int
    decreases text.len() - from,
{
    if 0 <= from < text.len() && text[from] != NEWLINE {
        line_end(text, from + 1)
    } else {
        from
    }
}

/// The line style whose marker stands in `text` at position `at`.
pub open spec fn line_marker_at(text: Seq<u8>, at: int) -> Option<DocCommentType> {
    if 0 <= at && at + 3 <= text.len() && text[at] == SLASH && text[at + 1] == SLASH {
        if text[at + 2] == SLASH {
            Some(DocCommentType::OuterSingle)
        } else if text[at + 2] == BANG {
            Some(DocCommentType::InnerSingle)
        } else {
            None
        }
    } else {
        None
    }
}

/// The block style whose opening marker stands in `text` at position
/// `at`.
pub open spec fn block_marker_at(text: Seq<u8>, at: int) -> Option<DocCommentType> {
    if 0 <= at && at + 3 <= text.len() && text[at] == SLASH && text[at + 1] == STAR {
        if text[at + 2] == STAR {
            Some(DocCommentType::OuterMulti)
        } else if text[at + 2] == BANG {
            Some(DocCommentType::InnerMulti)
        } else {
            None
        }
    } else {
        None
    }
}

/// The run of marked lines that begins with the line marker at position
/// `at`: where its last line ends, and the style of that last line.
///
/// The run goes on as long as the next line, after its indentation, opens
/// with a line marker again. The line feed behind the last line is not
/// part of the run.
pub open spec fn line_run(text: Seq<u8>, at: int) -> (int, DocCommentType)
    recommends
        line_marker_at(text, at) is Some,
    decreases text.len() - at,
{
    let end = line_end(text, at + 3);
    let next = after_indent(text, end + 1);
    if 0 <= at && end < text.len() && line_marker_at(text, next) is Some {
        proof {
            lemma_line_end(text, at + 3);
            lemma_after_indent(text, end + 1);
        }
        line_run(text, next)
    } else {
        (end, line_marker_at(text, at).unwrap())
    }
}

/// The position right behind the first `*/` that begins at or behind
/// `from`.
pub open spec fn block_close(text: Seq<u8>, from: int) -> Option<int>
    decreases text.len() - from,
{
    if from < 0 || from + 2 > text.len() {
        None
    } else if text[from] == STAR && text[from + 1] == SLASH {
        Some(from + 2)
    } else {
        block_close(text, from + 1)
    }
}

/// The documentation comment at the head of `text`.
///
/// Blank bytes at the very start are passed over. What follows must be
/// either a run of lines that each open with a line marker, which is then
/// the comment, from the first marker to the end of the last such line;
/// or a block comment that opens with a block marker, which is then the
/// comment, from the marker to the first `*/` behind it. Anything else,
/// and a block that is never closed, is no comment.
pub open spec fn located(text: Seq<u8>) -> Option<DocComment> {
    let start = after_blanks(text, 0);
    if line_marker_at(text, start) is Some {
        let (end, style) = line_run(text, start);
        Some(
            DocComment { comment_type: style, start_index: start as usize, end_index: end as usize },
        )
    } else if block_marker_at(text, start) is Some {
        match block_close(text, start + 3) {
            Some(end) => Some(
                DocComment {
                    comment_type: block_marker_at(text, start).unwrap(),
                    start_index: start as usize,
                    end_index: end as usize,
                },
            ),
            None => None,
        }
    } else {
        None
    }
}

/// [`after_blanks`] stops at the first byte that is not blank.
pub proof fn lemma_after_blanks(text: Seq<u8>, from: int)
    requires
        0 <= from <= text.len(),
    ensures
        from <= after_blanks(text, from) <= text.len(),
        forall|k: int| from <= k < after_blanks(text, from) ==> is_blank(#[trigger] text[k]),
        after_blanks(text, from) < text.len() ==> !is_blank(text[after_blanks(text, from)]),
    decreases text.len() - from,
{
    if from < text.len() && is_blank(text[from]) {
        lemma_after_blanks(text, from + 1);
    }
}

/// [`after_indent`] stops at the first byte that does not indent.
pub proof fn lemma_after_indent(text: Seq<u8>, from: int)
    requires
        0 <= from,
    ensures
        from <= after_indent(text, from),
        from <= text.len() ==> after_indent(text, from) <= text.len(),
        forall|k: int| from <= k < after_indent(text, from) ==> is_indent(#[trigger] text[k]),
        after_indent(text, from) < text.len() ==> !is_indent(text[after_indent(text, from)]),
    decreases text.len() - from,
{
    if from < text.len() && is_indent(text[from]) {
        lemma_after_indent(text, from + 1);
    }
}

/// [`line_end`] stops at the first line feed.
pub proof fn lemma_line_end(text: Seq<u8>, from: int)
    requires
        0 <= from,
    ensures
        from <= line_end(text, from),
        from <= text.len() ==> line_end(text, from) <= text.len(),
        forall|k: int| from <= k < line_end(text, from) ==> #[trigger] text[k] != NEWLINE,
        line_end(text, from) < text.len() ==> text[line_end(text, from)] == NEWLINE,
    decreases text.len() - from,
{
    if from < text.len() && text[from] != NEWLINE {
        lemma_line_end(text, from + 1);
    }
}

/// A run of marked lines ends inside the text, behind its first marker,
/// at a line feed or at the end of the text.
pub proof fn lemma_line_run(text: Seq<u8>, at: int)
    requires
        line_marker_at(text, at) is Some,
    ensures
        at + 3 <= line_run(text, at).0 <= text.len(),
        line_run(text, at).0 < text.len() ==> text[line_run(text, at).0] == NEWLINE,
    decreases text.len() - at,
{
    lemma_line_end(text, at + 3);
    let end = line_end(text, at + 3);
    lemma_after_indent(text, end + 1);
    let next = after_indent(text, end + 1);
    if end < text.len() && line_marker_at(text, next) is Some {
        lemma_line_run(text, next);
    }
}

/// A block is closed inside the text, by the two bytes `*/`.
pub proof fn lemma_block_close(text: Seq<u8>, from: int)
    requires
        0 <= from,
        block_close(text, from) is Some,
    ensures
        from + 2 <= block_close(text, from).unwrap() <= text.len(),
        text[block_close(text, from).unwrap() - 2] == STAR,
        text[block_close(text, from).unwrap() - 1] == SLASH,
        forall|k: int|
            from <= k < block_close(text, from).unwrap() - 2 ==> !(#[trigger] text[k] == STAR
                && text[k + 1] == SLASH),
    decreases text.len() - from,
{
    if from + 2 <= text.len() && !(text[from] == STAR && text[from + 1] == SLASH) {
        lemma_block_close(text, from + 1);
    }
}

/// A located comment lies inside the text and opens with a slash.
pub proof fn lemma_located_bounds(text: Seq<u8>)
    requires
        located(text) is Some,
        text.len() <= usize::MAX,
    ensures
        located(text).unwrap().start_index + 3 <= located(text).unwrap().end_index <= text.len(),
        text[located(text).unwrap().start_index as int] == SLASH,
        forall|k: int| 0 <= k < located(text).unwrap().start_index ==> is_blank(#[trigger] text[k]),
        located(text).unwrap().end_index == text.len() || text[located(
            text,
        ).unwrap().end_index as int] == NEWLINE || text[located(text).unwrap().end_index - 1]
            == SLASH,
{
    lemma_after_blanks(text, 0);
    let start = after_blanks(text, 0);
    if line_marker_at(text, start) is Some {
        lemma_line_run(text, start);
    } else {
        lemma_block_close(text, start + 3);
    }
}

/// Computes [`after_blanks`].
fn skip_blanks(text: &[u8], from: usize) -> (r: usize)
    requires
        from <= text@.len(),
    ensures
        r == after_blanks(text@, from as int),
        from <= r <= text@.len(),
{
    let mut i = from;
    while i < text.len() && (text[i] == 0x20 || text[i] == 0x09 || text[i] == 0x0a || text[i]
        == 0x0d)
        invariant
            from <= i <= text@.len(),
            after_blanks(text@, from as int) == after_blanks(text@, i as int),
        decreases text@.len() - i,
    {
        i += 1;
    }
    i
}

/// Computes [`after_indent`].
fn skip_indent(text: &[u8], from: usize) -> (r: usize)
    requires
        from <= text@.len(),
    ensures
        r == after_indent(text@, from as int),
        from <= r <= text@.len(),
{
    let mut i = from;
    while i < text.len() && (text[i] == 0x20 || text[i] == 0x09)
        invariant
            from <= i <= text@.len(),
            after_indent(text@, from as int) == after_indent(text@, i as int),
        decreases text@.len() - i,
    {
        i += 1;
    }
    i
}

/// Computes [`line_end`].
pub fn find_line_end(text: &[u8], from: usize) -> (r: usize)
    requires
        from <= text@.len(),
    ensures
        r == line_end(text@, from as int),
        from <= r <= text@.len(),
{
    let mut i = from;
    while i < text.len() && text[i] != NEWLINE
        invariant
            from <= i <= text@.len(),
            line_end(text@, from as int) == line_end(text@, i as int),
        decreases text@.len() - i,
    {
        i += 1;
    }
    i
}

/// Computes [`line_marker_at`].
fn line_marker(text: &[u8], at: usize) -> (r: Option<DocCommentType>)
    requires
        at <= text@.len(),
    ensures
        r == line_marker_at(text@, at as int),
{
    if text.len() - at >= 3 && text[at] == SLASH && text[at + 1] == SLASH {
        if text[at + 2] == SLASH {
            Some(DocCommentType::OuterSingle)
        } else if text[at + 2] == BANG {
            Some(DocCommentType::InnerSingle)
        } else {
            None
        }
    } else {
        None
    }
}

/// Computes [`block_marker_at`].
fn block_marker(text: &[u8], at: usize) -> (r: Option<DocCommentType>)
    requires
        at <= text@.len(),
    ensures
        r == block_marker_at(text@, at as int),
{
    if text.len() - at >= 3 && text[at] == SLASH && text[at + 1] == STAR {
        if text[at + 2] == STAR {
            Some(DocCommentType::OuterMulti)
        } else if text[at + 2] == BANG {
            Some(DocCommentType::InnerMulti)
        } else {
            None
        }
    } else {
        None
    }
}

/// Computes [`block_close`].
fn find_block_close(text: &[u8], from: usize) -> (r: Option<usize>)
    requires
        from <= text@.len(),
    ensures
        r matches Some(end) ==> block_close(text@, from as int) == Some(end as int),
        r is None ==> block_close(text@, from as int) is None,
{
    let mut i = from;
    while text.len() - i >= 2
        invariant
            from <= i <= text@.len(),
            block_close(text@, from as int) == block_close(text@, i as int),
        decreases text@.len() - i,
    {
        if text[i] == STAR && text[i + 1] == SLASH {
            return Some(i + 2);
        }
        i += 1;
    }
    None
}

/// Finds the documentation comment at the head of a piece of source text
/// given as bytes.
pub fn locate(text: &[u8]) -> (r: Option<DocComment>)
    ensures
        r == located(text@),
        r matches Some(found) ==> found.start_index + 3 <= found.end_index <= text@.len(),
{
    let len = text.len();
    let start = skip_blanks(text, 0);
    match line_marker(text, start) {
        Some(first) => {
            let mut at = start;
            let mut style = first;
            let mut end = find_line_end(text, at + 3);
            loop
                invariant
                    len == text@.len(),
                    start <= at,
                    at + 3 <= end <= text@.len(),
                    line_marker_at(text@, at as int) == Some(style),
                    end == line_end(text@, at + 3),
                    line_run(text@, start as int) == line_run(text@, at as int),
                ensures
                    at + 3 <= end <= text@.len(),
                    line_run(text@, start as int) == (end as int, style),
                decreases text@.len() - at,
            {
                if end >= text.len() {
                    break ;
                }
                let next = skip_indent(text, end + 1);
                match line_marker(text, next) {
                    Some(again) => {
                        at = next;
                        style = again;
                        end = find_line_end(text, at + 3);
                    },
                    None => {
                        break ;
                    },
                }
            }
            Some(DocComment { comment_type: style, start_index: start, end_index: end })
        },
        None => match block_marker(text, start) {
            Some(style) => match find_block_close(text, start + 3) {
                Some(end) => {
                    proof {
                        lemma_block_close(text@, start + 3);
                    }
                    Some(DocComment { comment_type: style, start_index: start, end_index: end })
                },
                None => None,
            },
            None => None,
        },
    }
}

/// Finds the documentation comment at the head of a piece of source text.
///
/// `input` is the text of one declaration, from its first token to its
/// last. The positions in the result count the bytes of its UTF-8
/// encoding.
pub fn get_doc_comment(input: &String) -> (r: Option<DocComment>)
    ensures
        r == located(encode_utf8(input@)),
        r matches Some(found) ==> found.start_index + 3 <= found.end_index <= encode_utf8(
            input@,
        ).len(),
{
    locate(input.as_str().as_bytes())
}

impl core::str::FromStr for DocCommentType {
    type Err = InvalidDocCommentType;

    /// The style that the text `s` opens, if `s` is exactly one of the
    /// four opening markers; otherwise the text is handed back as the
    /// error.
    fn from_str(s: &str) -> (r: Result<Self, Self::Err>)
        ensures
            match r {
                Ok(style) => s@ == style.marker(),
                Err(e) => e.0@ == s@ && forall|style: DocCommentType| s@ != style.marker(),
            },
    {
        DocCommentType::from_marker(s)
    }
}

} // verus!
