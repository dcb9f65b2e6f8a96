//! What is written can be found again: a comment rendered from plain
//! lines is the comment that the locator finds, and its lines are the
//! plain lines again.

use crate::doc_comment_parser::{
    after_blanks, after_indent, block_close, block_closer, block_marker_at, is_blank, is_indent,
    lemma_after_indent, lemma_line_end, line_end, line_marker_at, line_run,
    located, DocComment, DocCommentType, BANG, NEWLINE, SLASH, STAR,
};
use crate::from_markdown::update_docs::update_docs_for_span::{
    comment_text, inserted_text, updated,
};
use crate::text::{joined, lemma_encode_concat, occurs_at, occurs_in};
use vstd::prelude::*;
use vstd::utf8::{encode_scalar, encode_utf8, has_width_1_encoding};

verus! {

/// Joining can be read from the front as well: the first part, the
/// separator, and the other parts joined.
pub proof fn lemma_joined_front<T>(parts: Seq<Seq<T>>, sep: Seq<T>)
    requires
        parts.len() >= 2,
    ensures
        joined(parts, sep) == parts[0] + sep + joined(parts.drop_first(), sep),
    decreases parts.len(),
{
    if parts.len() == 2 {
        assert(parts.drop_last() == seq![parts[0]]);
        assert(parts.drop_first() == seq![parts[1]]);
        assert(joined(parts.drop_last(), sep) == parts[0]);
        assert(joined(parts.drop_first(), sep) == parts[1]);
    } else {
        lemma_joined_front(parts.drop_last(), sep);
        assert(parts.drop_last().drop_first() == parts.drop_first().drop_last());
        assert(parts.drop_last()[0] == parts[0]);
        assert(parts.drop_first().last() == parts.last());
        assert(joined(parts.drop_first(), sep) == joined(parts.drop_first().drop_last(), sep)
            + sep + parts.last());
        assert(parts[0] + sep + joined(parts.drop_first().drop_last(), sep) + sep + parts.last()
            == parts[0] + sep + (joined(parts.drop_first().drop_last(), sep) + sep
            + parts.last()));
    }
}

/// Behind a prefix, the end of a line is found where it is found without
/// the prefix.
pub proof fn lemma_line_end_shift(prefix: Seq<u8>, text: Seq<u8>, from: int)
    requires
        0 <= from <= text.len(),
    ensures
        line_end(prefix + text, prefix.len() + from) == prefix.len() + line_end(text, from),
    decreases text.len() - from,
{
    let whole = prefix + text;
    if from < text.len() {
        assert(whole[prefix.len() + from] == text[from]);
        if text[from] != NEWLINE {
            lemma_line_end_shift(prefix, text, from + 1);
        }
    }
}

/// Behind a prefix, indentation ends where it ends without the prefix.
pub proof fn lemma_after_indent_shift(prefix: Seq<u8>, text: Seq<u8>, from: int)
    requires
        0 <= from <= text.len(),
    ensures
        after_indent(prefix + text, prefix.len() + from) == prefix.len() + after_indent(text, from),
    decreases text.len() - from,
{
    let whole = prefix + text;
    if from < text.len() {
        assert(whole[prefix.len() + from] == text[from]);
        if is_indent(text[from]) {
            lemma_after_indent_shift(prefix, text, from + 1);
        }
    }
}

/// Behind a prefix, a line marker stands where it stands without the
/// prefix.
pub proof fn lemma_line_marker_shift(prefix: Seq<u8>, text: Seq<u8>, at: int)
    requires
        0 <= at,
    ensures
        line_marker_at(prefix + text, prefix.len() + at) == line_marker_at(text, at),
{
    let whole = prefix + text;
    if at + 3 <= text.len() {
        assert(whole[prefix.len() + at] == text[at]);
        assert(whole[prefix.len() + at + 1] == text[at + 1]);
        assert(whole[prefix.len() + at + 2] == text[at + 2]);
    }
}

/// Behind a prefix, a run of marked lines ends where it ends without the
/// prefix.
pub proof fn lemma_line_run_shift(prefix: Seq<u8>, text: Seq<u8>, at: int)
    requires
        line_marker_at(text, at) is Some,
    ensures
        line_run(prefix + text, prefix.len() + at) == (
            prefix.len() + line_run(text, at).0,
            line_run(text, at).1,
        ),
    decreases text.len() - at,
{
    let whole = prefix + text;
    lemma_line_marker_shift(prefix, text, at);
    lemma_line_end(text, at + 3);
    lemma_line_end_shift(prefix, text, at + 3);
    let end = line_end(text, at + 3);
    if end < text.len() {
        lemma_after_indent(text, end + 1);
        lemma_after_indent_shift(prefix, text, end + 1);
        let next = after_indent(text, end + 1);
        lemma_line_marker_shift(prefix, text, next);
        if line_marker_at(text, next) is Some {
            lemma_line_run_shift(prefix, text, next);
        }
    } else {
        let next = after_indent(whole, prefix.len() + end + 1);
        assert(line_marker_at(whole, next) is None) by {
            lemma_after_indent(whole, prefix.len() + end + 1);
        }
    }
}

/// Behind a prefix, a block is closed where it is closed without the
/// prefix.
pub proof fn lemma_block_close_shift(prefix: Seq<u8>, text: Seq<u8>, from: int)
    requires
        0 <= from,
    ensures
        block_close(prefix + text, prefix.len() + from) == match block_close(text, from) {
            Some(end) => Some(prefix.len() + end),
            None => None,
        },
    decreases text.len() - from,
{
    let whole = prefix + text;
    if from + 2 <= text.len() {
        assert(whole[prefix.len() + from] == text[from]);
        assert(whole[prefix.len() + from + 1] == text[from + 1]);
        if !(text[from] == STAR && text[from + 1] == SLASH) {
            lemma_block_close_shift(prefix, text, from + 1);
        }
    }
}

/// A line ends at the first line feed, or at the end of the text.
pub proof fn lemma_line_end_is(text: Seq<u8>, from: int, end: int)
    requires
        0 <= from <= end <= text.len(),
        forall|k: int| from <= k < end ==> text[k] != NEWLINE,
        end < text.len() ==> text[end] == NEWLINE,
    ensures
        line_end(text, from) == end,
    decreases end - from,
{
    if from < end {
        lemma_line_end_is(text, from + 1, end);
    }
}

/// A block is closed by the first `*/`.
pub proof fn lemma_block_close_is(text: Seq<u8>, from: int, end: int)
    requires
        0 <= from <= end - 2,
        end <= text.len(),
        text[end - 2] == STAR,
        text[end - 1] == SLASH,
        forall|k: int| from <= k < end - 2 ==> !(#[trigger] text[k] == STAR && text[k + 1] == SLASH),
    ensures
        block_close(text, from) == Some(end),
    decreases end - from,
{
    if from < end - 2 {
        assert(!(text[from] == STAR && text[from + 1] == SLASH));
        lemma_block_close_is(text, from + 1, end);
    }
}

/// The bytes of the opening marker of a style.
pub open spec fn marker_bytes(style: DocCommentType) -> Seq<u8> {
    match style {
        DocCommentType::OuterSingle => seq![SLASH, SLASH, SLASH],
        DocCommentType::InnerSingle => seq![SLASH, SLASH, BANG],
        DocCommentType::OuterMulti => seq![SLASH, STAR, STAR],
        DocCommentType::InnerMulti => seq![SLASH, STAR, BANG],
    }
}

/// Whether no byte of `bytes` is a line feed.
pub open spec fn holds_no_newline(bytes: Seq<u8>) -> bool {
    forall|k: int| 0 <= k < bytes.len() ==> bytes[k] != NEWLINE
}

/// Whether `*/` stands nowhere in `bytes`.
pub open spec fn holds_no_closer(bytes: Seq<u8>) -> bool {
    forall|k: int| 0 <= k < bytes.len() - 1 ==> !(#[trigger] bytes[k] == STAR && bytes[k + 1] == SLASH)
}

/// Whether `bytes` ends with `*/` and holds it nowhere else.
pub open spec fn closes_at_end_only(bytes: Seq<u8>) -> bool {
    &&& bytes.len() >= 2
    &&& bytes[bytes.len() - 2] == STAR
    &&& bytes[bytes.len() - 1] == SLASH
    &&& forall|k: int|
        0 <= k < bytes.len() - 2 ==> !(#[trigger] bytes[k] == STAR && bytes[k + 1] == SLASH)
}

/// The markers, the space, the line feed and the closer are encoded byte
/// for byte.
pub proof fn lemma_fixed_encodings(style: DocCommentType)
    ensures
        encode_utf8(style.marker()) == marker_bytes(style),
        encode_utf8(seq![' ']) == seq![0x20u8],
        encode_utf8(seq!['\n']) == seq![NEWLINE],
        encode_utf8(block_closer()) == seq![STAR, SLASH],
{
    vstd::utf8::is_ascii_chars_encode_utf8(style.marker());
    vstd::utf8::is_ascii_chars_encode_utf8(seq![' ']);
    vstd::utf8::is_ascii_chars_encode_utf8(seq!['\n']);
    vstd::utf8::is_ascii_chars_encode_utf8(block_closer());
    assert(encode_utf8(style.marker()) =~= marker_bytes(style));
    assert(encode_utf8(seq![' ']) =~= seq![0x20u8]);
    assert(encode_utf8(seq!['\n']) =~= seq![NEWLINE]);
    assert(encode_utf8(block_closer()) =~= seq![STAR, SLASH]);
}

/// The bytes of one line rendered in a line style: the marker, a space,
/// the bytes of the line.
pub proof fn lemma_rendered_line_bytes(style: DocCommentType, line: Seq<char>)
    ensures
        encode_utf8(style.rendered_line(line)) == marker_bytes(style) + seq![0x20u8] + encode_utf8(
            line,
        ),
{
    lemma_fixed_encodings(style);
    lemma_encode_concat(style.marker(), seq![' ']);
    lemma_encode_concat(style.marker() + seq![' '], line);
}

/// What may follow a run of marked lines without becoming part of it:
/// nothing, or a line feed and then a line that opens with no line
/// marker.
pub open spec fn ends_the_run(tail: Seq<u8>) -> bool {
    tail.len() == 0 || (tail[0] == NEWLINE && line_marker_at(tail, after_indent(tail, 1)) is None)
}

/// Lines rendered in a line style are one run of marked lines, which
/// ends where the rendered text ends.
pub proof fn lemma_rendered_lines_run(style: DocCommentType, lines: Seq<Seq<char>>, tail: Seq<u8>)
    requires
        style.is_line_style(),
        lines.len() >= 1,
        forall|i: int| 0 <= i < lines.len() ==> holds_no_newline(encode_utf8(#[trigger] lines[i])),
        ends_the_run(tail),
    ensures
        encode_utf8(comment_text(style, lines)).len() >= 4,
        line_marker_at(encode_utf8(comment_text(style, lines)) + tail, 0) == Some(style),
        line_run(encode_utf8(comment_text(style, lines)) + tail, 0) == (
            encode_utf8(comment_text(style, lines)).len() as int,
            style,
        ),
    decreases lines.len(),
{
    let rendered = style.rendered(lines);
    let body = encode_utf8(comment_text(style, lines));
    let whole = body + tail;
    let first = encode_utf8(rendered[0]);
    lemma_rendered_line_bytes(style, lines[0]);
    let inner = encode_utf8(lines[0]);
    assert(holds_no_newline(inner));
    assert(first == marker_bytes(style) + seq![0x20u8] + inner);
    assert(first.len() == 4 + inner.len());
    assert forall|k: int| 3 <= k < first.len() implies first[k] != NEWLINE by {
        if k >= 4 {
            assert(first[k] == inner[k - 4]);
        }
    }
    if lines.len() == 1 {
        assert(body == first);
        assert(whole[0] == first[0] && whole[1] == first[1] && whole[2] == first[2]);
        assert forall|k: int| 3 <= k < first.len() implies whole[k] != NEWLINE by {
            assert(whole[k] == first[k]);
        }
        if tail.len() > 0 {
            assert(whole[first.len() as int] == tail[0]);
        }
        lemma_line_end_is(whole, 3, first.len() as int);
        if tail.len() > 0 {
            lemma_after_indent(tail, 1);
            lemma_after_indent_shift(first, tail, 1);
            lemma_line_marker_shift(first, tail, after_indent(tail, 1));
        }
    } else {
        let others = lines.drop_first();
        assert(rendered.drop_first() == style.rendered(others));
        lemma_joined_front(rendered, seq!['\n']);
        lemma_fixed_encodings(style);
        lemma_encode_concat(rendered[0], seq!['\n']);
        lemma_encode_concat(rendered[0] + seq!['\n'], comment_text(style, others));
        let body_rest = encode_utf8(comment_text(style, others));
        assert(body == first + seq![NEWLINE] + body_rest);
        assert forall|i: int| 0 <= i < others.len() implies holds_no_newline(
            encode_utf8(#[trigger] others[i]),
        ) by {
            assert(others[i] == lines[i + 1]);
        }
        lemma_rendered_lines_run(style, others, tail);
        let prefix = first + seq![NEWLINE];
        let rest = body_rest + tail;
        assert(whole == prefix + rest);
        assert(whole[0] == first[0] && whole[1] == first[1] && whole[2] == first[2]);
        assert forall|k: int| 3 <= k < first.len() implies whole[k] != NEWLINE by {
            assert(whole[k] == first[k]);
        }
        assert(whole[first.len() as int] == NEWLINE);
        lemma_line_end_is(whole, 3, first.len() as int);
        assert(rest[0] == SLASH);
        assert(after_indent(rest, 0) == 0);
        lemma_after_indent_shift(prefix, rest, 0);
        lemma_line_marker_shift(prefix, rest, 0);
        lemma_line_run_shift(prefix, rest, 0);
    }
}

/// Blank bytes end at the first byte that is not blank.
pub proof fn lemma_after_blanks_is(text: Seq<u8>, from: int, end: int)
    requires
        0 <= from <= end < text.len(),
        forall|k: int| from <= k < end ==> is_blank(#[trigger] text[k]),
        !is_blank(text[end]),
    ensures
        after_blanks(text, from) == end,
    decreases end - from,
{
    if from < end {
        assert(is_blank(text[from]));
        lemma_after_blanks_is(text, from + 1, end);
    }
}

/// The lines of a block comment, joined and closed, end with `*/` and
/// hold it nowhere else.
pub proof fn lemma_block_body(lines: Seq<Seq<char>>)
    requires
        forall|i: int| 0 <= i < lines.len() ==> holds_no_closer(encode_utf8(#[trigger] lines[i])),
    ensures
        closes_at_end_only(encode_utf8(joined(lines + seq![block_closer()], seq!['\n']))),
    decreases lines.len(),
{
    let parts = lines + seq![block_closer()];
    lemma_fixed_encodings(DocCommentType::OuterMulti);
    if lines.len() == 0 {
        assert(parts == seq![block_closer()]);
        assert(joined(parts, seq!['\n']) == block_closer());
    } else {
        let others = lines.drop_first();
        assert(parts.drop_first() == others + seq![block_closer()]);
        assert(parts[0] == lines[0]);
        lemma_joined_front(parts, seq!['\n']);
        let later = joined(others + seq![block_closer()], seq!['\n']);
        lemma_encode_concat(lines[0], seq!['\n']);
        lemma_encode_concat(lines[0] + seq!['\n'], later);
        assert forall|i: int| 0 <= i < others.len() implies holds_no_closer(
            encode_utf8(#[trigger] others[i]),
        ) by {
            assert(others[i] == lines[i + 1]);
        }
        lemma_block_body(others);
        let head = encode_utf8(lines[0]);
        let tail = encode_utf8(later);
        let whole = encode_utf8(joined(parts, seq!['\n']));
        assert(holds_no_closer(head));
        assert(whole == head + seq![NEWLINE] + tail);
        assert forall|k: int| 0 <= k < whole.len() - 2 implies !(#[trigger] whole[k] == STAR
            && whole[k + 1] == SLASH) by {
            if k + 1 < head.len() {
                assert(whole[k] == head[k] && whole[k + 1] == head[k + 1]);
                assert(!(head[k] == STAR && head[k + 1] == SLASH));
            } else if k + 1 == head.len() {
                assert(whole[k + 1] == NEWLINE);
            } else if k == head.len() {
                assert(whole[k] == NEWLINE);
            } else {
                let j = k - head.len() - 1;
                assert(whole[k] == tail[j] && whole[k + 1] == tail[j + 1]);
                assert(!(tail[j] == STAR && tail[j + 1] == SLASH));
            }
        }
        assert(whole[whole.len() - 2] == tail[tail.len() - 2]);
        assert(whole[whole.len() - 1] == tail[tail.len() - 1]);
    }
}

/// The bytes of a comment.
pub open spec fn comment_bytes(style: DocCommentType, lines: Seq<Seq<char>>) -> Seq<u8> {
    encode_utf8(comment_text(style, lines))
}

/// Whether plain lines can be written in a style and read back: they
/// must hold nothing that ends the comment early. A line of a line style
/// must hold no line feed, and there must be at least one line. A line of
/// a block style must not hold `*/`.
pub open spec fn can_be_rendered(style: DocCommentType, lines: Seq<Seq<char>>) -> bool {
    if style.is_line_style() {
        lines.len() >= 1 && forall|i: int|
            0 <= i < lines.len() ==> holds_no_newline(encode_utf8(#[trigger] lines[i]))
    } else {
        forall|i: int| 0 <= i < lines.len() ==> holds_no_closer(encode_utf8(#[trigger] lines[i]))
    }
}

/// A comment written from plain lines is found as it was written: the
/// locator finds, at the head of the text, a comment of the same style
/// that covers exactly the bytes written, whatever follows them, as long
/// as what follows a line comment does not go on with a marked line.
pub proof fn lemma_rendered_comment_is_located(
    style: DocCommentType,
    lines: Seq<Seq<char>>,
    tail: Seq<u8>,
)
    requires
        can_be_rendered(style, lines),
        style.is_line_style() ==> ends_the_run(tail),
    ensures
        located(comment_bytes(style, lines) + tail) == Some(
            DocComment {
                comment_type: style,
                start_index: 0,
                end_index: comment_bytes(style, lines).len() as usize,
            },
        ),
{
    let body = comment_bytes(style, lines);
    let whole = body + tail;
    if style.is_line_style() {
        lemma_rendered_lines_run(style, lines, tail);
        assert(whole[0] == SLASH);
        assert(after_blanks(whole, 0) == 0);
    } else {
        let rendered = style.rendered(lines);
        assert(rendered == seq![style.marker()] + lines + seq![block_closer()]);
        assert(rendered[0] == style.marker());
        assert(rendered.drop_first() == lines + seq![block_closer()]);
        lemma_joined_front(rendered, seq!['\n']);
        lemma_fixed_encodings(style);
        let later = joined(lines + seq![block_closer()], seq!['\n']);
        lemma_encode_concat(style.marker(), seq!['\n']);
        lemma_encode_concat(style.marker() + seq!['\n'], later);
        lemma_block_body(lines);
        let inner = encode_utf8(later);
        assert(body == marker_bytes(style) + seq![NEWLINE] + inner);
        assert(whole[0] == SLASH && whole[1] == STAR);
        assert(whole[2] == marker_bytes(style)[2]);
        assert(whole[3] == NEWLINE);
        assert(after_blanks(whole, 0) == 0);
        assert(line_marker_at(whole, 0) is None);
        assert(block_marker_at(whole, 0) == Some(style));
        let end = body.len() as int;
        assert(whole[end - 2] == inner[inner.len() - 2]);
        assert(whole[end - 1] == inner[inner.len() - 1]);
        assert forall|k: int| 3 <= k < end - 2 implies !(#[trigger] whole[k] == STAR && whole[k
            + 1] == SLASH) by {
            if k >= 4 {
                assert(whole[k] == inner[k - 4] && whole[k + 1] == inner[k - 3]);
                assert(!(inner[k - 4] == STAR && inner[k - 4 + 1] == SLASH));
            }
        }
        lemma_block_close_is(whole, 3, end);
    }
}

/// Where no comment is found at the head of a text, the text does not
/// open with a line marker behind its indentation.
pub proof fn lemma_no_comment_no_marker(text: Seq<u8>)
    requires
        located(text) is None,
    ensures
        line_marker_at(text, after_indent(text, 0)) is None,
{
    lemma_after_indent(text, 0);
    let at = after_indent(text, 0);
    if line_marker_at(text, at) is Some {
        assert forall|k: int| 0 <= k < at implies is_blank(#[trigger] text[k]) by {
            assert(is_indent(text[k]));
        }
        lemma_after_blanks_is(text, 0, at);
    }
}

/// A comment that has just been inserted is found again.
///
/// `text` is a file and the bytes from `start` to `end` a declaration
/// that has no documentation comment. After the new comment has been
/// inserted, the declaration covers the bytes from `start` to `end` and
/// as many more as were inserted; the locator finds the comment at their
/// head, in the style it was written in, and covering exactly the bytes
/// of the comment, without the line feeds that were inserted behind it.
pub proof fn lemma_inserted_comment_is_located(
    text: Seq<u8>,
    start: int,
    end: int,
    lines: Seq<Seq<char>>,
    style: DocCommentType,
    extra_newline: bool,
)
    requires
        0 <= start <= end <= text.len(),
        located(text.subrange(start, end)) is None,
        can_be_rendered(style, lines),
    ensures
        located(
            updated(text, start, end, lines, style, extra_newline).subrange(
                start,
                end + encode_utf8(inserted_text(style, lines, extra_newline)).len(),
            ),
        ) == Some(
            DocComment {
                comment_type: style,
                start_index: 0,
                end_index: comment_bytes(style, lines).len() as usize,
            },
        ),
{
    let before = text.subrange(start, end);
    let body = comment_bytes(style, lines);
    let inserted = encode_utf8(inserted_text(style, lines, extra_newline));
    lemma_fixed_encodings(style);
    lemma_encode_concat(comment_text(style, lines), seq!['\n']);
    if extra_newline {
        lemma_encode_concat(comment_text(style, lines) + seq!['\n'], seq!['\n']);
    } else {
        assert(comment_text(style, lines) + seq!['\n'] + Seq::<char>::empty() == comment_text(
            style,
            lines,
        ) + seq!['\n']);
    }
    let feeds = if extra_newline {
        seq![NEWLINE, NEWLINE]
    } else {
        seq![NEWLINE]
    };
    assert(inserted == body + feeds);
    let tail = feeds + before;
    let after = updated(text, start, end, lines, style, extra_newline);
    assert(after.subrange(start, end + inserted.len()) == body + tail);
    if style.is_line_style() {
        assert(tail[0] == NEWLINE);
        if extra_newline {
            assert(tail[1] == NEWLINE);
            assert(after_indent(tail, 1) == 1);
        } else {
            lemma_no_comment_no_marker(before);
            lemma_after_indent(before, 0);
            lemma_after_indent_shift(feeds, before, 0);
            lemma_line_marker_shift(feeds, before, after_indent(before, 0));
        }
    }
    lemma_rendered_comment_is_located(style, lines, tail);
}

/// The encoding of one character: a character below 128 is one byte of
/// its own value; every byte of any other character is 128 or more.
pub proof fn lemma_scalar_bytes(c: char)
    ensures
        encode_scalar(c as u32).len() >= 1,
        has_width_1_encoding(c as u32) ==> encode_scalar(c as u32) == seq![(c as u32) as u8] && (
        c as u32) < 0x80 && ((c as u32) as u8) as u32 == c as u32,
        !has_width_1_encoding(c as u32) ==> forall|j: int|
            0 <= j < encode_scalar(c as u32).len() ==> #[trigger] encode_scalar(c as u32)[j]
                >= 0x80,
{
    let v = c as u32;
    vstd::utf8::char_is_scalar(c);
    if has_width_1_encoding(v) {
        assert(v as u8 == vstd::utf8::leading_byte_width_1(v)) by (bit_vector)
            requires
                has_width_1_encoding(v),
        ;
        assert((v as u8) as u32 == v) by (bit_vector)
            requires
                v <= 0x7f,
        ;
    } else {
        assert(vstd::utf8::leading_byte_width_2(v) >= 0x80) by (bit_vector);
        assert(vstd::utf8::leading_byte_width_3(v) >= 0x80) by (bit_vector);
        assert(vstd::utf8::leading_byte_width_4(v) >= 0x80) by (bit_vector);
        assert(vstd::utf8::last_continuation_byte(v) >= 0x80) by (bit_vector);
        assert(vstd::utf8::second_last_continuation_byte(v) >= 0x80) by (bit_vector);
        assert(vstd::utf8::third_last_continuation_byte(v) >= 0x80) by (bit_vector);
    }
}

/// Two characters of the same value are the same character.
pub proof fn lemma_same_value_same_char(c: char, d: char)
    ensures
        c as u32 == d as u32 ==> c == d,
{
    vstd::utf8::char_u32_cast(c, c as u32);
    vstd::utf8::char_u32_cast(d, d as u32);
}

/// The encoding of a text that holds no line feed holds no line feed
/// byte.
pub proof fn lemma_no_newline_bytes(text: Seq<char>)
    requires
        !text.contains('\n'),
    ensures
        holds_no_newline(encode_utf8(text)),
    decreases text.len(),
{
    if text.len() > 0 {
        let first = encode_scalar(text[0] as u32);
        let rest = text.drop_first();
        lemma_scalar_bytes(text[0]);
        assert(text[0] != '\n');
        lemma_same_value_same_char(text[0], '\n');
        assert('\n' as u32 == 0x0a);
        assert forall|k: int| 0 <= k < rest.len() implies rest[k] != '\n' by {
            assert(rest[k] == text[k + 1]);
        }
        lemma_no_newline_bytes(rest);
        let later = encode_utf8(rest);
        assert(encode_utf8(text) == first + later);
        assert forall|k: int| 0 <= k < encode_utf8(text).len() implies encode_utf8(text)[k]
            != NEWLINE by {
            if k < first.len() {
                assert(encode_utf8(text)[k] == first[k]);
            } else {
                assert(encode_utf8(text)[k] == later[k - first.len()]);
            }
        }
    }
}

/// The encoding of a text that does not hold `*/` does not hold the two
/// bytes of it.
pub proof fn lemma_no_closer_bytes(text: Seq<char>)
    requires
        !occurs_in(text, block_closer()),
    ensures
        holds_no_closer(encode_utf8(text)),
    decreases text.len(),
{
    if text.len() > 0 {
        let first = encode_scalar(text[0] as u32);
        let rest = text.drop_first();
        lemma_scalar_bytes(text[0]);
        assert forall|k: int| !occurs_at(rest, k, block_closer()) by {
            if occurs_at(rest, k, block_closer()) {
                assert(rest.subrange(k, k + 2) == text.subrange(k + 1, k + 3));
                assert(occurs_at(text, k + 1, block_closer()));
            }
        }
        lemma_no_closer_bytes(rest);
        let later = encode_utf8(rest);
        let whole = encode_utf8(text);
        assert(whole == first + later);
        assert forall|k: int| 0 <= k < whole.len() - 1 implies !(#[trigger] whole[k] == STAR
            && whole[k + 1] == SLASH) by {
            if k + 1 < first.len() {
                assert(whole[k] == first[k]);
            } else if k + 1 == first.len() {
                assert(whole[k] == first[k]);
                assert(whole[k + 1] == later[0]);
                if whole[k] == STAR && whole[k + 1] == SLASH {
                    assert(has_width_1_encoding(text[0] as u32));
                    lemma_same_value_same_char(text[0], '*');
                    assert('*' as u32 == 0x2a);
                    assert(text[0] == '*');
                    lemma_scalar_bytes(rest[0]);
                    let second = encode_scalar(rest[0] as u32);
                    assert(later == second + encode_utf8(rest.drop_first()));
                    assert(later[0] == second[0]);
                    assert(has_width_1_encoding(rest[0] as u32));
                    lemma_same_value_same_char(rest[0], '/');
                    assert('/' as u32 == 0x2f);
                    assert(rest[0] == '/');
                    assert(text.subrange(0, 2) == block_closer());
                    assert(occurs_at(text, 0, block_closer()));
                }
            } else {
                let j = k - first.len();
                assert(whole[k] == later[j] && whole[k + 1] == later[j + 1]);
                assert(!(later[j] == STAR && later[j + 1] == SLASH));
            }
        }
    }
}

/// Whether plain lines hold nothing that would end a comment of the
/// style early: no line feed in a line of a line style, of which there
/// must be one at least; no `*/` in a line of a block style.
pub open spec fn are_plain_for(style: DocCommentType, lines: Seq<Seq<char>>) -> bool {
    if style.is_line_style() {
        lines.len() >= 1 && forall|i: int| 0 <= i < lines.len() ==> !(#[trigger] lines[i]).contains('\n')
    } else {
        forall|i: int| 0 <= i < lines.len() ==> !occurs_in(#[trigger] lines[i], block_closer())
    }
}

/// Lines that hold nothing that would end a comment early can be
/// rendered and read back.
pub proof fn lemma_plain_lines_can_be_rendered(style: DocCommentType, lines: Seq<Seq<char>>)
    requires
        are_plain_for(style, lines),
    ensures
        can_be_rendered(style, lines),
{
    if style.is_line_style() {
        assert forall|i: int| 0 <= i < lines.len() implies holds_no_newline(
            encode_utf8(#[trigger] lines[i]),
        ) by {
            lemma_no_newline_bytes(lines[i]);
        }
    } else {
        assert forall|i: int| 0 <= i < lines.len() implies holds_no_closer(
            encode_utf8(#[trigger] lines[i]),
        ) by {
            lemma_no_closer_bytes(lines[i]);
        }
    }
}

} // verus!
