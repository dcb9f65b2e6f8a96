//! Text as sequences of characters and of bytes.
//!
//! Contents are described over characters, positions over bytes. The two
//! meet in the UTF-8 encoding, and the lemmas at the end of this file are
//! what carries a statement from one side to the other.

use vstd::prelude::*;
use vstd::string::StrSliceExecFns;
use vstd::string::StringExecFns;
use vstd::string::StringSliceAdditionalSpecFns;
use vstd::utf8::{
    encode_utf8, is_char_boundary, is_char_boundary_iff_not_is_continuation_byte,
    is_char_boundary_start_end_of_seq, is_continuation_byte, valid_utf8, valid_utf8_split,
};

verus! {

/// The parts joined into one text, with `sep` between each two
/// neighbours. No part gives the empty text.
pub open spec fn joined<T>(parts: Seq<Seq<T>>, sep: Seq<T>) -> Seq<T>
    decreases parts.len(),
{
    if parts.len() == 0 {
        Seq::empty()
    } else if parts.len() == 1 {
        parts[0]
    } else {
        joined(parts.drop_last(), sep) + sep + parts.last()
    }
}

/// Whether `pattern` stands in `text` at position `at`.
pub open spec fn occurs_at<T>(text: Seq<T>, at: int, pattern: Seq<T>) -> bool {
    0 <= at && at + pattern.len() <= text.len() && text.subrange(at, at + pattern.len())
        == pattern
}

/// Whether `pattern` stands somewhere in `text`.
pub open spec fn occurs_in<T>(text: Seq<T>, pattern: Seq<T>) -> bool {
    exists|at: int| occurs_at(text, at, pattern)
}

/// The characters of a string.
pub fn chars_of(s: &str) -> (r: Vec<char>)
    ensures
        r@ == s@,
{
    let mut out: Vec<char> = Vec::new();
    for c in it: s.chars()
        invariant
            it.seq() == s@,
            out@ == s@.take(it.index()),
    {
        out.push(c);
        assert(s@.take(it.index() + 1) == s@.take(it.index()).push(c));
    }
    assert(s@.take(s@.len() as int) == s@);
    out
}

/// The characters of `s` from position `from` up to, not including,
/// position `to`, as a string of their own.
pub fn substring(s: &str, from: usize, to: usize) -> (r: String)
    requires
        from <= to <= s@.len(),
    ensures
        r@ == s@.subrange(from as int, to as int),
{
    s.substring_char(from, to).to_owned()
}

/// Tells whether two strings hold the same text.
pub fn same_text(a: &str, b: &str) -> (r: bool)
    ensures
        r == (a@ == b@),
{
    let x = a.to_owned();
    let y = b.to_owned();
    x == y
}

/// Tells whether `pattern` stands in `text` at position `at`.
pub fn matches_at(text: &Vec<char>, at: usize, pattern: &Vec<char>) -> (r: bool)
    ensures
        r == occurs_at(text@, at as int, pattern@),
{
    if pattern.len() > text.len() || at > text.len() - pattern.len() {
        return false;
    }
    let mut k: usize = 0;
    let n = text.len();
    while k < pattern.len()
        invariant
            k <= pattern@.len(),
            n == text@.len(),
            at + pattern@.len() <= text@.len(),
            forall|j: int| 0 <= j < k ==> text@[at + j] == pattern@[j],
        decreases pattern@.len() - k,
    {
        if text[at + k] != pattern[k] {
            assert(text@.subrange(at as int, at + pattern@.len())[k as int] != pattern@[k as int]);
            return false;
        }
        k += 1;
    }
    assert(text@.subrange(at as int, at + pattern@.len()) =~= pattern@);
    true
}

/// Joins `parts` into one string, with `sep` between each two neighbours.
pub fn join(parts: &Vec<String>, sep: &str) -> (r: String)
    ensures
        r@ == joined(parts.deep_view(), sep@),
{
    let mut out = String::new();
    let mut i: usize = 0;
    let ghost all = parts.deep_view();
    while i < parts.len()
        invariant
            i <= parts@.len(),
            all == parts.deep_view(),
            all.len() == parts@.len(),
            out@ == joined(all.take(i as int), sep@),
        decreases parts@.len() - i,
    {
        if i > 0 {
            out.append(sep);
        }
        out.append(parts[i].as_str());
        proof {
            let next = all.take(i + 1);
            assert(next.drop_last() == all.take(i as int));
            assert(next.last() == parts@[i as int]@);
            if i == 0 {
                assert(out@ == Seq::<char>::empty() + parts@[i as int]@);
                assert(out@ == next[0]);
            }
        }
        i += 1;
    }
    assert(all.take(all.len() as int) == all);
    out
}

/// `text` with every occurrence of `pattern` replaced by `with`.
/// Occurrences are taken from left to right and do not overlap.
pub open spec fn replaced(text: Seq<char>, pattern: Seq<char>, with: Seq<char>) -> Seq<char>
    decreases text.len(),
{
    if pattern.len() == 0 || text.len() < pattern.len() {
        text
    } else if text.subrange(0, pattern.len() as int) == pattern {
        with + replaced(text.subrange(pattern.len() as int, text.len() as int), pattern, with)
    } else {
        seq![text[0]] + replaced(text.drop_first(), pattern, with)
    }
}

/// Whether a character is white space: one of the characters that
/// Unicode gives the property `White_Space`.
pub open spec fn is_white_space(c: char) -> bool {
    let u = c as u32;
    (0x09 <= u <= 0x0d) || u == 0x20 || u == 0x85 || u == 0xa0 || u == 0x1680 || (0x2000 <= u
        <= 0x200a) || u == 0x2028 || u == 0x2029 || u == 0x202f || u == 0x205f || u == 0x3000
}

/// The first position at or behind `from` that holds no white space; the
/// length of the text if there is none.
pub open spec fn after_white_space(text: Seq<char>, from: int) -> int
    decreases text.len() - from,
{
    if 0 <= from < text.len() && is_white_space(text[from]) {
        after_white_space(text, from + 1)
    } else {
        from
    }
}

/// The position behind the last character before `to` that is no white
/// space; 0 if there is none.
pub open spec fn before_white_space(text: Seq<char>, to: int) -> int
    decreases to,
{
    if 0 < to <= text.len() && is_white_space(text[to - 1]) {
        before_white_space(text, to - 1)
    } else {
        to
    }
}

/// `text` without the white space at its start and at its end.
pub open spec fn trimmed(text: Seq<char>) -> Seq<char> {
    let from = after_white_space(text, 0);
    let to = before_white_space(text, text.len() as int);
    if from < to {
        text.subrange(from, to)
    } else {
        Seq::empty()
    }
}

/// Computes [`is_white_space`].
pub fn is_white_space_char(c: char) -> (r: bool)
    ensures
        r == is_white_space(c),
{
    let u = c as u32;
    (0x09 <= u && u <= 0x0d) || u == 0x20 || u == 0x85 || u == 0xa0 || u == 0x1680 || (0x2000 <= u
        && u <= 0x200a) || u == 0x2028 || u == 0x2029 || u == 0x202f || u == 0x205f || u == 0x3000
}

/// Where the text left by trimming begins and ends.
pub fn trim_bounds(text: &Vec<char>) -> (r: (usize, usize))
    ensures
        r.0 <= r.1 <= text@.len(),
        trimmed(text@) == text@.subrange(r.0 as int, r.1 as int),
{
    let len = text.len();
    let mut from: usize = 0;
    while from < len && is_white_space_char(text[from])
        invariant
            len == text@.len(),
            from <= len,
            after_white_space(text@, 0) == after_white_space(text@, from as int),
        decreases len - from,
    {
        from += 1;
    }
    let mut to: usize = len;
    while to > 0 && is_white_space_char(text[to - 1])
        invariant
            len == text@.len(),
            to <= len,
            before_white_space(text@, len as int) == before_white_space(text@, to as int),
        decreases to,
    {
        to -= 1;
    }
    if from < to {
        (from, to)
    } else {
        assert(text@.subrange(from as int, from as int) == Seq::<char>::empty());
        (from, from)
    }
}

/// Where no occurrence of the pattern begins at the head of a text, the
/// first character stays and replacing goes on behind it.
pub proof fn lemma_replaced_step(text: Seq<char>, pattern: Seq<char>, with: Seq<char>)
    requires
        pattern.len() > 0,
        text.len() > 0,
        !occurs_at(text, 0, pattern),
    ensures
        replaced(text, pattern, with) == seq![text[0]] + replaced(
            text.drop_first(),
            pattern,
            with,
        ),
{
    if text.len() < pattern.len() {
        assert(replaced(text.drop_first(), pattern, with) == text.drop_first());
        assert(text == seq![text[0]] + text.drop_first());
    }
}

/// In a text that does not hold the pattern, nothing is replaced.
pub proof fn lemma_replaced_absent(text: Seq<char>, pattern: Seq<char>, with: Seq<char>)
    requires
        pattern.len() > 0,
        !occurs_in(text, pattern),
    ensures
        replaced(text, pattern, with) == text,
    decreases text.len(),
{
    if text.len() >= pattern.len() {
        assert(!occurs_at(text, 0, pattern));
        lemma_replaced_step(text, pattern, with);
        let rest = text.drop_first();
        assert forall|k: int| !occurs_at(rest, k, pattern) by {
            if occurs_at(rest, k, pattern) {
                assert(rest.subrange(k, k + pattern.len()) == text.subrange(
                    k + 1,
                    k + 1 + pattern.len(),
                ));
                assert(occurs_at(text, k + 1, pattern));
            }
        }
        lemma_replaced_absent(rest, pattern, with);
        assert(seq![text[0]] + rest == text);
    }
}

/// A stretch at the head of a text in which no occurrence of the pattern
/// begins stays as it is, and replacing goes on behind it.
pub proof fn lemma_replaced_behind(
    head: Seq<char>,
    rest: Seq<char>,
    pattern: Seq<char>,
    with: Seq<char>,
)
    requires
        pattern.len() > 0,
        forall|k: int| 0 <= k < head.len() ==> !occurs_at(head + rest, k, pattern),
    ensures
        replaced(head + rest, pattern, with) == head + replaced(rest, pattern, with),
    decreases head.len(),
{
    let text = head + rest;
    if head.len() == 0 {
        assert(text == rest);
        assert(head + replaced(rest, pattern, with) == replaced(rest, pattern, with));
    } else {
        assert(!occurs_at(text, 0, pattern));
        lemma_replaced_step(text, pattern, with);
        let shorter = head.drop_first();
        assert(text.drop_first() == shorter + rest);
        assert forall|k: int| 0 <= k < shorter.len() implies !occurs_at(
            shorter + rest,
            k,
            pattern,
        ) by {
            if occurs_at(shorter + rest, k, pattern) {
                assert((shorter + rest).subrange(k, k + pattern.len()) == text.subrange(
                    k + 1,
                    k + 1 + pattern.len(),
                ));
                assert(occurs_at(text, k + 1, pattern));
            }
        }
        lemma_replaced_behind(shorter, rest, pattern, with);
        assert(text[0] == head[0]);
        assert(seq![head[0]] + (shorter + replaced(rest, pattern, with)) == head + replaced(
            rest,
            pattern,
            with,
        ));
    }
}

/// An occurrence of the pattern at the head of a text is replaced, and
/// replacing goes on behind it.
pub proof fn lemma_replaced_at_head(pattern: Seq<char>, rest: Seq<char>, with: Seq<char>)
    requires
        pattern.len() > 0,
    ensures
        replaced(pattern + rest, pattern, with) == with + replaced(rest, pattern, with),
{
    let text = pattern + rest;
    assert(text.subrange(0, pattern.len() as int) == pattern);
    assert(text.subrange(pattern.len() as int, text.len() as int) == rest);
}

/// [`after_white_space`] stops at the first character that is no white
/// space.
pub proof fn lemma_after_white_space(text: Seq<char>, from: int)
    requires
        0 <= from <= text.len(),
    ensures
        from <= after_white_space(text, from) <= text.len(),
        forall|k: int|
            from <= k < after_white_space(text, from) ==> is_white_space(#[trigger] text[k]),
        after_white_space(text, from) < text.len() ==> !is_white_space(
            text[after_white_space(text, from)],
        ),
    decreases text.len() - from,
{
    if from < text.len() && is_white_space(text[from]) {
        lemma_after_white_space(text, from + 1);
    }
}

/// [`before_white_space`] stops behind the last character that is no
/// white space.
pub proof fn lemma_before_white_space(text: Seq<char>, to: int)
    requires
        0 <= to <= text.len(),
    ensures
        0 <= before_white_space(text, to) <= to,
        forall|k: int|
            before_white_space(text, to) <= k < to ==> is_white_space(#[trigger] text[k]),
        before_white_space(text, to) > 0 ==> !is_white_space(
            text[before_white_space(text, to) - 1],
        ),
    decreases to,
{
    if to > 0 && is_white_space(text[to - 1]) {
        lemma_before_white_space(text, to - 1);
    }
}

/// White space at the head of a text ends at the first character that is
/// no white space.
pub proof fn lemma_after_white_space_is(text: Seq<char>, from: int, end: int)
    requires
        0 <= from <= end < text.len(),
        forall|k: int| from <= k < end ==> is_white_space(#[trigger] text[k]),
        !is_white_space(text[end]),
    ensures
        after_white_space(text, from) == end,
    decreases end - from,
{
    if from < end {
        assert(is_white_space(text[from]));
        lemma_after_white_space_is(text, from + 1, end);
    }
}

/// White space at the end of a text begins behind the last character
/// that is no white space.
pub proof fn lemma_before_white_space_is(text: Seq<char>, to: int, begin: int)
    requires
        0 < begin <= to <= text.len(),
        forall|k: int| begin <= k < to ==> is_white_space(#[trigger] text[k]),
        !is_white_space(text[begin - 1]),
    ensures
        before_white_space(text, to) == begin,
    decreases to - begin,
{
    if begin < to {
        assert(is_white_space(text[to - 1]));
        lemma_before_white_space_is(text, to - 1, begin);
    }
}

/// Replaces every occurrence of `pattern` in `text` by `with`.
pub fn replace_all(text: &str, pattern: &str, with: &str) -> (r: String)
    requires
        pattern@.len() > 0,
    ensures
        r@ == replaced(text@, pattern@, with@),
{
    let chars = chars_of(text);
    let pat = chars_of(pattern);
    let len = chars.len();
    let mut out = String::new();
    let mut copied: usize = 0;
    let mut i: usize = 0;
    assert(text@.subrange(0, len as int) == text@);
    while i < len
        invariant
            len == text@.len(),
            chars@ == text@,
            pat@ == pattern@,
            pat@.len() > 0,
            copied <= i <= len,
            replaced(text@, pattern@, with@) == out@ + text@.subrange(copied as int, i as int)
                + replaced(text@.subrange(i as int, len as int), pattern@, with@),
        decreases len - i,
    {
        let ghost rest = text@.subrange(i as int, len as int);
        if matches_at(&chars, i, &pat) {
            let piece = substring(text, copied, i);
            let ghost before = out@;
            out.append(piece.as_str());
            out.append(with);
            proof {
                assert(rest.subrange(0, pat@.len() as int) == text@.subrange(
                    i as int,
                    i + pat@.len(),
                ));
                assert(rest.subrange(pat@.len() as int, rest.len() as int) == text@.subrange(
                    i + pat@.len(),
                    len as int,
                ));
                assert(text@.subrange(i + pat@.len(), i + pat@.len()) == Seq::<char>::empty());
                assert(out@ + Seq::<char>::empty() == out@);
                assert(out@ == before + text@.subrange(copied as int, i as int) + with@);
                assert(before + text@.subrange(copied as int, i as int) + (with@ + replaced(
                    text@.subrange(i + pat@.len(), len as int),
                    pattern@,
                    with@,
                )) == out@ + replaced(
                    text@.subrange(i + pat@.len(), len as int),
                    pattern@,
                    with@,
                ));
            }
            i += pat.len();
            copied = i;
        } else {
            proof {
                assert(!occurs_at(rest, 0, pattern@)) by {
                    if occurs_at(rest, 0, pattern@) {
                        assert(rest.subrange(0, pat@.len() as int) == text@.subrange(
                            i as int,
                            i + pat@.len(),
                        ));
                        assert(occurs_at(text@, i as int, pattern@));
                    }
                }
                lemma_replaced_step(rest, pattern@, with@);
                assert(rest.drop_first() == text@.subrange(i + 1, len as int));
                assert(text@.subrange(copied as int, i as int) + seq![rest[0]] == text@.subrange(
                    copied as int,
                    i + 1,
                ));
                assert(out@ + text@.subrange(copied as int, i as int) + (seq![rest[0]] + replaced(
                    text@.subrange(i + 1, len as int),
                    pattern@,
                    with@,
                )) == out@ + (text@.subrange(copied as int, i as int) + seq![rest[0]]) + replaced(
                    text@.subrange(i + 1, len as int),
                    pattern@,
                    with@,
                ));
            }
            i += 1;
        }
    }
    let piece = substring(text, copied, len);
    let ghost before = out@;
    out.append(piece.as_str());
    proof {
        assert(text@.subrange(len as int, len as int) == Seq::<char>::empty());
        assert(replaced(Seq::<char>::empty(), pattern@, with@) == Seq::<char>::empty());
        assert(before + text@.subrange(copied as int, len as int) + Seq::<char>::empty() == out@);
    }
    out
}

/// The first position at or behind `from` that holds one of the two
/// separators `a` and `b`; the length of the text if there is none.
pub open spec fn separator_at<T>(text: Seq<T>, from: int, a: T, b: T) -> int
    decreases text.len() - from,
{
    if 0 <= from < text.len() && text[from] != a && text[from] != b {
        separator_at(text, from + 1, a, b)
    } else {
        from
    }
}

/// The pieces of `text` behind position `from` that the separators `a`
/// and `b` part from each other. A separator at the very end leaves an
/// empty piece behind it.
pub open spec fn split_from<T>(text: Seq<T>, from: int, a: T, b: T) -> Seq<Seq<T>>
    decreases text.len() - from,
{
    let end = separator_at(text, from, a, b);
    if 0 <= from && end < text.len() {
        proof {
            lemma_separator_at(text, from, a, b);
        }
        seq![text.subrange(from, end)] + split_from(text, end + 1, a, b)
    } else {
        seq![text.subrange(from, text.len() as int)]
    }
}

/// The pieces of `text` that the separators `a` and `b` part from each
/// other. To split at one separator only, give it twice.
pub open spec fn split<T>(text: Seq<T>, a: T, b: T) -> Seq<Seq<T>> {
    split_from(text, 0, a, b)
}

/// [`separator_at`] stops at the first separator.
pub proof fn lemma_separator_at<T>(text: Seq<T>, from: int, a: T, b: T)
    requires
        0 <= from,
    ensures
        from <= separator_at(text, from, a, b),
        from <= text.len() ==> separator_at(text, from, a, b) <= text.len(),
        forall|k: int|
            from <= k < separator_at(text, from, a, b) ==> #[trigger] text[k] != a && text[k] != b,
        separator_at(text, from, a, b) < text.len() ==> text[separator_at(text, from, a, b)] == a
            || text[separator_at(text, from, a, b)] == b,
    decreases text.len() - from,
{
    if from < text.len() && text[from] != a && text[from] != b {
        lemma_separator_at(text, from + 1, a, b);
    }
}

/// Parts `text` at every occurrence of the separators `a` and `b`.
pub fn split_text(text: &str, a: char, b: char) -> (r: Vec<String>)
    ensures
        r.deep_view() == split(text@, a, b),
        r@.len() >= 1,
{
    let chars = chars_of(text);
    let len = chars.len();
    let mut out: Vec<String> = Vec::new();
    let mut start: usize = 0;
    let mut i: usize = 0;
    while i < len
        invariant
            len == text@.len(),
            chars@ == text@,
            start <= i <= len,
            separator_at(text@, start as int, a, b) == separator_at(text@, i as int, a, b),
            split(text@, a, b) == out.deep_view() + split_from(text@, start as int, a, b),
        decreases len - i,
    {
        if chars[i] == a || chars[i] == b {
            let ghost done = out.deep_view();
            let piece = substring(text, start, i);
            out.push(piece);
            proof {
                assert(out.deep_view() == done.push(piece@));
                assert(done + (seq![piece@] + split_from(text@, i + 1, a, b)) == done.push(piece@)
                    + split_from(text@, i + 1, a, b));
            }
            start = i + 1;
        }
        i += 1;
    }
    let ghost done = out.deep_view();
    let piece = substring(text, start, len);
    out.push(piece);
    proof {
        assert(out.deep_view() == done.push(piece@));
        assert(done + seq![piece@] == done.push(piece@));
    }
    out
}

/// A line without the carriage return at its end, if it has one.
pub open spec fn without_carriage_return(line: Seq<char>) -> Seq<char> {
    if line.len() > 0 && line.last() == '\r' {
        line.drop_last()
    } else {
        line
    }
}

/// The lines of a text.
///
/// A line ends with a line feed, or with a carriage return and a line
/// feed; neither belongs to the line. What stands behind the last line
/// feed is a line too, unless it is empty; a carriage return at its end
/// stays.
pub open spec fn lines_of(text: Seq<char>) -> Seq<Seq<char>> {
    let pieces = split(text, '\n', '\n');
    let ended = Seq::new((pieces.len() - 1) as nat, |i: int| without_carriage_return(pieces[i]));
    if pieces.last().len() == 0 {
        ended
    } else {
        ended.push(pieces.last())
    }
}

/// Parts `text` into its lines.
pub fn lines(text: &str) -> (r: Vec<String>)
    ensures
        r.deep_view() == lines_of(text@),
{
    let mut pieces = split_text(text, '\n', '\n');
    let ghost all = pieces.deep_view();
    let count = pieces.len();
    let mut out: Vec<String> = Vec::new();
    let mut i: usize = 0;
    while i + 1 < count
        invariant
            count == pieces@.len(),
            count >= 1,
            all == pieces.deep_view(),
            i + 1 <= count,
            out.deep_view() == Seq::new(i as nat, |k: int| without_carriage_return(all[k])),
        decreases count - i,
    {
        let ghost done = out.deep_view();
        let piece = pieces[i].as_str();
        let chars = chars_of(piece);
        let len = chars.len();
        let line = if len > 0 && chars[len - 1] == '\r' {
            assert(piece@.drop_last() == piece@.subrange(0, len - 1));
            substring(piece, 0, len - 1)
        } else {
            pieces[i].clone()
        };
        out.push(line);
        proof {
            assert(line@ == without_carriage_return(all[i as int]));
            assert(out.deep_view() == done.push(line@));
            assert(Seq::new((i + 1) as nat, |k: int| without_carriage_return(all[k])) == Seq::new(
                i as nat,
                |k: int| without_carriage_return(all[k]),
            ).push(line@));
        }
        i += 1;
    }
    let ghost done = out.deep_view();
    match pieces.pop() {
        Some(last) => {
            assert(last@ == all.last());
            if last.as_str().unicode_len() > 0 {
                out.push(last);
                assert(out.deep_view() == done.push(all.last()));
            }
        },
        None => {},
    }
    out
}

/// Takes the white space off the start and the end of `text`.
pub fn trim(text: &str) -> (r: String)
    ensures
        r@ == trimmed(text@),
{
    let chars = chars_of(text);
    let (from, to) = trim_bounds(&chars);
    substring(text, from, to)
}

/// Tells whether `count` texts of `a` from position `a_from` on are the
/// same as those of `b` from position `b_from` on.
pub fn same_range(a: &Vec<String>, a_from: usize, b: &Vec<String>, b_from: usize, count: usize) -> (r:
    bool)
    requires
        a_from + count <= a@.len(),
        b_from + count <= b@.len(),
    ensures
        r == (a.deep_view().subrange(a_from as int, a_from + count) == b.deep_view().subrange(
            b_from as int,
            b_from + count,
        )),
{
    let ghost left = a.deep_view().subrange(a_from as int, a_from + count);
    let ghost right = b.deep_view().subrange(b_from as int, b_from + count);
    let a_len = a.len();
    let b_len = b.len();
    let mut k: usize = 0;
    while k < count
        invariant
            k <= count,
            a_len == a@.len(),
            b_len == b@.len(),
            a_from + count <= a@.len(),
            b_from + count <= b@.len(),
            left == a.deep_view().subrange(a_from as int, a_from + count),
            right == b.deep_view().subrange(b_from as int, b_from + count),
            forall|j: int| 0 <= j < k ==> left[j] == right[j],
        decreases count - k,
    {
        if !same_text(a[a_from + k].as_str(), b[b_from + k].as_str()) {
            assert(left[k as int] != right[k as int]);
            return false;
        }
        k += 1;
    }
    assert(left =~= right);
    true
}

/// Tells whether two lists hold the same texts.
pub fn same_lines(a: &Vec<String>, b: &Vec<String>) -> (r: bool)
    ensures
        r == (a.deep_view() == b.deep_view()),
{
    let len = a.len();
    if len != b.len() {
        assert(a.deep_view().len() != b.deep_view().len());
        return false;
    }
    assert(a.deep_view().subrange(0, len as int) == a.deep_view());
    assert(b.deep_view().subrange(0, len as int) == b.deep_view());
    same_range(a, 0, b, 0, len)
}

/// The encoding of a text made of two pieces is the encoding of the first
/// followed by the encoding of the second.
pub proof fn lemma_encode_concat(a: Seq<char>, b: Seq<char>)
    ensures
        encode_utf8(a + b) == encode_utf8(a) + encode_utf8(b),
    decreases a.len(),
{
    if a.len() == 0 {
        assert(a + b == b);
        assert(encode_utf8(a) == Seq::<u8>::empty());
        assert(encode_utf8(a) + encode_utf8(b) == encode_utf8(b));
    } else {
        assert((a + b).drop_first() == a.drop_first() + b);
        assert((a + b)[0] == a[0]);
        lemma_encode_concat(a.drop_first(), b);
        assert(encode_utf8(a + b) == vstd::utf8::encode_scalar(a[0] as u32) + (encode_utf8(
            a.drop_first(),
        ) + encode_utf8(b)));
    }
}

/// In well-formed UTF-8 a character starts at every byte below 128, and
/// another one right behind it.
pub proof fn lemma_boundary_at_ascii(bytes: Seq<u8>, at: int)
    requires
        valid_utf8(bytes),
        0 <= at < bytes.len(),
        bytes[at] < 0x80,
    ensures
        is_char_boundary(bytes, at),
        is_char_boundary(bytes, at + 1),
{
    let first = bytes[at];
    assert(!is_continuation_byte(first)) by (bit_vector)
        requires
            first < 0x80,
    ;
    is_char_boundary_iff_not_is_continuation_byte(bytes, at);
    if at + 1 == bytes.len() {
        is_char_boundary_start_end_of_seq(bytes);
    } else {
        valid_utf8_split(bytes, at);
        let rest = bytes.subrange(at, bytes.len() as int);
        assert(rest[0] == first);
        assert(vstd::utf8::is_leading_byte_width_1(first)) by (bit_vector)
            requires
                first < 0x80,
        ;
        assert(vstd::utf8::length_of_first_scalar(rest) == 1);
        let tail = vstd::utf8::pop_first_scalar(rest);
        assert(valid_utf8(tail));
        assert(tail == bytes.subrange(at + 1, bytes.len() as int));
        assert(tail.len() > 0);
        assert(vstd::utf8::valid_first_scalar(tail));
        assert(tail[0] == bytes[at + 1]);
        let b = bytes[at + 1];
        assert(!is_continuation_byte(b)) by (bit_vector)
            requires
                vstd::utf8::is_leading_byte_width_1(b) || vstd::utf8::is_leading_byte_width_2(b)
                    || vstd::utf8::is_leading_byte_width_3(b)
                    || vstd::utf8::is_leading_byte_width_4(b),
        ;
        is_char_boundary_iff_not_is_continuation_byte(bytes, at + 1);
    }
}

} // verus!
