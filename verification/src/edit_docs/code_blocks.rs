//! Fenced code blocks.
//!
//! In the source, the fence that opens a block of Rust code is tagged as
//! Rust. In the markdown files the language goes without saying: on the
//! way to markdown the tag is taken off every fence, and on the way back
//! every fence that opens a block gets it again.

use crate::text::{
    after_white_space, before_white_space, chars_of, is_white_space, lemma_after_white_space,
    lemma_after_white_space_is, lemma_before_white_space, lemma_before_white_space_is,
    lemma_replaced_absent, lemma_replaced_at_head, lemma_replaced_behind, occurs_at, occurs_in,
    replace_all, replaced, trim_bounds, trimmed,
};
use vstd::prelude::*;

verus! {

/// The bare fence.
pub open spec fn fence() -> Seq<char> {
    seq!['`', '`', '`']
}

/// The fence tagged as Rust, in the short form that import writes.
pub open spec fn short_tagged_fence() -> Seq<char> {
    seq!['`', '`', '`', 'r', 's']
}

/// The fence tagged as Rust, in the long form.
pub open spec fn long_tagged_fence() -> Seq<char> {
    seq!['`', '`', '`', 'r', 'u', 's', 't']
}

/// A line with the Rust tag taken off every fence in it.
pub open spec fn untagged_line(line: Seq<char>) -> Seq<char> {
    replaced(replaced(line, short_tagged_fence(), fence()), long_tagged_fence(), fence())
}

/// Lines with the Rust tag taken off every fence.
pub open spec fn untagged(lines: Seq<Seq<char>>) -> Seq<Seq<char>> {
    Seq::new(lines.len(), |i: int| untagged_line(lines[i]))
}

/// Whether a line is a bare fence: nothing but the fence, with white
/// space around it at most.
pub open spec fn is_fence(line: Seq<char>) -> bool {
    trimmed(line) == fence()
}

/// How many of the lines before position `at` are bare fences.
pub open spec fn fences_before(lines: Seq<Seq<char>>, at: int) -> nat
    decreases at,
{
    if at <= 0 {
        0
    } else {
        fences_before(lines, at - 1) + if is_fence(lines[at - 1]) {
            1nat
        } else {
            0nat
        }
    }
}

/// Whether the line at position `at` opens a code block: it is a bare
/// fence, and the bare fences before it pair up.
pub open spec fn opens_block(lines: Seq<Seq<char>>, at: int) -> bool {
    is_fence(lines[at]) && fences_before(lines, at) % 2 == 0
}

/// Lines with every fence that opens a code block tagged as Rust. The
/// white space around the fence stays.
pub open spec fn tagged(lines: Seq<Seq<char>>) -> Seq<Seq<char>> {
    Seq::new(
        lines.len(),
        |i: int|
            if opens_block(lines, i) {
                replaced(lines[i], fence(), short_tagged_fence())
            } else {
                lines[i]
            },
    )
}

/// Takes the Rust tag off every fence in `lines`, on their way to
/// markdown. All other text stays as it is.
pub fn to_markdown(lines: &mut Vec<String>)
    ensures
        final(lines).deep_view() == untagged(old(lines).deep_view()),
{
    proof {
        reveal_strlit("```");
        reveal_strlit("```rs");
        reveal_strlit("```rust");
        assert("```"@ == fence());
        assert("```rs"@ == short_tagged_fence());
        assert("```rust"@ == long_tagged_fence());
    }
    let ghost before = lines.deep_view();
    let mut out: Vec<String> = Vec::new();
    let mut i: usize = 0;
    while i < lines.len()
        invariant
            i <= lines@.len(),
            before == lines.deep_view(),
            before.len() == lines@.len(),
            "```"@ == fence(),
            "```rs"@ == short_tagged_fence(),
            "```rust"@ == long_tagged_fence(),
            out.deep_view() == untagged(before).take(i as int),
        decreases lines@.len() - i,
    {
        let ghost done = out.deep_view();
        let short = replace_all(lines[i].as_str(), "```rs", "```");
        let line = replace_all(short.as_str(), "```rust", "```");
        out.push(line);
        proof {
            assert(line@ == untagged_line(before[i as int]));
            assert(out.deep_view() == done.push(line@));
            assert(untagged(before).take(i + 1) == untagged(before).take(i as int).push(line@));
        }
        i += 1;
    }
    assert(untagged(before).take(before.len() as int) == untagged(before));
    *lines = out;
}

/// Tells whether a line is a bare fence.
pub fn is_bare_fence(line: &str) -> (r: bool)
    ensures
        r == is_fence(line@),
{
    let chars = chars_of(line);
    let (from, to) = trim_bounds(&chars);
    if to - from != 3 {
        assert(chars@.subrange(from as int, to as int).len() != fence().len());
        return false;
    }
    let found = chars[from] == '`' && chars[from + 1] == '`' && chars[from + 2] == '`';
    proof {
        let inside = chars@.subrange(from as int, to as int);
        assert(inside[0] == chars@[from as int]);
        assert(inside[1] == chars@[from + 1]);
        assert(inside[2] == chars@[from + 2]);
        if found {
            assert(inside == fence());
        }
    }
    found
}

/// Tags every fence in `lines` that opens a code block as Rust, on
/// their way back from markdown.
///
/// Bare fences are counted from the top, line by line: the first opens a
/// block, the second closes it, the third opens the next one. A fence
/// that closes a block stays bare.
pub fn from_markdown(lines: &mut Vec<String>)
    ensures
        final(lines).deep_view() == tagged(old(lines).deep_view()),
{
    proof {
        reveal_strlit("```");
        reveal_strlit("```rs");
        assert("```"@ == fence());
        assert("```rs"@ == short_tagged_fence());
    }
    let ghost before = lines.deep_view();
    let mut out: Vec<String> = Vec::new();
    let mut in_code_block = false;
    let mut i: usize = 0;
    while i < lines.len()
        invariant
            i <= lines@.len(),
            before == lines.deep_view(),
            before.len() == lines@.len(),
            "```"@ == fence(),
            "```rs"@ == short_tagged_fence(),
            in_code_block == (fences_before(before, i as int) % 2 == 1),
            out.deep_view() == tagged(before).take(i as int),
        decreases lines@.len() - i,
    {
        let ghost done = out.deep_view();
        let line = if is_bare_fence(lines[i].as_str()) {
            if !in_code_block {
                in_code_block = true;
                replace_all(lines[i].as_str(), "```", "```rs")
            } else {
                in_code_block = false;
                lines[i].clone()
            }
        } else {
            lines[i].clone()
        };
        out.push(line);
        proof {
            assert(line@ == tagged(before)[i as int]);
            assert(out.deep_view() == done.push(line@));
            assert(tagged(before).take(i + 1) == tagged(before).take(i as int).push(line@));
        }
        i += 1;
    }
    assert(tagged(before).take(before.len() as int) == tagged(before));
    *lines = out;
}

/// Whether a line holds no fence that is tagged as Rust.
pub open spec fn holds_no_tagged_fence(line: Seq<char>) -> bool {
    !occurs_in(line, short_tagged_fence()) && !occurs_in(line, long_tagged_fence())
}

/// Whether a line is a fence tagged as Rust and nothing else, with white
/// space around it at most.
pub open spec fn is_tagged_fence(line: Seq<char>) -> bool {
    trimmed(line) == short_tagged_fence()
}

/// How many of the lines before position `at` are fences, bare or
/// tagged.
pub open spec fn marks_before(lines: Seq<Seq<char>>, at: int) -> nat
    decreases at,
{
    if at <= 0 {
        0
    } else {
        marks_before(lines, at - 1) + if is_fence(lines[at - 1]) || is_tagged_fence(
            lines[at - 1],
        ) {
            1nat
        } else {
            0nat
        }
    }
}

/// Whether the line at position `at` is as a line of source
/// documentation is: a tagged fence opens a block, a bare fence closes
/// one, and any other line holds no tagged fence.
pub open spec fn is_paired_at(lines: Seq<Seq<char>>, at: int) -> bool {
    if is_tagged_fence(lines[at]) {
        marks_before(lines, at) % 2 == 0
    } else if is_fence(lines[at]) {
        marks_before(lines, at) % 2 == 1
    } else {
        holds_no_tagged_fence(lines[at])
    }
}

/// Whether the fences of `lines` pair up as those of source
/// documentation do: every fence that opens a block is tagged, every
/// fence that closes one is bare, and no other line holds a tagged
/// fence.
pub open spec fn fences_are_paired(lines: Seq<Seq<char>>) -> bool {
    forall|i: int| 0 <= i < lines.len() ==> #[trigger] is_paired_at(lines, i)
}

/// A line that is `core` with white space around it is white space,
/// `core`, and white space.
proof fn lemma_trimmed_line(line: Seq<char>, core: Seq<char>) -> (r: (Seq<char>, Seq<char>))
    requires
        core.len() > 0,
        trimmed(line) == core,
    ensures
        line == r.0 + core + r.1,
        forall|k: int| 0 <= k < r.0.len() ==> is_white_space(#[trigger] r.0[k]),
        forall|k: int| 0 <= k < r.1.len() ==> is_white_space(#[trigger] r.1[k]),
{
    lemma_after_white_space(line, 0);
    lemma_before_white_space(line, line.len() as int);
    let from = after_white_space(line, 0);
    let to = before_white_space(line, line.len() as int);
    assert(from < to);
    let head = line.subrange(0, from);
    let tail = line.subrange(to, line.len() as int);
    assert(line == head + line.subrange(from, to) + tail);
    assert forall|k: int| 0 <= k < head.len() implies is_white_space(#[trigger] head[k]) by {
        assert(head[k] == line[k]);
    }
    assert forall|k: int| 0 <= k < tail.len() implies is_white_space(#[trigger] tail[k]) by {
        assert(tail[k] == line[to + k]);
    }
    (head, tail)
}

/// White space around a text that neither begins nor ends with white
/// space is what trimming takes off.
proof fn lemma_trimmed_is(head: Seq<char>, core: Seq<char>, tail: Seq<char>)
    requires
        core.len() > 0,
        !is_white_space(core[0]),
        !is_white_space(core.last()),
        forall|k: int| 0 <= k < head.len() ==> is_white_space(#[trigger] head[k]),
        forall|k: int| 0 <= k < tail.len() ==> is_white_space(#[trigger] tail[k]),
    ensures
        trimmed(head + core + tail) == core,
{
    let line = head + core + tail;
    let from = head.len() as int;
    let to = from + core.len();
    assert forall|k: int| 0 <= k < from implies is_white_space(#[trigger] line[k]) by {
        assert(line[k] == head[k]);
    }
    assert forall|k: int| to <= k < line.len() implies is_white_space(#[trigger] line[k]) by {
        assert(line[k] == tail[k - to]);
    }
    assert(line[from] == core[0]);
    assert(line[to - 1] == core.last());
    lemma_after_white_space_is(line, 0, from);
    lemma_before_white_space_is(line, line.len() as int, to);
    assert(line.subrange(from, to) == core);
}

/// A pattern that begins with a backtick does not occur in white space.
proof fn lemma_no_fence_in_white_space(text: Seq<char>, pattern: Seq<char>)
    requires
        pattern.len() > 0,
        pattern[0] == '`',
        forall|k: int| 0 <= k < text.len() ==> is_white_space(#[trigger] text[k]),
    ensures
        !occurs_in(text, pattern),
{
    assert forall|k: int| !occurs_at(text, k, pattern) by {
        if occurs_at(text, k, pattern) {
            assert(text.subrange(k, k + pattern.len())[0] == pattern[0]);
            assert(is_white_space(text[k]));
        }
    }
}

/// A pattern that begins with a backtick does not begin in the white
/// space at the head of a text.
proof fn lemma_no_fence_begins_in_white_space(head: Seq<char>, rest: Seq<char>, pattern: Seq<char>)
    requires
        pattern.len() > 0,
        pattern[0] == '`',
        forall|k: int| 0 <= k < head.len() ==> is_white_space(#[trigger] head[k]),
    ensures
        forall|k: int| 0 <= k < head.len() ==> !occurs_at(head + rest, k, pattern),
{
    assert forall|k: int| 0 <= k < head.len() implies !occurs_at(head + rest, k, pattern) by {
        if occurs_at(head + rest, k, pattern) {
            assert((head + rest).subrange(k, k + pattern.len())[0] == pattern[0]);
            assert((head + rest)[k] == head[k]);
            assert(is_white_space(head[k]));
        }
    }
}

/// A pattern of three backticks and a letter does not occur in a bare
/// fence with white space around it.
proof fn lemma_no_tag_in_bare_fence(head: Seq<char>, tail: Seq<char>, pattern: Seq<char>)
    requires
        pattern.len() >= 4,
        pattern[0] == '`',
        pattern[1] == '`',
        pattern[2] == '`',
        pattern[3] == 'r',
        forall|k: int| 0 <= k < head.len() ==> is_white_space(#[trigger] head[k]),
        forall|k: int| 0 <= k < tail.len() ==> is_white_space(#[trigger] tail[k]),
    ensures
        !occurs_in(head + fence() + tail, pattern),
{
    let line = head + fence() + tail;
    assert forall|k: int| !occurs_at(line, k, pattern) by {
        if occurs_at(line, k, pattern) {
            let found = line.subrange(k, k + pattern.len());
            assert(found[0] == '`' && found[1] == '`' && found[2] == '`' && found[3] == 'r');
            assert(line[k] == found[0] && line[k + 1] == found[1] && line[k + 2] == found[2]
                && line[k + 3] == found[3]);
            let at = head.len() as int;
            if k < at {
                assert(line[k] == head[k]);
                assert(is_white_space(head[k]));
            } else if k == at {
                assert(line[k + 3] == tail[0]);
                assert(is_white_space(tail[0]));
            } else if k == at + 1 {
                assert(line[k + 2] == tail[0]);
                assert(is_white_space(tail[0]));
            } else if k == at + 2 {
                assert(line[k + 1] == tail[0]);
                assert(is_white_space(tail[0]));
            } else {
                assert(line[k] == tail[k - at - 3]);
                assert(is_white_space(tail[k - at - 3]));
            }
        }
    }
}

/// Between the same white space, the bare fence and the tagged fence
/// turn into each other: tagging the bare one gives the tagged one, and
/// taking the tag off the tagged one gives the bare one.
proof fn lemma_fence_between_white_space(head: Seq<char>, tail: Seq<char>)
    requires
        forall|k: int| 0 <= k < head.len() ==> is_white_space(#[trigger] head[k]),
        forall|k: int| 0 <= k < tail.len() ==> is_white_space(#[trigger] tail[k]),
    ensures
        replaced(head + fence() + tail, fence(), short_tagged_fence()) == head
            + short_tagged_fence() + tail,
        untagged_line(head + short_tagged_fence() + tail) == head + fence() + tail,
        holds_no_tagged_fence(head + fence() + tail),
        is_fence(head + fence() + tail),
        is_tagged_fence(head + short_tagged_fence() + tail),
{
    let bare = fence();
    let short = short_tagged_fence();
    let long = long_tagged_fence();
    let line = head + bare + tail;
    let tagged = head + short + tail;
    // Tagging turns the fence into the tagged fence and leaves the rest.
    assert(line == head + (bare + tail));
    lemma_no_fence_begins_in_white_space(head, bare + tail, bare);
    lemma_replaced_behind(head, bare + tail, bare, short);
    lemma_replaced_at_head(bare, tail, short);
    lemma_no_fence_in_white_space(tail, bare);
    lemma_replaced_absent(tail, bare, short);
    assert(tagged == head + (short + tail));
    assert(replaced(line, bare, short) == tagged);
    // Taking the short tag off gives the bare fence back.
    lemma_no_fence_begins_in_white_space(head, short + tail, short);
    lemma_replaced_behind(head, short + tail, short, bare);
    lemma_replaced_at_head(short, tail, bare);
    lemma_no_fence_in_white_space(tail, short);
    lemma_replaced_absent(tail, short, bare);
    assert(replaced(tagged, short, bare) == line);
    // The bare fence holds no tag, short or long.
    lemma_no_tag_in_bare_fence(head, tail, short);
    lemma_no_tag_in_bare_fence(head, tail, long);
    lemma_replaced_absent(line, long, bare);
    // Trimming leaves the fence.
    assert(!is_white_space('`'));
    assert(!is_white_space('s'));
    lemma_trimmed_is(head, bare, tail);
    lemma_trimmed_is(head, short, tail);
}

/// What export makes of one line of paired lines: a fence, bare or
/// tagged, becomes a bare fence, which tagging turns into the tagged
/// fence again; any other line stays as it is and is no fence.
proof fn lemma_exported_line(lines: Seq<Seq<char>>, at: int)
    requires
        0 <= at < lines.len(),
        is_paired_at(lines, at),
    ensures
        is_fence(untagged_line(lines[at])) == (is_fence(lines[at]) || is_tagged_fence(lines[at])),
        is_tagged_fence(lines[at]) ==> replaced(
            untagged_line(lines[at]),
            fence(),
            short_tagged_fence(),
        ) == lines[at],
        !is_tagged_fence(lines[at]) ==> untagged_line(lines[at]) == lines[at],
{
    let line = lines[at];
    if is_tagged_fence(line) {
        let (head, tail) = lemma_trimmed_line(line, short_tagged_fence());
        lemma_fence_between_white_space(head, tail);
    } else if is_fence(line) {
        let (head, tail) = lemma_trimmed_line(line, fence());
        lemma_fence_between_white_space(head, tail);
        lemma_replaced_absent(line, short_tagged_fence(), fence());
        lemma_replaced_absent(line, long_tagged_fence(), fence());
    } else {
        lemma_replaced_absent(line, short_tagged_fence(), fence());
        lemma_replaced_absent(line, long_tagged_fence(), fence());
    }
}

/// After export, the bare fences before a position are as many as the
/// fences, bare or tagged, were before.
proof fn lemma_exported_fences(lines: Seq<Seq<char>>, at: int)
    requires
        fences_are_paired(lines),
        0 <= at <= lines.len(),
    ensures
        fences_before(untagged(lines), at) == marks_before(lines, at),
    decreases at,
{
    if at > 0 {
        lemma_exported_fences(lines, at - 1);
        assert(is_paired_at(lines, at - 1));
        lemma_exported_line(lines, at - 1);
    }
}

/// Fences come back as they were: source documentation whose opening
/// fences are tagged and whose closing fences are bare is, after export
/// and import, what it was. The tags come back where they were, and no
/// other text changes.
pub proof fn lemma_fences_come_back(lines: Seq<Seq<char>>)
    requires
        fences_are_paired(lines),
    ensures
        tagged(untagged(lines)) == lines,
{
    let exported = untagged(lines);
    assert forall|i: int| 0 <= i < lines.len() implies tagged(exported)[i] == lines[i] by {
        assert(is_paired_at(lines, i));
        lemma_exported_line(lines, i);
        lemma_exported_fences(lines, i);
    }
}

/// Tags come off as they were put on: markdown that holds no tagged
/// fence is, after import and export, what it was.
pub proof fn lemma_tags_come_off_again(lines: Seq<Seq<char>>)
    requires
        forall|i: int| 0 <= i < lines.len() ==> holds_no_tagged_fence(#[trigger] lines[i]),
    ensures
        untagged(tagged(lines)) == lines,
{
    assert forall|i: int| 0 <= i < lines.len() implies untagged(tagged(lines))[i] == lines[i] by {
        if opens_block(lines, i) {
            let (head, tail) = lemma_trimmed_line(lines[i], fence());
            lemma_fence_between_white_space(head, tail);
        } else {
            assert(holds_no_tagged_fence(lines[i]));
            lemma_replaced_absent(lines[i], short_tagged_fence(), fence());
            lemma_replaced_absent(lines[i], long_tagged_fence(), fence());
        }
    }
}

} // verus!
