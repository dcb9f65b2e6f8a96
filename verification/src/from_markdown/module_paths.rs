//! Module paths: the one a source file stands for, and the full one of an
//! item.

use crate::text::{chars_of, join, joined, same_text, split, split_text, substring};
use crate::text::{lemma_separator_at, separator_at, split_from};
use vstd::prelude::*;
use vstd::string::StringExecFns;

verus! {

/// The path of the module that a source file holds, relative to the root
/// of the crate.
#[derive(Debug)]
pub struct RelativeModulePath(pub Vec<String>);

/// The full path of an item, from the name of the crate down.
#[derive(Debug)]
pub struct AbsoluteModulePath<'lt>(pub &'lt Vec<String>);

impl View for RelativeModulePath {
    type V = Seq<Seq<char>>;

    open spec fn view(&self) -> Seq<Seq<char>> {
        self.0.deep_view()
    }
}

impl View for AbsoluteModulePath<'_> {
    type V = Seq<Seq<char>>;

    open spec fn view(&self) -> Seq<Seq<char>> {
        self.0.deep_view()
    }
}

/// Whether a character parts the components of a file path.
pub open spec fn is_path_separator(c: char) -> bool {
    c == '/' || c == '\\'
}

/// Whether a component of a file path is one of the names that stand for
/// the root of a crate or of a module and add nothing to the module path:
/// the source directory, and the files that hold a root.
pub open spec fn is_root_marker(component: Seq<char>) -> bool {
    component == seq!['s', 'r', 'c'] || component == seq!['m', 'o', 'd', '.', 'r', 's']
        || component == seq!['l', 'i', 'b', '.', 'r', 's'] || component == seq![
        'm',
        'a',
        'i',
        'n',
        '.',
        'r',
        's',
    ]
}

/// Whether a component of a file path adds a segment to the module path.
pub open spec fn adds_segment(component: Seq<char>) -> bool {
    component.len() > 0 && !is_root_marker(component)
}

/// The components that add a segment, in order.
pub open spec fn segments_among(components: Seq<Seq<char>>) -> Seq<Seq<char>>
    decreases components.len(),
{
    if components.len() == 0 {
        Seq::empty()
    } else {
        segments_among(components.drop_last()) + if adds_segment(components.last()) {
            seq![components.last()]
        } else {
            Seq::empty()
        }
    }
}

/// The extension of a source file.
pub open spec fn source_extension() -> Seq<char> {
    seq!['.', 'r', 's']
}

/// A file name without the extension of a source file, if it has it.
pub open spec fn without_extension(name: Seq<char>) -> Seq<char> {
    if name.len() >= 3 && name.subrange(name.len() - 3, name.len() as int) == source_extension() {
        name.subrange(0, name.len() - 3)
    } else {
        name
    }
}

/// The module path that the file at `file_path` stands for.
///
/// The path is parted at its separators. Empty components and root
/// markers add nothing. Every other component is a segment, and the last
/// of them loses the extension of a source file.
pub open spec fn module_path_of(file_path: Seq<char>) -> Seq<Seq<char>> {
    let segments = segments_among(split(file_path, '/', '\\'));
    if segments.len() == 0 {
        segments
    } else {
        segments.drop_last().push(without_extension(segments.last()))
    }
}

/// Whether two file paths are the same but for which separator stands
/// where.
pub open spec fn differ_in_separators_only(p: Seq<char>, q: Seq<char>) -> bool {
    p.len() == q.len() && forall|i: int|
        0 <= i < p.len() ==> (#[trigger] p[i] == q[i] || (is_path_separator(p[i])
            && is_path_separator(q[i])))
}

/// Tells whether a component adds a segment to the module path.
fn is_segment(component: &str) -> (r: bool)
    ensures
        r == adds_segment(component@),
{
    proof {
        reveal_strlit("");
        reveal_strlit("src");
        reveal_strlit("mod.rs");
        reveal_strlit("lib.rs");
        reveal_strlit("main.rs");
        assert(""@.len() == 0);
        assert("src"@ == seq!['s', 'r', 'c']);
        assert("mod.rs"@ == seq!['m', 'o', 'd', '.', 'r', 's']);
        assert("lib.rs"@ == seq!['l', 'i', 'b', '.', 'r', 's']);
        assert("main.rs"@ == seq!['m', 'a', 'i', 'n', '.', 'r', 's']);
        if component@.len() == 0 {
            assert(component@ == ""@);
        }
    }
    !(same_text(component, "") || same_text(component, "src") || same_text(component, "mod.rs")
        || same_text(component, "lib.rs") || same_text(component, "main.rs"))
}

/// Takes the extension of a source file off a file name.
fn strip_extension(name: &str) -> (r: String)
    ensures
        r@ == without_extension(name@),
{
    let chars = chars_of(name);
    let len = chars.len();
    if len >= 3 && chars[len - 3] == '.' && chars[len - 2] == 'r' && chars[len - 1] == 's' {
        proof {
            let tail = name@.subrange(len - 3, len as int);
            assert(tail[0] == name@[len - 3]);
            assert(tail[1] == name@[len - 2]);
            assert(tail[2] == name@[len - 1]);
            assert(tail == source_extension());
        }
        substring(name, 0, len - 3)
    } else {
        proof {
            if len >= 3 {
                let tail = name@.subrange(len - 3, len as int);
                assert(tail[0] == name@[len - 3]);
                assert(tail[1] == name@[len - 2]);
                assert(tail[2] == name@[len - 1]);
                assert(tail != source_extension());
            }
        }
        name.to_owned()
    }
}

impl RelativeModulePath {
    /// The module path that the file at `file_path` stands for:
    /// `src/a/b.rs` stands for the module `a::b`, and so does
    /// `src/a/b/mod.rs`.
    pub fn from_file_path(file_path: &str) -> (r: RelativeModulePath)
        ensures
            r@ == module_path_of(file_path@),
    {
        let components = split_text(file_path, '/', '\\');
        let ghost all = components.deep_view();
        let mut segments: Vec<String> = Vec::new();
        let mut i: usize = 0;
        while i < components.len()
            invariant
                i <= components@.len(),
                all == components.deep_view(),
                all.len() == components@.len(),
                segments.deep_view() == segments_among(all.take(i as int)),
            decreases components@.len() - i,
        {
            let ghost done = segments.deep_view();
            proof {
                assert(all.take(i + 1).drop_last() == all.take(i as int));
                assert(all.take(i + 1).last() == components@[i as int]@);
            }
            if is_segment(components[i].as_str()) {
                let segment = components[i].clone();
                segments.push(segment);
                assert(segments.deep_view() == done.push(components@[i as int]@));
                assert(done + seq![components@[i as int]@] == done.push(components@[i as int]@));
            } else {
                assert(done + Seq::<Seq<char>>::empty() == done);
            }
            i += 1;
        }
        assert(all.take(all.len() as int) == all);
        let ghost kept = segments.deep_view();
        match segments.pop() {
            Some(last) => {
                let ghost front = segments.deep_view();
                let stripped = strip_extension(last.as_str());
                segments.push(stripped);
                proof {
                    assert(front == kept.drop_last());
                    assert(last@ == kept.last());
                    assert(segments.deep_view() == front.push(stripped@));
                }
            },
            None => {
                assert(segments.deep_view() == kept);
            },
        }
        RelativeModulePath(segments)
    }

    /// The path as it is written in source code: `crate`, then the
    /// segments, with `::` between them.
    pub open spec fn text(&self) -> Seq<char> {
        if self@.len() == 0 {
            seq!['c', 'r', 'a', 't', 'e']
        } else {
            seq!['c', 'r', 'a', 't', 'e', ':', ':'] + joined(self@, seq![':', ':'])
        }
    }

    /// The path as it is written in source code: `crate`, then the
    /// segments, with `::` between them.
    pub fn to_string(&self) -> (r: String)
        ensures
            r@ == self.text(),
    {
        proof {
            reveal_strlit("crate");
            reveal_strlit("crate::");
            reveal_strlit("::");
            assert("crate"@ == seq!['c', 'r', 'a', 't', 'e']);
            assert("crate::"@ == seq!['c', 'r', 'a', 't', 'e', ':', ':']);
            assert("::"@ == seq![':', ':']);
        }
        if self.0.len() == 0 {
            String::from_str("crate")
        } else {
            let mut out = String::from_str("crate::");
            let rest = join(&self.0, "::");
            out.append(rest.as_str());
            out
        }
    }
}

impl AbsoluteModulePath<'_> {
    /// The path as it is written in source code: the segments with `::`
    /// between them; `::` alone for the empty path.
    pub open spec fn text(&self) -> Seq<char> {
        if self@.len() == 0 {
            seq![':', ':']
        } else {
            joined(self@, seq![':', ':'])
        }
    }

    /// The path as it is written in source code: the segments with `::`
    /// between them; `::` alone for the empty path.
    pub fn to_string(&self) -> (r: String)
        ensures
            r@ == self.text(),
    {
        proof {
            reveal_strlit("::");
            assert("::"@ == seq![':', ':']);
        }
        if self.0.len() == 0 {
            String::from_str("::")
        } else {
            join(self.0, "::")
        }
    }
}

/// Between two paths that differ in their separators only, the pieces
/// behind any position are the same.
proof fn lemma_split_ignores_separator_choice(p: Seq<char>, q: Seq<char>, from: int)
    requires
        differ_in_separators_only(p, q),
        0 <= from <= p.len(),
    ensures
        separator_at(p, from, '/', '\\') == separator_at(q, from, '/', '\\'),
        split_from(p, from, '/', '\\') == split_from(q, from, '/', '\\'),
    decreases p.len() - from,
{
    lemma_separator_at(p, from, '/', '\\');
    lemma_separator_at(q, from, '/', '\\');
    let end_p = separator_at(p, from, '/', '\\');
    let end_q = separator_at(q, from, '/', '\\');
    if end_p < end_q {
        assert(p[end_p] == q[end_p] || (is_path_separator(p[end_p]) && is_path_separator(q[end_p])));
        assert(q[end_p] != '/' && q[end_p] != '\\');
    }
    if end_q < end_p {
        assert(p[end_q] == q[end_q] || (is_path_separator(p[end_q]) && is_path_separator(q[end_q])));
        assert(p[end_q] != '/' && p[end_q] != '\\');
    }
    assert(end_p == end_q);
    assert forall|k: int| from <= k < end_p implies p[k] == q[k] by {
        assert(p[k] == q[k] || (is_path_separator(p[k]) && is_path_separator(q[k])));
        assert(p[k] != '/' && p[k] != '\\');
    }
    assert(p.subrange(from, end_p) == q.subrange(from, end_p));
    if end_p < p.len() {
        lemma_split_ignores_separator_choice(p, q, end_p + 1);
    }
}

/// Which separator a file path is written with does not matter: two
/// paths that differ only in their separators stand for the same module
/// path.
pub proof fn lemma_module_path_ignores_separator_choice(p: Seq<char>, q: Seq<char>)
    requires
        differ_in_separators_only(p, q),
    ensures
        module_path_of(p) == module_path_of(q),
{
    lemma_split_ignores_separator_choice(p, q, 0);
}

} // verus!
