//! Resolved paths and the document-root containment test.
//!
//! A resolved path is absolute, free of `.` and `..` segments and of
//! symbolic links, and written with `/` between its components.

use vstd::prelude::*;
use crate::text::{same_text, split, split_on};

verus! {

/// The test that keeps the non-empty pieces of a path.
pub open spec fn named() -> spec_fn(Seq<char>) -> bool {
    |piece: Seq<char>| piece.len() > 0
}

/// The components of a path: its non-empty pieces between slashes.
pub open spec fn components(path: Seq<char>) -> Seq<Seq<char>> {
    split(path, '/').filter(named())
}

/// Whether `target` lies inside `root`: the components of `root` are the
/// leading components of `target`. A path lies inside itself.
pub open spec fn within(target: Seq<char>, root: Seq<char>) -> bool {
    components(root).is_prefix_of(components(target))
}

/// Every path lies inside itself.
pub proof fn lemma_within_itself(path: Seq<char>)
    ensures
        within(path, path),
{
    let parts = components(path);
    assert(parts.subrange(0, parts.len() as int) == parts);
}

/// Containment passes down: what lies inside a directory lies inside
/// every directory that holds that directory.
pub proof fn lemma_within_passes_down(target: Seq<char>, inner: Seq<char>, outer: Seq<char>)
    requires
        within(target, inner),
        within(inner, outer),
    ensures
        within(target, outer),
{
    let t = components(target);
    let i = components(inner);
    let o = components(outer);
    assert forall|k: int| 0 <= k < o.len() implies o[k] == t.subrange(0, o.len() as int)[k] by {
        assert(o[k] == i.subrange(0, o.len() as int)[k]);
        assert(i[k] == t.subrange(0, i.len() as int)[k]);
    }
    assert(o =~= t.subrange(0, o.len() as int));
}

/// The components of `path`, in order.
pub fn path_components<'a>(path: &'a str) -> (parts: Vec<&'a str>)
    ensures
        parts.deep_view() == components(path@),
{
    let pieces = split_on(path, '/');
    let mut parts: Vec<&'a str> = Vec::new();
    let mut i: usize = 0;
    proof {
        reveal(Seq::filter);
        assert(parts.deep_view() == pieces.deep_view().take(0).filter(named()));
    }
    while i < pieces.len()
        invariant
            i <= pieces.len(),
            parts.deep_view() == pieces.deep_view().take(i as int).filter(named()),
        decreases pieces.len() - i,
    {
        let piece = pieces[i];
        let ghost before = parts.deep_view();
        let ghost seen = pieces.deep_view().take(i as int);
        proof {
            assert(pieces.deep_view().take(i + 1) == seen.push(piece@));
            seen.lemma_filter_push(piece@, named());
        }
        if !piece.is_empty() {
            parts.push(piece);
            assert(parts.deep_view() == before.push(piece@));
        }
        i += 1;
    }
    assert(pieces.deep_view().take(pieces.len() as int) == pieces.deep_view());
    parts
}

/// Whether the resolved path `target` lies inside the resolved path `root`.
pub fn is_within(target: &str, root: &str) -> (r: bool)
    ensures
        r == within(target@, root@),
{
    let inner = path_components(target);
    let outer = path_components(root);
    if outer.len() > inner.len() {
        return false;
    }
    let ghost lead = inner.deep_view().subrange(0, outer.len() as int);
    let mut i: usize = 0;
    while i < outer.len()
        invariant
            i <= outer.len() <= inner.len(),
            inner.deep_view() == components(target@),
            outer.deep_view() == components(root@),
            lead == inner.deep_view().subrange(0, outer.len() as int),
            forall|k: int| 0 <= k < i ==> outer.deep_view()[k] == inner.deep_view()[k],
        decreases outer.len() - i,
    {
        if !same_text(outer[i], inner[i]) {
            assert(outer.deep_view()[i as int] != lead[i as int]);
            return false;
        }
        i += 1;
    }
    assert(outer.deep_view() =~= lead);
    true
}

} // verus!
