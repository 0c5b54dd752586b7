//! Text scanning on character sequences: line-end folding, splitting on a
//! separator, and prefix tests.

use vstd::prelude::*;

verus! {

/// The text with each CR LF pair replaced by one space. Pairs are found
/// scanning left to right; a lone CR or LF stays as it is.
pub open spec fn fold_line_ends(s: Seq<char>) -> Seq<char>
    decreases s.len(),
{
    if s.len() == 0 {
        s
    } else if s.len() >= 2 && s[0] == '\r' && s[1] == '\n' {
        seq![' '] + fold_line_ends(s.skip(2))
    } else {
        seq![s[0]] + fold_line_ends(s.skip(1))
    }
}

/// Whether a CR LF pair occurs in `s`.
pub open spec fn has_line_end(s: Seq<char>) -> bool {
    exists|i: int| 0 <= i < s.len() - 1 && s[i] == '\r' && #[trigger] s[i + 1] == '\n'
}

/// Folding leaves a text without CR LF pairs as it is.
pub proof fn lemma_fold_without_line_end(s: Seq<char>)
    requires
        !has_line_end(s),
    ensures
        fold_line_ends(s) == s,
    decreases s.len(),
{
    if s.len() > 0 {
        let rest = s.skip(1);
        if s.len() >= 2 && s[0] == '\r' && s[1] == '\n' {
            assert(s[0int + 1] == '\n');
        }
        assert forall|i: int| 0 <= i < rest.len() - 1 && rest[i] == '\r' implies #[trigger] rest[i
            + 1] != '\n' by {
            assert(s[(i + 1) + 1] == rest[i + 1]);
        }
        lemma_fold_without_line_end(rest);
        assert(seq![s[0]] + rest == s);
    }
}

/// A folded text begins with a space or with the first character of the
/// text it was folded from, and is empty only if that text is.
pub proof fn lemma_fold_first(s: Seq<char>)
    requires
        s.len() > 0,
    ensures
        fold_line_ends(s).len() > 0,
        fold_line_ends(s)[0] == ' ' || fold_line_ends(s)[0] == s[0],
        fold_line_ends(s)[0] == '\n' ==> s[0] == '\n',
{
}

/// No CR LF pair is left in a folded text.
pub proof fn lemma_fold_leaves_no_line_end(s: Seq<char>)
    ensures
        !has_line_end(fold_line_ends(s)),
    decreases s.len(),
{
    let out = fold_line_ends(s);
    if s.len() > 0 {
        let pair = s.len() >= 2 && s[0] == '\r' && s[1] == '\n';
        let rest = if pair {
            s.skip(2)
        } else {
            s.skip(1)
        };
        let tail = fold_line_ends(rest);
        lemma_fold_leaves_no_line_end(rest);
        assert(out == seq![out[0]] + tail);
        assert forall|i: int| 0 <= i < out.len() - 1 && out[i] == '\r' implies #[trigger] out[i
            + 1] != '\n' by {
            if i == 0 {
                assert(!pair);
                assert(rest.len() > 0);
                lemma_fold_first(rest);
                assert(out[1] == tail[0]);
            } else {
                assert(out[i] == tail[i - 1]);
                assert(out[i + 1] == tail[(i - 1) + 1]);
            }
        }
    }
}

/// Folding a folded text changes nothing.
pub proof fn lemma_fold_is_idempotent(s: Seq<char>)
    ensures
        fold_line_ends(fold_line_ends(s)) == fold_line_ends(s),
{
    lemma_fold_leaves_no_line_end(s);
    lemma_fold_without_line_end(fold_line_ends(s));
}

/// The position of the first `c` in `s`, or the length of `s` if there is none.
pub open spec fn first_index_of(s: Seq<char>, c: char) -> int
    decreases s.len(),
{
    if s.len() == 0 || s[0] == c {
        0
    } else {
        1 + first_index_of(s.skip(1), c)
    }
}

/// The pieces of `s` between occurrences of `sep`. There is always at least
/// one piece; adjacent separators give empty pieces.
pub open spec fn split(s: Seq<char>, sep: char) -> Seq<Seq<char>>
    decreases s.len(),
{
    let i = first_index_of(s, sep);
    if 0 <= i < s.len() {
        seq![s.take(i)] + split(s.skip(i + 1), sep)
    } else {
        seq![s]
    }
}

/// The pieces put back together with `sep` between neighbours.
pub open spec fn join(pieces: Seq<Seq<char>>, sep: char) -> Seq<char>
    decreases pieces.len(),
{
    if pieces.len() == 0 {
        Seq::empty()
    } else if pieces.len() == 1 {
        pieces[0]
    } else {
        pieces[0] + seq![sep] + join(pieces.skip(1), sep)
    }
}

/// `first_index_of` is the least position holding `c`, or the length.
pub proof fn lemma_first_index_of(s: Seq<char>, c: char)
    ensures
        0 <= first_index_of(s, c) <= s.len(),
        forall|k: int| 0 <= k < first_index_of(s, c) ==> s[k] != c,
        first_index_of(s, c) < s.len() ==> s[first_index_of(s, c)] == c,
    decreases s.len(),
{
    if s.len() == 0 || s[0] == c {
    } else {
        let t = s.skip(1);
        lemma_first_index_of(t, c);
        assert forall|k: int| 0 <= k < first_index_of(s, c) implies s[k] != c by {
            if k > 0 {
                assert(s[k] == t[k - 1]);
            }
        }
        if first_index_of(s, c) < s.len() {
            assert(s[first_index_of(s, c)] == t[first_index_of(t, c)]);
        }
    }
}

/// A position that holds `c` and has no `c` before it is the first index.
pub proof fn lemma_first_index_is(s: Seq<char>, c: char, j: int)
    requires
        0 <= j <= s.len(),
        forall|k: int| 0 <= k < j ==> s[k] != c,
        j < s.len() ==> s[j] == c,
    ensures
        first_index_of(s, c) == j,
{
    lemma_first_index_of(s, c);
}

/// Splitting always gives at least one piece.
pub proof fn lemma_split_nonempty(s: Seq<char>, sep: char)
    ensures
        split(s, sep).len() >= 1,
{
}

/// No piece of a split holds the separator.
pub proof fn lemma_split_pieces_lack_sep(s: Seq<char>, sep: char)
    ensures
        forall|i: int| 0 <= i < split(s, sep).len() ==> !(#[trigger] split(s, sep)[i]).contains(sep),
    decreases s.len(),
{
    lemma_first_index_of(s, sep);
    let j = first_index_of(s, sep);
    let pieces = split(s, sep);
    if j < s.len() {
        let rest = split(s.skip(j + 1), sep);
        lemma_split_pieces_lack_sep(s.skip(j + 1), sep);
        assert forall|i: int| 0 <= i < pieces.len() implies !(#[trigger] pieces[i]).contains(sep) by {
            if i == 0 {
                assert(pieces[0] == s.take(j));
            } else {
                assert(pieces[i] == rest[i - 1]);
            }
        }
    } else {
        assert(pieces[0] == s);
    }
}

/// Joining the pieces of a split with the separator gives the text back.
pub proof fn lemma_join_split(s: Seq<char>, sep: char)
    ensures
        join(split(s, sep), sep) == s,
    decreases s.len(),
{
    lemma_first_index_of(s, sep);
    let j = first_index_of(s, sep);
    if j < s.len() {
        let rest = s.skip(j + 1);
        lemma_join_split(rest, sep);
        lemma_split_nonempty(rest, sep);
        let pieces = split(s, sep);
        assert(pieces.skip(1) == split(rest, sep));
        assert(s == s.take(j) + seq![sep] + rest);
    }
}

/// The characters of `s`, in order.
pub fn chars_of(s: &str) -> (out: Vec<char>)
    ensures
        out@ == s@,
{
    let mut out: Vec<char> = Vec::new();
    for c in it: s.chars()
        invariant
            it.seq() == s@,
            out@ == s@.take(it.index()),
    {
        out.push(c);
    }
    assert(s@.take(s@.len() as int) == s@);
    out
}

/// Replaces each CR LF pair of `text` by one space.
pub fn normalize_line_ends(text: &str) -> (out: String)
    ensures
        out@ == fold_line_ends(text@),
{
    let chars = chars_of(text);
    let n = chars.len();
    let mut out = String::new();
    let mut start: usize = 0;
    let mut i: usize = 0;
    proof {
        assert(text@.skip(0) == text@);
        assert(out@ + text@.subrange(0, 0) == Seq::<char>::empty());
        assert(Seq::<char>::empty() + fold_line_ends(text@) == fold_line_ends(text@));
    }
    while i < n
        invariant
            chars@ == text@,
            n == chars.len(),
            start <= i <= n,
            fold_line_ends(text@) == out@ + text@.subrange(start as int, i as int)
                + fold_line_ends(text@.skip(i as int)),
        decreases n - i,
    {
        let ghost rest = text@.skip(i as int);
        if chars[i] == '\r' && i + 1 < n && chars[i + 1] == '\n' {
            proof {
                reveal_strlit(" ");
                assert(" "@ == seq![' ']);
                assert(rest.skip(2) == text@.skip(i + 2));
                assert(text@.subrange(i + 2, i + 2) == Seq::<char>::empty());
            }
            out.append(text.substring_char(start, i));
            out.append(" ");
            i += 2;
            start = i;
        } else {
            proof {
                assert(rest.skip(1) == text@.skip(i + 1));
                assert(text@.subrange(start as int, i as int) + seq![rest[0]]
                    == text@.subrange(start as int, i + 1));
            }
            i += 1;
        }
    }
    proof {
        assert(text@.skip(n as int).len() == 0);
    }
    out.append(text.substring_char(start, n));
    out
}

/// Splits `text` at each occurrence of `sep`.
pub fn split_on<'a>(text: &'a str, sep: char) -> (pieces: Vec<&'a str>)
    ensures
        pieces.deep_view() == split(text@, sep),
{
    let chars = chars_of(text);
    let n = chars.len();
    let mut pieces: Vec<&'a str> = Vec::new();
    let mut start: usize = 0;
    let mut i: usize = 0;
    proof {
        assert(text@.skip(0) == text@);
        assert(pieces.deep_view() + split(text@, sep) == split(text@, sep));
    }
    while i < n
        invariant
            chars@ == text@,
            n == chars.len(),
            start <= i <= n,
            forall|k: int| start <= k < i ==> text@[k] != sep,
            split(text@, sep) == pieces.deep_view() + split(text@.skip(start as int), sep),
        decreases n - i,
    {
        if chars[i] == sep {
            let ghost rest = text@.skip(start as int);
            let ghost before = pieces.deep_view();
            let piece = text.substring_char(start, i);
            pieces.push(piece);
            proof {
                lemma_first_index_is(rest, sep, i - start);
                assert(rest.take(i - start) == piece@);
                assert(rest.skip(i - start + 1) == text@.skip(i + 1));
                assert(pieces.deep_view() == before + seq![piece@]);
            }
            start = i + 1;
        }
        i += 1;
    }
    let ghost rest = text@.skip(start as int);
    let ghost before = pieces.deep_view();
    let piece = text.substring_char(start, n);
    pieces.push(piece);
    proof {
        lemma_first_index_is(rest, sep, rest.len() as int);
        assert(rest == piece@);
        assert(pieces.deep_view() == before + seq![piece@]);
    }
    pieces
}

/// Whether `text` begins with `prefix`.
pub fn starts_with(text: &str, prefix: &str) -> (r: bool)
    ensures
        r == prefix@.is_prefix_of(text@),
{
    let chars = chars_of(text);
    let head = chars_of(prefix);
    if head.len() > chars.len() {
        return false;
    }
    let mut i: usize = 0;
    while i < head.len()
        invariant
            chars@ == text@,
            head@ == prefix@,
            head.len() <= chars.len(),
            i <= head.len(),
            forall|k: int| 0 <= k < i ==> text@[k] == prefix@[k],
        decreases head.len() - i,
    {
        if chars[i] != head[i] {
            assert(text@.subrange(0, prefix@.len() as int)[i as int] != prefix@[i as int]);
            return false;
        }
        i += 1;
    }
    assert(text@.subrange(0, prefix@.len() as int) =~= prefix@);
    true
}

/// Whether `a` and `b` hold the same characters.
pub fn same_text(a: &str, b: &str) -> (r: bool)
    ensures
        r == (a@ == b@),
{
    let x = chars_of(a);
    let y = chars_of(b);
    if x.len() != y.len() {
        return false;
    }
    let mut i: usize = 0;
    while i < x.len()
        invariant
            x@ == a@,
            y@ == b@,
            x.len() == y.len(),
            i <= x.len(),
            forall|k: int| 0 <= k < i ==> a@[k] == b@[k],
        decreases x.len() - i,
    {
        if x[i] != y[i] {
            return false;
        }
        i += 1;
    }
    assert(a@ =~= b@);
    true
}

} // verus!
