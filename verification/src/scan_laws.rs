//! What holds of searching, cutting and joining on every text.

use crate::scan::{
    find_from, join, lemma_find_from, lemma_find_from_is, lemma_find_from_none, occurs_at, split,
    split_from,
};
use vstd::prelude::*;

verus! {

/// `c` occurs nowhere in `s`.
pub open spec fn free_of(s: Seq<char>, c: char) -> bool {
    forall|i: int| 0 <= i < s.len() ==> #[trigger] s[i] != c
}

/// Every character of `p` occurs in `s`.
pub open spec fn drawn_from(p: Seq<char>, s: Seq<char>) -> bool {
    forall|i: int| 0 <= i < p.len() ==> s.contains(#[trigger] p[i])
}

/// A split yields at least one piece.
pub proof fn lemma_split_nonempty(s: Seq<char>, pat: Seq<char>, from: int)
    ensures
        split_from(s, pat, from).len() >= 1,
{
}

/// A one-character pattern stands where that character stands.
pub proof fn lemma_occurs_char(s: Seq<char>, c: char, j: int)
    ensures
        occurs_at(s, seq![c], j) <==> (0 <= j < s.len() && s[j] == c),
{
    if 0 <= j < s.len() {
        let sub = s.subrange(j, j + 1);
        assert(sub[0] == s[j]);
        if s[j] == c {
            assert(sub =~= seq![c]);
        }
    }
}

/// An occurrence in what follows position `k` is an occurrence `k` further on
/// in the whole.
pub proof fn lemma_occurs_skip(s: Seq<char>, pat: Seq<char>, k: int, j: int)
    requires
        0 <= k <= s.len(),
        0 <= j,
    ensures
        occurs_at(s.skip(k), pat, j) == occurs_at(s, pat, k + j),
{
    if j + pat.len() <= s.len() - k {
        assert(s.skip(k).subrange(j, j + pat.len()) =~= s.subrange(k + j, k + j + pat.len()));
    }
}

/// Searching what follows position `k` finds what searching the whole finds
/// from there, `k` earlier.
pub proof fn lemma_find_skip(s: Seq<char>, pat: Seq<char>, k: int, d: int)
    requires
        0 <= k <= s.len(),
        0 <= d,
    ensures
        find_from(s.skip(k), pat, d) == match find_from(s, pat, k + d) {
            Some(i) => Some(i - k),
            None => None::<int>,
        },
    decreases s.len() - k - d,
{
    lemma_occurs_skip(s, pat, k, d);
    if d + pat.len() <= s.len() - k && !occurs_at(s, pat, k + d) && d < s.len() - k {
        lemma_find_skip(s, pat, k, d + 1);
    }
}

/// Splitting what follows position `k` gives the pieces that splitting the
/// whole gives from there.
pub proof fn lemma_split_skip(s: Seq<char>, pat: Seq<char>, k: int, d: int)
    requires
        0 <= k,
        0 <= d,
        k + d <= s.len(),
    ensures
        split_from(s.skip(k), pat, d) == split_from(s, pat, k + d),
    decreases s.len() - k - d,
{
    lemma_find_skip(s, pat, k, d);
    let tail = s.skip(k);
    match find_from(s, pat, k + d) {
        Some(i) => {
            if pat.len() > 0 && k + d <= i && i + pat.len() <= s.len() {
                lemma_split_skip(s, pat, k, i - k + pat.len());
                assert(tail.subrange(d, i - k) =~= s.subrange(k + d, i));
            } else {
                assert(tail.subrange(d, tail.len() as int) =~= s.subrange(k + d, s.len() as int));
            }
        },
        None => {
            assert(tail.subrange(d, tail.len() as int) =~= s.subrange(k + d, s.len() as int));
        },
    }
}

/// Cutting a joined text at its separator gives back the texts that were
/// joined, where none of them holds the separator.
pub proof fn lemma_split_join(ts: Seq<Seq<char>>, c: char)
    requires
        ts.len() >= 1,
        forall|i: int| 0 <= i < ts.len() ==> free_of(#[trigger] ts[i], c),
    ensures
        split(join(ts, seq![c]), seq![c]) == ts,
    decreases ts.len(),
{
    let sep = seq![c];
    let y = join(ts, sep);
    let t0 = ts[0];
    assert(free_of(t0, c));
    if ts.len() == 1 {
        assert forall|j: int| 0 <= j implies !occurs_at(y, sep, j) by {
            lemma_occurs_char(y, c, j);
        }
        lemma_find_from_none(y, sep, 0);
        assert(y.subrange(0, y.len() as int) =~= y);
        assert(split(y, sep) =~= ts);
    } else {
        let rest = ts.drop_first();
        let tail = join(rest, sep);
        assert(y == t0 + sep + tail);
        let at = t0.len() as int;
        assert(y[at] == c);
        lemma_occurs_char(y, c, at);
        assert forall|j: int| 0 <= j < at implies !occurs_at(y, sep, j) by {
            lemma_occurs_char(y, c, j);
            assert(y[j] == t0[j]);
        }
        lemma_find_from_is(y, sep, 0, at);
        lemma_split_skip(y, sep, at + 1, 0);
        assert(y.skip(at + 1) =~= tail);
        assert(y.subrange(0, at) =~= t0);
        assert forall|i: int| 0 <= i < rest.len() implies free_of(#[trigger] rest[i], c) by {
            assert(rest[i] == ts[i + 1]);
        }
        lemma_split_join(rest, c);
        assert(split(y, sep) =~= seq![t0] + rest);
        assert(seq![t0] + rest =~= ts);
    }
}

/// A joined text is free of a character that neither the texts nor the
/// separator hold.
pub proof fn lemma_join_free(ts: Seq<Seq<char>>, sep: Seq<char>, c: char)
    requires
        free_of(sep, c),
        forall|i: int| 0 <= i < ts.len() ==> free_of(#[trigger] ts[i], c),
    ensures
        free_of(join(ts, sep), c),
    decreases ts.len(),
{
    if ts.len() == 1 {
        assert(free_of(ts[0], c));
    } else if ts.len() > 1 {
        let rest = ts.drop_first();
        assert forall|i: int| 0 <= i < rest.len() implies free_of(#[trigger] rest[i], c) by {
            assert(rest[i] == ts[i + 1]);
        }
        lemma_join_free(rest, sep, c);
        assert(free_of(ts[0], c));
    }
}

/// Each piece that a cut at the character `c` yields is free of `c` and made
/// of characters of the text that was cut.
pub proof fn lemma_split_pieces(s: Seq<char>, c: char, from: int)
    requires
        0 <= from <= s.len(),
    ensures
        forall|k: int|
            0 <= k < split_from(s, seq![c], from).len() ==> free_of(
                #[trigger] split_from(s, seq![c], from)[k],
                c,
            ) && drawn_from(split_from(s, seq![c], from)[k], s),
    decreases s.len() - from,
{
    let sep = seq![c];
    let pieces = split_from(s, sep, from);
    lemma_find_from(s, sep, from);
    match find_from(s, sep, from) {
        Some(i) => {
            let head = s.subrange(from, i);
            assert forall|j: int| 0 <= j < head.len() implies #[trigger] head[j] != c
                && s.contains(head[j]) by {
                lemma_occurs_char(s, c, from + j);
                assert(head[j] == s[from + j]);
            }
            lemma_split_pieces(s, c, i + 1);
            let tail = split_from(s, sep, i + 1);
            assert(pieces == seq![head] + tail);
            assert forall|k: int| 0 <= k < pieces.len() implies free_of(#[trigger] pieces[k], c)
                && drawn_from(pieces[k], s) by {
                if k > 0 {
                    assert(pieces[k] == tail[k - 1]);
                }
            }
        },
        None => {
            let last = s.subrange(from, s.len() as int);
            assert forall|j: int| 0 <= j < last.len() implies #[trigger] last[j] != c
                && s.contains(last[j]) by {
                lemma_occurs_char(s, c, from + j);
                assert(last[j] == s[from + j]);
            }
        },
    }
}

} // verus!
