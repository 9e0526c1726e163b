//! What holds of the normalizer on every input.

use crate::normalize::{spec_normalize, stem, stems, title_case, title_cased, unhyphenated, words};
use crate::scan::{find_from, join, lemma_find_from, lemma_find_from_none, occurs_at, split, split_from};
use crate::scan_laws::{
    drawn_from, free_of, lemma_join_free, lemma_occurs_char, lemma_split_join, lemma_split_pieces,
};
use crate::text::{ascii_lower, ascii_lowered, ascii_upper, is_ascii_char};
use vstd::prelude::*;
use vstd::utf8::is_ascii_chars;

verus! {

/// The characters at which the normalizer cuts a name.
pub open spec fn is_word_break(c: char) -> bool {
    c == ' ' || c == '-' || c == '.'
}

/// A word that the normalizer leaves in one piece: not empty, and free of the
/// characters at which it cuts.
pub open spec fn is_plain(w: Seq<char>) -> bool {
    w.len() > 0 && forall|i: int| 0 <= i < w.len() ==> !is_word_break(#[trigger] w[i])
}

/// Title-casing `w` gives a plain word that title-casing leaves as it is.
pub open spec fn settled(w: Seq<char>) -> bool {
    is_plain(title_case(w)) && title_case(title_case(w)) == title_case(w)
}

/// Every word of the raw name `x` is settled.
pub open spec fn settles(x: Seq<char>) -> bool {
    forall|i: int| 0 <= i < words(x).len() ==> settled(#[trigger] words(x)[i])
}

/// A text without a dot is its own stem.
pub proof fn lemma_stem_plain(w: Seq<char>)
    requires
        free_of(w, '.'),
    ensures
        stem(w) == w,
{
    let dot = seq!['.'];
    assert forall|j: int| 0 <= j implies !occurs_at(w, dot, j) by {
        lemma_occurs_char(w, '.', j);
    }
    lemma_find_from_none(w, dot, 0);
    assert(w.subrange(0, w.len() as int) =~= w);
}

/// Plain words are their own stems, and none is dropped.
pub proof fn lemma_stems_plain(ts: Seq<Seq<char>>)
    requires
        forall|i: int| 0 <= i < ts.len() ==> is_plain(#[trigger] ts[i]),
    ensures
        stems(ts) == ts,
    decreases ts.len(),
{
    if ts.len() > 0 {
        let init = ts.drop_last();
        assert forall|i: int| 0 <= i < init.len() implies is_plain(#[trigger] init[i]) by {
            assert(init[i] == ts[i]);
        }
        lemma_stems_plain(init);
        assert(is_plain(ts.last()));
        lemma_stem_plain(ts.last());
        assert(init.push(ts.last()) =~= ts);
    }
}

/// The stems of segments that hold neither space nor hyphen are plain words
/// made of characters of the text `u` that the segments were cut from.
pub proof fn lemma_stems_of_segments(segments: Seq<Seq<char>>, u: Seq<char>)
    requires
        forall|j: int|
            0 <= j < segments.len() ==> free_of(#[trigger] segments[j], ' ') && free_of(
                segments[j],
                '-',
            ) && drawn_from(segments[j], u),
    ensures
        forall|i: int|
            0 <= i < stems(segments).len() ==> is_plain(#[trigger] stems(segments)[i])
                && drawn_from(stems(segments)[i], u),
    decreases segments.len(),
{
    if segments.len() > 0 {
        let init = segments.drop_last();
        let seg = segments.last();
        assert forall|j: int| 0 <= j < init.len() implies free_of(#[trigger] init[j], ' ')
            && free_of(init[j], '-') && drawn_from(init[j], u) by {
            assert(init[j] == segments[j]);
        }
        lemma_stems_of_segments(init, u);
        let w = stem(seg);
        if w.len() > 0 {
            lemma_split_pieces(seg, '.', 0);
            let pieces = split(seg, seq!['.']);
            assert(w == pieces[pieces.len() - 1]);
            assert(free_of(w, '.') && drawn_from(w, seg));
            assert(free_of(seg, ' ') && free_of(seg, '-') && drawn_from(seg, u));
            assert forall|k: int| 0 <= k < w.len() implies !is_word_break(#[trigger] w[k])
                && u.contains(w[k]) by {
                let at = choose|at: int| 0 <= at < seg.len() && seg[at] == w[k];
                assert(seg[at] != ' ' && seg[at] != '-');
                assert(u.contains(seg[at]));
            }
            let all = stems(segments);
            assert(all == stems(init).push(w));
            assert forall|i: int| 0 <= i < all.len() implies is_plain(#[trigger] all[i])
                && drawn_from(all[i], u) by {
                if i < stems(init).len() {
                    assert(all[i] == stems(init)[i]);
                }
            }
        }
    }
}

/// Every word of a raw name is plain and made of characters of that name
/// with its hyphens replaced.
pub proof fn lemma_words_plain(x: Seq<char>)
    ensures
        forall|i: int|
            0 <= i < words(x).len() ==> is_plain(#[trigger] words(x)[i]) && drawn_from(
                words(x)[i],
                unhyphenated(x),
            ),
{
    let u = unhyphenated(x);
    let segments = split(u, seq![' ']);
    lemma_split_pieces(u, ' ', 0);
    assert forall|j: int| 0 <= j < segments.len() implies free_of(#[trigger] segments[j], ' ')
        && free_of(segments[j], '-') && drawn_from(segments[j], u) by {
        let seg = segments[j];
        assert(drawn_from(seg, u));
        assert forall|k: int| 0 <= k < seg.len() implies #[trigger] seg[k] != '-' by {
            let at = choose|at: int| 0 <= at < u.len() && u[at] == seg[k];
            assert(u[at] != '-');
        }
    }
    lemma_stems_of_segments(segments, u);
}

/// The normalizer is idempotent on every raw name whose words are settled:
/// normalizing the canonical name gives the canonical name again.
pub proof fn lemma_normalize_idempotent(x: Seq<char>)
    requires
        settles(x),
    ensures
        spec_normalize(spec_normalize(x)) == spec_normalize(x),
{
    let space = seq![' '];
    let ts = title_cased(words(x));
    let y = join(ts, space);
    if ts.len() == 0 {
        assert(y =~= Seq::<char>::empty());
        assert(unhyphenated(y) =~= y);
        let segments = split(y, space);
        assert(segments =~= seq![y.subrange(0, 0)]);
        assert(segments.drop_last() =~= Seq::<Seq<char>>::empty());
        let pieces = split(segments.last(), seq!['.']);
        assert(pieces.last().len() == 0);
        assert(stem(segments.last()).len() == 0);
        assert(stems(segments.drop_last()) =~= Seq::<Seq<char>>::empty());
        assert(stems(segments) =~= Seq::<Seq<char>>::empty());
        assert(title_cased(words(y)) =~= ts);
    } else {
        assert forall|i: int| 0 <= i < ts.len() implies is_plain(#[trigger] ts[i]) && title_case(
            ts[i],
        ) == ts[i] by {
            assert(settled(words(x)[i]));
        }
        assert forall|i: int| 0 <= i < ts.len() implies free_of(#[trigger] ts[i], '-') by {
            assert(is_plain(ts[i]));
        }
        assert forall|i: int| 0 <= i < ts.len() implies free_of(#[trigger] ts[i], ' ') by {
            assert(is_plain(ts[i]));
        }
        lemma_join_free(ts, space, '-');
        assert(unhyphenated(y) =~= y);
        lemma_split_join(ts, ' ');
        lemma_stems_plain(ts);
        assert(words(y) == ts);
        assert(title_cased(ts) =~= ts);
    }
}

/// Title-casing a plain word of ASCII characters gives a plain word that
/// title-casing leaves as it is.
pub proof fn lemma_ascii_word_settled(w: Seq<char>)
    requires
        is_plain(w),
        is_ascii_chars(w),
    ensures
        settled(w),
{
    let rest = w.drop_first();
    assert forall|i: int| 0 <= i < rest.len() implies is_ascii_char(#[trigger] rest[i])
        && !is_word_break(rest[i]) by {
        assert(rest[i] == w[i + 1]);
    }
    assert(is_ascii_chars(rest));
    let t = title_case(w);
    assert(t =~= seq![ascii_upper(w[0])] + ascii_lowered(rest));
    assert forall|i: int| 0 <= i < t.len() implies is_ascii_char(#[trigger] t[i])
        && !is_word_break(t[i]) by {
        if i > 0 {
            assert(t[i] == ascii_lower(rest[i - 1]));
        }
    }
    assert(is_ascii_chars(t));
    let again = t.drop_first();
    assert(again =~= ascii_lowered(rest));
    assert(is_ascii_chars(again));
    assert(ascii_lowered(again) =~= again);
    assert(title_case(t) =~= t);
}

/// Every raw name of ASCII characters has settled words.
pub proof fn lemma_ascii_settles(x: Seq<char>)
    requires
        is_ascii_chars(x),
    ensures
        settles(x),
{
    lemma_words_plain(x);
    let u = unhyphenated(x);
    assert forall|i: int| 0 <= i < words(x).len() implies settled(#[trigger] words(x)[i]) by {
        let w = words(x)[i];
        assert(is_plain(w) && drawn_from(w, u));
        assert forall|k: int| 0 <= k < w.len() implies '\0' <= #[trigger] w[k] <= '\u{7f}' by {
            let at = choose|at: int| 0 <= at < u.len() && u[at] == w[k];
            assert(x[at] <= '\u{7f}');
        }
        lemma_ascii_word_settled(w);
    }
}

/// The normalizer is idempotent on every raw name of ASCII characters.
pub proof fn lemma_normalize_idempotent_ascii(x: Seq<char>)
    requires
        is_ascii_chars(x),
    ensures
        spec_normalize(spec_normalize(x)) == spec_normalize(x),
{
    lemma_ascii_settles(x);
    lemma_normalize_idempotent(x);
}

/// Each of `parts` in lower case.
pub open spec fn lowered_each(parts: Seq<Seq<char>>) -> Seq<Seq<char>> {
    Seq::new(parts.len(), |i: int| ascii_lowered(parts[i]))
}

/// A character that lower case neither gives nor takes away.
pub open spec fn keeps_case(c: char) -> bool {
    !('A' <= c <= 'Z') && !('a' <= c <= 'z')
}

/// A search for a character that is no letter finds in a text in lower case
/// what it finds in the text itself.
pub proof fn lemma_find_lowered(s: Seq<char>, c: char, from: int)
    requires
        keeps_case(c),
        0 <= from,
    ensures
        find_from(ascii_lowered(s), seq![c], from) == find_from(s, seq![c], from),
    decreases s.len() - from,
{
    let low = ascii_lowered(s);
    lemma_occurs_char(s, c, from);
    lemma_occurs_char(low, c, from);
    if from + 1 <= s.len() && !occurs_at(s, seq![c], from) && from < s.len() {
        lemma_find_lowered(s, c, from + 1);
    }
}

/// Cutting a text in lower case at a character that is no letter gives the
/// pieces of the text itself, in lower case.
pub proof fn lemma_split_lowered(s: Seq<char>, c: char, from: int)
    requires
        keeps_case(c),
        0 <= from <= s.len(),
    ensures
        split_from(ascii_lowered(s), seq![c], from) == lowered_each(split_from(s, seq![c], from)),
    decreases s.len() - from,
{
    let low = ascii_lowered(s);
    let sep = seq![c];
    lemma_find_lowered(s, c, from);
    lemma_find_from(s, sep, from);
    match find_from(s, sep, from) {
        Some(i) => {
            lemma_split_lowered(s, c, i + 1);
            assert(low.subrange(from, i) =~= ascii_lowered(s.subrange(from, i)));
            assert(lowered_each(seq![s.subrange(from, i)] + split_from(s, sep, i + 1)) =~= seq![
                ascii_lowered(s.subrange(from, i)),
            ] + lowered_each(split_from(s, sep, i + 1)));
        },
        None => {
            assert(low.subrange(from, low.len() as int) =~= ascii_lowered(
                s.subrange(from, s.len() as int),
            ));
            assert(lowered_each(seq![s.subrange(from, s.len() as int)]) =~= seq![
                ascii_lowered(s.subrange(from, s.len() as int)),
            ]);
        },
    }
}

/// The stems of segments in lower case are the stems of the segments, in
/// lower case.
pub proof fn lemma_stems_lowered(segments: Seq<Seq<char>>)
    ensures
        stems(lowered_each(segments)) == lowered_each(stems(segments)),
    decreases segments.len(),
{
    let low = lowered_each(segments);
    if segments.len() == 0 {
        assert(lowered_each(stems(segments)) =~= Seq::<Seq<char>>::empty());
    } else {
        let seg = segments.last();
        lemma_stems_lowered(segments.drop_last());
        assert(low.drop_last() =~= lowered_each(segments.drop_last()));
        assert(low.last() == ascii_lowered(seg));
        lemma_split_lowered(seg, '.', 0);
        assert(stem(ascii_lowered(seg)) == ascii_lowered(stem(seg)));
        if stem(seg).len() > 0 {
            assert(lowered_each(stems(segments.drop_last()).push(stem(seg))) =~= lowered_each(
                stems(segments.drop_last()),
            ).push(ascii_lowered(stem(seg))));
        }
    }
}

/// The title case of an ASCII word does not depend on the case of its
/// letters.
pub proof fn lemma_title_case_lowered(w: Seq<char>)
    requires
        is_ascii_chars(w),
    ensures
        title_case(ascii_lowered(w)) == title_case(w),
{
    if w.len() > 0 {
        let low = ascii_lowered(w);
        let rest = w.drop_first();
        assert(is_ascii_chars(low));
        assert(low.drop_first() =~= ascii_lowered(rest));
        assert(is_ascii_chars(rest)) by {
            assert forall|i: int| 0 <= i < rest.len() implies '\0' <= #[trigger] rest[i]
                <= '\u{7f}' by {
                assert(rest[i] == w[i + 1]);
            }
        }
        assert(is_ascii_chars(ascii_lowered(rest)));
        assert(ascii_lowered(ascii_lowered(rest)) =~= ascii_lowered(rest));
        assert(ascii_upper(ascii_lower(w[0])) == ascii_upper(w[0]));
    }
}

/// The normalizer does not tell an upper-case letter from a lower-case one
/// in a raw name of ASCII characters.
pub proof fn lemma_normalize_ignores_case(x: Seq<char>)
    requires
        is_ascii_chars(x),
    ensures
        spec_normalize(ascii_lowered(x)) == spec_normalize(x),
{
    let u = unhyphenated(x);
    assert(unhyphenated(ascii_lowered(x)) =~= ascii_lowered(u));
    lemma_split_lowered(u, ' ', 0);
    lemma_stems_lowered(split(u, seq![' ']));
    assert(words(ascii_lowered(x)) == lowered_each(words(x)));
    lemma_words_plain(x);
    assert forall|i: int| 0 <= i < words(x).len() implies title_case(
        #[trigger] lowered_each(words(x))[i],
    ) == title_case(words(x)[i]) by {
        let w = words(x)[i];
        assert(is_plain(w) && drawn_from(w, u));
        assert forall|k: int| 0 <= k < w.len() implies '\0' <= #[trigger] w[k] <= '\u{7f}' by {
            let at = choose|at: int| 0 <= at < u.len() && u[at] == w[k];
            assert(x[at] <= '\u{7f}');
        }
        lemma_title_case_lowered(w);
    }
    assert(title_cased(lowered_each(words(x))) =~= title_cased(words(x)));
}

/// The normalizer is insensitive to case and hyphens: two raw names of ASCII
/// characters that differ only in the case of their letters, and in hyphens
/// standing for spaces, have the same canonical name.
pub proof fn lemma_normalize_insensitive(x: Seq<char>, y: Seq<char>)
    requires
        is_ascii_chars(x),
        is_ascii_chars(y),
        ascii_lowered(unhyphenated(x)) == ascii_lowered(unhyphenated(y)),
    ensures
        spec_normalize(x) == spec_normalize(y),
{
    lemma_normalize_ignores_hyphens(x);
    lemma_normalize_ignores_hyphens(y);
    assert(is_ascii_chars(unhyphenated(x)));
    assert(is_ascii_chars(unhyphenated(y)));
    lemma_normalize_ignores_case(unhyphenated(x));
    lemma_normalize_ignores_case(unhyphenated(y));
}

/// The normalizer does not tell a hyphen from a space.
pub proof fn lemma_normalize_ignores_hyphens(x: Seq<char>)
    ensures
        spec_normalize(unhyphenated(x)) == spec_normalize(x),
{
    assert(unhyphenated(unhyphenated(x)) =~= unhyphenated(x));
}

} // verus!
