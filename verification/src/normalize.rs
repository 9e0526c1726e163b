//! The identity normalizer: from a raw process name to its canonical display
//! name.

use crate::scan::{append, join, join_text, slice, split, split_text, views};
use crate::scan_laws::lemma_split_nonempty;
use crate::text::{chars_of, lower, spec_lower, spec_upper, text_of, upper};
use std::borrow::Cow;
use vstd::prelude::*;

verus! {

/// `s` with every hyphen replaced by a space.
pub open spec fn unhyphenated(s: Seq<char>) -> Seq<char> {
    Seq::new(s.len(), |i: int| if s[i] == '-' { ' ' } else { s[i] })
}

/// What follows the last dot of `segment`; all of it where it has no dot.
pub open spec fn stem(segment: Seq<char>) -> Seq<char> {
    split(segment, seq!['.']).last()
}

/// The stems of `segments` that are not empty, in order.
pub open spec fn stems(segments: Seq<Seq<char>>) -> Seq<Seq<char>>
    decreases segments.len(),
{
    if segments.len() == 0 {
        Seq::empty()
    } else if stem(segments.last()).len() > 0 {
        stems(segments.drop_last()).push(stem(segments.last()))
    } else {
        stems(segments.drop_last())
    }
}

/// The words of a raw process name: hyphens count as spaces, the name is cut
/// at each space, each piece is reduced to what follows its last dot, and the
/// pieces left empty are dropped.
pub open spec fn words(s: Seq<char>) -> Seq<Seq<char>> {
    stems(split(unhyphenated(s), seq![' ']))
}

/// `word` with its first character in upper case and the rest in lower case;
/// an empty word stays empty.
pub open spec fn title_case(word: Seq<char>) -> Seq<char> {
    if word.len() == 0 {
        Seq::empty()
    } else {
        spec_upper(word[0]) + spec_lower(word.drop_first())
    }
}

/// Each of `ws` in title case.
pub open spec fn title_cased(ws: Seq<Seq<char>>) -> Seq<Seq<char>> {
    Seq::new(ws.len(), |i: int| title_case(ws[i]))
}

/// The canonical display name of a raw process name: its words in title case,
/// with one space between each two.
pub open spec fn spec_normalize(s: Seq<char>) -> Seq<char> {
    join(title_cased(words(s)), seq![' '])
}

/// `s` with every hyphen replaced by a space.
pub fn unhyphenate(s: &Vec<char>) -> (r: Vec<char>)
    ensures
        r@ == unhyphenated(s@),
{
    let mut r: Vec<char> = Vec::new();
    let mut i: usize = 0;
    while i < s.len()
        invariant
            i <= s.len(),
            r@ == unhyphenated(s@).take(i as int),
        decreases s.len() - i,
    {
        let c = s[i];
        r.push(if c == '-' { ' ' } else { c });
        i += 1;
    }
    r
}

/// `word` with its first character in upper case and the rest in lower case.
pub fn title_word(word: &Vec<char>) -> (r: Vec<char>)
    ensures
        r@ == title_case(word@),
{
    if word.len() == 0 {
        return Vec::new();
    }
    let mut r = upper(word[0]);
    let rest = slice(word, 1, word.len());
    assert(rest@ == word@.drop_first());
    let low = lower(&rest);
    append(&mut r, &low);
    r
}

/// The canonical display name of the raw process name `program`.
pub fn normalize(program: &str) -> (name: Cow<'_, str>)
    ensures
        name@ == spec_normalize(program@),
{
    let raw = chars_of(program);
    let spaced = unhyphenate(&raw);
    let space: Vec<char> = vec![' '];
    let dot: Vec<char> = vec!['.'];
    let segments = split_text(&spaced, &space);
    let mut titled: Vec<Vec<char>> = Vec::new();
    let mut i: usize = 0;
    while i < segments.len()
        invariant
            i <= segments.len(),
            dot@ == seq!['.'],
            views(titled@) == title_cased(stems(views(segments@).take(i as int))),
        decreases segments.len() - i,
    {
        let pieces = split_text(&segments[i], &dot);
        proof {
            lemma_split_nonempty(segments@[i as int]@, dot@, 0);
            assert(views(pieces@).last() == pieces@[pieces.len() - 1]@);
            assert(views(segments@).take(i + 1).drop_last() == views(segments@).take(i as int));
            assert(views(segments@).take(i + 1).last() == segments@[i as int]@);
        }
        let word = &pieces[pieces.len() - 1];
        if word.len() > 0 {
            let t = title_word(word);
            proof {
                let before = stems(views(segments@).take(i as int));
                assert(views(titled@.push(t)) == views(titled@).push(t@));
                assert(title_cased(before.push(word@)) == title_cased(before).push(
                    title_case(word@),
                ));
            }
            titled.push(t);
        }
        i += 1;
    }
    assert(views(segments@).take(segments.len() as int) == views(segments@));
    let joined = join_text(&titled, &space);
    assert(space@ == seq![' ']);
    Cow::Owned(text_of(&joined))
}

} // verus!
