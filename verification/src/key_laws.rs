//! What holds of the textual form of a key on every input.

use crate::key::{
    bar, bar_free, key_bar_free, key_valid, spec_deserialize, spec_serialize, ActiveKey,
    ParseError,
};
use crate::scan_laws::lemma_occurs_char;
use crate::scan::{find_from, lemma_find_from, lemma_find_from_is, lemma_find_from_none, occurs_at};
use vstd::prelude::*;

verus! {

/// The number of bars in `s`.
pub open spec fn bars(s: Seq<char>) -> nat
    decreases s.len(),
{
    if s.len() == 0 {
        0
    } else if s.last() == '|' {
        bars(s.drop_last()) + 1
    } else {
        bars(s.drop_last())
    }
}

/// Where a search for a bar from `from` on finds nothing, what stands from
/// there on is free of bars.
pub proof fn lemma_find_none_bar_free(s: Seq<char>, from: int)
    requires
        0 <= from <= s.len(),
        find_from(s, bar(), from) is None,
    ensures
        bar_free(s.skip(from)),
{
    lemma_find_from(s, bar(), from);
    assert forall|i: int| 0 <= i < s.skip(from).len() implies #[trigger] s.skip(from)[i]
        != '|' by {
        lemma_occurs_char(s, '|', from + i);
    }
}

/// What stands before the first bar is free of bars.
pub proof fn lemma_before_first_bar(s: Seq<char>, at: int)
    requires
        find_from(s, bar(), 0) == Some(at),
    ensures
        0 <= at < s.len(),
        s[at] == '|',
        bar_free(s.take(at)),
{
    lemma_find_from(s, bar(), 0);
    lemma_occurs_char(s, '|', at);
    assert forall|i: int| 0 <= i < at implies #[trigger] s.take(at)[i] != '|' by {
        lemma_occurs_char(s, '|', i);
    }
}

/// A text free of bars has none.
pub proof fn lemma_bar_free_count(s: Seq<char>)
    ensures
        bar_free(s) <==> bars(s) == 0,
    decreases s.len(),
{
    if s.len() > 0 {
        lemma_bar_free_count(s.drop_last());
        if bar_free(s) {
            assert(s.last() != '|');
            assert forall|i: int| 0 <= i < s.drop_last().len() implies #[trigger] s.drop_last()[i]
                != '|' by {
                assert(s.drop_last()[i] == s[i]);
            }
        }
        if bars(s) == 0 {
            assert forall|i: int| 0 <= i < s.len() implies #[trigger] s[i] != '|' by {
                if i < s.len() - 1 {
                    assert(s.drop_last()[i] == s[i]);
                }
            }
        }
    }
}

/// The bars of a text are those of its two parts.
pub proof fn lemma_bars_concat(a: Seq<char>, b: Seq<char>)
    ensures
        bars(a + b) == bars(a) + bars(b),
    decreases b.len(),
{
    if b.len() == 0 {
        assert(a + b == a);
    } else {
        assert((a + b).drop_last() == a + b.drop_last());
        lemma_bars_concat(a, b.drop_last());
    }
}

/// A text stands for a key exactly when it holds at most one bar: one with
/// two or more bars is refused, and no other text is.
pub proof fn lemma_deserialize_refuses_two_bars(text: Seq<char>)
    ensures
        spec_deserialize(text) is Err <==> bars(text) >= 2,
        spec_deserialize(text) is Err ==> spec_deserialize(text) == Err::<ActiveKey, ParseError>(
            ParseError::TooManyBars,
        ),
{
    match find_from(text, bar(), 0) {
        None => {
            lemma_find_none_bar_free(text, 0);
            assert(text.skip(0) == text);
            lemma_bar_free_count(text);
        },
        Some(at) => {
            lemma_before_first_bar(text, at);
            let head = text.take(at);
            let tail = text.skip(at + 1);
            assert(text == head + bar() + tail);
            lemma_bars_concat(head + bar(), tail);
            lemma_bars_concat(head, bar());
            lemma_bar_free_count(head);
            assert(bars(bar()) == 1) by {
                assert(bar().drop_last() == Seq::<char>::empty());
                assert(bars(bar().drop_last()) == 0);
            }
            lemma_bar_free_count(tail);
            if find_from(text, bar(), at + 1) is None {
                lemma_find_none_bar_free(text, at + 1);
            } else {
                lemma_find_from(text, bar(), at + 1);
                let next = find_from(text, bar(), at + 1)->0;
                lemma_occurs_char(text, '|', next);
                assert(tail[next - (at + 1)] == '|');
            }
        },
    }
}

/// A valid key whose parts hold no bar is read back from its textual form.
pub proof fn lemma_serialize_round_trip(key: ActiveKey)
    requires
        key_valid(key),
        key_bar_free(key),
    ensures
        spec_deserialize(spec_serialize(key)) == Ok::<ActiveKey, ParseError>(key),
{
    let text = spec_serialize(key);
    match key.subprogram {
        None => {
            assert forall|j: int| 0 <= j implies !occurs_at(text, bar(), j) by {
                lemma_occurs_char(text, '|', j);
            }
            lemma_find_from_none(text, bar(), 0);
        },
        Some(sub) => {
            let at = key.program.len() as int;
            assert(text[at] == '|');
            lemma_occurs_char(text, '|', at);
            assert forall|j: int| 0 <= j < at implies !occurs_at(text, bar(), j) by {
                lemma_occurs_char(text, '|', j);
                assert(text[j] == key.program[j]);
            }
            lemma_find_from_is(text, bar(), 0, at);
            assert forall|j: int| at + 1 <= j implies !occurs_at(text, bar(), j) by {
                lemma_occurs_char(text, '|', j);
                if j < text.len() {
                    assert(text[j] == sub[j - at - 1]);
                }
            }
            lemma_find_from_none(text, bar(), at + 1);
            assert(text.take(at) == key.program);
            assert(text.skip(at + 1) == sub);
        },
    }
}

} // verus!
