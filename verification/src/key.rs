//! The two identities under which time is counted: the program that a window
//! belongs to, and the program together with what is open in it.

use crate::classify::{predict_subprogram, present, spec_predict_subprogram};
use crate::normalize::{normalize, spec_normalize};
use crate::key_laws::{lemma_before_first_bar, lemma_find_none_bar_free};
use crate::scan::{append, find, find_from, lemma_find_from, occurs_at, slice};
use crate::table::Key;
use crate::text::{chars_of, text_of, text_view};
use std::borrow::Cow;
use vstd::prelude::*;
use vstd::std_specs::cmp::PartialEqSpecImpl;
use vstd::std_specs::convert::FromSpecImpl;

verus! {

/// What a window backend reports of one window: its raw process name and
/// its raw title.
pub trait RawWindowData {
    fn program(&self) -> Cow<'_, str>;

    fn title(&self) -> Cow<'_, str>;
}

/// The fine identity: a normalized program name and, where one is known, what
/// is open in the program. A subprogram that is present is not empty.
#[derive(Debug, Eq, Hash)]
pub struct ActiveProgram {
    pub program: String,
    pub subprogram: Option<String>,
}

/// The coarse identity: a normalized program name.
#[derive(Debug, Eq, Hash)]
pub struct Program {
    pub program: String,
}

/// What an `ActiveProgram` holds.
pub struct ActiveKey {
    pub program: Seq<char>,
    pub subprogram: Option<Seq<char>>,
}

/// Why a text is not the textual form of an `ActiveProgram`.
#[derive(Clone, Copy, Debug, PartialEq, Eq, Structural)]
pub enum ParseError {
    /// The text holds more than one bar.
    TooManyBars,
}

impl View for ActiveProgram {
    type V = ActiveKey;

    open spec fn view(&self) -> ActiveKey {
        ActiveKey { program: self.program@, subprogram: text_view(self.subprogram) }
    }
}

impl View for Program {
    type V = Seq<char>;

    open spec fn view(&self) -> Seq<char> {
        self.program@
    }
}

impl Clone for ActiveProgram {
    fn clone(&self) -> (copy: ActiveProgram)
        ensures
            copy@ == self@,
    {
        self.clone_key()
    }
}

impl Clone for Program {
    fn clone(&self) -> (copy: Program)
        ensures
            copy@ == self@,
    {
        self.clone_key()
    }
}

impl PartialEq for ActiveProgram {
    fn eq(&self, other: &Self) -> (same: bool) {
        self.same(other)
    }
}

impl PartialEqSpecImpl for ActiveProgram {
    open spec fn obeys_eq_spec() -> bool {
        true
    }

    open spec fn eq_spec(&self, other: &Self) -> bool {
        self@ == other@
    }
}

impl PartialEq for Program {
    fn eq(&self, other: &Self) -> (same: bool) {
        self.same(other)
    }
}

impl PartialEqSpecImpl for Program {
    open spec fn obeys_eq_spec() -> bool {
        true
    }

    open spec fn eq_spec(&self, other: &Self) -> bool {
        self@ == other@
    }
}

/// The bar that parts program and subprogram in the textual form.
pub open spec fn bar() -> Seq<char> {
    seq!['|']
}

/// No bar occurs in `s`.
pub open spec fn bar_free(s: Seq<char>) -> bool {
    forall|i: int| 0 <= i < s.len() ==> #[trigger] s[i] != '|'
}

/// The key is valid: a subprogram that is present is not empty.
pub open spec fn key_valid(key: ActiveKey) -> bool {
    key.subprogram matches Some(sub) ==> sub.len() > 0
}

/// The key can be told from its textual form: neither part holds a bar.
pub open spec fn key_bar_free(key: ActiveKey) -> bool {
    bar_free(key.program) && (key.subprogram matches Some(sub) ==> bar_free(sub))
}

/// The textual form of a key: the program alone, or the program, a bar and
/// the subprogram.
pub open spec fn spec_serialize(key: ActiveKey) -> Seq<char> {
    match key.subprogram {
        Some(sub) => key.program + bar() + sub,
        None => key.program,
    }
}

/// The key that a text stands for. Without a bar the text is the program;
/// with one bar the program stands before it and the subprogram behind it,
/// an empty one counting as absent; a text with more bars stands for no key.
pub open spec fn spec_deserialize(text: Seq<char>) -> Result<ActiveKey, ParseError> {
    match find_from(text, bar(), 0) {
        None => Ok(ActiveKey { program: text, subprogram: None }),
        Some(at) => if find_from(text, bar(), at + 1) is None {
            Ok(ActiveKey { program: text.take(at), subprogram: present(text.skip(at + 1)) })
        } else {
            Err(ParseError::TooManyBars)
        },
    }
}

/// The identity of a window with the raw process name `program` and the
/// title `title`.
pub open spec fn spec_active_key(program: Seq<char>, title: Seq<char>) -> ActiveKey {
    ActiveKey {
        program: spec_normalize(program),
        subprogram: spec_predict_subprogram(program, title),
    }
}

/// The text that `text` borrows or owns.
pub fn text_in<'a>(text: &'a Cow<'_, str>) -> (s: &'a str)
    ensures
        s@ == text@,
{
    match text {
        Cow::Borrowed(borrowed) => borrowed,
        Cow::Owned(owned) => owned.as_str(),
    }
}

impl ParseError {
    /// The error in words.
    pub fn message(&self) -> (text: String)
        ensures
            text@ == "couldn't parse ActiveProgram: string contains more than one bar symbol |"@,
    {
        "couldn't parse ActiveProgram: string contains more than one bar symbol |".to_owned()
    }
}

impl ActiveProgram {
    /// Whether the key is valid.
    pub open spec fn wf(&self) -> bool {
        key_valid(self@)
    }

    /// The fine identity of a window with the raw process name `program` and
    /// the title `title`.
    pub fn of_window(program: &str, title: &str) -> (key: ActiveProgram)
        ensures
            key@ == spec_active_key(program@, title@),
            key.wf(),
    {
        let subprogram = predict_subprogram(program, title);
        let name = normalize(program);
        ActiveProgram { program: text_in(&name).to_owned(), subprogram }
    }

    /// The textual form of the key.
    pub fn serialize(&self) -> (text: String)
        ensures
            text@ == spec_serialize(self@),
    {
        let mut out = chars_of(self.program.as_str());
        match &self.subprogram {
            Some(sub) => {
                out.push('|');
                let more = chars_of(sub.as_str());
                append(&mut out, &more);
            },
            None => {},
        }
        text_of(&out)
    }

    /// The key that `text` stands for.
    pub fn deserialize(text: &str) -> (r: Result<ActiveProgram, ParseError>)
        ensures
            match r {
                Ok(key) => spec_deserialize(text@) == Ok::<ActiveKey, ParseError>(key@) && key.wf()
                    && key_bar_free(key@),
                Err(e) => spec_deserialize(text@) == Err::<ActiveKey, ParseError>(e),
            },
    {
        let all = chars_of(text);
        let sep: Vec<char> = vec!['|'];
        assert(sep@ == bar());
        match find(&all, &sep, 0) {
            None => {
                proof {
                    lemma_find_none_bar_free(all@, 0);
                    assert(all@.skip(0) == all@);
                }
                Ok(ActiveProgram { program: text_of(&all), subprogram: None })
            },
            Some(at) => {
                proof {
                    lemma_find_from(all@, sep@, 0);
                    assert(occurs_at(all@, sep@, at as int));
                    assert(at < all.len());
                }
                match find(&all, &sep, at + 1) {
                    None => {
                        let program = slice(&all, 0, at);
                        let sub = slice(&all, at + 1, all.len());
                        proof {
                            lemma_find_none_bar_free(all@, at + 1);
                            lemma_before_first_bar(all@, at as int);
                        }
                        let subprogram = if sub.len() == 0 {
                            None
                        } else {
                            Some(text_of(&sub))
                        };
                        Ok(ActiveProgram { program: text_of(&program), subprogram })
                    },
                    Some(_) => Err(ParseError::TooManyBars),
                }
            },
        }
    }
}

impl Key for ActiveProgram {
    type Id = ActiveKey;

    open spec fn id(&self) -> ActiveKey {
        self@
    }

    fn same(&self, other: &Self) -> (b: bool) {
        if !(self.program == other.program) {
            return false;
        }
        match &self.subprogram {
            None => other.subprogram.is_none(),
            Some(mine) => match &other.subprogram {
                None => false,
                Some(theirs) => *mine == *theirs,
            },
        }
    }

    fn clone_key(&self) -> (copy: Self) {
        ActiveProgram {
            program: self.program.clone(),
            subprogram: match &self.subprogram {
                Some(sub) => Some(sub.clone()),
                None => None,
            },
        }
    }
}

impl Key for Program {
    type Id = Seq<char>;

    open spec fn id(&self) -> Seq<char> {
        self@
    }

    fn same(&self, other: &Self) -> (b: bool) {
        self.program == other.program
    }

    fn clone_key(&self) -> (copy: Self) {
        Program { program: self.program.clone() }
    }
}

impl Program {
    /// The coarse identity of a window with the raw process name `program`.
    pub fn of_process(program: &str) -> (key: Program)
        ensures
            key@ == spec_normalize(program@),
    {
        let name = normalize(program);
        Program { program: text_in(&name).to_owned() }
    }
}

impl<T: RawWindowData> From<T> for ActiveProgram {
    /// The fine identity of the window `item`: that of the process name and
    /// the title that `item` reports.
    fn from(item: T) -> (key: ActiveProgram)
        ensures
            key.wf(),
            exists|program: Cow<'_, str>, title: Cow<'_, str>|
                call_ensures(T::program, (&item,), program) && call_ensures(
                    T::title,
                    (&item,),
                    title,
                ) && key@ == spec_active_key(program@, title@),
    {
        let program = item.program();
        let title = item.title();
        ActiveProgram::of_window(text_in(&program), text_in(&title))
    }
}

/// What `from` gives is stated by `from` itself, over what the window
/// reports: no value is named here.
impl<T: RawWindowData> FromSpecImpl<T> for ActiveProgram {
    open spec fn obeys_from_spec() -> bool {
        false
    }

    open spec fn from_spec(item: T) -> ActiveProgram {
        arbitrary()
    }
}

impl<T: RawWindowData> From<T> for Program {
    /// The coarse identity of the window `item`: that of the process name
    /// that `item` reports.
    fn from(item: T) -> (key: Program)
        ensures
            exists|program: Cow<'_, str>|
                call_ensures(T::program, (&item,), program) && key@ == spec_normalize(program@),
    {
        let program = item.program();
        Program::of_process(text_in(&program))
    }
}

/// What `from` gives is stated by `from` itself, over what the window
/// reports: no value is named here.
impl<T: RawWindowData> FromSpecImpl<T> for Program {
    open spec fn obeys_from_spec() -> bool {
        false
    }

    open spec fn from_spec(item: T) -> Program {
        arbitrary()
    }
}

} // verus!
