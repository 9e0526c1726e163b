//! What is shown of a day: the focused time of each program with the
//! subprograms seen in it, and the lines of the log.

use crate::key::{ActiveKey, ActiveProgram};
use crate::scan::append;
use crate::table::{Key, Stored, Table};
use crate::tally::Tally;
use crate::text::{chars_of, text_of};
use vstd::prelude::*;

verus! {

/// The focused time of one program, over all that was open in it.
pub struct ProgramUsage {
    pub seconds: u32,
    pub subprograms: Vec<String>,
}

/// What a `ProgramUsage` holds.
pub struct Usage {
    pub seconds: nat,
    pub subprograms: Seq<Seq<char>>,
}

/// The texts that a list of strings holds.
pub open spec fn texts(list: Seq<String>) -> Seq<Seq<char>> {
    Seq::new(list.len(), |i: int| list[i]@)
}

impl View for ProgramUsage {
    type V = Usage;

    open spec fn view(&self) -> Usage {
        Usage { seconds: self.seconds as nat, subprograms: texts(self.subprograms@) }
    }
}

impl Stored for ProgramUsage {
    type Model = Usage;

    open spec fn model(&self) -> Usage {
        self@
    }

    fn clone_value(&self) -> (copy: Self) {
        let mut subprograms: Vec<String> = Vec::new();
        let mut i: usize = 0;
        while i < self.subprograms.len()
            invariant
                i <= self.subprograms.len(),
                subprograms@.len() == i,
                forall|j: int| 0 <= j < i ==> subprograms@[j]@ == self.subprograms@[j]@,
            decreases self.subprograms.len() - i,
        {
            subprograms.push(self.subprograms[i].clone());
            i += 1;
        }
        assert(texts(subprograms@) =~= texts(self.subprograms@));
        ProgramUsage { seconds: self.seconds, subprograms }
    }
}

/// The usage of `program` in `summary`: none where it has no entry.
pub open spec fn usage_of(summary: Map<Seq<char>, Usage>, program: Seq<char>) -> Usage {
    if summary.contains_key(program) {
        summary[program]
    } else {
        Usage { seconds: 0, subprograms: Seq::empty() }
    }
}

/// `summary` with the seconds of one fine identity added to its program, and
/// its subprogram, where it has one, added to those of the program.
pub open spec fn with_entry(summary: Map<Seq<char>, Usage>, key: ActiveKey, secs: nat) -> Map<
    Seq<char>,
    Usage,
> {
    let held = usage_of(summary, key.program);
    summary.insert(
        key.program,
        Usage {
            seconds: held.seconds + secs,
            subprograms: match key.subprogram {
                Some(sub) => held.subprograms.push(sub),
                None => held.subprograms,
            },
        },
    )
}

/// The focused time per program: the entries of `tally` for the fine
/// identities `ids`, taken in that order, added up by program.
pub open spec fn summary_of(ids: Seq<ActiveKey>, tally: Map<ActiveKey, nat>) -> Map<
    Seq<char>,
    Usage,
>
    decreases ids.len(),
{
    if ids.len() == 0 {
        Map::empty()
    } else {
        with_entry(summary_of(ids.drop_last(), tally), ids.last(), tally[ids.last()])
    }
}

/// The seconds of every program of `summary` fit a `u32`.
pub open spec fn summary_fits(summary: Map<Seq<char>, Usage>) -> bool {
    forall|program: Seq<char>|
        summary.contains_key(program) ==> (#[trigger] summary[program]).seconds <= u32::MAX
}

/// A summary only grows: what the first `n` entries give for a program, all
/// entries give too, with at least as many seconds.
pub proof fn lemma_summary_grows(ids: Seq<ActiveKey>, tally: Map<ActiveKey, nat>, n: int)
    requires
        0 <= n <= ids.len(),
    ensures
        forall|program: Seq<char>|
            summary_of(ids.take(n), tally).contains_key(program) ==> #[trigger] summary_of(
                ids,
                tally,
            ).contains_key(program) && summary_of(ids.take(n), tally)[program].seconds
                <= summary_of(ids, tally)[program].seconds,
    decreases ids.len() - n,
{
    if n == ids.len() {
        assert(ids.take(n) == ids);
    } else {
        lemma_summary_grows(ids, tally, n + 1);
        assert(ids.take(n + 1).drop_last() == ids.take(n));
    }
}

/// The focused time per program of one device, with the subprograms seen in
/// each program; nothing where the seconds of a program do not fit a `u32`.
pub fn active_summary(active: &Tally<ActiveProgram>) -> (r: Option<Table<String, ProgramUsage>>)
    ensures
        r is Some <==> summary_fits(summary_of(active.ids(), active@)),
        r matches Some(summary) ==> summary@ == summary_of(active.ids(), active@),
{
    let mut summary: Table<String, ProgramUsage> = Table::new();
    let n = active.len();
    let ghost ids = active.ids();
    let mut i: usize = 0;
    assert(ids.take(0) == Seq::<ActiveKey>::empty());
    while i < n
        invariant
            i <= n,
            n == ids.len(),
            ids == active.ids(),
            summary@ == summary_of(ids.take(i as int), active@),
        decreases n - i,
    {
        let key = active.key_at(i);
        let secs = *active.value_at(i);
        let ghost before = summary@;
        proof {
            assert(ids.take(i + 1).drop_last() == ids.take(i as int));
            assert(ids.take(i + 1).last() == key.id());
            lemma_summary_grows(ids, active@, i + 1);
        }
        let ghost next = summary_of(ids.take(i + 1), active@);
        let mut usage = match summary.remove(&key.program) {
            Some(usage) => usage,
            None => ProgramUsage { seconds: 0, subprograms: Vec::new() },
        };
        assert(usage@ == usage_of(before, key.program@)) by {
            assert(texts(usage.subprograms@) =~= usage_of(before, key.program@).subprograms);
        }
        if secs > u32::MAX - usage.seconds {
            proof {
                let all = summary_of(ids, active@);
                assert(next.contains_key(key.program@));
                assert(next[key.program@].seconds > u32::MAX);
                assert(all.contains_key(key.program@));
                assert(all[key.program@].seconds > u32::MAX);
            }
            return None;
        }
        usage.seconds = usage.seconds + secs;
        match &key.subprogram {
            Some(sub) => {
                let ghost had = texts(usage.subprograms@);
                usage.subprograms.push(sub.clone());
                assert(texts(usage.subprograms@) =~= had.push(sub@));
            },
            None => {},
        }
        summary.insert(key.program.clone(), usage);
        assert(summary@ =~= next);
        i += 1;
    }
    proof {
        assert(ids.take(n as int) == ids);
        assert forall|program: Seq<char>| summary@.contains_key(program) implies (
        #[trigger] summary@[program]).seconds <= u32::MAX by {
            summary.lemma_value_stored(program);
        }
    }
    Some(summary)
}

/// The name of the severity `level`: information for 0, a warning for 1, and
/// an error for anything above.
pub open spec fn severity_name(level: u8) -> Seq<char> {
    if level == 0 {
        "INFO"@
    } else if level == 1 {
        "WARN"@
    } else {
        "ERROR"@
    }
}

/// The colour code that stands before the name of the severity `level`.
pub open spec fn severity_colour(level: u8) -> Seq<char> {
    if level == 0 {
        "\033[34m"@
    } else if level == 1 {
        "\033[33m"@
    } else {
        "\033[31m"@
    }
}

/// A line of the log: the name of the severity in its colour, between square
/// brackets, then a colon and the text.
pub open spec fn spec_log_line(level: u8, text: Seq<char>) -> Seq<char> {
    "["@ + severity_colour(level) + severity_name(level) + "\033[0m]: "@ + text
}

/// The line that the log holds for `text` at the severity `level`.
pub fn log_line(level: u8, text: &str) -> (line: String)
    ensures
        line@ == spec_log_line(level, text@),
{
    let name = if level == 0 {
        "INFO"
    } else if level == 1 {
        "WARN"
    } else {
        "ERROR"
    };
    let colour = if level == 0 {
        "\033[34m"
    } else if level == 1 {
        "\033[33m"
    } else {
        "\033[31m"
    };
    let mut out = chars_of("[");
    append(&mut out, &chars_of(colour));
    append(&mut out, &chars_of(name));
    append(&mut out, &chars_of("\033[0m]: "));
    append(&mut out, &chars_of(text));
    text_of(&out)
}

} // verus!
