//! The counting side: what one polling tick adds to the pending report, and
//! when the report is sent.

use crate::http::{Add, Batch, DeviceID};
use crate::key::{spec_active_key, ActiveKey, ActiveProgram, Program, RawWindowData};
use crate::normalize::spec_normalize;
use crate::table::Key;
use crate::tally::{add_seconds, count, in_range, seconds};
use std::borrow::Cow;
use vstd::prelude::*;

verus! {

/// What the window backend reports of one window: its raw process name and
/// its raw title.
#[derive(Debug)]
pub struct WindowInfo {
    pub program: String,
    pub title: String,
}

/// What a `WindowInfo` holds.
pub struct Window {
    pub program: Seq<char>,
    pub title: Seq<char>,
}

impl View for WindowInfo {
    type V = Window;

    open spec fn view(&self) -> Window {
        Window { program: self.program@, title: self.title@ }
    }
}

impl Clone for WindowInfo {
    fn clone(&self) -> (copy: WindowInfo)
        ensures
            copy@ == self@,
    {
        WindowInfo { program: self.program.clone(), title: self.title.clone() }
    }
}

impl RawWindowData for WindowInfo {
    fn program(&self) -> (name: Cow<'_, str>)
        ensures
            name@ == self.program@,
    {
        Cow::Borrowed(self.program.as_str())
    }

    fn title(&self) -> (title: Cow<'_, str>)
        ensures
            title@ == self.title@,
    {
        Cow::Borrowed(self.title.as_str())
    }
}

/// What the backend says of each window that is open during one tick: its
/// handle, and its description unless the backend leaves the window out.
pub open spec fn sightings(datas: Seq<(u32, Option<WindowInfo>)>) -> Seq<(u32, Option<Window>)> {
    Seq::new(
        datas.len(),
        |i: int|
            (
                datas[i].0,
                match datas[i].1 {
                    Some(info) => Some(info@),
                    None => None,
                },
            ),
    )
}

/// `tally` with one second more for `id`.
pub open spec fn bumped<Id>(tally: Map<Id, nat>, id: Id) -> Map<Id, nat> {
    tally.insert(id, count(tally, id) + 1)
}

/// What one window adds to a report: a second for its program, and, where it
/// is the focused window, a second for its fine identity. A window that the
/// backend leaves out adds nothing.
pub open spec fn with_window(batch: Batch, active_id: u32, id: u32, window: Option<Window>)
    -> Batch {
    match window {
        None => batch,
        Some(w) => Batch {
            device: batch.device,
            active: if id == active_id {
                bumped(batch.active, spec_active_key(w.program, w.title))
            } else {
                batch.active
            },
            open: bumped(batch.open, spec_normalize(w.program)),
        },
    }
}

/// What one tick adds to a report, given the handle of the focused window
/// and what the backend says of each open window.
pub open spec fn spec_add_data(batch: Batch, active_id: u32, seen: Seq<(u32, Option<Window>)>)
    -> Batch
    decreases seen.len(),
{
    if seen.len() == 0 {
        batch
    } else {
        with_window(
            spec_add_data(batch, active_id, seen.drop_last()),
            active_id,
            seen.last().0,
            seen.last().1,
        )
    }
}

/// Every count of the report after the tick fits a `u32`.
pub open spec fn add_data_fits(batch: Batch, active_id: u32, seen: Seq<(u32, Option<Window>)>)
    -> bool {
    in_range(spec_add_data(batch, active_id, seen).active) && in_range(
        spec_add_data(batch, active_id, seen).open,
    )
}

/// A tick only adds: what a report holds after a part of the windows was
/// counted, it still holds, or more, after all of them were.
pub proof fn lemma_add_data_grows(
    batch: Batch,
    active_id: u32,
    seen: Seq<(u32, Option<Window>)>,
    n: int,
)
    requires
        0 <= n <= seen.len(),
    ensures
        forall|id: ActiveKey|
            spec_add_data(batch, active_id, seen.take(n)).active.contains_key(id)
                ==> #[trigger] spec_add_data(batch, active_id, seen).active.contains_key(id)
                && spec_add_data(batch, active_id, seen.take(n)).active[id] <= spec_add_data(
                batch,
                active_id,
                seen,
            ).active[id],
        forall|id: Seq<char>|
            spec_add_data(batch, active_id, seen.take(n)).open.contains_key(id)
                ==> #[trigger] spec_add_data(batch, active_id, seen).open.contains_key(id)
                && spec_add_data(batch, active_id, seen.take(n)).open[id] <= spec_add_data(
                batch,
                active_id,
                seen,
            ).open[id],
    decreases seen.len() - n,
{
    if n == seen.len() {
        assert(seen.take(n) == seen);
    } else {
        lemma_add_data_grows(batch, active_id, seen, n + 1);
        assert(seen.take(n + 1).drop_last() == seen.take(n));
    }
}

/// A window that the backend leaves out contributes nothing to a tick,
/// focused or not: the report is the one that the tick gives without it.
pub proof fn lemma_excluded_window_adds_nothing(
    batch: Batch,
    active_id: u32,
    seen: Seq<(u32, Option<Window>)>,
    at: int,
)
    requires
        0 <= at < seen.len(),
        seen[at].1 is None,
    ensures
        spec_add_data(batch, active_id, seen) == spec_add_data(batch, active_id, seen.remove(at)),
    decreases seen.len(),
{
    if at == seen.len() - 1 {
        assert(seen.remove(at) == seen.drop_last());
    } else {
        lemma_excluded_window_adds_nothing(batch, active_id, seen.drop_last(), at);
        assert(seen.remove(at).drop_last() == seen.drop_last().remove(at));
        assert(seen.remove(at).last() == seen.last());
    }
}

/// Counts the windows of one tick into `target` as long as every count fits,
/// and tells whether all of them did.
fn count_windows(target: &mut Add, active_id: u32, datas: &Vec<(u32, Option<WindowInfo>)>) -> (done:
    bool)
    ensures
        done == add_data_fits(old(target)@, active_id, sightings(datas@)),
        done ==> final(target)@ == spec_add_data(old(target)@, active_id, sightings(datas@)),
{
    let ghost start = target@;
    let ghost seen = sightings(datas@);
    let mut i: usize = 0;
    assert(seen.take(0) == Seq::<(u32, Option<Window>)>::empty());
    while i < datas.len()
        invariant
            i <= datas.len(),
            seen == sightings(datas@),
            start == old(target)@,
            target@ == spec_add_data(start, active_id, seen.take(i as int)),
        decreases datas.len() - i,
    {
        let ghost before = target@;
        proof {
            assert(seen.take(i + 1).drop_last() == seen.take(i as int));
            assert(seen.take(i + 1).last() == seen[i as int]);
            lemma_add_data_grows(start, active_id, seen, i + 1);
        }
        let ghost next = spec_add_data(start, active_id, seen.take(i + 1));
        match &datas[i].1 {
            Some(info) => {
                if datas[i].0 == active_id {
                    let key = ActiveProgram::of_window(info.program.as_str(), info.title.as_str());
                    if seconds(&target.active, &key) == u32::MAX {
                        proof {
                            let all = spec_add_data(start, active_id, seen);
                            assert(next.active.contains_key(key.id()));
                            assert(next.active[key.id()] > u32::MAX);
                            assert(all.active.contains_key(key.id()));
                            assert(all.active[key.id()] > u32::MAX);
                        }
                        return false;
                    }
                    add_seconds(&mut target.active, &key, 1);
                }
                let key = Program::of_process(info.program.as_str());
                if seconds(&target.open, &key) == u32::MAX {
                    proof {
                        let all = spec_add_data(start, active_id, seen);
                        assert(next.open.contains_key(key.id()));
                        assert(next.open[key.id()] > u32::MAX);
                        assert(all.open.contains_key(key.id()));
                        assert(all.open[key.id()] > u32::MAX);
                    }
                    return false;
                }
                add_seconds(&mut target.open, &key, 1);
            },
            None => {},
        }
        assert(target@ == next);
        i += 1;
    }
    proof {
        assert(seen.take(datas.len() as int) == seen);
        assert forall|id: ActiveKey| target@.active.contains_key(id) implies (
        #[trigger] target@.active[id]) <= u32::MAX by {
            target.active.lemma_value_stored(id);
        }
        assert forall|id: Seq<char>| target@.open.contains_key(id) implies #[trigger] target@.open[id]
            <= u32::MAX by {
            target.open.lemma_value_stored(id);
        }
    }
    true
}

/// Whether the windows of one tick can be counted into `http_data` without a
/// count leaving the range of `u32`.
pub fn can_add_data(http_data: &Add, active_id: u32, datas: &Vec<(u32, Option<WindowInfo>)>) -> (b:
    bool)
    ensures
        b == add_data_fits(http_data@, active_id, sightings(datas@)),
{
    let mut trial = http_data.clone();
    count_windows(&mut trial, active_id, datas)
}

/// Counts the windows of one tick into the pending report: one second for
/// the program of each window that the backend describes, and one second for
/// the fine identity of the focused one.
pub fn add_data(http_data: &mut Add, active_id: u32, datas: &Vec<(u32, Option<WindowInfo>)>)
    requires
        add_data_fits(old(http_data)@, active_id, sightings(datas@)),
    ensures
        final(http_data)@ == spec_add_data(old(http_data)@, active_id, sightings(datas@)),
{
    count_windows(http_data, active_id, datas);
}

/// The address under which a device reaches the network.
pub enum LocalAddress {
    /// The four octets of an IPv4 address.
    V4([u8; 4]),
    /// The eight segments of an IPv6 address.
    V6([u16; 8]),
}

/// The identifier that a device takes from its address, where it was given
/// none: the last octet, or the last segment.
pub fn device_id_of(address: &LocalAddress) -> (id: DeviceID)
    ensures
        id == match *address {
            LocalAddress::V4(octets) => octets[3] as u16,
            LocalAddress::V6(segments) => segments[7],
        },
{
    match address {
        LocalAddress::V4(octets) => octets[3] as u16,
        LocalAddress::V6(segments) => segments[7],
    }
}

/// What a client does in one tick.
#[derive(Clone, Copy, Debug, PartialEq, Eq, Structural)]
pub struct Plan {
    /// Count the windows into the pending report.
    pub count: bool,
    /// Send the pending report, and start a new one.
    pub send_usage: bool,
    /// Send the description of the device.
    pub send_device: bool,
}

/// The clock of a client: the ticks counted so far, kept within one cycle of
/// 240.
pub struct Schedule {
    seconds: u32,
}

/// What is done in a tick at which the clock shows `seconds`: nothing while
/// the session is locked; else the windows are counted, the report is sent
/// every fifteenth tick, and the device is described every 120th.
pub open spec fn spec_plan(seconds: u32, locked: bool) -> Plan {
    if locked {
        Plan { count: false, send_usage: false, send_device: false }
    } else {
        Plan { count: true, send_usage: seconds % 15 == 1, send_device: seconds % 120 == 0 }
    }
}

/// What the clock shows after a tick: the same while the session is locked,
/// else one more, and 1 again after 240.
pub open spec fn spec_next_seconds(seconds: u32, locked: bool) -> u32 {
    if locked {
        seconds
    } else if seconds >= 240 {
        1
    } else {
        (seconds + 1) as u32
    }
}

impl Schedule {
    #[verifier::type_invariant]
    spec fn within_cycle(&self) -> bool {
        self.seconds <= 240
    }

    /// What the clock shows.
    pub closed spec fn seconds(&self) -> u32 {
        self.seconds
    }

    /// The clock of a client that starts.
    pub fn new() -> (schedule: Schedule)
        ensures
            schedule.seconds() == 0,
    {
        Schedule { seconds: 0 }
    }

    /// One tick: says what to do in it, and moves the clock on.
    pub fn step(&mut self, locked: bool) -> (plan: Plan)
        ensures
            plan == spec_plan(old(self).seconds(), locked),
            final(self).seconds() == spec_next_seconds(old(self).seconds(), locked),
    {
        proof {
            use_type_invariant(&*self);
        }
        if locked {
            return Plan { count: false, send_usage: false, send_device: false };
        }
        let plan = Plan {
            count: true,
            send_usage: self.seconds % 15 == 1,
            send_device: self.seconds % 120 == 0,
        };
        if self.seconds >= 240 {
            self.seconds = 1;
        } else {
            self.seconds = self.seconds + 1;
        }
        plan
    }
}

} // verus!
