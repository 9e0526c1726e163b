//! The rotation manager: the live store of one calendar day, what is flushed
//! of it on each tick of the timer, and when a fresh day begins.

use crate::date::Date;
use crate::http::{Add, Batch, Device, DeviceInfo};
use crate::store::{
    spec_merge_usage, spec_set_device_info, usage_fits, Store, UserData, UserState,
};
use vstd::prelude::*;

verus! {

/// What can go wrong between the manager and the snapshot store.
#[derive(Clone, Copy, Debug, PartialEq, Eq, Structural)]
pub enum PersistenceError {
    /// There is no snapshot for the date asked for.
    LoadNotFound,
    /// The snapshot for the date asked for cannot be read back.
    LoadCorrupt,
    /// The snapshot could not be written.
    WriteFailure,
}

/// The live state: the store of the day `date`.
pub struct LiveStore {
    date: Date,
    store: Store,
}

/// A full copy of the state of one day, to be written under its date.
pub struct Snapshot {
    pub date: Date,
    pub store: Store,
}

/// What a `LiveStore` or a `Snapshot` holds.
pub struct Dated {
    pub date: Date,
    pub store: Map<Seq<char>, UserState>,
}

impl View for LiveStore {
    type V = Dated;

    closed spec fn view(&self) -> Dated {
        Dated { date: self.date, store: self.store@ }
    }
}

impl View for Snapshot {
    type V = Dated;

    open spec fn view(&self) -> Dated {
        Dated { date: self.date, store: self.store@ }
    }
}

/// The empty state of the day `date`.
pub open spec fn fresh(date: Date) -> Dated {
    Dated { date, store: Map::empty() }
}

/// The state that a process starts with on the day `today`: what was loaded
/// for that day, and the empty state where there was nothing to load. A
/// snapshot that cannot be read back is fatal.
pub open spec fn spec_cold_start(today: Date, loaded: Result<Map<Seq<char>, UserState>, PersistenceError>)
    -> Result<Dated, PersistenceError> {
    match loaded {
        Ok(store) => Ok(Dated { date: today, store }),
        Err(PersistenceError::LoadNotFound) => Ok(fresh(today)),
        Err(e) => Err(e),
    }
}

/// The state after a tick of the timer on the day `today`, given how the
/// flush of that tick went. After a flush that was written the state is kept
/// while the day is the same, and gives way to the empty state of the new
/// day once the date has changed. After a flush that failed nothing changes,
/// so the next tick flushes the same state again.
pub open spec fn spec_finish_tick(live: Dated, flushed: Result<(), PersistenceError>, today: Date)
    -> Dated {
    if flushed is Ok && today != live.date {
        fresh(today)
    } else {
        live
    }
}

impl PersistenceError {
    /// Whether a process cannot go on after this error. Only a snapshot that
    /// cannot be read back is fatal.
    pub fn is_fatal(&self) -> (fatal: bool)
        ensures
            fatal == (*self == PersistenceError::LoadCorrupt),
    {
        match self {
            PersistenceError::LoadCorrupt => true,
            _ => false,
        }
    }
}

impl LiveStore {
    /// The state that a process starts with on the day `today`, given what
    /// loading the snapshot of that day gave.
    pub fn cold_start(today: Date, loaded: Result<Store, PersistenceError>) -> (r: Result<
        LiveStore,
        PersistenceError,
    >)
        ensures
            match r {
                Ok(live) => spec_cold_start(
                    today,
                    match loaded {
                        Ok(store) => Ok(store@),
                        Err(e) => Err(e),
                    },
                ) == Ok::<Dated, PersistenceError>(live@),
                Err(e) => loaded == Err::<Store, PersistenceError>(e) && e
                    != PersistenceError::LoadNotFound,
            },
    {
        match loaded {
            Ok(store) => Ok(LiveStore { date: today, store }),
            Err(PersistenceError::LoadNotFound) => Ok(LiveStore { date: today, store: Store::new() }),
            Err(e) => Err(e),
        }
    }

    /// The day whose state this is.
    pub fn date(&self) -> (date: Date)
        ensures
            date == self@.date,
    {
        self.date
    }

    /// Whether `batch` can be merged into the state of `account` without a
    /// count leaving the range of `u32`.
    pub fn can_merge_usage(&self, account: &str, batch: &Add) -> (b: bool)
        ensures
            b == usage_fits(self@.store, account@, batch@),
    {
        self.store.can_merge_usage(account, batch)
    }

    /// Merges `batch` into the state that `account` has on the live day.
    pub fn merge_usage(&mut self, account: &str, batch: &Add)
        requires
            usage_fits(old(self)@.store, account@, batch@),
        ensures
            final(self)@ == (Dated {
                date: old(self)@.date,
                store: spec_merge_usage(old(self)@.store, account@, batch@),
            }),
    {
        self.store.merge_usage(account, batch);
    }

    /// Sets the description of a device of `account`.
    pub fn set_device_info(&mut self, account: &str, device: Device)
        ensures
            final(self)@ == (Dated {
                date: old(self)@.date,
                store: spec_set_device_info(old(self)@.store, account@, device.id, device.data@),
            }),
    {
        self.store.set_device_info(account, device);
    }

    /// A copy of the state that `account` has on the live day.
    pub fn read_account(&self, account: &str) -> (user: Option<UserData>)
        ensures
            match user {
                Some(user) => self@.store.contains_key(account@) && user@
                    == self@.store[account@],
                None => !self@.store.contains_key(account@),
            },
    {
        self.store.read_account(account)
    }

    /// What a tick of the timer flushes: a full copy of the live state,
    /// under the date it was started under.
    pub fn snapshot(&self) -> (flush: Snapshot)
        ensures
            flush@ == self@,
    {
        Snapshot { date: self.date, store: self.store.clone() }
    }

    /// Ends a tick of the timer on the day `today`, after its flush was
    /// attempted. Tells whether a fresh day has begun.
    pub fn finish_tick(&mut self, flushed: Result<(), PersistenceError>, today: Date) -> (rotated:
        bool)
        ensures
            final(self)@ == spec_finish_tick(old(self)@, flushed, today),
            rotated == (flushed is Ok && today != old(self)@.date),
    {
        if flushed.is_ok() && today != self.date {
            self.date = today;
            self.store = Store::new();
            true
        } else {
            false
        }
    }
}

/// Rotation is a hard cut. Where the date has changed, a tick flushes the
/// state of the old day once, under the old date and with all that was
/// counted, and leaves the empty state of the new day; a batch merged after
/// that is counted from nothing, under the new date.
pub proof fn lemma_rotation(
    live: Dated,
    today: Date,
    account: Seq<char>,
    batch: Batch,
)
    requires
        today != live.date,
    ensures
        spec_finish_tick(live, Ok(()), today) == fresh(today),
        spec_merge_usage(spec_finish_tick(live, Ok(()), today).store, account, batch)
            == spec_merge_usage(Map::empty(), account, batch),
        forall|other: Seq<char>|
            other != account ==> !spec_merge_usage(
                spec_finish_tick(live, Ok(()), today).store,
                account,
                batch,
            ).contains_key(other),
{
}

/// A tick on the day that the live state was started under, or one whose
/// flush failed, leaves the live state as it is.
pub proof fn lemma_no_rotation(live: Dated, flushed: Result<(), PersistenceError>, today: Date)
    requires
        today == live.date || flushed is Err,
    ensures
        spec_finish_tick(live, flushed, today) == live,
{
}

} // verus!
