//! The aggregation store: for each account the devices that reported, and
//! per device the seconds counted today.

use crate::http::{Add, Batch, Device, DeviceData, DeviceID, DeviceInfo};
use crate::key::{ActiveKey, ActiveProgram, Program};
use crate::table::{Stored, Table};
use crate::tally::{absorb, in_range, merged, sums_fit, Tally};
use vstd::prelude::*;

verus! {

/// The seconds counted for one device: per fine identity while focused, and
/// per program while open.
pub struct MonitorData {
    pub active: Tally<ActiveProgram>,
    pub open: Tally<Program>,
}

/// What a `MonitorData` holds.
pub struct Totals {
    pub active: Map<ActiveKey, nat>,
    pub open: Map<Seq<char>, nat>,
}

/// What is known of one account: the descriptions of its devices, and the
/// totals of each device that has reported usage. A device may have totals
/// without a description.
pub struct UserData {
    pub devices: Table<DeviceID, DeviceData>,
    pub monitor: Table<DeviceID, MonitorData>,
}

/// What a `UserData` holds.
pub struct UserState {
    pub devices: Map<DeviceID, DeviceInfo>,
    pub monitor: Map<DeviceID, Totals>,
}

/// The accounts seen today, each with its state.
pub struct Store {
    accounts: Table<String, UserData>,
}

impl View for MonitorData {
    type V = Totals;

    open spec fn view(&self) -> Totals {
        Totals { active: self.active@, open: self.open@ }
    }
}

impl View for UserData {
    type V = UserState;

    open spec fn view(&self) -> UserState {
        UserState { devices: self.devices@, monitor: self.monitor@ }
    }
}

impl View for Store {
    type V = Map<Seq<char>, UserState>;

    closed spec fn view(&self) -> Map<Seq<char>, UserState> {
        self.accounts@
    }
}

/// Totals in which nothing is counted.
pub open spec fn no_totals() -> Totals {
    Totals { active: Map::empty(), open: Map::empty() }
}

/// The state of an account of which nothing is known.
pub open spec fn no_user() -> UserState {
    UserState { devices: Map::empty(), monitor: Map::empty() }
}

/// The state of `account` in `store`: that of an unknown account where the
/// store has none.
pub open spec fn user_of(store: Map<Seq<char>, UserState>, account: Seq<char>) -> UserState {
    if store.contains_key(account) {
        store[account]
    } else {
        no_user()
    }
}

/// The totals of `device` in `user`: empty ones where it has none.
pub open spec fn totals_of(user: UserState, device: DeviceID) -> Totals {
    if user.monitor.contains_key(device) {
        user.monitor[device]
    } else {
        no_totals()
    }
}

/// `totals` with the counts of `batch` added entrywise.
pub open spec fn totals_with(totals: Totals, batch: Batch) -> Totals {
    Totals {
        active: merged(totals.active, batch.active),
        open: merged(totals.open, batch.open),
    }
}

/// The store after `batch` was merged into the state of `account`: the
/// counts of the batch are added to the totals of its device, and nothing
/// else changes. An account or a device not seen before starts from nothing.
pub open spec fn spec_merge_usage(
    store: Map<Seq<char>, UserState>,
    account: Seq<char>,
    batch: Batch,
) -> Map<Seq<char>, UserState> {
    let user = user_of(store, account);
    store.insert(
        account,
        UserState {
            devices: user.devices,
            monitor: user.monitor.insert(
                batch.device,
                totals_with(totals_of(user, batch.device), batch),
            ),
        },
    )
}

/// Every count that merging `batch` into the state of `account` gives fits a
/// `u32`.
pub open spec fn usage_fits(store: Map<Seq<char>, UserState>, account: Seq<char>, batch: Batch)
    -> bool {
    let totals = totals_of(user_of(store, account), batch.device);
    in_range(merged(totals.active, batch.active)) && in_range(merged(totals.open, batch.open))
}

/// The store after the description of a device of `account` was set: it
/// takes the place of an earlier one, and the totals stay as they are.
pub open spec fn spec_set_device_info(
    store: Map<Seq<char>, UserState>,
    account: Seq<char>,
    device: DeviceID,
    info: DeviceInfo,
) -> Map<Seq<char>, UserState> {
    let user = user_of(store, account);
    store.insert(
        account,
        UserState { devices: user.devices.insert(device, info), monitor: user.monitor },
    )
}

impl MonitorData {
    /// Totals in which nothing is counted.
    pub fn new() -> (totals: MonitorData)
        ensures
            totals@ == no_totals(),
    {
        MonitorData { active: Table::new(), open: Table::new() }
    }
}

impl Stored for MonitorData {
    type Model = Totals;

    open spec fn model(&self) -> Totals {
        self@
    }

    fn clone_value(&self) -> (copy: Self) {
        self.clone()
    }
}

impl Clone for MonitorData {
    fn clone(&self) -> (copy: MonitorData)
        ensures
            copy@ == self@,
    {
        MonitorData { active: self.active.clone(), open: self.open.clone() }
    }
}

impl UserData {
    /// The state of an account of which nothing is known.
    pub fn new() -> (user: UserData)
        ensures
            user@ == no_user(),
    {
        UserData { devices: Table::new(), monitor: Table::new() }
    }
}

impl Stored for UserData {
    type Model = UserState;

    open spec fn model(&self) -> UserState {
        self@
    }

    fn clone_value(&self) -> (copy: Self) {
        self.clone()
    }
}

impl Clone for UserData {
    fn clone(&self) -> (copy: UserData)
        ensures
            copy@ == self@,
    {
        UserData { devices: self.devices.clone(), monitor: self.monitor.clone() }
    }
}

impl Store {
    /// The store without accounts.
    pub fn new() -> (store: Store)
        ensures
            store@ == Map::<Seq<char>, UserState>::empty(),
    {
        Store { accounts: Table::new() }
    }

    /// Whether `batch` can be merged into the state of `account` without a
    /// count leaving the range of `u32`.
    pub fn can_merge_usage(&self, account: &str, batch: &Add) -> (b: bool)
        ensures
            b == usage_fits(self@, account@, batch@),
    {
        let name = account.to_owned();
        match self.accounts.get(&name) {
            Some(user) => match user.monitor.get(&batch.device) {
                Some(totals) => sums_fit(&totals.active, &batch.active) && sums_fit(
                    &totals.open,
                    &batch.open,
                ),
                None => {
                    let none = MonitorData::new();
                    sums_fit(&none.active, &batch.active) && sums_fit(&none.open, &batch.open)
                },
            },
            None => {
                let none = MonitorData::new();
                sums_fit(&none.active, &batch.active) && sums_fit(&none.open, &batch.open)
            },
        }
    }

    /// Merges `batch` into the state of `account`.
    pub fn merge_usage(&mut self, account: &str, batch: &Add)
        requires
            usage_fits(old(self)@, account@, batch@),
        ensures
            final(self)@ == spec_merge_usage(old(self)@, account@, batch@),
    {
        let ghost before = self@;
        let name = account.to_owned();
        let mut user = match self.accounts.remove(&name) {
            Some(user) => user,
            None => UserData::new(),
        };
        assert(user@ == user_of(before, account@));
        let ghost known = user@;
        let mut totals = match user.monitor.remove(&batch.device) {
            Some(totals) => totals,
            None => MonitorData::new(),
        };
        assert(totals@ == totals_of(known, batch.device));
        absorb(&mut totals.active, &batch.active);
        absorb(&mut totals.open, &batch.open);
        user.monitor.insert(batch.device, totals);
        assert(user.monitor@ =~= known.monitor.insert(
            batch.device,
            totals_with(totals_of(known, batch.device), batch@),
        ));
        self.accounts.insert(name, user);
        assert(self@ =~= spec_merge_usage(before, account@, batch@));
    }

    /// Sets the description of a device of `account`.
    pub fn set_device_info(&mut self, account: &str, device: Device)
        ensures
            final(self)@ == spec_set_device_info(old(self)@, account@, device.id, device.data@),
    {
        let ghost before = self@;
        let name = account.to_owned();
        let mut user = match self.accounts.remove(&name) {
            Some(user) => user,
            None => UserData::new(),
        };
        user.devices.insert(device.id, device.data);
        self.accounts.insert(name, user);
        assert(self@ =~= spec_set_device_info(before, account@, device.id, device.data@));
    }

    /// A copy of the state of `account`, if the store has one.
    pub fn read_account(&self, account: &str) -> (user: Option<UserData>)
        ensures
            match user {
                Some(user) => self@.contains_key(account@) && user@ == self@[account@],
                None => !self@.contains_key(account@),
            },
    {
        let name = account.to_owned();
        match self.accounts.get(&name) {
            Some(user) => Some(user.clone_value()),
            None => None,
        }
    }

    /// The accounts with their states, to be read one by one.
    pub fn accounts(&self) -> (held: &Table<String, UserData>)
        ensures
            held@ == self@,
    {
        &self.accounts
    }

    /// Takes `user` for the state of `account`, as when a snapshot is read
    /// back.
    pub fn restore_account(&mut self, account: &str, user: UserData)
        ensures
            final(self)@ == old(self)@.insert(account@, user@),
    {
        self.accounts.insert(account.to_owned(), user);
    }

}

impl Clone for Store {
    fn clone(&self) -> (copy: Store)
        ensures
            copy@ == self@,
    {
        Store { accounts: self.accounts.clone() }
    }
}

} // verus!
