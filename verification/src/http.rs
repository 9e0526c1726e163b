//! What a device reports: usage batches and its own description.

use crate::key::{ActiveKey, ActiveProgram, Program};
use crate::scan::append;
use crate::table::{Stored, Table};
use crate::tally::Tally;
use crate::text::{chars_of, text_of, text_view};
use vstd::prelude::*;

verus! {

/// The identifier of a device, chosen by the client.
pub type DeviceID = u16;

/// One report of a device: the seconds counted since its last report.
pub struct Add {
    pub device: DeviceID,
    pub active: Tally<ActiveProgram>,
    pub open: Tally<Program>,
}

/// What an `Add` holds.
pub struct Batch {
    pub device: DeviceID,
    pub active: Map<ActiveKey, nat>,
    pub open: Map<Seq<char>, nat>,
}

/// The class of a device.
#[derive(Clone, Copy, Debug, PartialEq, Eq, Structural)]
pub enum DeviceType {
    Desktop,
    Laptop,
    Phone,
    Tablet,
    Other,
}

/// The description of a device.
pub struct DeviceData {
    pub type_: DeviceType,
    pub os: String,
    pub distro: Option<String>,
}

/// What a `DeviceData` holds.
pub struct DeviceInfo {
    pub type_: DeviceType,
    pub os: Seq<char>,
    pub distro: Option<Seq<char>>,
}

/// A device and its description.
pub struct Device {
    pub id: DeviceID,
    pub data: DeviceData,
}

impl View for Add {
    type V = Batch;

    open spec fn view(&self) -> Batch {
        Batch { device: self.device, active: self.active@, open: self.open@ }
    }
}

impl View for DeviceData {
    type V = DeviceInfo;

    open spec fn view(&self) -> DeviceInfo {
        DeviceInfo { type_: self.type_, os: self.os@, distro: text_view(self.distro) }
    }
}

/// How a device is shown: its system, followed by a colon and its
/// distribution where it has one.
pub open spec fn spec_describe(info: DeviceInfo) -> Seq<char> {
    match info.distro {
        Some(distro) => info.os + ": "@ + distro,
        None => info.os,
    }
}

impl Add {
    /// The report of `device` in which nothing is counted yet.
    pub fn new(device: DeviceID) -> (add: Add)
        ensures
            add@ == (Batch {
                device,
                active: Map::<ActiveKey, nat>::empty(),
                open: Map::<Seq<char>, nat>::empty(),
            }),
    {
        Add { device, active: Table::new(), open: Table::new() }
    }

}

impl Clone for Add {
    fn clone(&self) -> (copy: Add)
        ensures
            copy@ == self@,
    {
        Add { device: self.device, active: self.active.clone(), open: self.open.clone() }
    }
}

impl Clone for DeviceData {
    fn clone(&self) -> (copy: DeviceData)
        ensures
            copy@ == self@,
    {
        DeviceData {
            type_: self.type_,
            os: self.os.clone(),
            distro: match &self.distro {
                Some(distro) => Some(distro.clone()),
                None => None,
            },
        }
    }
}

impl Clone for Device {
    fn clone(&self) -> (copy: Device)
        ensures
            copy.id == self.id,
            copy.data@ == self.data@,
    {
        Device { id: self.id, data: self.data.clone() }
    }
}

impl Default for DeviceType {
    fn default() -> (kind: DeviceType)
        ensures
            kind == DeviceType::Other,
    {
        DeviceType::Other
    }
}

impl Default for DeviceData {
    fn default() -> (data: DeviceData)
        ensures
            data@ == (DeviceInfo {
                type_: DeviceType::Other,
                os: Seq::<char>::empty(),
                distro: None,
            }),
    {
        DeviceData { type_: DeviceType::Other, os: String::new(), distro: None }
    }
}

impl DeviceData {
    /// The description of a laptop that runs the Linux distribution
    /// `distro`.
    pub fn linux_laptop(distro: String) -> (data: DeviceData)
        ensures
            data@ == (DeviceInfo {
                type_: DeviceType::Laptop,
                os: "Linux"@,
                distro: Some(distro@),
            }),
    {
        DeviceData { type_: DeviceType::Laptop, os: "Linux".to_owned(), distro: Some(distro) }
    }

    /// How the device is shown.
    pub fn describe(&self) -> (text: String)
        ensures
            text@ == spec_describe(self@),
    {
        let mut out = chars_of(self.os.as_str());
        match &self.distro {
            Some(distro) => {
                let colon = chars_of(": ");
                append(&mut out, &colon);
                let more = chars_of(distro.as_str());
                append(&mut out, &more);
            },
            None => {},
        }
        text_of(&out)
    }
}

impl Stored for DeviceData {
    type Model = DeviceInfo;

    open spec fn model(&self) -> DeviceInfo {
        self@
    }

    fn clone_value(&self) -> (copy: Self) {
        self.clone()
    }
}

} // verus!
