//! Desktop activity tracking: classification of windows into program and
//! subprogram identities, and aggregation of per-program time into daily
//! usage totals.
//!
//! A client counts, once per tick, the windows that are open and the one
//! that is focused ([`client`]), as the window backend describes them
//! ([`xprop`]), under identities that [`normalize`] and [`classify`] derive
//! from the raw process name and window title ([`key`]).
//! A server merges the reports of all devices into the store of the day
//! ([`store`]), which [`rotation`] flushes and renews at the day's end,
//! under the name that [`date`] gives the day. What is shown of a day is
//! put together in [`report`].

pub mod classify;
pub mod client;
pub mod date;
pub mod http;
pub mod key;
pub mod key_laws;
pub mod normalize;
pub mod normalize_laws;
pub mod report;
pub mod rotation;
pub mod scan;
pub mod scan_laws;
pub mod store;
pub mod store_laws;
pub mod table;
pub mod tally;
pub mod text;
pub mod xprop;

pub use classify::predict_subprogram;
pub use key::{ActiveProgram, Program, RawWindowData};
pub use normalize::normalize;
