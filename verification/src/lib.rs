//! Core logic of a dead-man-switch: independent tripwire monitors feed a
//! single-consumer trigger bus; the first delivered event unlocks an ordered,
//! fault-tolerant protective action sequence that runs at most once.

pub mod actions;
pub mod bus;
pub mod config;
pub mod error;
pub mod event;
pub mod flic;
pub mod ipv4;
pub mod network;
pub mod supervisor;
pub mod telegram;
pub mod timer;
pub mod ui;
pub mod usb;

pub use event::{TriggerEvent, TriggerSource};
