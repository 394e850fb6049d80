//! The shared vocabulary of trigger sources and trigger events.

use vstd::prelude::*;

verus! {

/// Which monitor observed its activation condition.
#[derive(Clone, Copy, Debug, PartialEq, Eq, Structural)]
pub enum TriggerSource {
    Network,
    Telegram,
    Usb,
    Flic,
    Timer,
}

/// An immutable record of one monitor firing: the source and the moment it
/// was observed, in milliseconds of wall-clock time.
#[derive(Clone, Copy, Debug, PartialEq, Eq, Structural)]
pub struct TriggerEvent {
    pub source: TriggerSource,
    pub timestamp: u64,
}

/// Relies on std's `SystemTime::now`: the current wall-clock time, here
/// converted to whole milliseconds since the epoch (0 if the clock reads
/// before the epoch). Nothing is promised of the value: it depends on the
/// machine's clock.
#[verifier::external_body]
pub(crate) fn now_millis() -> u64 {
    match std::time::SystemTime::now().duration_since(std::time::UNIX_EPOCH) {
        Ok(d) => d.as_millis() as u64,
        Err(_) => 0,
    }
}

impl TriggerEvent {
    /// Record that `source` fired, stamped with the current time.
    pub fn new(source: TriggerSource) -> (r: TriggerEvent)
        ensures
            r.source == source,
    {
        TriggerEvent { source, timestamp: now_millis() }
    }

    /// Record that `source` fired at the given time; lets a caller that
    /// already sampled the clock build the event deterministically.
    pub fn new_at(source: TriggerSource, timestamp: u64) -> (r: TriggerEvent)
        ensures
            r.source == source,
            r.timestamp == timestamp,
    {
        TriggerEvent { source, timestamp }
    }
}

} // verus!
