//! The physical-button monitor: a paired external button reports press
//! events by kind; only a long press (hold) fires — a short or double
//! click never does.
//!
//! Pairing and the event channel stay outside; each press event's kind is
//! handed in here and the decision is made by this state machine.

use vstd::prelude::*;

verus! {

/// The kind of a reported button press.
#[derive(Clone, Copy, Debug, PartialEq, Eq, Structural)]
pub enum PressKind {
    SingleClick,
    DoubleClick,
    Hold,
}

pub struct FlicMonitor {
    fired: bool,
}

impl FlicMonitor {
    /// Whether the monitor has already fired (it fires at most once).
    pub closed spec fn has_fired(&self) -> bool {
        self.fired
    }

    pub fn new() -> (r: FlicMonitor)
        ensures
            !r.has_fired(),
    {
        FlicMonitor { fired: false }
    }

    /// One reported press. Fires exactly when the press is a hold and the
    /// monitor has not already fired: clicks never fire, and the monitor
    /// fires at most once over its lifetime.
    pub fn on_press(&mut self, kind: PressKind) -> (r: bool)
        ensures
            r == (!old(self).has_fired() && kind is Hold),
            final(self).has_fired() == (old(self).has_fired() || r),
    {
        if !self.fired && matches!(kind, PressKind::Hold) {
            self.fired = true;
            true
        } else {
            false
        }
    }
}

} // verus!
