//! The device-presence monitor: periodic enumeration of attached devices,
//! diffed against a running set of already-seen identifiers. A device is
//! evaluated against the configured (vendor, product) pair only when its
//! identifier is first inserted into the known set; re-enumerating an
//! already-known device never re-triggers evaluation.
//!
//! The loop that enumerates the hardware hands each poll's identifiers in
//! here as plain values; every decision is made by this state machine.

use vstd::prelude::*;

verus! {

use crate::config::Config;

/// A device identifier: the compound key the monitor matches. The pair is
/// matched as a whole, never one half independently.
#[derive(Clone, Copy, Debug, PartialEq, Eq, Hash, Structural)]
pub struct DeviceId {
    pub vendor: u16,
    pub product: u16,
}

pub struct UsbMonitor {
    target_vendor: u16,
    target_product: u16,
    known: Vec<DeviceId>,
    fired: bool,
}

impl UsbMonitor {
    /// The configured vendor half of the compound key.
    pub closed spec fn target_vendor(&self) -> u16 {
        self.target_vendor
    }

    /// The configured product half of the compound key.
    pub closed spec fn target_product(&self) -> u16 {
        self.target_product
    }

    /// The identifiers seen so far.
    pub closed spec fn known_ids(&self) -> Seq<DeviceId> {
        self.known@
    }

    /// Whether the monitor has already fired (it fires at most once).
    pub closed spec fn has_fired(&self) -> bool {
        self.fired
    }

    /// The known set holds each identifier at most once.
    pub open spec fn wf(&self) -> bool {
        forall|t1: int, t2: int| 0 <= t1 < t2 < self.known_ids().len()
            ==> #[trigger] self.known_ids()[t1] != #[trigger] self.known_ids()[t2]
    }

    /// `id` matches the configured compound key.
    pub open spec fn matches_target(&self, id: DeviceId) -> bool {
        id.vendor == self.target_vendor() && id.product == self.target_product()
    }

    pub fn new(config: &Config) -> (r: UsbMonitor)
        ensures
            r.wf(),
            r.target_vendor() == config.usb_vendor_id,
            r.target_product() == config.usb_product_id,
            r.known_ids() == Seq::<DeviceId>::empty(),
            !r.has_fired(),
    {
        UsbMonitor {
            target_vendor: config.usb_vendor_id,
            target_product: config.usb_product_id,
            known: Vec::new(),
            fired: false,
        }
    }

    /// Whether `id` is already in the known set.
    fn knows(&self, id: DeviceId) -> (r: bool)
        ensures
            r == self.known_ids().contains(id),
    {
        let mut t: usize = 0;
        while t < self.known.len()
            invariant
                t <= self.known_ids().len(),
                forall|x: int| 0 <= x < t ==> #[trigger] self.known_ids()[x] != id,
            decreases self.known_ids().len() - t,
        {
            if self.known[t] == id {
                return true;
            }
            t = t + 1;
        }
        false
    }

    /// One enumerated device. A newly observed identifier is inserted into
    /// the known set and then — and only then — evaluated against the
    /// configured pair; an already-known identifier changes nothing and is
    /// never re-evaluated. Returns whether the monitor fires on this
    /// observation, which it does at most once over its lifetime.
    pub fn observe(&mut self, vendor: u16, product: u16) -> (r: bool)
        requires
            old(self).wf(),
        ensures
            final(self).wf(),
            final(self).target_vendor() == old(self).target_vendor(),
            final(self).target_product() == old(self).target_product(),
            old(self).known_ids().contains((DeviceId { vendor, product })) ==> (*final(self)
                == *old(self) && r == false),
            !old(self).known_ids().contains((DeviceId { vendor, product }))
                ==> (final(self).known_ids() == old(self).known_ids().push(
                (DeviceId { vendor, product }),
            ) && r == (!old(self).has_fired() && old(self).matches_target(
                (DeviceId { vendor, product }),
            ))),
            final(self).has_fired() == (old(self).has_fired() || r),
    {
        let id = DeviceId { vendor, product };
        if self.knows(id) {
            return false;
        }
        self.known.push(id);
        proof {
            assert forall|t1: int, t2: int| 0 <= t1 < t2 < self.known_ids().len() implies #[trigger] self
                .known_ids()[t1] != #[trigger] self.known_ids()[t2] by {
                if t2 == self.known_ids().len() - 1 {
                    assert(old(self).known_ids().contains(self.known_ids()[t1])) by {
                        assert(old(self).known_ids()[t1] == self.known_ids()[t1]);
                    }
                }
            }
        }
        if !self.fired && vendor == self.target_vendor && product == self.target_product {
            self.fired = true;
            return true;
        }
        false
    }

    /// One whole poll: feed every enumerated identifier through `observe`,
    /// in order, stopping at a fire. Where the monitor has not fired
    /// before, it fires on this poll exactly when some enumerated device
    /// matches the configured pair and was not already known.
    pub fn observe_scan(&mut self, devices: &Vec<(u16, u16)>) -> (r: bool)
        requires
            old(self).wf(),
        ensures
            final(self).wf(),
            final(self).target_vendor() == old(self).target_vendor(),
            final(self).target_product() == old(self).target_product(),
            final(self).has_fired() == (old(self).has_fired() || r),
            forall|id: DeviceId| old(self).known_ids().contains(id)
                ==> final(self).known_ids().contains(id),
            !old(self).has_fired() ==> (r <==> exists|t: int|
                0 <= t < devices@.len() && old(self).matches_target(
                    #[trigger] scan_id(devices@[t]),
                ) && !old(self).known_ids().contains(scan_id(devices@[t]))),
            old(self).has_fired() ==> r == false,
    {
        let ghost pre = *old(self);
        let mut i: usize = 0;
        while i < devices.len()
            invariant
                pre == *old(self),
                self.wf(),
                pre.wf(),
                self.target_vendor() == pre.target_vendor(),
                self.target_product() == pre.target_product(),
                self.has_fired() == pre.has_fired(),
                i <= devices@.len(),
                forall|id: DeviceId| pre.known_ids().contains(id) ==> self.known_ids().contains(
                    id,
                ),
                forall|id: DeviceId| self.known_ids().contains(id) ==> (pre.known_ids().contains(
                    id,
                ) || exists|t: int| 0 <= t < i && #[trigger] scan_id(devices@[t]) == id),
                !pre.has_fired() ==> forall|t: int| 0 <= t < i ==> !(pre.matches_target(
                    #[trigger] scan_id(devices@[t]),
                ) && !pre.known_ids().contains(scan_id(devices@[t]))),
            decreases devices@.len() - i,
        {
            let (vendor, product) = devices[i];
            let ghost before = *self;
            let fired_now = self.observe(vendor, product);
            proof {
                assert(scan_id(devices@[i as int]) == (DeviceId { vendor, product }));
                assert forall|x: DeviceId| before.known_ids().contains(x) implies self.known_ids()
                    .contains(x) by {
                    if self.known_ids() != before.known_ids() {
                        let w = choose|w: int|
                            0 <= w < before.known_ids().len() && before.known_ids()[w] == x;
                        assert(self.known_ids()[w] == x);
                    }
                }
                assert forall|x: DeviceId| self.known_ids().contains(x) implies (
                before.known_ids().contains(x) || x == (DeviceId { vendor, product })) by {
                    if self.known_ids() != before.known_ids() {
                        let w = choose|w: int|
                            0 <= w < self.known_ids().len() && self.known_ids()[w] == x;
                        if w < self.known_ids().len() - 1 {
                            assert(before.known_ids()[w] == x);
                        }
                    }
                }
            }
            if fired_now {
                proof {
                    assert(!pre.known_ids().contains((DeviceId { vendor, product })));
                }
                return true;
            }
            proof {
                let id = DeviceId { vendor, product };
                if !pre.has_fired() && pre.matches_target(id) && !pre.known_ids().contains(id) {
                    if before.known_ids().contains(id) {
                        // Not known at arming, so an earlier slot of this
                        // very poll inserted it — but then that slot was a
                        // new match, against the prefix invariant.
                        let t_prev = choose|t: int|
                            0 <= t < i && #[trigger] scan_id(devices@[t]) == id;
                        assert(pre.matches_target(scan_id(devices@[t_prev])));
                        assert(false);
                    } else {
                        // Newly inserted on this slot: it was evaluated and
                        // matched, so the observation fired.
                        assert(fired_now);
                        assert(false);
                    }
                }
            }
            i = i + 1;
        }
        false
    }
}

/// The identifier a raw (vendor, product) pair enumerates as.
pub open spec fn scan_id(raw: (u16, u16)) -> DeviceId {
    DeviceId { vendor: raw.0, product: raw.1 }
}

} // verus!
