//! The heartbeat-timeout monitor: a countdown that a remote reset command
//! rewinds and that fires exactly once when the time since the last reset
//! reaches the configured timeout.
//!
//! The state machine here makes every decision; the loop around it only
//! samples a monotonic clock once per tick and performs the channel work
//! the returned outcome asks for. Time is carried as whole seconds of a
//! monotonic clock, so `now` never goes backwards between calls.

use vstd::prelude::*;

verus! {

use crate::config::Config;

/// The mutable heart of the monitor: when it was last reset, and the last
/// remote endpoint that spoke to it (told of the expiry, best effort).
struct HeartbeatState {
    last_reset: u64,
    last_known_endpoint: Option<i64>,
}

/// What one countdown tick decided.
pub enum HeartbeatTick {
    /// Still armed; `remaining` seconds left until expiry.
    Armed { remaining: u64 },
    /// Expired, terminally: tell `notify_endpoint` (if any was recorded,
    /// best effort) and then emit the one trigger event.
    Expired { notify_endpoint: Option<i64> },
}

pub struct HeartbeatTimer {
    timeout_seconds: u64,
    state: HeartbeatState,
    expired: bool,
}

impl HeartbeatTimer {
    /// Seconds without a reset before the monitor fires.
    pub closed spec fn timeout_seconds(&self) -> u64 {
        self.timeout_seconds
    }

    /// The instant of the most recent reset (or of arming).
    pub closed spec fn last_reset(&self) -> u64 {
        self.state.last_reset
    }

    /// The last remote endpoint recorded, if any.
    pub closed spec fn endpoint(&self) -> Option<i64> {
        self.state.last_known_endpoint
    }

    /// Whether the monitor has already fired (terminal).
    pub closed spec fn has_expired(&self) -> bool {
        self.expired
    }

    pub open spec fn wf(&self) -> bool {
        self.timeout_seconds() > 0
    }

    /// Seconds left until expiry when the clock reads `now`.
    pub open spec fn spec_remaining(&self, now: u64) -> u64 {
        if now - self.last_reset() >= self.timeout_seconds() {
            0u64
        } else {
            (self.timeout_seconds() - (now - self.last_reset())) as u64
        }
    }

    /// Arm the monitor: the countdown starts at `now`, full timeout ahead.
    pub fn new(config: &Config, now: u64) -> (r: HeartbeatTimer)
        requires
            config.wf(),
        ensures
            r.wf(),
            r.timeout_seconds() == config.telegram_heartbeat_timeout,
            r.last_reset() == now,
            r.endpoint() is None,
            !r.has_expired(),
    {
        HeartbeatTimer {
            timeout_seconds: config.telegram_heartbeat_timeout,
            state: HeartbeatState { last_reset: now, last_known_endpoint: None },
            expired: false,
        }
    }

    /// The relation a reset establishes between the state before and after:
    /// only the reset instant changes. Resetting is therefore idempotent —
    /// see `lemma_reset_idempotent`.
    pub open spec fn reset_rel(pre: HeartbeatTimer, post: HeartbeatTimer, now: u64) -> bool {
        &&& post.last_reset() == now
        &&& post.timeout_seconds() == pre.timeout_seconds()
        &&& post.endpoint() == pre.endpoint()
        &&& post.has_expired() == pre.has_expired()
    }

    /// A valid reset command arrived: rewind the countdown to the full
    /// timeout by overwriting the reset instant with `now`.
    pub fn reset(&mut self, now: u64)
        ensures
            HeartbeatTimer::reset_rel(*old(self), *final(self), now),
    {
        self.state.last_reset = now;
    }

    /// Record the remote endpoint that last spoke to the monitor, so the
    /// expiry notice has somewhere to go.
    pub fn note_endpoint(&mut self, endpoint: i64)
        ensures
            final(self).endpoint() == Some(endpoint),
            final(self).timeout_seconds() == old(self).timeout_seconds(),
            final(self).last_reset() == old(self).last_reset(),
            final(self).has_expired() == old(self).has_expired(),
    {
        self.state.last_known_endpoint = Some(endpoint);
    }

    /// A status query: read the remaining time. Takes the receiver by
    /// shared reference, so it can never move the reset instant.
    pub fn remaining(&self, now: u64) -> (r: u64)
        requires
            now >= self.last_reset(),
        ensures
            r == self.spec_remaining(now),
    {
        let elapsed = now - self.state.last_reset;
        if elapsed >= self.timeout_seconds {
            0
        } else {
            self.timeout_seconds - elapsed
        }
    }

    /// One countdown tick at instant `now`. Expires exactly when the time
    /// since the last reset has reached the timeout and the monitor has not
    /// already fired: after the first expiry the monitor never fires again.
    /// Expiring hands out the recorded endpoint (and clears it, taken).
    pub fn tick(&mut self, now: u64) -> (r: HeartbeatTick)
        requires
            old(self).wf(),
            now >= old(self).last_reset(),
        ensures
            final(self).wf(),
            final(self).timeout_seconds() == old(self).timeout_seconds(),
            final(self).last_reset() == old(self).last_reset(),
            r is Expired <==> (!old(self).has_expired() && now - old(self).last_reset()
                >= old(self).timeout_seconds()),
            final(self).has_expired() == (old(self).has_expired() || r is Expired),
            r matches HeartbeatTick::Expired { notify_endpoint } ==> (notify_endpoint == old(
                self,
            ).endpoint() && final(self).endpoint() is None),
            r matches HeartbeatTick::Armed { remaining } ==> (remaining == old(
                self,
            ).spec_remaining(now) && final(self).endpoint() == old(self).endpoint()),
    {
        let elapsed = now - self.state.last_reset;
        if !self.expired && elapsed >= self.timeout_seconds {
            self.expired = true;
            let notify_endpoint = self.state.last_known_endpoint;
            self.state.last_known_endpoint = None;
            HeartbeatTick::Expired { notify_endpoint }
        } else {
            HeartbeatTick::Armed { remaining: self.remaining(now) }
        }
    }
}

/// Resetting twice in succession is equivalent to resetting once: a second
/// reset at the same instant leaves the state exactly where the first put
/// it.
pub proof fn lemma_reset_idempotent(a: HeartbeatTimer, b: HeartbeatTimer, c: HeartbeatTimer, now: u64)
    requires
        HeartbeatTimer::reset_rel(a, b, now),
        HeartbeatTimer::reset_rel(b, c, now),
    ensures
        c == b,
{
}

/// The operational logging thresholds: a warning is written when exactly
/// one minute, thirty seconds or ten seconds remain. A side effect only —
/// never part of the firing contract.
pub fn should_warn(remaining: u64) -> (r: bool)
    ensures
        r == (remaining == 60 || remaining == 30 || remaining == 10),
{
    remaining == 60 || remaining == 30 || remaining == 10
}

/// Break a remaining time into whole hours, minutes and seconds, as the
/// status reply displays it.
pub fn remaining_parts(remaining: u64) -> (r: (u64, u64, u64))
    ensures
        r.0 == remaining / 3600,
        r.1 == (remaining % 3600) / 60,
        r.2 == remaining % 60,
        r.0 * 3600 + r.1 * 60 + r.2 == remaining,
{
    let h = remaining / 3600;
    let m = (remaining % 3600) / 60;
    let s = remaining % 60;
    proof {
        vstd::arithmetic::div_mod::lemma_fundamental_div_mod(remaining as int, 3600);
        vstd::arithmetic::div_mod::lemma_fundamental_div_mod((remaining as int) % 3600, 60);
        vstd::arithmetic::div_mod::lemma_mod_mod(remaining as int, 60, 60);
        assert(60 * 60 == 3600);
    }
    (h, m, s)
}

} // verus!
