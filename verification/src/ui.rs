//! The full-screen alert surface's timing state: a three-second countdown
//! caption and a half-second flash, advanced once per rendered frame.
//!
//! Rendering itself happens outside and never affects the protective
//! sequence; only the countdown and flash arithmetic is decided here.
//! Instants are whole milliseconds of the clock the frames are timed with.

use vstd::prelude::*;

verus! {

use crate::event::now_millis;

/// Milliseconds between countdown steps.
pub const TICK_INTERVAL_MILLIS: u64 = 1000;

/// Milliseconds between flash toggles.
pub const FLASH_INTERVAL_MILLIS: u64 = 500;

pub struct AlertWindow {
    remaining: i32,
    flash: bool,
    last_tick: u64,
    last_flash: u64,
}

impl AlertWindow {
    /// Seconds left on the displayed countdown.
    pub closed spec fn remaining(&self) -> i32 {
        self.remaining
    }

    /// Whether the flashing title is in its bright phase.
    pub closed spec fn flash_on(&self) -> bool {
        self.flash
    }

    /// When the countdown last stepped.
    pub closed spec fn last_tick(&self) -> u64 {
        self.last_tick
    }

    /// When the flash last toggled.
    pub closed spec fn last_flash(&self) -> u64 {
        self.last_flash
    }

    /// A fresh alert at instant `now`: three seconds on the countdown,
    /// bright phase first.
    pub fn new_at(now: u64) -> (r: AlertWindow)
        ensures
            r.remaining() == 3,
            r.flash_on(),
            r.last_tick() == now,
            r.last_flash() == now,
    {
        AlertWindow { remaining: 3, flash: true, last_tick: now, last_flash: now }
    }

    /// Read the displayed countdown.
    pub fn remaining_secs(&self) -> (r: i32)
        ensures
            r == self.remaining(),
    {
        self.remaining
    }

    /// Read the flash phase.
    pub fn is_flash_on(&self) -> (r: bool)
        ensures
            r == self.flash_on(),
    {
        self.flash
    }

    /// One rendered frame at instant `now`: step the countdown once per
    /// second, never below zero, and toggle the flash twice a second.
    pub fn advance(&mut self, now: u64)
        requires
            now >= old(self).last_tick(),
            now >= old(self).last_flash(),
        ensures
            now - old(self).last_tick() >= TICK_INTERVAL_MILLIS ==> (final(self).last_tick() == now
                && final(self).remaining() == if old(self).remaining() > 0 {
                old(self).remaining() - 1
            } else {
                old(self).remaining() as int
            }),
            now - old(self).last_tick() < TICK_INTERVAL_MILLIS ==> (final(self).last_tick()
                == old(self).last_tick() && final(self).remaining() == old(self).remaining()),
            now - old(self).last_flash() >= FLASH_INTERVAL_MILLIS ==> (final(self).last_flash()
                == now && final(self).flash_on() == !old(self).flash_on()),
            now - old(self).last_flash() < FLASH_INTERVAL_MILLIS ==> (final(self).last_flash()
                == old(self).last_flash() && final(self).flash_on() == old(self).flash_on()),
    {
        if now - self.last_tick >= TICK_INTERVAL_MILLIS {
            if self.remaining > 0 {
                self.remaining = self.remaining - 1;
            }
            self.last_tick = now;
        }
        if now - self.last_flash >= FLASH_INTERVAL_MILLIS {
            self.flash = !self.flash;
            self.last_flash = now;
        }
    }
}

impl Default for AlertWindow {
    /// A fresh alert timed from the current clock reading.
    fn default() -> (r: AlertWindow)
        ensures
            r.remaining() == 3,
            r.flash_on(),
    {
        AlertWindow::new_at(now_millis())
    }
}

} // verus!
