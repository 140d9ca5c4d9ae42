//! The pacing of a frontend's drawing loop. Time is what the caller reads off
//! a clock that never runs backwards, in milliseconds.

use vstd::prelude::*;

verus! {

/// The least time between two rounds of the loop, in milliseconds.
pub const FRAME_INTERVAL: u64 = 16;

/// When the loop last ran, and whether the interface asked to be drawn again.
#[derive(Debug, Clone, Copy, PartialEq, Eq)]
pub struct EventLoop {
    ui_needs_update: bool,
    last_update: u64,
}

/// The mathematical value of an [`EventLoop`].
pub struct EventLoopView {
    pub ui_needs_update: bool,
    pub last_update: nat,
}

impl View for EventLoop {
    type V = EventLoopView;

    closed spec fn view(&self) -> EventLoopView {
        EventLoopView {
            ui_needs_update: self.ui_needs_update,
            last_update: self.last_update as nat,
        }
    }
}

/// The time that has passed from `last` to `now`; none when `now` is the
/// earlier of the two.
pub open spec fn elapsed(last: nat, now: nat) -> nat {
    if now >= last {
        (now - last) as nat
    } else {
        0
    }
}

impl EventLoop {
    /// A loop that starts at `now` and owes a first drawing.
    pub fn new(now: u64) -> (event_loop: Self)
        ensures
            event_loop@ == (EventLoopView { ui_needs_update: true, last_update: now as nat }),
    {
        EventLoop { last_update: now, ui_needs_update: true }
    }

    /// How long to sleep at `now` before the next round, so that rounds are
    /// at least [`FRAME_INTERVAL`] apart.
    pub fn pause(&self, now: u64) -> (ms: u64)
        ensures
            ms == if elapsed(self@.last_update, now as nat) < FRAME_INTERVAL {
                FRAME_INTERVAL - elapsed(self@.last_update, now as nat)
            } else {
                0
            },
    {
        if now < self.last_update {
            FRAME_INTERVAL
        } else if now - self.last_update < FRAME_INTERVAL {
            FRAME_INTERVAL - (now - self.last_update)
        } else {
            0
        }
    }

    /// Whether the round is to wait for an event: it is when `pending` events
    /// were found, none at all, and no drawing is owed.
    pub fn must_wait(&self, pending: usize) -> (wait: bool)
        ensures
            wait == (pending == 0 && !self@.ui_needs_update),
    {
        pending == 0 && !self.ui_needs_update
    }

    /// Ends a round at `now`: the drawing that was owed is taken as done.
    pub fn finish_round(&mut self, now: u64)
        ensures
            final(self)@ == (EventLoopView { ui_needs_update: false, last_update: now as nat }),
    {
        self.ui_needs_update = false;
        self.last_update = now;
    }

    /// Notes that the interface needs another drawing whether or not events
    /// are pending.
    pub fn needs_update(&mut self)
        ensures
            final(self)@ == (EventLoopView { ui_needs_update: true, ..old(self)@ }),
    {
        self.ui_needs_update = true;
    }
}

} // verus!
