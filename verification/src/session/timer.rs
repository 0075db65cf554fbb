//! The session's clock.

use super::state::{MonotonicTimestampProvider, SuperShuckieCore, TimerState};
use crate::emulator::console::EmulatorCore;
use vstd::prelude::*;

verus! {

impl<C: EmulatorCore, T: MonotonicTimestampProvider> SuperShuckieCore<C, T> {
    /// The time the timer shows when the clock is at `now` milliseconds: the frozen value while it
    /// is paused.
    pub open spec fn timer_at(self, now: u64) -> u64 {
        match self.timer.paused_at {
            Some(paused) => paused.wrapping_sub(self.timer.starting),
            None => now.wrapping_sub(self.timer.starting),
        }
    }

    /// Whether the clock was read if it had to be, and nothing else changed.
    pub open spec fn clock_read(self, after: Self) -> bool {
        &&& after == (SuperShuckieCore { clock: after.clock, ..self })
        &&& after.clock.last() >= self.clock.last()
        &&& self.timer.paused_at is Some ==> after.clock == self.clock
    }

    /// The milliseconds elapsed since the timer was restarted (or the frozen value at the moment
    /// the timer was paused, while it still is).
    pub fn current_timer_millis(&mut self) -> (r: u64)
        ensures
            old(self).clock_read(*final(self)),
            r == old(self).timer_at(final(self).clock.last() / 1000),
            old(self).wf() ==> final(self).wf(),
    {
        let now: u64 = match self.timer.paused_at {
            Some(paused) => paused,
            None => self.clock.get_timestamp_milliseconds(),
        };
        now.wrapping_sub(self.timer.starting)
    }

    /// Pause the current timer.
    pub fn pause_timer(&mut self)
        ensures
            *final(self) == old(self).paused(),
            old(self).wf() ==> final(self).wf(),
    {
        self.timer.paused_at = Some(
            self.timer.millis.wrapping_add(self.timer.starting),
        );
    }

    /// With the timer paused where it is.
    pub open spec fn paused(self) -> Self {
        SuperShuckieCore {
            timer: TimerState {
                paused_at: Some(self.timer.millis.wrapping_add(self.timer.starting)),
                ..self.timer
            },
            ..self
        }
    }

    /// Unpause the current timer if it is currently paused.
    pub fn unpause_timer(&mut self)
        ensures
            old(self).unpaused(*final(self)),
            old(self).wf() ==> final(self).wf(),
    {
        if let Some(paused_time) = self.timer.paused_at {
            self.timer.paused_at = None;
            let unpaused_time: u64 = self.clock.get_timestamp_milliseconds();
            self.timer.starting = self.timer.starting.wrapping_add(
                unpaused_time.wrapping_sub(paused_time),
            );
        }
    }

    /// With the timer running again from where it was paused.
    pub open spec fn unpaused(self, after: Self) -> bool {
        match self.timer.paused_at {
            None => after == self,
            Some(paused) => {
                &&& after.clock.last() >= self.clock.last()
                &&& after == (SuperShuckieCore {
                    clock: after.clock,
                    timer: TimerState {
                        paused_at: None,
                        starting: self.timer.starting.wrapping_add(
                            ((after.clock.last() / 1000) as u64).wrapping_sub(paused),
                        ),
                        ..self.timer
                    },
                    ..self
                })
            },
        }
    }

    /// Start the timer over.
    pub fn restart_timer(&mut self)
        ensures
            old(self).timer_restarted(*final(self)),
            old(self).wf() ==> final(self).wf(),
    {
        self.timer.paused_at = None;
        self.timer.starting = self.clock.get_timestamp_milliseconds();
        self.timer.millis = 0;
        self.timer.frames = 0;
    }

    /// With the timer and the frame counter started over.
    pub open spec fn timer_restarted(self, after: Self) -> bool {
        &&& after.clock.last() >= self.clock.last()
        &&& after == (SuperShuckieCore {
            clock: after.clock,
            timer: TimerState {
                paused_at: None,
                starting: (after.clock.last() / 1000) as u64,
                millis: 0,
                frames: 0,
                ..self.timer
            },
            ..self
        })
    }

    /// Let the timer continue from a point of a replay.
    pub fn resume_timer(&mut self, resume_millis: u64, resume_frames: u64)
        ensures
            old(self).timer_resumed(*final(self), resume_millis, resume_frames),
            old(self).wf() ==> final(self).wf(),
    {
        let now: u64 = self.clock.get_timestamp_milliseconds();
        self.timer.paused_at = None;
        self.timer.starting = now.wrapping_sub(resume_millis);
        self.timer.millis = resume_millis;
        self.timer.frames = resume_frames;
    }

    /// With the timer continuing from a point of a replay.
    pub open spec fn timer_resumed(self, after: Self, millis: u64, frames: u64) -> bool {
        &&& after.clock.last() >= self.clock.last()
        &&& after == (SuperShuckieCore {
            clock: after.clock,
            timer: TimerState {
                paused_at: None,
                starting: ((after.clock.last() / 1000) as u64).wrapping_sub(millis),
                millis,
                frames,
                ..self.timer
            },
            ..self
        })
    }
}

/// Every reading of the timer is at least the one before it across a pause: while paused it shows
/// what it showed when it was paused, and from there it goes on. (The recorder refuses a time that
/// goes backwards.) Only a timer that has run through all the milliseconds there are starts over.
pub proof fn law_timer_is_monotone_across_a_pause<
    C: EmulatorCore,
    T: MonotonicTimestampProvider,
>(
    running: SuperShuckieCore<C, T>,
    unpaused: SuperShuckieCore<C, T>,
    while_paused: u64,
    later: u64,
)
    requires
        running.paused().unpaused(unpaused),
        later >= unpaused.clock.last() / 1000,
        running.timer.millis + (later - unpaused.clock.last() / 1000) <= u64::MAX,
    ensures
        running.paused().timer_at(while_paused) == running.timer.millis,
        unpaused.timer_at(later) == running.timer.millis + (later - unpaused.clock.last()
            / 1000),
        unpaused.timer_at(later) >= running.timer.millis,
{
}

/// A timer resumed at a point of a replay shows the time of that point, and goes on from there.
pub proof fn law_resumed_timer_goes_on<C: EmulatorCore, T: MonotonicTimestampProvider>(
    before: SuperShuckieCore<C, T>,
    after: SuperShuckieCore<C, T>,
    millis: u64,
    frames: u64,
    later: u64,
)
    requires
        before.timer_resumed(after, millis, frames),
        later >= after.clock.last() / 1000,
        millis + (later - after.clock.last() / 1000) <= u64::MAX,
    ensures
        after.timer_at(later) == millis + (later - after.clock.last() / 1000),
{
}

} // verus!
