//! Keeping a console that can run as fast as it likes at the game's speed.

use crate::replay::packet::{Speed, NORMAL_SPEED};
use vstd::prelude::*;

verus! {

/// When the next frame of a paced console is due.
#[derive(Copy, Clone, Debug, PartialEq, Eq, Structural)]
pub struct FramePacer {
    /// When the last frame was due, in microseconds.
    pub last_frame_microseconds: u64,
    /// The length of a frame.
    pub microseconds_per_frame: u64,
}

/// Most frames the clock may be behind.
pub const MAX_FRAMES_BEHIND: u64 = 16;

/// The sum of two times, as far as times go.
pub open spec fn later(a: u64, b: int) -> u64 {
    if a + b > u64::MAX {
        u64::MAX
    } else {
        (a + b) as u64
    }
}

/// The length of a frame at a speed, given that at normal speed; it fits in 32 bits.
pub open spec fn frame_length(normal: u64, speed: Speed) -> u64 {
    if speed.units == 0 {
        u32::MAX as u64
    } else {
        let length = normal * NORMAL_SPEED / (speed.units as int);
        if length > u32::MAX {
            u32::MAX as u64
        } else {
            length as u64
        }
    }
}

impl FramePacer {
    /// A console whose frames are that long, and which is due now.
    pub fn new(microseconds_per_frame: u64) -> (r: Self)
        ensures
            r == (FramePacer { last_frame_microseconds: 0, microseconds_per_frame }),
    {
        FramePacer { last_frame_microseconds: 0, microseconds_per_frame }
    }

    /// When the next frame is due.
    pub open spec fn next(self) -> u64 {
        later(self.last_frame_microseconds, self.microseconds_per_frame as int)
    }

    /// Whether the next frame is due.
    pub fn is_due(&self, now: u64) -> (r: bool)
        ensures
            r == (now >= self.next()),
    {
        now >= self.last_frame_microseconds.saturating_add(self.microseconds_per_frame)
    }

    /// How long it is until the next frame is due.
    pub fn microseconds_until_next_frame(&self, now: u64) -> (r: u64)
        ensures
            r == (if self.next() > now {
                self.next() - now
            } else {
                0
            }),
    {
        self.last_frame_microseconds.saturating_add(self.microseconds_per_frame).saturating_sub(now)
    }

    /// After a paced frame completed at `now`.
    pub open spec fn after_frame(self, now: u64) -> Self {
        let behind = now - self.microseconds_per_frame * MAX_FRAMES_BEHIND;
        FramePacer {
            last_frame_microseconds: if self.next() > behind {
                self.next()
            } else {
                behind as u64
            },
            ..self
        }
    }

    /// A paced frame completed at `now`: the next is due one frame after it was, but if the clock
    /// is way too far behind, limit it a bit.
    pub fn frame_completed(&mut self, now: u64)
        ensures
            *final(self) == old(self).after_frame(now),
    {
        let next: u64 = self.last_frame_microseconds.saturating_add(self.microseconds_per_frame);
        let several: u64 = match self.microseconds_per_frame.checked_mul(MAX_FRAMES_BEHIND) {
            Some(several) => several,
            None => u64::MAX,
        };
        let several_frames_ago: u64 = now.saturating_sub(several);
        self.last_frame_microseconds = if next > several_frames_ago {
            next
        } else {
            several_frames_ago
        };
    }

    /// An unpaced frame completed at `now`.
    pub fn frame_completed_unpaced(&mut self, now: u64)
        ensures
            *final(self) == (FramePacer { last_frame_microseconds: now, ..*old(self) }),
    {
        self.last_frame_microseconds = now;
    }

    /// Set the game speed, frames being `normal` microseconds long at normal speed.
    pub fn set_speed(&mut self, normal: u64, speed: Speed)
        ensures
            *final(self) == (FramePacer {
                microseconds_per_frame: frame_length(normal, speed),
                ..*old(self)
            }),
    {
        self.microseconds_per_frame = if speed.units == 0 {
            u32::MAX as u64
        } else {
            assert(normal * NORMAL_SPEED <= u64::MAX * u32::MAX) by (nonlinear_arith)
                requires
                    normal <= u64::MAX,
                    NORMAL_SPEED <= u32::MAX,
            ;
            let length: u128 = normal as u128 * NORMAL_SPEED as u128 / speed.units as u128;
            if length > u32::MAX as u128 {
                u32::MAX as u64
            } else {
                length as u64
            }
        };
    }
}

/// A console that keeps up runs one frame per frame length: the times at which its frames are due
/// are exactly that far apart, however late within a frame it is polled.
pub proof fn law_pacing_does_not_drift(pacer: FramePacer, now: u64)
    requires
        pacer.last_frame_microseconds + pacer.microseconds_per_frame <= now,
        now <= pacer.last_frame_microseconds + pacer.microseconds_per_frame * MAX_FRAMES_BEHIND,
    ensures
        pacer.after_frame(now).last_frame_microseconds == pacer.last_frame_microseconds
            + pacer.microseconds_per_frame,
{
}

/// A console that fell behind makes up for no more than a few frames.
pub proof fn law_pacing_forgives(pacer: FramePacer, now: u64)
    ensures
        pacer.after_frame(now).last_frame_microseconds >= now - pacer.microseconds_per_frame
            * MAX_FRAMES_BEHIND,
{
}

} // verus!
