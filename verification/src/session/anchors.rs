//! Where bookmarks go.

use super::seeking;
use super::seeking::KEYFRAME_BOOKMARK_LEAD_FRAMES;
use super::state::{MonotonicTimestampProvider, RecorderState, SuperShuckieCore};
use crate::emulator::console::EmulatorCore;
use crate::replay::player;
use crate::replay::player::{KeyframePlace, ReplayConsoleType};
use vstd::prelude::*;
use vstd::string::*;

verus! {

/// Where a bookmark requested at the current moment goes.
#[derive(Copy, Clone, Debug, PartialEq, Eq, Structural)]
pub struct BookmarkAnchor {
    /// The bookmark's in frame.
    pub in_frame: u64,
    /// Replay time at the in frame (for a keyframe bookmark, the time of its keyframe, a few frames
    /// earlier).
    pub in_millis: u64,
    /// Whether the replay has a keyframe the bookmark can be reached from without re-emulation.
    pub keyframe: bool,
}

/// Why no bookmark could be placed.
#[derive(Copy, Clone, Debug, PartialEq, Eq, Structural)]
pub enum BookmarkAnchorError {
    /// No replay is being recorded or played back.
    NoReplay,
    /// The core thread did not answer in time (it is busy, e.g. exporting a video).
    Busy,
}

impl BookmarkAnchorError {
    /// The error in words.
    pub open spec fn text(self) -> Seq<char> {
        match self {
            BookmarkAnchorError::NoReplay =>
            "Bookmarks need a replay that is recording or playing back."@,
            BookmarkAnchorError::Busy => "The emulator is busy; try again in a moment."@,
        }
    }

    /// The error in words.
    pub fn message(&self) -> (r: &'static str)
        ensures
            r@ == self.text(),
    {
        match self {
            BookmarkAnchorError::NoReplay => {
                "Bookmarks need a replay that is recording or playing back."
            },
            BookmarkAnchorError::Busy => "The emulator is busy; try again in a moment.",
        }
    }
}

/// `n` frames after `frame`.
pub open spec fn frames_after(frame: u64, n: u64) -> u64 {
    if frame + n > u64::MAX {
        u64::MAX
    } else {
        (frame + n) as u64
    }
}

/// Length of one frame at 1x speed on a console, in microseconds.
pub open spec fn frame_micros(console: Option<ReplayConsoleType>) -> u64 {
    match console {
        Some(ReplayConsoleType::GameBoy) => 16_743,
        Some(ReplayConsoleType::SuperGameBoy2) => 16_743,
        Some(ReplayConsoleType::GameBoyColor) => 16_743,
        Some(ReplayConsoleType::GameBoyAdvance) => 16_743,
        Some(ReplayConsoleType::NintendoDS) => 16_715,
        _ => 16_667,
    }
}

/// The time between two points of a replay, a share of the way from the first to the second.
pub open spec fn interpolated(f0: u64, ms0: u64, f1: u64, ms1: u64, frame: u64) -> int {
    let reached = if frame < f1 {
        frame
    } else {
        f1
    };
    let span: int = if ms1 > ms0 {
        ms1 - ms0
    } else {
        0
    };
    ms0 + (span * (reached - f0)) / (f1 - f0)
}

/// The time at `frame` of a replay whose keyframes around it are `before` and `after`.
pub open spec fn time_between(
    before: Option<KeyframePlace>,
    after: (u64, u64),
    frame: u64,
) -> int {
    match before {
        Some(k) => if after.0 > k.frame && frame >= k.frame {
            interpolated(k.frame, k.elapsed_millis, after.0, after.1, frame)
        } else {
            k.elapsed_millis as int
        },
        None => 0,
    }
}

/// An estimated time lies between the times it is estimated from.
pub proof fn law_estimates_lie_between(f0: u64, ms0: u64, f1: u64, ms1: u64, frame: u64)
    requires
        f0 <= frame,
        f0 < f1,
        ms0 <= ms1,
    ensures
        ms0 <= interpolated(f0, ms0, f1, ms1, frame) <= ms1,
        frame == f0 ==> interpolated(f0, ms0, f1, ms1, frame) == ms0,
        frame >= f1 ==> interpolated(f0, ms0, f1, ms1, frame) == ms1,
{
    let reached: int = if frame < f1 {
        frame as int
    } else {
        f1 as int
    };
    let span = ms1 - ms0;
    let n = f1 - f0;
    let k = reached - f0;
    lemma_share(span, k, n);
    if frame >= f1 {
        assert((span * n) / n == span) by (nonlinear_arith)
            requires
                n > 0,
        ;
    }
    if frame == f0 {
        assert(span * k == 0) by (nonlinear_arith)
            requires
                k == 0,
        ;
    }
}

proof fn lemma_share(span: int, k: int, n: int)
    requires
        0 <= span,
        0 <= k <= n,
        n > 0,
    ensures
        0 <= (span * k) / n <= span,
{
    assert(0 <= span * k <= span * n) by (nonlinear_arith)
        requires
            0 <= span,
            0 <= k <= n,
    ;
    assert(0 <= (span * k) / n <= span) by (nonlinear_arith)
        requires
            0 <= span * k <= span * n,
            n > 0,
    ;
}

/// [`interpolated`], which fits.
fn interpolate(f0: u64, ms0: u64, f1: u64, ms1: u64, frame: u64) -> (r: u64)
    requires
        f0 <= frame,
        f0 < f1,
    ensures
        r == interpolated(f0, ms0, f1, ms1, frame),
{
    let reached: u64 = if frame < f1 {
        frame
    } else {
        f1
    };
    let span: u64 = if ms1 > ms0 {
        ms1 - ms0
    } else {
        0
    };
    let k: u64 = reached - f0;
    let n: u64 = f1 - f0;
    proof {
        lemma_share(span as int, k as int, n as int);
        assert(span * k <= u64::MAX * u64::MAX) by (nonlinear_arith)
            requires
                span <= u64::MAX,
                k <= u64::MAX,
        ;
        assert(0 <= span * k) by (nonlinear_arith)
            requires
                0 <= span,
                0 <= k,
        ;
    }
    let product: u128 = span as u128 * k as u128;
    let share: u128 = product / (n as u128);
    ms0 + share as u64
}

impl<C: EmulatorCore, T: MonotonicTimestampProvider> SuperShuckieCore<C, T> {
    /// After placing a bookmark.
    pub open spec fn bookmarked(
        self,
        after: Self,
        keyframe: bool,
        r: Result<BookmarkAnchor, BookmarkAnchorError>,
    ) -> bool {
        let frames = self.timer.frames;
        let now = self.timer.millis;
        if self.recorder.active {
            if !keyframe {
                &&& r == Ok::<BookmarkAnchor, BookmarkAnchorError>(
                    BookmarkAnchor { in_frame: frames, in_millis: now, keyframe: false },
                )
                &&& after == self
            } else if self.core.mid_frame() {
                &&& r == Ok::<BookmarkAnchor, BookmarkAnchorError>(
                    BookmarkAnchor {
                        in_frame: frames_after(
                            frames_after(frames, 1),
                            KEYFRAME_BOOKMARK_LEAD_FRAMES,
                        ),
                        in_millis: now,
                        keyframe: true,
                    },
                )
                &&& after == (SuperShuckieCore {
                    recorder: RecorderState { full_pending: true, ..self.recorder },
                    ..self
                })
            } else {
                &&& r == Ok::<BookmarkAnchor, BookmarkAnchorError>(
                    BookmarkAnchor {
                        in_frame: frames_after(frames, KEYFRAME_BOOKMARK_LEAD_FRAMES),
                        in_millis: now,
                        keyframe: true,
                    },
                )
                &&& self.keyframe_written(after, true)
            }
        } else {
            &&& after == self
            &&& match self.playback.player {
                None => r == Err::<BookmarkAnchor, BookmarkAnchorError>(
                    BookmarkAnchorError::NoReplay,
                ),
                Some(p) => {
                    let (at, at_millis) = self.position();
                    if !keyframe {
                        r == Ok::<BookmarkAnchor, BookmarkAnchorError>(
                            BookmarkAnchor {
                                in_frame: at,
                                in_millis: at_millis,
                                keyframe: false,
                            },
                        )
                    } else {
                        player::keyframe_before(
                            p.keyframes@,
                            seeking::less(at, KEYFRAME_BOOKMARK_LEAD_FRAMES),
                        ) matches Some(k) && r == Ok::<BookmarkAnchor, BookmarkAnchorError>(
                            BookmarkAnchor {
                                in_frame: frames_after(
                                    k.frame,
                                    KEYFRAME_BOOKMARK_LEAD_FRAMES,
                                ),
                                in_millis: k.elapsed_millis,
                                keyframe: true,
                            },
                        )
                    }
                },
            }
        }
    }

    /// Place a bookmark at the current moment of the replay being recorded or played back.
    ///
    /// A plain bookmark goes on the current frame (the last one completed, which is on screen). For
    /// a keyframe bookmark while recording, a full keyframe is written right away and the bookmark
    /// goes [`KEYFRAME_BOOKMARK_LEAD_FRAMES`] later, so that seeking to it loads exactly that
    /// keyframe; if a frame is partly emulated, the keyframe is written when that frame completes
    /// instead, and the bookmark counts from it. Nothing is emulated here: finishing a frame while
    /// paused would record it at the wrong time.
    ///
    /// During playback no keyframe can be written; the bookmark goes the same distance after the
    /// replay's existing keyframe at or before that point. While the replay is stopped, "the
    /// current moment" is its resume point.
    pub fn bookmark_anchor(&mut self, keyframe: bool) -> (r: Result<
        BookmarkAnchor,
        BookmarkAnchorError,
    >)
        requires
            old(self).wf(),
        ensures
            final(self).wf(),
            old(self).bookmarked(*final(self), keyframe, r),
    {
        if self.recorder.active {
            let now: u64 = self.timer.millis;
            let frames: u64 = self.timer.frames;
            if !keyframe {
                return Ok(BookmarkAnchor { in_frame: frames, in_millis: now, keyframe: false });
            }
            if self.core.is_mid_frame() {
                self.recorder.full_pending = true;
                let in_frame: u64 = frames.saturating_add(1).saturating_add(
                    KEYFRAME_BOOKMARK_LEAD_FRAMES,
                );
                return Ok(BookmarkAnchor { in_frame, in_millis: now, keyframe: true });
            }
            self.write_keyframe(true);
            let in_frame: u64 = frames.saturating_add(KEYFRAME_BOOKMARK_LEAD_FRAMES);
            return Ok(BookmarkAnchor { in_frame, in_millis: now, keyframe: true });
        }
        // A stopped replay's "current moment" is where playback resumes from, not the live frame.
        let (at, at_millis): (u64, u64) = self.replay_position();
        match &self.playback.player {
            None => Err(BookmarkAnchorError::NoReplay),
            Some(p) => {
                if !keyframe {
                    return Ok(
                        BookmarkAnchor { in_frame: at, in_millis: at_millis, keyframe: false },
                    );
                }
                let latest: u64 = at.saturating_sub(KEYFRAME_BOOKMARK_LEAD_FRAMES);
                match p.keyframe_at_or_before(latest) {
                    Some(k) => Ok(
                        BookmarkAnchor {
                            in_frame: k.frame.saturating_add(KEYFRAME_BOOKMARK_LEAD_FRAMES),
                            in_millis: k.elapsed_millis,
                            keyframe: true,
                        },
                    ),
                    None => {
                        // There is one at frame 0.
                        assert(player::keyframes_upto(p.keyframes@, latest) >= 1);
                        Err(BookmarkAnchorError::NoReplay)
                    },
                }
            },
        }
    }

    /// Length of one frame at 1x speed on the loaded console, in microseconds.
    pub fn nominal_frame_micros(&self) -> (r: u64)
        ensures
            r == frame_micros(self.core.identity().console),
    {
        match self.core.replay_console_type() {
            // 4194304 Hz / 70224 cycles per frame = 59.7275 Hz (the GBA's refresh is the same)
            Some(ReplayConsoleType::GameBoy) => 16_743,
            Some(ReplayConsoleType::SuperGameBoy2) => 16_743,
            Some(ReplayConsoleType::GameBoyColor) => 16_743,
            Some(ReplayConsoleType::GameBoyAdvance) => 16_743,
            // 59.8261 Hz
            Some(ReplayConsoleType::NintendoDS) => 16_715,
            _ => 16_667,
        }
    }

    /// Estimate the replay time at `frame` of the replay being recorded or played back, for a
    /// bookmark placed at an explicit frame. Playback interpolates between the surrounding
    /// keyframes; recording counts back from now at the console's nominal frame rate. `None`
    /// without a replay.
    pub fn estimate_millis_at(&self, frame: u64) -> (r: Option<u64>)
        ensures
            match self.playback.player {
                Some(p) => {
                    let after = match player::keyframe_after(p.keyframes@, frame) {
                        Some(k) => (k.frame, k.elapsed_millis),
                        None => (p.total_frames, p.total_milliseconds),
                    };
                    r matches Some(millis) && millis == time_between(
                        player::keyframe_before(p.keyframes@, frame),
                        after,
                        frame,
                    )
                },
                None => if self.recorder.active {
                    let back = seeking::less(self.timer.frames, frame) * frame_micros(
                        self.core.identity().console,
                    );
                    let capped: int = if back > u64::MAX {
                        u64::MAX as int
                    } else {
                        back
                    };
                    r == Some(seeking::less(self.timer.millis, (capped / 1000) as u64))
                } else {
                    r is None
                },
            },
    {
        if let Some(p) = &self.playback.player {
            let before: Option<KeyframePlace> = p.keyframe_at_or_before(frame);
            let (f1, ms1): (u64, u64) = match p.keyframe_at_or_after(frame) {
                Some(k) => (k.frame, k.elapsed_millis),
                None => (p.total_frames, p.total_milliseconds),
            };
            let millis: u64 = match before {
                Some(k) => if f1 > k.frame && frame >= k.frame {
                    interpolate(k.frame, k.elapsed_millis, f1, ms1, frame)
                } else {
                    k.elapsed_millis
                },
                None => 0,
            };
            return Some(millis);
        }
        if self.recorder.active {
            let frames_back: u64 = self.timer.frames.saturating_sub(frame);
            let micros: u64 = self.nominal_frame_micros();
            let back_micros: u64 = match frames_back.checked_mul(micros) {
                Some(back) => back,
                None => u64::MAX,
            };
            return Some(self.timer.millis.saturating_sub(back_micros / 1000));
        }
        None
    }
}

/// The time at a frame: a keyframe's own at its frame; up to the next one, a share of the way
/// there; and none before the first keyframe.
pub proof fn law_times_at_keyframes(before: KeyframePlace, after: (u64, u64), frame: u64)
    requires
        before.frame < after.0,
        before.elapsed_millis <= after.1,
        before.frame <= frame,
    ensures
        frame == before.frame ==> time_between(Some(before), after, frame) == before.elapsed_millis,
        frame >= after.0 ==> time_between(Some(before), after, frame) == after.1,
        before.elapsed_millis <= time_between(Some(before), after, frame) <= after.1,
        time_between(None, after, frame) == 0,
{
    law_estimates_lie_between(before.frame, before.elapsed_millis, after.0, after.1, frame);
}

} // verus!
