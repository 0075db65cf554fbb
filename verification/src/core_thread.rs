//! What the thread that runs a session decides: when to run and how long to wait, what to show, and
//! what an attached memory tool gets.

use crate::emulator::console::{EmulatorCore, RunTime};
use crate::memory_monitor::local::{MemoryMonitorLocal, ServiceOutcome};
use crate::memory_monitor::service;
use crate::memory_monitor::service::Worked;
use crate::memory_monitor::shared::MemoryMonitorShared;
use crate::ordered;
use crate::play_together::cable;
use crate::replay::packet::Speed;
use crate::replay::player::{ReplayConsoleType, ReplayFilePlayer};
use crate::session::anchors::{BookmarkAnchor, BookmarkAnchorError};
use crate::session::compat::ReplayPlayerAttachError;
use crate::session::state::{MonotonicTimestampProvider, SuperShuckieCore};
use std::collections::BTreeMap;
use vstd::prelude::*;
use vstd::string::*;

verus! {

/// The core thread has exited. No further command reaches it; reload the ROM to get a working core
/// again.
#[derive(Copy, Clone, Debug, PartialEq, Eq, Structural)]
pub struct CoreThreadDead;

impl CoreThreadDead {
    /// The error in words.
    pub fn message(&self) -> (r: &'static str)
        ensures
            r@ == "The emulator thread has stopped; reload the ROM."@,
    {
        "The emulator thread has stopped; reload the ROM."
    }
}

// ---------------------------------------------------------------------------------------------
// Frame times.

/// How long emulated frames are taking on the core thread, for diagnostics.
///
/// Times cover the core's own work for one frame (emulation plus compositing), not the pacing wait.
/// A frame is "over budget" when it took longer than the period the current speed allows.
#[derive(Copy, Clone, Debug, PartialEq, Eq, Structural)]
pub struct FrameTimeStats {
    /// Duration of the most recent frame, in microseconds.
    pub last_frame_micros: u32,
    /// Exponential moving average over roughly the last 64 frames, in microseconds.
    pub average_frame_micros: u32,
    /// Longest frame seen since the stats were last reset (speed change, ROM load).
    pub max_frame_micros: u32,
    /// Time one frame may take at the current speed, in microseconds (0 when the core does not pace
    /// itself).
    pub budget_micros: u32,
    /// Frames that took longer than `budget_micros` since the stats were last reset.
    pub frames_over_budget: u64,
    /// Frames measured since the stats were last reset.
    pub frames_measured: u64,
}

impl Default for FrameTimeStats {
    fn default() -> (r: Self)
        ensures
            r == (FrameTimeStats {
                last_frame_micros: 0,
                average_frame_micros: 0,
                max_frame_micros: 0,
                budget_micros: 0,
                frames_over_budget: 0,
                frames_measured: 0,
            }),
    {
        FrameTimeStats {
            last_frame_micros: 0,
            average_frame_micros: 0,
            max_frame_micros: 0,
            budget_micros: 0,
            frames_over_budget: 0,
            frames_measured: 0,
        }
    }
}

/// A number, if it fits in 32 bits, else the largest that does.
pub open spec fn capped(n: u64) -> u32 {
    if n > u32::MAX {
        u32::MAX
    } else {
        n as u32
    }
}

fn cap(n: u64) -> (r: u32)
    ensures
        r == capped(n),
{
    if n > u32::MAX as u64 {
        u32::MAX
    } else {
        n as u32
    }
}

/// One more.
pub open spec fn counted(n: u64, more: bool) -> u64 {
    if more && n < u64::MAX {
        (n + 1) as u64
    } else {
        n
    }
}

impl FrameTimeStats {
    /// With a frame that took that long, when it may take `budget`.
    pub open spec fn with_frame(self, elapsed_micros: u64, budget: Option<u64>) -> FrameTimeStats {
        let micros = capped(elapsed_micros);
        FrameTimeStats {
            last_frame_micros: micros,
            average_frame_micros: if self.frames_measured == 0 {
                micros
            } else {
                ((self.average_frame_micros * 63 + micros + 63) / 64) as u32
            },
            max_frame_micros: if micros > self.max_frame_micros {
                micros
            } else {
                self.max_frame_micros
            },
            budget_micros: match budget {
                Some(b) => capped(b),
                None => 0,
            },
            frames_over_budget: counted(
                self.frames_over_budget,
                budget matches Some(b) && micros > b,
            ),
            frames_measured: counted(self.frames_measured, true),
        }
    }

    /// Count a frame that took that long, when it may take `budget`.
    pub fn record(&mut self, elapsed_micros: u64, budget: Option<u64>)
        ensures
            *final(self) == old(self).with_frame(elapsed_micros, budget),
    {
        let micros: u32 = cap(elapsed_micros);
        self.last_frame_micros = micros;
        self.average_frame_micros = if self.frames_measured == 0 {
            micros
        } else {
            ((self.average_frame_micros as u64 * 63 + micros as u64 + 63) / 64) as u32
        };
        if micros > self.max_frame_micros {
            self.max_frame_micros = micros;
        }
        self.budget_micros = match budget {
            Some(b) => cap(b),
            None => 0,
        };
        let over: bool = match budget {
            Some(b) => micros as u64 > b,
            None => false,
        };
        if over {
            self.frames_over_budget = self.frames_over_budget.saturating_add(1);
        }
        self.frames_measured = self.frames_measured.saturating_add(1);
    }
}

/// The average lies between the extremes it is made of, and the longest frame is never forgotten.
pub proof fn law_averages_stay_between(stats: FrameTimeStats, elapsed: u64, budget: Option<u64>)
    requires
        stats.frames_measured > 0,
    ensures
        ({
            let after = stats.with_frame(elapsed, budget);
            let micros = capped(elapsed);
            &&& stats.average_frame_micros <= micros ==> stats.average_frame_micros
                <= after.average_frame_micros <= micros
            &&& micros <= stats.average_frame_micros ==> micros <= after.average_frame_micros
                <= stats.average_frame_micros
            &&& after.max_frame_micros >= micros
            &&& after.max_frame_micros >= stats.max_frame_micros
        }),
{
}

/// Every frame counts: the last one is shown as it was, the budget as it is, frames over it are
/// counted and others are not, and the average moves by a sixty-fourth of the way towards the last
/// frame (rounded up).
pub proof fn law_every_frame_is_measured(stats: FrameTimeStats, elapsed: u64, budget: u64)
    requires
        elapsed <= u32::MAX,
        budget <= u32::MAX,
        stats.frames_measured < u64::MAX,
        stats.frames_over_budget < u64::MAX,
    ensures
        ({
            let after = stats.with_frame(elapsed, Some(budget));
            &&& after.last_frame_micros == elapsed
            &&& after.budget_micros == budget
            &&& after.frames_measured == stats.frames_measured + 1
            &&& elapsed > budget ==> after.frames_over_budget == stats.frames_over_budget + 1
            &&& elapsed <= budget ==> after.frames_over_budget == stats.frames_over_budget
            &&& stats.frames_measured == 0 ==> after.average_frame_micros == elapsed
            &&& stats.frames_measured > 0 ==> 0 <= 64 * (after.average_frame_micros
                - stats.average_frame_micros) - (elapsed - stats.average_frame_micros) < 64
            &&& after.max_frame_micros == stats.max_frame_micros || after.max_frame_micros
                == elapsed
        }),
        stats.with_frame(elapsed, None).budget_micros == 0,
        stats.with_frame(elapsed, None).frames_over_budget == stats.frames_over_budget,
{
}

// ---------------------------------------------------------------------------------------------
// Waiting.

/// Longest single wait before the next frame, in microseconds; keeps commands and memory tools
/// responsive.
pub const MAX_FRAME_WAIT: u64 = 8000;

/// Sleeping overshoots by a fraction of a millisecond, so it stops this far before the deadline,
/// and the core's own timestamp check takes the last stretch.
pub const WAKE_EARLY: u64 = 1000;

/// How long to wait when the next frame is due in `until` microseconds, if the core knows.
pub open spec fn wait_for(until: Option<u64>) -> int {
    match until {
        None => MAX_FRAME_WAIT as int,
        Some(until) => if until <= WAKE_EARLY {
            0
        } else if until - WAKE_EARLY < MAX_FRAME_WAIT {
            until - WAKE_EARLY
        } else {
            MAX_FRAME_WAIT as int
        },
    }
}

/// A wait ends before the frame is due, a millisecond early, and is never longer than eight
/// milliseconds; with several waits the frame is met.
pub proof fn law_waits_are_short(until: u64)
    ensures
        0 <= wait_for(Some(until)) <= 8000,
        wait_for(Some(until)) <= until,
        until > 1000 ==> wait_for(Some(until)) > 0,
        1000 <= until <= 9000 ==> until - wait_for(Some(until)) == 1000,
        wait_for(None) == 8000,
{
}

/// How long to wait when the next frame is due in `until` microseconds (if the core knows); a core
/// without pacing is waited for a bounded time rather than spun on.
pub fn frame_wait(until: Option<u64>) -> (r: u64)
    ensures
        r == wait_for(until),
{
    match until {
        None => MAX_FRAME_WAIT,
        Some(until) => {
            if until <= WAKE_EARLY {
                return 0;
            }
            let most: u64 = until - WAKE_EARLY;
            if most < MAX_FRAME_WAIT {
                most
            } else {
                MAX_FRAME_WAIT
            }
        },
    }
}

// ---------------------------------------------------------------------------------------------
// Freezes of an attached memory tool.

/// Freeze entries held at once; a tool that asks for more than this just stops gaining new freezes
/// (existing ones, and the one-shot write that came with a refused request, are unaffected).
pub const MAX_FREEZES: usize = 256;

// ---------------------------------------------------------------------------------------------
// What the thread's owner knows of the replay.

/// What the owner of a core thread knows of the attached replay without asking the thread.
#[derive(Copy, Clone, Debug, PartialEq, Eq, Structural)]
pub struct ReplayStatus {
    /// Whether a replay is attached (playing or stopped).
    pub playback: bool,
    /// Whether the attached replay is stopped.
    pub playback_stopped: bool,
    pub total_frames: u64,
    pub total_milliseconds: u64,
}

/// No replay.
pub open spec fn no_replay() -> ReplayStatus {
    ReplayStatus {
        playback: false,
        playback_stopped: false,
        total_frames: 0,
        total_milliseconds: 0,
    }
}

impl Default for ReplayStatus {
    fn default() -> (r: Self)
        ensures
            r == no_replay(),
    {
        ReplayStatus {
            playback: false,
            playback_stopped: false,
            total_frames: 0,
            total_milliseconds: 0,
        }
    }
}

impl ReplayStatus {
    /// Whether the replay is driving the game.
    pub fn is_playing_back(&self) -> (r: bool)
        ensures
            r == (self.playback && !self.playback_stopped),
    {
        self.playback && !self.playback_stopped
    }

    /// Whether a replay is attached, driving or not.
    pub fn has_replay_attached(&self) -> (r: bool)
        ensures
            r == self.playback,
    {
        self.playback
    }

    /// Whether a replay is attached and stopped.
    pub fn is_replay_playback_stopped(&self) -> (r: bool)
        ensures
            r == (self.playback && self.playback_stopped),
    {
        self.playback && self.playback_stopped
    }

    /// The number of frames of the replay.
    pub fn get_playback_total_frames(&self) -> (r: u32)
        ensures
            r == low(self.total_frames),
    {
        lower(self.total_frames)
    }

    /// The length of the replay in milliseconds.
    pub fn get_playback_total_milliseconds(&self) -> (r: u32)
        ensures
            r == low(self.total_milliseconds),
    {
        lower(self.total_milliseconds)
    }

    /// The thread was asked to attach a replay of that length, and answered. A failed attach leaves
    /// nothing attached; a refused one was rejected before anything was touched.
    pub fn attach_answered(
        &mut self,
        total_frames: u64,
        total_milliseconds: u64,
        answer: &Result<(), ReplayPlayerAttachError>,
    )
        ensures
            *final(self) == (match *answer {
                Ok(_) => ReplayStatus {
                    playback: true,
                    playback_stopped: false,
                    total_frames,
                    total_milliseconds,
                },
                Err(ReplayPlayerAttachError::Failed { .. }) => no_replay(),
                Err(_) => *old(self),
            }),
    {
        match answer {
            Ok(_) => {
                self.playback = true;
                self.playback_stopped = false;
                self.total_frames = total_frames;
                self.total_milliseconds = total_milliseconds;
            },
            Err(ReplayPlayerAttachError::Failed { .. }) => self.detached(),
            Err(_) => {},
        }
    }

    /// The replay was let go of: detached, or resumed from as a recording.
    pub fn detached(&mut self)
        ensures
            *final(self) == no_replay(),
    {
        self.playback = false;
        self.playback_stopped = false;
        self.total_frames = 0;
        self.total_milliseconds = 0;
    }

    /// Stop playback, if it is playing back. Returns whether the thread is to be told.
    pub fn stop_playback(&mut self) -> (r: bool)
        ensures
            r == (old(self).playback && !old(self).playback_stopped),
            *final(self) == (if r {
                ReplayStatus { playback_stopped: true, ..*old(self) }
            } else {
                *old(self)
            }),
    {
        if !self.is_playing_back() {
            return false;
        }
        self.playback_stopped = true;
        true
    }

    /// Resume playback, if it is stopped. Returns whether the thread is to be told. It is playing
    /// back again either way: a failed seek leaves the core stalled in the replay.
    pub fn resume_playback(&mut self) -> (r: bool)
        ensures
            r == (old(self).playback && old(self).playback_stopped),
            *final(self) == (if r {
                ReplayStatus { playback_stopped: false, ..*old(self) }
            } else {
                *old(self)
            }),
    {
        if !self.is_replay_playback_stopped() {
            return false;
        }
        self.playback_stopped = false;
        true
    }
}

// ---------------------------------------------------------------------------------------------
// The thread.

/// Current elapsed time (the frame count corresponds to milliseconds and vice versa).
#[derive(Copy, Clone, Debug)]
pub struct ElapsedTimeStats {
    pub milliseconds: u32,
    pub frames: u32,
    pub speed: Speed,
    /// The attached replay's position: the frame being played back (`frames`), or, while the replay
    /// is stopped, the frame playback resumes from while `frames` keeps counting the live play. 0
    /// without a replay.
    pub replay_frame: u32,
    /// Incremented every time a newly drawn frame is published. Frames that were emulated but not
    /// drawn (fast-forward) do not change it, so compare this rather than `frames` to decide
    /// whether the screens need re-reading.
    pub screen_generation: u32,
}

/// A number's lower 32 bits.
pub open spec fn low(n: u64) -> u32 {
    (n % 0x1_0000_0000) as u32
}

fn lower(n: u64) -> (r: u32)
    ensures
        r == low(n),
{
    (n % 0x1_0000_0000) as u32
}

/// What there is to do about the screens.
#[derive(Copy, Clone, Debug, PartialEq, Eq, Structural)]
pub enum ScreenUpdate {
    /// Nothing.
    Nothing,
    /// Only the elapsed time is new.
    Stats,
    /// There is a new picture.
    Publish,
}

/// How a run went.
#[derive(Copy, Clone, Debug, PartialEq, Eq, Structural)]
pub enum Ran {
    /// That many frames were emulated.
    Frames(u64),
    /// Nothing was, but there is no reason to wait.
    Again,
    /// It is not time for a frame yet.
    Wait,
}

/// A session on its thread.
pub struct CoreThread<C, T> {
    pub core: SuperShuckieCore<C, T>,
    /// Whether there is no game at all.
    pub is_null: bool,
    pub paused: bool,
    /// Whether playback stands still although it is not paused.
    pub frozen: bool,
    /// See [`ElapsedTimeStats::screen_generation`].
    pub screen_generation: u32,
    /// The last run whose frame was handed out (or deliberately not, because it was not drawn).
    pub published_run_serial: u64,
    /// Whether a picture waits because the reader held the screens when it was drawn.
    pub picture_waits: bool,
    /// Seeks that failed.
    pub playback_errors: Vec<String>,
    pub freezes: BTreeMap<u64, Vec<u8>>,
    /// The `(frame, state epoch)` at which the freezes were last applied.
    pub last_freeze: Option<(u64, u64)>,
    /// The `(frame, state epoch)` at which an attached memory tool last read.
    pub last_read: Option<(u64, u64)>,
}

/// A frame some frames from another.
pub open spec fn offset_frame(frame: u64, delta: i32) -> u64 {
    let target = frame + delta;
    if target < 0 {
        0
    } else if target > u64::MAX {
        u64::MAX
    } else {
        target as u64
    }
}

fn offset_by(frame: u64, delta: i32) -> (r: u64)
    ensures
        r == offset_frame(frame, delta),
{
    if delta >= 0 {
        frame.saturating_add(delta as u64)
    } else {
        frame.saturating_sub((-(delta as i64)) as u64)
    }
}

/// What a failed seek adds to the errors.
pub open spec fn with_problem(errors: Seq<String>, after: Seq<String>, r: Result<(), String>) -> bool {
    match r {
        Ok(_) => after == errors,
        Err(why) => after == errors.push(why),
    }
}

impl<C: EmulatorCore, T: MonotonicTimestampProvider> CoreThread<C, T> {
    /// The parts are valid.
    pub open spec fn wf(self) -> bool {
        &&& self.core.wf()
        &&& self.freezes@.len() <= MAX_FREEZES
        &&& forall|address: u64| #[trigger]
            self.freezes@.contains_key(address) ==> address <= u32::MAX
    }

    /// A session on its thread, running.
    pub fn new(core: SuperShuckieCore<C, T>) -> (r: Self)
        requires
            core.wf(),
        ensures
            r.wf(),
            r.core == core,
            r.is_null == core.core.identity().null,
            !r.paused,
            !r.frozen,
            r.screen_generation == 0,
            r.published_run_serial == 0,
            !r.picture_waits,
            r.playback_errors@.len() == 0,
            r.freezes@ == Map::<u64, Vec<u8>>::empty(),
            r.last_freeze is None,
            r.last_read is None,
    {
        let is_null: bool = core.get_core().is_null();
        CoreThread {
            core,
            is_null,
            paused: false,
            frozen: false,
            screen_generation: 0,
            published_run_serial: 0,
            picture_waits: false,
            playback_errors: Vec::new(),
            freezes: BTreeMap::new(),
            last_freeze: None,
            last_read: None,
        }
    }

    /// Whether the game is running.
    pub open spec fn running(self) -> bool {
        !self.is_null && !self.paused
    }

    /// Whether the game is running.
    pub fn is_running(&self) -> (r: bool)
        ensures
            r == self.running(),
    {
        !self.is_null && !self.paused
    }

    /// Whether frames are to be emulated now.
    pub fn may_run(&self) -> (r: bool)
        ensures
            r == (self.running() && !self.frozen),
    {
        self.is_running() && !self.frozen
    }

    /// How long to wait for commands when nothing runs, in milliseconds: less with a replay
    /// attached, so that seeking stays responsive.
    pub fn idle_wait(&self) -> (r: u64)
        ensures
            r == (if self.core.playback.player is Some {
                10int
            } else {
                100
            }),
    {
        if self.core.has_replay_attached() {
            10
        } else {
            100
        }
    }

    // -----------------------------------------------------------------------------------------
    // Starting and pausing.

    /// After a replay that had run out was put back to its start, if it had, by a thread that is no
    /// longer paused.
    pub open spec fn rewound(self, after: Self) -> bool {
        let running = CoreThread { paused: false, ..self };
        if self.core.playback.stalled {
            running.sought(after, 0)
        } else {
            after == running
        }
    }

    /// Run, if paused. A replay that has run out starts over.
    pub fn start(&mut self)
        requires
            old(self).wf(),
        ensures
            final(self).wf(),
            if old(self).paused {
                exists|rewound: Self| #[trigger]
                    old(self).rewound(rewound) && rewound.core.unpaused(final(self).core)
                        && *final(self) == (CoreThread { core: final(self).core, ..rewound })
            } else {
                *final(self) == *old(self)
            },
    {
        if !self.paused {
            return;
        }
        let ghost before = *self;
        self.paused = false;
        if self.core.is_replay_stalled() {
            self.seek(0);
        }
        let ghost rewound = *self;
        assert(before.rewound(rewound));
        self.core.unpause_timer();
    }

    /// Pause, if running.
    pub fn pause(&mut self)
        ensures
            *final(self) == (if old(self).paused {
                *old(self)
            } else {
                CoreThread { paused: true, core: old(self).core.paused(), ..*old(self) }
            }),
            old(self).wf() ==> final(self).wf(),
    {
        if !self.paused {
            self.paused = true;
            self.core.pause_timer();
        }
    }

    /// With the wall-clock timer in step with the pause state.
    pub open spec fn settled(self) -> Self {
        if self.running() {
            self
        } else {
            CoreThread { core: self.core.paused(), ..self }
        }
    }

    /// Keep the wall-clock timer in step with the pause state, after something that restarted it.
    pub fn settle_timer(&mut self)
        ensures
            *final(self) == old(self).settled(),
            old(self).wf() ==> final(self).wf(),
    {
        if !self.is_running() {
            self.core.pause_timer();
        }
    }

    /// A replay that has run out pauses.
    pub fn check_if_replay_stalled(&mut self) -> (r: bool)
        ensures
            r == old(self).core.playback.stalled,
            *final(self) == (CoreThread { paused: old(self).paused || r, ..*old(self) }),
            old(self).wf() ==> final(self).wf(),
    {
        let stalled: bool = self.core.is_replay_stalled();
        if stalled {
            self.paused = true;
        }
        stalled
    }

    // -----------------------------------------------------------------------------------------
    // Seeking.

    /// After one seek.
    pub open spec fn sought(self, after: Self, frame: u64) -> bool {
        exists|went: Result<(), String>| #[trigger]
            self.core.went_to_frame(after.core, frame, went) && with_problem(
                self.playback_errors@,
                after.playback_errors@,
                went,
            ) && after == (CoreThread {
                core: after.core,
                playback_errors: after.playback_errors,
                ..self
            })
    }

    fn seek(&mut self, frame: u64)
        requires
            old(self).wf(),
        ensures
            final(self).wf(),
            old(self).sought(*final(self), frame),
    {
        let ghost before = *self;
        let went: Result<(), String> = self.core.go_to_replay_frame(frame);
        let ghost outcome = went;
        assert(before.core.went_to_frame(self.core, frame, outcome));
        if let Err(why) = went {
            self.playback_errors.push(why);
        }
    }

    /// After the seeks that were asked for: to a frame, then by some frames from wherever that led.
    pub open spec fn moved(self, after: Self, frame: Option<u32>, delta: i32) -> bool {
        exists|jumped: Self| #[trigger]
            self.jumped(jumped, frame) && if delta != 0 {
                jumped.sought(after, offset_frame(jumped.core.timer.frames, delta))
            } else {
                after == jumped
            }
    }

    /// After the seek to a frame, if one was asked for.
    pub open spec fn jumped(self, after: Self, frame: Option<u32>) -> bool {
        match frame {
            Some(frame) => self.sought(after, frame as u64),
            None => after == self,
        }
    }

    /// Go where the user wants the replay to be. An absolute seek (if any) applies first, then the
    /// delta relative to the resulting frame: both may be set at once. Returns whether anything was
    /// sought, so that the screens are to be refreshed.
    ///
    /// A seek in a stopped replay hands the emulator back live at the new frame, which restarts the
    /// wall-clock timer; it is kept in step with the pause state.
    pub fn go_to_desired_frame(&mut self, frame: Option<u32>, delta: i32) -> (r: bool)
        requires
            old(self).wf(),
        ensures
            final(self).wf(),
            r == (frame is Some || delta != 0),
            !r ==> *final(self) == *old(self),
            r ==> exists|moved: Self| #[trigger]
                old(self).moved(moved, frame, delta) && *final(self) == moved.settled(),
    {
        if frame.is_none() && delta == 0 {
            return false;
        }
        let ghost before = *self;
        if let Some(frame) = frame {
            self.seek(frame as u64);
        }
        let ghost jumped = *self;
        assert(before.jumped(jumped, frame));
        if delta != 0 {
            let target: u64 = offset_by(self.core.total_frames(), delta);
            self.seek(target);
        }
        let ghost moved = *self;
        assert(before.moved(moved, frame, delta));
        self.settle_timer();
        true
    }

    // -----------------------------------------------------------------------------------------
    // Replays.

    /// Attach a replay.
    pub fn attach_replay_player(&mut self, player: ReplayFilePlayer, allow_mismatched: bool) -> (r:
        Result<(), ReplayPlayerAttachError>)
        requires
            old(self).wf(),
        ensures
            final(self).wf(),
            exists|attached: SuperShuckieCore<C, T>| #[trigger]
                old(self).core.attaches(attached, player, allow_mismatched, r) && *final(self) == (if r
                    is Ok {
                    (CoreThread { core: attached, ..*old(self) }).settled()
                } else {
                    CoreThread { core: attached, ..*old(self) }
                }),
    {
        let ghost before = *self;
        let attached: Result<(), ReplayPlayerAttachError> = self.core.attach_replay_player(
            player,
            allow_mismatched,
        );
        assert(before.core.attaches(self.core, player, allow_mismatched, attached));
        if attached.is_ok() {
            self.settle_timer();
        }
        attached
    }

    /// Stop the attached replay. The game is live from here on, so the wall-clock timer matters
    /// again.
    pub fn stop_replay_playback(&mut self)
        requires
            old(self).wf(),
        ensures
            final(self).wf(),
            exists|stopped: SuperShuckieCore<C, T>, did: bool| #[trigger]
                old(self).core.stops_playback(stopped, did) && *final(self) == (CoreThread {
                    core: stopped,
                    ..*old(self)
                }).settled(),
    {
        let ghost before = *self;
        let did: bool = self.core.stop_replay_playback();
        assert(before.core.stops_playback(self.core, did));
        self.settle_timer();
    }

    /// Resume the stopped replay. Whatever was played live since stopping is gone, so the resume
    /// point is to be shown.
    pub fn resume_replay_playback(&mut self) -> (r: Result<(), String>)
        requires
            old(self).wf(),
        ensures
            final(self).wf(),
            old(self).core.resumes_playback(final(self).core, r),
            *final(self) == (CoreThread { core: final(self).core, ..*old(self) }).forced(),
    {
        let resumed: Result<(), String> = self.core.resume_replay_playback();
        self.screens_forced();
        resumed
    }

    /// Put the stopped replay's game back at the resume point.
    pub fn go_to_replay_resume_point(&mut self)
        requires
            old(self).wf(),
        ensures
            final(self).wf(),
            exists|went: Self, r: Result<(), String>| #[trigger]
                old(self).core.goes_to_resume_point(went.core, r) && with_problem(
                    old(self).playback_errors@,
                    went.playback_errors@,
                    r,
                ) && went == (CoreThread {
                    core: went.core,
                    playback_errors: went.playback_errors,
                    ..*old(self)
                }) && *final(self) == went.settled().forced(),
    {
        let ghost before = *self;
        let went: Result<(), String> = self.core.go_to_replay_resume_point();
        let ghost outcome = went;
        if let Err(why) = went {
            self.playback_errors.push(why);
        }
        let ghost gone = *self;
        assert(before.core.goes_to_resume_point(gone.core, outcome));
        self.settle_timer();
        self.screens_forced();
    }

    /// Errors of the recording's file came in, told apart by whether only the crash-safe temporary
    /// copy failed: the recording is still fine then. Any other error means the final file itself
    /// is in trouble, and recording stops.
    pub fn recording_errors(&mut self, only_temporary: &Vec<bool>)
        ensures
            only_temporary@.contains(false) ==> old(self).core.recording_dropped(final(self).core)
                && *final(self) == (CoreThread { core: final(self).core, ..*old(self) }),
            !only_temporary@.contains(false) ==> *final(self) == *old(self),
            old(self).wf() ==> final(self).wf(),
    {
        let mut i: usize = 0;
        while i < only_temporary.len()
            invariant
                i <= only_temporary@.len(),
                *self == *old(self),
                forall|k: int| 0 <= k < i ==> only_temporary@[k],
            decreases only_temporary@.len() - i,
        {
            if !only_temporary[i] {
                assert(only_temporary@[i as int] == false);
                self.core.force_stop_recording_replay();
                return;
            }
            i = i + 1;
        }
    }

    /// A state of the game: a frame that is partly emulated is finished first.
    pub fn create_save_state(&mut self) -> (r: Vec<u8>)
        requires
            old(self).wf(),
        ensures
            final(self).wf(),
            old(self).core.frame_finished(final(self).core),
            *final(self) == (CoreThread { core: final(self).core, ..*old(self) }),
            r@ == final(self).core.core.state(),
    {
        self.core.finish_current_frame();
        self.core.create_save_state()
    }

    /// Place a bookmark, unless whoever asked has given up waiting: placing it (and, for a keyframe
    /// bookmark, writing its keyframe) would only leave an orphan then.
    pub fn bookmark_anchor(&mut self, keyframe: bool, now: u64, deadline: u64) -> (r: Option<
        Result<BookmarkAnchor, BookmarkAnchorError>,
    >)
        requires
            old(self).wf(),
        ensures
            final(self).wf(),
            now > deadline ==> r is None && *final(self) == *old(self),
            now <= deadline ==> (r matches Some(placed) && old(self).core.bookmarked(
                final(self).core,
                keyframe,
                placed,
            )) && *final(self) == (CoreThread { core: final(self).core, ..*old(self) }),
    {
        if now > deadline {
            return None;
        }
        Some(self.core.bookmark_anchor(keyframe))
    }

    /// Whether a memory tool attached to another session may go on with this one: it must be the
    /// same game on the same console.
    pub fn takes_tool_of(&self, console: ReplayConsoleType, rom_checksum: &[u8; 32]) -> (r: bool)
        ensures
            r == (self.core.core.identity().rom_checksum@ == rom_checksum@
                && self.core.core.identity().console == Some(console)),
    {
        let same_console: bool = match self.core.get_core().replay_console_type() {
            Some(own) => own == console,
            None => false,
        };
        cable::same_hash(&self.core.get_core().rom_checksum(), rom_checksum) && same_console
    }

    // -----------------------------------------------------------------------------------------
    // Running.

    /// How the last run went.
    pub open spec fn ran_as(self) -> Ran {
        if self.core.runs.last.frames > 0 {
            Ran::Frames(self.core.runs.last.frames)
        } else if self.core.playback.stalled || self.core.core.mid_frame() {
            Ran::Again
        } else {
            Ran::Wait
        }
    }

    /// Run the core once.
    pub fn run_one(&mut self) -> (r: Ran)
        requires
            old(self).wf(),
        ensures
            final(self).wf(),
            old(self).core.ran_drawing(
                final(self).core,
                old(self).core.skips_drawing(),
                false,
                true,
            ),
            *final(self) == (CoreThread { core: final(self).core, ..*old(self) }),
            r == final(self).ran_as(),
    {
        self.core.run();
        let time: RunTime = self.core.last_run_time();
        if time.frames > 0 {
            return Ran::Frames(time.frames);
        }
        if self.core.is_replay_stalled() || self.core.is_mid_frame() {
            // Not a pacing wait (a console stepped inside a frame, or nothing to run): keep going.
            return Ran::Again;
        }
        Ran::Wait
    }

    /// Service the memory tools. A trace whose condition was met pauses the game.
    pub fn handle_memory_monitor(
        &mut self,
        monitor: &mut MemoryMonitorLocal,
        shared: &mut MemoryMonitorShared,
        now: u64,
    )
        requires
            old(self).wf(),
            old(monitor)@.wf(),
            old(shared).wf(),
        ensures
            final(self).wf(),
            final(monitor)@.wf(),
            final(shared).wf(),
            old(self).running() && old(self).core.core.mid_frame() ==> {
                &&& *final(self) == *old(self)
                &&& final(monitor)@ == old(monitor)@
                &&& *final(shared) == *old(shared)
            },
            !(old(self).running() && old(self).core.core.mid_frame()) ==> exists|
                pass: service::Pass,
                cores: service::Cores<SuperShuckieCore<C, T>>,
                after: SuperShuckieCore<C, T>,
                outcome: ServiceOutcome,
            | #[trigger]
                service::serviced(
                    pass,
                    cores,
                    old(monitor)@,
                    final(monitor)@,
                    old(self).core,
                    after,
                    *old(shared),
                    *final(shared),
                    old(self).running(),
                    now,
                    outcome,
                ) && *final(self) == (if outcome.pause && !old(self).paused {
                    CoreThread { paused: true, core: after.paused(), ..*old(self) }
                } else {
                    CoreThread { core: after, ..*old(self) }
                }),
    {
        let running: bool = self.is_running();
        let outcome: ServiceOutcome = monitor.service(&mut self.core, shared, running, now);
        if outcome.pause {
            self.pause();
        }
    }

    /// Service the memory tools while their owner holds the shared half: nothing new is pulled, and
    /// what there is to hand over waits.
    pub fn handle_memory_monitor_unshared(&mut self, monitor: &mut MemoryMonitorLocal, now: u64)
        requires
            old(self).wf(),
            old(monitor)@.wf(),
        ensures
            final(self).wf(),
            final(monitor)@.wf(),
            old(self).running() && old(self).core.core.mid_frame() ==> {
                &&& *final(self) == *old(self)
                &&& final(monitor)@ == old(monitor)@
            },
            !(old(self).running() && old(self).core.core.mid_frame()) ==> exists|
                pass: service::Pass,
                cores: service::Cores<SuperShuckieCore<C, T>>,
                after: SuperShuckieCore<C, T>,
                worked: Worked,
            | #[trigger]
                service::worked_on(
                    pass,
                    cores,
                    old(monitor)@,
                    final(monitor)@,
                    old(self).core,
                    after,
                    service::Todo {
                        running: old(self).running(),
                        request_changed: false,
                        edits_arrived: false,
                        now,
                    },
                    worked,
                ) && *final(self) == (if worked.pause && !old(self).paused {
                    CoreThread { paused: true, core: after.paused(), ..*old(self) }
                } else {
                    CoreThread { core: after, ..*old(self) }
                }),
    {
        let running: bool = self.is_running();
        let worked: Worked = monitor.work(&mut self.core, running, false, false, now);
        if worked.pause {
            self.pause();
        }
    }

    // -----------------------------------------------------------------------------------------
    // Screens.

    /// What there is to do about the screens.
    pub open spec fn update(self) -> ScreenUpdate {
        if self.running() && self.core.core.mid_frame() {
            ScreenUpdate::Nothing
        } else if self.core.runs.serial == self.published_run_serial
            || !self.core.runs.last.presented {
            ScreenUpdate::Stats
        } else {
            ScreenUpdate::Publish
        }
    }

    /// What there is to publish: only a run that drew something has anything; runs made inside
    /// commands (loading a state, a seek's last frame) count too.
    pub fn refresh_screen_data(&mut self) -> (r: ScreenUpdate)
        ensures
            r == old(self).update(),
            *final(self) == (if r == ScreenUpdate::Nothing {
                *old(self)
            } else {
                CoreThread { published_run_serial: old(self).core.runs.serial, ..*old(self) }
            }),
            old(self).wf() ==> final(self).wf(),
    {
        if self.is_running() && self.core.is_mid_frame() {
            return ScreenUpdate::Nothing;
        }
        let serial: u64 = self.core.run_serial();
        if serial == self.published_run_serial {
            return ScreenUpdate::Stats;
        }
        self.published_run_serial = serial;
        if !self.core.last_frame_presented() {
            return ScreenUpdate::Stats;
        }
        ScreenUpdate::Publish
    }

    /// A new picture was handed to the reader, or queued because the reader held the screens.
    pub fn picture_drawn(&mut self, handed_over: bool)
        ensures
            *final(self) == (CoreThread {
                picture_waits: !handed_over,
                screen_generation: if handed_over {
                    old(self).screen_generation.wrapping_add(1)
                } else {
                    old(self).screen_generation
                },
                ..*old(self)
            }),
            old(self).wf() ==> final(self).wf(),
    {
        self.picture_waits = !handed_over;
        if handed_over {
            self.screen_generation = self.screen_generation.wrapping_add(1);
        }
    }

    /// With the screens refreshed whatever was published last.
    pub open spec fn forced(self) -> Self {
        CoreThread {
            picture_waits: false,
            screen_generation: self.screen_generation.wrapping_add(1),
            published_run_serial: self.core.runs.serial,
            ..self
        }
    }

    /// The screens are refreshed whatever was published last (after a seek).
    pub fn screens_forced(&mut self)
        ensures
            *final(self) == old(self).forced(),
            old(self).wf() ==> final(self).wf(),
    {
        self.screen_generation = self.screen_generation.wrapping_add(1);
        self.published_run_serial = self.core.run_serial();
        self.picture_waits = false;
    }

    /// The elapsed time as it is now.
    pub fn elapsed_time(&self) -> (r: ElapsedTimeStats)
        ensures
            r.milliseconds == low(self.core.timer.millis),
            r.frames == low(self.core.timer.frames),
            r.speed == self.core.audio.speed,
            r.replay_frame == low(self.core.position().0),
            r.screen_generation == self.screen_generation,
    {
        ElapsedTimeStats {
            milliseconds: lower(self.core.get_recording_milliseconds()),
            frames: lower(self.core.total_frames()),
            speed: self.core.audio.speed,
            replay_frame: lower(self.core.replay_position().0),
            screen_generation: self.screen_generation,
        }
    }

    // -----------------------------------------------------------------------------------------
    // An attached memory tool.

    /// A write the tool asked for. An address that does not fit is simply not something this core
    /// can write.
    pub fn tool_writes(&mut self, address: u64, data: Vec<u8>)
        requires
            old(self).wf(),
        ensures
            final(self).wf(),
            *final(self) == (CoreThread { core: final(self).core, ..*old(self) }),
            if address <= u32::MAX && !old(self).core.playing_back() {
                old(self).core.write_enqueued(final(self).core, address as u32, data@)
            } else {
                final(self).core == old(self).core
            },
    {
        if address <= u32::MAX as u64 {
            let _ = self.core.enqueue_write(address as u32, data);
        }
    }

    /// A value the tool wants written and held in place.
    pub fn tool_freezes(&mut self, address: u64, data: Vec<u8>)
        requires
            old(self).wf(),
        ensures
            final(self).wf(),
            *final(self) == (CoreThread {
                core: final(self).core,
                freezes: final(self).freezes,
                ..*old(self)
            }),
            if address <= u32::MAX && !old(self).core.playing_back() {
                old(self).core.write_enqueued(final(self).core, address as u32, data@)
            } else {
                final(self).core == old(self).core
            },
            final(self).freezes@ == (if address <= u32::MAX && (old(self).freezes@.contains_key(
                address,
            ) || old(self).freezes@.len() < MAX_FREEZES) {
                old(self).freezes@.insert(address, data)
            } else {
                old(self).freezes@
            }),
    {
        if address <= u32::MAX as u64 {
            let copy: Vec<u8> = crate::replay::packet::copy_bytes(&data);
            let _ = self.core.enqueue_write(address as u32, copy);
            if self.freezes.contains_key(&address) || self.freezes.len() < MAX_FREEZES {
                let _ = self.freezes.insert(address, data);
            }
        }
    }

    /// A value the tool no longer holds in place.
    pub fn tool_unfreezes(&mut self, address: u64)
        requires
            old(self).wf(),
        ensures
            final(self).wf(),
            *final(self) == (CoreThread { freezes: final(self).freezes, ..*old(self) }),
            final(self).freezes@ == old(self).freezes@.remove(address),
    {
        let _ = self.freezes.remove(&address);
    }

    /// The tool starts over: nothing is held in place.
    pub fn tool_resets(&mut self)
        requires
            old(self).wf(),
        ensures
            final(self).wf(),
            *final(self) == (CoreThread { freezes: final(self).freezes, ..*old(self) }),
            final(self).freezes@ == Map::<u64, Vec<u8>>::empty(),
    {
        self.freezes.clear();
    }

    /// After holding one value in place: it is written only if the game changed it.
    pub open spec fn held_in_place(
        before: SuperShuckieCore<C, T>,
        after: SuperShuckieCore<C, T>,
        address: u64,
        data: Seq<u8>,
    ) -> bool {
        if !before.playing_back() && before.differs_at(address as u32, data) {
            before.write_enqueued(after, address as u32, data)
        } else {
            after == before
        }
    }

    /// Whether each step holds one value in place, in the order of their addresses.
    pub open spec fn freezes_applied_in(
        before: SuperShuckieCore<C, T>,
        after: SuperShuckieCore<C, T>,
        held: Map<u64, Vec<u8>>,
        addresses: Seq<u64>,
        steps: Seq<SuperShuckieCore<C, T>>,
    ) -> bool {
        &&& ordered::keys_of(held, addresses)
        &&& steps.len() == addresses.len() + 1
        &&& steps[0] == before
        &&& steps.last() == after
        &&& forall|i: int|
            0 <= i < addresses.len() ==> Self::held_in_place(
                steps[i],
                steps[i + 1],
                #[trigger] addresses[i],
                held[addresses[i]]@,
            )
    }

    /// After all the values were held in place.
    pub open spec fn freezes_applied(
        before: SuperShuckieCore<C, T>,
        after: SuperShuckieCore<C, T>,
        held: Map<u64, Vec<u8>>,
    ) -> bool {
        exists|addresses: Seq<u64>, steps: Seq<SuperShuckieCore<C, T>>| #[trigger]
            Self::freezes_applied_in(before, after, held, addresses, steps)
    }

    fn apply_freezes(&mut self)
        requires
            old(self).wf(),
        ensures
            final(self).wf(),
            *final(self) == (CoreThread { core: final(self).core, ..*old(self) }),
            Self::freezes_applied(old(self).core, final(self).core, old(self).freezes@),
    {
        let ghost before = *self;
        let ghost held = self.freezes@;
        let ghost mut steps: Seq<SuperShuckieCore<C, T>> = seq![self.core];
        let addresses: Vec<u64> = ordered::keys_in_order(&self.freezes);
        let mut n: usize = 0;
        while n < addresses.len()
            invariant
                n <= addresses@.len(),
                ordered::keys_of(held, addresses@),
                held == self.freezes@,
                self.wf(),
                *self == (CoreThread { core: self.core, ..before }),
                steps.len() == n + 1,
                steps[0] == before.core,
                steps.last() == self.core,
                forall|i: int|
                    0 <= i < n ==> Self::held_in_place(
                        steps[i],
                        steps[i + 1],
                        #[trigger] addresses@[i],
                        held[addresses@[i]]@,
                    ),
            decreases addresses@.len() - n,
        {
            let ghost at = self.core;
            let address: u64 = addresses[n];
            assert(held.contains_key(addresses@[n as int]));
            if let Some(data) = self.freezes.get(&address) {
                let _ = self.core.write_if_changed(address as u32, data.as_slice());
            }
            proof {
                let done = steps;
                assert(Self::held_in_place(at, self.core, address, held[address]@));
                steps = steps.push(self.core);
                assert forall|i: int| 0 <= i < n + 1 implies Self::held_in_place(
                    steps[i],
                    steps[i + 1],
                    #[trigger] addresses@[i],
                    held[addresses@[i]]@,
                ) by {
                    if i < n {
                        assert(Self::held_in_place(
                            done[i],
                            done[i + 1],
                            addresses@[i],
                            held[addresses@[i]]@,
                        ));
                    }
                }
            }
            n = n + 1;
        }
        assert(Self::freezes_applied_in(before.core, self.core, held, addresses@, steps));
    }

    /// Where the game is, for what happens once per emulated frame.
    pub open spec fn frame_key(self) -> (u64, u64) {
        (self.core.timer.frames, self.core.runs.epoch)
    }

    /// After the freezes were applied: once per emulated frame while running, and not inside one.
    pub open spec fn tool_froze(self, after: Self) -> bool {
        if !self.running() || self.last_freeze == Some(self.frame_key()) {
            after == self
        } else {
            &&& after == (CoreThread {
                core: after.core,
                last_freeze: Some(self.frame_key()),
                ..self
            })
            &&& Self::freezes_applied(self.core, after.core, self.freezes@)
        }
    }

    /// Apply the freezes, and say whether the tool reads now; nothing happens inside a running
    /// frame.
    pub fn tool_turn(&mut self, first: bool, skip: Option<u32>) -> (r: bool)
        requires
            old(self).wf(),
        ensures
            final(self).wf(),
            if old(self).running() && old(self).core.core.mid_frame() {
                !r && *final(self) == *old(self)
            } else {
                exists|froze: Self| #[trigger]
                    old(self).tool_froze(froze) && r == read_due(
                        froze,
                        old(self).frame_key(),
                        first,
                        skip,
                    ) && *final(self) == (if froze.running() {
                        CoreThread { last_read: Some(old(self).frame_key()), ..froze }
                    } else {
                        froze
                    })
            },
    {
        let running: bool = self.is_running();
        if self.core.is_mid_frame() && running {
            return false;
        }
        let frame: u64 = self.core.total_frames();
        let epoch: u64 = self.core.state_epoch();
        let ghost before = *self;
        let fresh: bool = match self.last_freeze {
            Some((f, e)) => f != frame || e != epoch,
            None => true,
        };
        if running && fresh {
            self.last_freeze = Some((frame, epoch));
            self.apply_freezes();
        }
        let ghost froze = *self;
        assert(before.tool_froze(froze));
        if running {
            let again: bool = match self.last_read {
                Some((f, e)) => f == frame && e == epoch,
                None => false,
            };
            self.last_read = Some((frame, epoch));
            if again {
                return false;
            }
            if !first {
                if let Some(n) = skip {
                    if self.core.total_frames() % (n as u64 + 1) != 0 {
                        return false;
                    }
                }
            }
        }
        true
    }
}

/// Whether a tool reads, the game being at `key` before its freezes were applied: while paused
/// always; while running once per emulated frame, and then only one frame in `skip + 1` unless it
/// has not read at all yet.
pub open spec fn read_due<C: EmulatorCore, T: MonotonicTimestampProvider>(
    thread: CoreThread<C, T>,
    key: (u64, u64),
    first: bool,
    skip: Option<u32>,
) -> bool {
    !thread.running() || (thread.last_read != Some(key) && (first || (skip matches Some(n)
        ==> thread.core.timer.frames % ((n + 1) as u64) == 0)))
}

// ---------------------------------------------------------------------------------------------
// Laws.

/// A picture is handed out exactly if there is one that was not: a run that drew something, not in
/// the middle of a running frame, and each run's once.
pub proof fn law_every_picture_is_handed_out_once<C: EmulatorCore, T: MonotonicTimestampProvider>(
    before: CoreThread<C, T>,
    after: CoreThread<C, T>,
)
    requires
        after == (CoreThread { published_run_serial: before.core.runs.serial, ..before }),
    ensures
        before.update() == ScreenUpdate::Publish ==> before.core.runs.last.presented
            && before.published_run_serial != before.core.runs.serial && !(!before.is_null
            && !before.paused && before.core.core.mid_frame()),
        before.core.runs.last.presented && before.published_run_serial != before.core.runs.serial && (
        before.is_null || before.paused || !before.core.core.mid_frame()) ==> before.update()
            == ScreenUpdate::Publish,
        after.update() != ScreenUpdate::Publish,
{
}

/// A thread waits only when the core does: after a run that emulated nothing, was not in the middle
/// of a frame and has not run out of replay.
pub proof fn law_when_the_thread_waits<C: EmulatorCore, T: MonotonicTimestampProvider>(
    thread: CoreThread<C, T>,
)
    ensures
        thread.ran_as() == Ran::Wait <==> thread.core.runs.last.frames == 0
            && !thread.core.playback.stalled && !thread.core.core.mid_frame(),
        thread.core.runs.last.frames > 0 ==> thread.ran_as() == Ran::Frames(
            thread.core.runs.last.frames,
        ),
{
}

/// A replay that has run out starts over when the user goes on; one that has not goes on where it
/// is.
pub proof fn law_a_replay_that_ran_out_starts_over<C: EmulatorCore, T: MonotonicTimestampProvider>(
    before: CoreThread<C, T>,
    after: CoreThread<C, T>,
)
    requires
        before.rewound(after),
    ensures
        !after.paused,
        !before.core.playback.stalled ==> after.core == before.core,
        before.core.playback.stalled ==> exists|went: Result<(), String>| #[trigger]
            before.core.went_to_frame(after.core, 0, went) && (went is Err ==> after.playback_errors@
                == before.playback_errors@.push(went->Err_0)),
{
    if before.core.playback.stalled {
        let running = CoreThread { paused: false, ..before };
        assert(running.sought(after, 0));
        let went = choose|went: Result<(), String>| #[trigger]
            running.core.went_to_frame(after.core, 0, went) && with_problem(
                running.playback_errors@,
                after.playback_errors@,
                went,
            ) && after == (CoreThread {
                core: after.core,
                playback_errors: after.playback_errors,
                ..running
            });
        assert(before.core.went_to_frame(after.core, 0, went));
    }
}

/// Going by some frames goes that many from where the replay is, stopping at its beginning.
pub proof fn law_how_far_a_step_goes(frame: u64, delta: i32)
    requires
        frame <= u64::MAX - i32::MAX,
    ensures
        frame + delta >= 0 ==> offset_frame(frame, delta) == frame + delta,
        frame + delta < 0 ==> offset_frame(frame, delta) == 0,
{
}

/// A tool's freezes are applied once for each frame that is emulated while the game runs, and not
/// while it is paused.
pub proof fn law_a_tools_freezes_are_held_once_per_frame<
    C: EmulatorCore,
    T: MonotonicTimestampProvider,
>(before: CoreThread<C, T>, after: CoreThread<C, T>, again: CoreThread<C, T>)
    requires
        before.tool_froze(after),
    ensures
        before.paused || before.is_null ==> after == before,
        !before.paused && !before.is_null && (before.last_freeze is None || (
        before.last_freeze->0).0 != before.core.timer.frames || (before.last_freeze->0).1
            != before.core.runs.epoch) ==> {
            &&& CoreThread::<C, T>::freezes_applied(before.core, after.core, before.freezes@)
            &&& after.last_freeze == Some((before.core.timer.frames, before.core.runs.epoch))
        },
        !before.paused && !before.is_null && after.frame_key() == before.frame_key()
            && after.tool_froze(again) ==> again == after,
{
}

/// Every value a tool holds is put back where the game changed it, and no other value is touched.
pub proof fn law_every_held_value_has_its_turn<C: EmulatorCore, T: MonotonicTimestampProvider>(
    before: SuperShuckieCore<C, T>,
    after: SuperShuckieCore<C, T>,
    address: u64,
    data: Seq<u8>,
)
    requires
        CoreThread::<C, T>::held_in_place(before, after, address, data),
    ensures
        before.playing_back() ==> after == before,
        !before.differs_at(address as u32, data) ==> after == before,
        !before.playing_back() && before.differs_at(address as u32, data) ==> before.write_enqueued(
            after,
            address as u32,
            data,
        ),
{
}

/// A tool that asked to read one frame in so many reads exactly then, always reads at first, never
/// reads a frame twice, and reads whenever it likes while the game is paused.
pub proof fn law_when_a_tool_reads<C: EmulatorCore, T: MonotonicTimestampProvider>(
    thread: CoreThread<C, T>,
    key: (u64, u64),
    n: u32,
)
    ensures
        thread.paused || thread.is_null ==> read_due(thread, key, false, Some(n)),
        !thread.paused && !thread.is_null ==> {
            &&& thread.last_read == Some(key) ==> !read_due(thread, key, true, None)
            &&& thread.last_read != Some(key) ==> read_due(thread, key, true, Some(n))
            &&& thread.last_read != Some(key) ==> read_due(thread, key, false, None)
            &&& thread.last_read != Some(key) ==> (read_due(thread, key, false, Some(n))
                <==> thread.core.timer.frames as int % (n + 1) == 0)
        },
{
}

/// Stopping the game freezes its timer, and the screens are shown anew after a seek.
pub proof fn law_a_paused_game_has_a_paused_timer<C: EmulatorCore, T: MonotonicTimestampProvider>(
    thread: CoreThread<C, T>,
    now: u64,
)
    ensures
        thread.paused ==> thread.settled().core.timer_at(now) == thread.core.timer.millis,
        thread.running() ==> thread.settled() == thread,
        thread.forced().screen_generation != thread.screen_generation,
        thread.forced().update() != ScreenUpdate::Publish,
        !thread.forced().picture_waits,
{
}

/// Where the user wants the replay to be: at a frame, then so many frames from wherever that led.
pub proof fn law_absolute_seeks_come_first<C: EmulatorCore, T: MonotonicTimestampProvider>(
    before: CoreThread<C, T>,
    after: CoreThread<C, T>,
    frame: u32,
)
    requires
        before.moved(after, Some(frame), 0),
    ensures
        exists|went: Result<(), String>| #[trigger]
            before.core.went_to_frame(after.core, frame as u64, went),
        after.paused == before.paused,
{
    let jumped = choose|jumped: CoreThread<C, T>| #[trigger]
        before.jumped(jumped, Some(frame)) && after == jumped;
    assert(before.sought(jumped, frame as u64));
}

/// Going by some frames without a frame named goes from where the replay is.
pub proof fn law_relative_seeks_go_from_here<C: EmulatorCore, T: MonotonicTimestampProvider>(
    before: CoreThread<C, T>,
    after: CoreThread<C, T>,
    delta: i32,
)
    requires
        delta != 0,
        before.core.timer.frames <= u64::MAX - i32::MAX,
        before.core.timer.frames + delta >= 0,
        before.moved(after, None, delta),
    ensures
        exists|went: Result<(), String>| #[trigger]
            before.core.went_to_frame(
                after.core,
                (before.core.timer.frames + delta) as u64,
                went,
            ),
{
    let jumped = choose|jumped: CoreThread<C, T>| #[trigger]
        before.jumped(jumped, None) && jumped.sought(
            after,
            offset_frame(jumped.core.timer.frames, delta),
        );
    assert(jumped == before);
}

/// A seek that fails is reported with its reason, after everything that was reported before; one
/// that succeeds reports nothing.
pub proof fn law_failed_seeks_are_reported(
    errors: Seq<String>,
    after: Seq<String>,
    r: Result<(), String>,
)
    requires
        with_problem(errors, after, r),
    ensures
        forall|i: int| 0 <= i < errors.len() ==> after[i] == #[trigger] errors[i],
        after.len() == errors.len() + (if r is Err {
            1int
        } else {
            0
        }),
        r matches Err(why) ==> after.last() == why,
{
}

} // verus!
