//! Going to a frame of a replay, and stopping and resuming its playback.

use super::compat;
use super::compat::ReplayPlayerAttachError;
use super::effects;
use super::following;
use super::following::POST_LOAD_FRAMES;
use super::state::{
    InputState, MonotonicTimestampProvider, PlaybackState, RecorderState, RunState,
    SuperShuckieCore, TimerState, WriteModel,
};
use crate::emulator::console;
use crate::emulator::console::{CoreCall, EmulatorCore};
use crate::emulator::input::Input;
use crate::replay::packet;
use crate::replay::packet::{KeyframeMetadata, Packet};
use crate::replay::player;
use crate::replay::player::{ReplayFilePlayer, ReplaySeekError};
use crate::text;
use vstd::prelude::*;
use vstd::string::*;

verus! {

/// Frames between a keyframe and a keyframe bookmark, so that seeking to the bookmark loads exactly
/// that keyframe.
pub const KEYFRAME_BOOKMARK_LEAD_FRAMES: u64 = 3;

/// The nearest keyframe at or before `frame`, as its frame and its slot, or why there is none that
/// can be read.
pub open spec fn nearest(player: ReplayFilePlayer, frame: u64) -> Result<(u64, usize), Seq<char>>
    decreases frame,
{
    match player.sought(frame) {
        Ok(slot) => Ok((frame, slot)),
        Err(player::Seek::Unreadable(why)) => Err(
            "cannot read the keyframe at frame "@ + text::decimal(frame as nat) + ": "@ + why,
        ),
        Err(player::Seek::NoSuchKeyframe(best)) => if best >= frame {
            Err("no keyframe at or before frame "@ + text::decimal(frame as nat))
        } else {
            nearest(player, best)
        },
    }
}

/// Why a slot that should hold a keyframe is of no use.
pub open spec fn not_a_keyframe(frame: u64) -> Seq<char> {
    "replay file is broken (no keyframe found at frame "@ + text::decimal(frame as nat) + ")"@
}

/// Why a keyframe's state is of no use.
pub open spec fn bad_state(frame: u64, why: Seq<char>) -> Seq<char> {
    "replay file is broken (cannot load the save state at frame "@ + text::decimal(frame as nat)
        + "): "@ + why
}

/// `a`, at most `b`.
pub open spec fn at_most(a: u64, b: u64) -> u64 {
    if a < b {
        a
    } else {
        b
    }
}

/// `n` less than `a`, at least 0.
pub open spec fn less(a: u64, n: u64) -> u64 {
    if a < n {
        0
    } else {
        (a - n) as u64
    }
}

impl<C: EmulatorCore, T: MonotonicTimestampProvider> SuperShuckieCore<C, T> {
    // -----------------------------------------------------------------------------------------
    // Keyframes.

    /// With the replay stalled, its player being `player`.
    pub open spec fn stalled_with(self, player: Option<ReplayFilePlayer>) -> Self {
        SuperShuckieCore {
            playback: PlaybackState { player, stalled: true, ..self.playback },
            ..self
        }
    }

    /// Where a keyframe puts the session, the player having been read up to it.
    pub open spec fn at_keyframe(
        self,
        after: Self,
        read: ReplayFilePlayer,
        metadata: packet::KeyframeModel,
    ) -> bool {
        &&& after == (SuperShuckieCore {
            core: after.core,
            timer: TimerState {
                frames: metadata.elapsed_frames,
                millis: metadata.elapsed_millis,
                ..self.timer
            },
            playback: PlaybackState {
                player: Some(read),
                counters: after.playback.counters,
                speed: metadata.speed,
                stalled: false,
                frame_pending: false,
                ..self.playback
            },
            recorder: RecorderState { since: 0, ..self.recorder },
            runs: RunState { epoch: self.runs.epoch.wrapping_add(1), ..self.runs },
            effects: after.effects,
            ..self
        })
        &&& after.playback.counters is Some
        &&& following::counters_of(after.playback.counters) == metadata.counters
        &&& after.outs() == self.outs() + effects::only_if(
            self.audio.listening,
            effects::Out::ClearAudio,
        )
    }

    /// After loading a keyframe's state, the core having answered with `error`.
    pub open spec fn keyframe_put(
        self,
        after: Self,
        put: Self,
        error: Option<Seq<char>>,
        read: ReplayFilePlayer,
        metadata: packet::KeyframeModel,
        state: Seq<u8>,
    ) -> bool {
        let load = CoreCall::LoadSaveState { state, error };
        match error {
            Some(_) => {
                &&& self.asked(after, seq![load])
                &&& after == (SuperShuckieCore {
                    core: after.core,
                    ..self.stalled_with(Some(read))
                })
            },
            None => {
                &&& self.asked(put, seq![load, CoreCall::SetInput { data: metadata.input }])
                &&& self.at_keyframe(put, read, metadata)
                &&& put.speed_matched(after)
            },
        }
    }

    /// After loading the keyframe read at `target`.
    pub open spec fn keyframe_came(
        self,
        after: Self,
        read: ReplayFilePlayer,
        target: u64,
        metadata: packet::KeyframeModel,
        state: Seq<u8>,
        r: Result<(), String>,
    ) -> bool {
        exists|put: Self, error: Option<Seq<char>>| #[trigger]
            self.keyframe_put(after, put, error, read, metadata, state) && match error {
                Some(why) => r matches Err(e) && e@ == bad_state(target, why),
                None => r is Ok,
            }
    }

    /// After positioning the player at the nearest keyframe at or before `frame`, loading its state
    /// and restoring everything recorded alongside it.
    pub open spec fn keyframe_loaded(self, after: Self, frame: u64, r: Result<(), String>) -> bool {
        match self.playback.player {
            None => (r matches Err(e) && e@ == "no replay is attached"@) && after
                == self.stalled_with(None),
            Some(p) => match nearest(p, frame) {
                Err(why) => (r matches Err(e) && e@ == why) && after == self.stalled_with(Some(p)),
                Ok((target, slot)) => {
                    let read = ReplayFilePlayer { cursor: (slot + 1) as usize, ..p };
                    match p.event_at(slot as int) {
                        Some(packet::PacketModel::Keyframe { metadata, state }) =>
                        self.keyframe_came(after, read, target, metadata, state, r),
                        _ => (r matches Err(e) && e@ == not_a_keyframe(target)) && after
                            == self.stalled_with(Some(read)),
                    }
                },
            },
        }
    }

    fn put_at_keyframe(&mut self, metadata: &KeyframeMetadata)
        requires
            old(self).wf(),
            old(self).playback.player is Some,
        ensures
            final(self).wf(),
            final(self).core == old(self).core,
            old(self).at_keyframe(*final(self), old(self).playback.player->Some_0, metadata@),
    {
        self.bump_state_epoch();
        self.timer.frames = metadata.elapsed_frames;
        self.timer.millis = metadata.elapsed_millis;
        self.playback.stalled = false;
        // The cursor now sits right after the keyframe; its frame's packets are still to be read.
        self.playback.frame_pending = false;
        self.recorder.since = 0;
        self.playback.counters = Some(packet::copy_counters(&metadata.counters));
        self.playback.speed = metadata.speed;
        self.clear_audio();
    }

    /// Position the player at the nearest keyframe at or before `frame`, load its state and restore
    /// everything recorded alongside it. No frame is run.
    pub fn load_replay_keyframe_at_or_before(&mut self, frame: u64) -> (r: Result<(), String>)
        requires
            old(self).wf(),
        ensures
            final(self).wf(),
            old(self).keyframe_loaded(*final(self), frame, r),
    {
        let ghost before = *self;
        let mut player: ReplayFilePlayer = match self.playback.player.take() {
            Some(player) => player,
            None => {
                self.playback.stalled = true;
                return Err("no replay is attached".to_owned());
            },
        };
        let ghost p = player;
        let mut target: u64 = frame;
        let mut seeking: bool = true;
        while seeking
            invariant
                self.wf(),
                *self == (SuperShuckieCore {
                    playback: PlaybackState { player: None, ..before.playback },
                    ..before
                }),
                before == *old(self),
                before.playback.player == Some(p),
                before.wf(),
                nearest(p, frame) == nearest(p, target),
                seeking ==> player == p,
                !seeking ==> (p.sought(target) matches Ok(slot) && player == (ReplayFilePlayer {
                    cursor: slot,
                    ..p
                })),
            decreases
                    target,
                    (if seeking {
                        1int
                    } else {
                        0int
                    }),
        {
            match player.go_to_keyframe(target) {
                Ok(_) => {
                    seeking = false;
                },
                Err(ReplaySeekError::NoSuchKeyframe { best }) => {
                    if best >= target {
                        self.playback.player = Some(player);
                        self.playback.stalled = true;
                        let why: String = text::numbered(
                            "no keyframe at or before frame ",
                            target,
                            "",
                        );
                        proof {
                            reveal_strlit("");
                            let shown = "no keyframe at or before frame "@ + text::decimal(
                                target as nat,
                            );
                            assert(shown + ""@ =~= shown);
                        }
                        return Err(why);
                    }
                    target = best;
                },
                Err(ReplaySeekError::ReadError { error }) => {
                    self.playback.player = Some(player);
                    self.playback.stalled = true;
                    let start: String = text::numbered(
                        "cannot read the keyframe at frame ",
                        target,
                        ": ",
                    );
                    return Err(text::joined(start.as_str(), error.as_str()));
                },
            }
        }
        let slots: usize = player.slots.len();
        let ghost slot = player.cursor;
        let read: Result<Option<Packet>, String> = player.next_packet();
        let ghost passed = player;
        self.playback.player = Some(player);
        let (metadata, state): (KeyframeMetadata, Vec<u8>) = match read {
            Ok(Some(Packet::Keyframe { metadata, state })) => (metadata, state),
            _ => {
                self.playback.stalled = true;
                let why: String = text::numbered(
                    "replay file is broken (no keyframe found at frame ",
                    target,
                    ")",
                );
                return Err(why);
            },
        };
        proof {
            assert(nearest(p, frame) == Ok::<(u64, usize), Seq<char>>((target, slot)));
            assert(p.event_at(slot as int) == Some(
                packet::PacketModel::Keyframe { metadata: metadata@, state: state@ },
            ));
            assert(passed == (ReplayFilePlayer { cursor: (slot + 1) as usize, ..p }));
        }
        let loaded: Result<(), String> = self.core.load_save_state(state.as_slice());
        let ghost error = console::refusal(loaded);
        if let Err(e) = loaded {
            self.playback.stalled = true;
            let start: String = text::numbered(
                "replay file is broken (cannot load the save state at frame ",
                target,
                "): ",
            );
            assert(self.core.log() =~= before.core.log() + seq![
                CoreCall::LoadSaveState { state: state@, error },
            ]);
            assert(before.keyframe_put(*self, before, error, passed, metadata@, state@));
            let r: Result<(), String> = Err(text::joined(start.as_str(), e.as_str()));
            assert(before.keyframe_came(*self, passed, target, metadata@, state@, r));
            return r;
        }
        // Save states do not carry the buttons held, and the next input change may be far away, so
        // restore the input recorded with the keyframe; otherwise the frames after a seek depend on
        // what was held before it.
        self.core.set_input_encoded(metadata.input.as_slice());
        assert(self.core.log() =~= before.core.log() + seq![
            CoreCall::LoadSaveState { state: state@, error },
            CoreCall::SetInput { data: metadata.input@ },
        ]);
        self.put_at_keyframe(&metadata);
        let ghost put = *self;
        assert(before.at_keyframe(put, passed, metadata@));
        self.match_replay_playback_speed();
        assert(before.keyframe_put(*self, put, error, passed, metadata@, state@));
        let r: Result<(), String> = Ok(());
        assert(before.keyframe_came(*self, passed, target, metadata@, state@, r));
        r
    }

    /// Load the attached replay's nearest keyframe at or before `frame` without emulating anything
    /// past it, and return the frame it is at.
    ///
    /// Nothing has been drawn afterwards: the screens hold whatever the save state left there, so
    /// the caller must run at least one frame before showing anything. A seek should load a
    /// keyframe at least [`POST_LOAD_FRAMES`] before the frame it will show.
    ///
    /// Returns an error (and leaves the core positioned wherever it was, marked stalled) when no
    /// replay is attached or the replay is unreadable at that keyframe.
    pub fn go_to_replay_keyframe(&mut self, frame: u64) -> (r: Result<u64, String>)
        requires
            old(self).wf(),
        ensures
            final(self).wf(),
            exists|loaded: Result<(), String>| #[trigger]
                old(self).keyframe_loaded(*final(self), frame, loaded) && match loaded {
                    Ok(_) => r matches Ok(at) && at == final(self).timer.frames,
                    Err(why) => r matches Err(e) && e@ == why@,
                },
    {
        let ghost before = *self;
        let loaded: Result<(), String> = self.load_replay_keyframe_at_or_before(frame);
        assert(before.keyframe_loaded(*self, frame, loaded));
        match loaded {
            Ok(_) => Ok(self.timer.frames),
            Err(why) => Err(why),
        }
    }

    // -----------------------------------------------------------------------------------------
    // Seeks.

    /// Whether a seek to the frame after `desired` has further to run.
    pub open spec fn short_of(self, desired: u64) -> bool {
        self.timer.frames <= desired && !self.playback.stalled
    }

    /// Whether one run of a seek leads from here to there: only the target frame is looked at; the
    /// ones on the way there need not be drawn.
    pub open spec fn seeks_on(self, after: Self, desired: u64) -> bool {
        self.short_of(desired) && self.ran_drawing(after, self.timer.frames < desired, true, false)
    }

    /// Whether the runs of `steps` lead from a keyframe to the frame after `desired` (or as far as
    /// the replay goes, and no longer than there are numbers to count the runs).
    pub open spec fn seek_ran(self, after: Self, desired: u64, steps: Seq<Self>) -> bool {
        &&& steps.len() >= 1
        &&& steps[0] == self
        &&& steps.last() == after
        &&& forall|i: int, j: int|
            0 <= i && j == i + 1 && j < steps.len() ==> (#[trigger] steps[i]).seeks_on(
                #[trigger] steps[j],
                desired,
            )
        &&& after.short_of(desired) ==> steps.len() == u64::MAX + 1
    }

    /// After a seek with the replay driving.
    pub open spec fn sought_in_replay(
        self,
        after: Self,
        frame: u64,
        desired: u64,
        r: Result<(), String>,
    ) -> bool {
        match self.playback.player {
            None => r is Ok && after == self,
            Some(p) => {
                let last = at_most(desired, less(p.total_frames, 1));
                if last >= p.total_frames {
                    r is Ok && after == self
                } else {
                    exists|loaded: Self| #[trigger]
                        self.keyframe_loaded(loaded, frame, r) && match r {
                            Err(_) => after == loaded,
                            Ok(_) => exists|steps: Seq<Self>| #[trigger]
                                loaded.seek_ran(after, last, steps),
                        }
                }
            },
        }
    }

    /// The seek itself, with the replay driving.
    pub fn seek_in_replay(&mut self, frame: u64, desired: u64) -> (r: Result<(), String>)
        requires
            old(self).wf(),
        ensures
            final(self).wf(),
            old(self).sought_in_replay(*final(self), frame, desired, r),
    {
        let total: u64 = match &self.playback.player {
            Some(p) => p.get_total_frames(),
            None => return Ok(()),
        };
        let last_frame: u64 = if total < 1 {
            0
        } else {
            total - 1
        };
        let last: u64 = if desired < last_frame {
            desired
        } else {
            last_frame
        };
        if last >= total {
            return Ok(());
        }
        let ghost before = *self;
        let found: Result<(), String> = self.load_replay_keyframe_at_or_before(frame);
        let ghost loaded = *self;
        assert(before.keyframe_loaded(loaded, frame, found));
        match found {
            Err(why) => return Err(why),
            Ok(_) => {},
        }
        let ghost mut steps: Seq<Self> = seq![*self];
        let mut left: u64 = u64::MAX;
        while left > 0 && self.timer.frames <= last && !self.playback.stalled
            invariant
                self.wf(),
                steps.len() == u64::MAX - left + 1,
                steps[0] == loaded,
                steps.last() == *self,
                forall|i: int, j: int|
                    0 <= i && j == i + 1 && j < steps.len() ==> (#[trigger] steps[i]).seeks_on(
                        #[trigger] steps[j],
                        last,
                    ),
            decreases left,
        {
            let ghost at = *self;
            if self.timer.frames < last {
                self.run_unlocked_hidden();
            } else {
                self.run_unlocked();
            }
            left = left - 1;
            proof {
                let done = steps;
                steps = steps.push(*self);
                assert forall|i: int, j: int|
                    0 <= i && j == i + 1 && j < steps.len() implies (#[trigger] steps[i]).seeks_on(
                    #[trigger] steps[j],
                    last,
                ) by {
                    if j < done.len() {
                        assert(done[i].seeks_on(done[j], last));
                    } else {
                        assert(done[i] == done.last());
                        assert(at.seeks_on(*self, last));
                    }
                }
            }
        }
        assert(loaded.seek_ran(*self, last, steps));
        let r: Result<(), String> = Ok(());
        assert(before.keyframe_loaded(loaded, frame, r));
        r
    }

    /// With the replay handed its emulator back to the user at the current frame, which becomes the
    /// resume point.
    pub open spec fn stopped_here(self, after: Self) -> bool {
        let stopped = SuperShuckieCore {
            playback: PlaybackState {
                stopped: true,
                resume_point: (self.timer.frames, self.timer.millis),
                stalled: false,
                ..self.playback
            },
            writes: after.writes,
            input: InputState { latched: false, ..self.input },
            ..self
        };
        &&& after.waiting_writes() == Seq::<WriteModel>::empty()
        &&& stopped.timer_resumed(after, self.timer.millis, self.timer.frames)
    }

    /// Hand the emulator back to the user at the current frame, which becomes the resume point.
    pub fn stop_replay_playback_here(&mut self)
        ensures
            old(self).stopped_here(*final(self)),
            old(self).wf() ==> final(self).wf(),
    {
        self.playback.stopped = true;
        self.playback.resume_point = (self.timer.frames, self.timer.millis);
        // A stopped replay reads nothing, so it cannot be stalled; a stall from before (playback
        // had reached the end) must not keep pausing the emulator.
        self.playback.stalled = false;
        // Whatever the RAM tools queued while the replay owned memory belongs to that timeline.
        self.writes = Vec::new();
        assert(self.waiting_writes() =~= Seq::<WriteModel>::empty());
        // The replay set the console's input; the user's applies from the next run.
        self.input.latched = false;
        let millis: u64 = self.timer.millis;
        let frames: u64 = self.timer.frames;
        self.resume_timer(millis, frames);
    }

    /// After a seek: a stopped replay drives the emulator only for the duration of the seek.
    pub open spec fn went_to(
        self,
        after: Self,
        frame: u64,
        desired: u64,
        r: Result<(), String>,
    ) -> bool {
        if self.playback.player is None {
            r is Ok && after == self
        } else if !self.playback.stopped {
            self.sought_in_replay(after, frame, desired, r)
        } else {
            exists|sought: Self| #[trigger]
                self.unstopped().sought_in_replay(sought, frame, desired, r)
                    && sought.stopped_here(after)
        }
    }

    /// With the replay driving again.
    pub open spec fn unstopped(self) -> Self {
        SuperShuckieCore { playback: PlaybackState { stopped: false, ..self.playback }, ..self }
    }

    /// Seek, whether the replay is playing or stopped.
    pub fn go_to_replay_frame_inner(&mut self, frame: u64, desired: u64) -> (r: Result<(), String>)
        requires
            old(self).wf(),
        ensures
            final(self).wf(),
            old(self).went_to(*final(self), frame, desired, r),
    {
        if self.playback.player.is_none() {
            return Ok(());
        }
        if !self.playback.stopped {
            return self.seek_in_replay(frame, desired);
        }
        let ghost before = *self;
        self.playback.stopped = false;
        let result: Result<(), String> = self.seek_in_replay(frame, desired);
        let ghost sought = *self;
        assert(before.unstopped().sought_in_replay(sought, frame, desired, result));
        // Back to the user at the new position, keeping whatever they hold pressed (unlike an
        // explicit stop, nothing about their input changed).
        self.stop_replay_playback_here();
        result
    }

    /// After seeking to a frame: a keyframe at least [`POST_LOAD_FRAMES`] before the target is
    /// loaded, then everything up to the frame before the target is run so that the target itself
    /// is the one rendered.
    pub open spec fn went_to_frame(self, after: Self, frame: u64, r: Result<(), String>) -> bool {
        let target = self.within_replay(frame);
        self.went_to(after, less(target, POST_LOAD_FRAMES), less(target, 1), r)
    }

    /// The frame, or the replay's length if that is less.
    pub open spec fn within_replay(self, frame: u64) -> u64 {
        match self.playback.player {
            Some(p) => if frame < p.total_frames {
                frame
            } else {
                p.total_frames
            },
            None => frame,
        }
    }

    /// Seek to the given frame (if a replay is attached).
    ///
    /// Afterwards the emulator has run `max(frame, 1)` frames (clamped to the replay's length) and
    /// the framebuffer holds the last of them. A stopped replay drives the emulator only for the
    /// duration of the seek: afterwards the user is back in control at the new frame, which becomes
    /// the resume point.
    ///
    /// Returns an error (and leaves the core stalled, unless stopped) if the replay could not be
    /// read at the target.
    pub fn go_to_replay_frame(&mut self, frame: u64) -> (r: Result<(), String>)
        requires
            old(self).wf(),
        ensures
            final(self).wf(),
            old(self).went_to_frame(*final(self), frame, r),
    {
        let target: u64 = match &self.playback.player {
            Some(p) => if frame < p.get_total_frames() {
                frame
            } else {
                p.get_total_frames()
            },
            None => frame,
        };
        let keyframe_hint: u64 = target.saturating_sub(POST_LOAD_FRAMES);
        let desired: u64 = target.saturating_sub(1);
        self.go_to_replay_frame_inner(keyframe_hint, desired)
    }

    // -----------------------------------------------------------------------------------------
    // Stopping and resuming.

    /// After stopping the attached replay; the result is whether it was driving.
    pub open spec fn stops_playback(self, after: Self, r: bool) -> bool {
        &&& r == (self.playback.player is Some && !self.playback.stopped)
        &&& !r ==> after == self
        &&& r ==> exists|stopped: Self| #[trigger]
            self.stopped_here(stopped) && after == (SuperShuckieCore {
                input: InputState { next: Some(Input::nothing()), ..stopped.input },
                ..stopped
            })
    }

    /// Stop the attached replay from driving the emulator without detaching it: the game keeps
    /// running from the current frame, live and under the user's input, while the replay stays
    /// attached so it can still be seeked in and resumed from where it was stopped or last seeked
    /// to. The wall-clock timer continues from the replay's time.
    ///
    /// Returns whether anything changed (`false` without a replay, or if already stopped).
    pub fn stop_replay_playback(&mut self) -> (r: bool)
        requires
            old(self).wf(),
        ensures
            final(self).wf(),
            old(self).stops_playback(*final(self), r),
    {
        if self.playback.player.is_none() || self.playback.stopped {
            return false;
        }
        let ghost before = *self;
        self.stop_replay_playback_here();
        let ghost stopped = *self;
        assert(before.stopped_here(stopped));
        // Like a detach: nothing pressed during playback carries over into live play.
        self.reset_input();
        true
    }

    /// With a stopped replay about to drive again: nothing pressed or written live carries over.
    pub open spec fn reclaimed(self, after: Self) -> bool {
        &&& after == (SuperShuckieCore {
            input: InputState { next: None, ..self.input },
            writes: after.writes,
            ..self.unstopped()
        })
        &&& after.waiting_writes() == Seq::<WriteModel>::empty()
    }

    /// After resuming a stopped replay.
    pub open spec fn resumes_playback(self, after: Self, r: Result<(), String>) -> bool {
        if self.playback.player is Some && self.playback.stopped {
            exists|reclaimed: Self| #[trigger]
                self.reclaimed(reclaimed) && reclaimed.went_to_frame(
                    after,
                    self.playback.resume_point.0,
                    r,
                )
        } else {
            r is Ok && after == self
        }
    }

    /// Resume playing back a stopped replay from its resume point: whatever was played live since
    /// is discarded and the emulator is put back exactly where playback stopped or was last seeked
    /// to.
    ///
    /// Does nothing without a replay or if it is not stopped. Returns an error (leaving the core
    /// stalled, as any failed seek does) if the replay cannot be read there.
    pub fn resume_replay_playback(&mut self) -> (r: Result<(), String>)
        requires
            old(self).wf(),
        ensures
            final(self).wf(),
            old(self).resumes_playback(*final(self), r),
    {
        if !self.is_replay_playback_stopped() {
            return Ok(());
        }
        let ghost before = *self;
        let frame: u64 = self.playback.resume_point.0;
        self.playback.stopped = false;
        self.input.next = None;
        self.writes = Vec::new();
        assert(self.waiting_writes() =~= Seq::<WriteModel>::empty());
        let ghost reclaimed = *self;
        assert(before.reclaimed(reclaimed));
        self.go_to_replay_frame(frame)
    }

    /// After going back to a stopped replay's resume point.
    pub open spec fn goes_to_resume_point(self, after: Self, r: Result<(), String>) -> bool {
        if self.playback.player is Some && self.playback.stopped {
            self.went_to_frame(after, self.playback.resume_point.0, r)
        } else {
            r is Ok && after == self
        }
    }

    /// Put a stopped replay's emulator back at the resume point without resuming playback: whatever
    /// was played live since is discarded, and the user stays in control from that frame, which
    /// remains the resume point. Does nothing unless a replay is stopped. Errors as a seek there
    /// would.
    pub fn go_to_replay_resume_point(&mut self) -> (r: Result<(), String>)
        requires
            old(self).wf(),
        ensures
            final(self).wf(),
            old(self).goes_to_resume_point(*final(self), r),
    {
        if !self.is_replay_playback_stopped() {
            return Ok(());
        }
        let frame: u64 = self.playback.resume_point.0;
        // A seek while stopped hands the emulator back at the target, which becomes the resume
        // point: the same frame, so it stays put.
        self.go_to_replay_frame(frame)
    }

    // -----------------------------------------------------------------------------------------
    // Attaching.

    /// With a replay attached at its start, nothing read yet.
    pub open spec fn player_put(self, after: Self, player: ReplayFilePlayer) -> bool {
        let put = SuperShuckieCore {
            input: InputState {
                current: Input::nothing(),
                next: None,
                latched: false,
                ..self.input
            },
            writes: after.writes,
            playback: PlaybackState {
                player: Some(player),
                counters: after.playback.counters,
                stalled: false,
                frame_pending: false,
                stopped: false,
                ..self.playback
            },
            ..self
        };
        &&& after.waiting_writes() == Seq::<WriteModel>::empty()
        &&& after.playback.counters matches Some(c) && c@.len() == 0
        &&& put.timer_restarted(after)
    }

    fn put_player(&mut self, player: ReplayFilePlayer)
        requires
            super::state::player_wf(Some(player)),
        ensures
            old(self).player_put(*final(self), player),
            old(self).wf() ==> final(self).wf(),
    {
        self.input.current = Input::new();
        self.input.next = None;
        // Writes still queued for the end of a frame belong to the live session, not the replay.
        self.writes = Vec::new();
        assert(self.waiting_writes() =~= Seq::<WriteModel>::empty());
        self.playback.player = Some(player);
        self.playback.counters = Some(Vec::new());
        self.playback.stalled = false;
        self.playback.frame_pending = false;
        self.input.latched = false;
        self.playback.stopped = false;
        self.restart_timer();
    }

    /// After attaching a replay that fits: it is put at its first keyframe, or let go of again.
    pub open spec fn player_attached(
        self,
        after: Self,
        player: ReplayFilePlayer,
        r: Result<(), ReplayPlayerAttachError>,
    ) -> bool {
        match player.sought(0) {
            Err(why) => {
                &&& after == self
                &&& r matches Err(e) && e@ == (compat::AttachErrorModel::Failed {
                    description: "can't go to the first keyframe: "@ + seek_text(why),
                })
            },
            Ok(slot) => exists|put: Self, sought: Self, went: Result<(), String>|
                #![trigger
                    self.player_put(put, ReplayFilePlayer { cursor: slot, ..player }),
                    put.went_to(sought, 0, 0, went)]
                self.player_put(put, ReplayFilePlayer { cursor: slot, ..player }) && put.went_to(
                    sought,
                    0,
                    0,
                    went,
                ) && match went {
                    Ok(_) => r is Ok && after == sought,
                    Err(why) => (r matches Err(e) && e@ == (compat::AttachErrorModel::Failed {
                        description: why@,
                    })) && sought.player_detached(after),
                },
        }
    }

    /// Why a replay is not attached, if it is not: the console is linked, or it does not fit.
    pub open spec fn attach_refused(self, metadata: player::ReplayFileMetadata, allow_mismatched: bool) -> Option<
        compat::AttachErrorModel,
    > {
        if self.linked() {
            Some(
                compat::AttachErrorModel::Incompatible {
                    description: "a linked console cannot play a replay"@,
                },
            )
        } else {
            compat::misfit(metadata, self.core.identity(), allow_mismatched)
        }
    }

    /// After being asked to attach a replay.
    pub open spec fn attaches(
        self,
        after: Self,
        player: ReplayFilePlayer,
        allow_mismatched: bool,
        r: Result<(), ReplayPlayerAttachError>,
    ) -> bool {
        match self.attach_refused(player.metadata, allow_mismatched) {
            Some(why) => (r matches Err(e) && e@ == why) && after == self,
            None => exists|stopped: Self, detached: Self|
                #![trigger self.recording_stopped(stopped), stopped.player_detached(detached)]
                self.recording_stopped(stopped) && stopped.player_detached(detached)
                    && detached.player_attached(after, player, r),
        }
    }

    /// Attach a replay file player to the core.
    ///
    /// The console-type and metadata compatibility checks happen before anything about the core
    /// changes: an incompatible or mismatched replay leaves any live recording or playback
    /// untouched. Only after those checks pass is the current recording stopped and any previously
    /// attached player detached.
    pub fn attach_replay_player(&mut self, player: ReplayFilePlayer, allow_mismatched: bool) -> (r:
        Result<(), ReplayPlayerAttachError>)
        requires
            old(self).wf(),
        ensures
            final(self).wf(),
            old(self).attaches(*final(self), player, allow_mismatched, r),
    {
        if self.is_linked() {
            return Err(
                ReplayPlayerAttachError::Incompatible {
                    description: "a linked console cannot play a replay".to_owned(),
                },
            );
        }
        match self.check_replay_compat(&player.metadata, allow_mismatched) {
            Ok(_) => {},
            Err(e) => return Err(e),
        }
        let ghost before = *self;
        let _ = self.stop_recording_replay();
        let ghost stopped = *self;
        self.detach_replay_player();
        let ghost detached = *self;
        assert(before.recording_stopped(stopped) && stopped.player_detached(detached));
        let mut player: ReplayFilePlayer = player;
        match player.go_to_keyframe(0) {
            Ok(_) => {},
            Err(e) => {
                let why: String = seek_message(&e);
                let description: String = text::joined(
                    "can't go to the first keyframe: ",
                    why.as_str(),
                );
                return Err(ReplayPlayerAttachError::Failed { description });
            },
        }
        let ghost positioned = player;
        self.put_player(player);
        let ghost put = *self;
        assert(detached.player_put(put, positioned));
        let went: Result<(), String> = self.go_to_replay_frame_inner(0, 0);
        let ghost sought = *self;
        assert(put.went_to(sought, 0, 0, went));
        match went {
            Ok(_) => Ok(()),
            Err(description) => {
                self.detach_replay_player();
                Err(ReplayPlayerAttachError::Failed { description })
            },
        }
    }
}

/// Why a session could not be read at a keyframe, as it is written for debugging.
pub open spec fn seek_text(why: player::Seek) -> Seq<char> {
    match why {
        player::Seek::NoSuchKeyframe(best) => "NoSuchKeyframe { best: "@ + text::decimal(
            best as nat,
        ) + " }"@,
        player::Seek::Unreadable(why) => "ReadError { error: "@ + why + " }"@,
    }
}

fn seek_message(e: &ReplaySeekError) -> (r: String)
    ensures
        r@ == seek_text(e@),
{
    match e {
        ReplaySeekError::NoSuchKeyframe { best } => text::numbered(
            "NoSuchKeyframe { best: ",
            *best,
            " }",
        ),
        ReplaySeekError::ReadError { error } => {
            let mut r: String = text::joined("ReadError { error: ", error.as_str());
            r.append(" }");
            r
        },
    }
}

/// A keyframe bookmark sits as far after its keyframe as a seek runs before showing a frame, so a
/// seek to one asks for exactly that keyframe.
pub proof fn law_seeks_to_keyframe_bookmarks_load_their_keyframe(keyframe: u64)
    requires
        keyframe + KEYFRAME_BOOKMARK_LEAD_FRAMES <= u64::MAX,
    ensures
        less((keyframe + KEYFRAME_BOOKMARK_LEAD_FRAMES) as u64, POST_LOAD_FRAMES) == keyframe,
{
}

} // verus!
