//! The replay being recorded, and letting go of the one played back.

use super::effects;
use super::effects::{BookmarkTable, Effect};
use super::playback;
use super::state::{
    InputState, MonotonicTimestampProvider, PlaybackState, RecorderState, RunState,
    SuperShuckieCore,
};
use crate::emulator::console::EmulatorCore;
use crate::emulator::input::Input;
use vstd::prelude::*;

verus! {

impl<C: EmulatorCore, T: MonotonicTimestampProvider> SuperShuckieCore<C, T> {
    /// After recording stopped, if it was going on: the file is to be closed.
    pub open spec fn recording_stopped(self, after: Self) -> bool {
        if self.recorder.active {
            &&& after == (SuperShuckieCore {
                recorder: RecorderState { active: false, ..self.recorder },
                playback: PlaybackState { counters: None, ..self.playback },
                effects: after.effects,
                ..self
            })
            &&& after.outs() == self.outs() + seq![effects::Out::RecordClose]
        } else {
            after == self
        }
    }

    /// Stop recording the current replay. Returns whether one was being recorded; its file is to be
    /// closed then.
    pub fn stop_recording_replay(&mut self) -> (r: bool)
        ensures
            r == old(self).recorder.active,
            old(self).recording_stopped(*final(self)),
            old(self).wf() ==> final(self).wf(),
    {
        if !self.recorder.active {
            return false;
        }
        self.recorder.active = false;
        self.playback.counters = None;
        self.tell(Effect::RecordClose);
        true
    }

    /// After recording was forcibly stopped: its file is left as it is.
    pub open spec fn recording_dropped(self, after: Self) -> bool {
        &&& after == (SuperShuckieCore {
            recorder: RecorderState { active: false, ..self.recorder },
            effects: after.effects,
            ..self
        })
        &&& after.outs() == self.outs() + effects::only_if(
            self.recorder.active,
            effects::Out::RecordDrop,
        )
    }

    /// Forcibly stop recording the current replay.
    pub fn force_stop_recording_replay(&mut self)
        ensures
            old(self).recording_dropped(*final(self)),
            old(self).wf() ==> final(self).wf(),
    {
        self.record(Effect::RecordDrop);
        self.recorder.active = false;
    }

    /// After a counter changed, and everybody was told.
    pub open spec fn counter_told(self, after: Self, name: Seq<char>, delta: i64) -> bool {
        &&& after == (SuperShuckieCore {
            playback: PlaybackState { counters: after.playback.counters, ..self.playback },
            effects: after.effects,
            ..self
        })
        &&& playback::counters_changed(
            self.playback.counters,
            after.playback.counters,
            name,
            delta,
        )
        &&& after.outs() == self.outs() + effects::only_if(
            self.together.publishing,
            effects::Out::PublishCounter { name, delta },
        ) + seq![effects::Out::RecordCounter { name, delta }]
    }

    /// Modify a counter, adding `delta`. Does nothing when not recording.
    pub fn change_replay_counter(&mut self, name: String, delta: i64)
        ensures
            if old(self).recorder.active {
                old(self).counter_told(*final(self), name@, delta)
            } else {
                *final(self) == *old(self)
            },
            old(self).wf() ==> final(self).wf(),
    {
        if !self.recorder.active {
            return;
        }
        self.change_replay_counter_map(&name, delta);
        self.publish(Effect::PublishCounter { name: name.clone(), delta });
        self.tell(Effect::RecordCounter { name, delta });
    }

    /// Mark the start of the run in the replay being recorded, returning the frame and the time.
    /// `timer_offset` is what the run's timer starts at.
    pub fn mark_start(&mut self, timer_offset: u64) -> (r: Option<(u64, u64)>)
        ensures
            old(self).told(
                *final(self),
                effects::only_if(
                    old(self).recorder.active,
                    effects::Out::RecordStartMark { timer_offset },
                ),
            ),
            r == (if old(self).recorder.active {
                Some((old(self).timer.frames, old(self).timer.millis))
            } else {
                None
            }),
            old(self).wf() ==> final(self).wf(),
    {
        self.record(Effect::RecordStartMark { timer_offset });
        if !self.recorder.active {
            return None;
        }
        Some((self.timer.frames, self.timer.millis))
    }

    /// Mark the end of the run in the replay being recorded, returning the frame and the time.
    pub fn mark_end(&mut self) -> (r: Option<(u64, u64)>)
        ensures
            old(self).told(
                *final(self),
                effects::only_if(old(self).recorder.active, effects::Out::RecordEndMark),
            ),
            r == (if old(self).recorder.active {
                Some((old(self).timer.frames, old(self).timer.millis))
            } else {
                None
            }),
            old(self).wf() ==> final(self).wf(),
    {
        self.record(Effect::RecordEndMark);
        if !self.recorder.active {
            return None;
        }
        Some((self.timer.frames, self.timer.millis))
    }

    /// Replace the bookmarks of the replay being recorded. Does nothing when not recording.
    pub fn set_replay_bookmarks(&mut self, table: BookmarkTable)
        ensures
            old(self).told(
                *final(self),
                effects::only_if(
                    old(self).recorder.active,
                    effects::Out::RecordBookmarks { table: table@ },
                ),
            ),
            old(self).wf() ==> final(self).wf(),
    {
        self.record(Effect::RecordBookmarks { table });
    }

    /// After letting go of the replay played back, if there is one.
    pub open spec fn player_detached(self, after: Self) -> bool {
        if self.playback.player is None {
            after == self
        } else {
            &&& after == (SuperShuckieCore {
                playback: PlaybackState {
                    player: None,
                    counters: None,
                    stalled: false,
                    frame_pending: false,
                    stopped: false,
                    ..self.playback
                },
                input: InputState { latched: false, next: Some(Input::nothing()), ..self.input },
                runs: RunState { epoch: self.runs.epoch.wrapping_add(1), ..self.runs },
                effects: after.effects,
                ..self
            })
            &&& after.outs() == self.outs() + effects::only_if(
                self.audio.listening,
                effects::Out::ClearAudio,
            )
        }
    }

    /// Detach the current replay player.
    pub fn detach_replay_player(&mut self)
        ensures
            old(self).player_detached(*final(self)),
            old(self).wf() ==> final(self).wf(),
    {
        if self.playback.player.is_none() {
            return;
        }
        self.playback.stalled = false;
        self.playback.frame_pending = false;
        self.input.latched = false;
        self.playback.stopped = false;
        self.playback.player = None;
        self.playback.counters = None;
        self.reset_input();
        self.clear_audio();
        self.bump_state_epoch();
    }
}

} // verus!
