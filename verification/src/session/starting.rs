//! Starting to record a replay, or going on with one.

use super::following;
use super::state::{
    InputState, MonotonicTimestampProvider, PlaybackState, RecorderState, SuperShuckieCore,
};
use crate::emulator::console::{CoreCall, EmulatorCore};
use crate::emulator::input::Input;
use crate::replay::packet;
use crate::replay::packet::{Counter, Speed};
use crate::replay::player::{ReplayConsoleType, ReplayFileMetadata};
use vstd::prelude::*;
use vstd::string::*;

verus! {

/// What a new replay file starts from.
#[derive(Clone, Debug)]
pub struct RecordingStart {
    pub metadata: ReplayFileMetadata,
    /// The time the file starts at.
    pub millis: u64,
    /// The input held, as the console encodes it.
    pub input: Vec<u8>,
    pub speed: Speed,
    pub state: Vec<u8>,
}

/// Where a replay that is recorded on from leaves off.
#[derive(Clone, Debug)]
pub struct ResumeInfo {
    pub elapsed_frames: u64,
    pub elapsed_millis: u64,
    pub counters: Vec<Counter>,
    /// The input held, as the console encodes it.
    pub input: Vec<u8>,
    pub speed: Speed,
}

/// What going to a frame comes to for one who means to record on from there.
pub open spec fn resumes(target: u64, went: Result<(), String>, r: Result<u64, String>) -> bool {
    match went {
        Ok(_) => r matches Ok(frame) && frame == target,
        Err(why) => r matches Err(e) && e@ == why@,
    }
}

impl<C: EmulatorCore, T: MonotonicTimestampProvider> SuperShuckieCore<C, T> {
    /// With the input held set in the core again, and the timer started over.
    pub open spec fn start_readied(self, after: Self, held: Input) -> bool {
        exists|set: Self| #[trigger]
            self.input_set(set, held) && set.timer_restarted(after)
    }

    /// With an input set in the core.
    pub open spec fn input_set(self, after: Self, held: Input) -> bool {
        &&& after == (SuperShuckieCore { core: after.core, ..self })
        &&& self.asked(after, seq![CoreCall::SetInput { data: self.core.encoded(held) }])
    }

    /// What a file started now starts from, the current frame having been finished.
    pub open spec fn starts_from(
        self,
        finished: Self,
        start: RecordingStart,
        rom_name: Seq<char>,
        rom_filename: Seq<char>,
    ) -> bool {
        let id = self.core.identity();
        &&& id.console == Some(start.metadata.console_type)
        &&& start.metadata.rom_name@ == rom_name
        &&& start.metadata.rom_filename@ == rom_filename
        &&& start.metadata.rom_checksum == id.rom_checksum
        &&& start.metadata.bios_checksum == id.bios_checksum
        &&& start.metadata.emulator_core_name@ == id.name
        &&& start.millis == 0
        &&& start.input@ == finished.core.encoded(self.input.current)
        &&& start.speed == self.audio.speed
        &&& start.state@ == finished.core.state()
    }

    /// After getting ready to record: whatever was recorded or played back is let go of, the
    /// current frame finished, and time starts over.
    pub open spec fn recording_readied(
        self,
        after: Self,
        start: RecordingStart,
        rom_name: Seq<char>,
        rom_filename: Seq<char>,
    ) -> bool {
        exists|stopped: Self, detached: Self, finished: Self|
            #![trigger
                self.recording_stopped(stopped),
                stopped.player_detached(detached),
                detached.frame_finished(finished)]
            self.recording_stopped(stopped) && stopped.player_detached(detached)
                && detached.frame_finished(finished) && detached.starts_from(
                finished,
                start,
                rom_name,
                rom_filename,
            ) && finished.start_readied(after, detached.input.current)
    }

    /// Get ready to record a replay, and say what its file starts from. Once the file is there,
    /// [`recording_started`](Self::recording_started) is called.
    pub fn start_recording_replay(&mut self, rom_name: String, rom_filename: String) -> (r: Result<
        RecordingStart,
        &'static str,
    >)
        requires
            old(self).wf(),
        ensures
            final(self).wf(),
            match r {
                Err(e) => old(self).core.identity().console is None && e@
                    == "this core cannot record replays (no console type)"@ && *final(self)
                    == *old(self),
                Ok(start) => old(self).core.identity().console is Some && old(
                    self,
                ).recording_readied(*final(self), start, rom_name@, rom_filename@),
            },
    {
        let console_type: ReplayConsoleType = match self.core.replay_console_type() {
            Some(console_type) => console_type,
            None => return Err("this core cannot record replays (no console type)"),
        };
        let ghost before = *self;
        let _ = self.stop_recording_replay();
        let ghost stopped = *self;
        self.detach_replay_player();
        let ghost detached = *self;

        let rom_checksum: [u8; 32] = self.core.rom_checksum();
        let bios_checksum: [u8; 32] = self.core.bios_checksum();
        let emulator_core_name: String = self.core.core_name().to_owned();
        let held: Input = self.input.current;
        let speed: Speed = self.audio.speed;

        self.finish_current_frame();
        let ghost finished = *self;

        let state: Vec<u8> = self.core.create_save_state();
        let input: Vec<u8> = self.core.encode_input(held);
        self.core.set_input_encoded(input.as_slice());
        let ghost set = *self;
        proof {
            assert(set.core.log() =~= finished.core.log() + seq![
                CoreCall::SetInput { data: input@ },
            ]);
            assert(finished.input_set(set, held));
        }
        self.restart_timer();
        let start = RecordingStart {
            metadata: ReplayFileMetadata {
                console_type,
                rom_name,
                rom_filename,
                rom_checksum,
                bios_checksum,
                emulator_core_name,
            },
            millis: self.timer.millis,
            input,
            speed,
            state,
        };
        proof {
            assert(finished.start_readied(*self, held));
            assert(detached.starts_from(
                finished,
                start,
                start.metadata.rom_name@,
                start.metadata.rom_filename@,
            ));
            assert(before.recording_stopped(stopped) && stopped.player_detached(detached)
                && detached.frame_finished(finished));
        }
        Ok(start)
    }

    /// The file of a replay is there: record into it from here on.
    pub fn recording_started(&mut self, frames_per_keyframe: u64)
        requires
            frames_per_keyframe >= 1,
        ensures
            *final(self) == (SuperShuckieCore {
                recorder: RecorderState {
                    active: true,
                    per_keyframe: frames_per_keyframe,
                    full_pending: false,
                    ..old(self).recorder
                },
                playback: PlaybackState {
                    counters: final(self).playback.counters,
                    ..old(self).playback
                },
                input: InputState { latched: false, ..old(self).input },
                ..*old(self)
            }),
            final(self).playback.counters matches Some(c) && c@.len() == 0,
            old(self).wf() ==> final(self).wf(),
    {
        self.recorder.per_keyframe = frames_per_keyframe;
        self.recorder.full_pending = false;
        self.recorder.active = true;
        self.playback.counters = Some(Vec::new());
        // Record the input with the first frame rather than rely on the header's initial input.
        self.input.latched = false;
    }

    /// After going to the frame that recording goes on from: that frame, or why it cannot be gone to.
    pub open spec fn resume_sought(self, after: Self, target: u64, r: Result<u64, String>) -> bool {
        exists|went: Result<(), String>| #[trigger]
            self.went_to_frame(after, target, went) && resumes(target, went, r)
    }

    /// Put the emulator where recording goes on from: the final frame of the attached replay, or
    /// the one given. Returns that frame. Once the new file is there,
    /// [`recording_resumed`](Self::recording_resumed) is called; if it cannot be made,
    /// [`resume_failed`](Self::resume_failed) is.
    pub fn resume_recording_replay(&mut self, resume_at_frame: Option<u64>) -> (r: Result<
        u64,
        String,
    >)
        requires
            old(self).wf(),
        ensures
            final(self).wf(),
            match old(self).playback.player {
                None => (r matches Err(e) && e@ == "no replay player attached to resume from"@)
                    && *final(self) == *old(self),
                Some(p) => {
                    let target = match resume_at_frame {
                        Some(frame) => frame,
                        None => p.total_frames,
                    };
                    old(self).resume_sought(*final(self), target, r)
                },
            },
    {
        let total: u64 = match &self.playback.player {
            Some(p) => p.get_total_frames(),
            None => return Err("no replay player attached to resume from".to_owned()),
        };
        let target: u64 = match resume_at_frame {
            Some(frame) => frame,
            None => total,
        };
        let ghost before = *self;
        let went: Result<(), String> = self.go_to_replay_frame(target);
        let ghost outcome = went;
        let r: Result<u64, String> = match went {
            Ok(_) => Ok(target),
            Err(why) => Err(why),
        };
        assert(before.went_to_frame(*self, target, outcome) && resumes(target, outcome, r));
        r
    }

    /// The new file could not be made: the source replay is still good, and so is the emulator's
    /// position in it.
    pub fn resume_failed(&mut self, target: u64)
        requires
            old(self).wf(),
        ensures
            final(self).wf(),
            exists|went: Result<(), String>| #[trigger]
                old(self).went_to_frame(*final(self), target, went),
    {
        let ghost before = *self;
        let went: Result<(), String> = self.go_to_replay_frame(target);
        assert(before.went_to_frame(*self, target, went));
    }

    /// With the source replay let go of, its counters and time taken over, and recording on.
    pub open spec fn resumed_from(self, after: Self, info: ResumeInfo, frames_per_keyframe: u64) -> bool {
        exists|taken: Self, timed: Self, set: Self|
            #![trigger
                self.source_taken(taken, info, frames_per_keyframe),
                taken.timer_resumed(timed, info.elapsed_millis, info.elapsed_frames),
                timed.held_set(set, info.input@)]
            self.source_taken(taken, info, frames_per_keyframe) && taken.timer_resumed(
                timed,
                info.elapsed_millis,
                info.elapsed_frames,
            ) && timed.held_set(set, info.input@) && set.speed_set(after, info.speed)
    }

    /// With an encoded input set in the core.
    pub open spec fn held_set(self, after: Self, data: Seq<u8>) -> bool {
        &&& after == (SuperShuckieCore { core: after.core, ..self })
        &&& self.asked(after, seq![CoreCall::SetInput { data }])
    }

    /// With the source replay let go of and its counters taken over; the input held at the resume
    /// frame survives into the first live frame.
    pub open spec fn source_taken(self, after: Self, info: ResumeInfo, frames_per_keyframe: u64) -> bool {
        &&& after == (SuperShuckieCore {
            playback: PlaybackState {
                player: None,
                stalled: false,
                frame_pending: false,
                stopped: false,
                counters: after.playback.counters,
                ..self.playback
            },
            input: InputState { latched: false, ..self.input },
            recorder: RecorderState {
                active: true,
                since: 0,
                per_keyframe: frames_per_keyframe,
                full_pending: false,
            },
            ..self
        })
        &&& after.playback.counters is Some
        &&& following::counters_of(after.playback.counters) == packet::counter_models(
            info.counters@,
        )
    }

    /// The new file is there: let go of the source replay and record on from where it left off.
    pub fn recording_resumed(&mut self, info: ResumeInfo, frames_per_keyframe: u64)
        requires
            old(self).wf(),
            frames_per_keyframe >= 1,
        ensures
            final(self).wf(),
            old(self).resumed_from(*final(self), info, frames_per_keyframe),
    {
        let ghost before = *self;
        self.playback.player = None;
        self.playback.stalled = false;
        self.playback.frame_pending = false;
        self.input.latched = false;
        self.playback.stopped = false;
        self.playback.counters = Some(packet::copy_counters(&info.counters));
        self.recorder.since = 0;
        self.recorder.full_pending = false;
        self.recorder.active = true;
        self.recorder.per_keyframe = frames_per_keyframe;
        let ghost taken = *self;
        assert(before.source_taken(taken, info, frames_per_keyframe));
        // Prime the live wall-clock timer to continue from the resume point.
        self.resume_timer(info.elapsed_millis, info.elapsed_frames);
        let ghost timed = *self;
        // Only the emulator-side encoded input carries continuity across the resume boundary; live
        // input proceeds from the user's current input on subsequent frames.
        self.core.set_input_encoded(info.input.as_slice());
        let ghost set = *self;
        proof {
            assert(set.core.log() =~= timed.core.log() + seq![
                CoreCall::SetInput { data: info.input@ },
            ]);
            assert(timed.held_set(set, info.input@));
            assert(taken.timer_resumed(timed, info.elapsed_millis, info.elapsed_frames));
        }
        self.apply_speed(info.speed);
    }
}

} // verus!
