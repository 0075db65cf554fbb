//! Following another player's game.

use super::effects;
use super::effects::Effect;
use super::state;
use super::state::{
    FollowerRecordingStart, FollowerState, MonotonicTimestampProvider, PlaybackState, RecorderState,
    RunState, SuperShuckieCore, TimerState, TogetherState,
};
use crate::emulator::console;
use crate::emulator::console::{CoreCall, EmulatorCore};
use crate::play_together::cable::same_hash;
use crate::play_together::live;
use crate::play_together::live::LiveReplaySource;
use crate::play_together::stream::SnapshotRequestReason;
use crate::replay::packet;
use crate::replay::packet::{Counter, KeyframeMetadata};
use crate::text;
use vstd::prelude::*;
use vstd::string::*;

verus! {

/// Frames emulated after loading a keyframe before a picture is shown or a hash compared.
pub const POST_LOAD_FRAMES: u64 = 3;

/// What a snapshot's counters differ from the ones before it, for a file that records differences:
/// the first `n` counters.
pub open spec fn counter_records(
    before: Seq<packet::CounterModel>,
    after: Seq<packet::CounterModel>,
    n: nat,
) -> Seq<effects::Out>
    decreases n,
{
    if n == 0 {
        Seq::empty()
    } else {
        let c = after[n - 1];
        let delta = c.value.wrapping_sub(packet::counter_value(before, c.name));
        counter_records(before, after, (n - 1) as nat) + effects::only_if(
            delta != 0,
            effects::Out::RecordCounter { name: c.name, delta },
        )
    }
}

/// Counters that may not be there.
pub open spec fn counters_of(counters: Option<Vec<Counter>>) -> Seq<packet::CounterModel> {
    match counters {
        Some(c) => packet::counter_models(c@),
        None => Seq::empty(),
    }
}

/// A follower whose source's counters changed.
pub open spec fn with_stats(f: FollowerState, stats: live::FollowerStats) -> FollowerState {
    FollowerState { source: LiveReplaySource { stats, ..f.source }, ..f }
}

/// The follower after one problem more.
pub open spec fn problem_noted(f: FollowerState, after: FollowerState, problem: Seq<char>) -> bool {
    &&& after == (FollowerState { errors: after.errors, ..f })
    &&& after.errors@.len() == f.errors@.len() + 1
    &&& after.errors@.drop_last() == f.errors@
    &&& after.errors@.last()@ == problem
}

impl<C: EmulatorCore, T: MonotonicTimestampProvider> SuperShuckieCore<C, T> {
    /// The follower.
    pub open spec fn following(self) -> FollowerState {
        self.together.follower->Some_0
    }

    /// With another follower state.
    pub open spec fn with_follower(self, f: Option<FollowerState>) -> Self {
        SuperShuckieCore { together: TogetherState { follower: f, ..self.together }, ..self }
    }

    // -----------------------------------------------------------------------------------------
    // Sync hashes.

    /// Whether a publisher's hash can be compared: only at the same frame, and not right after a
    /// snapshot.
    pub open spec fn compares_hash(self, frame: u64) -> bool {
        &&& self.together.follower is Some
        &&& frame == self.timer.frames
        &&& frame >= self.following().hash_suppressed_until
        &&& self.core.work_ram_hash() is Some
    }

    /// After comparing the publisher's work-RAM hash with ours: a mismatch asks for a snapshot.
    pub open spec fn hash_checked(self, after: Self, frame: u64, hash: [u8; 32]) -> bool {
        if self.compares_hash(frame) && self.core.work_ram_hash()->Some_0@ != hash@ {
            let f = self.following();
            let counted = with_stats(
                f,
                live::FollowerStats {
                    hash_mismatches: live::one_more(f.source.stats.hash_mismatches),
                    ..f.source.stats
                },
            );
            &&& after.clock.last() >= self.clock.last()
            &&& after.together.follower is Some
            &&& after == (SuperShuckieCore {
                clock: after.clock,
                ..self.with_follower(
                    Some(
                        FollowerState {
                            source: after.following().source,
                            ..f
                        },
                    ),
                )
            })
            &&& counted.source.asked(
                after.following().source,
                SnapshotRequestReason::HashMismatch,
                after.clock.last(),
            )
        } else {
            after == self
        }
    }

    /// Compare the publisher's work-RAM hash for `frame` with ours; a mismatch asks for a snapshot
    /// (rate-limited) and playing continues meanwhile.
    pub fn check_sync_hash(&mut self, frame: u64, hash: [u8; 32])
        requires
            old(self).wf(),
        ensures
            final(self).wf(),
            old(self).hash_checked(*final(self), frame, hash),
    {
        let suppressed_until: u64 = match &self.together.follower {
            Some(f) => f.hash_suppressed_until,
            None => return,
        };
        if frame != self.timer.frames || frame < suppressed_until {
            return;
        }
        let mine: [u8; 32] = match self.core.sync_hash() {
            Some(mine) => mine,
            None => return,
        };
        if same_hash(&mine, &hash) {
            return;
        }
        proof {
            reveal(state::follower_wf);
        }
        let now: u64 = self.clock.get_timestamp_microseconds();
        if let Some(mut f) = self.together.follower.take() {
            f.source.stats.hash_mismatches = f.source.stats.hash_mismatches.saturating_add(1);
            f.source.request_snapshot(SnapshotRequestReason::HashMismatch, now);
            self.together.follower = Some(f);
        }
    }

    // -----------------------------------------------------------------------------------------
    // Snapshots.

    /// After the recording the follower waits for can be started: from here, with the input the
    /// publisher holds, in a file whose time starts at zero.
    pub open spec fn file_started(self, after: Self, state: Seq<u8>) -> bool {
        if self.together.follower is Some && self.following().pending_recording is Some {
            let f = self.following();
            let per_keyframe = f.pending_recording->Some_0;
            &&& after.together.follower is Some
            &&& after.following().starting_recording is Some
            &&& after == (SuperShuckieCore {
                timer: TimerState { origin: self.timer.millis, ..self.timer },
                recorder: RecorderState {
                    active: true,
                    since: 0,
                    per_keyframe,
                    full_pending: false,
                },
                ..self.with_follower(
                    Some(
                        FollowerState {
                            pending_recording: None,
                            starting_recording: after.following().starting_recording,
                            ..f
                        },
                    ),
                )
            })
            &&& ({
                let start = after.following().starting_recording->Some_0;
                &&& start.input@ == f.last_input@
                &&& start.speed == self.playback.speed
                &&& start.state@ == state
                &&& start.frames_per_keyframe == per_keyframe
            })
        } else {
            after == self
        }
    }

    /// Start the follower's file recording if one is waiting for a state to start from.
    pub fn start_pending_follower_recording(&mut self, state: Vec<u8>)
        requires
            old(self).wf(),
        ensures
            final(self).wf(),
            old(self).file_started(*final(self), state@),
    {
        proof {
            reveal(state::follower_wf);
        }
        if let Some(mut f) = self.together.follower.take() {
            if let Some(frames_per_keyframe) = f.pending_recording {
                f.pending_recording = None;
                let input: Vec<u8> = packet::copy_bytes(&f.last_input);
                f.starting_recording = Some(
                    FollowerRecordingStart {
                        input,
                        speed: self.playback.speed,
                        state,
                        frames_per_keyframe,
                    },
                );
                // The file's time starts at zero here.
                self.timer.origin = self.timer.millis;
                self.recorder.per_keyframe = frames_per_keyframe;
                self.recorder.since = 0;
                self.recorder.full_pending = false;
                self.recorder.active = true;
            }
            self.together.follower = Some(f);
        }
    }

    /// Take what the follower's file starts from, once.
    pub fn take_follower_recording_start(&mut self) -> (r: Option<FollowerRecordingStart>)
        requires
            old(self).wf(),
        ensures
            final(self).wf(),
            match old(self).together.follower {
                Some(f) => r == f.starting_recording && *final(self) == old(self).with_follower(
                    Some(FollowerState { starting_recording: None, ..f }),
                ),
                None => r is None && *final(self) == *old(self),
            },
    {
        proof {
            reveal(state::follower_wf);
        }
        match self.together.follower.take() {
            Some(mut f) => {
                let start: Option<FollowerRecordingStart> = f.starting_recording.take();
                self.together.follower = Some(f);
                start
            },
            None => None,
        }
    }

    /// The follower's file could not be started: nothing is recorded, and why is noted.
    pub fn follower_recording_failed(&mut self, why: String)
        requires
            old(self).wf(),
        ensures
            final(self).wf(),
            match old(self).together.follower {
                Some(f) => {
                    &&& final(self).together.follower is Some
                    &&& *final(self) == (SuperShuckieCore {
                        recorder: RecorderState { active: false, ..old(self).recorder },
                        ..old(self).with_follower(final(self).together.follower)
                    })
                    &&& problem_noted(
                        f,
                        final(self).following(),
                        "the replay file could not be started: "@ + why@,
                    )
                },
                None => *final(self) == *old(self),
            },
    {
        proof {
            reveal(state::follower_wf);
        }
        if let Some(mut f) = self.together.follower.take() {
            let problem: String = text::joined(
                "the replay file could not be started: ",
                why.as_str(),
            );
            let ghost errors = f.errors@;
            f.errors.push(problem);
            assert(f.errors@.drop_last() =~= errors);
            self.together.follower = Some(f);
            self.recorder.active = false;
        }
    }

    /// Where a snapshot puts the session.
    pub open spec fn at_snapshot(self, after: Self, metadata: packet::KeyframeModel) -> bool {
        &&& after == (SuperShuckieCore {
            core: after.core,
            timer: TimerState {
                frames: metadata.elapsed_frames,
                millis: metadata.elapsed_millis,
                ..self.timer
            },
            playback: PlaybackState {
                counters: after.playback.counters,
                speed: metadata.speed,
                frame_pending: false,
                stalled: false,
                ..self.playback
            },
            recorder: RecorderState { since: 0, ..self.recorder },
            runs: RunState { epoch: self.runs.epoch.wrapping_add(1), ..self.runs },
            together: TogetherState { follower: after.together.follower, ..self.together },
            effects: after.effects,
            ..self
        })
        &&& after.playback.counters is Some
        &&& counters_of(after.playback.counters) == metadata.counters
        &&& match self.together.follower {
            Some(f) => {
                &&& after.together.follower is Some
                &&& after.following() == (FollowerState {
                    hash_suppressed_until: after_loading(metadata.elapsed_frames),
                    last_input: after.following().last_input,
                    ..with_stats(
                        f,
                        live::FollowerStats {
                            snapshots_applied: live::one_more(f.source.stats.snapshots_applied),
                            ..f.source.stats
                        },
                    )
                })
                &&& after.following().last_input@ == metadata.input
            },
            None => after.together.follower is None,
        }
        &&& after.outs() == self.outs() + effects::only_if(
            self.audio.listening,
            effects::Out::ClearAudio,
        )
    }

    /// What a file records of a snapshot: the file jumps too, with a full keyframe so the jump is
    /// seekable.
    pub open spec fn snapshot_records(
        self,
        counters: Seq<packet::CounterModel>,
        metadata: packet::KeyframeModel,
        state: Seq<u8>,
    ) -> Seq<effects::Out> {
        seq![
            effects::Out::RecordState { state },
            effects::Out::RecordInput { data: metadata.input },
            effects::Out::RecordSpeed { speed: metadata.speed },
        ] + counter_records(counters, metadata.counters, metadata.counters.len()) + seq![
            effects::Out::RecordKeyframe {
                state,
                millis: self.file_millis(),
                full: true,
                since: 0,
            },
        ]
    }

    /// After loading a snapshot the publisher sent.
    pub open spec fn snapshot_applied(
        self,
        after: Self,
        metadata: packet::KeyframeModel,
        state: Seq<u8>,
    ) -> bool {
        exists|put: Self, error: Option<Seq<char>>| #[trigger]
            self.snapshot_put(after, put, error, metadata, state)
    }

    /// After loading a snapshot, the core having answered with `error`: one that does not load
    /// stalls the session and is noted; otherwise the console is put exactly where the publisher
    /// was.
    pub open spec fn snapshot_put(
        self,
        after: Self,
        put: Self,
        error: Option<Seq<char>>,
        metadata: packet::KeyframeModel,
        state: Seq<u8>,
    ) -> bool {
        let load = CoreCall::LoadSaveState { state, error };
        match error {
            Some(why) => {
                &&& self.asked(after, seq![load])
                &&& after == (SuperShuckieCore {
                    core: after.core,
                    playback: PlaybackState { stalled: true, ..self.playback },
                    ..self.with_follower(after.together.follower)
                })
                &&& match self.together.follower {
                    Some(f) => after.together.follower is Some && problem_noted(
                        f,
                        after.following(),
                        "the other player's state could not be loaded: "@ + why,
                    ),
                    None => after.together.follower is None,
                }
            },
            None => {
                &&& self.asked(put, seq![load, CoreCall::SetInput { data: metadata.input }])
                &&& self.at_snapshot(put, metadata)
                &&& if self.recorder.active {
                    put.told(
                        after,
                        put.snapshot_records(
                            counters_of(self.playback.counters),
                            metadata,
                            state,
                        ),
                    )
                } else {
                    put.file_started(after, state)
                }
            },
        }
    }

    fn put_at_snapshot(&mut self, metadata: &KeyframeMetadata)
        requires
            old(self).wf(),
        ensures
            final(self).wf(),
            final(self).core == old(self).core,
            old(self).at_snapshot(*final(self), metadata@),
    {
        proof {
            reveal(state::follower_wf);
        }
        self.timer.frames = metadata.elapsed_frames;
        self.timer.millis = metadata.elapsed_millis;
        self.playback.counters = Some(packet::copy_counters(&metadata.counters));
        self.playback.speed = metadata.speed;
        self.playback.frame_pending = false;
        self.playback.stalled = false;
        self.recorder.since = 0;
        self.bump_state_epoch();
        self.clear_audio();
        if let Some(mut f) = self.together.follower.take() {
            f.hash_suppressed_until = metadata.elapsed_frames.saturating_add(POST_LOAD_FRAMES);
            f.last_input = packet::copy_bytes(&metadata.input);
            f.source.stats.snapshots_applied = f.source.stats.snapshots_applied.saturating_add(1);
            self.together.follower = Some(f);
        }
    }

    fn record_snapshot(&mut self, counters: &Vec<Counter>, metadata: &KeyframeMetadata, state: &Vec<u8>)
        requires
            old(self).wf(),
        ensures
            final(self).wf(),
            old(self).told(
                *final(self),
                old(self).snapshot_records(
                    packet::counter_models(counters@),
                    metadata@,
                    state@,
                ),
            ),
    {
        let ghost before = *self;
        let ghost old_counters = packet::counter_models(counters@);
        let ghost new_counters = packet::counter_models(metadata.counters@);
        let millis: u64 = self.recording_millis();
        self.tell(Effect::RecordState { state: packet::copy_bytes(state) });
        self.tell(Effect::RecordInput { data: packet::copy_bytes(&metadata.input) });
        self.tell(Effect::RecordSpeed { speed: metadata.speed });
        let ghost head = seq![
            effects::Out::RecordState { state: state@ },
            effects::Out::RecordInput { data: metadata.input@ },
            effects::Out::RecordSpeed { speed: metadata.speed },
        ];
        assert(self.outs() =~= before.outs() + head);
        // Counters are absolute in a snapshot; the file records the differences.
        let mut i: usize = 0;
        assert(head + counter_records(old_counters, new_counters, 0) =~= head);
        while i < metadata.counters.len()
            invariant
                i <= metadata.counters@.len(),
                self.wf(),
                old_counters == packet::counter_models(counters@),
                new_counters == packet::counter_models(metadata.counters@),
                before.told(
                    *self,
                    head + counter_records(old_counters, new_counters, i as nat),
                ),
            decreases metadata.counters@.len() - i,
        {
            let counter: &Counter = &metadata.counters[i];
            assert(counter@ == new_counters[i as int]);
            let delta: i64 = counter.value.wrapping_sub(packet::value_of(counters, &counter.name));
            if delta != 0 {
                self.tell(Effect::RecordCounter { name: counter.name.clone(), delta });
            }
            i = i + 1;
            assert(self.outs() =~= before.outs() + (head + counter_records(
                old_counters,
                new_counters,
                i as nat,
            )));
        }
        self.tell(
            Effect::RecordKeyframe {
                state: packet::copy_bytes(state),
                millis,
                full: true,
                since: 0,
            },
        );
        assert(self.outs() =~= before.outs() + before.snapshot_records(
            old_counters,
            metadata@,
            state@,
        ));
    }

    /// Load a snapshot the publisher sent: the console is put exactly where they were, and whatever
    /// was queued before it was already discarded by the queue.
    pub fn apply_stream_snapshot(&mut self, metadata: &KeyframeMetadata, state: &Vec<u8>)
        requires
            old(self).wf(),
        ensures
            final(self).wf(),
            old(self).snapshot_applied(*final(self), metadata@, state@),
    {
        let ghost before = *self;
        proof {
            reveal(state::follower_wf);
        }
        let result: Result<(), String> = self.core.load_save_state(state.as_slice());
        let ghost error = console::refusal(result);
        if let Err(e) = result {
            if let Some(mut f) = self.together.follower.take() {
                let problem: String = text::joined(
                    "the other player's state could not be loaded: ",
                    e.as_str(),
                );
                let ghost errors = f.errors@;
                f.errors.push(problem);
                assert(f.errors@.drop_last() =~= errors);
                self.together.follower = Some(f);
            }
            self.playback.stalled = true;
            assert(self.core.log() =~= before.core.log() + seq![
                CoreCall::LoadSaveState { state: state@, error },
            ]);
            assert(before.snapshot_put(*self, before, error, metadata@, state@));
            return;
        }
        // Save states do not carry the buttons held; restore what the publisher had pressed.
        self.core.set_input_encoded(metadata.input.as_slice());
        assert(self.core.log() =~= before.core.log() + seq![
            CoreCall::LoadSaveState { state: state@, error },
            CoreCall::SetInput { data: metadata.input@ },
        ]);
        let counters: Vec<Counter> = match self.playback.counters.take() {
            Some(counters) => counters,
            None => Vec::new(),
        };
        assert(packet::counter_models(counters@) =~= counters_of(before.playback.counters));
        self.put_at_snapshot(metadata);
        let ghost put = *self;
        assert(before.at_snapshot(put, metadata@));
        if self.recorder.active {
            self.record_snapshot(&counters, metadata, state);
        } else {
            self.start_pending_follower_recording(packet::copy_bytes(state));
        }
        assert(before.snapshot_put(*self, put, error, metadata@, state@));
    }
}

/// The first frame whose hash is compared after loading a state at `frame`.
pub open spec fn after_loading(frame: u64) -> u64 {
    if frame + POST_LOAD_FRAMES > u64::MAX {
        u64::MAX
    } else {
        (frame + POST_LOAD_FRAMES) as u64
    }
}

} // verus!
