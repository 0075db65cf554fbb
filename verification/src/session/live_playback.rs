//! Reading a followed game up to the next frame, and starting and ending to follow one.

use super::compat;
use super::compat::ReplayPlayerAttachError;
use super::effects;
use super::following;
use super::state;
use super::state::{
    FollowerState, InputState, MonotonicTimestampProvider, PlaybackState, RecorderState, RunState,
    SuperShuckieCore, TimerState, WriteModel,
};
use crate::emulator::console::EmulatorCore;
use crate::emulator::input::Input;
use crate::play_together::live;
use crate::play_together::live::{
    FollowerStats, FollowerStatsSnapshot, ItemModel, LiveItem, LivePoll, LiveReplaySource,
};
use crate::play_together::stream::SnapshotRequestReason;
use crate::replay::packet;
use crate::replay::packet::Packet;
use crate::replay::player::ReplayFileMetadata;
use vstd::prelude::*;
use vstd::string::*;

verus! {

impl<C: EmulatorCore, T: MonotonicTimestampProvider> SuperShuckieCore<C, T> {
    /// The item read next, if there is one.
    pub open spec fn next_item(self) -> Option<ItemModel> {
        if self.together.follower is Some && self.following().source.queued().len() > 0 {
            Some(self.following().source.queued()[0])
        } else {
            None
        }
    }

    /// After taking the next item from the queue.
    pub open spec fn item_taken(self, after: Self) -> bool {
        &&& self.together.follower is Some
        &&& after.together.follower is Some
        &&& after == self.with_follower(
            Some(FollowerState { source: after.following().source, ..self.following() }),
        )
        &&& after.following().source.queued() == self.following().source.queued().skip(1)
        &&& after.following().source == (LiveReplaySource {
            items: after.following().source.items,
            frames_queued: after.following().source.frames_queued,
            ..self.following().source
        })
        &&& after.following().source.frames_queued == live::frames_in(
            after.following().source.queued(),
        )
    }

    /// What an item that does not end the reading does.
    pub open spec fn item_applied(self, after: Self, item: ItemModel) -> bool {
        match item {
            ItemModel::SyncHash { frame, hash } => self.hash_checked(after, frame, hash),
            ItemModel::Packet(packet::PacketModel::Keyframe { metadata, state }) =>
            self.snapshot_applied(after, metadata, state) && !after.playback.stalled,
            ItemModel::Packet(p) => !(p is NextFrame) && self.packet_applied(after, p),
        }
    }

    /// Whether the next item leads from here to there.
    pub open spec fn reads_on(self, after: Self) -> bool {
        exists|taken: Self| #[trigger]
            self.item_taken(taken) && self.next_item() is Some && taken.item_applied(
                after,
                self.next_item()->Some_0,
            )
    }

    /// With the follower marked as waiting or not.
    pub open spec fn marked_waiting(self, waiting: bool) -> Self {
        let marked = SuperShuckieCore {
            playback: PlaybackState { waiting, ..self.playback },
            ..self
        };
        match self.together.follower {
            Some(f) => marked.with_follower(
                Some(
                    following::with_stats(
                        f,
                        FollowerStats { waiting, ..f.source.stats },
                    ),
                ),
            ),
            None => marked,
        }
    }

    /// Whether the reading ends here: nothing has arrived, the publisher is gone, a snapshot did
    /// not load, or a frame's packets are complete.
    pub open spec fn reading_ends(self, after: Self) -> bool {
        match self.next_item() {
            None => if self.following().source.ended {
                after == (SuperShuckieCore {
                    playback: PlaybackState { waiting: false, stalled: true, ..self.playback },
                    ..self
                })
            } else {
                after == self.marked_waiting(true)
            },
            Some(ItemModel::Packet(packet::PacketModel::Keyframe { metadata, state })) => {
                exists|taken: Self| #[trigger]
                    self.item_taken(taken) && taken.snapshot_applied(after, metadata, state)
                        && after.playback.stalled
            },
            Some(ItemModel::Packet(p)) => p is NextFrame && exists|taken: Self, done: Self|
                #[trigger]
                self.item_taken(taken) && #[trigger] taken.packet_applied(done, p) && after
                    == done.marked_waiting(false),
            Some(ItemModel::SyncHash { .. }) => false,
        }
    }

    /// Whether what was read in `steps` leads up to where the reading ends.
    pub open spec fn read_in_steps(self, after: Self, steps: Seq<Self>) -> bool {
        &&& steps.len() >= 1
        &&& steps[0] == self
        &&& forall|i: int, j: int|
            0 <= i && j == i + 1 && j < steps.len() ==> (#[trigger] steps[i]).reads_on(
                #[trigger] steps[j],
            )
        &&& steps.last().reading_ends(after)
    }

    /// After reading the followed game up to the next frame.
    pub open spec fn live_handled(self, after: Self) -> bool {
        if self.together.follower is None {
            after == self
        } else {
            exists|steps: Seq<Self>| #[trigger] self.read_in_steps(after, steps)
        }
    }

    fn take_item(&mut self) -> (r: LivePoll)
        requires
            old(self).wf(),
            old(self).together.follower is Some,
        ensures
            final(self).wf(),
            match old(self).next_item() {
                Some(item) => (r matches LivePoll::Item(i) && i@ == item) && old(self).item_taken(
                    *final(self),
                ),
                None => *final(self) == *old(self) && r == (if old(self).following().source.ended {
                    LivePoll::Ended
                } else {
                    LivePoll::Waiting
                }),
            },
    {
        proof {
            reveal(state::follower_wf);
        }
        match self.together.follower.take() {
            Some(mut f) => {
                let poll: LivePoll = f.source.pop();
                self.together.follower = Some(f);
                poll
            },
            None => LivePoll::Waiting,
        }
    }

    fn mark_waiting(&mut self, waiting: bool)
        requires
            old(self).wf(),
        ensures
            final(self).wf(),
            *final(self) == old(self).marked_waiting(waiting),
    {
        proof {
            reveal(state::follower_wf);
        }
        self.playback.waiting = waiting;
        if let Some(mut f) = self.together.follower.take() {
            f.source.stats.waiting = waiting;
            self.together.follower = Some(f);
        }
    }

    /// Apply one item; whether the reading goes on.
    fn apply_item(&mut self, item: &LiveItem) -> (r: bool)
        requires
            old(self).wf(),
            old(self).together.follower is Some,
        ensures
            final(self).wf(),
            final(self).together.follower is Some,
            final(self).following().source.items == old(self).following().source.items,
            r ==> old(self).item_applied(*final(self), item@),
            !r ==> match item@ {
                ItemModel::Packet(packet::PacketModel::Keyframe { metadata, state }) => old(
                    self,
                ).snapshot_applied(*final(self), metadata, state) && final(self).playback.stalled,
                ItemModel::Packet(p) => p is NextFrame && exists|done: Self| #[trigger]
                    old(self).packet_applied(done, p) && *final(self) == done.marked_waiting(false),
                ItemModel::SyncHash { .. } => false,
            },
    {
        let ghost before = *self;
        match item {
            LiveItem::SyncHash { frame, hash } => {
                self.check_sync_hash(*frame, *hash);
                true
            },
            LiveItem::Packet(p) => match p {
                Packet::Keyframe { metadata, state } => {
                    self.apply_stream_snapshot(metadata, state);
                    !self.playback.stalled
                },
                _ => {
                    let ends: bool = match p {
                        Packet::NextFrame { .. } => true,
                        _ => false,
                    };
                    self.apply_playback_packet(p);
                    if ends {
                        let ghost done = *self;
                        assert(before.packet_applied(done, p@));
                        self.mark_waiting(false);
                    }
                    !ends
                },
            },
        }
    }

    /// Read the live replay up to the next frame marker.
    pub fn handle_live_replay(&mut self)
        requires
            old(self).wf(),
        ensures
            final(self).wf(),
            old(self).live_handled(*final(self)),
    {
        if self.together.follower.is_none() {
            return;
        }
        let ghost before = *self;
        let ghost mut steps: Seq<Self> = seq![*self];
        let mut reading: bool = true;
        while reading
            invariant
                self.wf(),
                steps.len() >= 1,
                steps[0] == before,
                forall|i: int, j: int|
                    0 <= i && j == i + 1 && j < steps.len() ==> (#[trigger] steps[i]).reads_on(
                        #[trigger] steps[j],
                    ),
                reading ==> steps.last() == *self && self.together.follower is Some,
                !reading ==> steps.last().reading_ends(*self),
            decreases
                    (if reading {
                        self.following().source.queued().len() + 1
                    } else {
                        0
                    }),
        {
            let ghost at = *self;
            match self.take_item() {
                LivePoll::Waiting => {
                    self.mark_waiting(true);
                    reading = false;
                },
                LivePoll::Ended => {
                    self.playback.waiting = false;
                    self.playback.stalled = true;
                    reading = false;
                },
                LivePoll::Item(item) => {
                    let ghost taken = *self;
                    reading = self.apply_item(&item);
                    proof {
                        assert(at.item_taken(taken));
                        assert(at.next_item() == Some(item@));
                        if reading {
                            assert(at.reads_on(*self));
                            let done = steps;
                            steps = steps.push(*self);
                            assert forall|i: int, j: int|
                                0 <= i && j == i + 1 && j < steps.len() implies (
                            #[trigger] steps[i]).reads_on(#[trigger] steps[j]) by {
                                if j < done.len() {
                                    assert(done[i].reads_on(done[j]));
                                } else {
                                    assert(done[i] == done.last());
                                }
                            }
                        } else {
                            assert(at.reading_ends(*self));
                        }
                    }
                },
            }
        }
        assert(before.read_in_steps(*self, steps));
    }

    // -----------------------------------------------------------------------------------------
    // Starting and ending.

    /// After no longer following, if a game was followed: the follower's own file is closed, and
    /// the console keeps whatever state it had.
    pub open spec fn live_detached(self, after: Self) -> bool {
        if self.together.follower is None {
            after == self
        } else {
            exists|stopped: Self| #[trigger]
                self.with_follower(None).recording_stopped(stopped) && stopped.let_go(after)
        }
    }

    /// With everything about a followed game forgotten.
    pub open spec fn let_go(self, after: Self) -> bool {
        &&& after == (SuperShuckieCore {
            playback: PlaybackState {
                stalled: false,
                frame_pending: false,
                waiting: false,
                stopped: false,
                counters: None,
                ..self.playback
            },
            input: InputState { latched: false, next: Some(Input::nothing()), ..self.input },
            timer: TimerState { origin: 0, ..self.timer },
            runs: RunState { epoch: self.runs.epoch.wrapping_add(1), ..self.runs },
            effects: after.effects,
            ..self
        })
        &&& after.outs() == self.outs() + effects::only_if(
            self.audio.listening,
            effects::Out::ClearAudio,
        )
    }

    /// Stop following; closes the follower's own file recording, if any. The console keeps whatever
    /// state it had.
    pub fn detach_live_source(&mut self)
        requires
            old(self).wf(),
        ensures
            final(self).wf(),
            old(self).live_detached(*final(self)),
    {
        if self.together.follower.is_none() {
            return;
        }
        let ghost before = *self;
        proof {
            reveal(state::follower_wf);
        }
        self.together.follower = None;
        let _ = self.stop_recording_replay();
        let ghost stopped = *self;
        assert(before.with_follower(None).recording_stopped(stopped));
        self.playback.stalled = false;
        self.playback.frame_pending = false;
        self.playback.waiting = false;
        self.input.latched = false;
        self.playback.stopped = false;
        self.playback.counters = None;
        self.timer.origin = 0;
        self.reset_input();
        self.clear_audio();
        self.bump_state_epoch();
    }

    /// Everything let go of that another replay or game may not meet: the recording, the replay,
    /// the game followed.
    pub open spec fn all_detached(self, after: Self) -> bool {
        exists|stopped: Self, detached: Self|
            #![trigger self.recording_stopped(stopped), stopped.player_detached(detached)]
            self.recording_stopped(stopped) && stopped.player_detached(detached)
                && detached.live_detached(after)
    }

    /// With a game followed from its first snapshot on.
    pub open spec fn follows(self, after: Self, source: LiveReplaySource) -> bool {
        &&& after == (SuperShuckieCore {
            input: InputState {
                current: Input::nothing(),
                next: None,
                latched: false,
                ..self.input
            },
            writes: after.writes,
            playback: PlaybackState {
                counters: after.playback.counters,
                stalled: false,
                frame_pending: false,
                stopped: false,
                waiting: true,
                ignore_speed: true,
                ..self.playback
            },
            recorder: RecorderState { since: 0, ..self.recorder },
            timer: TimerState { origin: 0, ..self.timer },
            runs: RunState { epoch: self.runs.epoch.wrapping_add(1), ..self.runs },
            effects: after.effects,
            ..self.with_follower(after.together.follower)
        })
        &&& after.waiting_writes() == Seq::<WriteModel>::empty()
        &&& after.playback.counters matches Some(c) && c@.len() == 0
        &&& after.together.follower is Some
        &&& after.following().source == (LiveReplaySource {
            stats: FollowerStats { waiting: true, ..source.stats },
            ..source
        })
        &&& after.following().hash_suppressed_until == 0
        &&& after.following().last_input@.len() == 0
        &&& after.following().pending_recording is None
        &&& after.following().starting_recording is None
        &&& after.following().errors@.len() == 0
        &&& after.outs() == self.outs() + effects::only_if(
            self.audio.listening,
            effects::Out::ClearAudio,
        )
    }

    /// Why a game cannot be followed.
    pub open spec fn follow_refused(self, metadata: ReplayFileMetadata, allow_mismatched: bool) -> Option<
        compat::AttachErrorModel,
    > {
        match compat::misfit(metadata, self.core.identity(), allow_mismatched) {
            Some(why) => Some(why),
            None => if self.together.publishing {
                Some(
                    compat::AttachErrorModel::Incompatible {
                        description:
                            "This console is being published to other players; it cannot follow one."@,
                    },
                )
            } else {
                None
            },
        }
    }

    /// Follow another player's game: `source` delivers their packets; `metadata` describes their
    /// ROM, BIOS and core, which must match this core's like a replay file's would unless
    /// `allow_mismatched`.
    ///
    /// Refused while this console is being published. Otherwise any recording is stopped and any
    /// replay detached; nothing runs until the first snapshot arrives, and the clock is the
    /// publisher's from then on. Speed changes in the stream are ignored: a follower is paced by
    /// whoever drives it.
    pub fn attach_live_replay_source(
        &mut self,
        source: LiveReplaySource,
        metadata: &ReplayFileMetadata,
        allow_mismatched: bool,
    ) -> (r: Result<(), ReplayPlayerAttachError>)
        requires
            old(self).wf(),
            source.wf(),
        ensures
            final(self).wf(),
            match old(self).follow_refused(*metadata, allow_mismatched) {
                Some(why) => (r matches Err(e) && e@ == why) && *final(self) == *old(self),
                None => r is Ok && exists|detached: Self| #[trigger]
                    old(self).all_detached(detached) && detached.follows(*final(self), source),
            },
    {
        match self.check_replay_compat(metadata, allow_mismatched) {
            Ok(_) => {},
            Err(e) => return Err(e),
        }
        if self.together.publishing {
            return Err(
                ReplayPlayerAttachError::Incompatible {
                    description:
                        "This console is being published to other players; it cannot follow one.".to_owned(),
                },
            );
        }
        let ghost before = *self;
        let _ = self.stop_recording_replay();
        let ghost stopped = *self;
        self.detach_replay_player();
        let ghost detached = *self;
        self.detach_live_source();
        let ghost all = *self;
        assert(before.recording_stopped(stopped) && stopped.player_detached(detached));
        assert(before.all_detached(all));
        self.start_following(source);
        Ok(())
    }

    fn start_following(&mut self, source: LiveReplaySource)
        requires
            old(self).wf(),
            source.wf(),
        ensures
            final(self).wf(),
            old(self).follows(*final(self), source),
    {
        proof {
            reveal(state::follower_wf);
        }
        self.input.current = Input::new();
        self.input.next = None;
        self.writes = Vec::new();
        self.playback.counters = Some(Vec::new());
        self.playback.stalled = false;
        self.playback.frame_pending = false;
        self.input.latched = false;
        self.playback.stopped = false;
        self.playback.waiting = true;
        self.recorder.since = 0;
        self.timer.origin = 0;
        self.playback.ignore_speed = true;
        let mut source: LiveReplaySource = source;
        source.stats.waiting = true;
        self.together.follower = Some(
            FollowerState {
                source,
                hash_suppressed_until: 0,
                last_input: Vec::new(),
                pending_recording: None,
                starting_recording: None,
                errors: Vec::new(),
            },
        );
        self.clear_audio();
        self.bump_state_epoch();
        assert(self.waiting_writes() =~= Seq::<WriteModel>::empty());
    }

    /// The counters of the live replay being followed, if any.
    pub fn follower_stats(&self) -> (r: Option<FollowerStatsSnapshot>)
        ensures
            r == (match self.together.follower {
                Some(f) => Some(f.source.stats.at(self.timer.frames)),
                None => None,
            }),
    {
        match &self.together.follower {
            Some(f) => Some(f.source.stats.snapshot(self.timer.frames)),
            None => None,
        }
    }

    /// Complete frames received from the publisher and not yet run.
    pub fn live_frames_available(&self) -> (r: u64)
        requires
            self.wf(),
        ensures
            r == (match self.together.follower {
                Some(f) => live::frames_in(f.source.queued()),
                None => 0,
            }),
    {
        proof {
            reveal(state::follower_wf);
        }
        match &self.together.follower {
            Some(f) => f.source.frames_available(),
            None => 0,
        }
    }

    /// The newest frame number the publisher has sent.
    pub fn live_newest_publisher_frame(&self) -> (r: u64)
        ensures
            r == (match self.together.follower {
                Some(f) => f.source.newest_frame,
                None => 0,
            }),
    {
        match &self.together.follower {
            Some(f) => f.source.newest_publisher_frame(),
            None => 0,
        }
    }

    /// Ask the publisher for a snapshot (rate-limited).
    pub fn live_request_snapshot(&mut self, reason: SnapshotRequestReason)
        requires
            old(self).wf(),
        ensures
            final(self).wf(),
            match old(self).together.follower {
                Some(f) => {
                    &&& final(self).together.follower is Some
                    &&& final(self).clock.last() >= old(self).clock.last()
                    &&& *final(self) == (SuperShuckieCore {
                        clock: final(self).clock,
                        ..old(self).with_follower(
                            Some(FollowerState { source: final(self).following().source, ..f }),
                        )
                    })
                    &&& f.source.asked(
                        final(self).following().source,
                        reason,
                        final(self).clock.last(),
                    )
                },
                None => *final(self) == *old(self),
            },
    {
        proof {
            reveal(state::follower_wf);
        }
        if let Some(mut f) = self.together.follower.take() {
            let now: u64 = self.clock.get_timestamp_microseconds();
            f.source.request_snapshot(reason, now);
            self.together.follower = Some(f);
        }
    }

    /// Problems following reported since the last call.
    pub fn poll_follower_errors(&mut self) -> (r: Vec<String>)
        requires
            old(self).wf(),
        ensures
            final(self).wf(),
            match old(self).together.follower {
                Some(f) => {
                    &&& r == f.errors
                    &&& final(self).together.follower is Some
                    &&& *final(self) == old(self).with_follower(
                        Some(FollowerState { errors: final(self).following().errors, ..f }),
                    )
                    &&& final(self).following().errors@.len() == 0
                },
                None => r@.len() == 0 && *final(self) == *old(self),
            },
    {
        proof {
            reveal(state::follower_wf);
        }
        let mut errors: Vec<String> = Vec::new();
        if let Some(mut f) = self.together.follower.take() {
            core::mem::swap(&mut errors, &mut f.errors);
            self.together.follower = Some(f);
        }
        errors
    }

    /// Whether the followed game is being written to a file (started or still waiting for its first
    /// state).
    pub fn is_recording_follower_replay(&self) -> (r: bool)
        ensures
            r == (self.together.follower matches Some(f) && (f.pending_recording is Some
                || self.recorder.active)),
    {
        match &self.together.follower {
            Some(f) => f.pending_recording.is_some() || self.recorder.active,
            None => false,
        }
    }

    /// After asking for the followed game to be written to a file of its own.
    pub open spec fn follower_file_asked(self, after: Self, frames_per_keyframe: u64) -> bool {
        exists|stopped: Self| #[trigger]
            self.recording_stopped(stopped) && {
                let asked = stopped.with_follower(
                    Some(
                        FollowerState {
                            pending_recording: Some(frames_per_keyframe),
                            ..stopped.following()
                        },
                    ),
                );
                if self.following().source.stats.snapshots_applied > 0 && !self.core.mid_frame() {
                    asked.file_started(after, self.core.state())
                } else {
                    after == asked
                }
            }
    }

    /// Also write the followed game to a replay file of its own, from the next snapshot on (or
    /// right away when one has been applied and the console sits at a frame boundary). The file
    /// counts frames and time from that point; snapshots that arrive later go in as full keyframes.
    pub fn start_recording_follower_replay(&mut self, frames_per_keyframe: u64) -> (r: Result<
        (),
        &'static str,
    >)
        requires
            old(self).wf(),
        ensures
            final(self).wf(),
            if old(self).together.follower is None {
                (r matches Err(e) && e@ == "not following another player's game"@) && *final(self)
                    == *old(self)
            } else {
                r is Ok && old(self).follower_file_asked(*final(self), frames_per_keyframe)
            },
    {
        if self.together.follower.is_none() {
            return Err("not following another player's game");
        }
        let ghost before = *self;
        let _ = self.stop_recording_replay();
        let ghost stopped = *self;
        assert(before.recording_stopped(stopped));
        proof {
            reveal(state::follower_wf);
        }
        let mut have_state: bool = false;
        if let Some(mut f) = self.together.follower.take() {
            f.pending_recording = Some(frames_per_keyframe);
            have_state = f.source.stats.snapshots_applied > 0;
            self.together.follower = Some(f);
        }
        if have_state && !self.core.is_mid_frame() {
            let state: Vec<u8> = self.core.create_save_state();
            self.start_pending_follower_recording(state);
        }
        Ok(())
    }
}

} // verus!
