//! What a session core holds.

use super::effects;
use super::effects::Effect;
use crate::emulator::console;
use crate::emulator::console::{EmulatorCore, RunTime};
use crate::emulator::input::Input;
use crate::play_together::cable::{LinkPartnerState, LinkState};
use crate::play_together::live::LiveReplaySource;
use crate::replay::packet;
use crate::replay::packet::{Counter, Speed};
use crate::replay::player::ReplayFilePlayer;
use vstd::prelude::*;

verus! {

/// A clock that never goes backwards, although it does not necessarily always go forwards either.
pub trait MonotonicTimestampProvider {
    /// The time last given, in microseconds.
    closed spec fn last(&self) -> u64 {
        arbitrary()
    }

    /// Get the timestamp in microseconds.
    fn get_timestamp_microseconds(&mut self) -> (r: u64)
        ensures
            r == final(self).last(),
            final(self).last() >= old(self).last(),
    ;

    /// Get the timestamp in milliseconds. This does not need to be implemented.
    fn get_timestamp_milliseconds(&mut self) -> (r: u64)
        ensures
            r == final(self).last() / 1000,
            final(self).last() >= old(self).last(),
    {
        self.get_timestamp_microseconds() / 1000
    }
}

/// A write waiting for the end of a frame.
#[derive(Clone, Debug)]
pub struct QueuedWrite {
    pub address: u32,
    pub data: Vec<u8>,
}

/// A write, as the contracts see it.
pub ghost struct WriteModel {
    pub address: u32,
    pub data: Seq<u8>,
}

impl View for QueuedWrite {
    type V = WriteModel;

    open spec fn view(&self) -> WriteModel {
        WriteModel { address: self.address, data: self.data@ }
    }
}

/// Writes, as the contracts see them.
pub open spec fn write_models(writes: Seq<QueuedWrite>) -> Seq<WriteModel> {
    Seq::new(writes.len(), |i: int| writes[i]@)
}

/// Defines parameters for rapid fire.
#[derive(Copy, Clone, Debug)]
pub struct SuperShuckieRapidFire {
    /// Input state to use.
    pub input: Input,
    /// Number of frames the button(s) are held down between intervals.
    ///
    /// Note that when rapid fire is enabled, the button will be held down immediately for this many
    /// frames.
    pub hold_length: u64,
    /// Number of frames the button(s) are released between intervals.
    pub interval: u64,
    /// The current stage of the duty cycle.
    pub current_frame: u64,
    /// The sum of hold_length + interval.
    pub total_frames: u64,
}

/// Frames of one duty cycle.
pub open spec fn duty_cycle(hold_length: u64, interval: u64) -> u64 {
    if hold_length + interval > u64::MAX {
        u64::MAX
    } else {
        (hold_length + interval) as u64
    }
}

impl SuperShuckieRapidFire {
    /// A duty cycle that has been started.
    pub open spec fn wf(self) -> bool {
        &&& self.hold_length >= 1
        &&& self.interval >= 1
        &&& self.total_frames == duty_cycle(self.hold_length, self.interval)
        &&& self.current_frame < self.total_frames
    }

    /// The stage of the duty cycle `frames` later.
    pub open spec fn stage_after(self, frames: u64) -> u64 {
        ((self.current_frame + frames) % (self.total_frames as int)) as u64
    }
}

impl Default for SuperShuckieRapidFire {
    fn default() -> (r: Self)
        ensures
            r.input == Input::nothing(),
            r.hold_length == 1,
            r.interval == 1,
            r.current_frame == 0,
            r.total_frames == 0,
    {
        SuperShuckieRapidFire {
            input: Input::new(),
            hold_length: 1,
            interval: 1,
            current_frame: 0,
            total_frames: 0,
        }
    }
}

/// What a core following another player's game keeps besides its packet source.
pub struct FollowerState {
    pub source: LiveReplaySource,
    /// Sync hashes for frames before this one are ignored: right after a snapshot the console may
    /// still hold regenerated buffers the publisher's state did not carry.
    pub hash_suppressed_until: u64,
    /// The console's current input as the publisher encoded it.
    pub last_input: Vec<u8>,
    /// A file recording asked for before there was a state to start it from: its frames per
    /// keyframe.
    pub pending_recording: Option<u64>,
    /// A file recording that can be started now: the state to start it from.
    pub starting_recording: Option<FollowerRecordingStart>,
    /// Problems that ended following (a snapshot that would not load).
    pub errors: Vec<String>,
}

/// What a follower's file starts from.
#[derive(Clone, Debug)]
pub struct FollowerRecordingStart {
    pub input: Vec<u8>,
    pub speed: Speed,
    pub state: Vec<u8>,
    pub frames_per_keyframe: u64,
}

/// What the user holds down.
pub struct InputState {
    /// The current user-defined input.
    pub base: Input,
    /// The input to apply next frame.
    pub next: Option<Input>,
    /// Rapid fire input, if any. It is applied every interval for a set number of frames.
    pub rapid_fire: Option<SuperShuckieRapidFire>,
    /// Toggled input, if any. It is always applied.
    pub toggled: Option<Input>,
    /// The "total" input that was actually applied.
    pub current: Input,
    /// Whether the input for the next frame has been applied (and recorded) already. Cleared once a
    /// run actually emulates a frame, or when the input to apply changes.
    pub latched: bool,
}

/// The replay being played back, if any.
pub struct PlaybackState {
    pub player: Option<ReplayFilePlayer>,
    /// The counters of the replay played back or recorded.
    pub counters: Option<Vec<Counter>>,
    /// Whether the replay has run out of packets (or failed to read).
    pub stalled: bool,
    /// Whether the replay's packets for the next frame have been consumed already. Cleared once a
    /// run actually emulates a frame.
    pub frame_pending: bool,
    /// Whether the replay is stopped: still attached but no longer driving the emulator.
    pub stopped: bool,
    /// Where a stopped replay resumes from, as `(frame, replay time)`.
    pub resume_point: (u64, u64),
    /// The speed the replay was played at.
    pub speed: Speed,
    /// Whether that speed is ignored.
    pub ignore_speed: bool,
    /// Whether every keyframe passed is loaded.
    pub auto_resync: bool,
    /// `WriteMemory` packets that could not be applied.
    pub write_failures: u64,
    /// Whether a follower has nothing to run.
    pub waiting: bool,
}

/// The session's time.
pub struct TimerState {
    /// The clock's time at which the timer was at zero, in milliseconds.
    pub starting: u64,
    /// What the timer showed after the last frame.
    pub millis: u64,
    /// The clock's time at which the timer was paused, if it is.
    pub paused_at: Option<u64>,
    /// Frames emulated since the recording or playback started (or since the core was created).
    pub frames: u64,
    /// The time at which the file being recorded starts.
    pub origin: u64,
}

/// The replay being recorded, if any.
pub struct RecorderState {
    /// Whether a replay is being recorded.
    pub active: bool,
    /// Frames since the last keyframe.
    pub since: u64,
    /// Frames between keyframes.
    pub per_keyframe: u64,
    /// A keyframe bookmark asked for a full keyframe while a frame was partly emulated; it is
    /// written when that frame completes.
    pub full_pending: bool,
}

/// The runs so far.
pub struct RunState {
    /// What the last run reported.
    pub last: RunTime,
    /// Incremented every time the core actually ran.
    pub serial: u64,
    /// Incremented whenever memory is replaced wholesale.
    pub epoch: u64,
}

/// Speed and sound.
pub struct AudioState {
    /// Whether anyone is listening to audible frames' samples.
    pub listening: bool,
    /// Whether the core is rendering audio at all.
    pub enabled: bool,
    /// Discard audio while the game runs at any speed other than 1x.
    pub mute_when_sped_up: bool,
    /// The game speed.
    pub speed: Speed,
    /// One frame in this many is drawn while running paced.
    pub present_every: u64,
}

/// What is shared with another player.
pub struct TogetherState {
    /// The local side of a link cable.
    pub link: Option<LinkState>,
    /// The partner side of a link cable.
    pub partner: Option<LinkPartnerState>,
    /// Whether the console is held at a frame boundary for a link handshake.
    pub holding: bool,
    /// The game being followed.
    pub follower: Option<FollowerState>,
    /// Whether the session is published to others.
    pub publishing: bool,
    /// Whether those are owed a snapshot at the next frame boundary.
    pub snapshot_due: bool,
}

/// Wrapper for an [`EmulatorCore`] that provides useful desktop emulator functionality.
pub struct SuperShuckieCore<C, T> {
    pub core: C,
    pub clock: T,
    pub input: InputState,
    /// Queued writes, if any.
    pub writes: Vec<QueuedWrite>,
    pub playback: PlaybackState,
    pub timer: TimerState,
    pub recorder: RecorderState,
    pub runs: RunState,
    pub audio: AudioState,
    pub together: TogetherState,
    /// What the rest of the program has to do, in order.
    pub effects: Vec<Effect>,
}

/// Whether a replay that is attached has a keyframe at frame 0.
pub open spec fn player_wf(player: Option<ReplayFilePlayer>) -> bool {
    player matches Some(p) ==> p.keyframes@.len() > 0 && p.keyframes@[0].frame == 0
}

/// Whether a duty cycle is there and started, or not there.
pub open spec fn rapid_fire_wf(rapid_fire: Option<SuperShuckieRapidFire>) -> bool {
    rapid_fire matches Some(rf) ==> rf.wf()
}

/// Whether what a follower reads is counted.
#[verifier::opaque]
pub open spec fn follower_wf(follower: Option<FollowerState>) -> bool {
    follower matches Some(f) ==> f.source.wf()
}

impl<C: EmulatorCore, T: MonotonicTimestampProvider> SuperShuckieCore<C, T> {
    /// The parts are valid, and some frames are drawn.
    pub open spec fn wf(self) -> bool {
        &&& rapid_fire_wf(self.input.rapid_fire)
        &&& player_wf(self.playback.player)
        &&& follower_wf(self.together.follower)
        &&& self.audio.present_every >= 1
    }

    /// What the rest of the program has to do, as the contracts see it.
    pub open spec fn outs(self) -> Seq<effects::Out> {
        effects::outs_of(self.effects@)
    }

    /// The writes that wait, as the contracts see them.
    pub open spec fn waiting_writes(self) -> Seq<WriteModel> {
        write_models(self.writes@)
    }

    /// Whether nothing but the effects changed, and these were added.
    pub open spec fn told(self, after: Self, outs: Seq<effects::Out>) -> bool {
        &&& after == (SuperShuckieCore { effects: after.effects, ..self })
        &&& after.outs() == self.outs() + outs
    }

    /// Whether the core was asked exactly this.
    pub open spec fn asked(self, after: Self, calls: Seq<console::CoreCall>) -> bool {
        &&& after.core.log() == self.core.log() + calls
        &&& after.core.identity() == self.core.identity()
        &&& after.core.image().regions == self.core.image().regions
    }

    /// Add an effect.
    pub fn tell(&mut self, effect: Effect)
        ensures
            old(self).told(*final(self), seq![effect@]),
            old(self).wf() ==> final(self).wf(),
    {
        let ghost before = self.outs();
        self.effects.push(effect);
        assert(self.outs() =~= before + seq![effect@]);
    }

    /// Add an effect if a replay is being recorded.
    pub fn record(&mut self, effect: Effect)
        ensures
            old(self).told(*final(self), effects::only_if(old(self).recorder.active, effect@)),
            old(self).wf() ==> final(self).wf(),
    {
        let ghost before = self.outs();
        if self.recorder.active {
            self.effects.push(effect);
            assert(self.outs() =~= before + seq![effect@]);
        } else {
            assert(before + Seq::<effects::Out>::empty() =~= before);
        }
    }

    /// Add an effect if the session is published.
    pub fn publish(&mut self, effect: Effect)
        ensures
            old(self).told(*final(self), effects::only_if(old(self).together.publishing, effect@)),
            old(self).wf() ==> final(self).wf(),
    {
        let ghost before = self.outs();
        if self.together.publishing {
            self.effects.push(effect);
            assert(self.outs() =~= before + seq![effect@]);
        } else {
            assert(before + Seq::<effects::Out>::empty() =~= before);
        }
    }

    /// Add an effect if anyone is listening.
    pub fn sound(&mut self, effect: Effect)
        ensures
            old(self).told(*final(self), effects::only_if(old(self).audio.listening, effect@)),
            old(self).wf() ==> final(self).wf(),
    {
        let ghost before = self.outs();
        if self.audio.listening {
            self.effects.push(effect);
            assert(self.outs() =~= before + seq![effect@]);
        } else {
            assert(before + Seq::<effects::Out>::empty() =~= before);
        }
    }

    /// Take everything the rest of the program has to do, oldest first.
    pub fn take_effects(&mut self) -> (r: Vec<Effect>)
        ensures
            r == old(self).effects,
            *final(self) == (SuperShuckieCore { effects: final(self).effects, ..*old(self) }),
            final(self).outs() == Seq::<effects::Out>::empty(),
            old(self).wf() ==> final(self).wf(),
    {
        let mut taken: Vec<Effect> = Vec::new();
        core::mem::swap(&mut taken, &mut self.effects);
        assert(self.outs() =~= Seq::<effects::Out>::empty());
        taken
    }

    /// Wrap `emulator_core`.
    pub fn new(emulator_core: C, timestamp_provider: T) -> (r: Self)
        ensures
            r.wf(),
            r.core == emulator_core,
            r.clock.last() >= timestamp_provider.last(),
            r.timer.starting == r.clock.last() / 1000,
            r.fresh(),
    {
        let mut clock: T = timestamp_provider;
        let starting: u64 = clock.get_timestamp_milliseconds();
        let r = SuperShuckieCore {
            core: emulator_core,
            clock,
            input: InputState {
                base: Input::new(),
                next: None,
                rapid_fire: None,
                toggled: None,
                current: Input::new(),
                latched: false,
            },
            writes: Vec::new(),
            playback: PlaybackState {
                player: None,
                counters: None,
                stalled: false,
                frame_pending: false,
                stopped: false,
                resume_point: (0, 0),
                speed: Speed::default(),
                ignore_speed: false,
                auto_resync: false,
                write_failures: 0,
                waiting: false,
            },
            timer: TimerState { starting, millis: 0, paused_at: None, frames: 0, origin: 0 },
            recorder: RecorderState {
                active: false,
                since: 0,
                per_keyframe: 0,
                full_pending: false,
            },
            runs: RunState { last: RunTime::none(), serial: 0, epoch: 0 },
            audio: AudioState {
                listening: false,
                enabled: false,
                mute_when_sped_up: true,
                speed: Speed::default(),
                present_every: 1,
            },
            together: TogetherState {
                link: None,
                partner: None,
                holding: false,
                follower: None,
                publishing: false,
                snapshot_due: false,
            },
            effects: Vec::new(),
        };
        assert(r.outs() =~= Seq::<effects::Out>::empty());
        proof {
            reveal(follower_wf);
        }
        r
    }

    /// A session in which nothing has happened yet.
    pub open spec fn fresh(self) -> bool {
        &&& !self.recorder.active
        &&& self.playback.counters is None
        &&& self.playback.player is None
        &&& self.input.base == Input::nothing()
        &&& self.input.next is None
        &&& self.input.rapid_fire is None
        &&& self.writes@.len() == 0
        &&& self.input.toggled is None
        &&& self.input.current == Input::nothing()
        &&& !self.playback.stalled
        &&& !self.playback.frame_pending
        &&& !self.input.latched
        &&& !self.playback.stopped
        &&& self.playback.resume_point == (0u64, 0u64)
        &&& self.timer.millis == 0
        &&& self.timer.paused_at is None
        &&& self.audio.speed.units == packet::NORMAL_SPEED
        &&& self.playback.speed.units == packet::NORMAL_SPEED
        &&& self.recorder.since == 0
        &&& self.recorder.per_keyframe == 0
        &&& self.timer.frames == 0
        &&& !self.recorder.full_pending
        &&& !self.playback.ignore_speed
        &&& !self.playback.auto_resync
        &&& self.runs.last == console::no_time()
        &&& self.runs.serial == 0
        &&& self.runs.epoch == 0
        &&& self.playback.write_failures == 0
        &&& self.audio.present_every == 1
        &&& !self.audio.listening
        &&& !self.audio.enabled
        &&& self.audio.mute_when_sped_up
        &&& self.together.link is None
        &&& self.together.partner is None
        &&& !self.together.holding
        &&& self.together.follower is None
        &&& !self.playback.waiting
        &&& self.timer.origin == 0
        &&& !self.together.publishing
        &&& !self.together.snapshot_due
        &&& self.outs() == Seq::<effects::Out>::empty()
    }

    // -----------------------------------------------------------------------------------------
    // What the session is doing.

    /// Whether somebody else than the user drives the emulator: a replay that is attached and not
    /// stopped, or the player being followed.
    pub open spec fn playing_back(self) -> bool {
        (self.playback.player is Some && !self.playback.stopped) || self.together.follower is Some
    }

    /// Whether an attached replay is driving the emulator (attached and not stopped), or a followed
    /// player is.
    ///
    /// Everything the user cannot do while a replay plays (input, RAM writes, resets, save states)
    /// is gated on this rather than on a player being attached: a stopped replay stays attached,
    /// but the emulator is the user's again.
    pub fn is_playing_back(&self) -> (r: bool)
        ensures
            r == self.playing_back(),
    {
        (self.playback.player.is_some() && !self.playback.stopped) || self.together.follower.is_some()
    }

    /// Whether a replay is attached, playing or stopped.
    pub fn has_replay_attached(&self) -> (r: bool)
        ensures
            r == (self.playback.player is Some),
    {
        self.playback.player.is_some()
    }

    /// Whether an attached replay is stopped.
    pub fn is_replay_playback_stopped(&self) -> (r: bool)
        ensures
            r == (self.playback.player is Some && self.playback.stopped),
    {
        self.playback.player.is_some() && self.playback.stopped
    }

    /// Whether another player's game is followed.
    pub fn is_following(&self) -> (r: bool)
        ensures
            r == (self.together.follower is Some),
    {
        self.together.follower.is_some()
    }

    /// Where the attached replay is.
    pub open spec fn position(self) -> (u64, u64) {
        if self.playback.player is None {
            (0, 0)
        } else if self.playback.stopped {
            self.playback.resume_point
        } else {
            (self.timer.frames, self.timer.millis)
        }
    }

    /// The attached replay's position as `(frame, replay time)`: where playback is, or where it
    /// resumes from while stopped (the live frame counter keeps going then). `(0, 0)` without a
    /// replay.
    pub fn replay_position(&self) -> (r: (u64, u64))
        ensures
            r == self.position(),
    {
        if self.playback.player.is_none() {
            (0, 0)
        } else if self.playback.stopped {
            self.playback.resume_point
        } else {
            (self.timer.frames, self.timer.millis)
        }
    }

    /// Frames over which one frame is drawn while running paced at the current speed.
    ///
    /// From 2x up nobody can see every frame (the display shows 60 a second), so only one frame in
    /// `floor(speed)` is composited; the rest are emulated but not drawn.
    pub fn present_every(&self) -> (r: u64)
        ensures
            r == self.audio.present_every,
    {
        self.audio.present_every
    }

    /// Whether the screens hold a newly drawn frame from the last run.
    pub fn last_frame_presented(&self) -> (r: bool)
        ensures
            r == self.runs.last.presented,
    {
        self.runs.last.presented
    }

    /// What the last run reported.
    pub fn last_run_time(&self) -> (r: RunTime)
        ensures
            r == self.runs.last,
    {
        self.runs.last
    }

    /// A counter that changes whenever the core ran.
    pub fn run_serial(&self) -> (r: u64)
        ensures
            r == self.runs.serial,
    {
        self.runs.serial
    }

    /// A counter that changes whenever the emulated memory is replaced wholesale rather than by the
    /// game running: a save state load, a reset, a replay seek, attaching or detaching a replay.
    pub fn state_epoch(&self) -> (r: u64)
        ensures
            r == self.runs.epoch,
    {
        self.runs.epoch
    }

    /// Whether the core is in the middle of a frame.
    pub fn is_mid_frame(&self) -> (r: bool)
        ensures
            r == self.core.mid_frame(),
    {
        self.core.is_mid_frame()
    }

    /// How many `WriteMemory` packets of played-back replays could not be applied.
    pub fn replay_write_failures(&self) -> (r: u64)
        ensures
            r == self.playback.write_failures,
    {
        self.playback.write_failures
    }

    /// Get number of milliseconds. This will reset to 0 whenever a replay is started.
    pub fn get_recording_milliseconds(&self) -> (r: u64)
        ensures
            r == self.timer.millis,
    {
        self.timer.millis
    }

    /// Frames emulated since the recording or playback started (or since the core was created).
    pub fn total_frames(&self) -> (r: u64)
        ensures
            r == self.timer.frames,
    {
        self.timer.frames
    }

    /// Whether an attached replay has run out of packets (or failed to read).
    pub fn is_replay_stalled(&self) -> (r: bool)
        ensures
            r == self.playback.stalled,
    {
        self.playback.stalled
    }

    /// Whether the core is rendering audio.
    pub fn audio_enabled(&self) -> (r: bool)
        ensures
            r == self.audio.enabled,
    {
        self.audio.enabled
    }

    /// Get an immutable reference to the underlying core.
    pub fn get_core(&self) -> (r: &C)
        ensures
            *r == self.core,
    {
        &self.core
    }

    /// Get the current replay counters.
    pub fn get_replay_counters(&self) -> (r: Option<&Vec<Counter>>)
        ensures
            match self.playback.counters {
                Some(counters) => r == Some(&counters),
                None => r is None,
            },
    {
        self.playback.counters.as_ref()
    }

    /// The attached replay player, if any (for diagnostics; the core drives its cursor).
    pub fn replay_player(&self) -> (r: Option<&ReplayFilePlayer>)
        ensures
            match self.playback.player {
                Some(player) => r == Some(&player),
                None => r is None,
            },
    {
        self.playback.player.as_ref()
    }

    /// The time on the clock of the file being recorded.
    pub open spec fn file_millis(self) -> u64 {
        self.timer.millis.wrapping_sub(self.timer.origin)
    }

    /// The time on the clock of the file being recorded.
    pub fn recording_millis(&self) -> (r: u64)
        ensures
            r == self.file_millis(),
    {
        self.timer.millis.wrapping_sub(self.timer.origin)
    }

    /// Note that memory was replaced wholesale.
    pub fn bump_state_epoch(&mut self)
        ensures
            *final(self) == (SuperShuckieCore {
                runs: RunState { epoch: old(self).runs.epoch.wrapping_add(1), ..old(self).runs },
                ..*old(self)
            }),
            old(self).wf() ==> final(self).wf(),
    {
        self.runs.epoch = self.runs.epoch.wrapping_add(1);
    }

    /// Drop queued audio so nothing stale plays after a discontinuity.
    pub fn clear_audio(&mut self)
        ensures
            old(self).told(
                *final(self),
                effects::only_if(old(self).audio.listening, effects::Out::ClearAudio),
            ),
            old(self).wf() ==> final(self).wf(),
    {
        self.sound(Effect::ClearAudio);
    }

    /// Enqueue an input for the next frame.
    pub fn enqueue_input(&mut self, next: Input)
        ensures
            *final(self) == (SuperShuckieCore {
                input: InputState { next: Some(next), ..old(self).input },
                ..*old(self)
            }),
            old(self).wf() ==> final(self).wf(),
    {
        self.input.next = Some(next);
    }

    /// Reset the current input.
    pub fn reset_input(&mut self)
        ensures
            *final(self) == (SuperShuckieCore {
                input: InputState { next: Some(Input::nothing()), ..old(self).input },
                ..*old(self)
            }),
            old(self).wf() ==> final(self).wf(),
    {
        self.enqueue_input(Input::new());
    }

    /// Set the current toggled input. Any activated buttons will be "stuck".
    pub fn set_toggled_input(&mut self, toggled: Option<Input>)
        ensures
            *final(self) == (SuperShuckieCore {
                input: InputState { toggled, latched: false, ..old(self).input },
                ..*old(self)
            }),
            old(self).wf() ==> final(self).wf(),
    {
        self.input.toggled = toggled;
        self.input.latched = false;
    }

    /// Set whether or not to automatically resync keyframes on playback.
    pub fn set_auto_resync_keyframes_in_replays(&mut self, resync: bool)
        ensures
            *final(self) == (SuperShuckieCore {
                playback: PlaybackState { auto_resync: resync, ..old(self).playback },
                ..*old(self)
            }),
            old(self).wf() ==> final(self).wf(),
    {
        self.playback.auto_resync = resync;
    }

    /// Whether the duty cycle of `old_rf` carries over to `new_rf`.
    pub open spec fn same_cycle(old_rf: Option<SuperShuckieRapidFire>, new_rf: SuperShuckieRapidFire) -> bool {
        old_rf matches Some(o) && o.hold_length == new_rf.hold_length && o.interval
            == new_rf.interval
    }

    /// The rapid fire in effect after setting `rf`: the duty cycle carries over if the timing stays
    /// the same, and otherwise starts so that the button is activated on the very next frame.
    pub open spec fn rapid_fire_set(self, rf: Option<SuperShuckieRapidFire>) -> Option<SuperShuckieRapidFire> {
        match rf {
            None => None,
            Some(rf) => {
                let total = duty_cycle(rf.hold_length, rf.interval);
                Some(
                    SuperShuckieRapidFire {
                        total_frames: total,
                        current_frame: if Self::same_cycle(self.input.rapid_fire, rf) {
                            self.input.rapid_fire->Some_0.current_frame
                        } else if self.core.mid_frame() {
                            (total - 1) as u64
                        } else {
                            0
                        },
                        ..rf
                    },
                )
            },
        }
    }

    /// Set the current rapid fire input.
    pub fn set_rapid_fire_input(&mut self, rf: Option<SuperShuckieRapidFire>)
        requires
            old(self).wf(),
            rf matches Some(r) ==> r.hold_length >= 1 && r.interval >= 1,
        ensures
            final(self).wf(),
            *final(self) == (SuperShuckieCore {
                input: InputState {
                    rapid_fire: old(self).rapid_fire_set(rf),
                    latched: false,
                    ..old(self).input
                },
                ..*old(self)
            }),
    {
        // The input to apply changed without a new `enqueue_input`; re-apply it on the next run.
        self.input.latched = false;
        match rf {
            None => {
                self.input.rapid_fire = None;
            },
            Some(rf) => {
                let total: u64 = rf.hold_length.saturating_add(rf.interval);
                let mut current: u64 = if self.core.is_mid_frame() {
                    total - 1
                } else {
                    0
                };
                if let Some(before) = self.input.rapid_fire {
                    if before.hold_length == rf.hold_length && before.interval == rf.interval {
                        current = before.current_frame;
                    }
                }
                self.input.rapid_fire = Some(
                    SuperShuckieRapidFire {
                        input: rf.input,
                        hold_length: rf.hold_length,
                        interval: rf.interval,
                        current_frame: current,
                        total_frames: total,
                    },
                );
            },
        }
    }
}

} // verus!
