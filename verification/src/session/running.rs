//! What happens around a run of the core: input and writes before it, time, keyframes and sound
//! after it.

use super::effects;
use super::effects::Effect;
use super::following;
use super::state;
use super::state::{
    AudioState, FollowerState, InputState, MonotonicTimestampProvider, PlaybackState, QueuedWrite,
    RecorderState, RunState, SuperShuckieCore, SuperShuckieRapidFire, TimerState, TogetherState,
};
use crate::emulator::console::{CoreCall, EmulatorCore, RunTime};
use crate::emulator::input::Input;
use crate::emulator::memory;
use crate::play_together::cable;
use crate::play_together::live;
use crate::replay::packet;
use crate::replay::packet::{Packet, Speed};
use crate::replay::player::ReplayConsoleType;
use vstd::prelude::*;

verus! {

// ---------------------------------------------------------------------------------------------
// Writes.

/// What handing the first `n` writes to the core asks of it.
pub open spec fn write_calls(writes: Seq<state::WriteModel>, written: Seq<bool>, n: nat) -> Seq<
    CoreCall,
>
    decreases n,
{
    if n == 0 {
        Seq::empty()
    } else {
        write_calls(writes, written, (n - 1) as nat).push(
            CoreCall::WriteRam {
                address: writes[n - 1].address,
                data: writes[n - 1].data,
                written: written[n - 1],
            },
        )
    }
}

/// What of the first `n` writes is published and recorded: only what was actually written, since a
/// replay must not carry a write it cannot apply on playback.
pub open spec fn write_records(
    writes: Seq<state::WriteModel>,
    written: Seq<bool>,
    publishing: bool,
    recording: bool,
    n: nat,
) -> Seq<effects::Out>
    decreases n,
{
    if n == 0 {
        Seq::empty()
    } else {
        write_records(writes, written, publishing, recording, (n - 1) as nat) + effects::only_if(
            publishing && written[n - 1],
            effects::Out::PublishWrite {
                address: writes[n - 1].address as u64,
                data: writes[n - 1].data,
            },
        ) + effects::only_if(
            recording && written[n - 1],
            effects::Out::RecordWrite {
                address: writes[n - 1].address as u64,
                data: writes[n - 1].data,
            },
        )
    }
}

/// Whether each step schedules one of the writes.
pub open spec fn scheduled_in_steps(
    steps: Seq<cable::LinkState>,
    before: cable::LinkState,
    after: cable::LinkState,
    writes: Seq<state::WriteModel>,
) -> bool {
    &&& 1 <= steps.len() <= writes.len() + 1
    &&& steps[0] == before
    &&& steps.last() == after
    &&& forall|i: int, j: int|
        0 <= i && j == i + 1 && j < steps.len() ==> (#[trigger] steps[i]).with_scheduled(
            #[trigger] steps[j],
            packet::PacketModel::WriteMemory {
                address: writes[i].address as u64,
                data: writes[i].data,
            },
        )
}

proof fn lemma_write_calls_extend(
    writes: Seq<state::WriteModel>,
    written: Seq<bool>,
    more: bool,
    publishing: bool,
    recording: bool,
    n: nat,
)
    requires
        n <= written.len(),
    ensures
        write_calls(writes, written.push(more), n) == write_calls(writes, written, n),
        write_records(writes, written.push(more), publishing, recording, n) == write_records(
            writes,
            written,
            publishing,
            recording,
            n,
        ),
    decreases n,
{
    if n > 0 {
        lemma_write_calls_extend(writes, written, more, publishing, recording, (n - 1) as nat);
    }
}

/// `n` frames published and recorded at the same time.
pub open spec fn frame_records(publishing: bool, recording: bool, millis: u64, n: nat) -> Seq<
    effects::Out,
>
    decreases n,
{
    if n == 0 {
        Seq::empty()
    } else {
        frame_records(publishing, recording, millis, (n - 1) as nat) + effects::only_if(
            publishing,
            effects::Out::PublishFrame { millis },
        ) + effects::only_if(recording, effects::Out::RecordFrame { millis })
    }
}

proof fn lemma_no_frames(millis: u64, n: nat)
    ensures
        frame_records(false, false, millis, n) == Seq::<effects::Out>::empty(),
    decreases n,
{
    if n > 0 {
        lemma_no_frames(millis, (n - 1) as nat);
        assert(frame_records(false, false, millis, n) =~= Seq::<effects::Out>::empty());
    }
}

/// Frames added up, stopping at the largest number.
pub open spec fn frames_sum(a: u64, b: u64) -> u64 {
    if a + b > u64::MAX {
        u64::MAX
    } else {
        (a + b) as u64
    }
}

/// The cable after the local console completed frames.
pub open spec fn link_after(link: Option<cable::LinkState>, frames: u64) -> Option<cable::LinkState> {
    match link {
        Some(l) => Some(
            cable::LinkState { frame: frames_sum(l.frame, frames), frame_prepared: false, ..l },
        ),
        None => None,
    }
}

/// The partner's side of the cable after their console completed frames.
pub open spec fn partner_after(
    partner: Option<cable::LinkPartnerState>,
    frames: u64,
) -> Option<cable::LinkPartnerState> {
    match partner {
        Some(p) => Some(
            cable::LinkPartnerState {
                frame: frames_sum(p.frame, frames),
                frame_prepared: false,
                ..p
            },
        ),
        None => None,
    }
}

/// The follower after a run: its counters include the frames and the picture.
pub open spec fn follower_after(follower: Option<FollowerState>, time: RunTime) -> Option<
    FollowerState,
> {
    match follower {
        Some(f) => Some(
            following::with_stats(
                f,
                live::FollowerStats {
                    emulated_frames: frames_sum(f.source.stats.emulated_frames, time.frames),
                    drawn_frames: if time.presented {
                        live::one_more(f.source.stats.drawn_frames)
                    } else {
                        f.source.stats.drawn_frames
                    },
                    ..f.source.stats
                },
            ),
        ),
        None => None,
    }
}

/// The duty cycle after frames.
pub open spec fn rapid_fire_after(
    rapid_fire: Option<SuperShuckieRapidFire>,
    frames: u64,
) -> Option<SuperShuckieRapidFire> {
    match rapid_fire {
        Some(rf) => Some(
            SuperShuckieRapidFire { current_frame: rf.stage_after(frames), ..rf },
        ),
        None => None,
    }
}

impl<C: EmulatorCore, T: MonotonicTimestampProvider> SuperShuckieCore<C, T> {
    // -----------------------------------------------------------------------------------------
    // Speed and sound.

    /// After setting the speed.
    pub open spec fn speed_set(self, after: Self, speed: Speed) -> bool {
        &&& after == (SuperShuckieCore {
            core: after.core,
            effects: after.effects,
            audio: AudioState { speed, present_every: packet::drawn_every(speed), ..self.audio },
            ..self
        })
        &&& self.asked(after, seq![CoreCall::SetSpeed { speed }])
        &&& after.core.mid_frame() == self.core.mid_frame()
        &&& after.outs() == self.outs() + effects::only_if(
            self.recorder.active,
            effects::Out::RecordSpeed { speed },
        ) + effects::only_if(self.audio.listening, effects::Out::AudioSpeed { speed })
            + effects::only_if(
            self.audio.listening && self.audio.mute_when_sped_up && speed.units
                != packet::NORMAL_SPEED,
            effects::Out::ClearAudio,
        )
    }

    /// Set the speed of the game. Refused while the console is linked: the two of a pair run at the
    /// console's own speed.
    pub fn set_speed(&mut self, speed: Speed)
        ensures
            if old(self).linked() {
                *final(self) == *old(self)
            } else {
                old(self).speed_set(*final(self), speed)
            },
            old(self).wf() ==> final(self).wf(),
    {
        if !self.is_linked() {
            self.apply_speed(speed);
        }
    }

    pub(crate) fn apply_speed(&mut self, speed: Speed)
        ensures
            old(self).speed_set(*final(self), speed),
            old(self).wf() ==> final(self).wf(),
    {
        let ghost before = *self;
        self.audio.speed = speed;
        self.core.set_speed(speed);
        self.audio.present_every = speed.present_every();
        self.record(Effect::RecordSpeed { speed });
        self.sound(Effect::AudioSpeed { speed });
        // Sped-up stretches start silent right away rather than after the queued tail plays.
        let ghost told = self.outs();
        if self.audio.mute_when_sped_up && !self.audio.speed.is_normal() {
            self.clear_audio();
        } else {
            assert(told + Seq::<effects::Out>::empty() =~= told);
        }
        proof {
            assert(self.core.log() =~= before.core.log() + seq![CoreCall::SetSpeed { speed }]);
        }
    }

    /// After matching the speed the replay was played at.
    pub open spec fn speed_matched(self, after: Self) -> bool {
        if self.playback.ignore_speed {
            after == self
        } else {
            self.speed_set(after, self.playback.speed)
        }
    }

    /// Play at the speed the replay was played at, unless that is ignored.
    pub fn match_replay_playback_speed(&mut self)
        ensures
            old(self).speed_matched(*final(self)),
            old(self).wf() ==> final(self).wf(),
    {
        if !self.playback.ignore_speed {
            self.apply_speed(self.playback.speed);
        }
    }

    /// Set whether or not to ignore speed changes in replays.
    pub fn set_ignore_speed_changes_in_replays(&mut self, ignored: bool)
        ensures
            ({
                let set = SuperShuckieCore {
                    playback: PlaybackState { ignore_speed: ignored, ..old(self).playback },
                    ..*old(self)
                };
                if old(self).playing_back() {
                    set.speed_matched(*final(self))
                } else {
                    *final(self) == set
                }
            }),
            old(self).wf() ==> final(self).wf(),
    {
        self.playback.ignore_speed = ignored;
        if self.is_playing_back() {
            self.match_replay_playback_speed();
        }
    }

    /// Whether sped-up audio of this console needs its pitch scaled by whoever plays it.
    pub open spec fn scales_pitch(console: Option<ReplayConsoleType>) -> bool {
        match console {
            Some(ReplayConsoleType::GameBoy) => false,
            Some(ReplayConsoleType::GameBoyColor) => false,
            Some(ReplayConsoleType::SuperGameBoy2) => false,
            _ => true,
        }
    }

    /// Route audible frames' samples to an output, or stop doing so. The output also learns whether
    /// this console's sped-up audio needs pitch scaling on the consumer side.
    pub fn set_audio_output(&mut self, listening: bool)
        ensures
            *final(self) == (SuperShuckieCore {
                effects: final(self).effects,
                audio: AudioState { listening, ..old(self).audio },
                ..*old(self)
            }),
            final(self).outs() == old(self).outs() + effects::only_if(
                listening,
                effects::Out::AudioPitch {
                    scales: Self::scales_pitch(old(self).core.identity().console),
                },
            ) + effects::only_if(
                listening,
                effects::Out::AudioSpeed { speed: old(self).audio.speed },
            ),
            old(self).wf() ==> final(self).wf(),
    {
        let ghost before = self.outs();
        self.audio.listening = listening;
        if listening {
            let scales: bool = match self.core.replay_console_type() {
                Some(ReplayConsoleType::GameBoy) => false,
                Some(ReplayConsoleType::GameBoyColor) => false,
                Some(ReplayConsoleType::SuperGameBoy2) => false,
                _ => true,
            };
            self.tell(Effect::AudioPitch { scales });
            let speed: Speed = self.audio.speed;
            self.tell(Effect::AudioSpeed { speed });
        } else {
            assert(before + Seq::<effects::Out>::empty() + Seq::<effects::Out>::empty()
                =~= before);
        }
    }

    /// Turn audio rendering in the core on or off.
    pub fn set_audio_enabled(&mut self, enabled: bool)
        ensures
            if old(self).audio.enabled == enabled {
                *final(self) == *old(self)
            } else {
                &&& *final(self) == (SuperShuckieCore {
                    core: final(self).core,
                    effects: final(self).effects,
                    audio: AudioState { enabled, ..old(self).audio },
                    ..*old(self)
                })
                &&& old(self).asked(*final(self), seq![CoreCall::SetAudioEnabled { enabled }])
                &&& final(self).core.state() == old(self).core.state()
                &&& final(self).core.mid_frame() == old(self).core.mid_frame()
                &&& final(self).outs() == old(self).outs() + effects::only_if(
                    old(self).audio.listening,
                    effects::Out::ClearAudio,
                )
            },
            old(self).wf() ==> final(self).wf(),
    {
        if self.audio.enabled == enabled {
            return;
        }
        let ghost before = *self;
        self.audio.enabled = enabled;
        self.core.set_audio_enabled(enabled);
        self.clear_audio();
        assert(self.core.log() =~= before.core.log() + seq![CoreCall::SetAudioEnabled { enabled }]);
    }

    /// Discard audio while the game runs at any speed other than 1x (default: on).
    pub fn set_audio_mute_when_sped_up(&mut self, mute: bool)
        ensures
            if old(self).audio.mute_when_sped_up == mute {
                *final(self) == *old(self)
            } else {
                (SuperShuckieCore {
                    audio: AudioState { mute_when_sped_up: mute, ..old(self).audio },
                    ..*old(self)
                }).told(
                    *final(self),
                    effects::only_if(old(self).audio.listening, effects::Out::ClearAudio),
                )
            },
            old(self).wf() ==> final(self).wf(),
    {
        if self.audio.mute_when_sped_up == mute {
            return;
        }
        self.audio.mute_when_sped_up = mute;
        self.clear_audio();
    }

    /// After the samples of a run were taken from the core: they are heard only if the run was
    /// audible and the speed is, too.
    pub open spec fn audio_drained(self, after: Self, audible: bool) -> bool {
        if !self.audio.enabled {
            after == self
        } else {
            let samples = match after.core.log().last() {
                CoreCall::TakeAudio { samples } => samples,
                _ => Seq::empty(),
            };
            &&& after == (SuperShuckieCore { core: after.core, effects: after.effects, ..self })
            &&& self.asked(after, seq![CoreCall::TakeAudio { samples }])
            &&& after.core.mid_frame() == self.core.mid_frame()
            &&& after.core.state() == self.core.state()
            &&& after.core.pictures() == self.core.pictures()
            &&& after.outs() == self.outs() + effects::only_if(
                self.audio.listening && audible && (!self.audio.mute_when_sped_up
                    || self.audio.speed.units == packet::NORMAL_SPEED),
                effects::Out::PlayAudio { samples },
            )
        }
    }

    /// Move the samples the core produced to the audio output, or throw them away.
    pub fn drain_audio(&mut self, audible: bool)
        ensures
            old(self).audio_drained(*final(self), audible),
            old(self).wf() ==> final(self).wf(),
    {
        if !self.audio.enabled {
            return;
        }
        let ghost before = *self;
        let samples: Vec<i16> = self.core.take_audio();
        let ghost taken = samples@;
        if audible && (!self.audio.mute_when_sped_up || self.audio.speed.is_normal()) {
            self.sound(Effect::PlayAudio { samples });
        } else {
            assert(before.outs() + Seq::<effects::Out>::empty() =~= before.outs());
        }
        assert(self.core.log() =~= before.core.log() + seq![
            CoreCall::TakeAudio { samples: taken },
        ]);
    }

    // -----------------------------------------------------------------------------------------
    // Input.

    /// The user's input from here on: the one enqueued, if one was.
    pub open spec fn pending_base(self) -> Input {
        match self.input.next {
            Some(next) => next,
            None => self.input.base,
        }
    }

    /// The input with rapid fire, while it holds.
    pub open spec fn with_rapid_fire(self, base: Input) -> Input {
        match self.input.rapid_fire {
            Some(rf) => if rf.current_frame < rf.hold_length {
                base.either(rf.input)
            } else {
                base
            },
            None => base,
        }
    }

    /// The input to apply: the user's, with rapid fire and what is toggled.
    pub open spec fn pending_input(self) -> Input {
        let fired = self.with_rapid_fire(self.pending_base());
        match self.input.toggled {
            Some(toggled) => fired.either(toggled),
            None => fired,
        }
    }

    /// The input to apply next; one that was enqueued is the user's from here on.
    pub fn compute_pending_input(&mut self) -> (r: Input)
        ensures
            r == old(self).pending_input(),
            *final(self) == (SuperShuckieCore {
                input: InputState { next: None, base: old(self).pending_base(), ..old(self).input },
                ..*old(self)
            }),
            old(self).wf() ==> final(self).wf(),
    {
        if let Some(pending) = self.input.next {
            self.input.next = None;
            self.input.base = pending;
        }
        let mut new_input: Input = self.input.base;
        if let Some(rf) = self.input.rapid_fire {
            if rf.current_frame < rf.hold_length {
                new_input = new_input | rf.input;
            }
        }
        if let Some(toggled) = self.input.toggled {
            new_input = new_input | toggled;
        }
        new_input
    }

    /// After applying the user's input: once per frame, between frames, unless somebody else drives
    /// the emulator.
    pub open spec fn input_updated(self, after: Self) -> bool {
        if self.playing_back() || self.core.mid_frame() || (self.input.latched
            && self.input.next is None) {
            after == self
        } else {
            let data = self.core.encoded(self.pending_input());
            &&& after == (SuperShuckieCore {
                core: after.core,
                effects: after.effects,
                input: InputState {
                    latched: true,
                    next: None,
                    base: self.pending_base(),
                    current: self.pending_input(),
                    ..self.input
                },
                ..self
            })
            &&& self.asked(after, seq![CoreCall::SetInput { data }])
            &&& after.core.mid_frame() == self.core.mid_frame()
            &&& after.outs() == self.outs() + effects::only_if(
                self.together.publishing,
                effects::Out::PublishInput { data },
            ) + effects::only_if(self.recorder.active, effects::Out::RecordInput { data })
        }
    }

    /// Apply the user's input to the next frame.
    pub fn update_input(&mut self)
        ensures
            old(self).input_updated(*final(self)),
            old(self).wf() ==> final(self).wf(),
    {
        if self.is_playing_back() {
            return;
        }
        if self.core.is_mid_frame() {
            return;
        }
        // A paced core's `run` is polled many times per emulated frame: apply the input once, on
        // the first poll after a frame, and again only if a new one has arrived since.
        if self.input.latched && self.input.next.is_none() {
            return;
        }
        let ghost before = *self;
        self.input.latched = true;
        self.input.current = self.compute_pending_input();
        let data: Vec<u8> = self.core.encode_input(self.input.current);
        let ghost encoded = data@;
        self.core.set_input_encoded(data.as_slice());
        self.publish(Effect::PublishInput { data: packet::copy_bytes(&data) });
        self.record(Effect::RecordInput { data });
        assert(self.core.log() =~= before.core.log() + seq![CoreCall::SetInput { data: encoded }]);
    }

    // -----------------------------------------------------------------------------------------
    // Writes.

    /// Whether waiting writes stay where they are.
    pub open spec fn holds_writes(self) -> bool {
        self.playing_back() || self.core.mid_frame() || self.together.holding
    }

    /// After the waiting writes went out: to the core and the recording, or onto the cable.
    pub open spec fn writes_flushed(self, after: Self) -> bool {
        let writes = self.waiting_writes();
        if self.holds_writes() {
            after == self
        } else if self.together.link is Some {
            &&& after == (SuperShuckieCore {
                writes: after.writes,
                together: TogetherState { link: after.together.link, ..self.together },
                ..self
            })
            &&& after.waiting_writes() == Seq::<state::WriteModel>::empty()
            &&& after.together.link is Some
            &&& exists|steps: Seq<cable::LinkState>|
                steps.len() == writes.len() + 1 && #[trigger] scheduled_in_steps(
                    steps,
                    self.together.link->Some_0,
                    after.together.link->Some_0,
                    writes,
                )
        } else {
            exists|written: Seq<bool>| #[trigger]
                self.writes_applied(after, written)
        }
    }

    /// After handing the waiting writes to the core, which took the ones marked.
    pub open spec fn writes_applied(self, after: Self, written: Seq<bool>) -> bool {
        let writes = self.waiting_writes();
        &&& written.len() == writes.len()
        &&& after == (SuperShuckieCore {
            core: after.core,
            writes: after.writes,
            effects: after.effects,
            ..self
        })
        &&& after.waiting_writes() == Seq::<state::WriteModel>::empty()
        &&& self.asked(after, write_calls(writes, written, writes.len()))
        &&& after.core.mid_frame() == self.core.mid_frame()
        &&& after.outs() == self.outs() + write_records(
            writes,
            written,
            self.together.publishing,
            self.recorder.active,
            writes.len(),
        )
    }

    /// Let the waiting writes out, if they can go.
    pub fn flush_writes(&mut self)
        requires
            old(self).wf(),
        ensures
            final(self).wf(),
            old(self).writes_flushed(*final(self)),
    {
        if self.is_playing_back() || self.core.is_mid_frame() || self.together.holding {
            return;
        }
        if self.together.link.is_some() {
            self.schedule_writes();
            return;
        }
        self.apply_writes();
    }

    fn schedule_writes(&mut self)
        requires
            old(self).wf(),
            old(self).together.link is Some,
            !old(self).holds_writes(),
        ensures
            final(self).wf(),
            old(self).writes_flushed(*final(self)),
    {
        let ghost before = *self;
        let ghost models = self.waiting_writes();
        let mut writes: Vec<QueuedWrite> = Vec::new();
        core::mem::swap(&mut writes, &mut self.writes);
        if let Some(mut link) = self.together.link.take() {
            let ghost first = link;
            let ghost mut steps: Seq<cable::LinkState> = seq![link];
            let mut i: usize = 0;
            while i < writes.len()
                invariant
                    i <= writes@.len(),
                    steps.len() == i + 1,
                    models == state::write_models(writes@),
                    scheduled_in_steps(steps, first, link, models),
                decreases writes@.len() - i,
            {
                let ghost done = steps;
                let write: &QueuedWrite = &writes[i];
                assert(write@ == models[i as int]);
                let data: Vec<u8> = packet::copy_bytes(&write.data);
                link.schedule(Packet::WriteMemory { address: write.address as u64, data });
                proof {
                    steps = steps.push(link);
                    assert forall|a: int, b: int|
                        0 <= a && b == a + 1 && b < steps.len() implies (
                    #[trigger] steps[a]).with_scheduled(
                        #[trigger] steps[b],
                        packet::PacketModel::WriteMemory {
                            address: models[a].address as u64,
                            data: models[a].data,
                        },
                    ) by {
                        if b < done.len() {
                            assert(done[a].with_scheduled(
                                done[b],
                                packet::PacketModel::WriteMemory {
                                    address: models[a].address as u64,
                                    data: models[a].data,
                                },
                            ));
                        } else {
                            assert(done[a] == done.last());
                        }
                    }
                }
                i = i + 1;
            }
            self.together.link = Some(link);
            assert(steps.len() == before.waiting_writes().len() + 1 && scheduled_in_steps(
                steps,
                before.together.link->Some_0,
                self.together.link->Some_0,
                before.waiting_writes(),
            ));
        }
        assert(self.waiting_writes() =~= Seq::<state::WriteModel>::empty());
    }

    fn apply_writes(&mut self)
        requires
            old(self).wf(),
        ensures
            final(self).wf(),
            exists|written: Seq<bool>| #[trigger]
                old(self).writes_applied(*final(self), written),
    {
        let ghost before = *self;
        let ghost models = self.waiting_writes();
        let ghost mut written: Seq<bool> = Seq::empty();
        let mut writes: Vec<QueuedWrite> = Vec::new();
        core::mem::swap(&mut writes, &mut self.writes);
        assert(self.waiting_writes() =~= Seq::<state::WriteModel>::empty());
        let mut i: usize = 0;
        proof {
            assert(before.core.log() + write_calls(models, written, 0) =~= before.core.log());
            assert(before.outs() + write_records(
                models,
                written,
                before.together.publishing,
                before.recorder.active,
                0,
            )
                =~= before.outs());
        }
        while i < writes.len()
            invariant
                i == written.len() <= writes@.len(),
                models == state::write_models(writes@),
                *self == (SuperShuckieCore {
                    core: self.core,
                    writes: self.writes,
                    effects: self.effects,
                    ..before
                }),
                self.waiting_writes() == Seq::<state::WriteModel>::empty(),
                before.asked(*self, write_calls(models, written, i as nat)),
                self.core.mid_frame() == before.core.mid_frame(),
                self.outs() == before.outs() + write_records(
                    models,
                    written,
                    before.together.publishing,
                    before.recorder.active,
                    i as nat,
                ),
            decreases writes@.len() - i,
        {
            let ghost at = *self;
            let write: &QueuedWrite = &writes[i];
            assert(write@ == models[i as int]);
            let ok: bool = self.core.write_ram(write.address, write.data.as_slice()).is_ok();
            if ok {
                let address: u64 = write.address as u64;
                let data: Vec<u8> = packet::copy_bytes(&write.data);
                self.publish(Effect::PublishWrite { address, data: packet::copy_bytes(&data) });
                self.record(Effect::RecordWrite { address, data });
            }
            proof {
                lemma_write_calls_extend(
                    models,
                    written,
                    ok,
                    before.together.publishing,
                    before.recorder.active,
                    i as nat,
                );
                written = written.push(ok);
                assert(self.core.log() =~= before.core.log() + write_calls(
                    models,
                    written,
                    (i + 1) as nat,
                ));
                assert(self.outs() =~= before.outs() + write_records(
                    models,
                    written,
                    before.together.publishing,
                    before.recorder.active,
                    (i + 1) as nat,
                ));
            }
            i = i + 1;
        }
        assert(before.writes_applied(*self, written));
    }

    /// After enqueueing a write.
    pub open spec fn write_enqueued(self, after: Self, address: u32, data: Seq<u8>) -> bool {
        exists|queued: Self| #[trigger]
            self.write_queued(queued, address, data) && queued.writes_flushed(after)
    }

    /// With one more write waiting.
    pub open spec fn write_queued(self, after: Self, address: u32, data: Seq<u8>) -> bool {
        &&& after == (SuperShuckieCore { writes: after.writes, ..self })
        &&& after.waiting_writes() == self.waiting_writes().push(state::WriteModel {
            address,
            data,
        })
    }

    /// Write `data` at `address` (recorded into the replay being recorded, if any): right away
    /// between frames, or once the current frame finishes.
    ///
    /// Dropped, returning `false`, while a replay is being played back (not while it is merely
    /// attached but stopped): the replay owns the memory then, and a write held back until playback
    /// ends would land at an arbitrary moment.
    pub fn enqueue_write(&mut self, address: u32, data: Vec<u8>) -> (r: bool)
        requires
            old(self).wf(),
        ensures
            final(self).wf(),
            r == !old(self).playing_back(),
            !r ==> *final(self) == *old(self),
            r ==> old(self).write_enqueued(*final(self), address, data@),
    {
        if self.is_playing_back() {
            return false;
        }
        let ghost before = *self;
        let ghost bytes = data@;
        self.writes.push(QueuedWrite { address, data });
        let ghost queued = *self;
        assert(queued.waiting_writes() =~= before.waiting_writes().push(
            state::WriteModel { address, data: bytes },
        ));
        assert(before.write_queued(queued, address, bytes));
        self.flush_writes();
        true
    }

    /// The bytes at an address: straight out of a listed region, or by the core's own address
    /// decoding.
    pub open spec fn ram_at(self, address: u32, len: nat) -> Option<Seq<u8>> {
        match self.core.image().mapped(address, len as int) {
            Some(bytes) => Some(bytes),
            None => self.core.decoded_ram(address, len),
        }
    }

    /// Whether there are bytes to write and others than these are at the address.
    pub open spec fn differs_at(self, address: u32, data: Seq<u8>) -> bool {
        data.len() > 0 && (self.ram_at(address, data.len()) matches Some(current) && current
            != data)
    }

    /// [`enqueue_write`](Self::enqueue_write) `data` at `address` only if the bytes there differ,
    /// so holding a value in place (a freeze) writes (and records) only on frames where something
    /// actually changed it. Returns whether a write was enqueued; unmapped memory is never written.
    pub fn write_if_changed(&mut self, address: u32, data: &[u8]) -> (r: bool)
        requires
            old(self).wf(),
        ensures
            final(self).wf(),
            r == (!old(self).playing_back() && old(self).differs_at(address, data@)),
            !r ==> *final(self) == *old(self),
            r ==> old(self).write_enqueued(*final(self), address, data@),
    {
        if self.is_playing_back() || data.len() == 0 {
            return false;
        }
        let unchanged: bool = match memory::memory_slice(&self.core, address, data.len()) {
            Some(current) => same_bytes(current, data),
            None => {
                // Not in a listed region; fall back to the core's own address decoding.
                let mut current: Vec<u8> = Vec::new();
                current.resize(data.len(), 0);
                match self.core.read_ram(address, &mut current) {
                    Ok(_) => same_bytes(current.as_slice(), data),
                    Err(_) => return false,
                }
            },
        };
        if unchanged {
            return false;
        }
        let mut bytes: Vec<u8> = Vec::new();
        bytes.extend_from_slice(data);
        assert(bytes@ =~= data@);
        self.enqueue_write(address, bytes)
    }

    // -----------------------------------------------------------------------------------------
    // Time and keyframes.

    /// With the frames of a run counted: the next one reads the replay and the input again.
    pub open spec fn with_frames(self, time: RunTime) -> Self {
        let counted = SuperShuckieCore {
            recorder: RecorderState {
                since: frames_sum(self.recorder.since, time.frames),
                ..self.recorder
            },
            timer: TimerState { frames: self.timer.frames.wrapping_add(time.frames), ..self.timer },
            ..self
        };
        if time.frames == 0 {
            counted
        } else {
            SuperShuckieCore {
                playback: PlaybackState { frame_pending: false, ..self.playback },
                input: InputState {
                    latched: false,
                    rapid_fire: rapid_fire_after(self.input.rapid_fire, time.frames),
                    ..self.input
                },
                together: TogetherState {
                    link: link_after(self.together.link, time.frames),
                    partner: partner_after(self.together.partner, time.frames),
                    follower: follower_after(self.together.follower, time),
                    ..self.together
                },
                ..counted
            }
        }
    }

    fn count_frames(&mut self, time: RunTime)
        requires
            old(self).wf(),
        ensures
            final(self).wf(),
            *final(self) == old(self).with_frames(time),
    {
        self.recorder.since = self.recorder.since.saturating_add(time.frames);
        self.timer.frames = self.timer.frames.wrapping_add(time.frames);
        if time.frames == 0 {
            return;
        }
        self.playback.frame_pending = false;
        self.input.latched = false;
        self.advance_rapid_fire(time.frames);
        self.link_frame_completed(time.frames);
        self.follower_frame_completed(time);
    }

    /// After the frames of a run were counted, timed, published and recorded.
    pub open spec fn timekept(self, after: Self, time: RunTime) -> bool {
        let counted = self.with_frames(time);
        if time.frames == 0 {
            after == counted
        } else {
            let has_port = self.core.identity().has_link_port;
            let serial = match after.core.log().last() {
                CoreCall::TakeSerialIn { data } => data,
                _ => Seq::empty(),
            };
            let live = !self.playing_back();
            let millis = self.timer_at((after.clock.last() / 1000) as u64);
            // The partner of a linked pair is timed by whoever plays it, and its frames are run
            // here: they go into the follower's own file.
            let mirrored = !live && self.together.partner is Some;
            &&& after == (SuperShuckieCore {
                core: after.core,
                clock: after.clock,
                effects: after.effects,
                timer: TimerState {
                    millis: if live { millis } else { self.timer.millis },
                    ..counted.timer
                },
                ..counted
            })
            &&& if has_port {
                self.asked(after, seq![CoreCall::TakeSerialIn { data: serial }])
            } else {
                after.core == self.core
            }
            &&& after.core.mid_frame() == self.core.mid_frame()
            &&& after.core.state() == self.core.state()
            &&& if live && self.timer.paused_at is None {
                after.clock.last() >= self.clock.last()
            } else {
                after.clock == self.clock
            }
            &&& after.outs() == self.outs() + effects::only_if(
                self.together.publishing && has_port && serial.len() > 0,
                effects::Out::PublishSerialIn { data: serial },
            ) + effects::only_if(
                self.recorder.active && has_port && serial.len() > 0,
                effects::Out::RecordSerialIn { data: serial },
            ) + frame_records(
                live && self.together.publishing,
                (live || mirrored) && self.recorder.active,
                if live {
                    millis
                } else {
                    self.file_millis()
                },
                time.frames as nat,
            )
        }
    }

    /// Count, time, publish and record the frames of a run.
    #[verifier::rlimit(50)]
    pub fn do_frame_timekeeping(&mut self, time: RunTime)
        requires
            old(self).wf(),
        ensures
            final(self).wf(),
            old(self).timekept(*final(self), time),
    {
        self.count_frames(time);
        if time.frames == 0 {
            return;
        }
        self.tell_serial_in();
        if !self.is_playing_back() {
            let millis: u64 = self.current_timer_millis();
            self.timer.millis = millis;
            self.tell_frames(true, millis, time.frames);
        } else if self.together.partner.is_some() {
            let millis: u64 = self.recording_millis();
            self.tell_frames(false, millis, time.frames);
        } else {
            proof {
                lemma_no_frames(self.file_millis(), time.frames as nat);
            }
            let ghost told = self.outs();
            assert(told + Seq::<effects::Out>::empty() =~= told);
        }
    }

    /// Advance the duty cycle once per emulated frame (not once per call: a paced core's `run` is
    /// polled far more often than it actually advances a frame).
    fn advance_rapid_fire(&mut self, frames: u64)
        requires
            old(self).wf(),
        ensures
            final(self).wf(),
            *final(self) == (SuperShuckieCore {
                input: InputState {
                    rapid_fire: rapid_fire_after(old(self).input.rapid_fire, frames),
                    ..old(self).input
                },
                ..*old(self)
            }),
    {
        if let Some(rf) = self.input.rapid_fire {
            let stage: u64 = advance_cycle(rf.current_frame, frames, rf.total_frames);
            self.input.rapid_fire = Some(
                SuperShuckieRapidFire {
                    input: rf.input,
                    hold_length: rf.hold_length,
                    interval: rf.interval,
                    current_frame: stage,
                    total_frames: rf.total_frames,
                },
            );
        }
    }

    /// Mark the link frame the console just completed (either side): the next boundary prepares the
    /// next one.
    pub fn link_frame_completed(&mut self, frames: u64)
        ensures
            *final(self) == (SuperShuckieCore {
                together: TogetherState {
                    link: link_after(old(self).together.link, frames),
                    partner: partner_after(old(self).together.partner, frames),
                    ..old(self).together
                },
                ..*old(self)
            }),
            old(self).wf() ==> final(self).wf(),
    {
        if let Some(mut link) = self.together.link.take() {
            link.frame = link.frame.saturating_add(frames);
            link.frame_prepared = false;
            self.together.link = Some(link);
        }
        if let Some(mut partner) = self.together.partner.take() {
            partner.frame = partner.frame.saturating_add(frames);
            partner.frame_prepared = false;
            self.together.partner = Some(partner);
        }
    }

    /// Count the frames a follower ran and the picture it drew.
    fn follower_frame_completed(&mut self, time: RunTime)
        ensures
            *final(self) == (SuperShuckieCore {
                together: TogetherState {
                    follower: follower_after(old(self).together.follower, time),
                    ..old(self).together
                },
                ..*old(self)
            }),
            old(self).wf() ==> final(self).wf(),
    {
        proof {
            reveal(state::follower_wf);
        }
        if let Some(mut f) = self.together.follower.take() {
            f.source.stats.emulated_frames = f.source.stats.emulated_frames.saturating_add(
                time.frames,
            );
            if time.presented {
                f.source.stats.drawn_frames = f.source.stats.drawn_frames.saturating_add(1);
            }
            self.together.follower = Some(f);
        }
    }

    /// The link cable traffic the console received during the frame it just completed is published
    /// and goes into the recording; nothing when there was none (or no port).
    fn tell_serial_in(&mut self)
        ensures
            ({
                let has_port = old(self).core.identity().has_link_port;
                let serial = match final(self).core.log().last() {
                    CoreCall::TakeSerialIn { data } => data,
                    _ => Seq::empty(),
                };
                &&& *final(self) == (SuperShuckieCore {
                    core: final(self).core,
                    effects: final(self).effects,
                    ..*old(self)
                })
                &&& if has_port {
                    old(self).asked(*final(self), seq![CoreCall::TakeSerialIn { data: serial }])
                } else {
                    final(self).core == old(self).core
                }
                &&& final(self).core.mid_frame() == old(self).core.mid_frame()
                &&& final(self).core.state() == old(self).core.state()
                &&& final(self).outs() == old(self).outs() + effects::only_if(
                    old(self).together.publishing && has_port && serial.len() > 0,
                    effects::Out::PublishSerialIn { data: serial },
                ) + effects::only_if(
                    old(self).recorder.active && has_port && serial.len() > 0,
                    effects::Out::RecordSerialIn { data: serial },
                )
            }),
            old(self).wf() ==> final(self).wf(),
    {
        let ghost before = *self;
        if self.core.has_link_port() {
            let data: Vec<u8> = self.core.take_serial_in();
            let ghost bytes = data@;
            if data.len() > 0 {
                self.publish(Effect::PublishSerialIn { data: packet::copy_bytes(&data) });
                self.record(Effect::RecordSerialIn { data });
            } else {
                assert(before.outs() + Seq::<effects::Out>::empty() =~= before.outs());
            }
            assert(self.core.log() =~= before.core.log() + seq![
                CoreCall::TakeSerialIn { data: bytes },
            ]);
            assert(self.core.log().last() == CoreCall::TakeSerialIn { data: bytes });
        } else {
            assert(before.outs() + Seq::<effects::Out>::empty() =~= before.outs());
        }
    }

    /// Tell of frames that ran.
    fn tell_frames(&mut self, publish: bool, millis: u64, frames: u64)
        ensures
            old(self).told(
                *final(self),
                frame_records(
                    publish && old(self).together.publishing,
                    old(self).recorder.active,
                    millis,
                    frames as nat,
                ),
            ),
            old(self).wf() ==> final(self).wf(),
    {
        let ghost before = *self;
        let ghost publishing = publish && before.together.publishing;
        let ghost recording = before.recorder.active;
        let mut n: u64 = 0;
        assert(before.outs() + frame_records(publishing, recording, millis, 0) =~= before.outs());
        while n < frames
            invariant
                n <= frames,
                publishing == (publish && before.together.publishing),
                recording == before.recorder.active,
                before.told(*self, frame_records(publishing, recording, millis, n as nat)),
            decreases frames - n,
        {
            if publish {
                self.publish(Effect::PublishFrame { millis });
            }
            self.record(Effect::RecordFrame { millis });
            n = n + 1;
            assert(self.outs() =~= before.outs() + frame_records(
                publishing,
                recording,
                millis,
                n as nat,
            ));
        }
    }

    /// After writing a keyframe of the current state into the recording.
    pub open spec fn keyframe_written(self, after: Self, full: bool) -> bool {
        if self.recorder.active {
            &&& after == (SuperShuckieCore {
                effects: after.effects,
                recorder: RecorderState { since: 0, ..self.recorder },
                ..self
            })
            &&& after.outs() == self.outs() + seq![
                effects::Out::RecordKeyframe {
                    state: self.core.state(),
                    millis: self.file_millis(),
                    full,
                    since: self.recorder.since,
                },
            ]
        } else {
            after == (SuperShuckieCore {
                recorder: RecorderState {
                    full_pending: self.recorder.full_pending || full,
                    ..self.recorder
                },
                ..self
            })
        }
    }

    /// Write a keyframe of the current state into the recording (always stored in full if `full`)
    /// and restart the keyframe interval.
    pub fn write_keyframe(&mut self, full: bool)
        ensures
            old(self).keyframe_written(*final(self), full),
            old(self).wf() ==> final(self).wf(),
    {
        if !self.recorder.active {
            self.recorder.full_pending = self.recorder.full_pending || full;
            return;
        }
        let millis: u64 = self.recording_millis();
        let state: Vec<u8> = self.core.create_save_state();
        let since: u64 = self.recorder.since;
        self.tell(Effect::RecordKeyframe { state, millis, full, since });
        self.recorder.since = 0;
    }

    /// A keyframe did not go in: the interval was not restarted after all, and a requested full
    /// keyframe stays requested.
    pub fn keyframe_refused(&mut self, full: bool, since: u64)
        ensures
            *final(self) == (SuperShuckieCore {
                recorder: RecorderState {
                    since: frames_sum(old(self).recorder.since, since),
                    full_pending: old(self).recorder.full_pending || full,
                    ..old(self).recorder
                },
                ..*old(self)
            }),
            old(self).wf() ==> final(self).wf(),
    {
        self.recorder.since = self.recorder.since.saturating_add(since);
        self.recorder.full_pending = self.recorder.full_pending || full;
    }

    /// After a run that may have been due a keyframe.
    pub open spec fn keyframed(self, after: Self, time: RunTime) -> bool {
        if time.frames == 0 || self.core.mid_frame() || !self.recorder.active {
            after == self
        } else {
            let full = self.recorder.full_pending;
            let taken = SuperShuckieCore {
                recorder: RecorderState { full_pending: false, ..self.recorder },
                ..self
            };
            if full || self.recorder.since >= self.recorder.per_keyframe {
                taken.keyframe_written(after, full)
            } else {
                after == taken
            }
        }
    }

    /// Write a keyframe if one is due.
    pub fn push_keyframe_if_needed(&mut self, time: RunTime)
        ensures
            old(self).keyframed(*final(self), time),
            old(self).wf() ==> final(self).wf(),
    {
        if time.frames == 0 || self.core.is_mid_frame() || !self.recorder.active {
            return;
        }
        let full: bool = self.recorder.full_pending;
        self.recorder.full_pending = false;
        if full || self.recorder.since >= self.recorder.per_keyframe {
            self.write_keyframe(full);
        }
    }

    /// After everything that follows a run.
    pub open spec fn after_ran(self, after: Self, time: RunTime) -> bool {
        let counted = SuperShuckieCore {
            runs: RunState { last: time, serial: self.runs.serial.wrapping_add(1), ..self.runs },
            ..self
        };
        exists|timed: Self, keyed: Self|
            #![trigger counted.timekept(timed, time), timed.keyframed(keyed, time)]
            counted.timekept(timed, time) && timed.keyframed(keyed, time) && keyed.synced(
                after,
                time,
            )
    }

    /// What follows a run: the frames are counted, timed, published and recorded, and a keyframe, a
    /// hash and a snapshot go out if they are due.
    pub fn after_run(&mut self, time: RunTime)
        requires
            old(self).wf(),
        ensures
            final(self).wf(),
            old(self).after_ran(*final(self), time),
    {
        self.runs.last = time;
        self.runs.serial = self.runs.serial.wrapping_add(1);
        let ghost counted = *self;
        self.do_frame_timekeeping(time);
        let ghost timed = *self;
        self.push_keyframe_if_needed(time);
        let ghost keyed = *self;
        assert(counted.timekept(timed, time) && timed.keyframed(keyed, time));
        self.publish_sync(time);
    }
}

/// Whether two byte strings are the same.
fn same_bytes(a: &[u8], b: &[u8]) -> (r: bool)
    ensures
        r == (a@ == b@),
{
    if a.len() != b.len() {
        return false;
    }
    let mut i: usize = 0;
    while i < a.len()
        invariant
            i <= a@.len() == b@.len(),
            forall|k: int| 0 <= k < i ==> a@[k] == b@[k],
        decreases a@.len() - i,
    {
        if a[i] != b[i] {
            return false;
        }
        i = i + 1;
    }
    assert(a@ =~= b@);
    true
}

/// The stage of a duty cycle `frames` after `current`.
fn advance_cycle(current: u64, frames: u64, total: u64) -> (r: u64)
    requires
        current < total,
    ensures
        r == (current + frames) % (total as int),
        r < total,
{
    let step: u64 = frames % total;
    let r: u64 = if current >= total - step {
        current - (total - step)
    } else {
        current + step
    };
    proof {
        let t = total as int;
        vstd::arithmetic::div_mod::lemma_add_mod_noop_right(current as int, frames as int, t);
        assert((current + step) % t == (current + frames) % t);
        if current + step >= t {
            vstd::arithmetic::div_mod::lemma_small_mod((current + step - t) as nat, total as nat);
            vstd::arithmetic::div_mod::lemma_mod_sub_multiples_vanish((current + step) as int, t);
        } else {
            vstd::arithmetic::div_mod::lemma_small_mod((current + step) as nat, total as nat);
        }
    }
    r
}

} // verus!
