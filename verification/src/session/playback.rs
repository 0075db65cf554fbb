//! Playing a replay back: its packets, one frame's worth at a time.

use super::effects;
use super::effects::Effect;
use super::state;
use super::state::{
    FollowerState, MonotonicTimestampProvider, PlaybackState, RunState, SuperShuckieCore,
    TimerState, TogetherState,
};
use crate::emulator::console::{CoreCall, EmulatorCore};
use crate::play_together::live;
use crate::replay::packet;
use crate::replay::packet::{Counter, Packet};
use crate::replay::player;
use crate::replay::player::ReplayFilePlayer;
use vstd::prelude::*;

verus! {

/// Whether `index` lies in one of the ranges.
pub open spec fn in_ranges(ranges: Seq<(usize, usize)>, index: int) -> bool {
    exists|i: int|
        0 <= i < ranges.len() && (#[trigger] ranges[i]).0 <= index && index < ranges[i].1
}

/// A state with the bytes of the ranges taken from another.
pub open spec fn spliced(state: Seq<u8>, live: Seq<u8>, ranges: Seq<(usize, usize)>) -> Seq<u8> {
    Seq::new(
        state.len(),
        |i: int|
            if in_ranges(ranges, i) {
                live[i]
            } else {
                state[i]
            },
    )
}

/// Counters after one changed; without any nothing changes.
pub open spec fn counters_changed(
    counters: Option<Vec<Counter>>,
    after: Option<Vec<Counter>>,
    name: Seq<char>,
    delta: i64,
) -> bool {
    match counters {
        None => after is None,
        Some(c) => after matches Some(a) && packet::counter_models(a@) == packet::counter_changed(
            packet::counter_models(c@),
            name,
            delta,
        ),
    }
}

impl<C: EmulatorCore, T: MonotonicTimestampProvider> SuperShuckieCore<C, T> {
    /// The state loaded for a keyframe the emulator is already at: the keyframe's, with the
    /// emulator's own regenerated buffers if they are in the same places.
    pub open spec fn resync_state(self, state: Seq<u8>) -> Seq<u8> {
        let ranges = self.core.regenerated(state);
        let live = self.core.state();
        if self.core.identity().console is None || ranges.len() == 0 || live.len() != state.len()
            || self.core.regenerated(live) != ranges {
            state
        } else {
            spliced(state, live, ranges)
        }
    }

    /// Copy the emulator's own regenerated output buffers over the corresponding bytes of a
    /// keyframe `state` that is about to be loaded while the emulator is already at that frame.
    ///
    /// Delta keyframes may carry their chain restart's stale copy of those buffers; splicing the
    /// live ones in means a resync never presents a frame built from stale geometry or audio.
    /// Returns `state` unchanged when the console has no such buffers or the layouts differ.
    pub fn splice_live_transient_buffers(&self, state: &Vec<u8>) -> (r: Vec<u8>)
        ensures
            r@ == self.resync_state(state@),
    {
        let mut out: Vec<u8> = packet::copy_bytes(state);
        if self.core.replay_console_type().is_none() {
            return out;
        }
        let ranges: Vec<(usize, usize)> = self.core.transient_ranges(state.as_slice());
        if ranges.len() == 0 {
            return out;
        }
        let live: Vec<u8> = self.core.create_save_state();
        if live.len() != state.len() {
            return out;
        }
        let live_ranges: Vec<(usize, usize)> = self.core.transient_ranges(live.as_slice());
        if !same_ranges(&live_ranges, &ranges) {
            return out;
        }
        let ghost all = ranges@;
        let mut i: usize = 0;
        assert(out@ =~= spliced(state@, live@, all.take(0)));
        while i < ranges.len()
            invariant
                i <= ranges@.len(),
                all == ranges@,
                live@.len() == state@.len(),
                forall|k: int| 0 <= k < all.len() ==> (#[trigger] all[k]).0 <= all[k].1
                    <= state@.len(),
                out@ == spliced(state@, live@, all.take(i as int)),
            decreases ranges@.len() - i,
        {
            let (start, end): (usize, usize) = ranges[i];
            assert(all[i as int] == (start, end));
            let ghost before = out@;
            let mut k: usize = start;
            while k < end
                invariant
                    start <= k <= end <= state@.len(),
                    out@.len() == state@.len() == live@.len() == before.len(),
                    forall|j: int|
                        0 <= j < out@.len() ==> #[trigger] out@[j] == (if start <= j < k {
                            live@[j]
                        } else {
                            before[j]
                        }),
                decreases end - k,
            {
                out[k] = live[k];
                k = k + 1;
            }
            proof {
                let done = all.take(i as int);
                let more = all.take(i + 1);
                assert forall|j: int| 0 <= j < out@.len() implies out@[j] == spliced(
                    state@,
                    live@,
                    more,
                )[j] by {
                    if start <= j < end {
                        assert(more[i as int] == all[i as int]);
                        assert(in_ranges(more, j));
                    } else {
                        if in_ranges(done, j) {
                            let w = choose|w: int|
                                0 <= w < done.len() && (#[trigger] done[w]).0 <= j && j < done[w].1;
                            assert(more[w] == done[w]);
                            assert(in_ranges(more, j));
                        }
                        if in_ranges(more, j) {
                            let w = choose|w: int|
                                0 <= w < more.len() && (#[trigger] more[w]).0 <= j && j < more[w].1;
                            assert(w < i);
                            assert(done[w] == more[w]);
                            assert(in_ranges(done, j));
                        }
                    }
                }
                assert(out@ =~= spliced(state@, live@, more));
            }
            i = i + 1;
        }
        assert(all.take(i as int) =~= all);
        out
    }

    // -----------------------------------------------------------------------------------------
    // One packet.

    /// After the packet did what it does to the console; `wrote` says whether it wrote memory.
    pub open spec fn packet_done(self, after: Self, p: packet::PacketModel, wrote: bool) -> bool {
        match p {
            packet::PacketModel::NoOp => after == self && !wrote,
            packet::PacketModel::Bookmark => after == self && !wrote,
            packet::PacketModel::NextFrame { timestamp_delta } => {
                &&& !wrote
                &&& after == (SuperShuckieCore {
                    timer: TimerState {
                        millis: self.timer.millis.wrapping_add(timestamp_delta),
                        ..self.timer
                    },
                    playback: PlaybackState { frame_pending: true, ..self.playback },
                    ..self
                })
            },
            packet::PacketModel::WriteMemory { address, data } => {
                // Skipped rather than fatal: a replay may write to memory this version does not
                // map (including an address that no longer fits).
                &&& after == (SuperShuckieCore {
                    core: after.core,
                    playback: PlaybackState {
                        write_failures: if wrote {
                            self.playback.write_failures
                        } else {
                            live::one_more(self.playback.write_failures)
                        },
                        ..self.playback
                    },
                    ..self
                })
                &&& if address <= u32::MAX {
                    self.asked(
                        after,
                        seq![CoreCall::WriteRam { address: address as u32, data, written: wrote }],
                    )
                } else {
                    !wrote && after.core == self.core
                }
            },
            packet::PacketModel::ChangeInput { data } => {
                &&& !wrote
                &&& after == (SuperShuckieCore { core: after.core, ..self })
                &&& self.asked(after, seq![CoreCall::SetInput { data }])
            },
            packet::PacketModel::ChangeSpeed { speed } => {
                &&& !wrote
                &&& (SuperShuckieCore {
                    playback: PlaybackState { speed, ..self.playback },
                    ..self
                }).speed_matched(after)
            },
            packet::PacketModel::ResetConsole => {
                &&& !wrote
                &&& after == (SuperShuckieCore {
                    core: after.core,
                    runs: RunState { epoch: self.runs.epoch.wrapping_add(1), ..self.runs },
                    ..self
                })
                &&& self.asked(after, seq![CoreCall::HardReset])
            },
            packet::PacketModel::LoadSaveState { state } => {
                &&& !wrote
                &&& after == (SuperShuckieCore {
                    core: after.core,
                    runs: RunState { epoch: self.runs.epoch.wrapping_add(1), ..self.runs },
                    ..self
                })
                &&& self.loaded(after, state)
            },
            packet::PacketModel::Keyframe { metadata, state } => {
                &&& !wrote
                &&& if self.playback.auto_resync {
                    &&& after == (SuperShuckieCore { core: after.core, ..self })
                    &&& self.loaded(after, self.resync_state(state))
                } else {
                    after == self
                }
            },
            packet::PacketModel::IncrementCounter { name, delta } => {
                &&& !wrote
                &&& after == (SuperShuckieCore {
                    playback: PlaybackState {
                        counters: after.playback.counters,
                        ..self.playback
                    },
                    ..self
                })
                &&& counters_changed(
                    self.playback.counters,
                    after.playback.counters,
                    name,
                    delta,
                )
            },
            packet::PacketModel::SerialIn { data } => {
                &&& !wrote
                &&& after == (SuperShuckieCore { core: after.core, ..self })
                &&& if self.core.identity().has_link_port {
                    self.asked(
                        after,
                        seq![
                            CoreCall::QueueSerialIn {
                                data,
                                error: match after.core.log().last() {
                                    CoreCall::QueueSerialIn { error, .. } => error,
                                    _ => None,
                                },
                            },
                        ],
                    )
                } else {
                    after.core == self.core
                }
            },
        }
    }

    /// Whether the core was asked to load a state.
    pub open spec fn loaded(self, after: Self, state: Seq<u8>) -> bool {
        self.asked(
            after,
            seq![
                CoreCall::LoadSaveState {
                    state,
                    error: match after.core.log().last() {
                        CoreCall::LoadSaveState { error, .. } => error,
                        _ => None,
                    },
                },
            ],
        )
    }

    /// What of a packet a follower's own file records.
    pub open spec fn mirror_of(self, p: packet::PacketModel, wrote: bool) -> Seq<effects::Out> {
        match p {
            packet::PacketModel::NextFrame { .. } => seq![
                effects::Out::RecordFrame { millis: self.file_millis() },
            ],
            packet::PacketModel::ChangeInput { data } => seq![effects::Out::RecordInput { data }],
            packet::PacketModel::WriteMemory { address, data } => effects::only_if(
                wrote,
                effects::Out::RecordWrite { address, data },
            ),
            packet::PacketModel::ChangeSpeed { speed } => seq![
                effects::Out::RecordSpeed { speed },
            ],
            packet::PacketModel::ResetConsole => seq![effects::Out::RecordReset],
            packet::PacketModel::LoadSaveState { state } => seq![
                effects::Out::RecordState { state },
            ],
            packet::PacketModel::IncrementCounter { name, delta } => seq![
                effects::Out::RecordCounter { name, delta },
            ],
            packet::PacketModel::SerialIn { data } => seq![effects::Out::RecordSerialIn { data }],
            _ => Seq::empty(),
        }
    }

    /// The follower after a packet: it remembers the input.
    pub open spec fn follower_noted(
        before: Option<FollowerState>,
        after: Option<FollowerState>,
        p: packet::PacketModel,
    ) -> bool {
        match (before, p) {
            (Some(f), packet::PacketModel::ChangeInput { data }) => after matches Some(a) && a == (
            FollowerState { last_input: a.last_input, ..f }) && a.last_input@ == data,
            _ => after == before,
        }
    }

    /// After mirroring a live replay's packet into the follower's own file recording (nothing for a
    /// replay played from a file: such a core never records).
    pub open spec fn mirrored(self, after: Self, p: packet::PacketModel, wrote: bool) -> bool {
        &&& after == (SuperShuckieCore {
            together: TogetherState { follower: after.together.follower, ..self.together },
            effects: after.effects,
            ..self
        })
        &&& Self::follower_noted(self.together.follower, after.together.follower, p)
        &&& after.outs() == self.outs() + (if self.together.follower is Some
            && self.recorder.active {
            self.mirror_of(p, wrote)
        } else {
            Seq::empty()
        })
    }

    /// Mirror a live replay's packet into the follower's own file recording.
    pub fn follower_mirror(&mut self, p: &Packet, wrote: bool)
        requires
            old(self).wf(),
        ensures
            final(self).wf(),
            old(self).mirrored(*final(self), p@, wrote),
    {
        let ghost before = *self;
        assert(before.outs() + Seq::<effects::Out>::empty() =~= before.outs());
        proof {
            reveal(state::follower_wf);
        }
        match self.together.follower.take() {
            None => {
                return;
            },
            Some(mut follower) => {
                if let Packet::ChangeInput { data } = p {
                    follower.last_input = packet::copy_bytes(data);
                }
                self.together.follower = Some(follower);
            },
        }
        if !self.recorder.active {
            return;
        }
        match p {
            Packet::NextFrame { .. } => {
                let millis: u64 = self.recording_millis();
                self.tell(Effect::RecordFrame { millis });
            },
            Packet::ChangeInput { data } => {
                self.tell(Effect::RecordInput { data: packet::copy_bytes(data) });
            },
            Packet::WriteMemory { address, data } => {
                if wrote {
                    self.tell(
                        Effect::RecordWrite { address: *address, data: packet::copy_bytes(data) },
                    );
                }
            },
            Packet::ChangeSpeed { speed } => {
                self.tell(Effect::RecordSpeed { speed: *speed });
            },
            Packet::ResetConsole => {
                self.tell(Effect::RecordReset);
            },
            Packet::LoadSaveState { state } => {
                self.tell(Effect::RecordState { state: packet::copy_bytes(state) });
            },
            Packet::IncrementCounter { name, delta } => {
                self.tell(Effect::RecordCounter { name: name.clone(), delta: *delta });
            },
            Packet::SerialIn { data } => {
                self.tell(Effect::RecordSerialIn { data: packet::copy_bytes(data) });
            },
            _ => {},
        }
    }

    /// After applying a packet of a replay.
    pub open spec fn packet_applied(self, after: Self, p: packet::PacketModel) -> bool {
        exists|done: Self, wrote: bool| #[trigger]
            self.packet_done(done, p, wrote) && done.mirrored(after, p, wrote)
    }

    fn do_packet(&mut self, p: &Packet) -> (r: bool)
        requires
            old(self).wf(),
        ensures
            final(self).wf(),
            old(self).packet_done(*final(self), p@, r),
    {
        let ghost before = *self;
        match p {
            Packet::NoOp => false,
            Packet::Bookmark => false,
            Packet::NextFrame { timestamp_delta } => {
                self.timer.millis = self.timer.millis.wrapping_add(*timestamp_delta);
                // Nothing more is read from the replay until this frame has run.
                self.playback.frame_pending = true;
                false
            },
            Packet::WriteMemory { address, data } => {
                let mut wrote: bool = false;
                if *address <= u32::MAX as u64 {
                    let at: u32 = *address as u32;
                    wrote = self.core.write_ram(at, data.as_slice()).is_ok();
                    assert(self.core.log() =~= before.core.log() + seq![
                        CoreCall::WriteRam { address: at, data: data@, written: wrote },
                    ]);
                }
                if !wrote {
                    self.playback.write_failures = self.playback.write_failures.saturating_add(1);
                }
                wrote
            },
            Packet::ChangeInput { data } => {
                self.core.set_input_encoded(data.as_slice());
                assert(self.core.log() =~= before.core.log() + seq![
                    CoreCall::SetInput { data: data@ },
                ]);
                false
            },
            Packet::ChangeSpeed { speed } => {
                self.playback.speed = *speed;
                self.match_replay_playback_speed();
                false
            },
            Packet::ResetConsole => {
                self.core.hard_reset();
                assert(self.core.log() =~= before.core.log() + seq![CoreCall::HardReset]);
                self.bump_state_epoch();
                false
            },
            Packet::LoadSaveState { state } => {
                self.load_into_core(state);
                self.bump_state_epoch();
                false
            },
            Packet::Keyframe { state, .. } => {
                if self.playback.auto_resync {
                    let resync: Vec<u8> = self.splice_live_transient_buffers(state);
                    self.load_into_core(&resync);
                }
                false
            },
            Packet::IncrementCounter { name, delta } => {
                self.change_replay_counter_map(name, *delta);
                false
            },
            Packet::SerialIn { data } => {
                if self.core.has_link_port() {
                    let _ = self.core.queue_serial_in(data.as_slice());
                    assert(self.core.log() =~= before.core.log() + seq![
                        CoreCall::QueueSerialIn {
                            data: data@,
                            error: match self.core.log().last() {
                                CoreCall::QueueSerialIn { error, .. } => error,
                                _ => None,
                            },
                        },
                    ]);
                }
                false
            },
        }
    }

    fn load_into_core(&mut self, state: &Vec<u8>)
        ensures
            *final(self) == (SuperShuckieCore { core: final(self).core, ..*old(self) }),
            old(self).loaded(*final(self), state@),
            old(self).wf() ==> final(self).wf(),
    {
        let ghost before = *self;
        let _ = self.core.load_save_state(state.as_slice());
        assert(self.core.log() =~= before.core.log() + seq![
            CoreCall::LoadSaveState {
                state: state@,
                error: match self.core.log().last() {
                    CoreCall::LoadSaveState { error, .. } => error,
                    _ => None,
                },
            },
        ]);
    }

    /// Add `delta` to a counter.
    pub fn change_replay_counter_map(&mut self, name: &String, delta: i64)
        ensures
            *final(self) == (SuperShuckieCore {
                playback: PlaybackState {
                    counters: final(self).playback.counters,
                    ..old(self).playback
                },
                ..*old(self)
            }),
            counters_changed(
                old(self).playback.counters,
                final(self).playback.counters,
                name@,
                delta,
            ),
            old(self).wf() ==> final(self).wf(),
    {
        if let Some(mut counters) = self.playback.counters.take() {
            packet::change_counter(&mut counters, name, delta);
            self.playback.counters = Some(counters);
        }
    }

    /// Apply a packet of a replay.
    pub fn apply_playback_packet(&mut self, p: &Packet)
        requires
            old(self).wf(),
        ensures
            final(self).wf(),
            old(self).packet_applied(*final(self), p@),
    {
        let ghost before = *self;
        let wrote: bool = self.do_packet(p);
        let ghost done = *self;
        assert(before.packet_done(done, p@, wrote));
        self.follower_mirror(p, wrote);
    }

    // -----------------------------------------------------------------------------------------
    // One frame's worth of packets.

    /// Whether the packet in a slot leads from here to there, and a frame does not end with it.
    pub open spec fn passes(self, after: Self, from: ReplayFilePlayer, slot: int) -> bool {
        match from.event_at(slot) {
            Some(p) => !(p is NextFrame) && self.packet_applied(after, p),
            None => false,
        }
    }

    /// Whether the packets a player hands out in `steps` lead up to the end of a frame, to the end
    /// of the replay, or to where it cannot be read.
    pub open spec fn played(self, after: Self, from: ReplayFilePlayer, steps: Seq<Self>) -> bool {
        let n = (steps.len() - 1) as nat;
        &&& steps.len() >= 1
        &&& from.cursor + n <= usize::MAX
        &&& steps[0] == (SuperShuckieCore {
            playback: PlaybackState { player: None, ..self.playback },
            ..self
        })
        &&& forall|i: int, j: int|
            0 <= i && j == i + 1 && j < steps.len() ==> (#[trigger] steps[i]).passes(
                #[trigger] steps[j],
                from,
                from.cursor + i,
            )
        &&& match from.event_at(from.cursor + n) {
            None => after == (SuperShuckieCore {
                playback: PlaybackState {
                    player: Some(
                        ReplayFilePlayer { cursor: (from.cursor + n) as usize, ..from },
                    ),
                    stalled: true,
                    ..steps.last().playback
                },
                ..steps.last()
            }),
            Some(p) => p is NextFrame && exists|done: Self| #[trigger]
                steps.last().packet_applied(done, p) && after == (SuperShuckieCore {
                    playback: PlaybackState {
                        player: Some(
                            ReplayFilePlayer { cursor: (from.cursor + n + 1) as usize, ..from },
                        ),
                        ..done.playback
                    },
                    ..done
                }),
        }
    }

    /// Whether the replay is not to be read before the next run.
    pub open spec fn reads_nothing(self) -> bool {
        self.playback.stalled || self.playback.frame_pending || self.playback.stopped
            || self.core.mid_frame()
    }

    /// After a replay file's packets up to the next frame were applied.
    pub open spec fn file_handled(self, after: Self) -> bool {
        match self.playback.player {
            None => after == self,
            Some(from) => exists|steps: Seq<Self>| #[trigger] self.played(after, from, steps),
        }
    }

    /// Read the attached replay up to the next frame.
    pub fn handle_replay_file(&mut self)
        requires
            old(self).wf(),
        ensures
            final(self).wf(),
            old(self).file_handled(*final(self)),
    {
        let ghost before = *self;
        if self.playback.player.is_none() {
            return;
        }
        let taken: Option<ReplayFilePlayer> = self.playback.player.take();
        if let Some(mut player) = taken {
            let ghost from = player;
            let ghost mut steps: Seq<Self> = seq![*self];
            let ghost bare = *self;
            let mut reading: bool = true;
            while reading
                invariant
                    self.wf(),
                    from.cursor + (steps.len() - 1) <= usize::MAX,
                    steps.len() >= 1,
                    steps[0] == bare,
                    player.slots@ == from.slots@,
                    reading ==> player == (ReplayFilePlayer {
                        cursor: (from.cursor + (steps.len() - 1)) as usize,
                        ..from
                    }),
                    reading ==> steps.last() == *self,
                    forall|i: int, j: int|
                        0 <= i && j == i + 1 && j < steps.len() ==> (#[trigger] steps[i]).passes(
                            #[trigger] steps[j],
                            from,
                            from.cursor + i,
                        ),
                    !reading ==> match from.event_at(from.cursor + (steps.len() - 1)) {
                        None => {
                            &&& player == (ReplayFilePlayer {
                                cursor: (from.cursor + (steps.len() - 1)) as usize,
                                ..from
                            })
                            &&& *self == (SuperShuckieCore {
                                playback: PlaybackState {
                                    stalled: true,
                                    ..steps.last().playback
                                },
                                ..steps.last()
                            })
                        },
                        Some(p) => {
                            &&& p is NextFrame
                            &&& from.cursor + steps.len() <= usize::MAX
                            &&& player == (ReplayFilePlayer {
                                cursor: (from.cursor + steps.len()) as usize,
                                ..from
                            })
                            &&& steps.last().packet_applied(*self, p)
                        },
                    },
                decreases
                        player.unread(),
                        (if reading {
                            1int
                        } else {
                            0int
                        }),
            {
                let slots: usize = player.slots.len();
                assert(player.cursor < player.slots@.len() ==> player.cursor < slots);
                match player.next_packet() {
                    Ok(None) => {
                        self.playback.stalled = true;
                        reading = false;
                    },
                    Err(_) => {
                        self.playback.stalled = true;
                        reading = false;
                    },
                    Ok(Some(p)) => {
                        let ends: bool = match &p {
                            Packet::NextFrame { .. } => true,
                            _ => false,
                        };
                        self.apply_playback_packet(&p);
                        if ends {
                            reading = false;
                        } else {
                            proof {
                                let done = steps;
                                steps = steps.push(*self);
                                assert(from.event_at(from.cursor + (done.len() - 1)) == Some(p@));
                                assert forall|i: int, j: int|
                                    0 <= i && j == i + 1 && j < steps.len() implies (
                                #[trigger] steps[i]).passes(
                                    #[trigger] steps[j],
                                    from,
                                    from.cursor + i,
                                ) by {
                                    if j < done.len() {
                                        assert(done[i].passes(done[j], from, from.cursor + i));
                                    } else {
                                        assert(done[i] == done.last());
                                    }
                                }
                            }
                        }
                    },
                }
            }
            self.playback.player = Some(player);
            assert(before.played(*self, from, steps));
        }
    }
}

/// Whether two lists of ranges are the same.
fn same_ranges(a: &Vec<(usize, usize)>, b: &Vec<(usize, usize)>) -> (r: bool)
    ensures
        r == (a@ == b@),
{
    if a.len() != b.len() {
        return false;
    }
    let mut i: usize = 0;
    while i < a.len()
        invariant
            i <= a@.len() == b@.len(),
            forall|k: int| 0 <= k < i ==> a@[k] == b@[k],
        decreases a@.len() - i,
    {
        let (a_start, a_end): (usize, usize) = a[i];
        let (b_start, b_end): (usize, usize) = b[i];
        if a_start != b_start || a_end != b_end {
            return false;
        }
        i = i + 1;
    }
    assert(a@ =~= b@);
    true
}

} // verus!
