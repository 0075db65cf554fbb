//! What a session keeps of a game that runs: its frames, its time, its file and its sound.

use super::driving;
use super::effects;
use super::following;
use super::playback;
use super::running;
use super::state::{MonotonicTimestampProvider, SuperShuckieCore};
use crate::emulator::console::{CoreCall, EmulatorCore, RunTime};
use crate::emulator::input::Input;
use crate::replay::packet;
use crate::replay::packet::Speed;
use crate::replay::player::ReplayFilePlayer;
use vstd::prelude::*;

verus! {

/// How many frames are put into the file, all of them at this time.
pub open spec fn frames_recorded(outs: Seq<effects::Out>, millis: u64) -> nat
    decreases outs.len(),
{
    if outs.len() == 0 {
        0
    } else if outs.last() == (effects::Out::RecordFrame { millis }) {
        frames_recorded(outs.drop_last(), millis) + 1
    } else {
        frames_recorded(outs.drop_last(), millis)
    }
}

/// How many frames followers are told of, all of them at this time.
pub open spec fn frames_published(outs: Seq<effects::Out>, millis: u64) -> nat
    decreases outs.len(),
{
    if outs.len() == 0 {
        0
    } else if outs.last() == (effects::Out::PublishFrame { millis }) {
        frames_published(outs.drop_last(), millis) + 1
    } else {
        frames_published(outs.drop_last(), millis)
    }
}

proof fn lemma_frames_told(
    first: Seq<effects::Out>,
    publishing: bool,
    recording: bool,
    millis: u64,
    n: nat,
)
    requires
        forall|i: int|
            0 <= i < first.len() ==> !((#[trigger] first[i]) is RecordFrame) && !(
            first[i] is PublishFrame),
    ensures
        ({
            let all = first + running::frame_records(publishing, recording, millis, n);
            &&& frames_recorded(all, millis) == (if recording {
                n
            } else {
                0
            })
            &&& frames_published(all, millis) == (if publishing {
                n
            } else {
                0
            })
        }),
    decreases n, first.len(),
{
    if n == 0 {
        assert(first + running::frame_records(publishing, recording, millis, 0) =~= first);
        if first.len() > 0 {
            let rest = first.drop_last();
            assert forall|i: int| 0 <= i < rest.len() implies !((#[trigger] rest[i]) is RecordFrame)
                && !(rest[i] is PublishFrame) by {
                assert(rest[i] == first[i]);
            }
            assert(!(first[first.len() - 1] is RecordFrame));
            lemma_frames_told(rest, publishing, recording, millis, 0);
            assert(rest + running::frame_records(publishing, recording, millis, 0) =~= rest);
        }
    } else {
        lemma_frames_told(first, publishing, recording, millis, (n - 1) as nat);
        let before = first + running::frame_records(publishing, recording, millis, (n - 1) as nat);
        let publish = effects::Out::PublishFrame { millis };
        let record = effects::Out::RecordFrame { millis };
        let all = first + running::frame_records(publishing, recording, millis, n);
        let middle = before + effects::only_if(publishing, publish);
        assert(all =~= middle + effects::only_if(recording, record));
        if publishing {
            assert(middle.drop_last() =~= before);
            assert(middle.last() == publish);
        } else {
            assert(middle =~= before);
        }
        assert(frames_recorded(middle, millis) == frames_recorded(before, millis));
        assert(frames_published(middle, millis) == frames_published(before, millis) + (
        if publishing {
            1nat
        } else {
            0
        }));
        if recording {
            assert(all.drop_last() =~= middle);
            assert(all.last() == record);
        } else {
            assert(all =~= middle);
        }
    }
}

/// Every frame that runs is counted, and stands at the time the clock shows since the timer started:
/// as many are put into the file as ran, and as many told to whoever follows, at that time.
pub proof fn law_every_frame_is_counted_and_timed<C: EmulatorCore, T: MonotonicTimestampProvider>(
    before: SuperShuckieCore<C, T>,
    after: SuperShuckieCore<C, T>,
    time: RunTime,
)
    requires
        before.timekept(after, time),
        !before.playing_back(),
        before.timer.paused_at is None,
        before.timer.starting <= after.clock.last() / 1000,
        before.timer.frames + time.frames <= u64::MAX,
        before.recorder.since + time.frames <= u64::MAX,
        time.frames > 0,
    ensures
        after.timer.frames == before.timer.frames + time.frames,
        after.recorder.since == before.recorder.since + time.frames,
        before.timer.starting + after.timer.millis == after.clock.last() / 1000,
        ({
            let told = after.outs().skip(before.outs().len() as int);
            &&& frames_recorded(told, after.timer.millis) == (if before.recorder.active {
                time.frames as nat
            } else {
                0
            })
            &&& frames_published(told, after.timer.millis) == (if before.together.publishing {
                time.frames as nat
            } else {
                0
            })
        }),
        !after.input.latched,
        !after.playback.frame_pending,
        after.core.state() == before.core.state(),
{
    let told = after.outs().skip(before.outs().len() as int);
    let serial = match after.core.log().last() {
        CoreCall::TakeSerialIn { data } => data,
        _ => Seq::empty(),
    };
    let has_port = before.core.identity().has_link_port;
    let first = effects::only_if(
        before.together.publishing && has_port && serial.len() > 0,
        effects::Out::PublishSerialIn { data: serial },
    ) + effects::only_if(
        before.recorder.active && has_port && serial.len() > 0,
        effects::Out::RecordSerialIn { data: serial },
    );
    let n = time.frames as nat;
    let millis = after.timer.millis;
    lemma_frames_told(first, before.together.publishing, before.recorder.active, millis, n);
    assert(told =~= first + running::frame_records(
        before.together.publishing,
        before.recorder.active,
        millis,
        n,
    ));
}

/// A run that completes no frame counts for nothing: neither the frame, the time, the file nor
/// whoever follows sees it, and the input given to the frame stays given.
pub proof fn law_a_pacing_wait_counts_for_nothing<C: EmulatorCore, T: MonotonicTimestampProvider>(
    before: SuperShuckieCore<C, T>,
    after: SuperShuckieCore<C, T>,
    time: RunTime,
)
    requires
        before.after_ran(after, time),
        time.frames == 0,
    ensures
        after.timer == before.timer,
        after.outs() == before.outs(),
        after.core == before.core,
        after.input == before.input,
        after.playback == before.playback,
        after.together == before.together,
{
}

/// What came over the cable during a frame goes into the file and to whoever follows, as it was
/// received.
pub proof fn law_cable_traffic_is_kept<C: EmulatorCore, T: MonotonicTimestampProvider>(
    before: SuperShuckieCore<C, T>,
    after: SuperShuckieCore<C, T>,
    time: RunTime,
    data: Seq<u8>,
)
    requires
        before.timekept(after, time),
        time.frames > 0,
        before.core.identity().has_link_port,
        after.core.log().last() == (CoreCall::TakeSerialIn { data }),
        data.len() > 0,
    ensures
        after.core.log().drop_last() == before.core.log(),
        before.recorder.active ==> after.outs().skip(before.outs().len() as int).contains(
            effects::Out::RecordSerialIn { data },
        ),
        before.together.publishing ==> after.outs().skip(before.outs().len() as int).contains(
            effects::Out::PublishSerialIn { data },
        ),
{
    let told = after.outs().skip(before.outs().len() as int);
    assert(after.core.log().drop_last() =~= before.core.log());
    if before.together.publishing {
        assert(told[0] == (effects::Out::PublishSerialIn { data }));
        if before.recorder.active {
            assert(told[1] == (effects::Out::RecordSerialIn { data }));
        }
    } else if before.recorder.active {
        assert(told[0] == (effects::Out::RecordSerialIn { data }));
    }
}

// ---------------------------------------------------------------------------------------------
// The file being recorded.

/// A file that is recorded never goes longer without a keyframe than it was asked to: one of the
/// console as it is goes in as soon as that many frames have run, and one that was asked for in full
/// goes in with the next frame.
pub proof fn law_keyframes_come_regularly<C: EmulatorCore, T: MonotonicTimestampProvider>(
    before: SuperShuckieCore<C, T>,
    after: SuperShuckieCore<C, T>,
    time: RunTime,
)
    requires
        before.keyframed(after, time),
        before.recorder.active,
        before.recorder.per_keyframe >= 1,
        time.frames > 0,
        !before.core.mid_frame(),
        before.timer.origin <= before.timer.millis,
    ensures
        after.recorder.since < before.recorder.per_keyframe,
        !after.recorder.full_pending,
        before.recorder.full_pending || before.recorder.since >= before.recorder.per_keyframe ==> {
            &&& after.recorder.since == 0
            &&& after.outs().drop_last() == before.outs()
            &&& after.outs().last() matches effects::Out::RecordKeyframe {
                state,
                millis,
                full,
                since,
            }
            &&& state == before.core.state()
            &&& millis + before.timer.origin == before.timer.millis
            &&& full == before.recorder.full_pending
            &&& since == before.recorder.since
        },
        !before.recorder.full_pending && before.recorder.since < before.recorder.per_keyframe ==> {
            &&& after.outs() == before.outs()
            &&& after.recorder.since == before.recorder.since
        },
{
    if before.recorder.full_pending || before.recorder.since >= before.recorder.per_keyframe {
        assert(after.outs().drop_last() =~= before.outs());
    }
}

/// Recording that ends closes its file, which is the last that is heard of it; one that is dropped is
/// not closed.
pub proof fn law_recording_ends_once<C: EmulatorCore, T: MonotonicTimestampProvider>(
    before: SuperShuckieCore<C, T>,
    stopped: SuperShuckieCore<C, T>,
    dropped: SuperShuckieCore<C, T>,
)
    requires
        before.recording_stopped(stopped),
        before.recording_dropped(dropped),
    ensures
        !stopped.recorder.active,
        !dropped.recorder.active,
        stopped.core == before.core,
        dropped.core == before.core,
        before.recorder.active ==> {
            &&& stopped.outs() == before.outs().push(effects::Out::RecordClose)
            &&& dropped.outs() == before.outs().push(effects::Out::RecordDrop)
            &&& following::counters_of(stopped.playback.counters).len() == 0
        },
        !before.recorder.active ==> stopped.outs() == before.outs() && dropped.outs()
            == before.outs(),
{
    if before.recorder.active {
        assert(stopped.outs() =~= before.outs().push(effects::Out::RecordClose));
        assert(dropped.outs() =~= before.outs().push(effects::Out::RecordDrop));
    } else {
        assert(dropped.outs() =~= before.outs());
    }
}

/// A counter that is changed while recording is changed by that much, here and in the file, and no
/// other is.
pub proof fn law_counters_are_recorded<C: EmulatorCore, T: MonotonicTimestampProvider>(
    before: SuperShuckieCore<C, T>,
    after: SuperShuckieCore<C, T>,
    name: Seq<char>,
    delta: i64,
    other: Seq<char>,
)
    requires
        before.counter_told(after, name, delta),
        before.playback.counters is Some,
        i64::MIN <= packet::counter_value(
            following::counters_of(before.playback.counters),
            name,
        ) + delta <= i64::MAX,
        other != name,
    ensures
        packet::counter_value(following::counters_of(after.playback.counters), name)
            == packet::counter_value(following::counters_of(before.playback.counters), name)
            + delta,
        packet::counter_value(following::counters_of(after.playback.counters), other)
            == packet::counter_value(following::counters_of(before.playback.counters), other),
        after.outs().last() == (effects::Out::RecordCounter { name, delta }),
        before.together.publishing ==> after.outs()[after.outs().len() - 2] == (
        effects::Out::PublishCounter { name, delta }),
{
    packet::law_counters(following::counters_of(before.playback.counters), name, delta, other);
}

/// A replay that is let go of no longer drives the console; nothing of it is left, and nothing it
/// held stays pressed.
pub proof fn law_a_detached_replay_is_gone<C: EmulatorCore, T: MonotonicTimestampProvider>(
    before: SuperShuckieCore<C, T>,
    after: SuperShuckieCore<C, T>,
)
    requires
        before.player_detached(after),
        before.playback.player is Some,
    ensures
        after.playback.player is None,
        before.together.follower is None ==> !after.playing_back(),
        following::counters_of(after.playback.counters).len() == 0,
        !after.playback.stalled,
        after.input.next == Some(crate::emulator::input::Input::nothing()),
        !after.input.latched,
        after.core == before.core,
        after.timer == before.timer,
        after.runs.epoch != before.runs.epoch,
{
}

// ---------------------------------------------------------------------------------------------
// Resets and states.

/// A state that is loaded is what the console ends with: the frame drawn from it for the screens to
/// show something is undone by loading it again.
pub proof fn law_a_loaded_state_stays<C: EmulatorCore, T: MonotonicTimestampProvider>(
    before: SuperShuckieCore<C, T>,
    put: SuperShuckieCore<C, T>,
    after: SuperShuckieCore<C, T>,
    state: Seq<u8>,
)
    requires
        before.state_put(put, state),
        put.peeked(after, state) || put.state_told(after, state),
    ensures
        put.core.log().drop_last() == before.core.log(),
        put.core.log().last() matches CoreCall::LoadSaveState { state: given, .. } && given
            == state,
        after.core.log().last() matches CoreCall::LoadSaveState { state: given, .. } && given
            == state,
        !after.input.latched,
        put.runs.epoch != before.runs.epoch,
        before.audio.listening ==> put.outs().last() is ClearAudio,
{
    assert(put.core.log().drop_last() =~= before.core.log());
    if put.peeked(after, state) {
        lemma_peeked(put, after, state);
    }
}

proof fn lemma_peeked<C: EmulatorCore, T: MonotonicTimestampProvider>(
    put: SuperShuckieCore<C, T>,
    after: SuperShuckieCore<C, T>,
    state: Seq<u8>,
)
    requires
        put.peeked(after, state),
        put.core.log().len() > 0,
    ensures
        after.core.log().last() matches CoreCall::LoadSaveState { state: given, .. } && given
            == state,
        !after.input.latched,
        after.core.log().len() > 0,
{
}

/// A reset turns the console off and on, and nothing else; the user's input is given to it again.
pub proof fn law_a_reset_is_a_reset<C: EmulatorCore, T: MonotonicTimestampProvider>(
    before: SuperShuckieCore<C, T>,
    after: SuperShuckieCore<C, T>,
)
    requires
        before.console_reset(after),
    ensures
        after.core.log() == before.core.log().push(CoreCall::HardReset),
        after.timer == before.timer,
        after.runs.epoch != before.runs.epoch,
        !after.input.latched,
        before.audio.listening ==> after.outs().skip(before.outs().len() as int)[0] is ClearAudio,
{
    assert(after.core.log() =~= before.core.log().push(CoreCall::HardReset));
}

// ---------------------------------------------------------------------------------------------
// Playback.

/// Reading a frame of a replay moves the time on by what was recorded, and nothing more is read
/// until that frame has run.
pub proof fn law_playback_time_is_recorded_time<C: EmulatorCore, T: MonotonicTimestampProvider>(
    before: SuperShuckieCore<C, T>,
    after: SuperShuckieCore<C, T>,
    timestamp_delta: u64,
)
    requires
        before.packet_applied(after, packet::PacketModel::NextFrame { timestamp_delta }),
        before.timer.millis + timestamp_delta <= u64::MAX,
    ensures
        after.timer.millis == before.timer.millis + timestamp_delta,
        after.timer.frames == before.timer.frames,
        after.playback.frame_pending,
        after.reads_nothing(),
        after.core == before.core,
{
}

/// A change of speed in a replay is followed, unless those are ignored; it is remembered either way.
pub proof fn law_playback_speed_is_recorded_speed<
    C: EmulatorCore,
    T: MonotonicTimestampProvider,
>(before: SuperShuckieCore<C, T>, after: SuperShuckieCore<C, T>, speed: Speed)
    requires
        before.packet_applied(after, packet::PacketModel::ChangeSpeed { speed }),
    ensures
        after.playback.speed == speed,
        !before.playback.ignore_speed ==> after.audio.speed == speed && after.core.log().last() == (
        CoreCall::SetSpeed { speed }),
        before.playback.ignore_speed ==> after.audio.speed == before.audio.speed && after.core
            == before.core,
{
    let p = packet::PacketModel::ChangeSpeed { speed };
    let (done, wrote) = choose|done: SuperShuckieCore<C, T>, wrote: bool| #[trigger]
        before.packet_done(done, p, wrote) && done.mirrored(after, p, wrote);
    assert(after.core == done.core && after.audio == done.audio);
}

/// A counter a replay changes is changed by that much.
pub proof fn law_playback_counts<C: EmulatorCore, T: MonotonicTimestampProvider>(
    before: SuperShuckieCore<C, T>,
    after: SuperShuckieCore<C, T>,
    name: Seq<char>,
    delta: i64,
)
    requires
        before.packet_applied(after, packet::PacketModel::IncrementCounter { name, delta }),
        before.playback.counters is Some,
        i64::MIN <= packet::counter_value(
            following::counters_of(before.playback.counters),
            name,
        ) + delta <= i64::MAX,
    ensures
        packet::counter_value(following::counters_of(after.playback.counters), name)
            == packet::counter_value(following::counters_of(before.playback.counters), name)
            + delta,
        after.core == before.core,
{
    let p = packet::PacketModel::IncrementCounter { name, delta };
    let (done, wrote) = choose|done: SuperShuckieCore<C, T>, wrote: bool| #[trigger]
        before.packet_done(done, p, wrote) && done.mirrored(after, p, wrote);
    let other = name.push('x');
    assert(other.len() != name.len());
    packet::law_counters(following::counters_of(before.playback.counters), name, delta, other);
}

/// A keyframe that is passed changes nothing, unless the session resyncs: then its state is loaded,
/// with the console's own output buffers in it where both have them in the same places.
pub proof fn law_keyframes_in_passing<C: EmulatorCore, T: MonotonicTimestampProvider>(
    before: SuperShuckieCore<C, T>,
    after: SuperShuckieCore<C, T>,
    metadata: packet::KeyframeModel,
    state: Seq<u8>,
)
    requires
        before.packet_applied(after, packet::PacketModel::Keyframe { metadata, state }),
    ensures
        after.timer == before.timer,
        !before.playback.auto_resync ==> after.core == before.core,
        before.playback.auto_resync ==> {
            &&& after.core.log().drop_last() == before.core.log()
            &&& after.core.log().last() matches CoreCall::LoadSaveState { state: given, .. }
            &&& given.len() == state.len()
            &&& forall|i: int|
                0 <= i < state.len() && !playback::in_ranges(
                    before.core.regenerated(state),
                    i,
                ) ==> #[trigger] given[i] == state[i]
            &&& before.core.regenerated(state).len() == 0 ==> given == state
            &&& before.core.identity().console is Some && before.core.state().len() == state.len()
                && before.core.regenerated(before.core.state()) == before.core.regenerated(state)
                ==> forall|i: int|
                0 <= i < state.len() && playback::in_ranges(
                    before.core.regenerated(state),
                    i,
                ) ==> #[trigger] given[i] == before.core.state()[i]
        },
{
    let p = packet::PacketModel::Keyframe { metadata, state };
    let (done, wrote) = choose|done: SuperShuckieCore<C, T>, wrote: bool| #[trigger]
        before.packet_done(done, p, wrote) && done.mirrored(after, p, wrote);
    if before.playback.auto_resync {
        assert(after.core.log().drop_last() =~= before.core.log());
        assert(forall|i: int|
            playback::in_ranges(before.core.regenerated(state), i)
                ==> before.core.regenerated(state).len() > 0);
    }
}

/// A write that a replay cannot make any more is passed over and counted; one it can make is not.
pub proof fn law_failed_writes_are_counted<C: EmulatorCore, T: MonotonicTimestampProvider>(
    before: SuperShuckieCore<C, T>,
    after: SuperShuckieCore<C, T>,
    address: u64,
    data: Seq<u8>,
)
    requires
        before.packet_applied(after, packet::PacketModel::WriteMemory { address, data }),
        before.playback.write_failures < u64::MAX,
    ensures
        address > u32::MAX ==> after.core == before.core && after.playback.write_failures
            == before.playback.write_failures + 1,
        address <= u32::MAX ==> (after.core.log().last() matches CoreCall::WriteRam { written, .. }
            && after.playback.write_failures == before.playback.write_failures + (if written {
            0int
        } else {
            1int
        })),
        !after.playback.stalled || before.playback.stalled,
{
    let p = packet::PacketModel::WriteMemory { address, data };
    let (done, wrote) = choose|done: SuperShuckieCore<C, T>, wrote: bool| #[trigger]
        before.packet_done(done, p, wrote) && done.mirrored(after, p, wrote);
}

/// Whether there is an event that a frame does not end with.
pub open spec fn passed_over(event: Option<packet::PacketModel>) -> bool {
    event is Some && !(event->Some_0 is NextFrame)
}

/// Before each frame exactly that frame's part of the replay is read: everything up to the end of
/// the next frame, and nothing behind it; where the replay ends or cannot be read, it stalls.
#[verifier::spinoff_prover]
#[verifier::rlimit(40)]
pub proof fn law_a_frame_at_a_time_is_read<C: EmulatorCore, T: MonotonicTimestampProvider>(
    before: SuperShuckieCore<C, T>,
    after: SuperShuckieCore<C, T>,
    from: ReplayFilePlayer,
)
    requires
        before.file_handled(after),
        before.playback.player == Some(from),
    ensures
        after.playback.player matches Some(q) && {
            &&& q.slots == from.slots
            &&& q.cursor >= from.cursor
            &&& if after.playback.frame_pending && !after.playback.stalled {
                &&& from.event_at(q.cursor - 1) matches Some(p)
                &&& p is NextFrame
                &&& forall|i: int|
                    from.cursor <= i < q.cursor - 1 ==> passed_over(#[trigger] from.event_at(i))
            } else {
                before.playback.stalled || before.playback.frame_pending || (
                after.playback.stalled && from.event_at(q.cursor as int) is None && forall|i: int|
                    from.cursor <= i < q.cursor ==> passed_over(#[trigger] from.event_at(i)))
            }
        },
{
    let steps = choose|steps: Seq<SuperShuckieCore<C, T>>| #[trigger]
        before.played(after, from, steps);
    let n = steps.len() - 1;
    lemma_passed(before, after, from, steps, n as nat);
    assert forall|i: int| from.cursor <= i < from.cursor + n implies passed_over(
        #[trigger] from.event_at(i),
    ) by {
        let k = i - from.cursor;
        let j = k + 1;
        assert(steps[k].passes(steps[j], from, from.cursor + k));
    }
    if let Some(p) = from.event_at(from.cursor + n) {
        assert(from.cursor + n < from.slots.len());
        let done = choose|done: SuperShuckieCore<C, T>| #[trigger]
            steps.last().packet_applied(done, p) && after == (SuperShuckieCore {
                playback: super::state::PlaybackState {
                    player: Some(
                        ReplayFilePlayer { cursor: (from.cursor + n + 1) as usize, ..from },
                    ),
                    ..done.playback
                },
                ..done
            });
        lemma_stall_kept(steps.last(), done, p);
    }
}

proof fn lemma_stall_kept<C: EmulatorCore, T: MonotonicTimestampProvider>(
    before: SuperShuckieCore<C, T>,
    after: SuperShuckieCore<C, T>,
    p: packet::PacketModel,
)
    requires
        before.packet_applied(after, p),
    ensures
        after.playback.stalled == before.playback.stalled,
        after.playback.frame_pending == (before.playback.frame_pending || p is NextFrame),
{
    let (done, wrote) = choose|done: SuperShuckieCore<C, T>, wrote: bool| #[trigger]
        before.packet_done(done, p, wrote) && done.mirrored(after, p, wrote);
}

proof fn lemma_passed<C: EmulatorCore, T: MonotonicTimestampProvider>(
    before: SuperShuckieCore<C, T>,
    after: SuperShuckieCore<C, T>,
    from: ReplayFilePlayer,
    steps: Seq<SuperShuckieCore<C, T>>,
    n: nat,
)
    requires
        before.played(after, from, steps),
        n < steps.len(),
    ensures
        steps[n as int].playback.stalled == before.playback.stalled,
        steps[n as int].playback.frame_pending == before.playback.frame_pending,
    decreases n,
{
    if n > 0 {
        lemma_passed(before, after, from, steps, (n - 1) as nat);
        let i = n - 1;
        let j = n as int;
        assert(steps[i].passes(steps[j], from, from.cursor + i));
        lemma_stall_kept(steps[i], steps[j], from.event_at(from.cursor + i)->Some_0);
    }
}

// ---------------------------------------------------------------------------------------------
// Speed and sound.

/// The speed that is set is the speed the console runs at, the one that is recorded, and the one
/// whoever listens is told.
pub proof fn law_the_speed_set_is_the_speed_run<C: EmulatorCore, T: MonotonicTimestampProvider>(
    before: SuperShuckieCore<C, T>,
    after: SuperShuckieCore<C, T>,
    speed: Speed,
)
    requires
        before.speed_set(after, speed),
    ensures
        after.core.log() == before.core.log().push(CoreCall::SetSpeed { speed }),
        after.audio.speed == speed,
        before.recorder.active ==> after.outs().skip(before.outs().len() as int).contains(
            effects::Out::RecordSpeed { speed },
        ),
        before.audio.listening ==> after.outs().skip(before.outs().len() as int).contains(
            effects::Out::AudioSpeed { speed },
        ),
        driving::input_in_force(after.core.log()) == driving::input_in_force(before.core.log()),
        1 <= after.audio.present_every,
        after.audio.present_every * 256 <= speed.units || after.audio.present_every == 1,
        speed.units < (after.audio.present_every + 1) * 256,
{
    assert(after.core.log() =~= before.core.log().push(CoreCall::SetSpeed { speed }));
    assert(after.core.log().drop_last() =~= before.core.log());
    let told = after.outs().skip(before.outs().len() as int);
    if before.recorder.active {
        assert(told[0] == (effects::Out::RecordSpeed { speed }));
        if before.audio.listening {
            assert(told[1] == (effects::Out::AudioSpeed { speed }));
        }
    } else if before.audio.listening {
        assert(told[0] == (effects::Out::AudioSpeed { speed }));
    }
}

/// What a run sounded like is heard as it was made if somebody listens and the run is meant to be
/// heard, at the console's own speed or with sped-up sound not muted; otherwise it is thrown away,
/// and it is taken from the console in either case.
pub proof fn law_what_is_heard<C: EmulatorCore, T: MonotonicTimestampProvider>(
    before: SuperShuckieCore<C, T>,
    after: SuperShuckieCore<C, T>,
    audible: bool,
)
    requires
        before.audio_drained(after, audible),
        before.audio.enabled,
    ensures
        after.core.log().drop_last() == before.core.log(),
        after.core.log().last() is TakeAudio,
        before.audio.listening && audible && before.audio.speed.units == 256 ==> after.outs()
            == before.outs().push(
            effects::Out::PlayAudio { samples: after.core.log().last()->TakeAudio_samples },
        ),
        before.audio.listening && audible && !before.audio.mute_when_sped_up ==> after.outs()
            == before.outs().push(
            effects::Out::PlayAudio { samples: after.core.log().last()->TakeAudio_samples },
        ),
        !before.audio.listening || !audible ==> after.outs() == before.outs(),
        before.audio.mute_when_sped_up && before.audio.speed.units != 256 ==> after.outs()
            == before.outs(),
{
    assert(after.core.log().drop_last() =~= before.core.log());
    let samples = after.core.log().last()->TakeAudio_samples;
    if after.outs().len() > before.outs().len() {
        assert(after.outs() =~= before.outs().push(effects::Out::PlayAudio { samples }));
    } else {
        assert(after.outs() =~= before.outs());
    }
}

/// Only Game Boys make their sped-up sound themselves; every other console's is scaled by whoever
/// plays it.
pub proof fn law_whose_pitch_is_scaled<C: EmulatorCore, T: MonotonicTimestampProvider>(
    console: Option<crate::replay::player::ReplayConsoleType>,
)
    ensures
        SuperShuckieCore::<C, T>::scales_pitch(console) <==> crate::play_together::cable::family(
            console,
        ) != crate::play_together::cable::family(
            Some(crate::replay::player::ReplayConsoleType::GameBoy),
        ),
{
}

/// A run that completes frames moves everything on by as many: the cable's frame and the partner's,
/// which are to be prepared anew, the keyframe interval, and what a follower counts; the next frame
/// reads the replay and the user's input again.
pub proof fn law_completed_frames_move_everything_on<
    C: EmulatorCore,
    T: MonotonicTimestampProvider,
>(session: SuperShuckieCore<C, T>, time: RunTime)
    requires
        time.frames > 0,
        session.timer.frames + time.frames <= u64::MAX,
        session.recorder.since + time.frames <= u64::MAX,
    ensures
        ({
            let after = session.with_frames(time);
            &&& after.timer.frames == session.timer.frames + time.frames
            &&& after.recorder.since == session.recorder.since + time.frames
            &&& !after.playback.frame_pending
            &&& !after.input.latched
            &&& session.together.link matches Some(l) ==> (after.together.link matches Some(m)
                && !m.frame_prepared && m.next_send_frame == l.next_send_frame && (l.frame
                + time.frames <= u64::MAX ==> m.frame == l.frame + time.frames))
            &&& session.together.partner matches Some(p) ==> (after.together.partner matches Some(q)
                && !q.frame_prepared && (p.frame + time.frames <= u64::MAX ==> q.frame == p.frame
                + time.frames))
            &&& session.together.follower matches Some(f) ==> (after.together.follower matches Some(
                g,
            ) && (f.source.stats.emulated_frames + time.frames <= u64::MAX
                ==> g.source.stats.emulated_frames == f.source.stats.emulated_frames + time.frames)
                && (f.source.stats.drawn_frames < u64::MAX ==> g.source.stats.drawn_frames
                == f.source.stats.drawn_frames + (if time.presented {
                1int
            } else {
                0
            })))
            &&& session.together.link is None ==> after.together.link is None
            &&& session.together.partner is None ==> after.together.partner is None
        }),
{
}

/// Where a replay is: at the frame and time it plays, or, while it is stopped, where it resumes;
/// nowhere without one.
pub proof fn law_where_a_replay_is<C: EmulatorCore, T: MonotonicTimestampProvider>(
    session: SuperShuckieCore<C, T>,
)
    ensures
        session.playback.player is None ==> session.position() == (0u64, 0u64),
        session.playback.player is Some && session.playback.stopped ==> session.position()
            == session.playback.resume_point,
        session.playback.player is Some && !session.playback.stopped ==> session.position() == (
            session.timer.frames,
            session.timer.millis,
        ),
        session.playing_back() ==> !session.playback.stopped || session.together.follower is Some,
{
}

/// A file's time starts with the file: it is the session's time less the time the file was begun at.
pub proof fn law_a_files_time<C: EmulatorCore, T: MonotonicTimestampProvider>(
    session: SuperShuckieCore<C, T>,
)
    requires
        session.timer.origin <= session.timer.millis,
    ensures
        session.file_millis() == session.timer.millis - session.timer.origin,
{
}

/// Whenever memory is replaced wholesale, by a reset, a loaded state or a snapshot, the tools are
/// told: the epoch is another one.
pub proof fn law_replaced_memory_is_told<C: EmulatorCore, T: MonotonicTimestampProvider>(
    before: SuperShuckieCore<C, T>,
    after: SuperShuckieCore<C, T>,
    state: Seq<u8>,
    metadata: packet::KeyframeModel,
    wrote: bool,
)
    ensures
        before.console_reset(after) ==> after.runs.epoch != before.runs.epoch,
        before.packet_done(after, packet::PacketModel::ResetConsole, wrote) ==> after.runs.epoch
            != before.runs.epoch,
        before.packet_done(after, packet::PacketModel::LoadSaveState { state }, wrote)
            ==> after.runs.epoch != before.runs.epoch,
        before.at_snapshot(after, metadata) ==> after.runs.epoch != before.runs.epoch,
        before.let_go(after) ==> after.runs.epoch != before.runs.epoch,
{
}

/// A frame that is finished is not in the middle of one any more, unless the replay has run out.
pub proof fn law_a_finished_frame_is_whole<C: EmulatorCore, T: MonotonicTimestampProvider>(
    before: SuperShuckieCore<C, T>,
    after: SuperShuckieCore<C, T>,
    steps: Seq<SuperShuckieCore<C, T>>,
)
    requires
        before.frame_finished_in(after, steps),
        steps.len() <= u64::MAX,
    ensures
        !after.core.mid_frame() || after.playback.stalled,
        !before.core.mid_frame() ==> after == before,
{
    if !before.core.mid_frame() && steps.len() > 1 {
        assert(steps[0].runs_on(steps[1]));
    }
}

/// A new session stands at the beginning: no time has passed, nothing is recorded, played, pressed
/// or joined, everything runs at its normal speed, and every frame is drawn.
pub proof fn law_a_new_session<C: EmulatorCore, T: MonotonicTimestampProvider>(
    session: SuperShuckieCore<C, T>,
)
    requires
        session.fresh(),
    ensures
        session.position() == (0u64, 0u64),
        session.file_millis() == 0,
        !session.playing_back(),
        session.pending_input() == Input::nothing(),
        !session.recorder.active && !session.together.publishing,
        session.recorder.since == 0 && session.recorder.per_keyframe == 0
            && !session.recorder.full_pending,
        !session.playback.ignore_speed && !session.playback.auto_resync,
        !session.playback.stalled && !session.playback.waiting && !session.playback.stopped,
        !session.together.holding && !session.together.snapshot_due,
        session.writes@.len() == 0,
        session.outs().len() == 0,
        session.playback.speed.units == packet::NORMAL_SPEED,
        session.audio.speed.units == packet::NORMAL_SPEED,
        session.timer.frames == 0,
        session.audio.present_every == 1 && session.audio.mute_when_sped_up,
        !session.audio.listening && !session.audio.enabled,
        session.together.link is None && session.together.partner is None
            && session.together.follower is None,
        session.runs.serial == 0 && session.runs.epoch == 0,
        session.runs.last.frames == 0 && !session.runs.last.presented,
        session.playback.write_failures == 0,
        session.timer.paused_at is None,
{
}

} // verus!
