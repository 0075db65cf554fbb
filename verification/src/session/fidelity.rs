//! What playback owes to recording.
//!
//! A replay is what was asked of the console, frame by frame: whatever changes the console while a
//! session is recorded goes into the recording, and playing the recording back asks the same of the
//! console again. Whoever follows a session that is published is told the same.

use super::effects;
use super::running;
use super::state;
use super::state::{MonotonicTimestampProvider, SuperShuckieCore};
use crate::emulator::console::{CoreCall, EmulatorCore, RunTime};
use crate::replay::packet;
use vstd::prelude::*;

verus! {

/// The packet that stands in a replay (or in what a follower receives) for something recorded (or
/// published) that changes the console.
pub open spec fn packet_of(out: effects::Out) -> Option<packet::PacketModel> {
    match out {
        effects::Out::RecordInput { data } => Some(packet::PacketModel::ChangeInput { data }),
        effects::Out::RecordWrite { address, data } => Some(
            packet::PacketModel::WriteMemory { address, data },
        ),
        effects::Out::RecordReset => Some(packet::PacketModel::ResetConsole),
        effects::Out::RecordState { state } => Some(packet::PacketModel::LoadSaveState { state }),
        effects::Out::RecordSerialIn { data } => Some(packet::PacketModel::SerialIn { data }),
        effects::Out::PublishInput { data } => Some(packet::PacketModel::ChangeInput { data }),
        effects::Out::PublishWrite { address, data } => Some(
            packet::PacketModel::WriteMemory { address, data },
        ),
        effects::Out::PublishReset => Some(packet::PacketModel::ResetConsole),
        effects::Out::PublishState { state } => Some(packet::PacketModel::LoadSaveState { state }),
        effects::Out::PublishSerialIn { data } => Some(packet::PacketModel::SerialIn { data }),
        _ => None,
    }
}

/// Whether a call asks of the console what was recorded or published.
pub open spec fn asks(out: effects::Out, call: CoreCall) -> bool {
    match (out, call) {
        (effects::Out::RecordInput { data }, CoreCall::SetInput { data: given }) => given == data,
        (
            effects::Out::RecordWrite { address, data },
            CoreCall::WriteRam { address: at, data: given, .. },
        ) => at == address && given == data,
        (effects::Out::RecordReset, CoreCall::HardReset) => true,
        (effects::Out::RecordState { state }, CoreCall::LoadSaveState { state: given, .. }) => given
            == state,
        (effects::Out::RecordSerialIn { data }, CoreCall::QueueSerialIn { data: given, .. }) => given
            == data,
        (effects::Out::PublishInput { data }, CoreCall::SetInput { data: given }) => given == data,
        (
            effects::Out::PublishWrite { address, data },
            CoreCall::WriteRam { address: at, data: given, .. },
        ) => at == address && given == data,
        (effects::Out::PublishReset, CoreCall::HardReset) => true,
        (effects::Out::PublishState { state }, CoreCall::LoadSaveState { state: given, .. }) => given
            == state,
        (effects::Out::PublishSerialIn { data }, CoreCall::QueueSerialIn { data: given, .. }) => given
            == data,
        _ => false,
    }
}

/// Playing back something recorded (or following something published) asks exactly that of the
/// console: nothing else and nothing more.
/// (Memory is recorded by addresses a console has, and what came over a cable only with a port.)
pub proof fn law_playback_asks_what_was_recorded<C: EmulatorCore, T: MonotonicTimestampProvider>(
    out: effects::Out,
    p: packet::PacketModel,
    before: SuperShuckieCore<C, T>,
    after: SuperShuckieCore<C, T>,
)
    requires
        packet_of(out) == Some(p),
        out matches effects::Out::RecordWrite { address, .. } ==> address <= u32::MAX,
        out matches effects::Out::PublishWrite { address, .. } ==> address <= u32::MAX,
        out is RecordSerialIn || out is PublishSerialIn ==> before.core.identity().has_link_port,
        before.packet_applied(after, p),
    ensures
        after.core.log().len() == before.core.log().len() + 1,
        after.core.log().drop_last() == before.core.log(),
        asks(out, after.core.log().last()),
{
    let (done, wrote) = choose|done: SuperShuckieCore<C, T>, wrote: bool| #[trigger]
        before.packet_done(done, p, wrote) && done.mirrored(after, p, wrote);
    assert(after.core == done.core);
    assert(after.core.log().drop_last() =~= before.core.log());
}

/// While a session is recorded, the input the console is given is the input that is recorded.
pub proof fn law_applied_input_is_recorded<C: EmulatorCore, T: MonotonicTimestampProvider>(
    before: SuperShuckieCore<C, T>,
    after: SuperShuckieCore<C, T>,
)
    requires
        before.recorder.active,
        before.input_updated(after),
        after.core.log() != before.core.log(),
    ensures
        after.core.log().drop_last() == before.core.log(),
        after.outs().last() is RecordInput,
        asks(after.outs().last(), after.core.log().last()),
{
    assert(after.core.log().drop_last() =~= before.core.log());
}

/// While a session is recorded, a reset of the console is recorded as one.
pub proof fn law_resets_are_recorded<C: EmulatorCore, T: MonotonicTimestampProvider>(
    before: SuperShuckieCore<C, T>,
    after: SuperShuckieCore<C, T>,
)
    requires
        before.recorder.active,
        before.console_reset(after),
    ensures
        after.core.log().drop_last() == before.core.log(),
        after.outs().last() is RecordReset,
        asks(after.outs().last(), after.core.log().last()),
{
    assert(after.core.log().drop_last() =~= before.core.log());
}

/// While a session is recorded, a state the console is given is recorded with it.
pub proof fn law_loaded_states_are_recorded<C: EmulatorCore, T: MonotonicTimestampProvider>(
    before: SuperShuckieCore<C, T>,
    put: SuperShuckieCore<C, T>,
    after: SuperShuckieCore<C, T>,
    state: Seq<u8>,
)
    requires
        before.recorder.active,
        before.state_put(put, state),
        put.state_told(after, state),
    ensures
        after.core.log().drop_last() == before.core.log(),
        after.outs().last() is RecordState,
        asks(after.outs().last(), after.core.log().last()),
{
    assert(after.core.log().drop_last() =~= before.core.log());
}

/// While a session is recorded, each write the console took is recorded, and none it refused.
pub proof fn law_taken_writes_are_recorded<C: EmulatorCore, T: MonotonicTimestampProvider>(
    before: SuperShuckieCore<C, T>,
    after: SuperShuckieCore<C, T>,
    written: Seq<bool>,
    i: int,
)
    requires
        before.recorder.active,
        before.writes_applied(after, written),
        0 <= i < written.len(),
    ensures
        ({
            let write = before.waiting_writes()[i];
            let call = after.core.log()[before.core.log().len() + i];
            let recorded = effects::Out::RecordWrite {
                address: write.address as u64,
                data: write.data,
            };
            &&& call == (CoreCall::WriteRam {
                address: write.address,
                data: write.data,
                written: written[i],
            })
            &&& asks(recorded, call)
            &&& written[i] ==> after.outs().skip(before.outs().len() as int).contains(recorded)
        }),
        kept(after.outs().skip(before.outs().len() as int)).len() == taken(written, written.len()),
{
    let writes = before.waiting_writes();
    let publishing = before.together.publishing;
    lemma_calls(writes, written, writes.len(), i);
    lemma_records(writes, written, publishing, writes.len(), i);
    assert(after.outs().skip(before.outs().len() as int) =~= running::write_records(
        writes,
        written,
        publishing,
        true,
        writes.len(),
    ));
}

/// How many of the first `n` writes were taken.
pub open spec fn taken(written: Seq<bool>, n: nat) -> nat
    decreases n,
{
    if n == 0 {
        0
    } else if written[n - 1] {
        taken(written, (n - 1) as nat) + 1
    } else {
        taken(written, (n - 1) as nat)
    }
}

proof fn lemma_calls(writes: Seq<state::WriteModel>, written: Seq<bool>, n: nat, i: int)
    requires
        n <= writes.len(),
    ensures
        running::write_calls(writes, written, n).len() == n,
        0 <= i < n ==> running::write_calls(writes, written, n)[i] == (CoreCall::WriteRam {
            address: writes[i].address,
            data: writes[i].data,
            written: written[i],
        }),
    decreases n,
{
    if n > 0 {
        lemma_calls(writes, written, (n - 1) as nat, i);
    }
}

proof fn lemma_records(
    writes: Seq<state::WriteModel>,
    written: Seq<bool>,
    publishing: bool,
    n: nat,
    i: int,
)
    requires
        n <= writes.len(),
    ensures
        ({
            let outs = running::write_records(writes, written, publishing, true, n);
            &&& kept(outs).len() == taken(written, n)
            &&& publishing ==> heard(outs) == kept(outs)
            &&& 0 <= i < n && written[i] ==> outs.contains(
                effects::Out::RecordWrite {
                    address: writes[i].address as u64,
                    data: writes[i].data,
                },
            )
        }),
    decreases n,
{
    if n > 0 {
        let address = writes[n - 1].address as u64;
        let data = writes[n - 1].data;
        let publish = effects::Out::PublishWrite { address, data };
        let record = effects::Out::RecordWrite { address, data };
        let rest = running::write_records(writes, written, publishing, true, (n - 1) as nat);
        let all = running::write_records(writes, written, publishing, true, n);
        lemma_records(writes, written, publishing, (n - 1) as nat, i);
        lemma_told(rest, publishing && written[n - 1], publish, written[n - 1], record);
        if 0 <= i < n && written[i] {
            let recorded = effects::Out::RecordWrite {
                address: writes[i].address as u64,
                data: writes[i].data,
            };
            if i == n - 1 {
                assert(all.last() == recorded);
            } else {
                let k = choose|k: int| 0 <= k < rest.len() && rest[k] == recorded;
                assert(all[k] == recorded);
            }
        }
    }
}

// ---------------------------------------------------------------------------------------------
// What followers are told.

/// What stands in a file for something followers are told.
pub open spec fn recorded_as(out: effects::Out) -> Option<effects::Out> {
    match out {
        effects::Out::PublishFrame { millis } => Some(effects::Out::RecordFrame { millis }),
        effects::Out::PublishInput { data } => Some(effects::Out::RecordInput { data }),
        effects::Out::PublishWrite { address, data } => Some(
            effects::Out::RecordWrite { address, data },
        ),
        effects::Out::PublishReset => Some(effects::Out::RecordReset),
        effects::Out::PublishState { state } => Some(effects::Out::RecordState { state }),
        effects::Out::PublishCounter { name, delta } => Some(
            effects::Out::RecordCounter { name, delta },
        ),
        effects::Out::PublishSerialIn { data } => Some(effects::Out::RecordSerialIn { data }),
        _ => None,
    }
}

/// Whether something that goes into a file is something followers are told of.
pub open spec fn reproduces(out: effects::Out) -> bool {
    match out {
        effects::Out::RecordFrame { .. } => true,
        effects::Out::RecordInput { .. } => true,
        effects::Out::RecordWrite { .. } => true,
        effects::Out::RecordReset => true,
        effects::Out::RecordState { .. } => true,
        effects::Out::RecordCounter { .. } => true,
        effects::Out::RecordSerialIn { .. } => true,
        _ => false,
    }
}

/// What followers are told, as it would stand in a file.
pub open spec fn heard(outs: Seq<effects::Out>) -> Seq<effects::Out>
    decreases outs.len(),
{
    if outs.len() == 0 {
        Seq::empty()
    } else {
        match recorded_as(outs.last()) {
            Some(out) => heard(outs.drop_last()).push(out),
            None => heard(outs.drop_last()),
        }
    }
}

/// What goes into a file of what followers are told of.
pub open spec fn kept(outs: Seq<effects::Out>) -> Seq<effects::Out>
    decreases outs.len(),
{
    if outs.len() == 0 {
        Seq::empty()
    } else if reproduces(outs.last()) {
        kept(outs.drop_last()).push(outs.last())
    } else {
        kept(outs.drop_last())
    }
}

/// Something added to what followers are told and to the file.
proof fn lemma_told(
    rest: Seq<effects::Out>,
    publishing: bool,
    publish: effects::Out,
    recording: bool,
    record: effects::Out,
)
    requires
        recorded_as(publish) == Some(record),
    ensures
        ({
            let all = rest + effects::only_if(publishing, publish) + effects::only_if(
                recording,
                record,
            );
            &&& heard(all) == (if publishing {
                heard(rest).push(record)
            } else {
                heard(rest)
            })
            &&& kept(all) == (if recording {
                kept(rest).push(record)
            } else {
                kept(rest)
            })
        }),
{
    assert(reproduces(record) && recorded_as(record) is None && !reproduces(publish));
    let published = rest + effects::only_if(publishing, publish);
    let all = published + effects::only_if(recording, record);
    if publishing {
        assert(published.drop_last() =~= rest);
        assert(published.last() == publish);
        assert(heard(published) == heard(rest).push(record));
    } else {
        assert(published =~= rest);
    }
    assert(kept(published) == kept(rest));
    if recording {
        assert(all.drop_last() =~= published);
        assert(all.last() == record);
    } else {
        assert(all =~= published);
    }
}

proof fn lemma_frames(millis: u64, first: Seq<effects::Out>, n: nat)
    requires
        heard(first) == kept(first),
    ensures
        ({
            let all = first + running::frame_records(true, true, millis, n);
            heard(all) == kept(all)
        }),
    decreases n,
{
    let frames = running::frame_records(true, true, millis, n);
    if n == 0 {
        assert(first + frames =~= first);
    } else {
        let rest = running::frame_records(true, true, millis, (n - 1) as nat);
        let publish = effects::Out::PublishFrame { millis };
        let record = effects::Out::RecordFrame { millis };
        lemma_frames(millis, first, (n - 1) as nat);
        lemma_told(first + rest, true, publish, true, record);
        assert(first + frames =~= first + rest + effects::only_if(true, publish)
            + effects::only_if(true, record));
    }
}

/// Whoever follows a session is told everything that reproduces it, in order, and nothing else: what
/// goes into the file being recorded meanwhile, apart from speed changes, marks and keyframes. This
/// holds of the input of a frame, of writes, of resets and loaded states, of counters, and of the
/// frames themselves with what came over the cable during them.
pub proof fn law_followers_are_told_what_is_recorded<
    C: EmulatorCore,
    T: MonotonicTimestampProvider,
>(
    before: SuperShuckieCore<C, T>,
    after: SuperShuckieCore<C, T>,
    written: Seq<bool>,
    state: Seq<u8>,
    name: Seq<char>,
    delta: i64,
    time: RunTime,
)
    requires
        before.recorder.active,
        before.together.publishing,
        ({
            ||| before.input_updated(after)
            ||| before.writes_applied(after, written)
            ||| before.console_reset(after)
            ||| before.state_told(after, state)
            ||| before.counter_told(after, name, delta)
            ||| !before.playing_back() && before.timekept(after, time)
        }),
    ensures
        ({
            let told = after.outs().skip(before.outs().len() as int);
            heard(told) == kept(told)
        }),
{
    let told = after.outs().skip(before.outs().len() as int);
    let none = Seq::<effects::Out>::empty();
    if before.input_updated(after) {
        let data = before.core.encoded(before.pending_input());
        let publish = effects::Out::PublishInput { data };
        let record = effects::Out::RecordInput { data };
        lemma_told(none, true, publish, true, record);
        assert(told =~= none || told =~= none + effects::only_if(true, publish)
            + effects::only_if(true, record));
    } else if before.writes_applied(after, written) {
        let writes = before.waiting_writes();
        lemma_records(writes, written, true, writes.len(), -1);
        assert(told =~= running::write_records(writes, written, true, true, writes.len()));
    } else if before.console_reset(after) {
        let first = effects::only_if(before.audio.listening, effects::Out::ClearAudio);
        lemma_neither(first);
        lemma_told(first, true, effects::Out::PublishReset, true, effects::Out::RecordReset);
        assert(told =~= first + effects::only_if(true, effects::Out::PublishReset)
            + effects::only_if(true, effects::Out::RecordReset));
    } else if before.state_told(after, state) {
        let publish = effects::Out::PublishState { state };
        let record = effects::Out::RecordState { state };
        lemma_told(none, true, publish, true, record);
        assert(told =~= none + effects::only_if(true, publish) + effects::only_if(true, record));
    } else if before.counter_told(after, name, delta) {
        let publish = effects::Out::PublishCounter { name, delta };
        let record = effects::Out::RecordCounter { name, delta };
        lemma_told(none, true, publish, true, record);
        assert(told =~= none + effects::only_if(true, publish) + effects::only_if(true, record));
    } else if time.frames > 0 {
        let serial = match after.core.log().last() {
            CoreCall::TakeSerialIn { data } => data,
            _ => Seq::empty(),
        };
        let received = before.core.identity().has_link_port && serial.len() > 0;
        let publish = effects::Out::PublishSerialIn { data: serial };
        let record = effects::Out::RecordSerialIn { data: serial };
        let first = none + effects::only_if(received, publish) + effects::only_if(received, record);
        lemma_told(none, received, publish, received, record);
        lemma_frames(after.timer.millis, first, time.frames as nat);
        assert(told =~= first + running::frame_records(
            true,
            true,
            after.timer.millis,
            time.frames as nat,
        ));
    } else {
        assert(told =~= none);
    }
}

proof fn lemma_neither(first: Seq<effects::Out>)
    requires
        first.len() <= 1,
        first.len() == 1 ==> recorded_as(first[0]) is None && !reproduces(first[0]),
    ensures
        heard(first) == kept(first),
{
    if first.len() == 1 {
        assert(first.drop_last() =~= Seq::<effects::Out>::empty());
        assert(heard(first.drop_last()) =~= kept(first.drop_last()));
    }
}

/// Listening to a run changes nothing but what is heard: the console is as it was, and so is
/// everything that is recorded.
pub proof fn law_sound_never_touches_the_game<C: EmulatorCore, T: MonotonicTimestampProvider>(
    before: SuperShuckieCore<C, T>,
    after: SuperShuckieCore<C, T>,
    audible: bool,
)
    requires
        before.audio_drained(after, audible),
    ensures
        after.core.state() == before.core.state(),
        after.core.pictures() == before.core.pictures(),
        after == (SuperShuckieCore { core: after.core, effects: after.effects, ..before }),
        after.outs() == before.outs() || (after.outs().drop_last() == before.outs()
            && after.outs().last() is PlayAudio),
{
    if after.outs() != before.outs() {
        assert(after.outs().drop_last() =~= before.outs());
    }
}

/// Below twice the console's own speed every paced frame is drawn; from there on one in as many as
/// the speed says, however many those are.
pub proof fn law_one_frame_in_so_many_is_drawn<C: EmulatorCore, T: MonotonicTimestampProvider>(
    session: SuperShuckieCore<C, T>,
)
    requires
        session.audio.present_every == packet::drawn_every(session.audio.speed),
    ensures
        ({
            let times = session.audio.speed.units / packet::NORMAL_SPEED;
            &&& times < 2 ==> session.audio.present_every == 1 && !session.skips_drawing()
            &&& times >= 2 ==> session.audio.present_every == times
            &&& times >= 2 && !session.core.mid_frame() ==> (session.skips_drawing()
                <==> session.timer.frames % (times as u64) != 0)
            &&& session.timer.frames % session.audio.present_every == 0
                ==> !session.skips_drawing()
        }),
{
}

/// A seek ends exactly at the frame that was asked for, and that frame is drawn: of a console that
/// emulates at most a frame per run, in a replay that can be read that far.
pub proof fn law_seeks_end_at_the_frame<C: EmulatorCore, T: MonotonicTimestampProvider>(
    loaded: SuperShuckieCore<C, T>,
    after: SuperShuckieCore<C, T>,
    last: u64,
    steps: Seq<SuperShuckieCore<C, T>>,
)
    requires
        loaded.seek_ran(after, last, steps),
        loaded.timer.frames <= last,
        forall|i: int, j: int|
            0 <= i && j == i + 1 && j < steps.len() ==> (#[trigger] steps[j]).timer.frames <= (
            #[trigger] steps[i]).timer.frames + 1,
        !after.playback.stalled,
        steps.len() <= u64::MAX,
    ensures
        after.timer.frames == last + 1,
        exists|drawn: SuperShuckieCore<C, T>| #[trigger]
            drawn.ran_drawing(after, false, true, false) && drawn.timer.frames == last,
{
    let n = steps.len() as int;
    assert(!after.short_of(last));
    assert(n >= 2);
    let at = steps[n - 2];
    assert(at.seeks_on(steps[n - 1], last));
    assert(steps[n - 1].timer.frames <= at.timer.frames + 1);
    assert(at.ran_drawing(after, at.timer.frames < last, true, false));
}

/// The frame a replay was stopped at, and its time there, are where it resumes from; the game goes
/// on from the same frame.
pub proof fn law_stopping_keeps_the_place<C: EmulatorCore, T: MonotonicTimestampProvider>(
    before: SuperShuckieCore<C, T>,
    after: SuperShuckieCore<C, T>,
)
    requires
        before.stops_playback(after, true),
    ensures
        after.playback.resume_point == (before.timer.frames, before.timer.millis),
        after.timer.frames == before.timer.frames,
        after.playback.player == before.playback.player,
        after.core == before.core,
        !after.playback.stalled,
        after.position() == (before.timer.frames, before.timer.millis),
{
}

} // verus!
