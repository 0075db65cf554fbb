//! What the two consoles of a pair, and whoever writes into a running game, can rely on: whose turn
//! it is, what each turn asks of which console, and where a write ends up.

use super::pairs::PairState;
use super::state;
use super::state::{MonotonicTimestampProvider, SuperShuckieCore};
use crate::emulator::console::{CoreCall, EmulatorCore, RunTime};
use crate::emulator::link;
use crate::play_together::cable;
use crate::play_together::cable::{LinkFailure, LinkFrame};
use crate::replay::packet;
use crate::session::effects;
use vstd::prelude::*;

verus! {

// ---------------------------------------------------------------------------------------------
// Whose turn it is.

/// The console that steps is awake and not ahead of the other one in its own time, unless that one
/// sleeps; at the same time it is the first one's turn. Both machines go by this, whichever of the
/// consoles is the local one there.
pub proof fn law_the_console_that_is_behind_steps<C: EmulatorCore, T: MonotonicTimestampProvider>(
    pair: PairState<C, T>,
    second: bool,
)
    requires
        pair.second_runs() == Ok::<bool, cable::FailureModel>(second),
    ensures
        second != pair.local_is_first() ==> {
            &&& !pair.local.core.asleep()
            &&& !pair.partner.core.asleep() ==> pair.local.core.linked_for()
                <= pair.partner.core.linked_for()
            &&& !pair.partner.core.asleep() && !pair.local_is_first()
                ==> pair.local.core.linked_for() < pair.partner.core.linked_for()
        },
        second == pair.local_is_first() ==> {
            &&& !pair.partner.core.asleep()
            &&& !pair.local.core.asleep() ==> pair.partner.core.linked_for()
                <= pair.local.core.linked_for()
            &&& !pair.local.core.asleep() && pair.local_is_first()
                ==> pair.partner.core.linked_for() < pair.local.core.linked_for()
        },
{
}

/// Two consoles that both sleep, or one without a port, break the link; nothing else about whose
/// turn it is does.
pub proof fn law_when_nobody_can_step<C: EmulatorCore, T: MonotonicTimestampProvider>(
    pair: PairState<C, T>,
)
    ensures
        pair.second_runs() is Err <==> !pair.local.core.identity().has_link_port
            || !pair.partner.core.identity().has_link_port || (pair.local.core.asleep()
            && pair.partner.core.asleep()),
{
}

/// A pair is stepped if both ends of the cable are in and it has not broken.
pub proof fn law_which_pairs_are_stepped<C: EmulatorCore, T: MonotonicTimestampProvider>(
    local: SuperShuckieCore<C, T>,
    partner: SuperShuckieCore<C, T>,
)
    ensures
        local.run_refused(partner) is None <==> (local.together.link is Some
            && local.together.link->0.failure is None && partner.together.partner is Some),
{
}

// ---------------------------------------------------------------------------------------------
// Turns.

/// A step is asked of the console whose turn it is, with its pacing; the other one is only told that
/// a step happened beside it, and nothing else of that session changes.
pub proof fn law_a_step_is_one_consoles<C: EmulatorCore, T: MonotonicTimestampProvider>(
    stepping: SuperShuckieCore<C, T>,
    other: SuperShuckieCore<C, T>,
    after: SuperShuckieCore<C, T>,
    other_after: SuperShuckieCore<C, T>,
    paced: bool,
    r: Result<RunTime, link::ErrorModel>,
)
    requires
        stepping.core.identity().has_link_port,
        stepping.link_stepped(other, after, other_after, paced, r),
    ensures
        other_after.core.log() == other.core.log().push(CoreCall::SteppedBeside),
        other_after == (SuperShuckieCore { core: other_after.core, ..other }),
        r is Err ==> after.core.log() == stepping.core.log().push(
            CoreCall::StepLinked { paced, outcome: r },
        ) && after.timer == stepping.timer,
        r matches Ok(time) ==> exists|ran: SuperShuckieCore<C, T>| #[trigger]
            ran.cable_timed(after, time) && ran.core.log() == stepping.core.log().push(
                CoreCall::StepLinked { paced, outcome: r },
            ) && ran.timer == stepping.timer,
{
    let start = SuperShuckieCore {
        runs: super::state::RunState {
            last: crate::emulator::console::no_time(),
            ..stepping.runs
        },
        ..stepping
    };
    let ran = choose|ran: SuperShuckieCore<C, T>| #[trigger]
        start.cable_ran(ran, paced, r) && match r {
            Ok(time) => ran.cable_timed(after, time),
            Err(_) => after == ran,
        };
    assert(ran.core.log() =~= stepping.core.log().push(CoreCall::StepLinked { paced, outcome: r }));
    assert(other_after.core.log() =~= other.core.log().push(CoreCall::SteppedBeside));
}

/// The local console's turn ends the slice: with how long it ran and how many frames the partner's
/// ran before it, or with what went wrong. Frames of the first console are counted for the pair's
/// hashes.
pub proof fn law_the_local_consoles_turn<C: EmulatorCore, T: MonotonicTimestampProvider>(
    before: PairState<C, T>,
    after: PairState<C, T>,
    end: cable::RunModel,
)
    requires
        before.local_turned(after, end),
    ensures
        after.frames == before.frames,
        end is Ran || end is Failed,
        end matches cable::RunModel::Ran { partner_frames, .. } ==> partner_frames == before.frames
            && (after.local.together.link is Some ==> !after.local.together.link->0.stalled),
{
    reveal(PairState::local_turned);
}

/// The partner's console waits for what its player has not sent yet, and the link breaks when they
/// are gone; while it waits or breaks, nothing steps.
pub proof fn law_the_partners_turn<C: EmulatorCore, T: MonotonicTimestampProvider>(
    before: PairState<C, T>,
    after: PairState<C, T>,
    end: Option<cable::RunModel>,
)
    requires
        before.partner_turned(after, end),
        before.local.together.link is Some,
        end matches Some(_),
        end != Some(cable::RunModel::Stalled),
    ensures
        end matches Some(cable::RunModel::Failed(_)),
{
    reveal(PairState::partner_turned);
    reveal(PairState::partner_stepped);
}

/// What the partner's console is given for its next frame: what it held when the cable went in, for
/// as many frames as inputs are delayed; from then on what its player sent for that very frame, and
/// nothing until that is there.
pub proof fn law_the_partners_frame<C: EmulatorCore, T: MonotonicTimestampProvider>(
    partner: SuperShuckieCore<C, T>,
    taken: SuperShuckieCore<C, T>,
    r: Option<LinkFrame>,
)
    requires
        partner.partner_frame_taken(taken, r),
    ensures
        ({
            let p = partner.together.partner->Some_0;
            &&& taken.core == partner.core && taken.timer == partner.timer
            &&& p.frame < p.delay ==> (r matches Some(f) && packet::packet_models(f.events@)
                == seq![packet::PacketModel::ChangeInput { data: p.prefill_input@ }]
                && f.elapsed_millis == partner.timer.millis && f.pair_hash is None)
            &&& p.frame >= p.delay && p.inbox.frames@.contains_key(p.frame) ==> r == Some(
                p.inbox.frames@[p.frame],
            ) && taken.together.partner->Some_0.frame_prepared
            &&& p.frame >= p.delay && !p.inbox.frames@.contains_key(p.frame) ==> r is None
        }),
{
}

/// A link frame carries inputs, writes and resets; anything else in it is passed over.
pub proof fn law_what_a_link_frame_carries<C: EmulatorCore, T: MonotonicTimestampProvider>(
    before: SuperShuckieCore<C, T>,
    after: SuperShuckieCore<C, T>,
    p: packet::PacketModel,
)
    requires
        before.partner_event(after, p),
    ensures
        p is ChangeInput || p is WriteMemory || p is ResetConsole || p is NoOp
            ==> before.packet_applied(after, p),
        !(p is ChangeInput || p is WriteMemory || p is ResetConsole || p is NoOp) ==> after
            == before,
{
}

/// The partner's clock is the sender's, and never goes back.
pub proof fn law_the_partners_clock<C: EmulatorCore, T: MonotonicTimestampProvider>(
    partner: SuperShuckieCore<C, T>,
    sent: u64,
    now: u64,
)
    ensures
        partner.clock_followed(sent, now).timer.millis >= sent,
        partner.clock_followed(sent, now).timer.millis >= now,
        partner.clock_followed(sent, now).timer.millis == sent || partner.clock_followed(
            sent,
            now,
        ).timer.millis == now,
        partner.clock_followed(sent, now).timer.frames == partner.timer.frames,
        partner.clock_followed(sent, now).core == partner.core,
{
}

/// A hash that is due is taken of both consoles once the second one has caught up, for the frame it
/// was due at, and goes to the partner; until then it stays due.
pub proof fn law_a_due_hash_is_taken_once<C: EmulatorCore, T: MonotonicTimestampProvider>(
    local: SuperShuckieCore<C, T>,
    partner: SuperShuckieCore<C, T>,
    after: SuperShuckieCore<C, T>,
    second_runs: bool,
    due: u64,
    failure: Option<LinkFailure>,
)
    requires
        local.together.link is Some,
        local.together.link->Some_0.hash_due_at == Some(due),
        local.due_hash_taken(partner, after, second_runs, failure),
    ensures
        second_runs ==> after == local && failure is None,
        !second_runs ==> {
            &&& after.together.link is Some
            &&& after.together.link->Some_0.hash_due_at is None
            &&& after.together.link->Some_0.pending_hash == Some((due, local.pair_hash(partner)))
            &&& after.core == local.core
        },
{
}

/// The pair's hash is the first console's, then the second's, whichever is local.
pub proof fn law_the_first_console_is_hashed_first<C: EmulatorCore, T: MonotonicTimestampProvider>(
    local: SuperShuckieCore<C, T>,
    partner: SuperShuckieCore<C, T>,
)
    requires
        local.together.link is Some,
    ensures
        local.together.link->Some_0.settings.local_is_first ==> local.pair_hash(partner)
            == C::hash_of_pair(local.core.work_ram_hash(), partner.core.work_ram_hash()),
        !local.together.link->Some_0.settings.local_is_first ==> local.pair_hash(partner)
            == C::hash_of_pair(partner.core.work_ram_hash(), local.core.work_ram_hash()),
{
}

// ---------------------------------------------------------------------------------------------
// Writes.

/// Between frames a write goes to the console at once, as it was asked for, and into the file and to
/// whoever follows if the console took it.
pub proof fn law_a_write_goes_to_the_console<C: EmulatorCore, T: MonotonicTimestampProvider>(
    before: SuperShuckieCore<C, T>,
    after: SuperShuckieCore<C, T>,
    address: u32,
    data: Seq<u8>,
)
    requires
        before.write_enqueued(after, address, data),
        before.waiting_writes().len() == 0,
        !before.playing_back(),
        !before.core.mid_frame(),
        !before.together.holding,
        before.together.link is None,
    ensures
        after.waiting_writes().len() == 0,
        exists|written: bool|
            #![trigger before.core.log().push(CoreCall::WriteRam { address, data, written })]
            after.core.log() == before.core.log().push(
                CoreCall::WriteRam { address, data, written },
            ) && after.outs() == before.outs() + effects::only_if(
                before.together.publishing && written,
                effects::Out::PublishWrite { address: address as u64, data },
            ) + effects::only_if(
                before.recorder.active && written,
                effects::Out::RecordWrite { address: address as u64, data },
            ),
{
    let queued = choose|queued: SuperShuckieCore<C, T>| #[trigger]
        before.write_queued(queued, address, data) && queued.writes_flushed(after);
    let writes = queued.waiting_writes();
    assert(writes =~= seq![state::WriteModel { address, data }]);
    let answers = choose|answers: Seq<bool>| #[trigger] queued.writes_applied(after, answers);
    let written = answers[0];
    let calls = super::running::write_calls(writes, answers, 1);
    assert(super::running::write_calls(writes, answers, 0) =~= Seq::<CoreCall>::empty());
    assert(calls =~= seq![CoreCall::WriteRam { address, data, written }]);
    assert(after.core.log() =~= before.core.log().push(
        CoreCall::WriteRam { address, data, written },
    ));
    let records = super::running::write_records(
        writes,
        answers,
        before.together.publishing,
        before.recorder.active,
        1,
    );
    assert(super::running::write_records(
        writes,
        answers,
        before.together.publishing,
        before.recorder.active,
        0,
    ) =~= Seq::<effects::Out>::empty());
    assert(after.outs() =~= before.outs() + effects::only_if(
        before.together.publishing && written,
        effects::Out::PublishWrite { address: address as u64, data },
    ) + effects::only_if(
        before.recorder.active && written,
        effects::Out::RecordWrite { address: address as u64, data },
    ));
}

/// In the middle of a frame, and while the console is held for a link, a write waits behind those
/// that wait already, and the console is not touched.
pub proof fn law_a_write_waits_for_the_frames_end<C: EmulatorCore, T: MonotonicTimestampProvider>(
    before: SuperShuckieCore<C, T>,
    after: SuperShuckieCore<C, T>,
    address: u32,
    data: Seq<u8>,
)
    requires
        before.write_enqueued(after, address, data),
        before.core.mid_frame() || before.together.holding,
    ensures
        after.core == before.core,
        after.outs() == before.outs(),
        after.waiting_writes() == before.waiting_writes().push(
            state::WriteModel { address, data },
        ),
{
}

/// In a linked game a write goes onto the cable, for the first frame that can still be scheduled,
/// so that both machines make it there.
pub proof fn law_a_write_goes_onto_the_cable<C: EmulatorCore, T: MonotonicTimestampProvider>(
    before: SuperShuckieCore<C, T>,
    after: SuperShuckieCore<C, T>,
    address: u32,
    data: Seq<u8>,
)
    requires
        before.write_enqueued(after, address, data),
        before.waiting_writes().len() == 0,
        !before.playing_back(),
        !before.core.mid_frame(),
        !before.together.holding,
        before.together.link is Some,
    ensures
        after.core == before.core,
        after.waiting_writes().len() == 0,
        after.together.link is Some,
        ({
            let frame = before.together.link->Some_0.next_send_frame;
            after.together.link->Some_0.scheduled(frame)
                == before.together.link->Some_0.scheduled(frame).push(
                packet::PacketModel::WriteMemory { address: address as u64, data },
            )
        }),
{
    let queued = choose|queued: SuperShuckieCore<C, T>| #[trigger]
        before.write_queued(queued, address, data) && queued.writes_flushed(after);
    let writes = queued.waiting_writes();
    assert(writes =~= seq![state::WriteModel { address, data }]);
    let steps = choose|steps: Seq<cable::LinkState>|
        steps.len() == writes.len() + 1 && #[trigger] super::running::scheduled_in_steps(
            steps,
            queued.together.link->Some_0,
            after.together.link->Some_0,
            writes,
        );
    assert(steps[0].with_scheduled(
        steps[1],
        packet::PacketModel::WriteMemory {
            address: writes[0].address as u64,
            data: writes[0].data,
        },
    ));
}

/// Whether a value differs is for the bytes there to say: those of a listed region, or those the
/// core decodes; where there are none nothing differs.
pub proof fn law_when_a_value_differs<C: EmulatorCore, T: MonotonicTimestampProvider>(
    session: SuperShuckieCore<C, T>,
    address: u32,
    data: Seq<u8>,
)
    ensures
        session.core.image().mapped(address, data.len() as int) matches Some(there) ==> (
        session.differs_at(address, data) <==> data.len() > 0 && there != data),
        session.core.image().mapped(address, data.len() as int) is None
            && session.core.decoded_ram(address, data.len()) is None ==> !session.differs_at(
            address,
            data,
        ),
        data.len() == 0 ==> !session.differs_at(address, data),
{
}

// ---------------------------------------------------------------------------------------------
// A follower's own file.

/// A follower's file gets what the publisher did, event for event, at the file's own time; writes
/// that were not made are left out, and without a file nothing is put down.
pub proof fn law_a_followers_file_mirrors_the_game<C: EmulatorCore, T: MonotonicTimestampProvider>(
    before: SuperShuckieCore<C, T>,
    after: SuperShuckieCore<C, T>,
    p: packet::PacketModel,
    wrote: bool,
)
    requires
        before.mirrored(after, p, wrote),
    ensures
        after.core == before.core,
        !(before.together.follower is Some && before.recorder.active) ==> after.outs()
            == before.outs(),
        before.together.follower is Some && before.recorder.active ==> {
            &&& p is NextFrame ==> after.outs() == before.outs().push(
                effects::Out::RecordFrame { millis: before.file_millis() },
            )
            &&& p matches packet::PacketModel::ChangeInput { data } ==> after.outs()
                == before.outs().push(effects::Out::RecordInput { data })
            &&& p matches packet::PacketModel::WriteMemory { address, data } ==> after.outs() == (
            if wrote {
                before.outs().push(effects::Out::RecordWrite { address, data })
            } else {
                before.outs()
            })
            &&& p matches packet::PacketModel::ChangeSpeed { speed } ==> after.outs()
                == before.outs().push(effects::Out::RecordSpeed { speed })
            &&& p is ResetConsole ==> after.outs() == before.outs().push(
                effects::Out::RecordReset,
            )
            &&& p matches packet::PacketModel::LoadSaveState { state } ==> after.outs()
                == before.outs().push(effects::Out::RecordState { state })
            &&& p matches packet::PacketModel::IncrementCounter { name, delta } ==> after.outs()
                == before.outs().push(effects::Out::RecordCounter { name, delta })
            &&& p matches packet::PacketModel::SerialIn { data } ==> after.outs()
                == before.outs().push(effects::Out::RecordSerialIn { data })
        },
        before.together.follower is Some ==> (p matches packet::PacketModel::ChangeInput { data }
            ==> after.following().last_input@ == data),
{
    if before.together.follower is Some && before.recorder.active {
        let one = before.mirror_of(p, wrote);
        if one.len() == 1 {
            assert(before.outs() + one =~= before.outs().push(one[0]));
        } else {
            assert(before.outs() + one =~= before.outs());
        }
    } else {
        assert(before.outs() + Seq::<effects::Out>::empty() =~= before.outs());
    }
}

/// What goes before a run, in this order: the replay's part, the user's input, the writes that wait.
/// A console that is held for a link, or is one of a pair, does not run on its own.
pub proof fn law_what_goes_before_a_run<C: EmulatorCore, T: MonotonicTimestampProvider>(
    before: SuperShuckieCore<C, T>,
    after: SuperShuckieCore<C, T>,
    unlocked: bool,
    audible: bool,
)
    requires
        before.ran(after, unlocked, audible),
    ensures
        before.together.holding || before.together.link is Some || before.together.partner is Some
            ==> after.core == before.core && after.timer == before.timer
            && after.runs.last.frames == 0,
{
}

} // verus!
