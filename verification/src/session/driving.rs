//! What drives a console: whose input it is given, and when.

use super::effects;
use super::running;
use super::state::{
    InputState, MonotonicTimestampProvider, SuperShuckieCore, SuperShuckieRapidFire,
};
use crate::emulator::console::{CoreCall, EmulatorCore};
use crate::emulator::input::Input;
use crate::play_together::cable;
use crate::replay::packet;
use vstd::prelude::*;

verus! {

/// The input a console was given last, as the console encodes it.
pub open spec fn input_in_force(log: Seq<CoreCall>) -> Option<Seq<u8>>
    decreases log.len(),
{
    if log.len() == 0 {
        None
    } else {
        match log.last() {
            CoreCall::SetInput { data } => Some(data),
            _ => input_in_force(log.drop_last()),
        }
    }
}

/// Whether every button of `part` is one of `whole`.
pub open spec fn presses(whole: Input, part: Input) -> bool {
    &&& part.a ==> whole.a
    &&& part.b ==> whole.b
    &&& part.start ==> whole.start
    &&& part.select ==> whole.select
    &&& part.d_up ==> whole.d_up
    &&& part.d_down ==> whole.d_down
    &&& part.d_left ==> whole.d_left
    &&& part.d_right ==> whole.d_right
    &&& part.l ==> whole.l
    &&& part.r ==> whole.r
    &&& part.x ==> whole.x
    &&& part.y ==> whole.y
    &&& part.zl ==> whole.zl
    &&& part.zr ==> whole.zr
}

// ---------------------------------------------------------------------------------------------
// The user's input.

/// What the user pressed is what the console is given between frames: alone it is given exactly
/// that, and it stays the user's until they press something else.
pub proof fn law_the_users_input_is_pressed<C: EmulatorCore, T: MonotonicTimestampProvider>(
    before: SuperShuckieCore<C, T>,
    after: SuperShuckieCore<C, T>,
    pressed: Input,
)
    requires
        before.input_updated(after),
        !before.playing_back(),
        !before.core.mid_frame(),
        before.input.next == Some(pressed) || (before.input.next is None && !before.input.latched
            && before.input.base == pressed),
    ensures
        input_in_force(after.core.log()) == Some(before.core.encoded(after.input.current)),
        after.core.log().drop_last() == before.core.log(),
        after.input.base == pressed,
        after.input.next is None,
        presses(after.input.current, pressed),
        before.input.rapid_fire is None && before.input.toggled is None ==> after.input.current
            == pressed,
{
    assert(after.core.log().drop_last() =~= before.core.log());
}

/// Somebody else's game is not touched by what the user presses, nor is a frame that is under way;
/// and a frame that was given its input is not given it again.
pub proof fn law_input_waits_for_its_frame<C: EmulatorCore, T: MonotonicTimestampProvider>(
    before: SuperShuckieCore<C, T>,
    after: SuperShuckieCore<C, T>,
)
    requires
        before.input_updated(after),
        before.playing_back() || before.core.mid_frame() || (before.input.latched
            && before.input.next is None),
    ensures
        after.core.log() == before.core.log(),
        after.outs() == before.outs(),
        after.input.next == before.input.next,
{
}

/// What is toggled is held down whatever the user presses, and what fires rapidly only while its
/// duty cycle holds it; nothing is held that nobody asked for.
pub proof fn law_toggled_and_rapid_buttons<C: EmulatorCore, T: MonotonicTimestampProvider>(
    session: SuperShuckieCore<C, T>,
    pressed: Input,
    fired: Input,
    toggled: Input,
)
    requires
        session.input.next == Some(pressed) || (session.input.next is None && session.input.base
            == pressed),
        match session.input.toggled {
            Some(t) => t == toggled,
            None => toggled == Input::nothing(),
        },
        match session.input.rapid_fire {
            Some(rf) => if rf.current_frame < rf.hold_length {
                fired == rf.input
            } else {
                fired == Input::nothing()
            },
            None => fired == Input::nothing(),
        },
    ensures
        ({
            let held = session.pending_input();
            &&& presses(held, pressed)
            &&& presses(held, fired)
            &&& presses(held, toggled)
            &&& presses(pressed.either(fired).either(toggled), held)
            &&& pressed.touch is Some ==> held.touch == pressed.touch
            &&& pressed.circle != (0i8, 0i8) ==> held.circle == pressed.circle
            &&& pressed.c_stick != (0i8, 0i8) ==> held.c_stick == pressed.c_stick
        }),
{
}

/// Rapid fire set between frames presses its buttons on the very next frame: for as many frames as
/// they are held, then not for as many as the interval has, and so on.
pub proof fn law_rapid_fire_keeps_its_rhythm<C: EmulatorCore, T: MonotonicTimestampProvider>(
    session: SuperShuckieCore<C, T>,
    rf: SuperShuckieRapidFire,
    frames: u64,
)
    requires
        rf.hold_length >= 1,
        rf.interval >= 1,
        rf.hold_length + rf.interval <= u64::MAX,
        session.input.rapid_fire is None,
        !session.core.mid_frame(),
    ensures
        ({
            let set = session.rapid_fire_set(Some(rf));
            let later = running::rapid_fire_after(set, frames);
            &&& later matches Some(l)
            &&& l.input == rf.input
            &&& (l.current_frame < l.hold_length) <==> (frames as int % (rf.hold_length
                + rf.interval) < rf.hold_length)
        }),
{
    let total = rf.hold_length + rf.interval;
    assert(0 <= frames as int % total < total) by (nonlinear_arith)
        requires
            total > 0,
    ;
}

/// A frame that is under way when rapid fire is set does not count: the buttons are pressed from the
/// frame after it. Changing the buttons alone does not start the rhythm over.
pub proof fn law_rapid_fire_starts_with_the_next_frame<
    C: EmulatorCore,
    T: MonotonicTimestampProvider,
>(session: SuperShuckieCore<C, T>, rf: SuperShuckieRapidFire)
    requires
        rf.hold_length >= 1,
        rf.interval >= 1,
        rf.hold_length + rf.interval <= u64::MAX,
    ensures
        session.input.rapid_fire is None && session.core.mid_frame() ==> ({
            let set = session.rapid_fire_set(Some(rf));
            running::rapid_fire_after(set, 1) matches Some(l) && l.current_frame == 0
        }),
        session.input.rapid_fire matches Some(o) ==> (o.hold_length == rf.hold_length && o.interval
            == rf.interval ==> (session.rapid_fire_set(Some(rf)) matches Some(s) && s.input
            == rf.input && s.current_frame == o.current_frame)),
        session.rapid_fire_set(None) is None,
{
    let total = rf.hold_length + rf.interval;
    assert(total % total == 0) by (nonlinear_arith)
        requires
            total > 0,
    ;
}

// ---------------------------------------------------------------------------------------------
// A linked pair.

/// Whether a call asks of a console what an event of a link frame is.
pub open spec fn asked_by(p: packet::PacketModel, call: CoreCall) -> bool {
    match (p, call) {
        (packet::PacketModel::ChangeInput { data }, CoreCall::SetInput { data: given }) => given
            == data,
        (
            packet::PacketModel::WriteMemory { address, data },
            CoreCall::WriteRam { address: at, data: given, .. },
        ) => at == address && given == data,
        (packet::PacketModel::ResetConsole, CoreCall::HardReset) => true,
        _ => false,
    }
}

/// Whether an event is one of those a console is asked something by.
pub open spec fn asks_something(p: packet::PacketModel) -> bool {
    match p {
        packet::PacketModel::ChangeInput { .. } => true,
        packet::PacketModel::WriteMemory { address, .. } => address <= u32::MAX,
        packet::PacketModel::ResetConsole => true,
        _ => false,
    }
}

/// What the events of a frame leave alone, after the first `n` of them.
proof fn lemma_local_events<C: EmulatorCore, T: MonotonicTimestampProvider>(
    before: SuperShuckieCore<C, T>,
    after: SuperShuckieCore<C, T>,
    events: Seq<packet::PacketModel>,
    input: Option<Input>,
    steps: Seq<SuperShuckieCore<C, T>>,
    n: nat,
)
    requires
        before.events_applied_in(after, events, input, steps),
        n <= events.len(),
    ensures
        steps[n as int].together == before.together,
        steps[n as int].timer == before.timer,
        steps[n as int].outs().len() >= before.outs().len(),
        steps[n as int].outs().take(before.outs().len() as int) == before.outs(),
        (forall|i: int| 0 <= i < n ==> asks_something(#[trigger] events[i])) ==> {
            &&& steps[n as int].core.log().len() == before.core.log().len() + n
            &&& steps[n as int].core.log().take(before.core.log().len() as int)
                == before.core.log()
            &&& forall|i: int|
                0 <= i < n ==> asked_by(
                    #[trigger] events[i],
                    steps[n as int].core.log()[before.core.log().len() + i],
                )
        },
    decreases n,
{
    if n == 0 {
        assert(before.outs().take(before.outs().len() as int) =~= before.outs());
        assert(before.core.log().take(before.core.log().len() as int) =~= before.core.log());
    } else {
        lemma_local_events(before, after, events, input, steps, (n - 1) as nat);
        let from = steps[n - 1];
        let to = steps[n as int];
        assert(from.event_applied(to, events[n - 1], input));
        assert(to.outs().take(before.outs().len() as int) =~= from.outs().take(
            before.outs().len() as int,
        ));
        if forall|i: int| 0 <= i < n ==> asks_something(#[trigger] events[i]) {
            assert(asks_something(events[n - 1]));
            assert(to.core.log().take(before.core.log().len() as int) =~= from.core.log().take(
                before.core.log().len() as int,
            ));
        }
    }
}

proof fn lemma_partner_events<C: EmulatorCore, T: MonotonicTimestampProvider>(
    before: SuperShuckieCore<C, T>,
    after: SuperShuckieCore<C, T>,
    events: Seq<packet::PacketModel>,
    steps: Seq<SuperShuckieCore<C, T>>,
    n: nat,
)
    requires
        before.partner_events_in(after, events, steps),
        n <= events.len(),
        forall|i: int| 0 <= i < n ==> asks_something(#[trigger] events[i]),
    ensures
        steps[n as int].core.log().len() == before.core.log().len() + n,
        steps[n as int].core.log().take(before.core.log().len() as int) == before.core.log(),
        forall|i: int|
            0 <= i < n ==> asked_by(
                #[trigger] events[i],
                steps[n as int].core.log()[before.core.log().len() + i],
            ),
    decreases n,
{
    if n == 0 {
        assert(before.core.log().take(before.core.log().len() as int) =~= before.core.log());
    } else {
        lemma_partner_events(before, after, events, steps, (n - 1) as nat);
        let from = steps[n - 1];
        let to = steps[n as int];
        let p = events[n - 1];
        assert(asks_something(p));
        assert(from.partner_event(to, p));
        assert(from.packet_applied(to, p));
        let (done, wrote) = choose|done: SuperShuckieCore<C, T>, wrote: bool| #[trigger]
            from.packet_done(done, p, wrote) && done.mirrored(to, p, wrote);
        assert(to.core.log().take(before.core.log().len() as int) =~= from.core.log().take(
            before.core.log().len() as int,
        ));
    }
}

/// The events of a link frame are asked of the console one by one, in their order and unchanged: of
/// the player's own console on their machine, and of its copy on the other machine alike.
pub proof fn law_both_machines_do_the_same<C: EmulatorCore, T: MonotonicTimestampProvider>(
    own: SuperShuckieCore<C, T>,
    own_after: SuperShuckieCore<C, T>,
    copy: SuperShuckieCore<C, T>,
    copy_after: SuperShuckieCore<C, T>,
    events: Seq<packet::PacketModel>,
    input: Option<Input>,
)
    requires
        own.events_applied(own_after, events, input),
        copy.partner_events(copy_after, events),
        forall|i: int| 0 <= i < events.len() ==> asks_something(#[trigger] events[i]),
    ensures
        own_after.core.log().len() == own.core.log().len() + events.len(),
        copy_after.core.log().len() == copy.core.log().len() + events.len(),
        forall|i: int|
            0 <= i < events.len() ==> asked_by(
                #[trigger] events[i],
                own_after.core.log()[own.core.log().len() + i],
            ) && asked_by(events[i], copy_after.core.log()[copy.core.log().len() + i]),
{
    let steps = choose|steps: Seq<SuperShuckieCore<C, T>>| #[trigger]
        own.events_applied_in(own_after, events, input, steps);
    lemma_local_events(own, own_after, events, input, steps, events.len());
    let others = choose|steps: Seq<SuperShuckieCore<C, T>>| #[trigger]
        copy.partner_events_in(copy_after, events, steps);
    lemma_partner_events(copy, copy_after, events, others, events.len());
}

/// The input of a frame of a linked console is what the user holds at that moment: it is sent to the
/// partner for the frame `delay` ahead, last of what is scheduled for that frame, and it is
/// scheduled for it here.
pub proof fn law_fresh_input_goes_onto_the_cable<C: EmulatorCore, T: MonotonicTimestampProvider>(
    before: SuperShuckieCore<C, T>,
    after: SuperShuckieCore<C, T>,
    pressed: Input,
)
    requires
        before.local_prepared(after),
        before.input.next == Some(pressed) || (before.input.next is None && before.input.base
            == pressed),
        before.input.rapid_fire is None,
        before.input.toggled is None,
        before.together.link is Some,
    ensures
        ({
            let l = before.together.link->Some_0;
            let m = after.together.link->Some_0;
            let fresh = packet::PacketModel::ChangeInput { data: before.core.encoded(pressed) };
            let sent = after.outs()[before.outs().len() as int];
            &&& after.together.link is Some
            &&& after.outs().len() > before.outs().len()
            &&& sent matches effects::Out::SendLinkFrame {
                frame,
                events,
                elapsed_millis,
                pair_hash,
            }
            &&& frame == l.next_send_frame
            &&& elapsed_millis == before.file_millis()
            &&& pair_hash == l.pending_hash
            &&& events == l.scheduled(l.next_send_frame).push(fresh)
            &&& l.next_send_frame != l.frame ==> m.scheduled(l.next_send_frame) == events
            &&& l.next_send_frame != l.frame ==> m.scheduled_input(l.next_send_frame) == Some(
                pressed,
            )
            &&& l.next_send_frame < u64::MAX ==> m.next_send_frame == l.next_send_frame + 1
            &&& m.frame == l.frame
            &&& m.pending_hash is None
            &&& after.input.base == pressed
            &&& after.input.next is None
        }),
{
    let (sent, scheduled) = choose|sent: SuperShuckieCore<C, T>, scheduled: cable::LinkState|
        #[trigger]
        before.frame_sent(sent, scheduled) && if scheduled.queue@.contains_key(scheduled.frame) {
            sent.events_applied(
                after,
                scheduled.scheduled(scheduled.frame),
                scheduled.scheduled_input(scheduled.frame),
            )
        } else {
            after == sent
        };
    lemma_events_follow(before, sent, after, scheduled);
}

proof fn lemma_events_follow<C: EmulatorCore, T: MonotonicTimestampProvider>(
    before: SuperShuckieCore<C, T>,
    sent: SuperShuckieCore<C, T>,
    after: SuperShuckieCore<C, T>,
    scheduled: cable::LinkState,
)
    requires
        before.frame_sent(sent, scheduled),
        if scheduled.queue@.contains_key(scheduled.frame) {
            sent.events_applied(
                after,
                scheduled.scheduled(scheduled.frame),
                scheduled.scheduled_input(scheduled.frame),
            )
        } else {
            after == sent
        },
    ensures
        after.together == sent.together,
        after.outs().len() >= sent.outs().len(),
        after.outs().take(sent.outs().len() as int) == sent.outs(),
        after.outs()[before.outs().len() as int] == sent.outs().last(),
        after.input.base == sent.input.base,
        after.input.next == sent.input.next,
{
    assert(sent.outs().take(sent.outs().len() as int) =~= sent.outs());
    if scheduled.queue@.contains_key(scheduled.frame) {
        let events = scheduled.scheduled(scheduled.frame);
        let input = scheduled.scheduled_input(scheduled.frame);
        let steps = choose|steps: Seq<SuperShuckieCore<C, T>>| #[trigger]
            sent.events_applied_in(after, events, input, steps);
        lemma_local_events(sent, after, events, input, steps, events.len());
        lemma_input_kept(sent, after, events, input, steps, events.len());
    }
    assert(after.outs()[before.outs().len() as int] == after.outs().take(
        sent.outs().len() as int,
    )[before.outs().len() as int]);
}

proof fn lemma_input_kept<C: EmulatorCore, T: MonotonicTimestampProvider>(
    before: SuperShuckieCore<C, T>,
    after: SuperShuckieCore<C, T>,
    events: Seq<packet::PacketModel>,
    input: Option<Input>,
    steps: Seq<SuperShuckieCore<C, T>>,
    n: nat,
)
    requires
        before.events_applied_in(after, events, input, steps),
        n <= events.len(),
    ensures
        steps[n as int].input == (InputState {
            current: steps[n as int].input.current,
            ..before.input
        }),
    decreases n,
{
    if n > 0 {
        lemma_input_kept(before, after, events, input, steps, (n - 1) as nat);
        assert(steps[n - 1].event_applied(steps[n as int], events[n - 1], input));
    }
}

/// What is scheduled for the frame about to run is what the console is asked before it runs: with
/// its input last, that input is in force.
pub proof fn law_a_link_frame_runs_with_its_input<C: EmulatorCore, T: MonotonicTimestampProvider>(
    before: SuperShuckieCore<C, T>,
    after: SuperShuckieCore<C, T>,
    data: Seq<u8>,
)
    requires
        before.local_prepared(after),
        before.together.link matches Some(l) && l.frame != l.next_send_frame && l.scheduled(
            l.frame,
        ).len() > 0 && l.scheduled(l.frame).last() == (packet::PacketModel::ChangeInput { data }),
    ensures
        after.core.log().len() > before.core.log().len(),
        after.core.log().last() == (CoreCall::SetInput { data }),
        input_in_force(after.core.log()) == Some(data),
        after.together.link matches Some(m) && !m.queue@.contains_key(m.frame) && m.frame_prepared,
{
    let (sent, scheduled) = choose|sent: SuperShuckieCore<C, T>, scheduled: cable::LinkState|
        #[trigger]
        before.frame_sent(sent, scheduled) && if scheduled.queue@.contains_key(scheduled.frame) {
            sent.events_applied(
                after,
                scheduled.scheduled(scheduled.frame),
                scheduled.scheduled_input(scheduled.frame),
            )
        } else {
            after == sent
        };
    let l = before.together.link->Some_0;
    assert(scheduled.queue@.dom().contains(l.frame));
    assert(scheduled.queue@[l.frame] == l.queue@[l.frame]);
    lemma_events_follow(before, sent, after, scheduled);
    let events = scheduled.scheduled(scheduled.frame);
    let input = scheduled.scheduled_input(scheduled.frame);
    let steps = choose|steps: Seq<SuperShuckieCore<C, T>>| #[trigger]
        sent.events_applied_in(after, events, input, steps);
    let n = events.len() as int;
    assert(steps[n - 1].event_applied(steps[n], events[n - 1], input));
    assert(after == steps[n]);
    lemma_log_grows(sent, after, events, input, steps, (n - 1) as nat);
    assert(after.core.log().drop_last() =~= steps[n - 1].core.log());
}

proof fn lemma_log_grows<C: EmulatorCore, T: MonotonicTimestampProvider>(
    before: SuperShuckieCore<C, T>,
    after: SuperShuckieCore<C, T>,
    events: Seq<packet::PacketModel>,
    input: Option<Input>,
    steps: Seq<SuperShuckieCore<C, T>>,
    n: nat,
)
    requires
        before.events_applied_in(after, events, input, steps),
        n <= events.len(),
    ensures
        steps[n as int].core.log().len() >= before.core.log().len(),
    decreases n,
{
    if n > 0 {
        lemma_log_grows(before, after, events, input, steps, (n - 1) as nat);
        assert(steps[n - 1].event_applied(steps[n as int], events[n - 1], input));
    }
}

/// Preparing a frame takes the events of that frame alone and adds to those of the frame sent alone:
/// what is scheduled for any other frame waits for it.
pub proof fn law_scheduled_frames_wait<C: EmulatorCore, T: MonotonicTimestampProvider>(
    before: SuperShuckieCore<C, T>,
    after: SuperShuckieCore<C, T>,
    frame: u64,
)
    requires
        before.local_prepared(after),
        before.together.link matches Some(l) && frame != l.frame && frame != l.next_send_frame,
    ensures
        after.together.link matches Some(m) && m.scheduled(frame)
            == before.together.link->Some_0.scheduled(frame),
{
    let (sent, scheduled) = choose|sent: SuperShuckieCore<C, T>, scheduled: cable::LinkState|
        #[trigger]
        before.frame_sent(sent, scheduled) && if scheduled.queue@.contains_key(scheduled.frame) {
            sent.events_applied(
                after,
                scheduled.scheduled(scheduled.frame),
                scheduled.scheduled_input(scheduled.frame),
            )
        } else {
            after == sent
        };
    let l = before.together.link->Some_0;
    lemma_events_follow(before, sent, after, scheduled);
    assert(scheduled.queue@.dom().contains(frame) == l.queue@.dom().contains(frame));
}

/// Whether a console stood before and after the boundaries of consecutive link frames, with nothing
/// but that frame counted (and more scheduled for the frame to be sent) between two of them.
pub open spec fn consecutive_boundaries<C: EmulatorCore, T: MonotonicTimestampProvider>(
    before: Seq<SuperShuckieCore<C, T>>,
    after: Seq<SuperShuckieCore<C, T>>,
) -> bool {
    &&& before.len() == after.len()
    &&& forall|i: int|
        0 <= i < before.len() ==> (#[trigger] before[i]).local_prepared(after[i])
            && before[i].together.link is Some
    &&& forall|i: int, j: int|
        0 <= i && j == i + 1 && j < before.len() ==> ({
            let m = (#[trigger] after[i]).together.link->Some_0;
            let l = (#[trigger] before[j]).together.link->Some_0;
            &&& l.frame == m.frame + 1
            &&& l.next_send_frame == m.next_send_frame
            &&& forall|f: u64|
                f != m.next_send_frame ==> #[trigger] l.scheduled(f) == m.scheduled(f)
        })
}

proof fn lemma_waits<C: EmulatorCore, T: MonotonicTimestampProvider>(
    before: Seq<SuperShuckieCore<C, T>>,
    after: Seq<SuperShuckieCore<C, T>>,
    pressed: Input,
    n: nat,
)
    requires
        consecutive_boundaries(before, after),
        1 <= n < before.len(),
        before[0].input.next == Some(pressed),
        before[0].input.rapid_fire is None,
        before[0].input.toggled is None,
        before[0].together.link->Some_0.next_send_frame > before[0].together.link->Some_0.frame,
        before[0].together.link->Some_0.next_send_frame + n < u64::MAX,
        before[0].together.link->Some_0.frame + n
            <= before[0].together.link->Some_0.next_send_frame,
    ensures
        ({
            let l = before[0].together.link->Some_0;
            let m = before[n as int].together.link->Some_0;
            &&& m.frame == l.frame + n
            &&& m.next_send_frame == l.next_send_frame + n
            &&& m.scheduled(l.next_send_frame).len() > 0
            &&& m.scheduled(l.next_send_frame).last() == (packet::PacketModel::ChangeInput {
                data: before[0].core.encoded(pressed),
            })
        }),
    decreases n,
{
    let l = before[0].together.link->Some_0;
    let f = l.next_send_frame;
    if n == 1 {
        law_fresh_input_goes_onto_the_cable(before[0], after[0], pressed);
        let i = 0int;
        let j = 1int;
        assert(before[j].together.link->Some_0.scheduled(f) == after[i].together.link->Some_0.scheduled(f));
    } else {
        lemma_waits(before, after, pressed, (n - 1) as nat);
        let i = n - 1;
        let j = n as int;
        assert(before[i].local_prepared(after[i]));
        lemma_boundary(before[i], after[i]);
        law_scheduled_frames_wait(before[i], after[i], f);
        assert(before[j].together.link->Some_0.scheduled(f) == after[i].together.link->Some_0.scheduled(f));
    }
}

proof fn lemma_boundary<C: EmulatorCore, T: MonotonicTimestampProvider>(
    before: SuperShuckieCore<C, T>,
    after: SuperShuckieCore<C, T>,
)
    requires
        before.local_prepared(after),
        before.together.link is Some,
        before.together.link->Some_0.next_send_frame < u64::MAX,
    ensures
        after.together.link is Some,
        after.together.link->Some_0.frame == before.together.link->Some_0.frame,
        after.together.link->Some_0.next_send_frame
            == before.together.link->Some_0.next_send_frame + 1,
{
    let (sent, scheduled) = choose|sent: SuperShuckieCore<C, T>, scheduled: cable::LinkState|
        #[trigger]
        before.frame_sent(sent, scheduled) && if scheduled.queue@.contains_key(scheduled.frame) {
            sent.events_applied(
                after,
                scheduled.scheduled(scheduled.frame),
                scheduled.scheduled_input(scheduled.frame),
            )
        } else {
            after == sent
        };
    lemma_events_follow(before, sent, after, scheduled);
}

/// A button pressed during linked play is pressed: the console is given the input the user held at
/// the boundary of a frame exactly as many frames later as the cable delays inputs.
pub proof fn law_linked_input_arrives_after_the_delay<
    C: EmulatorCore,
    T: MonotonicTimestampProvider,
>(
    before: Seq<SuperShuckieCore<C, T>>,
    after: Seq<SuperShuckieCore<C, T>>,
    pressed: Input,
    delay: nat,
)
    requires
        consecutive_boundaries(before, after),
        before.len() == delay + 1,
        delay >= 1,
        before[0].together.link->Some_0.next_send_frame == before[0].together.link->Some_0.frame
            + delay,
        before[0].together.link->Some_0.next_send_frame + delay < u64::MAX,
        before[0].input.next == Some(pressed),
        before[0].input.rapid_fire is None,
        before[0].input.toggled is None,
    ensures
        after.last().core.log().last() == (CoreCall::SetInput {
            data: before[0].core.encoded(pressed),
        }),
        input_in_force(after.last().core.log()) == Some(before[0].core.encoded(pressed)),
{
    lemma_waits(before, after, pressed, delay);
    let n = delay as int;
    assert(before[n].local_prepared(after[n]));
    law_a_link_frame_runs_with_its_input(before[n], after[n], before[0].core.encoded(pressed));
}

/// The partner's console is given what they sent for its frame, in the order they sent it; before
/// the first frame they could send, it holds what they held when the cable went in.
pub proof fn law_the_partners_input_is_pressed<C: EmulatorCore, T: MonotonicTimestampProvider>(
    local: SuperShuckieCore<C, T>,
    partner: SuperShuckieCore<C, T>,
    local_after: SuperShuckieCore<C, T>,
    partner_after: SuperShuckieCore<C, T>,
    r: super::pairs::PartnerModel,
    data: Seq<u8>,
)
    requires
        local.partner_prepared(partner, local_after, partner_after, r),
        partner.together.partner matches Some(p) && if p.frame < p.delay {
            p.prefill_input@ == data
        } else {
            p.inbox.frames@.contains_key(p.frame) && packet::packet_models(
                p.inbox.frames@[p.frame].events@,
            ).len() > 0 && packet::packet_models(p.inbox.frames@[p.frame].events@).last() == (
            packet::PacketModel::ChangeInput { data })
        },
    ensures
        input_in_force(partner_after.core.log()) == Some(data),
        partner_after.core.log().last() == (CoreCall::SetInput { data }),
{
    let p = partner.together.partner->Some_0;
    let (taken, frame) = choose|taken: SuperShuckieCore<C, T>, frame: Option<cable::LinkFrame>|
        #[trigger]
        partner.partner_frame_taken(taken, frame) && match frame {
            None => {
                &&& local_after == local
                &&& partner_after == taken
                &&& r == (if partner.together.partner->Some_0.inbox.ended {
                    super::pairs::PartnerModel::Ended
                } else {
                    super::pairs::PartnerModel::Waiting
                })
            },
            Some(f) => local.partner_frame_applied(
                taken,
                local_after,
                partner_after,
                f,
                partner.timer.millis,
                r,
            ),
        };
    let f = frame->Some_0;
    let events = packet::packet_models(f.events@);
    let (applied, failure) = choose|
        applied: SuperShuckieCore<C, T>,
        failure: Option<cable::LinkFailure>,
    |
        #![trigger
            taken.partner_events(applied, packet::packet_models(f.events@)),
            local.hash_received(local_after, f.pair_hash, failure)]
        taken.partner_events(applied, packet::packet_models(f.events@)) && partner_after
            == applied.clock_followed(f.elapsed_millis, partner.timer.millis)
            && local.hash_received(local_after, f.pair_hash, failure) && r == (match failure {
            Some(f) => super::pairs::PartnerModel::Failed(f@),
            None => super::pairs::PartnerModel::Ready,
        });
    let steps = choose|steps: Seq<SuperShuckieCore<C, T>>| #[trigger]
        taken.partner_events_in(applied, events, steps);
    let n = events.len() as int;
    assert(steps[n - 1].partner_event(steps[n], events[n - 1]));
    assert(events.last() == events[n - 1]);
    let from = steps[n - 1];
    let last = events[n - 1];
    assert(from.packet_applied(applied, last));
    let (done, wrote) = choose|done: SuperShuckieCore<C, T>, wrote: bool| #[trigger]
        from.packet_done(done, last, wrote) && done.mirrored(applied, last, wrote);
    assert(applied.core.log().drop_last() =~= from.core.log());
}

} // verus!
