//! Stepping two consoles that are linked.
//!
//! The console that is behind in its own emulated time steps, so both machines merge the two
//! timelines alike whichever console each calls its own. The partner's console steps as often as
//! it must before the local one does; a frame of it waits for the events that apply to it.

use super::effects;
use super::effects::Effect;
use super::running;
use super::state::{
    InputState, MonotonicTimestampProvider, RunState, SuperShuckieCore, TimerState, TogetherState,
};
use crate::emulator::console;
use crate::emulator::console::{CoreCall, EmulatorCore, RunTime};
use crate::emulator::input::Input;
use crate::emulator::link;
use crate::emulator::link::LinkError;
use crate::play_together::cable;
use crate::play_together::cable::{
    LinkFailure, LinkFrame, LinkPartnerState, LinkRunOutcome, LinkState, ScheduledFrame,
};
use crate::replay::packet;
use crate::replay::packet::Packet;
use crate::text;
use vstd::prelude::*;
use vstd::string::*;

verus! {

/// Turns of a pair before it is declared stuck (a console whose link time never advances); a slice
/// is a few turns.
pub const MAX_STEPS: u32 = 1_000_000;

/// The two sessions of a pair in the middle of a slice.
pub ghost struct PairState<C, T> {
    pub local: SuperShuckieCore<C, T>,
    pub partner: SuperShuckieCore<C, T>,
    /// Frames the partner's console ran in this slice.
    pub frames: u64,
}

/// How one turn of a pair went.
#[derive(Clone, Debug)]
pub enum LinkTurn {
    /// The slice is over.
    Over(LinkRunOutcome),
    /// The partner's console ran that many frames, and the slice goes on.
    PartnerRan(u64),
}

/// Whether the events of the partner's next frame were there.
#[derive(Clone, Debug)]
pub enum PartnerFrame {
    Ready,
    Waiting,
    Ended,
    Failed(LinkFailure),
}

/// Whether the events of the partner's next frame were there, as the contracts see it.
pub ghost enum PartnerModel {
    Ready,
    Waiting,
    Ended,
    Failed(cable::FailureModel),
}

impl View for PartnerFrame {
    type V = PartnerModel;

    open spec fn view(&self) -> PartnerModel {
        match *self {
            PartnerFrame::Ready => PartnerModel::Ready,
            PartnerFrame::Waiting => PartnerModel::Waiting,
            PartnerFrame::Ended => PartnerModel::Ended,
            PartnerFrame::Failed(failure) => PartnerModel::Failed(failure@),
        }
    }
}

/// A step, as the contracts see it.
pub open spec fn step_model(r: Result<RunTime, LinkError>) -> Result<RunTime, link::ErrorModel> {
    match r {
        Ok(time) => Ok(time),
        Err(e) => Err(e@),
    }
}

/// Whether a link frame may carry a packet.
pub open spec fn link_carries(p: packet::PacketModel) -> bool {
    p is NoOp || p is ChangeInput || p is WriteMemory || p is ResetConsole
}

impl<C: EmulatorCore, T: MonotonicTimestampProvider> SuperShuckieCore<C, T> {
    /// Whether the console is the same end of a cable, or of none.
    pub open spec fn same_end(self, after: Self) -> bool {
        &&& (after.together.link is Some) == (self.together.link is Some)
        &&& (after.together.partner is Some) == (self.together.partner is Some)
    }

    // -----------------------------------------------------------------------------------------
    // The local side of a frame.

    /// After one of the local console's scheduled events was applied; a write only counts if the
    /// console took it.
    pub open spec fn event_applied(
        self,
        after: Self,
        p: packet::PacketModel,
        input: Option<Input>,
    ) -> bool {
        match p {
            packet::PacketModel::ResetConsole => {
                &&& after == (SuperShuckieCore {
                    core: after.core,
                    runs: RunState { epoch: self.runs.epoch.wrapping_add(1), ..self.runs },
                    effects: after.effects,
                    ..self
                })
                &&& self.asked(after, seq![CoreCall::HardReset])
                &&& after.outs() == self.outs() + effects::only_if(
                    self.audio.listening,
                    effects::Out::ClearAudio,
                ) + effects::only_if(self.recorder.active, effects::Out::RecordReset)
                    + effects::only_if(self.together.publishing, effects::Out::PublishReset)
            },
            packet::PacketModel::ChangeInput { data } => {
                &&& after == (SuperShuckieCore {
                    core: after.core,
                    input: InputState {
                        current: match input {
                            Some(input) => input,
                            None => self.input.current,
                        },
                        ..self.input
                    },
                    effects: after.effects,
                    ..self
                })
                &&& self.asked(after, seq![CoreCall::SetInput { data }])
                &&& after.outs() == self.outs() + effects::only_if(
                    self.together.publishing,
                    effects::Out::PublishInput { data },
                ) + effects::only_if(self.recorder.active, effects::Out::RecordInput { data })
            },
            packet::PacketModel::WriteMemory { address, data } => if address <= u32::MAX {
                let written = match after.core.log().last() {
                    CoreCall::WriteRam { written, .. } => written,
                    _ => false,
                };
                &&& after == (SuperShuckieCore {
                    core: after.core,
                    effects: after.effects,
                    ..self
                })
                &&& self.asked(
                    after,
                    seq![CoreCall::WriteRam { address: address as u32, data, written }],
                )
                &&& after.outs() == self.outs() + effects::only_if(
                    written && self.together.publishing,
                    effects::Out::PublishWrite { address, data },
                ) + effects::only_if(
                    written && self.recorder.active,
                    effects::Out::RecordWrite { address, data },
                )
            } else {
                after == self
            },
            _ => after == self,
        }
    }

    fn apply_event(&mut self, p: &Packet, input: Option<Input>)
        requires
            old(self).wf(),
        ensures
            final(self).wf(),
            old(self).event_applied(*final(self), p@, input),
            old(self).same_end(*final(self)),
    {
        let ghost before = *self;
        match p {
            Packet::ResetConsole => {
                self.core.hard_reset();
                self.bump_state_epoch();
                self.clear_audio();
                self.record(Effect::RecordReset);
                self.publish(Effect::PublishReset);
                assert(self.core.log() =~= before.core.log() + seq![CoreCall::HardReset]);
            },
            Packet::ChangeInput { data } => {
                self.core.set_input_encoded(data.as_slice());
                if let Some(input) = input {
                    self.input.current = input;
                }
                self.publish(Effect::PublishInput { data: packet::copy_bytes(data) });
                self.record(Effect::RecordInput { data: packet::copy_bytes(data) });
                assert(self.core.log() =~= before.core.log() + seq![
                    CoreCall::SetInput { data: data@ },
                ]);
            },
            Packet::WriteMemory { address, data } => {
                if *address <= u32::MAX as u64 {
                    let to: u32 = *address as u32;
                    // Recorded only if it was applied, as any external write is.
                    let written: bool = self.core.write_ram(to, data.as_slice()).is_ok();
                    if written {
                        self.publish(
                            Effect::PublishWrite {
                                address: *address,
                                data: packet::copy_bytes(data),
                            },
                        );
                        self.record(
                            Effect::RecordWrite {
                                address: *address,
                                data: packet::copy_bytes(data),
                            },
                        );
                    } else {
                        let ghost outs = before.outs();
                        assert(outs + Seq::<effects::Out>::empty() =~= outs);
                    }
                    assert(self.core.log() =~= before.core.log() + seq![
                        CoreCall::WriteRam { address: to, data: data@, written },
                    ]);
                    assert(self.core.log().last() == CoreCall::WriteRam {
                        address: to,
                        data: data@,
                        written,
                    });
                }
            },
            _ => {},
        }
    }

    /// Whether each step applies one of the events.
    pub open spec fn events_applied_in(
        self,
        after: Self,
        events: Seq<packet::PacketModel>,
        input: Option<Input>,
        steps: Seq<Self>,
    ) -> bool {
        &&& steps.len() == events.len() + 1
        &&& steps[0] == self
        &&& steps.last() == after
        &&& forall|i: int, j: int|
            0 <= i && j == i + 1 && j < steps.len() ==> (#[trigger] steps[i]).event_applied(
                #[trigger] steps[j],
                events[i],
                input,
            )
    }

    /// After the local console's events of a frame were applied, in their order.
    pub open spec fn events_applied(
        self,
        after: Self,
        events: Seq<packet::PacketModel>,
        input: Option<Input>,
    ) -> bool {
        exists|steps: Seq<Self>| #[trigger] self.events_applied_in(after, events, input, steps)
    }

    fn apply_events(&mut self, scheduled: &ScheduledFrame)
        requires
            old(self).wf(),
        ensures
            final(self).wf(),
            old(self).events_applied(
                *final(self),
                packet::packet_models(scheduled.events@),
                scheduled.input,
            ),
            old(self).same_end(*final(self)),
    {
        let ghost before = *self;
        let ghost events = packet::packet_models(scheduled.events@);
        let ghost mut steps: Seq<Self> = seq![*self];
        let mut n: usize = 0;
        while n < scheduled.events.len()
            invariant
                n <= scheduled.events@.len(),
                events == packet::packet_models(scheduled.events@),
                self.wf(),
                steps.len() == n + 1,
                steps[0] == before,
                steps.last() == *self,
                before.same_end(*self),
                forall|i: int, j: int|
                    0 <= i && j == i + 1 && j < steps.len() ==> (
                    #[trigger] steps[i]).event_applied(
                        #[trigger] steps[j],
                        events[i],
                        scheduled.input,
                    ),
            decreases scheduled.events@.len() - n,
        {
            let ghost done = steps;
            let ghost at = *self;
            self.apply_event(&scheduled.events[n], scheduled.input);
            proof {
                assert(events[n as int] == scheduled.events@[n as int]@);
                steps = steps.push(*self);
                assert forall|i: int, j: int| 0 <= i && j == i + 1 && j < steps.len() implies (
                #[trigger] steps[i]).event_applied(
                    #[trigger] steps[j],
                    events[i],
                    scheduled.input,
                ) by {
                    if j < done.len() {
                        assert(done[i].event_applied(done[j], events[i], scheduled.input));
                    } else {
                        assert(steps[i] == at);
                    }
                }
            }
            n = n + 1;
        }
        assert(before.events_applied_in(*self, events, scheduled.input, steps));
    }

    /// After the local console's fresh input was scheduled and sent to the partner, with whatever
    /// else is scheduled for that frame, and the events of the frame about to run were taken.
    pub open spec fn frame_sent(self, after: Self, scheduled: LinkState) -> bool {
        let input = self.pending_input();
        let data = self.core.encoded(input);
        &&& self.together.link is Some
        &&& after.together.link is Some
        &&& after == (SuperShuckieCore {
            input: InputState { next: None, base: self.pending_base(), ..self.input },
            together: TogetherState { link: after.together.link, ..self.together },
            effects: after.effects,
            ..self
        })
        &&& self.together.link->Some_0.with_fresh_input(scheduled, data, input)
        &&& scheduled.with_frame_started(after.together.link->Some_0)
        &&& after.outs() == self.outs().push(
            effects::Out::SendLinkFrame {
                frame: self.together.link->Some_0.next_send_frame,
                elapsed_millis: self.file_millis(),
                events: scheduled.scheduled(self.together.link->Some_0.next_send_frame),
                pair_hash: self.together.link->Some_0.pending_hash,
            },
        )
    }

    /// At a local frame boundary: this frame's fresh input goes out `delay` frames ahead, and what
    /// is scheduled for the frame about to run is applied.
    pub open spec fn local_prepared(self, after: Self) -> bool {
        exists|sent: Self, scheduled: LinkState| #[trigger]
            self.frame_sent(sent, scheduled) && if scheduled.queue@.contains_key(
                scheduled.frame,
            ) {
                sent.events_applied(
                    after,
                    scheduled.scheduled(scheduled.frame),
                    scheduled.scheduled_input(scheduled.frame),
                )
            } else {
                after == sent
            }
    }

    /// At a local frame boundary: schedule this frame's fresh input `delay` frames ahead, send that
    /// link frame to the partner, and apply the events scheduled for the frame about to run.
    pub fn link_prepare_local_frame(&mut self)
        requires
            old(self).wf(),
            old(self).together.link is Some,
        ensures
            final(self).wf(),
            old(self).local_prepared(*final(self)),
            old(self).same_end(*final(self)),
    {
        let ghost before = *self;
        let elapsed_millis: u64 = self.recording_millis();
        let input: Input = self.compute_pending_input();
        let data: Vec<u8> = self.core.encode_input(input);
        let ghost encoded = data@;
        if let Some(mut link) = self.together.link.take() {
            let ghost first = link;
            let frame: u64 = link.next_send_frame;
            let pair_hash: Option<(u64, [u8; 32])> = link.pending_hash;
            let events: Vec<Packet> = link.schedule_input(data, input);
            let ghost scheduled = link;
            let taken: Option<ScheduledFrame> = link.start_frame();
            self.together.link = Some(link);
            let ghost told = self.outs();
            self.tell(Effect::SendLinkFrame { frame, elapsed_millis, events, pair_hash });
            let ghost sent = *self;
            proof {
                assert(self.outs() =~= told.push(
                    effects::Out::SendLinkFrame {
                        frame,
                        elapsed_millis,
                        events: packet::packet_models(events@),
                        pair_hash,
                    },
                ));
                assert(before.frame_sent(sent, scheduled));
            }
            if let Some(events) = taken {
                self.apply_events(&events);
            }
            assert(before.local_prepared(*self));
        }
    }

    // -----------------------------------------------------------------------------------------
    // The partner's side of a frame.

    /// After one of the partner's events was applied, if a link frame may carry it.
    pub open spec fn partner_event(self, after: Self, p: packet::PacketModel) -> bool {
        if link_carries(p) {
            self.packet_applied(after, p)
        } else {
            after == self
        }
    }

    /// Whether each step applies one of the partner's events.
    pub open spec fn partner_events_in(
        self,
        after: Self,
        events: Seq<packet::PacketModel>,
        steps: Seq<Self>,
    ) -> bool {
        &&& steps.len() == events.len() + 1
        &&& steps[0] == self
        &&& steps.last() == after
        &&& forall|i: int, j: int|
            0 <= i && j == i + 1 && j < steps.len() ==> (#[trigger] steps[i]).partner_event(
                #[trigger] steps[j],
                events[i],
            )
    }

    /// After the partner's events of a frame were applied, in their order.
    pub open spec fn partner_events(self, after: Self, events: Seq<packet::PacketModel>) -> bool {
        exists|steps: Seq<Self>| #[trigger] self.partner_events_in(after, events, steps)
    }

    fn apply_partner_events(&mut self, events: &Vec<Packet>)
        requires
            old(self).wf(),
        ensures
            final(self).wf(),
            old(self).partner_events(*final(self), packet::packet_models(events@)),
            old(self).same_end(*final(self)),
    {
        let ghost before = *self;
        let ghost models = packet::packet_models(events@);
        let ghost mut steps: Seq<Self> = seq![*self];
        let mut n: usize = 0;
        while n < events.len()
            invariant
                n <= events@.len(),
                models == packet::packet_models(events@),
                self.wf(),
                steps.len() == n + 1,
                steps[0] == before,
                steps.last() == *self,
                before.same_end(*self),
                forall|i: int, j: int|
                    0 <= i && j == i + 1 && j < steps.len() ==> (
                    #[trigger] steps[i]).partner_event(#[trigger] steps[j], models[i]),
            decreases events@.len() - n,
        {
            let ghost done = steps;
            let ghost at = *self;
            let p: &Packet = &events[n];
            let carried: bool = match p {
                Packet::NoOp => true,
                Packet::ChangeInput { .. } => true,
                Packet::WriteMemory { .. } => true,
                Packet::ResetConsole => true,
                _ => false,
            };
            if carried {
                self.apply_playback_packet(p);
            }
            proof {
                assert(models[n as int] == events@[n as int]@);
                steps = steps.push(*self);
                assert forall|i: int, j: int| 0 <= i && j == i + 1 && j < steps.len() implies (
                #[trigger] steps[i]).partner_event(#[trigger] steps[j], models[i]) by {
                    if j < done.len() {
                        assert(done[i].partner_event(done[j], models[i]));
                    } else {
                        assert(steps[i] == at);
                    }
                }
            }
            n = n + 1;
        }
        assert(before.partner_events_in(*self, models, steps));
    }

    /// After asking for the events of the partner's next frame: for the first `delay` frames the
    /// input the partner held, and the clock where its stream left it; then what arrived.
    pub open spec fn partner_frame_taken(self, after: Self, r: Option<LinkFrame>) -> bool {
        &&& self.together.partner is Some
        &&& after.together.partner is Some
        &&& after == (SuperShuckieCore {
            together: TogetherState { partner: after.together.partner, ..self.together },
            ..self
        })
        &&& {
            let p = self.together.partner->Some_0;
            let q = after.together.partner->Some_0;
            if p.frame < p.delay {
                &&& q == (LinkPartnerState { frame_prepared: true, ..p })
                &&& r matches Some(f) && packet::packet_models(f.events@) == cable::prefilled(
                    p.prefill_input@,
                ) && f.elapsed_millis == self.timer.millis && f.pair_hash is None
            } else {
                &&& q == (LinkPartnerState {
                    inbox: q.inbox,
                    frame_prepared: p.frame_prepared || r is Some,
                    ..p
                })
                &&& p.inbox.took(q.inbox, p.frame, r)
            }
        }
    }

    fn take_partner_frame(&mut self) -> (r: Option<LinkFrame>)
        requires
            old(self).wf(),
            old(self).together.partner is Some,
        ensures
            final(self).wf(),
            old(self).partner_frame_taken(*final(self), r),
            old(self).same_end(*final(self)),
    {
        let now: u64 = self.timer.millis;
        if let Some(mut p) = self.together.partner.take() {
            let ghost first = p;
            let taken: Option<LinkFrame> = if p.frame < p.delay {
                let mut events: Vec<Packet> = Vec::new();
                events.push(Packet::ChangeInput { data: packet::copy_bytes(&p.prefill_input) });
                assert(packet::packet_models(events@) =~= cable::prefilled(p.prefill_input@));
                Some(LinkFrame { events, elapsed_millis: now, pair_hash: None })
            } else {
                let frame: u64 = p.frame;
                p.inbox.take(frame)
            };
            if taken.is_some() {
                p.frame_prepared = true;
            }
            self.together.partner = Some(p);
            taken
        } else {
            None
        }
    }

    /// After a pair hash the partner sent was noted here and compared.
    pub open spec fn hash_received(
        self,
        after: Self,
        pair_hash: Option<(u64, [u8; 32])>,
        failure: Option<LinkFailure>,
    ) -> bool {
        match pair_hash {
            None => after == self && failure is None,
            Some(hash) => exists|noted: LinkState, matched: LinkState| #[trigger]
                noted.with_hashes_matched(matched, failure) && self.together.link is Some && noted
                    == (LinkState {
                    received_hashes: noted.received_hashes,
                    ..self.together.link->Some_0
                }) && noted.received_hashes@ == self.together.link->Some_0.received_hashes@.push(
                    hash,
                ) && after == self.with_link(Some(matched)),
        }
    }

    fn receive_hash(&mut self, pair_hash: Option<(u64, [u8; 32])>) -> (r: Option<LinkFailure>)
        requires
            old(self).wf(),
            old(self).together.link is Some,
        ensures
            final(self).wf(),
            old(self).hash_received(*final(self), pair_hash, r),
            old(self).same_end(*final(self)),
    {
        let hash: (u64, [u8; 32]) = match pair_hash {
            Some(hash) => hash,
            None => return None,
        };
        let ghost before = *self;
        if let Some(mut link) = self.together.link.take() {
            link.received_hashes.push(hash);
            let ghost noted = link;
            let failure: Option<LinkFailure> = link.match_hashes();
            let ghost matched = link;
            self.together.link = Some(link);
            assert(noted.with_hashes_matched(matched, failure));
            assert(*self == before.with_link(Some(matched)));
            failure
        } else {
            None
        }
    }

    /// The partner's clock: the sender's own, as of `delay` frames ago (never backwards).
    pub open spec fn clock_followed(self, sent: u64, now: u64) -> Self {
        SuperShuckieCore {
            timer: TimerState {
                millis: if sent > now {
                    sent
                } else {
                    now
                },
                ..self.timer
            },
            ..self
        }
    }

    /// After preparing the partner's next frame.
    pub open spec fn partner_prepared(
        self,
        partner: Self,
        after: Self,
        partner_after: Self,
        r: PartnerModel,
    ) -> bool {
        exists|taken: Self, frame: Option<LinkFrame>| #[trigger]
            partner.partner_frame_taken(taken, frame) && match frame {
                None => {
                    &&& after == self
                    &&& partner_after == taken
                    &&& r == (if partner.together.partner->Some_0.inbox.ended {
                        PartnerModel::Ended
                    } else {
                        PartnerModel::Waiting
                    })
                },
                Some(f) => self.partner_frame_applied(
                    taken,
                    after,
                    partner_after,
                    f,
                    partner.timer.millis,
                    r,
                ),
            }
    }

    /// After applying the events of a frame of the partner's that were there.
    pub open spec fn partner_frame_applied(
        self,
        partner: Self,
        after: Self,
        partner_after: Self,
        frame: LinkFrame,
        now: u64,
        r: PartnerModel,
    ) -> bool {
        exists|applied: Self, failure: Option<LinkFailure>|
            #![trigger
                partner.partner_events(applied, packet::packet_models(frame.events@)),
                self.hash_received(after, frame.pair_hash, failure)]
            partner.partner_events(applied, packet::packet_models(frame.events@))
                && partner_after == applied.clock_followed(frame.elapsed_millis, now)
                && self.hash_received(after, frame.pair_hash, failure) && r == (match failure {
                Some(f) => PartnerModel::Failed(f@),
                None => PartnerModel::Ready,
            })
    }

    /// At a partner frame boundary: apply the partner's events for the frame about to run (the
    /// pre-filled input for the first `delay` frames, then what arrived) and note any pair hash
    /// they sent.
    pub fn link_prepare_partner_frame(&mut self, partner: &mut Self) -> (r: PartnerFrame)
        requires
            old(self).wf(),
            old(partner).wf(),
            old(self).together.link is Some,
            old(partner).together.partner is Some,
        ensures
            final(self).wf(),
            final(partner).wf(),
            old(self).partner_prepared(*old(partner), *final(self), *final(partner), r@),
            old(self).same_end(*final(self)),
            old(partner).same_end(*final(partner)),
    {
        let ghost before = *self;
        let ghost partner_before = *partner;
        let now: u64 = partner.timer.millis;
        let ended: bool = match &partner.together.partner {
            Some(p) => p.inbox.ended(),
            None => false,
        };
        let frame: Option<LinkFrame> = partner.take_partner_frame();
        let ghost taken = *partner;
        assert(partner_before.partner_frame_taken(taken, frame));
        match frame {
            None => if ended {
                PartnerFrame::Ended
            } else {
                PartnerFrame::Waiting
            },
            Some(f) => {
                partner.apply_partner_events(&f.events);
                let ghost applied = *partner;
                partner.timer.millis = if f.elapsed_millis > now {
                    f.elapsed_millis
                } else {
                    now
                };
                let failure: Option<LinkFailure> = self.receive_hash(f.pair_hash);
                let ghost outcome = failure;
                let r: PartnerFrame = match failure {
                    Some(failure) => PartnerFrame::Failed(failure),
                    None => PartnerFrame::Ready,
                };
                proof {
                    assert(taken.partner_events(applied, packet::packet_models(f.events@)));
                    assert(before.hash_received(*self, f.pair_hash, outcome));
                    assert(before.partner_frame_applied(taken, *self, *partner, f, now, r@));
                }
                r
            },
        }
    }

    // -----------------------------------------------------------------------------------------
    // Steps.

    /// After the core stepped with the cable in, for as long as it says.
    pub open spec fn cable_ran(
        self,
        after: Self,
        paced: bool,
        outcome: Result<RunTime, link::ErrorModel>,
    ) -> bool {
        &&& after == (SuperShuckieCore { core: after.core, ..self })
        &&& self.asked(after, seq![CoreCall::StepLinked { paced, outcome }])
    }

    /// With nothing but the other end of the cable noticed.
    pub open spec fn beside(self, after: Self) -> bool {
        &&& after == (SuperShuckieCore { core: after.core, ..self })
        &&& after.core.mid_frame() == self.core.mid_frame()
        &&& self.asked(after, seq![CoreCall::SteppedBeside])
    }

    /// After one step of a linked console.
    pub open spec fn link_stepped(
        self,
        other: Self,
        after: Self,
        other_after: Self,
        paced: bool,
        r: Result<RunTime, link::ErrorModel>,
    ) -> bool {
        let start = SuperShuckieCore {
            runs: RunState { last: console::no_time(), ..self.runs },
            ..self
        };
        if !self.core.identity().has_link_port {
            &&& after == start
            &&& other_after == other
            &&& r == Err::<RunTime, link::ErrorModel>(link::ErrorModel::NotConnected)
        } else {
            &&& other.beside(other_after)
            &&& exists|core_ran: Self| #[trigger]
                start.cable_ran(core_ran, paced, r) && match r {
                    Ok(time) => core_ran.cable_timed(after, time),
                    Err(_) => after == core_ran,
                }
        }
    }

    /// After what follows a linked step.
    pub open spec fn cable_timed(self, after: Self, time: RunTime) -> bool {
        exists|timed: Self| #[trigger]
            self.after_ran(timed, time) && timed.audio_drained(after, true)
    }

    /// One step of a linked console: the port's linked step, then the usual work after a run (frame
    /// timekeeping with the link traffic captured, keyframes, sound).
    pub fn link_step(&mut self, other: &mut Self, paced: bool) -> (r: Result<RunTime, LinkError>)
        requires
            old(self).wf(),
            old(other).wf(),
        ensures
            final(self).wf(),
            final(other).wf(),
            old(self).link_stepped(
                *old(other),
                *final(self),
                *final(other),
                paced,
                step_model(r),
            ),
            old(self).same_end(*final(self)),
            old(other).same_end(*final(other)),
    {
        self.runs.last = RunTime::none();
        if !self.core.has_link_port() {
            return Err(LinkError::NotConnected);
        }
        let ghost start = *self;
        let ghost other_before = *other;
        let r: Result<RunTime, LinkError> = self.core.step_linked(&mut other.core, paced);
        let ghost core_ran = *self;
        proof {
            assert(core_ran.core.log() =~= start.core.log() + seq![
                CoreCall::StepLinked { paced, outcome: step_model(r) },
            ]);
            assert(other.core.log() =~= other_before.core.log() + seq![CoreCall::SteppedBeside]);
            assert(start.cable_ran(core_ran, paced, step_model(r)));
            assert(other_before.beside(*other));
        }
        match r {
            Ok(time) => {
                self.after_run(time);
                let ghost timed = *self;
                assert(core_ran.after_ran(timed, time));
                self.drain_audio(true);
                assert(core_ran.cable_timed(*self, time));
                Ok(time)
            },
            Err(e) => Err(e),
        }
    }

    // -----------------------------------------------------------------------------------------
    // Turns.

    /// With the link broken.
    pub open spec fn link_failed(self, after: Self, failure: cable::FailureModel) -> bool {
        match self.together.link {
            Some(l) => after.together.link matches Some(m) && (m.failure matches Some(f) && f@
                == failure && m == (LinkState { failure: m.failure, ..l })) && after
                == self.with_link(after.together.link),
            None => after == self,
        }
    }

    /// Whether the link, if a slice ended with its failure, is broken for that reason.
    pub open spec fn broke_as(self, end: cable::RunModel) -> bool {
        end matches cable::RunModel::Failed(failure) ==> {
            &&& self.together.link matches Some(l)
            &&& l.failure matches Some(f)
            &&& f@ == failure
        }
    }

    fn link_fail(&mut self, failure: LinkFailure) -> (r: LinkRunOutcome)
        requires
            old(self).wf(),
        ensures
            final(self).wf(),
            old(self).link_failed(*final(self), failure@),
            old(self).same_end(*final(self)),
            r@ == cable::RunModel::Failed(failure@),
    {
        if let Some(mut link) = self.together.link.take() {
            link.failure = Some(failure.duplicate());
            self.together.link = Some(link);
        }
        LinkRunOutcome::Failed(failure)
    }

    /// With a link frame of the first console completed, if one was.
    pub open spec fn first_frame_counted(self, completed: bool) -> Self {
        match self.together.link {
            Some(l) => if completed {
                self.with_link(Some(l.with_first_frame()))
            } else {
                self
            },
            None => self,
        }
    }

    fn link_first_frame_completed(&mut self, completed: bool)
        requires
            old(self).wf(),
        ensures
            final(self).wf(),
            *final(self) == old(self).first_frame_counted(completed),
            old(self).same_end(*final(self)),
    {
        if completed {
            if let Some(mut link) = self.together.link.take() {
                link.first_frame_completed();
                self.together.link = Some(link);
            }
        }
    }

    /// With the link marked as stalled or not.
    pub open spec fn stall_marked(self, stalled: bool) -> Self {
        match self.together.link {
            Some(l) => self.with_link(Some(LinkState { stalled, ..l })),
            None => self,
        }
    }

    fn mark_stall(&mut self, stalled: bool)
        requires
            old(self).wf(),
        ensures
            final(self).wf(),
            *final(self) == old(self).stall_marked(stalled),
            old(self).same_end(*final(self)),
    {
        if let Some(mut link) = self.together.link.take() {
            link.stalled = stalled;
            self.together.link = Some(link);
        }
    }

    /// The hash of the pair, the first console's first.
    pub open spec fn pair_hash(self, partner: Self) -> [u8; 32] {
        let local = self.core.work_ram_hash();
        let other = partner.core.work_ram_hash();
        if self.together.link->Some_0.settings.local_is_first {
            C::hash_of_pair(local, other)
        } else {
            C::hash_of_pair(other, local)
        }
    }

    /// After taking a pair hash that was due: it is taken once the second console has caught up,
    /// right before the first steps again.
    pub open spec fn due_hash_taken(
        self,
        partner: Self,
        after: Self,
        second_runs: bool,
        failure: Option<LinkFailure>,
    ) -> bool {
        let l = self.together.link->Some_0;
        if second_runs || l.hash_due_at is None {
            after == self && failure is None
        } else {
            exists|noted: LinkState, matched: LinkState|
                #![trigger noted.with_hashes_matched(matched, failure)]
                (LinkState { hash_due_at: None, ..l }).with_computed(
                    l.hash_due_at->Some_0,
                    self.pair_hash(partner),
                    noted,
                ) && noted.with_hashes_matched(matched, failure) && after == self.with_link(
                    Some(matched),
                )
        }
    }

    fn take_due_hash(&mut self, partner: &Self, second_runs: bool) -> (r: Option<LinkFailure>)
        requires
            old(self).wf(),
            old(self).together.link is Some,
        ensures
            final(self).wf(),
            old(self).due_hash_taken(*partner, *final(self), second_runs, r),
            old(self).same_end(*final(self)),
    {
        if second_runs {
            return None;
        }
        let ghost before = *self;
        let mine: Option<[u8; 32]> = self.core.sync_hash();
        let theirs: Option<[u8; 32]> = partner.core.sync_hash();
        if let Some(mut link) = self.together.link.take() {
            let failure: Option<LinkFailure> = match link.hash_due_at {
                None => None,
                Some(frame) => {
                    link.hash_due_at = None;
                    let hash: [u8; 32] = if link.settings.local_is_first {
                        C::pair_hash(mine, theirs)
                    } else {
                        C::pair_hash(theirs, mine)
                    };
                    let ghost cleared = link;
                    let failure: Option<LinkFailure> = link.note_computed_hash(frame, hash);
                    proof {
                        let noted = choose|noted: LinkState| #[trigger]
                            cleared.with_computed(frame, hash, noted)
                                && noted.with_hashes_matched(link, failure);
                        assert(noted.with_hashes_matched(link, failure));
                    }
                    failure
                },
            };
            self.together.link = Some(link);
            assert(before.due_hash_taken(*partner, *self, second_runs, failure)) by {
                let l = before.together.link->Some_0;
                if l.hash_due_at is Some {
                    let frame = l.hash_due_at->Some_0;
                    let cleared = LinkState { hash_due_at: None, ..l };
                    let hash = before.pair_hash(*partner);
                    let noted = choose|noted: LinkState| #[trigger]
                        cleared.with_computed(frame, hash, noted) && noted.with_hashes_matched(
                            link,
                            failure,
                        );
                    assert(noted.with_hashes_matched(link, failure));
                    assert(*self == before.with_link(Some(link)));
                } else {
                    assert(*self == before);
                }
            }
            failure
        } else {
            None
        }
    }

    /// After preparing the frame about to run, if it is not prepared yet.
    pub open spec fn local_readied(self, after: Self) -> bool {
        if !self.core.mid_frame() && !self.together.link->Some_0.frame_prepared {
            self.local_prepared(after)
        } else {
            after == self
        }
    }

    fn ready_local(&mut self)
        requires
            old(self).wf(),
            old(self).together.link is Some,
        ensures
            final(self).wf(),
            old(self).local_readied(*final(self)),
            old(self).same_end(*final(self)),
    {
        let prepared: bool = match &self.together.link {
            Some(l) => l.frame_prepared,
            None => true,
        };
        if !self.core.is_mid_frame() && !prepared {
            self.link_prepare_local_frame();
        }
    }

    fn local_turn(&mut self, partner: &mut Self, frames: u64) -> (r: LinkRunOutcome)
        requires
            old(self).wf(),
            old(partner).wf(),
            old(self).together.link is Some,
        ensures
            final(self).wf(),
            final(partner).wf(),
            old(self).same_end(*final(self)),
            old(partner).same_end(*final(partner)),
            (PairState { local: *old(self), partner: *old(partner), frames }).local_turned(
                PairState { local: *final(self), partner: *final(partner), frames },
                r@,
            ),
            final(self).broke_as(r@),
    {
        proof {
            reveal(PairState::local_turned);
        }
        let ghost from = PairState { local: *self, partner: *partner, frames };
        self.ready_local();
        let ghost ready = *self;
        let (paced, first): (bool, bool) = match &self.together.link {
            Some(l) => (l.paced, l.settings.local_is_first),
            None => (false, false),
        };
        let stepped: Result<RunTime, LinkError> = self.link_step(partner, paced);
        let ghost after_step = *self;
        let ghost outcome = step_model(stepped);
        let r: LinkRunOutcome = match stepped {
            Ok(time) => {
                self.link_first_frame_completed(time.frames > 0 && first);
                self.mark_stall(false);
                LinkRunOutcome::Ran { local: time, partner_frames: frames }
            },
            Err(e) => {
                let message: String = e.message();
                self.link_fail(
                    LinkFailure::Emulator(
                        text::joined("the local console failed: ", message.as_str()),
                    ),
                )
            },
        };
        proof {
            assert(from.local.local_readied(ready));
            assert(ready.link_stepped(
                from.partner,
                after_step,
                *partner,
                ready.together.link->Some_0.paced,
                outcome,
            ));
            assert(from.local_turned(
                PairState { local: *self, partner: *partner, frames },
                r@,
            ));
        }
        r
    }

    fn partner_turn(&mut self, partner: &mut Self, frames: u64) -> (r: LinkTurn)
        requires
            old(self).wf(),
            old(partner).wf(),
            old(self).together.link is Some,
            old(partner).together.partner is Some,
        ensures
            final(self).wf(),
            final(partner).wf(),
            old(self).same_end(*final(self)),
            old(partner).same_end(*final(partner)),
            (PairState { local: *old(self), partner: *old(partner), frames }).partner_turned(
                PairState {
                    local: *final(self),
                    partner: *final(partner),
                    frames: frames_after(frames, r),
                },
                turn_end(r),
            ),
            turn_end(r) matches Some(end) ==> final(self).broke_as(end),
    {
        proof {
            reveal(PairState::partner_turned);
            reveal(PairState::partner_readied);
        }
        let ghost from = PairState { local: *self, partner: *partner, frames };
        let prepared: bool = match &partner.together.partner {
            Some(p) => p.frame_prepared,
            None => true,
        };
        let ready: PartnerFrame = if !partner.core.is_mid_frame() && !prepared {
            self.link_prepare_partner_frame(partner)
        } else {
            PartnerFrame::Ready
        };
        let ghost readied = PairState { local: *self, partner: *partner, frames };
        assert(from.partner_readied(readied, ready@));
        match ready {
            PartnerFrame::Waiting => {
                self.mark_stall(true);
                LinkTurn::Over(LinkRunOutcome::Stalled)
            },
            PartnerFrame::Ended => LinkTurn::Over(self.link_fail(LinkFailure::PartnerEnded)),
            PartnerFrame::Failed(failure) => LinkTurn::Over(self.link_fail(failure)),
            PartnerFrame::Ready => self.step_partner(partner, frames),
        }
    }

    fn step_partner(&mut self, partner: &mut Self, frames: u64) -> (r: LinkTurn)
        requires
            old(self).wf(),
            old(partner).wf(),
            old(self).together.link is Some,
            old(partner).together.partner is Some,
        ensures
            final(self).wf(),
            final(partner).wf(),
            old(self).same_end(*final(self)),
            old(partner).same_end(*final(partner)),
            (PairState { local: *old(self), partner: *old(partner), frames }).partner_stepped(
                PairState {
                    local: *final(self),
                    partner: *final(partner),
                    frames: frames_after(frames, r),
                },
                turn_end(r),
            ),
            turn_end(r) matches Some(end) ==> final(self).broke_as(end),
    {
        proof {
            reveal(PairState::partner_stepped);
        }
        let ghost from = PairState { local: *self, partner: *partner, frames };
        let first: bool = match &self.together.link {
            Some(l) => l.settings.local_is_first,
            None => true,
        };
        let stepped: Result<RunTime, LinkError> = partner.link_step(self, false);
        let ghost beside = *self;
        let ghost outcome = step_model(stepped);
        assert(from.partner.link_stepped(from.local, *partner, beside, false, outcome));
        match stepped {
            Ok(time) => {
                self.link_first_frame_completed(time.frames > 0 && !first);
                LinkTurn::PartnerRan(time.frames)
            },
            Err(e) => {
                let message: String = e.message();
                LinkTurn::Over(
                    self.link_fail(
                        LinkFailure::Emulator(
                            text::joined("the other player's console failed: ", message.as_str()),
                        ),
                    ),
                )
            },
        }
    }

    fn whose_turn(&self, partner: &Self) -> (r: Result<bool, LinkFailure>)
        requires
            self.together.link is Some,
        ensures
            match (PairState { local: *self, partner: *partner, frames: 0 }).second_runs() {
                Ok(second) => r matches Ok(s) && s == second,
                Err(failure) => r matches Err(f) && f@ == failure,
            },
    {
        if !self.core.has_link_port() || !partner.core.has_link_port() {
            return Err(LinkFailure::Emulator("a console lost its link port".to_owned()));
        }
        let first: bool = match &self.together.link {
            Some(l) => l.settings.local_is_first,
            None => true,
        };
        let decision: Result<bool, LinkError> = if first {
            link::second_runs_next(&self.core, &partner.core)
        } else {
            link::second_runs_next(&partner.core, &self.core)
        };
        match decision {
            Ok(second) => Ok(second),
            Err(e) => Err(LinkFailure::Emulator(e.message())),
        }
    }

    /// One turn of the pair.
    fn link_turn(&mut self, partner: &mut Self, frames: u64) -> (r: LinkTurn)
        requires
            old(self).wf(),
            old(partner).wf(),
            old(self).together.link is Some,
            old(partner).together.partner is Some,
        ensures
            final(self).wf(),
            final(partner).wf(),
            old(self).same_end(*final(self)),
            old(partner).same_end(*final(partner)),
            (PairState { local: *old(self), partner: *old(partner), frames }).turned(
                PairState {
                    local: *final(self),
                    partner: *final(partner),
                    frames: frames_after(frames, r),
                },
                turn_end(r),
            ),
            turn_end(r) matches Some(end) ==> final(self).broke_as(end),
    {
        proof {
            reveal(PairState::turned);
            reveal(PairState::after_hash);
        }
        let ghost from = PairState { local: *self, partner: *partner, frames };
        let second: bool = match self.whose_turn(partner) {
            Ok(second) => second,
            Err(failure) => {
                let r: LinkTurn = LinkTurn::Over(self.link_fail(failure));
                assert(from.second_runs() is Err);
                return r;
            },
        };
        let first: bool = match &self.together.link {
            Some(l) => l.settings.local_is_first,
            None => true,
        };
        let failure: Option<LinkFailure> = self.take_due_hash(partner, second);
        let ghost hashed = PairState { local: *self, partner: *partner, frames };
        assert(from.local.due_hash_taken(from.partner, hashed.local, second, failure));
        if let Some(failure) = failure {
            let r: LinkTurn = LinkTurn::Over(self.link_fail(failure));
            assert(from.after_hash(
                hashed,
                PairState { local: *self, partner: *partner, frames },
                second,
                Some(failure),
                turn_end(r),
            ));
            return r;
        }
        let r: LinkTurn = if second != first {
            LinkTurn::Over(self.local_turn(partner, frames))
        } else {
            self.partner_turn(partner, frames)
        };
        assert(from.after_hash(
            hashed,
            PairState { local: *self, partner: *partner, frames: frames_after(frames, r) },
            second,
            None,
            turn_end(r),
        ));
        r
    }

    /// Why the pair cannot be stepped at all.
    pub open spec fn run_refused(self, partner: Self) -> Option<cable::FailureModel> {
        match self.together.link {
            None => Some(cable::FailureModel::Emulator("not linked"@)),
            Some(l) => if partner.together.partner is None {
                Some(cable::FailureModel::Emulator("the partner is not linked"@))
            } else {
                match l.failure {
                    Some(failure) => Some(failure@),
                    None => None,
                }
            },
        }
    }

    /// After stepping the pair: nothing happens if it cannot be stepped, and a link that breaks is
    /// broken from there on.
    pub open spec fn linked_ran(
        self,
        partner: Self,
        after: Self,
        partner_after: Self,
        r: cable::RunModel,
    ) -> bool {
        match self.run_refused(partner) {
            Some(failure) => {
                &&& r == cable::RunModel::Failed(failure)
                &&& after == self
                &&& partner_after == partner
            },
            None => {
                &&& slice_ran(self, partner, after, partner_after, r)
                &&& after.together.link is Some
                &&& partner_after.together.partner is Some
                &&& after.broke_as(r)
            },
        }
    }

    /// Step the pair: the local console once (paced), with the partner kept in step before and
    /// after it.
    pub fn run_linked(&mut self, partner: &mut Self) -> (r: LinkRunOutcome)
        requires
            old(self).wf(),
            old(partner).wf(),
        ensures
            final(self).wf(),
            final(partner).wf(),
            old(self).linked_ran(*old(partner), *final(self), *final(partner), r@),
    {
        match &self.together.link {
            None => {
                return LinkRunOutcome::Failed(LinkFailure::Emulator("not linked".to_owned()));
            },
            Some(l) => {
                if partner.together.partner.is_none() {
                    return LinkRunOutcome::Failed(
                        LinkFailure::Emulator("the partner is not linked".to_owned()),
                    );
                }
                if let Some(failure) = &l.failure {
                    return LinkRunOutcome::Failed(failure.duplicate());
                }
            },
        }
        let ghost before = *self;
        let ghost partner_before = *partner;
        // The partner's frames are drawn whenever they complete: its window is live.
        partner.set_drawing(false);
        self.set_drawing(false);
        let mut frames: u64 = 0;
        let ghost start = PairState { local: *self, partner: *partner, frames };
        let ghost mut steps: Seq<PairState<C, T>> = seq![start];
        let mut turns: u32 = 0;
        while turns < MAX_STEPS
            invariant
                turns <= MAX_STEPS,
                self.wf(),
                partner.wf(),
                self.together.link is Some,
                partner.together.partner is Some,
                steps.len() == turns + 1,
                steps[0] == start,
                steps.last() == (PairState { local: *self, partner: *partner, frames }),
                before == *old(self),
                partner_before == *old(partner),
                before.run_refused(partner_before) is None,
                before.drawing_set(start.local, false),
                partner_before.drawing_set(start.partner, false),
                start.frames == 0,
                forall|i: int, j: int|
                    0 <= i && j == i + 1 && j < steps.len() ==> (#[trigger] steps[i]).goes_on(
                        #[trigger] steps[j],
                    ),
            decreases MAX_STEPS - turns,
        {
            let ghost at = PairState { local: *self, partner: *partner, frames };
            let ghost done = steps;
            let turn: LinkTurn = self.link_turn(partner, frames);
            let ghost now = PairState {
                local: *self,
                partner: *partner,
                frames: frames_after(frames, turn),
            };
            assert(at.turned(now, turn_end(turn)));
            match turn {
                LinkTurn::Over(outcome) => {
                    proof {
                        assert(slice_ran_in(start, now, outcome@, steps));
                        assert(slice_ran(before, partner_before, *self, *partner, outcome@));
                    }
                    return outcome;
                },
                LinkTurn::PartnerRan(more) => {
                    frames = frames.saturating_add(more);
                    proof {
                        assert(at.goes_on(now));
                        steps = steps.push(now);
                        assert forall|i: int, j: int|
                            0 <= i && j == i + 1 && j < steps.len() implies (
                        #[trigger] steps[i]).goes_on(#[trigger] steps[j]) by {
                            if j < done.len() {
                                assert(done[i].goes_on(done[j]));
                            } else {
                                assert(steps[i] == at);
                            }
                        }
                    }
                },
            }
            turns = turns + 1;
        }
        let ghost last = PairState { local: *self, partner: *partner, frames };
        let r: LinkRunOutcome = self.link_fail(
            LinkFailure::Emulator("the linked consoles stopped making progress".to_owned()),
        );
        proof {
            let now = PairState { local: *self, partner: *partner, frames };
            assert(steps.last() == last);
            assert(last.gives_up(now, r@));
            assert(slice_ran_in(start, now, r@, steps));
            assert(slice_ran(before, partner_before, *self, *partner, r@));
        }
        r
    }
}

/// The frames the partner's console ran so far, with those of a turn.
pub open spec fn frames_after(frames: u64, turn: LinkTurn) -> u64 {
    match turn {
        LinkTurn::Over(_) => frames,
        LinkTurn::PartnerRan(more) => running::frames_sum(frames, more),
    }
}

/// How a turn ended the slice, if it did.
pub open spec fn turn_end(turn: LinkTurn) -> Option<cable::RunModel> {
    match turn {
        LinkTurn::Over(outcome) => Some(outcome@),
        LinkTurn::PartnerRan(_) => None,
    }
}

impl<C: EmulatorCore, T: MonotonicTimestampProvider> PairState<C, T> {
    /// Whether the local console is the first of the pair.
    pub open spec fn local_is_first(self) -> bool {
        self.local.together.link->Some_0.settings.local_is_first
    }

    /// Whether the second console of the pair steps next: the one that is behind in its own
    /// emulated time.
    pub open spec fn second_runs(self) -> Result<bool, cable::FailureModel> {
        let (first, second) = if self.local_is_first() {
            (self.local.core, self.partner.core)
        } else {
            (self.partner.core, self.local.core)
        };
        if !self.local.core.identity().has_link_port
            || !self.partner.core.identity().has_link_port {
            Err(cable::FailureModel::Emulator("a console lost its link port"@))
        } else {
            match link::second_is_next(
                first.asleep(),
                first.linked_for(),
                second.asleep(),
                second.linked_for(),
            ) {
                Some(second) => Ok(second),
                None => Err(cable::FailureModel::Emulator(link::ErrorModel::Deadlock.text())),
            }
        }
    }

    /// After the local console's turn, which ends the slice.
    #[verifier::opaque]
    pub open spec fn local_turned(self, after: Self, end: cable::RunModel) -> bool {
        exists|
            ready: SuperShuckieCore<C, T>,
            stepped: SuperShuckieCore<C, T>,
            r: Result<RunTime, link::ErrorModel>,
        |
            #![trigger
                self.local.local_readied(ready),
                ready.link_stepped(
                    self.partner,
                    stepped,
                    after.partner,
                    ready.together.link->Some_0.paced,
                    r,
                )]
            self.local.local_readied(ready) && ready.link_stepped(
                self.partner,
                stepped,
                after.partner,
                ready.together.link->Some_0.paced,
                r,
            ) && after.frames == self.frames && match r {
                Ok(time) => {
                    let first = ready.together.link->Some_0.settings.local_is_first;
                    &&& end == (cable::RunModel::Ran {
                        local: time,
                        partner_frames: self.frames,
                    })
                    &&& after.local == stepped.first_frame_counted(
                        time.frames > 0 && first,
                    ).stall_marked(false)
                },
                Err(e) => {
                    let failure = cable::FailureModel::Emulator(
                        "the local console failed: "@ + e.text(),
                    );
                    &&& end == cable::RunModel::Failed(failure)
                    &&& stepped.link_failed(after.local, failure)
                },
            }
    }

    /// After the events of the partner's next frame were applied, if it is due.
    #[verifier::opaque]
    pub open spec fn partner_readied(self, after: Self, r: PartnerModel) -> bool {
        &&& after.frames == self.frames
        &&& if !self.partner.core.mid_frame()
            && !self.partner.together.partner->Some_0.frame_prepared {
            self.local.partner_prepared(self.partner, after.local, after.partner, r)
        } else {
            after == self && r == PartnerModel::Ready
        }
    }

    /// After the partner's console stepped.
    #[verifier::opaque]
    pub open spec fn partner_stepped(self, after: Self, end: Option<cable::RunModel>) -> bool {
        exists|beside: SuperShuckieCore<C, T>, r: Result<RunTime, link::ErrorModel>| #[trigger]
            self.partner.link_stepped(self.local, after.partner, beside, false, r) && match r {
                Ok(time) => {
                    let first = self.local_is_first();
                    &&& end is None
                    &&& after.frames == running::frames_sum(self.frames, time.frames)
                    &&& after.local == beside.first_frame_counted(time.frames > 0 && !first)
                },
                Err(e) => {
                    let failure = cable::FailureModel::Emulator(
                        "the other player's console failed: "@ + e.text(),
                    );
                    &&& end == Some(cable::RunModel::Failed(failure))
                    &&& after.frames == self.frames
                    &&& beside.link_failed(after.local, failure)
                },
            }
    }

    /// After the partner's turn: it waits for events that have not arrived, fails, or runs and the
    /// slice goes on.
    #[verifier::opaque]
    pub open spec fn partner_turned(self, after: Self, end: Option<cable::RunModel>) -> bool {
        exists|ready: Self, r: PartnerModel| #[trigger]
            self.partner_readied(ready, r) && match r {
                PartnerModel::Ready => ready.partner_stepped(after, end),
                PartnerModel::Waiting => end == Some(cable::RunModel::Stalled) && after == (
                PairState { local: ready.local.stall_marked(true), ..ready }),
                PartnerModel::Ended => ready.fails(after, cable::FailureModel::PartnerEnded, end),
                PartnerModel::Failed(failure) => ready.fails(after, failure, end),
            }
    }

    /// With the link broken.
    pub open spec fn fails(
        self,
        after: Self,
        failure: cable::FailureModel,
        end: Option<cable::RunModel>,
    ) -> bool {
        &&& end == Some(cable::RunModel::Failed(failure))
        &&& after.partner == self.partner
        &&& after.frames == self.frames
        &&& self.local.link_failed(after.local, failure)
    }

    /// After the part of a turn that follows the pair hash.
    #[verifier::opaque]
    pub open spec fn after_hash(
        self,
        hashed: Self,
        after: Self,
        second: bool,
        failure: Option<LinkFailure>,
        end: Option<cable::RunModel>,
    ) -> bool {
        &&& hashed.partner == self.partner
        &&& hashed.frames == self.frames
        &&& self.local.due_hash_taken(self.partner, hashed.local, second, failure)
        &&& match failure {
            Some(f) => hashed.fails(after, f@, end),
            None => if second != self.local_is_first() {
                end matches Some(outcome) && hashed.local_turned(after, outcome)
            } else {
                hashed.partner_turned(after, end)
            },
        }
    }

    /// After one turn of the pair.
    #[verifier::opaque]
    pub open spec fn turned(self, after: Self, end: Option<cable::RunModel>) -> bool {
        match self.second_runs() {
            Err(failure) => self.fails(after, failure, end),
            Ok(second) => exists|hashed: Self, failure: Option<LinkFailure>| #[trigger]
                self.after_hash(hashed, after, second, failure, end),
        }
    }

    /// After a turn that did not end the slice.
    pub open spec fn goes_on(self, after: Self) -> bool {
        self.turned(after, None)
    }

    /// After as many turns as a slice may take.
    pub open spec fn gives_up(self, after: Self, end: cable::RunModel) -> bool {
        self.fails(
            after,
            cable::FailureModel::Emulator("the linked consoles stopped making progress"@),
            Some(end),
        )
    }
}

/// A failed link stays failed: from a step that failed on, the next one fails for the same reason
/// and leaves both sessions as they are.
pub proof fn law_a_failed_link_stays_failed<C: EmulatorCore, T: MonotonicTimestampProvider>(
    local: SuperShuckieCore<C, T>,
    partner: SuperShuckieCore<C, T>,
    failed: SuperShuckieCore<C, T>,
    partner_failed: SuperShuckieCore<C, T>,
    after: SuperShuckieCore<C, T>,
    partner_after: SuperShuckieCore<C, T>,
    failure: cable::FailureModel,
    r: cable::RunModel,
)
    requires
        local.linked_ran(
            partner,
            failed,
            partner_failed,
            cable::RunModel::Failed(failure),
        ),
        failed.linked_ran(partner_failed, after, partner_after, r),
    ensures
        r == cable::RunModel::Failed(failure),
        after == failed,
        partner_after == partner_failed,
        local.run_refused(partner) is None ==> (after.together.link matches Some(l) && (
        l.failure matches Some(f) && f@ == failure)),
{
}

/// The two machines of a pair step the same console next, although each calls another one its own.
pub proof fn law_both_machines_step_alike<C: EmulatorCore, T: MonotonicTimestampProvider>(
    mine: PairState<C, T>,
    theirs: PairState<C, T>,
)
    requires
        mine.local_is_first() != theirs.local_is_first(),
        same_link_time(mine.local, theirs.partner),
        same_link_time(mine.partner, theirs.local),
    ensures
        mine.second_runs() == theirs.second_runs(),
{
}

/// Whether two copies of a console are at the same point of a link.
pub open spec fn same_link_time<C: EmulatorCore, T: MonotonicTimestampProvider>(
    a: SuperShuckieCore<C, T>,
    b: SuperShuckieCore<C, T>,
) -> bool {
    &&& a.core.identity().has_link_port == b.core.identity().has_link_port
    &&& a.core.asleep() == b.core.asleep()
    &&& a.core.linked_for() == b.core.linked_for()
}

/// The two machines of a pair whose consoles hold the same work RAM compute the same pair hash.
pub proof fn law_pair_hashes_agree<C: EmulatorCore, T: MonotonicTimestampProvider>(
    mine: PairState<C, T>,
    theirs: PairState<C, T>,
)
    requires
        mine.local_is_first() != theirs.local_is_first(),
        mine.local.core.work_ram_hash() == theirs.partner.core.work_ram_hash(),
        mine.partner.core.work_ram_hash() == theirs.local.core.work_ram_hash(),
    ensures
        mine.local.pair_hash(mine.partner) == theirs.local.pair_hash(theirs.partner),
{
}

/// Whether each step is a turn of the pair, and a last one ends the slice: by itself, or because
/// there were too many.
pub open spec fn slice_ran_in<C: EmulatorCore, T: MonotonicTimestampProvider>(
    start: PairState<C, T>,
    after: PairState<C, T>,
    end: cable::RunModel,
    steps: Seq<PairState<C, T>>,
) -> bool {
    &&& 1 <= steps.len() <= MAX_STEPS + 1
    &&& steps[0] == start
    &&& forall|i: int, j: int|
        0 <= i && j == i + 1 && j < steps.len() ==> (#[trigger] steps[i]).goes_on(
            #[trigger] steps[j],
        )
    &&& if steps.len() == MAX_STEPS + 1 {
        steps.last().gives_up(after, end)
    } else {
        steps.last().turned(after, Some(end))
    }
}

/// After a slice of a linked pair: both consoles draw, and take turns until the local one stepped,
/// the partner's has to wait, or the link broke.
pub open spec fn slice_ran<C: EmulatorCore, T: MonotonicTimestampProvider>(
    local: SuperShuckieCore<C, T>,
    partner: SuperShuckieCore<C, T>,
    after: SuperShuckieCore<C, T>,
    partner_after: SuperShuckieCore<C, T>,
    end: cable::RunModel,
) -> bool {
    exists|start: PairState<C, T>, last: PairState<C, T>, steps: Seq<PairState<C, T>>| #[trigger]
        slice_ran_in(start, last, end, steps) && start.frames == 0 && local.drawing_set(
            start.local,
            false,
        ) && partner.drawing_set(start.partner, false) && last.local == after && last.partner
            == partner_after
}

} // verus!
