//! The Game Boy's serial port as one end of a link cable.
//!
//! Live, a bit this console clocks out is shifted into the partner (and the partner's outgoing bit
//! read) right there. Everything received is logged per frame as serial events; in replay mode the
//! same events are fed back at the same points of the instruction stream.

use super::gb_serial;
use super::gb_serial::{GbSerialEvent, GbSerialEvents};
use super::link;
use super::link::LinkError;
use crate::play_together::live;
use std::collections::VecDeque;
use vstd::prelude::*;

verus! {

/// What the port is doing.
#[derive(Copy, Clone, Debug, PartialEq, Eq, Structural)]
pub enum LinkMode {
    /// No cable.
    Off,
    /// Plugged into a partner.
    Live,
    /// Fed what a live console once received.
    Replay,
}

/// The state of the serial port as a link cable end.
pub struct GbLinkState {
    pub mode: LinkMode,
    /// Whether the partner can be reached: for the duration of one linked step.
    pub partnered: bool,
    /// The bit announced by the last transfer start, sent at the next bit end.
    pub bit_to_send: bool,
    /// Emulated 8 MHz cycles since the cable went in.
    pub link_time: u64,
    /// Emulated 8 MHz cycles since the last step that completed a frame: the position slave bits
    /// are logged at (they arrive between this console's steps, from the partner's).
    pub link_cycles: u64,
    /// Events received since the log was last taken.
    pub log: Vec<GbSerialEvent>,
    /// Replay mode: master bits still to hand out, in order.
    pub replay_master: VecDeque<bool>,
    /// Replay mode: slave bits still to shift in, as `(link_cycles, bit)` in cycle order.
    pub replay_slave: VecDeque<(u64, bool)>,
    /// Replay mode: whether the recording says a cable was plugged in (an empty master queue is
    /// then a miss, not "no cable").
    pub replay_connected: bool,
    /// Recorded bits that could not be delivered where they were recorded.
    pub misses: u64,
    /// Bits received as the master during the current step.
    pub step_master_bits: Vec<bool>,
    /// Bits shifted into the emulated instance as a slave since the shadow last stepped.
    pub shadow_pending_slave: Vec<bool>,
}

/// What ends a bit of a transfer this console clocks.
#[derive(Copy, Clone, Debug, PartialEq, Eq, Structural)]
pub enum BitEnd {
    /// This bit was received.
    Received(bool),
    /// The partner's outgoing bit is to be read, and handed to
    /// [`exchanged`](GbLinkState::exchanged).
    Exchange,
}

/// The state after another.
pub open spec fn sum(a: u64, b: u64) -> u64 {
    if a + b > u64::MAX {
        u64::MAX
    } else {
        (a + b) as u64
    }
}

// ---------------------------------------------------------------------------------------------
// Recorded slave bits.

/// How many of the recorded slave bits are due at `at`: those whose moment has come, or all if the
/// frame is over.
pub open spec fn due_count(queue: Seq<(u64, bool)>, at: u64, frame_over: bool) -> nat
    decreases queue.len(),
{
    if queue.len() == 0 || (queue[0].0 > at && !frame_over) {
        0
    } else {
        1 + due_count(queue.skip(1), at, frame_over)
    }
}

/// The bits themselves.
pub open spec fn bits_of(queue: Seq<(u64, bool)>, n: nat) -> Seq<bool> {
    Seq::new(n, |i: int| queue[i].1)
}

/// How many of the first `n` come at another moment than theirs.
pub open spec fn late_count(queue: Seq<(u64, bool)>, at: u64, n: nat) -> nat
    decreases n,
{
    if n == 0 {
        0
    } else {
        late_count(queue, at, (n - 1) as nat) + (if queue[n - 1].0 != at {
            1nat
        } else {
            0
        })
    }
}

proof fn lemma_due(queue: Seq<(u64, bool)>, at: u64, frame_over: bool)
    ensures
        due_count(queue, at, frame_over) <= queue.len(),
    decreases queue.len(),
{
    if queue.len() > 0 {
        lemma_due(queue.skip(1), at, frame_over);
    }
}

/// Bits that were heard between two steps are fed back between the same two steps: with the
/// recorded positions in order and none of them past, exactly the bits recorded at `at` are due
/// there, and none of them counts as missed.
pub proof fn law_recorded_bits_land_where_they_were_heard(queue: Seq<(u64, bool)>, at: u64)
    requires
        forall|i: int, j: int| 0 <= i <= j < queue.len() ==> queue[i].0 <= queue[j].0,
        forall|i: int| 0 <= i < queue.len() ==> at <= (#[trigger] queue[i]).0,
    ensures
        forall|i: int|
            0 <= i < queue.len() ==> ((#[trigger] queue[i]).0 == at <==> i < due_count(
                queue,
                at,
                false,
            )),
        late_count(queue, at, due_count(queue, at, false)) == 0,
    decreases queue.len(),
{
    let n = due_count(queue, at, false);
    lemma_due(queue, at, false);
    if queue.len() > 0 && queue[0].0 == at {
        let rest = queue.skip(1);
        assert forall|i: int, j: int| 0 <= i <= j < rest.len() implies rest[i].0
            <= rest[j].0 by {
            assert(rest[i] == queue[i + 1] && rest[j] == queue[j + 1]);
        }
        assert forall|i: int| 0 <= i < rest.len() implies at <= (#[trigger] rest[i]).0 by {
            assert(rest[i] == queue[i + 1]);
        }
        law_recorded_bits_land_where_they_were_heard(rest, at);
        assert forall|i: int| 0 <= i < queue.len() implies ((#[trigger] queue[i]).0 == at <==> i
            < n) by {
            if i > 0 {
                assert(rest[i - 1] == queue[i]);
            }
        }
    }
    lemma_on_time(queue, at, n);
}

proof fn lemma_on_time(queue: Seq<(u64, bool)>, at: u64, n: nat)
    requires
        n <= queue.len(),
        forall|i: int| 0 <= i < n ==> (#[trigger] queue[i]).0 == at,
    ensures
        late_count(queue, at, n) == 0,
    decreases n,
{
    if n > 0 {
        lemma_on_time(queue, at, (n - 1) as nat);
    }
}

/// Bits of a recording that were never due are not lost: when the frame is over, all are delivered.
pub proof fn law_no_recorded_bit_is_dropped(queue: Seq<(u64, bool)>, at: u64)
    ensures
        due_count(queue, at, true) == queue.len(),
    decreases queue.len(),
{
    if queue.len() > 0 {
        law_no_recorded_bit_is_dropped(queue.skip(1), at);
    }
}

// ---------------------------------------------------------------------------------------------
// Queueing a recording.

/// Where a recording stands after its events were queued.
pub ghost struct Queued {
    pub master: Seq<bool>,
    pub slave: Seq<(u64, bool)>,
    pub connected: bool,
    /// Slave bits due right away.
    pub due_now: Seq<bool>,
}

impl Queued {
    /// With one more event. A bit at the frame boundary itself is due before the frame's first
    /// step.
    pub open spec fn with(self, event: GbSerialEvent, link_cycles: u64) -> Queued {
        match event {
            GbSerialEvent::MasterBit(bit) => Queued { master: self.master.push(bit), ..self },
            GbSerialEvent::SlaveBit { cycles, bit } => if cycles == 0 && link_cycles == 0
                && self.slave.len() == 0 {
                Queued { due_now: self.due_now.push(bit), ..self }
            } else {
                Queued { slave: self.slave.push((cycles, bit)), ..self }
            },
            GbSerialEvent::Connected(connected) => Queued { connected, ..self },
        }
    }

    /// With the first `n` of some events.
    pub open spec fn with_all(self, events: Seq<GbSerialEvent>, link_cycles: u64, n: nat) -> Queued
        decreases n,
    {
        if n == 0 {
            self
        } else {
            self.with_all(events, link_cycles, (n - 1) as nat).with(events[n - 1], link_cycles)
        }
    }
}

impl GbLinkState {
    /// No cable, nothing received.
    pub open spec fn unplugged(self) -> bool {
        &&& self.mode == LinkMode::Off
        &&& !self.partnered
        &&& !self.bit_to_send
        &&& self.link_time == 0
        &&& self.link_cycles == 0
        &&& self.log@.len() == 0
        &&& self.replay_master@.len() == 0
        &&& self.replay_slave@.len() == 0
        &&& !self.replay_connected
        &&& self.misses == 0
        &&& self.step_master_bits@.len() == 0
        &&& self.shadow_pending_slave@.len() == 0
    }

    /// A port without a cable.
    pub fn new() -> (r: Self)
        ensures
            r.unplugged(),
    {
        GbLinkState {
            mode: LinkMode::Off,
            partnered: false,
            bit_to_send: false,
            link_time: 0,
            link_cycles: 0,
            log: Vec::new(),
            replay_master: VecDeque::new(),
            replay_slave: VecDeque::new(),
            replay_connected: false,
            misses: 0,
            step_master_bits: Vec::new(),
            shadow_pending_slave: Vec::new(),
        }
    }

    /// After the cable went in.
    pub open spec fn plugged(self, after: Self) -> bool {
        &&& after == (GbLinkState {
            mode: LinkMode::Live,
            link_time: 0,
            link_cycles: 0,
            replay_connected: false,
            log: after.log,
            replay_master: after.replay_master,
            replay_slave: after.replay_slave,
            step_master_bits: after.step_master_bits,
            shadow_pending_slave: after.shadow_pending_slave,
            ..self
        })
        &&& after.log@ == self.log@.push(GbSerialEvent::Connected(true))
        &&& after.replay_master@ == Seq::<bool>::empty()
        &&& after.replay_slave@ == Seq::<(u64, bool)>::empty()
        &&& after.step_master_bits@ == Seq::<bool>::empty()
        &&& after.shadow_pending_slave@ == Seq::<bool>::empty()
    }

    /// Plug the cable in, unless it is; the emulated instance (and the shadow) then get their
    /// serial callbacks.
    pub fn connect(&mut self) -> (r: Result<(), LinkError>)
        ensures
            if old(self).mode == LinkMode::Live {
                (r matches Err(e) && e@ == link::ErrorModel::NotConnected) && *final(self)
                    == *old(self)
            } else {
                r is Ok && old(self).plugged(*final(self))
            },
    {
        if self.mode == LinkMode::Live {
            return Err(LinkError::NotConnected);
        }
        self.mode = LinkMode::Live;
        self.link_time = 0;
        self.link_cycles = 0;
        self.replay_master = VecDeque::new();
        self.replay_slave = VecDeque::new();
        self.replay_connected = false;
        self.step_master_bits = Vec::new();
        self.shadow_pending_slave = Vec::new();
        self.log.push(GbSerialEvent::Connected(true));
        assert(self.replay_master@ =~= Seq::<bool>::empty());
        assert(self.replay_slave@ =~= Seq::<(u64, bool)>::empty());
        Ok(())
    }

    /// After the cable came out.
    pub open spec fn pulled(self, after: Self) -> bool {
        &&& after == (GbLinkState {
            mode: LinkMode::Off,
            partnered: false,
            replay_connected: false,
            log: after.log,
            replay_master: after.replay_master,
            replay_slave: after.replay_slave,
            shadow_pending_slave: after.shadow_pending_slave,
            ..self
        })
        &&& after.log@ == (if self.mode == LinkMode::Live {
            self.log@.push(GbSerialEvent::Connected(false))
        } else {
            self.log@
        })
        &&& after.replay_master@ == Seq::<bool>::empty()
        &&& after.replay_slave@ == Seq::<(u64, bool)>::empty()
        &&& after.shadow_pending_slave@ == Seq::<bool>::empty()
    }

    /// Pull the cable. Returns whether there was one: the emulated instance (and the shadow) then
    /// lose their serial callbacks.
    pub fn disconnect(&mut self) -> (r: bool)
        ensures
            r == (old(self).mode != LinkMode::Off),
            if r {
                old(self).pulled(*final(self))
            } else {
                *final(self) == *old(self)
            },
    {
        if self.mode == LinkMode::Off {
            return false;
        }
        if self.mode == LinkMode::Live {
            self.log.push(GbSerialEvent::Connected(false));
        }
        self.mode = LinkMode::Off;
        self.partnered = false;
        self.replay_master = VecDeque::new();
        self.replay_slave = VecDeque::new();
        self.replay_connected = false;
        self.shadow_pending_slave = Vec::new();
        assert(self.replay_master@ =~= Seq::<bool>::empty());
        assert(self.replay_slave@ =~= Seq::<(u64, bool)>::empty());
        true
    }

    /// Whether a cable to a live partner is in.
    pub fn is_live(&self) -> (r: bool)
        ensures
            r == (self.mode == LinkMode::Live),
    {
        self.mode == LinkMode::Live
    }

    /// Everything received over the cable since the last call, encoded.
    pub fn take_serial_in(&mut self) -> (r: Vec<u8>)
        ensures
            r@ == gb_serial::encoded_events(old(self).log@),
            *final(self) == (GbLinkState { log: final(self).log, ..*old(self) }),
            final(self).log@ == Seq::<GbSerialEvent>::empty(),
    {
        let mut log: Vec<GbSerialEvent> = Vec::new();
        core::mem::swap(&mut log, &mut self.log);
        let mut r: Vec<u8> = Vec::new();
        GbSerialEvents::encode(log.as_slice(), &mut r);
        assert(r@ =~= gb_serial::encoded_events(log@));
        r
    }

    /// What is queued.
    pub open spec fn queued(self) -> Queued {
        Queued {
            master: self.replay_master@,
            slave: self.replay_slave@,
            connected: self.replay_connected,
            due_now: Seq::empty(),
        }
    }

    /// With a replayed cable in, if there was none.
    pub open spec fn replaying(self) -> Self {
        if self.mode == LinkMode::Off {
            GbLinkState { mode: LinkMode::Replay, link_time: 0, link_cycles: 0, ..self }
        } else {
            self
        }
    }

    /// After queueing a recording's events for the frame about to run.
    pub open spec fn serial_queued(
        self,
        after: Self,
        events: Seq<GbSerialEvent>,
        due_now: Seq<bool>,
    ) -> bool {
        let start = self.replaying();
        let q = start.queued().with_all(events, start.link_cycles, events.len());
        &&& after == (GbLinkState {
            replay_master: after.replay_master,
            replay_slave: after.replay_slave,
            replay_connected: q.connected,
            shadow_pending_slave: after.shadow_pending_slave,
            ..start
        })
        &&& after.replay_master@ == q.master
        &&& after.replay_slave@ == q.slave
        &&& due_now == q.due_now
        &&& after.shadow_pending_slave@ == self.shadow_pending_slave@ + q.due_now
    }

    /// Queue recorded link traffic for the frame about to run. A live port hears the real partner;
    /// a recording of what somebody else once heard has no business there. Returns the bits to
    /// shift into the emulated instance right away; if no cable was in before, the emulated
    /// instance (and the shadow) get their serial callbacks first.
    pub fn queue_serial_in(&mut self, data: &[u8]) -> (r: Result<Vec<bool>, LinkError>)
        ensures
            match gb_serial::decoded_events(data@) {
                Err(what) => (r matches Err(e) && gb_serial::is_bad_serial_data(e, what))
                    && *final(self) == *old(self),
                Ok(events) => if old(self).mode == LinkMode::Live {
                    (r matches Err(e) && e@ == link::ErrorModel::NotConnected) && *final(self)
                        == *old(self)
                } else {
                    r matches Ok(due_now) && old(self).serial_queued(
                        *final(self),
                        events,
                        due_now@,
                    )
                },
            },
    {
        let events: Vec<GbSerialEvent> = match GbSerialEvents::decode(data) {
            Ok(events) => events,
            Err(e) => return Err(e),
        };
        if self.mode == LinkMode::Live {
            return Err(LinkError::NotConnected);
        }
        let ghost before = *self;
        if self.mode == LinkMode::Off {
            self.mode = LinkMode::Replay;
            self.link_time = 0;
            self.link_cycles = 0;
        }
        let ghost start = *self;
        let mut due_now: Vec<bool> = Vec::new();
        let mut i: usize = 0;
        assert(due_now@ =~= Seq::<bool>::empty());
        while i < events.len()
            invariant
                i <= events@.len(),
                start == before.replaying(),
                *self == (GbLinkState {
                    replay_master: self.replay_master,
                    replay_slave: self.replay_slave,
                    replay_connected: self.replay_connected,
                    ..start
                }),
                ({
                    let q = start.queued().with_all(events@, start.link_cycles, i as nat);
                    &&& self.replay_master@ == q.master
                    &&& self.replay_slave@ == q.slave
                    &&& self.replay_connected == q.connected
                    &&& due_now@ == q.due_now
                }),
            decreases events@.len() - i,
        {
            match events[i] {
                GbSerialEvent::MasterBit(bit) => self.replay_master.push_back(bit),
                GbSerialEvent::SlaveBit { cycles, bit } => {
                    if cycles == 0 && self.link_cycles == 0 && self.replay_slave.len() == 0 {
                        due_now.push(bit);
                    } else {
                        self.replay_slave.push_back((cycles, bit));
                    }
                },
                GbSerialEvent::Connected(connected) => {
                    self.replay_connected = connected;
                },
            }
            i = i + 1;
        }
        // The shadow gets them before its next step, like a live slave bit.
        let ghost pending = self.shadow_pending_slave@;
        self.shadow_pending_slave.extend_from_slice(due_now.as_slice());
        assert(self.shadow_pending_slave@ =~= pending + due_now@);
        Ok(due_now)
    }

    // -----------------------------------------------------------------------------------------
    // Transfers.

    /// A bit of a transfer this console clocks begins: it sends `bit`.
    pub fn serial_transfer_bit_start(&mut self, bit: bool)
        ensures
            *final(self) == (GbLinkState { bit_to_send: bit, ..*old(self) }),
    {
        self.bit_to_send = bit;
    }

    /// What a console hears that clocks a bit on its own: the recording's next, or a high line.
    pub open spec fn bit_ended(self, after: Self, r: BitEnd) -> bool {
        match self.mode {
            LinkMode::Live => {
                &&& after == self
                // Nobody is at the other end outside a linked step.
                &&& r == (if self.partnered {
                    BitEnd::Exchange
                } else {
                    BitEnd::Received(true)
                })
            },
            LinkMode::Replay => if self.replay_master@.len() > 0 {
                let bit = self.replay_master@[0];
                &&& r == BitEnd::Received(bit)
                &&& after == (GbLinkState {
                    replay_master: after.replay_master,
                    step_master_bits: after.step_master_bits,
                    ..self
                })
                &&& after.replay_master@ == self.replay_master@.skip(1)
                &&& after.step_master_bits@ == self.step_master_bits@.push(bit)
            } else {
                &&& r == BitEnd::Received(true)
                &&& after == (GbLinkState {
                    replay_master: after.replay_master,
                    misses: if self.replay_connected {
                        live::one_more(self.misses)
                    } else {
                        self.misses
                    },
                    ..self
                })
                &&& after.replay_master@ == self.replay_master@
            },
            LinkMode::Off => after == self && r == BitEnd::Received(true),
        }
    }

    /// A bit of a transfer this console clocks ends.
    pub fn serial_transfer_bit_end(&mut self) -> (r: BitEnd)
        ensures
            old(self).bit_ended(*final(self), r),
    {
        match self.mode {
            LinkMode::Live => if self.partnered {
                BitEnd::Exchange
            } else {
                BitEnd::Received(true)
            },
            LinkMode::Replay => {
                let ghost queue = self.replay_master@;
                match self.replay_master.pop_front() {
                    Some(bit) => {
                        self.step_master_bits.push(bit);
                        assert(self.replay_master@ =~= queue.skip(1));
                        BitEnd::Received(bit)
                    },
                    None => {
                        if self.replay_connected {
                            self.misses = self.misses.saturating_add(1);
                        }
                        BitEnd::Received(true)
                    },
                }
            },
            LinkMode::Off => BitEnd::Received(true),
        }
    }

    /// After two consoles exchanged a bit: each logs what it received.
    pub open spec fn bit_exchanged(
        self,
        after: Self,
        partner: Self,
        partner_after: Self,
        got: bool,
    ) -> bool {
        &&& after == (GbLinkState {
            log: after.log,
            step_master_bits: after.step_master_bits,
            ..self
        })
        &&& after.log@ == self.log@.push(GbSerialEvent::MasterBit(got))
        &&& after.step_master_bits@ == self.step_master_bits@.push(got)
        &&& partner_after == (GbLinkState {
            log: partner_after.log,
            shadow_pending_slave: partner_after.shadow_pending_slave,
            ..partner
        })
        &&& partner_after.log@ == partner.log@.push(
            GbSerialEvent::SlaveBit { cycles: partner.link_cycles, bit: self.bit_to_send },
        )
        &&& partner_after.shadow_pending_slave@ == partner.shadow_pending_slave@.push(
            self.bit_to_send,
        )
    }

    /// The partner's outgoing bit was `got`; returns the bit to shift into it.
    pub fn exchanged(&mut self, partner: &mut Self, got: bool) -> (r: bool)
        ensures
            r == old(self).bit_to_send,
            old(self).bit_exchanged(*final(self), *old(partner), *final(partner), got),
    {
        let sent: bool = self.bit_to_send;
        let cycles: u64 = partner.link_cycles;
        partner.log.push(GbSerialEvent::SlaveBit { cycles, bit: sent });
        partner.shadow_pending_slave.push(sent);
        self.log.push(GbSerialEvent::MasterBit(got));
        self.step_master_bits.push(got);
        sent
    }

    // -----------------------------------------------------------------------------------------
    // Steps.

    /// After a step of that many cycles, which completed `frames` frames.
    pub open spec fn link_ran(self, after: Self, cycles: u64, frames: u64, due: Seq<bool>) -> bool {
        if self.mode == LinkMode::Off {
            after == self && due == Seq::<bool>::empty()
        } else {
            let at = sum(self.link_cycles, cycles);
            let queue = self.replay_slave@;
            let n = if self.mode == LinkMode::Replay {
                due_count(queue, at, frames > 0)
            } else {
                0
            };
            &&& after == (GbLinkState {
                link_time: sum(self.link_time, cycles),
                link_cycles: if frames > 0 {
                    0
                } else {
                    at
                },
                replay_slave: after.replay_slave,
                misses: after.misses,
                ..self
            })
            &&& after.replay_slave@ == queue.skip(n as int)
            &&& due == bits_of(queue, n)
            &&& after.misses == misses_after(self.misses, late_count(queue, at, n))
        }
    }

    /// Link time bookkeeping after a step; returns the slave bits a recording says arrived at this
    /// boundary. One past its moment (or whose frame is over and which never came due) is applied
    /// late rather than dropped, so the byte count the game sees stays right.
    pub fn stepped(&mut self, cycles: u64, frames: u64) -> (r: Vec<bool>)
        ensures
            old(self).link_ran(*final(self), cycles, frames, r@),
    {
        let mut due: Vec<bool> = Vec::new();
        assert(due@ =~= Seq::<bool>::empty());
        if self.mode == LinkMode::Off {
            return due;
        }
        let ghost before = *self;
        self.link_time = self.link_time.saturating_add(cycles);
        self.link_cycles = self.link_cycles.saturating_add(cycles);
        let at: u64 = self.link_cycles;
        let ghost queue = self.replay_slave@;
        let ghost mut n: nat = 0;
        assert(queue.skip(0) =~= queue);
        assert(due@ =~= bits_of(queue, 0));
        if self.mode == LinkMode::Replay {
            let ghost total = due_count(queue, at, frames > 0);
            proof {
                lemma_due(queue, at, frames > 0);
            }
            let mut more: bool = true;
            while more
                invariant
                    n <= queue.len(),
                    *self == (GbLinkState {
                        link_time: self.link_time,
                        link_cycles: at,
                        replay_slave: self.replay_slave,
                        misses: self.misses,
                        ..before
                    }),
                    self.link_time == sum(before.link_time, cycles),
                    self.replay_slave@ == queue.skip(n as int),
                    due@ == bits_of(queue, n),
                    self.misses == misses_after(before.misses, late_count(queue, at, n)),
                    total == n + (if more {
                        due_count(queue.skip(n as int), at, frames > 0)
                    } else {
                        0
                    }),
                decreases
                    queue.len() - n,
                    if more {
                        1int
                    } else {
                        0
                    },
            {
                if self.replay_slave.len() == 0 {
                    more = false;
                } else {
                    let (cycles_at, bit): (u64, bool) = self.replay_slave[0];
                    if cycles_at > at && frames == 0 {
                        more = false;
                    } else {
                        if cycles_at != at {
                            self.misses = self.misses.saturating_add(1);
                        }
                        let _ = self.replay_slave.pop_front();
                        due.push(bit);
                        proof {
                            assert(queue.skip(n as int).skip(1) =~= queue.skip((n + 1) as int));
                            assert(queue.skip(n as int)[0] == queue[n as int]);
                            n = n + 1;
                            assert(self.replay_slave@ =~= queue.skip(n as int));
                            assert(due@ =~= bits_of(queue, n));
                        }
                    }
                }
            }
        }
        if frames > 0 {
            self.link_cycles = 0;
        }
        due
    }
}

/// The misses after `late` more bits came late.
pub open spec fn misses_after(misses: u64, late: nat) -> u64 {
    if misses + late > u64::MAX {
        u64::MAX
    } else {
        (misses + late) as u64
    }
}

// ---------------------------------------------------------------------------------------------
// What a cable carries.

/// The bits of the first `n` events that this console clocked.
pub open spec fn clocked_here(events: Seq<GbSerialEvent>, n: nat) -> Seq<bool>
    decreases n,
{
    if n == 0 {
        Seq::empty()
    } else {
        match events[n - 1] {
            GbSerialEvent::MasterBit(bit) => clocked_here(events, (n - 1) as nat).push(bit),
            _ => clocked_here(events, (n - 1) as nat),
        }
    }
}

/// The bits of the first `n` events that the other console clocked.
pub open spec fn clocked_there(events: Seq<GbSerialEvent>, n: nat) -> Seq<bool>
    decreases n,
{
    if n == 0 {
        Seq::empty()
    } else {
        match events[n - 1] {
            GbSerialEvent::SlaveBit { bit, .. } => clocked_there(events, (n - 1) as nat).push(bit),
            _ => clocked_there(events, (n - 1) as nat),
        }
    }
}

/// Every bit of a recording is queued once, in the order it was heard, and whether a cable is in is
/// what the last plug said.
pub proof fn law_a_recording_is_queued_in_order(
    start: Queued,
    events: Seq<GbSerialEvent>,
    link_cycles: u64,
    n: nat,
)
    requires
        n <= events.len(),
        start.slave.len() == 0,
        start.due_now.len() == 0,
    ensures
        ({
            let q = start.with_all(events, link_cycles, n);
            &&& q.master == start.master + clocked_here(events, n)
            &&& q.due_now + bits_of(q.slave, q.slave.len()) == clocked_there(events, n)
            &&& n > 0 && (events[n - 1] is Connected) ==> (events[n - 1] matches
                GbSerialEvent::Connected(plugged) && q.connected == plugged)
        }),
    decreases n,
{
    if n > 0 {
        law_a_recording_is_queued_in_order(start, events, link_cycles, (n - 1) as nat);
        let before = start.with_all(events, link_cycles, (n - 1) as nat);
        let q = start.with_all(events, link_cycles, n);
        assert(q.master =~= start.master + clocked_here(events, n));
        let was = before.due_now + bits_of(before.slave, before.slave.len());
        match events[n - 1] {
            GbSerialEvent::SlaveBit { cycles, bit } => {
                if cycles == 0 && link_cycles == 0 && before.slave.len() == 0 {
                    assert(q.due_now + bits_of(q.slave, q.slave.len()) =~= was.push(bit));
                } else {
                    assert(q.due_now + bits_of(q.slave, q.slave.len()) =~= was.push(bit));
                }
            },
            _ => {
                assert(q.due_now + bits_of(q.slave, q.slave.len()) =~= was);
            },
        }
    } else {
        let q = start.with_all(events, link_cycles, 0);
        assert(q.master =~= start.master + clocked_here(events, 0));
        assert(q.due_now + bits_of(q.slave, q.slave.len()) =~= clocked_there(events, 0));
    }
}

/// Over a live cable each console hears the bit the other one sent, and both put it down: the one
/// that clocked it as its own, the other with the moment it came.
pub proof fn law_each_console_hears_the_other(
    clocking: GbLinkState,
    clocking_after: GbLinkState,
    other: GbLinkState,
    other_after: GbLinkState,
    got: bool,
)
    requires
        clocking.bit_exchanged(clocking_after, other, other_after, got),
    ensures
        clocking_after.log@.last() == GbSerialEvent::MasterBit(got),
        clocking_after.log@.drop_last() == clocking.log@,
        other_after.log@.last() == (GbSerialEvent::SlaveBit {
            cycles: other.link_cycles,
            bit: clocking.bit_to_send,
        }),
        other_after.log@.drop_last() == other.log@,
        clocked_here(clocking_after.log@, clocking_after.log@.len()).last() == got,
        clocked_there(other_after.log@, other_after.log@.len()).last() == clocking.bit_to_send,
{
    assert(clocking_after.log@.drop_last() =~= clocking.log@);
    assert(other_after.log@.drop_last() =~= other.log@);
}

/// What a console hears for a bit it clocks: the other console's over a live cable; the recording's
/// next while one is played; and a high line where nobody is at the other end or the recording has
/// no more, which counts as a miss if its cable was in.
pub proof fn law_what_a_clocked_bit_hears(state: GbLinkState, after: GbLinkState, r: BitEnd)
    requires
        state.bit_ended(after, r),
        state.misses < u64::MAX,
    ensures
        state.mode == LinkMode::Off ==> r == BitEnd::Received(true),
        state.mode == LinkMode::Live && state.partnered ==> r == BitEnd::Exchange,
        state.mode == LinkMode::Live && !state.partnered ==> r == BitEnd::Received(true),
        state.mode == LinkMode::Replay && state.replay_master@.len() > 0 ==> r == BitEnd::Received(
            state.replay_master@[0],
        ) && after.replay_master@ == state.replay_master@.skip(1) && after.misses == state.misses,
        state.mode == LinkMode::Replay && state.replay_master@.len() == 0 ==> r == BitEnd::Received(
            true,
        ) && after.misses == state.misses + (if state.replay_connected {
            1int
        } else {
            0
        }),
{
}

/// Plugging in and pulling out are put down, and both leave nothing of a recording behind.
pub proof fn law_plugs_are_put_down(before: GbLinkState, after: GbLinkState)
    ensures
        before.plugged(after) ==> after.mode == LinkMode::Live && after.log@.last()
            == GbSerialEvent::Connected(true) && after.replay_master@.len() == 0
            && after.replay_slave@.len() == 0 && after.link_time == 0 && after.link_cycles == 0,
        before.pulled(after) && before.mode == LinkMode::Live ==> after.mode == LinkMode::Off
            && after.log@.last() == GbSerialEvent::Connected(false) && !after.partnered,
        before.pulled(after) && before.mode != LinkMode::Live ==> after.mode == LinkMode::Off
            && after.log@ == before.log@,
{
}

/// Time on the cable is the cycles run; a frame's cycles are counted from its beginning. Without a
/// cable nothing is counted.
pub proof fn law_time_on_the_cable(
    before: GbLinkState,
    after: GbLinkState,
    cycles: u64,
    frames: u64,
    due: Seq<bool>,
)
    requires
        before.link_ran(after, cycles, frames, due),
        before.link_time + cycles <= u64::MAX,
        before.link_cycles + cycles <= u64::MAX,
    ensures
        before.mode == LinkMode::Off ==> after == before && due.len() == 0,
        before.mode != LinkMode::Off ==> {
            &&& after.link_time == before.link_time + cycles
            &&& frames > 0 ==> after.link_cycles == 0
            &&& frames == 0 ==> after.link_cycles == before.link_cycles + cycles
        },
        before.mode == LinkMode::Live ==> due.len() == 0 && after.replay_slave@
            == before.replay_slave@,
        before.mode == LinkMode::Replay ==> due.len() + after.replay_slave@.len()
            == before.replay_slave@.len() && forall|i: int|
            0 <= i < due.len() ==> #[trigger] due[i] == before.replay_slave@[i].1,
{
    lemma_due(
        before.replay_slave@,
        sum(before.link_cycles, cycles),
        frames > 0,
    );
    assert(before.replay_slave@.skip(0) =~= before.replay_slave@);
}

/// A recording's events are queued behind what is queued already, a cable of its own going in if
/// there is none; bits due at once are handed on at once.
pub proof fn law_a_recording_is_queued(
    before: GbLinkState,
    after: GbLinkState,
    events: Seq<GbSerialEvent>,
    due_now: Seq<bool>,
)
    requires
        before.serial_queued(after, events, due_now),
        before.replay_slave@.len() == 0,
    ensures
        before.mode == LinkMode::Off ==> after.mode == LinkMode::Replay && after.link_time == 0
            && after.link_cycles == 0,
        before.mode != LinkMode::Off ==> after.mode == before.mode && after.link_time
            == before.link_time,
        after.replay_master@ == before.replay_master@ + clocked_here(events, events.len()),
        due_now + bits_of(after.replay_slave@, after.replay_slave@.len()) == clocked_there(
            events,
            events.len(),
        ),
        after.log@ == before.log@,
{
    let start = before.replaying();
    law_a_recording_is_queued_in_order(
        start.queued(),
        events,
        start.link_cycles,
        events.len(),
    );
}

} // verus!
