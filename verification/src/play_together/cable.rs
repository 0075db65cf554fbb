//! What goes over a link cable between two machines, and how each checks that both run the same
//! pair.
//!
//! The cable itself never crosses the network: on each machine the player's own console is plugged
//! into a copy of the partner's, and the two are stepped in a deterministic interleave. What
//! crosses the network are the inputs (and the other per-frame events) of both players, sent some
//! frames ahead of the frame they apply to. A pair hash (of both consoles' work RAM at the same
//! point of the interleave) rides along so a divergence is caught.

use crate::emulator::console::RunTime;
use crate::emulator::input::Input;
use crate::ordered;
use crate::replay::packet;
use crate::replay::packet::Packet;
use crate::replay::player::ReplayConsoleType;
use crate::text;
use std::collections::BTreeMap;
use vstd::prelude::*;
use vstd::string::*;

verus! {

/// Frames of the first console between two pair hashes (one emulated second).
pub const PAIR_HASH_INTERVAL_FRAMES: u64 = 60;

/// Most link frames an inbox holds ahead of the frame being run; anything further ahead is dropped
/// (a hostile or confused peer).
pub const MAX_INBOX_AHEAD_FRAMES: u64 = 600;

/// Most pair hashes remembered on each side while waiting for the other side's.
pub const PAIR_HASH_WINDOW: usize = 8;

/// How the cable is configured on this machine (the other machine has the mirror image).
#[derive(Clone, Debug)]
pub struct LinkSettings {
    /// How many frames ahead inputs are scheduled (at least 1).
    pub delay_frames: u64,
    /// Whether the local console is the "first" of the pair.
    pub local_is_first: bool,
    /// The local console's replay frame count at which it was held for the link.
    pub local_start_frame: u64,
    /// The partner console's replay frame count at which they held it.
    pub partner_start_frame: u64,
    /// The input the partner held at that frame, which their first `delay_frames` link frames use.
    pub partner_start_input: Vec<u8>,
}

/// One link frame's worth of a console's events, as sent between the machines.
#[derive(Clone, Debug)]
pub struct LinkFrame {
    /// The events to apply before running that frame, in the order to apply them.
    pub events: Vec<Packet>,
    /// The sender's recording clock when it sent the frame.
    pub elapsed_millis: u64,
    /// The sender's pair hash for the first console's link frame given, if one is due.
    pub pair_hash: Option<(u64, [u8; 32])>,
}

/// Where the partner's link frames arrive.
pub struct LinkInbox {
    pub frames: BTreeMap<u64, LinkFrame>,
    /// The link frame the pair has run up to (frames below it are moot).
    pub applied: u64,
    /// The newest frame number pushed.
    pub newest: u64,
    /// The partner is gone.
    pub ended: bool,
}

impl LinkInbox {
    /// An empty inbox.
    pub fn new() -> (r: Self)
        ensures
            r.frames@ == Map::<u64, LinkFrame>::empty(),
            r.applied == 0,
            r.newest == 0,
            !r.ended,
    {
        LinkInbox { frames: BTreeMap::new(), applied: 0, newest: 0, ended: false }
    }

    /// Whether the events of a link frame are kept: not if it was run already, nor if it is more
    /// than [`MAX_INBOX_AHEAD_FRAMES`] ahead.
    pub open spec fn keeps(self, frame: u64) -> bool {
        self.applied <= frame <= self.applied + MAX_INBOX_AHEAD_FRAMES
    }

    /// The partner's events for link frame `frame`. Frames already run and frames more than
    /// [`MAX_INBOX_AHEAD_FRAMES`] ahead are dropped.
    pub fn push(&mut self, frame: u64, link_frame: LinkFrame)
        ensures
            if old(self).keeps(frame) {
                &&& final(self).frames@ == old(self).frames@.insert(frame, link_frame)
                &&& *final(self) == (LinkInbox {
                    frames: final(self).frames,
                    newest: if frame > old(self).newest {
                        frame
                    } else {
                        old(self).newest
                    },
                    ..*old(self)
                })
            } else {
                *final(self) == *old(self)
            },
    {
        if frame < self.applied || frame - self.applied > MAX_INBOX_AHEAD_FRAMES {
            return;
        }
        let _ = self.frames.insert(frame, link_frame);
        if frame > self.newest {
            self.newest = frame;
        }
    }

    /// The partner is gone: nothing more arrives.
    pub fn end(&mut self)
        ensures
            *final(self) == (LinkInbox { ended: true, ..*old(self) }),
    {
        self.ended = true;
    }

    /// Whether [`end`](Self::end) was called.
    pub fn ended(&self) -> (r: bool)
        ensures
            r == self.ended,
    {
        self.ended
    }

    /// The newest link frame number pushed so far.
    pub fn newest(&self) -> (r: u64)
        ensures
            r == self.newest,
    {
        self.newest
    }

    /// What taking a link frame's events does: once taken, it and everything older is moot.
    pub open spec fn took(self, after: Self, frame: u64, r: Option<LinkFrame>) -> bool {
        if self.frames@.contains_key(frame) {
            &&& r == Some(self.frames@[frame])
            &&& after.frames@ == self.frames@.remove_keys(Set::new(|k: u64| k <= frame))
            &&& after == (LinkInbox {
                frames: after.frames,
                applied: after_frame(frame),
                ..self
            })
        } else {
            &&& r is None
            &&& after.frames@ == self.frames@
            &&& after == (LinkInbox { frames: after.frames, ..self })
        }
    }

    /// Take the events of link frame `frame`, if they have arrived.
    pub fn take(&mut self, frame: u64) -> (r: Option<LinkFrame>)
        ensures
            old(self).took(*final(self), frame, r),
    {
        let ghost before = self.frames@;
        let taken: Option<LinkFrame> = self.frames.remove(&frame);
        if taken.is_some() {
            self.applied = frame.saturating_add(1);
            ordered::remove_through(&mut self.frames, frame);
            proof {
                let old_keys = Set::new(|k: u64| k <= frame);
                assert(before.remove(frame).remove_keys(old_keys) =~= before.remove_keys(old_keys));
            }
        } else {
            assert(before.remove(frame) =~= before);
        }
        taken
    }
}

/// The frame after `frame`.
pub open spec fn after_frame(frame: u64) -> u64 {
    if frame == u64::MAX {
        frame
    } else {
        (frame + 1) as u64
    }
}

/// Once a link frame's events were taken, events for it or an older one are not kept again.
pub proof fn law_run_frames_are_moot(
    before: LinkInbox,
    after: LinkInbox,
    frame: u64,
    older: u64,
    taken: LinkFrame,
)
    requires
        before.took(after, frame, Some(taken)),
        older <= frame < u64::MAX,
    ensures
        !after.keeps(older),
        !after.frames@.contains_key(older),
{
}

/// Why a link ended on its own.
#[derive(Clone, Debug, PartialEq, Eq)]
pub enum LinkFailure {
    /// The two machines computed different pair hashes for that link frame of the first console:
    /// the pair diverged.
    PairHashMismatch { frame: u64 },
    /// The partner's link frames stopped arriving for good.
    PartnerEnded,
    /// The partner's link frames did not arrive in time.
    Timeout,
    /// A console core failed.
    Emulator(String),
}

/// Why a link ended, as the contracts see it.
pub ghost enum FailureModel {
    PairHashMismatch { frame: u64 },
    PartnerEnded,
    Timeout,
    Emulator(Seq<char>),
}

impl View for LinkFailure {
    type V = FailureModel;

    open spec fn view(&self) -> FailureModel {
        match *self {
            LinkFailure::PairHashMismatch { frame } => FailureModel::PairHashMismatch { frame },
            LinkFailure::PartnerEnded => FailureModel::PartnerEnded,
            LinkFailure::Timeout => FailureModel::Timeout,
            LinkFailure::Emulator(what) => FailureModel::Emulator(what@),
        }
    }
}

impl FailureModel {
    /// The failure in words.
    pub open spec fn text(self) -> Seq<char> {
        match self {
            FailureModel::PairHashMismatch { frame } => "the two games fell out of step (frame "@
                + text::decimal(frame as nat) + ")"@,
            FailureModel::PartnerEnded => "the other player's game stopped"@,
            FailureModel::Timeout => "the other player's inputs stopped arriving"@,
            FailureModel::Emulator(what) => what,
        }
    }
}

impl LinkFailure {
    /// A copy of the failure.
    pub fn duplicate(&self) -> (r: LinkFailure)
        ensures
            r@ == self@,
    {
        match self {
            LinkFailure::PairHashMismatch { frame } => LinkFailure::PairHashMismatch {
                frame: *frame,
            },
            LinkFailure::PartnerEnded => LinkFailure::PartnerEnded,
            LinkFailure::Timeout => LinkFailure::Timeout,
            LinkFailure::Emulator(what) => LinkFailure::Emulator(what.clone()),
        }
    }

    /// The failure in words.
    pub fn message(&self) -> (r: String)
        ensures
            r@ == self@.text(),
    {
        match self {
            LinkFailure::PairHashMismatch { frame } => text::numbered(
                "the two games fell out of step (frame ",
                *frame,
                ")",
            ),
            LinkFailure::PartnerEnded => "the other player's game stopped".to_owned(),
            LinkFailure::Timeout => "the other player's inputs stopped arriving".to_owned(),
            LinkFailure::Emulator(what) => what.clone(),
        }
    }
}

/// What one step of a linked pair did.
#[derive(Clone, Debug)]
pub enum LinkRunOutcome {
    /// The local console stepped once (and the partner was kept in step).
    Ran { local: RunTime, partner_frames: u64 },
    /// Neither console could step: the partner's next link frame has not arrived.
    Stalled,
    /// The link is broken; the caller ends it.
    Failed(LinkFailure),
}

/// What one step of a linked pair did, as the contracts see it.
pub ghost enum RunModel {
    Ran { local: RunTime, partner_frames: u64 },
    Stalled,
    Failed(FailureModel),
}

impl View for LinkRunOutcome {
    type V = RunModel;

    open spec fn view(&self) -> RunModel {
        match *self {
            LinkRunOutcome::Ran { local, partner_frames } => RunModel::Ran {
                local,
                partner_frames,
            },
            LinkRunOutcome::Stalled => RunModel::Stalled,
            LinkRunOutcome::Failed(failure) => RunModel::Failed(failure@),
        }
    }
}

/// A scheduled link frame of the local console: its events and the input its `ChangeInput` encodes.
pub struct ScheduledFrame {
    pub events: Vec<Packet>,
    pub input: Option<Input>,
}

/// The local side of the cable.
pub struct LinkState {
    pub settings: LinkSettings,
    /// Events scheduled for link frames not yet run.
    pub queue: BTreeMap<u64, ScheduledFrame>,
    /// The local link frame about to run.
    pub frame: u64,
    /// The link frame the next locally generated event is scheduled for (`frame + delay`).
    pub next_send_frame: u64,
    /// Whether the events of `frame` were applied.
    pub frame_prepared: bool,
    /// Pair hashes this machine computed, by the first console's link frame, oldest first.
    pub computed_hashes: Vec<(u64, [u8; 32])>,
    /// Pair hashes the partner sent that have not met a computed one yet.
    pub received_hashes: Vec<(u64, [u8; 32])>,
    /// A computed hash to attach to the next link frame sent.
    pub pending_hash: Option<(u64, [u8; 32])>,
    /// A first-console frame whose pair hash is due once the second console has caught up.
    pub hash_due_at: Option<u64>,
    /// The first console's link frames completed (what the pair hash is keyed by).
    pub first_frames: u64,
    /// Whether the last outcome was a stall.
    pub stalled: bool,
    /// Whether the local console's linked steps pace themselves.
    pub paced: bool,
    pub failure: Option<LinkFailure>,
}

/// The partner side of the cable, on the copy of their console.
pub struct LinkPartnerState {
    pub inbox: LinkInbox,
    pub delay: u64,
    pub prefill_input: Vec<u8>,
    /// The partner's link frame about to run.
    pub frame: u64,
    /// Whether the events for `frame` have been applied.
    pub frame_prepared: bool,
}

/// The link cable family a console belongs to: only consoles of the same family link.
pub open spec fn family(console: Option<ReplayConsoleType>) -> Option<u8> {
    match console {
        Some(ReplayConsoleType::GameBoy) => Some(1),
        Some(ReplayConsoleType::GameBoyColor) => Some(1),
        Some(ReplayConsoleType::SuperGameBoy2) => Some(1),
        Some(ReplayConsoleType::GameBoyAdvance) => Some(2),
        _ => None,
    }
}

/// The link cable family a console belongs to: only consoles of the same family link.
pub fn link_family(console: Option<ReplayConsoleType>) -> (r: Option<u8>)
    ensures
        r == family(console),
{
    match console {
        Some(ReplayConsoleType::GameBoy) => Some(1),
        Some(ReplayConsoleType::GameBoyColor) => Some(1),
        Some(ReplayConsoleType::SuperGameBoy2) => Some(1),
        Some(ReplayConsoleType::GameBoyAdvance) => Some(2),
        _ => None,
    }
}

// ---------------------------------------------------------------------------------------------
// Pair hashes.

/// The newest `n` of a sequence.
pub open spec fn newest_of<A>(s: Seq<A>, n: nat) -> Seq<A> {
    if s.len() <= n {
        s
    } else {
        s.skip(s.len() - n)
    }
}

/// The hash computed here for a frame, if one is remembered.
pub open spec fn computed_for(computed: Seq<(u64, [u8; 32])>, frame: u64) -> Option<Seq<u8>>
    decreases computed.len(),
{
    if computed.len() == 0 {
        None
    } else if computed[0].0 == frame {
        Some(computed[0].1@)
    } else {
        computed_for(computed.skip(1), frame)
    }
}

/// The oldest frame a hash is remembered for.
pub open spec fn oldest_frame(computed: Seq<(u64, [u8; 32])>) -> u64 {
    if computed.len() == 0 {
        0
    } else {
        computed[0].0
    }
}

/// The first frame of the received hashes that differs from the one computed here.
pub open spec fn first_mismatch(
    received: Seq<(u64, [u8; 32])>,
    computed: Seq<(u64, [u8; 32])>,
) -> Option<u64>
    decreases received.len(),
{
    if received.len() == 0 {
        None
    } else {
        let earlier = first_mismatch(received.drop_last(), computed);
        let (frame, hash) = received.last();
        match earlier {
            Some(f) => Some(f),
            None => match computed_for(computed, frame) {
                Some(mine) => if mine != hash@ {
                    Some(frame)
                } else {
                    None
                },
                None => None,
            },
        }
    }
}

/// The received hashes that still wait for one computed here: not those that met one, nor those
/// older than anything remembered.
pub open spec fn still_waiting(
    received: Seq<(u64, [u8; 32])>,
    computed: Seq<(u64, [u8; 32])>,
) -> Seq<(u64, [u8; 32])>
    decreases received.len(),
{
    if received.len() == 0 {
        Seq::empty()
    } else {
        let earlier = still_waiting(received.drop_last(), computed);
        let (frame, _) = received.last();
        if computed_for(computed, frame) is None && frame >= oldest_frame(computed) {
            earlier.push(received.last())
        } else {
            earlier
        }
    }
}

/// A received hash that differs from the one computed here for the same frame is never passed over.
pub proof fn law_divergence_is_noticed(
    received: Seq<(u64, [u8; 32])>,
    computed: Seq<(u64, [u8; 32])>,
    i: int,
)
    requires
        0 <= i < received.len(),
        computed_for(computed, received[i].0) matches Some(mine) && mine != received[i].1@,
    ensures
        first_mismatch(received, computed) is Some,
    decreases received.len(),
{
    if i < received.len() - 1 {
        assert(received.drop_last()[i] == received[i]);
        law_divergence_is_noticed(received.drop_last(), computed, i);
    }
}

/// Machines that computed the same hashes find nothing wrong.
pub proof fn law_agreement_is_no_failure(
    received: Seq<(u64, [u8; 32])>,
    computed: Seq<(u64, [u8; 32])>,
)
    requires
        forall|i: int|
            0 <= i < received.len() ==> (computed_for(
                computed,
                (#[trigger] received[i]).0,
            ) matches Some(mine) ==> mine == received[i].1@),
    ensures
        first_mismatch(received, computed) is None,
    decreases received.len(),
{
    if received.len() > 0 {
        assert forall|i: int| 0 <= i < received.drop_last().len() implies (computed_for(
            computed,
            (#[trigger] received.drop_last()[i]).0,
        ) matches Some(mine) ==> mine == received.drop_last()[i].1@) by {
            assert(received.drop_last()[i] == received[i]);
        }
        law_agreement_is_no_failure(received.drop_last(), computed);
        assert(received[received.len() - 1] == received.last());
    }
}

/// Whether two hashes are the same.
pub fn same_hash(a: &[u8; 32], b: &[u8; 32]) -> (r: bool)
    ensures
        r == (a@ == b@),
{
    let mut i: usize = 0;
    while i < 32
        invariant
            i <= 32,
            forall|k: int| 0 <= k < i ==> a@[k] == b@[k],
        decreases 32 - i,
    {
        if a[i] != b[i] {
            return false;
        }
        i = i + 1;
    }
    assert(a@ =~= b@);
    true
}

impl LinkState {
    /// What is scheduled for a link frame.
    pub open spec fn scheduled(self, frame: u64) -> Seq<packet::PacketModel> {
        if self.queue@.contains_key(frame) {
            packet::packet_models(self.queue@[frame].events@)
        } else {
            Seq::empty()
        }
    }

    /// The input that goes with what is scheduled for a link frame.
    pub open spec fn scheduled_input(self, frame: u64) -> Option<Input> {
        if self.queue@.contains_key(frame) {
            self.queue@[frame].input
        } else {
            None
        }
    }

    /// After scheduling an event: it goes last in its frame's events, a reset first.
    pub open spec fn with_scheduled(self, after: Self, p: packet::PacketModel) -> bool {
        let frame = self.next_send_frame;
        &&& after == (LinkState { queue: after.queue, ..self })
        &&& after.queue@.dom() == self.queue@.dom().insert(frame)
        &&& forall|f: u64|
            f != frame && self.queue@.contains_key(f) ==> #[trigger] after.queue@[f]
                == self.queue@[f]
        &&& after.scheduled_input(frame) == self.scheduled_input(frame)
        &&& after.scheduled(frame) == (if p is ResetConsole {
            seq![p] + self.scheduled(frame)
        } else {
            self.scheduled(frame).push(p)
        })
    }

    /// Schedule an event the local console generated now for the link frame its next fresh input
    /// goes to. Resets go first in a frame's events, before the input and the writes, on both
    /// machines alike.
    pub fn schedule(&mut self, p: Packet)
        ensures
            old(self).with_scheduled(*final(self), p@),
    {
        let frame: u64 = self.next_send_frame;
        let ghost before = self.scheduled(frame);
        let ghost queue = self.queue@;
        let ghost model = p@;
        let mut scheduled: ScheduledFrame = match self.queue.remove(&frame) {
            Some(s) => s,
            None => ScheduledFrame { events: Vec::new(), input: None },
        };
        let ghost events = scheduled.events@;
        assert(packet::packet_models(events) =~= before);
        match &p {
            Packet::ResetConsole => {
                scheduled.events.insert(0, p);
                assert(packet::packet_models(scheduled.events@) =~= seq![model] + before);
            },
            _ => {
                scheduled.events.push(p);
                assert(packet::packet_models(scheduled.events@) =~= before.push(model));
            },
        }
        let _ = self.queue.insert(frame, scheduled);
        assert(self.queue@.dom() =~= queue.dom().insert(frame));
    }

    /// After the local console's fresh input was scheduled, last in its frame's events.
    pub open spec fn with_fresh_input(self, after: Self, data: Seq<u8>, input: Input) -> bool {
        let frame = self.next_send_frame;
        &&& after == (LinkState { queue: after.queue, ..self })
        &&& after.queue@.dom() == self.queue@.dom().insert(frame)
        &&& forall|f: u64|
            f != frame && self.queue@.contains_key(f) ==> #[trigger] after.queue@[f]
                == self.queue@[f]
        &&& after.scheduled_input(frame) == Some(input)
        &&& after.scheduled(frame) == self.scheduled(frame).push(
            packet::PacketModel::ChangeInput { data },
        )
    }

    /// Schedule the local console's fresh input, and give a copy of everything scheduled for that
    /// frame: it goes to the partner now.
    pub fn schedule_input(&mut self, data: Vec<u8>, input: Input) -> (r: Vec<Packet>)
        ensures
            old(self).with_fresh_input(*final(self), data@, input),
            packet::packet_models(r@) == final(self).scheduled(old(self).next_send_frame),
    {
        let frame: u64 = self.next_send_frame;
        let ghost before = self.scheduled(frame);
        let ghost queue = self.queue@;
        let ghost model = packet::PacketModel::ChangeInput { data: data@ };
        let mut scheduled: ScheduledFrame = match self.queue.remove(&frame) {
            Some(s) => s,
            None => ScheduledFrame { events: Vec::new(), input: None },
        };
        assert(packet::packet_models(scheduled.events@) =~= before);
        scheduled.events.push(Packet::ChangeInput { data });
        assert(packet::packet_models(scheduled.events@) =~= before.push(model));
        scheduled.input = Some(input);
        let events: Vec<Packet> = packet::copy_packets(&scheduled.events);
        let _ = self.queue.insert(frame, scheduled);
        assert(self.queue@.dom() =~= queue.dom().insert(frame));
        events
    }

    /// After the events of the frame about to run were taken, the ones sent being those of
    /// [`next_send_frame`](Self::next_send_frame).
    pub open spec fn with_frame_started(self, after: Self) -> bool {
        &&& after == (LinkState {
            queue: after.queue,
            pending_hash: None,
            next_send_frame: after_frame(self.next_send_frame),
            frame_prepared: true,
            ..self
        })
        &&& after.queue@ == self.queue@.remove(self.frame)
    }

    /// Take the events of the frame about to run.
    pub fn start_frame(&mut self) -> (r: Option<ScheduledFrame>)
        ensures
            old(self).with_frame_started(*final(self)),
            match r {
                Some(s) => old(self).queue@.contains_key(old(self).frame) && s
                    == old(self).queue@[old(self).frame],
                None => !old(self).queue@.contains_key(old(self).frame),
            },
    {
        self.pending_hash = None;
        self.next_send_frame = self.next_send_frame.saturating_add(1);
        self.frame_prepared = true;
        let frame: u64 = self.frame;
        self.queue.remove(&frame)
    }

    /// Whether the cable was only just plugged in: the first `delay_frames` frames use the input
    /// held then.
    pub open spec fn plugged_in(self, settings: LinkSettings, data: Seq<u8>, input: Input) -> bool {
        &&& self.settings == settings
        &&& forall|f: u64| #[trigger]
            self.queue@.contains_key(f) <==> f < settings.delay_frames
        &&& forall|f: u64|
            f < settings.delay_frames ==> #[trigger] self.scheduled(f) == prefilled(data)
        &&& forall|f: u64|
            f < settings.delay_frames ==> #[trigger] self.scheduled_input(f) == Some(input)
        &&& self.frame == 0
        &&& self.next_send_frame == settings.delay_frames
        &&& !self.frame_prepared
        &&& self.computed_hashes@.len() == 0
        &&& self.received_hashes@.len() == 0
        &&& self.pending_hash is None
        &&& self.hash_due_at is None
        &&& self.first_frames == 0
        &&& !self.stalled
        &&& self.paced
        &&& self.failure is None
    }

    /// The local side of a cable plugged in now.
    pub fn new(settings: LinkSettings, data: &Vec<u8>, input: Input) -> (r: Self)
        ensures
            r.plugged_in(settings, data@, input),
    {
        let delay: u64 = settings.delay_frames;
        let mut queue: BTreeMap<u64, ScheduledFrame> = BTreeMap::new();
        let mut frame: u64 = 0;
        while frame < delay
            invariant
                frame <= delay,
                forall|f: u64| #[trigger] queue@.contains_key(f) <==> f < frame,
                forall|f: u64|
                    f < frame ==> packet::packet_models((#[trigger] queue@[f]).events@)
                        == prefilled(data@) && queue@[f].input == Some(input),
            decreases delay - frame,
        {
            let mut events: Vec<Packet> = Vec::new();
            events.push(Packet::ChangeInput { data: packet::copy_bytes(data) });
            assert(packet::packet_models(events@) =~= prefilled(data@));
            let _ = queue.insert(frame, ScheduledFrame { events, input: Some(input) });
            frame = frame + 1;
        }
        LinkState {
            settings,
            queue,
            frame: 0,
            next_send_frame: delay,
            frame_prepared: false,
            computed_hashes: Vec::new(),
            received_hashes: Vec::new(),
            pending_hash: None,
            hash_due_at: None,
            first_frames: 0,
            stalled: false,
            paced: true,
            failure: None,
        }
    }

    /// After the first console completed a link frame: a pair hash is due every
    /// [`PAIR_HASH_INTERVAL_FRAMES`].
    pub open spec fn with_first_frame(self) -> Self {
        let n = after_frame(self.first_frames);
        LinkState {
            first_frames: n,
            hash_due_at: if n % PAIR_HASH_INTERVAL_FRAMES == 0 {
                Some(n)
            } else {
                self.hash_due_at
            },
            ..self
        }
    }

    /// The first console completed a link frame: count it and mark a pair hash due when it is time
    /// for one.
    pub fn first_frame_completed(&mut self)
        ensures
            *final(self) == old(self).with_first_frame(),
    {
        self.first_frames = self.first_frames.saturating_add(1);
        if self.first_frames % PAIR_HASH_INTERVAL_FRAMES == 0 {
            self.hash_due_at = Some(self.first_frames);
        }
    }

    /// After every received hash was matched with the computed ones.
    pub open spec fn with_hashes_matched(self, after: Self, r: Option<LinkFailure>) -> bool {
        let computed = self.computed_hashes@;
        let received = self.received_hashes@;
        &&& after == (LinkState { received_hashes: after.received_hashes, ..self })
        &&& after.received_hashes@ == newest_of(
            still_waiting(received, computed),
            PAIR_HASH_WINDOW as nat,
        )
        &&& match first_mismatch(received, computed) {
            Some(frame) => r matches Some(f) && f@ == (FailureModel::PairHashMismatch { frame }),
            None => r is None,
        }
    }

    fn computed_hash(&self, frame: u64) -> (r: Option<[u8; 32]>)
        ensures
            match computed_for(self.computed_hashes@, frame) {
                Some(hash) => r matches Some(h) && h@ == hash,
                None => r is None,
            },
    {
        let ghost all = self.computed_hashes@;
        let mut i: usize = 0;
        assert(all.skip(0) =~= all);
        while i < self.computed_hashes.len()
            invariant
                i <= all.len(),
                all == self.computed_hashes@,
                computed_for(all, frame) == computed_for(all.skip(i as int), frame),
            decreases all.len() - i,
        {
            let (f, hash): (u64, [u8; 32]) = self.computed_hashes[i];
            let ghost rest = all.skip(i as int);
            assert(rest[0] == (f, hash));
            if f == frame {
                return Some(hash);
            }
            i = i + 1;
            assert(rest.skip(1) =~= all.skip(i as int));
        }
        None
    }

    /// Match every received hash against the computed ones, dropping what matched or went stale;
    /// `Some` on a mismatch.
    pub fn match_hashes(&mut self) -> (r: Option<LinkFailure>)
        ensures
            old(self).with_hashes_matched(*final(self), r),
    {
        let ghost computed = self.computed_hashes@;
        let ghost received = self.received_hashes@;
        let oldest: u64 = if self.computed_hashes.len() == 0 {
            0
        } else {
            self.computed_hashes[0].0
        };
        let mut mismatch: Option<u64> = None;
        let mut kept: Vec<(u64, [u8; 32])> = Vec::new();
        let mut i: usize = 0;
        assert(received.take(0) =~= Seq::<(u64, [u8; 32])>::empty());
        while i < self.received_hashes.len()
            invariant
                i <= received.len(),
                received == self.received_hashes@,
                computed == self.computed_hashes@,
                *self == *old(self),
                oldest == oldest_frame(computed),
                kept@ == still_waiting(received.take(i as int), computed),
                mismatch == first_mismatch(received.take(i as int), computed),
            decreases received.len() - i,
        {
            let (frame, hash): (u64, [u8; 32]) = self.received_hashes[i];
            match self.computed_hash(frame) {
                Some(mine) => {
                    if !same_hash(&mine, &hash) && mismatch.is_none() {
                        mismatch = Some(frame);
                    }
                },
                None => {
                    if frame >= oldest {
                        kept.push((frame, hash));
                    }
                },
            }
            i = i + 1;
            assert(received.take(i as int).drop_last() =~= received.take(i - 1));
            assert(received.take(i as int).last() == received[i - 1]);
        }
        assert(received.take(i as int) =~= received);
        self.received_hashes = newest(kept, PAIR_HASH_WINDOW);
        match mismatch {
            Some(frame) => Some(LinkFailure::PairHashMismatch { frame }),
            None => None,
        }
    }

    /// After a pair hash was computed here: it goes out with the next link frame, and is compared
    /// with what the partner sent.
    pub open spec fn with_computed(self, frame: u64, hash: [u8; 32], noted: Self) -> bool {
        &&& noted == (LinkState {
            pending_hash: Some((frame, hash)),
            computed_hashes: noted.computed_hashes,
            ..self
        })
        &&& noted.computed_hashes@ == newest_of(
            self.computed_hashes@.push((frame, hash)),
            PAIR_HASH_WINDOW as nat,
        )
    }

    /// Record a pair hash computed here and compare it with any the partner sent for the same
    /// frame; `Some` on a mismatch.
    pub fn note_computed_hash(&mut self, frame: u64, hash: [u8; 32]) -> (r: Option<LinkFailure>)
        ensures
            exists|noted: LinkState| #[trigger]
                old(self).with_computed(frame, hash, noted) && noted.with_hashes_matched(
                    *final(self),
                    r,
                ),
    {
        self.pending_hash = Some((frame, hash));
        let mut computed: Vec<(u64, [u8; 32])> = Vec::new();
        core::mem::swap(&mut computed, &mut self.computed_hashes);
        computed.push((frame, hash));
        self.computed_hashes = newest(computed, PAIR_HASH_WINDOW);
        let ghost noted = *self;
        assert(old(self).with_computed(frame, hash, noted));
        self.match_hashes()
    }
}

/// What was sent to the partner for a link frame is what the local console applies to it: nothing
/// that is scheduled later changes the events of a frame that has gone out.
pub proof fn law_sent_frames_stay_as_sent(
    before: LinkState,
    after: LinkState,
    frame: u64,
    p: packet::PacketModel,
    data: Seq<u8>,
    input: Input,
)
    requires
        frame < before.next_send_frame,
        before.with_scheduled(after, p) || before.with_fresh_input(after, data, input) || (
        before.with_frame_started(after) && frame != before.frame),
    ensures
        after.scheduled(frame) == before.scheduled(frame),
        after.scheduled_input(frame) == before.scheduled_input(frame),
        frame < after.next_send_frame,
{
    assert(after.queue@.contains_key(frame) == before.queue@.contains_key(frame)) by {
        if before.with_frame_started(after) {
        } else {
            assert(after.queue@.dom() == before.queue@.dom().insert(before.next_send_frame));
        }
    }
}

/// The newest `n` of a list.
fn newest(list: Vec<(u64, [u8; 32])>, n: usize) -> (r: Vec<(u64, [u8; 32])>)
    ensures
        r@ == newest_of(list@, n as nat),
{
    if list.len() <= n {
        return list;
    }
    let ghost all = list@;
    let mut list: Vec<(u64, [u8; 32])> = list;
    let start: usize = list.len() - n;
    let tail: Vec<(u64, [u8; 32])> = list.split_off(start);
    assert(tail@ =~= all.skip(start as int));
    tail
}

/// A link frame in which the partner holds what it held when the cable went in.
pub open spec fn prefilled(input: Seq<u8>) -> Seq<packet::PacketModel> {
    seq![packet::PacketModel::ChangeInput { data: input }]
}

} // verus!
