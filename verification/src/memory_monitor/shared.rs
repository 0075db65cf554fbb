//! The state shared between the UI side and the core thread.

use super::request;
use super::request::{MonitorRequest, MAX_VIEW_WINDOWS};
use super::values::AddressPath;
use crate::emulator::memory::MemoryRegionInfo;
use std::collections::VecDeque;
use vstd::prelude::*;
use vstd::slice::slice_subrange;

verus! {

/// Largest single edit.
pub const MAX_EDIT_LEN: usize = 4096;

/// Events kept for the UI before the oldest are dropped.
pub const EVENT_RING_CAPACITY: usize = 8192;

/// Snapshot buffers kept for reuse.
pub const SNAPSHOT_POOL: usize = 4;

/// One viewer window's bytes in a [`MonitorSample`].
#[derive(Clone, Debug)]
pub struct WindowSample {
    /// Whether this viewer slot asked for anything.
    pub active: bool,
    /// First address.
    pub address: u32,
    /// The bytes; only the first `valid_len` are mapped.
    pub bytes: Vec<u8>,
    /// How many bytes from the start are mapped memory.
    pub valid_len: u32,
}

/// A window sample, as the contracts see it.
#[verifier::ext_equal]
pub ghost struct WindowModel {
    pub active: bool,
    pub address: u32,
    pub bytes: Seq<u8>,
    pub valid_len: u32,
}

impl View for WindowSample {
    type V = WindowModel;

    open spec fn view(&self) -> WindowModel {
        WindowModel {
            active: self.active,
            address: self.address,
            bytes: self.bytes@,
            valid_len: self.valid_len,
        }
    }
}

impl WindowModel {
    /// A slot that shows nothing.
    pub open spec fn blank() -> WindowModel {
        WindowModel { active: false, address: 0, bytes: Seq::empty(), valid_len: 0 }
    }
}

impl Default for WindowSample {
    fn default() -> (r: Self)
        ensures
            r@ == WindowModel::blank(),
    {
        WindowSample { active: false, address: 0, bytes: Vec::new(), valid_len: 0 }
    }
}

/// What the core thread read for a request, at one frame boundary.
#[derive(Clone, Debug)]
pub struct MonitorSample {
    /// Increases with every sample published; 0 means "no sample".
    pub generation: u64,
    /// Emulated frame the sample was taken after.
    pub frame: u64,
    /// The core's state epoch when it was taken.
    pub state_epoch: u64,
    /// The request generation it answered (older samples may describe other windows).
    pub request_generation: u64,
    /// Viewer windows, by slot.
    pub windows: [WindowSample; 4],
    /// Each probe's bytes, concatenated in request order (`probe_offsets` gives each start).
    pub probe_values: Vec<u8>,
    /// Start of each probe's bytes in `probe_values`.
    pub probe_offsets: Vec<u32>,
    /// Whether each probe could be read.
    pub probe_ok: Vec<bool>,
    /// Each probe's final address (after pointers).
    pub probe_addresses: Vec<u32>,
    /// Per freeze in request order: frames on which its value had to be restored, since the freeze
    /// was added.
    pub freeze_restores: Vec<u32>,
    /// Per freeze in request order: whether its address resolved at the last boundary.
    pub freeze_ok: Vec<bool>,
}

/// A sample, as the contracts see it.
#[verifier::ext_equal]
pub ghost struct SampleModel {
    pub generation: u64,
    pub frame: u64,
    pub state_epoch: u64,
    pub request_generation: u64,
    pub windows: Seq<WindowModel>,
    pub probe_values: Seq<u8>,
    pub probe_offsets: Seq<u32>,
    pub probe_ok: Seq<bool>,
    pub probe_addresses: Seq<u32>,
    pub freeze_restores: Seq<u32>,
    pub freeze_ok: Seq<bool>,
}

impl View for MonitorSample {
    type V = SampleModel;

    open spec fn view(&self) -> SampleModel {
        SampleModel {
            generation: self.generation,
            frame: self.frame,
            state_epoch: self.state_epoch,
            request_generation: self.request_generation,
            windows: Seq::new(MAX_VIEW_WINDOWS as nat, |i: int| self.windows@[i]@),
            probe_values: self.probe_values@,
            probe_offsets: self.probe_offsets@,
            probe_ok: self.probe_ok@,
            probe_addresses: self.probe_addresses@,
            freeze_restores: self.freeze_restores@,
            freeze_ok: self.freeze_ok@,
        }
    }
}

impl SampleModel {
    /// No sample.
    pub open spec fn blank() -> SampleModel {
        SampleModel {
            generation: 0,
            frame: 0,
            state_epoch: 0,
            request_generation: 0,
            windows: Seq::new(MAX_VIEW_WINDOWS as nat, |i: int| WindowModel::blank()),
            probe_values: Seq::empty(),
            probe_offsets: Seq::empty(),
            probe_ok: Seq::empty(),
            probe_addresses: Seq::empty(),
            freeze_restores: Seq::empty(),
            freeze_ok: Seq::empty(),
        }
    }

    /// The bytes of probe `index`, if it could be read: from its offset to the next one's (to the
    /// end for the last).
    pub open spec fn probe(self, index: int) -> Option<Seq<u8>> {
        if !(0 <= index < self.probe_ok.len()) || !self.probe_ok[index] {
            None
        } else {
            let start = self.probe_offsets[index] as int;
            let end = if index + 1 < self.probe_offsets.len() {
                self.probe_offsets[index + 1] as int
            } else {
                self.probe_values.len() as int
            };
            if start <= end <= self.probe_values.len() {
                Some(self.probe_values.subrange(start, end))
            } else {
                None
            }
        }
    }
}

impl Default for MonitorSample {
    fn default() -> (r: Self)
        ensures
            r@ == SampleModel::blank(),
    {
        let r = MonitorSample {
            generation: 0,
            frame: 0,
            state_epoch: 0,
            request_generation: 0,
            windows: [
                WindowSample::default(),
                WindowSample::default(),
                WindowSample::default(),
                WindowSample::default(),
            ],
            probe_values: Vec::new(),
            probe_offsets: Vec::new(),
            probe_ok: Vec::new(),
            probe_addresses: Vec::new(),
            freeze_restores: Vec::new(),
            freeze_ok: Vec::new(),
        };
        assert(r@.windows =~= SampleModel::blank().windows);
        r
    }
}

impl MonitorSample {
    /// The bytes of probe `index`, if it could be read.
    pub fn probe(&self, index: usize) -> (r: Option<&[u8]>)
        requires
            index < self.probe_ok@.len() ==> index < self.probe_offsets@.len(),
        ensures
            match self@.probe(index as int) {
                Some(bytes) => r matches Some(read) && read@ == bytes,
                None => r is None,
            },
    {
        if index >= self.probe_ok.len() || !self.probe_ok[index] {
            return None;
        }
        let start: usize = self.probe_offsets[index] as usize;
        let end: usize = if index < self.probe_offsets.len() - 1 {
            self.probe_offsets[index + 1] as usize
        } else {
            self.probe_values.len()
        };
        if start > end || end > self.probe_values.len() {
            return None;
        }
        Some(slice_subrange(self.probe_values.as_slice(), start, end))
    }
}

/// Why an edit was not applied.
#[derive(Copy, Clone, Debug, PartialEq, Eq, Structural)]
pub enum WriteFailure {
    /// The address (or part of the range) is not mapped.
    Unmapped,
    /// The region cannot be written by the tools.
    ReadOnly,
    /// A pointer on the way to the address is unmapped.
    PointerInvalid,
    /// A replay is being played back.
    Playback,
    /// Empty, or longer than [`MAX_EDIT_LEN`].
    BadLength,
}

/// Something the core thread observed or did.
#[derive(Clone, Debug, PartialEq, Eq)]
pub enum MonitorEvent {
    /// A traced watch changed. Values of up to 8 bytes are packed little-endian into `old`/`new`;
    /// longer ones are 64-bit FNV-1a hashes.
    Changed { frame: u64, id: u32, old: u64, new: u64 },
    /// Memory was replaced wholesale (state load, reset, seek): traces started over rather than
    /// reporting changes.
    Discontinuity { frame: u64 },
    /// A traced watch's condition paused emulation.
    PausedByCondition { frame: u64, id: u32 },
    /// An edit was applied. `old` holds the exact bytes it replaced.
    Written { frame: u64, edit_id: u64, address: u32, old: Vec<u8>, new: Vec<u8> },
    /// An edit was rejected.
    WriteFailed { edit_id: u64, reason: WriteFailure },
}

/// An event, as the contracts see it.
pub ghost enum EventModel {
    Changed { frame: u64, id: u32, before: u64, after: u64 },
    Discontinuity { frame: u64 },
    PausedByCondition { frame: u64, id: u32 },
    Written { frame: u64, edit_id: u64, address: u32, before: Seq<u8>, after: Seq<u8> },
    WriteFailed { edit_id: u64, reason: WriteFailure },
}

impl View for MonitorEvent {
    type V = EventModel;

    open spec fn view(&self) -> EventModel {
        match *self {
            MonitorEvent::Changed { frame, id, old: before, new: after } => EventModel::Changed {
                frame,
                id,
                before,
                after,
            },
            MonitorEvent::Discontinuity { frame } => EventModel::Discontinuity { frame },
            MonitorEvent::PausedByCondition { frame, id } => EventModel::PausedByCondition {
                frame,
                id,
            },
            MonitorEvent::Written { frame, edit_id, address, old: before, new: after } =>
            EventModel::Written { frame, edit_id, address, before: before@, after: after@ },
            MonitorEvent::WriteFailed { edit_id, reason } => EventModel::WriteFailed {
                edit_id,
                reason,
            },
        }
    }
}

/// Events, as the contracts see them.
pub open spec fn event_models(events: Seq<MonitorEvent>) -> Seq<EventModel> {
    Seq::new(events.len(), |i: int| events[i]@)
}

/// A one-time write requested by the UI.
#[derive(Clone, Debug)]
pub struct MemoryEdit {
    /// Echoed in the resulting event.
    pub edit_id: u64,
    /// Where to write.
    pub path: AddressPath,
    /// What to write.
    pub data: Vec<u8>,
}

/// An edit, as the contracts see it.
#[verifier::ext_equal]
pub ghost struct EditModel {
    pub edit_id: u64,
    pub path: AddressPath,
    pub data: Seq<u8>,
}

impl View for MemoryEdit {
    type V = EditModel;

    open spec fn view(&self) -> EditModel {
        EditModel { edit_id: self.edit_id, path: self.path, data: self.data@ }
    }
}

/// Edits, as the contracts see them.
pub open spec fn edit_models(edits: Seq<MemoryEdit>) -> Seq<EditModel> {
    Seq::new(edits.len(), |i: int| edits[i]@)
}

/// A region's place in a [`FullSnapshot`].
#[derive(Copy, Clone, Debug)]
pub struct SnapshotRegion {
    /// The region.
    pub info: MemoryRegionInfo,
    /// Where its `info.len` bytes start in [`FullSnapshot::bytes`].
    pub offset: usize,
    /// How many of them are mapped memory; the rest are zero.
    pub available: usize,
}

/// A copy of every memory region at one frame boundary, for searching.
#[derive(Debug)]
pub struct FullSnapshot {
    /// The id passed to [`MemoryMonitorShared::request_snapshot`].
    pub job_id: u64,
    /// Emulated frame it was taken after.
    pub frame: u64,
    /// The core's state epoch when it was taken.
    pub state_epoch: u64,
    /// The regions, in order.
    pub regions: Vec<SnapshotRegion>,
    /// All regions' bytes, concatenated.
    pub bytes: Vec<u8>,
}

/// Events nobody has drained yet, the newest [`EVENT_RING_CAPACITY`] of them.
#[derive(Debug)]
pub struct EventRing {
    pub events: VecDeque<MonitorEvent>,
    pub dropped: u64,
}

/// The newest `capacity` events of `ring` followed by `more`, and how many were left out.
pub open spec fn ring_after(ring: Seq<EventModel>, more: Seq<EventModel>) -> Seq<EventModel> {
    let all = ring + more;
    if all.len() <= EVENT_RING_CAPACITY || more.len() == 0 {
        all
    } else {
        all.skip(all.len() - EVENT_RING_CAPACITY)
    }
}

/// `a + b`, stopping at the largest number.
pub open spec fn capped_sum(a: u64, b: nat) -> u64 {
    if a + b > u64::MAX {
        u64::MAX
    } else {
        (a + b) as u64
    }
}

impl EventRing {
    /// At most [`EVENT_RING_CAPACITY`] events are kept.
    pub open spec fn wf(self) -> bool {
        self.events@.len() <= EVENT_RING_CAPACITY
    }

    /// Add an event, dropping the oldest if the ring is full.
    pub fn push(&mut self, event: MonitorEvent)
        requires
            old(self).wf(),
        ensures
            final(self).wf(),
            event_models(final(self).events@) == ring_after(
                event_models(old(self).events@),
                seq![event@],
            ),
            final(self).dropped == capped_sum(
                old(self).dropped,
                if old(self).events@.len() == EVENT_RING_CAPACITY {
                    1
                } else {
                    0
                },
            ),
    {
        let ghost before = self.events@;
        if self.events.len() >= EVENT_RING_CAPACITY {
            let _ = self.events.pop_front();
            self.dropped = self.dropped.saturating_add(1);
        }
        self.events.push_back(event);
        assert(event_models(self.events@) =~= ring_after(event_models(before), seq![event@]));
    }
}

/// State shared between the UI side and the core thread.
pub struct MemoryMonitorShared {
    pub request: MonitorRequest,
    pub request_generation: u64,
    pub sample: MonitorSample,
    pub sample_generation: u64,
    pub events: EventRing,
    pub events_generation: u64,
    pub edits: Vec<MemoryEdit>,
    pub edits_generation: u64,
    /// The snapshot asked for and not taken yet; 0 when there is none.
    pub snapshot_requested: u64,
    /// Whether somebody takes snapshots.
    pub snapshots_wanted: bool,
    /// Snapshots taken and not picked up yet, oldest first.
    pub snapshots: Vec<FullSnapshot>,
    /// Buffers for the next snapshots.
    pub snapshot_pool: Vec<Vec<u8>>,
}

/// Everything of the shared state but what it holds for snapshots, as the contracts see it.
#[verifier::ext_equal]
pub ghost struct SharedModel {
    pub request: request::RequestModel,
    pub request_generation: u64,
    pub sample: SampleModel,
    pub sample_generation: u64,
    pub events: Seq<EventModel>,
    pub dropped: u64,
    pub events_generation: u64,
    pub edits: Seq<EditModel>,
    pub edits_generation: u64,
    pub snapshot_requested: u64,
    pub snapshots_wanted: bool,
}

impl View for MemoryMonitorShared {
    type V = SharedModel;

    open spec fn view(&self) -> SharedModel {
        SharedModel {
            request: self.request@,
            request_generation: self.request_generation,
            sample: self.sample@,
            sample_generation: self.sample_generation,
            events: event_models(self.events.events@),
            dropped: self.events.dropped,
            events_generation: self.events_generation,
            edits: edit_models(self.edits@),
            edits_generation: self.edits_generation,
            snapshot_requested: self.snapshot_requested,
            snapshots_wanted: self.snapshots_wanted,
        }
    }
}

impl SharedModel {
    /// Whether there is a sample for a reader that has seen generation `last_seen`.
    pub open spec fn offers(self, last_seen: u64) -> bool {
        self.sample_generation > last_seen && self.sample.generation > last_seen
    }

    /// After a reader that has seen `last_seen` came for a sample with `given`, and went with
    /// `into`.
    pub open spec fn sample_taken(
        self,
        after: SharedModel,
        last_seen: u64,
        given: SampleModel,
        into: SampleModel,
        r: Option<u64>,
    ) -> bool {
        if self.offers(last_seen) {
            &&& r == Some(self.sample.generation)
            &&& into == self.sample
            &&& after == (SharedModel { sample: given, ..self })
        } else {
            r is None && into == given && after == self
        }
    }

    /// Whether a reader that has seen every generation up to `seen` gets what it is owed: `newest`
    /// is the newest sample published, and unless the reader has seen it, it is the one to be
    /// taken. What lies there otherwise is old.
    pub open spec fn owes(self, newest: SampleModel, seen: u64) -> bool {
        &&& newest.generation == self.sample_generation
        &&& if newest.generation > seen {
            self.sample == newest
        } else {
            self.sample.generation <= seen
        }
    }
}

/// Whoever comes with the last generation it has seen (and with a sample no newer than that) gets
/// the newest sample published if that is newer, and nothing otherwise; and having taken it, gets
/// nothing more until another is published.
pub proof fn law_the_newest_sample_is_taken_once(
    half: SharedModel,
    after: SharedModel,
    newest: SampleModel,
    last_seen: u64,
    given: SampleModel,
    into: SampleModel,
    r: Option<u64>,
)
    requires
        half.owes(newest, last_seen),
        given.generation <= last_seen,
        half.sample_taken(after, last_seen, given, into, r),
    ensures
        r is Some <==> newest.generation > last_seen,
        r matches Some(g) ==> {
            &&& g == newest.generation
            &&& g > last_seen
            &&& into == newest
            &&& after.owes(newest, g)
            &&& !after.offers(g)
        },
        r is None ==> into == given && after == half,
{
}

impl MemoryMonitorShared {
    /// At most [`EVENT_RING_CAPACITY`] events and [`SNAPSHOT_POOL`] buffers are kept.
    pub open spec fn wf(self) -> bool {
        self.events.wf() && self.snapshot_pool@.len() <= SNAPSHOT_POOL
    }

    /// A monitor with an idle request.
    pub fn new() -> (r: Self)
        ensures
            r.wf(),
            r@ == (SharedModel {
                request: request::RequestModel::idle(),
                request_generation: 1,
                sample: SampleModel::blank(),
                sample_generation: 0,
                events: Seq::empty(),
                dropped: 0,
                events_generation: 0,
                edits: Seq::empty(),
                edits_generation: 0,
                snapshot_requested: 0,
                snapshots_wanted: false,
            }),
            r.snapshots@.len() == 0,
            r.snapshot_pool@.len() == 0,
    {
        let r = Self {
            request: MonitorRequest::default(),
            request_generation: 1,
            sample: MonitorSample::default(),
            sample_generation: 0,
            events: EventRing { events: VecDeque::new(), dropped: 0 },
            events_generation: 0,
            edits: Vec::new(),
            edits_generation: 0,
            snapshot_requested: 0,
            snapshots_wanted: false,
            snapshots: Vec::new(),
            snapshot_pool: Vec::new(),
        };
        assert(r@.events =~= Seq::empty());
        assert(r@.edits =~= Seq::empty());
        r
    }

    /// Change the request, and return what `f` makes of it besides. The core thread picks the
    /// request up at its next frame boundary (wake it if it may be paused).
    pub fn update_request<R, F: FnOnce(MonitorRequest) -> (MonitorRequest, R)>(
        &mut self,
        f: F,
    ) -> (r: R)
        requires
            forall|request: MonitorRequest| f.requires((request,)),
        ensures
            exists|given: MonitorRequest, made: MonitorRequest|
                given@ == old(self)@.request && #[trigger] f.ensures((given,), (made, r)) && final(
                    self
                )@ == (SharedModel {
                    request: made@,
                    request_generation: old(self)@.request_generation.wrapping_add(1),
                    ..old(self)@
                }),
            final(self).snapshots == old(self).snapshots,
            final(self).snapshot_pool == old(self).snapshot_pool,
            old(self).wf() ==> final(self).wf(),
    {
        let given = self.request.duplicate();
        let ghost g = given;
        let (made, r): (MonitorRequest, R) = f(given);
        self.request = made;
        self.request_generation = self.request_generation.wrapping_add(1);
        assert(f.ensures((g,), (self.request, r)));
        r
    }

    /// A copy of the current request.
    pub fn request(&self) -> (r: MonitorRequest)
        ensures
            r@ == self@.request,
    {
        self.request.duplicate()
    }

    /// The current request's generation.
    pub fn request_generation(&self) -> (r: u64)
        ensures
            r == self@.request_generation,
    {
        self.request_generation
    }

    /// If a sample newer than `last_seen` has been published, swap it into `into` and return its
    /// generation. `into`'s old buffers go back to the core thread, so nothing is allocated.
    pub fn take_sample(&mut self, last_seen: u64, into: &mut MonitorSample) -> (r: Option<u64>)
        ensures
            old(self)@.sample_taken(final(self)@, last_seen, old(into)@, final(into)@, r),
            final(self).snapshots == old(self).snapshots,
            final(self).snapshot_pool == old(self).snapshot_pool,
            old(self).wf() ==> final(self).wf(),
    {
        if self.sample_generation <= last_seen || self.sample.generation <= last_seen {
            return None;
        }
        core::mem::swap(&mut self.sample, into);
        Some(into.generation)
    }

    /// Move every event observed so far into `into`, returning how many were dropped because
    /// nobody drained them in time.
    pub fn drain_events(&mut self, into: &mut Vec<MonitorEvent>) -> (r: u64)
        ensures
            r == old(self)@.dropped,
            event_models(final(into)@) == event_models(old(into)@) + old(self)@.events,
            final(self)@ == (SharedModel { events: Seq::empty(), dropped: 0, ..old(self)@ }),
            final(self).snapshots == old(self).snapshots,
            final(self).snapshot_pool == old(self).snapshot_pool,
            old(self).wf() ==> final(self).wf(),
    {
        let ghost before = event_models(into@);
        let ghost waiting = event_models(self.events.events@);
        let ghost shared = self@;
        let ghost kept = (self.snapshots, self.snapshot_pool);
        assert(before + waiting.take(0) =~= before);
        assert(waiting.skip(0) =~= waiting);
        let ghost mut moved: int = 0;
        while self.events.events.len() > 0
            invariant
                0 <= moved <= waiting.len(),
                event_models(into@) == before + waiting.take(moved),
                event_models(self.events.events@) == waiting.skip(moved),
                self@ == (SharedModel { events: waiting.skip(moved), ..shared }),
                kept == (self.snapshots, self.snapshot_pool),
            decreases self.events.events@.len(),
        {
            let ghost queue = self.events.events@;
            let ghost done = into@;
            if let Some(event) = self.events.events.pop_front() {
                proof {
                    assert(event_models(queue).len() == queue.len());
                    assert(event@ == event_models(queue)[0]);
                    assert(waiting.skip(moved)[0] == waiting[moved]);
                }
                into.push(event);
                proof {
                    moved = moved + 1;
                    assert(event_models(into@) =~= event_models(done).push(event@));
                    assert(before + waiting.take(moved) =~= (before + waiting.take(
                        moved - 1,
                    )).push(event@));
                    assert forall|i: int| 0 <= i < self.events.events@.len() implies
                        #[trigger] event_models(self.events.events@)[i] == waiting.skip(moved)[i] by {
                        assert(self.events.events@[i] == queue[i + 1]);
                        assert(event_models(queue)[i + 1] == waiting.skip(moved - 1)[i + 1]);
                    }
                    assert(event_models(self.events.events@) =~= waiting.skip(moved));
                }
            }
        }
        let dropped: u64 = self.events.dropped;
        self.events.dropped = 0;
        proof {
            assert(event_models(self.events.events@).len() == 0);
            assert(waiting.take(moved) =~= waiting);
            assert(self@.events =~= Seq::empty());
        }
        dropped
    }

    /// Queue a one-time write for the next frame boundary.
    pub fn push_edit(&mut self, edit: MemoryEdit)
        ensures
            final(self)@ == (SharedModel {
                edits: old(self)@.edits.push(edit@),
                edits_generation: old(self)@.edits_generation.wrapping_add(1),
                ..old(self)@
            }),
            final(self).snapshots == old(self).snapshots,
            final(self).snapshot_pool == old(self).snapshot_pool,
            old(self).wf() ==> final(self).wf(),
    {
        self.edits.push(edit);
        self.edits_generation = self.edits_generation.wrapping_add(1);
        assert(self@.edits =~= old(self)@.edits.push(edit@));
    }

    /// Ask for a [`FullSnapshot`] at the next frame boundary, for whoever takes them (see
    /// [`set_snapshot_sender`](Self::set_snapshot_sender)). A newer request replaces one not taken
    /// yet.
    pub fn request_snapshot(&mut self, job_id: u64)
        requires
            job_id != 0,
        ensures
            final(self)@ == (SharedModel { snapshot_requested: job_id, ..old(self)@ }),
            final(self).snapshots == old(self).snapshots,
            final(self).snapshot_pool == old(self).snapshot_pool,
            old(self).wf() ==> final(self).wf(),
    {
        self.snapshot_requested = job_id;
    }

    /// Whether anybody takes full snapshots.
    pub fn set_snapshot_sender(&mut self, wanted: bool)
        ensures
            final(self)@ == (SharedModel { snapshots_wanted: wanted, ..old(self)@ }),
            final(self).snapshots == old(self).snapshots,
            final(self).snapshot_pool == old(self).snapshot_pool,
            old(self).wf() ==> final(self).wf(),
    {
        self.snapshots_wanted = wanted;
    }

    /// Pick up the snapshots taken since the last call, oldest first.
    pub fn take_snapshots(&mut self) -> (r: Vec<FullSnapshot>)
        ensures
            r == old(self).snapshots,
            final(self).snapshots@.len() == 0,
            final(self)@ == old(self)@,
            final(self).snapshot_pool == old(self).snapshot_pool,
            old(self).wf() ==> final(self).wf(),
    {
        let mut taken: Vec<FullSnapshot> = Vec::new();
        core::mem::swap(&mut taken, &mut self.snapshots);
        taken
    }

    /// Give a snapshot buffer back so the next snapshot does not allocate.
    pub fn recycle_snapshot_buffer(&mut self, buffer: Vec<u8>)
        requires
            old(self).wf(),
        ensures
            final(self).wf(),
            final(self)@ == old(self)@,
            final(self).snapshots == old(self).snapshots,
            old(self).snapshot_pool@.len() == SNAPSHOT_POOL ==> final(self).snapshot_pool
                == old(self).snapshot_pool,
            old(self).snapshot_pool@.len() < SNAPSHOT_POOL ==> {
                &&& final(self).snapshot_pool@.len() == old(self).snapshot_pool@.len() + 1
                &&& final(self).snapshot_pool@.drop_last() == old(self).snapshot_pool@
                &&& final(self).snapshot_pool@.last()@.len() == 0
            },
    {
        if self.snapshot_pool.len() < SNAPSHOT_POOL {
            let mut buffer: Vec<u8> = buffer;
            buffer.clear();
            self.snapshot_pool.push(buffer);
            assert(self.snapshot_pool@.drop_last() =~= old(self).snapshot_pool@);
        }
    }
}

} // verus!
