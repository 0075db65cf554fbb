//! Servicing a memory monitor at a frame boundary: what is written, what is sampled and what is
//! handed over.

use super::local;
use super::local::{LocalModel, MemoryMonitorLocal, MonitoredCore, ServiceOutcome, TraceState};
use super::request;
use super::request::{Probe, ViewWindow};
use super::shared;
use super::shared::{
    EventRing, FullSnapshot, MemoryEdit, MemoryMonitorShared, MonitorEvent, SnapshotRegion,
    WindowSample, WriteFailure, MAX_EDIT_LEN,
};
use super::values;
use super::values::FreezeSpec;
use crate::emulator::memory;
use crate::emulator::memory::{ConsoleMemory, MemoryRegionInfo};
use vstd::prelude::*;
use vstd::slice::slice_subrange;
use vstd::slice::slice_to_vec;

verus! {

// ---------------------------------------------------------------------------------------------
// What each step leaves behind.

/// What the core looked like to one pass, and what it answered.
pub ghost struct Pass {
    /// Frames emulated.
    pub frame: u64,
    /// The state epoch.
    pub epoch: u64,
    /// Whether a replay is being played back.
    pub playing_back: bool,
    /// Memory as the traces observed it.
    pub image: memory::MemoryImage,
    /// What became of each freeze.
    pub frozen: Seq<local::FreezeTurn>,
    /// What became of each edit.
    pub edited: Seq<local::EditTurn>,
    /// Memory once the edits were applied: the state the next frame starts from.
    pub after: memory::MemoryImage,
}

/// The core throughout one pass.
pub ghost struct Cores<C> {
    /// As the traces saw it, and after each freeze's turn.
    pub freezing: Seq<C>,
    /// Once the freezes were applied, and after each edit's turn.
    pub editing: Seq<C>,
}

impl<C> Cores<C> {
    /// The core as the traces saw it.
    pub open spec fn seen(self) -> C {
        self.freezing[0]
    }

    /// The core at the pass's end.
    pub open spec fn end(self) -> C {
        self.editing.last()
    }
}

/// Whether `a`, if there is such a time, has come.
pub open spec fn has_come(a: Option<u64>, now: u64) -> bool {
    a matches Some(at) ==> now >= at
}

/// `interval` after `now`.
pub open spec fn later(now: u64, interval: u64) -> u64 {
    shared::capped_sum(now, interval as nat)
}

impl LocalModel {
    /// After the freezes had their turns.
    #[verifier::opaque]
    pub open spec fn with_freezes(self, turns: Seq<local::FreezeTurn>) -> LocalModel {
        LocalModel {
            freeze_ok: Seq::new(
                self.freeze_ok.len(),
                |i: int|
                    if i < turns.len() {
                        local::freeze_target(turns[i].image, self.request.freezes[i]) is Some
                    } else {
                        self.freeze_ok[i]
                    },
            ),
            freeze_restores: Seq::new(
                self.freeze_restores.len(),
                |i: int|
                    if i < turns.len() {
                        (
                            self.freeze_restores[i].0,
                            local::restores_after(self.freeze_restores[i].1, turns[i].wrote),
                        )
                    } else {
                        self.freeze_restores[i]
                    },
            ),
            ..self
        }
    }

    /// After the pending edits had their turns: each is answered by an event, right away.
    #[verifier::opaque]
    pub open spec fn with_edits(self, turns: Seq<local::EditTurn>, frame: u64, playing_back: bool) -> LocalModel {
        LocalModel {
            pending_edits: Seq::empty(),
            events: self.events + Seq::new(
                turns.len(),
                |i: int| local::edit_event(turns[i], self.pending_edits[i], frame, playing_back),
            ),
            flush_events_now: self.flush_events_now || turns.len() > 0,
            ..self
        }
    }

    /// The sample that answers the request with memory being `image`.
    #[verifier::opaque]
    pub open spec fn sample_of(self, image: memory::MemoryImage, frame: u64, epoch: u64) -> shared::SampleModel {
        let probes = self.request.probes;
        shared::SampleModel {
            generation: self.next_sample_generation,
            frame,
            state_epoch: epoch,
            request_generation: self.seen_request_generation,
            windows: Seq::new(
                request::MAX_VIEW_WINDOWS as nat,
                |i: int|
                    local::window_shown(image, self.request.windows[i], self.sample.windows[i]),
            ),
            probe_values: local::probes_bytes(image, probes, probes.len()),
            probe_offsets: Seq::new(
                probes.len(),
                |i: int| local::probes_bytes(image, probes, i as nat).len() as u32,
            ),
            probe_ok: Seq::new(probes.len(), |i: int| local::probed(image, probes[i]) is Some),
            probe_addresses: Seq::new(
                probes.len(),
                |i: int| local::probe_address(image, probes[i]),
            ),
            freeze_restores: Seq::new(
                self.freeze_restores.len(),
                |i: int| self.freeze_restores[i].1,
            ),
            freeze_ok: self.freeze_ok,
        }
    }

    /// After taking a sample.
    #[verifier::opaque]
    pub open spec fn with_sample(self, image: memory::MemoryImage, frame: u64, epoch: u64) -> LocalModel {
        LocalModel {
            sample: self.sample_of(image, frame, epoch),
            next_sample_generation: self.next_sample_generation.wrapping_add(1),
            sample_unpublished: true,
            ..self
        }
    }

    /// Whether memory was replaced wholesale since the last pass.
    pub open spec fn jumped(self, pass: Pass) -> bool {
        self.initialized && pass.epoch != self.last_epoch
    }

    /// Whether the pass sees another frame than the last one did.
    pub open spec fn sees_new_frame(self, pass: Pass) -> bool {
        !self.initialized || pass.frame != self.last_frame || self.jumped(pass)
    }

    /// Whether something waits to be written.
    pub open spec fn wants_write(self, request_changed: bool) -> bool {
        self.pending_edits.len() > 0 || (request_changed && self.request.freezes.len() > 0)
    }

    /// Whether the freezes are applied.
    pub open spec fn applies_freezes(self, pass: Pass, request_changed: bool) -> bool {
        self.applies_freezes_in(
            self.sees_new_frame(pass) || request_changed,
            pass.playing_back,
        )
    }

    /// Whether the freezes are applied on a pass that calls for it.
    pub open spec fn applies_freezes_in(self, called_for: bool, playing_back: bool) -> bool {
        called_for && !playing_back && !self.request.freezes_suspended && self.request.freezes.len()
            > 0
    }

    /// After the traces looked at memory, which was replaced wholesale if `jumped`.
    #[verifier::opaque]
    pub open spec fn looked(self, image: memory::MemoryImage, frame: u64, jumped: bool) -> LocalModel {
        let m = if jumped {
            LocalModel {
                events: self.events.push(shared::EventModel::Discontinuity { frame }),
                ..self
            }
        } else {
            self
        };
        m.with_traces_run(image, frame, !jumped)
    }

    /// After the traces looked at what the game did.
    pub open spec fn traced(self, pass: Pass) -> LocalModel {
        if self.sees_new_frame(pass) && self.traces.len() > 0 {
            self.looked(pass.image, pass.frame, self.jumped(pass))
        } else {
            self
        }
    }

    /// Whether a trace's condition asks for a pause: never right after a jump.
    pub open spec fn pauses(self, pass: Pass) -> bool {
        self.sees_new_frame(pass) && self.traces.len() > 0 && !self.jumped(pass) && self.trace_run(
            pass.image,
            pass.frame,
            true,
        ).pause
    }

    /// Whether an edit was applied.
    pub open spec fn edits_applied(self, pass: Pass) -> bool {
        local::any_edit_applied(
            self.pending_edits,
            pass.edited,
            pass.edited.len(),
            pass.playing_back,
        )
    }

    /// After the traces, the freezes and the edits, and with what was written as the traces' new
    /// baseline.
    #[verifier::opaque]
    pub open spec fn written(self, pass: Pass) -> LocalModel {
        let m = self.traced(pass).with_freezes(pass.frozen).with_edits(
            pass.edited,
            pass.frame,
            pass.playing_back,
        );
        let wrote = local::any_freeze_wrote(pass.frozen, pass.frozen.len()) || self.edits_applied(
            pass,
        );
        if wrote && self.traces.len() > 0 {
            m.with_traces_run(pass.after, pass.frame, false)
        } else {
            m
        }
    }

    /// Whether a sample is due: edits are shown right away, freeze restores are not a reason to
    /// sample more often.
    pub open spec fn sample_due(
        self,
        pass: Pass,
        running: bool,
        request_changed: bool,
        edits_arrived: bool,
        now: u64,
    ) -> bool {
        self.request.sampling && (request_changed || edits_arrived || self.edits_applied(pass) || (
        self.sees_new_frame(pass) && (!running || has_come(self.next_sample_at, now))))
    }

    /// After everything that does not need the shared state.
    #[verifier::opaque]
    pub open spec fn worked(
        self,
        pass: Pass,
        running: bool,
        request_changed: bool,
        edits_arrived: bool,
        now: u64,
    ) -> LocalModel {
        self.written(pass).ended(
            pass.after,
            pass.frame,
            pass.epoch,
            self.sample_due(pass, running, request_changed, edits_arrived, now),
            now,
        )
    }

    /// With the sample taken, if one is due, and what the pass saw remembered.
    #[verifier::opaque]
    pub open spec fn ended(
        self,
        image: memory::MemoryImage,
        frame: u64,
        epoch: u64,
        due: bool,
        now: u64,
    ) -> LocalModel {
        let sampled = if due {
            LocalModel {
                next_sample_at: Some(later(now, self.request.interval_micros)),
                ..self.with_sample(image, frame, epoch)
            }
        } else {
            self
        };
        LocalModel { initialized: true, last_frame: frame, last_epoch: epoch, ..sampled }
    }

    /// Whether the pass is one this monitor can have made, the core being these in the course of it:
    /// every freeze has its turn if freezes are applied and none has otherwise, every edit has its
    /// turn, and nothing else happens to the core.
    #[verifier::opaque]
    pub open spec fn fits<C: MonitoredCore>(
        self,
        pass: Pass,
        cores: Cores<C>,
        request_changed: bool,
    ) -> bool {
        let freezes = self.request.freezes;
        &&& pass_sees(pass, cores.seen())
        &&& pass.frozen.len() == (if self.applies_freezes(pass, request_changed) {
            freezes.len()
        } else {
            0
        })
        &&& local::freeze_turns_fit(freezes, pass.frozen, cores.freezing)
        &&& cores.editing[0] == cores.freezing.last()
        &&& pass.edited.len() == self.pending_edits.len()
        &&& local::edit_turns_fit(
            self.pending_edits,
            pass.edited,
            cores.editing,
            pass.playing_back,
        )
        &&& pass.after == cores.end().image()
    }

    /// Whether events are handed over: at most once per sample interval and only with a new frame,
    /// unless something the user did is waiting for an answer.
    pub open spec fn flushes(self, new_frame: bool, now: u64) -> bool {
        (self.events.len() > 0 || self.events_dropped != 0) && (self.flush_events_now || (new_frame
            && has_come(self.events_flush_at, now)))
    }

    /// After publishing the sample, handing over the events and taking the snapshot, as far as each
    /// was called for.
    #[verifier::opaque]
    pub open spec fn published(self, shared_half: shared::SharedModel, new_frame: bool, now: u64) -> LocalModel {
        let m = if self.sample_unpublished {
            LocalModel { sample: shared_half.sample, sample_unpublished: false, ..self }
        } else {
            self
        };
        if self.flushes(new_frame, now) {
            LocalModel {
                events: Seq::empty(),
                events_dropped: 0,
                events_flush_at: if self.flush_events_now {
                    self.events_flush_at
                } else {
                    Some(later(now, self.request.interval_micros))
                },
                flush_events_now: false,
                ..m
            }
        } else {
            m
        }
    }
}

/// How many events are left out of a ring that `more` are added to.
pub open spec fn left_out(ring: Seq<shared::EventModel>, more: Seq<shared::EventModel>) -> nat {
    if ring.len() + more.len() > shared::EVENT_RING_CAPACITY {
        (ring.len() + more.len() - shared::EVENT_RING_CAPACITY) as nat
    } else {
        0
    }
}

impl shared::SharedModel {
    /// After the core thread's half published what it had.
    #[verifier::opaque]
    pub open spec fn published_from(
        self,
        m: LocalModel,
        image: memory::MemoryImage,
        new_frame: bool,
        now: u64,
    ) -> shared::SharedModel {
        let sampled = if m.sample_unpublished {
            shared::SharedModel {
                sample: m.sample,
                sample_generation: m.sample.generation,
                ..self
            }
        } else {
            self
        };
        let flushed = if m.flushes(new_frame, now) {
            shared::SharedModel {
                events: shared::ring_after(self.events, m.events),
                dropped: shared::capped_sum(
                    shared::capped_sum(self.dropped, left_out(self.events, m.events)),
                    m.events_dropped as nat,
                ),
                events_generation: self.events_generation.wrapping_add(1),
                ..sampled
            }
        } else {
            sampled
        };
        shared::SharedModel {
            snapshot_requested: if self.snapshots_wanted && fits(image.regions) {
                0
            } else {
                self.snapshot_requested
            },
            ..flushed
        }
    }
}

// ---------------------------------------------------------------------------------------------
// Snapshots.

/// The bytes of region `index` in a snapshot: what there is of it, zeros up to its length.
pub open spec fn region_copy(image: memory::MemoryImage, index: int) -> Seq<u8> {
    let mapped = region_mapped(image, index);
    mapped + local::zeros((image.regions[index].len - mapped.len()) as nat)
}

/// What there is of region `index`.
pub open spec fn region_mapped(image: memory::MemoryImage, index: int) -> Seq<u8> {
    match image.region_data(index) {
        Some(data) => if data.len() <= image.regions[index].len {
            data
        } else {
            data.take(image.regions[index].len as int)
        },
        None => Seq::empty(),
    }
}

/// The lengths of the first `n` regions added up.
pub open spec fn regions_len(regions: Seq<MemoryRegionInfo>, n: nat) -> int
    decreases n,
{
    if n == 0 {
        0
    } else {
        regions_len(regions, (n - 1) as nat) + regions[n - 1].len
    }
}

/// Whether one buffer can hold all of the regions.
pub open spec fn fits(regions: Seq<MemoryRegionInfo>) -> bool {
    regions_len(regions, regions.len()) <= usize::MAX
}

/// Whether one buffer can hold all of the regions.
fn fit_in_memory(regions: &[MemoryRegionInfo]) -> (r: bool)
    ensures
        r == fits(regions@),
{
    let mut total: usize = 0;
    let mut i: usize = 0;
    while i < regions.len()
        invariant
            i <= regions@.len(),
            total == regions_len(regions@, i as nat),
        decreases regions@.len() - i,
    {
        let len: usize = regions[i].len as usize;
        proof {
            lemma_regions_len_grows(regions@, (i + 1) as nat, regions@.len());
        }
        if len > usize::MAX - total {
            return false;
        }
        total = total + len;
        i = i + 1;
    }
    true
}

/// The bytes of the first `n` regions, one after the other.
pub open spec fn regions_copy(image: memory::MemoryImage, n: nat) -> Seq<u8>
    decreases n,
{
    if n == 0 {
        Seq::empty()
    } else {
        regions_copy(image, (n - 1) as nat) + region_copy(image, n - 1)
    }
}

/// Whether `snapshot` holds all of memory `image`.
pub open spec fn snapshot_shows(
    snapshot: FullSnapshot,
    image: memory::MemoryImage,
    job_id: u64,
    frame: u64,
    epoch: u64,
) -> bool {
    &&& snapshot.job_id == job_id
    &&& snapshot.frame == frame
    &&& snapshot.state_epoch == epoch
    &&& snapshot.bytes@ == regions_copy(image, image.regions.len())
    &&& snapshot.regions@.len() == image.regions.len()
    &&& forall|i: int|
        0 <= i < image.regions.len() ==> {
            let r = #[trigger] snapshot.regions@[i];
            &&& r.info == image.regions[i]
            &&& r.offset == regions_len(image.regions, i as nat)
            &&& r.available == region_mapped(image, i).len()
        }
}

proof fn lemma_regions_len_grows(regions: Seq<MemoryRegionInfo>, i: nat, j: nat)
    requires
        i <= j <= regions.len(),
    ensures
        0 <= regions_len(regions, i) <= regions_len(regions, j),
    decreases j,
{
    if i < j {
        lemma_regions_len_grows(regions, i, (j - 1) as nat);
    } else if i > 0 {
        lemma_regions_len_grows(regions, (i - 1) as nat, (i - 1) as nat);
    }
}

/// A region of a full snapshot is where its layout says: its bytes start at the summed lengths of
/// the regions before it.
pub proof fn law_snapshot_layout(image: memory::MemoryImage, index: nat, n: nat)
    requires
        index < n <= image.regions.len(),
    ensures
        ({
            let start = regions_len(image.regions, index);
            let end = start + image.regions[index as int].len;
            &&& 0 <= start <= end <= regions_copy(image, n).len()
            &&& regions_copy(image, n).subrange(start, end) == region_copy(image, index as int)
        }),
    decreases n,
{
    lemma_copied_len(image, (n - 1) as nat);
    lemma_copied_len(image, index);
    let before = regions_copy(image, (n - 1) as nat);
    let start = regions_len(image.regions, index);
    let end = start + image.regions[index as int].len;
    if index + 1 < n {
        law_snapshot_layout(image, index, (n - 1) as nat);
        assert(regions_copy(image, n).subrange(start, end) =~= before.subrange(start, end));
    } else {
        assert(regions_copy(image, n).subrange(start, end) =~= region_copy(image, index as int));
    }
}

proof fn lemma_copied_len(image: memory::MemoryImage, n: nat)
    requires
        n <= image.regions.len(),
    ensures
        regions_copy(image, n).len() == regions_len(image.regions, n),
        regions_len(image.regions, n) >= 0,
    decreases n,
{
    if n > 0 {
        lemma_copied_len(image, (n - 1) as nat);
    }
}

// ---------------------------------------------------------------------------------------------
// Laws.

/// A sample gives back what memory held: each probe's bytes if its path led to mapped memory,
/// nothing otherwise.
pub proof fn law_sample_shows_memory(
    m: LocalModel,
    image: memory::MemoryImage,
    frame: u64,
    epoch: u64,
    index: int,
)
    requires
        m.wf(),
        0 <= index < m.request.probes.len(),
    ensures
        m.sample_of(image, frame, epoch).probe(index) == local::probed(
            image,
            m.request.probes[index],
        ),
{
    reveal(LocalModel::sample_of);
    reveal(request::RequestModel::within_limits);
    let probes = m.request.probes;
    let sample = m.sample_of(image, frame, epoch);
    lemma_probes_len(image, probes, probes.len());
    lemma_probes_len(image, probes, index as nat);
    lemma_probes_len(image, probes, (index + 1) as nat);
    lemma_probes_prefix(image, probes, (index + 1) as nat, probes.len());
    if local::probed(image, probes[index]) is Some {
        let start = local::probes_bytes(image, probes, index as nat).len() as int;
        let end = local::probes_bytes(image, probes, (index + 1) as nat).len() as int;
        let all = local::probes_bytes(image, probes, probes.len());
        let upto = local::probes_bytes(image, probes, (index + 1) as nat);
        assert(all.take(end) == upto);
        assert(upto.subrange(start, end) =~= local::probe_bytes(image, probes[index]));
        assert(all.subrange(start, end) =~= upto.subrange(start, end)) by {
            assert(all.take(end).subrange(start, end) =~= all.subrange(start, end));
        }
        assert(sample.probe(index) == Some(all.subrange(start, end)));
    }
}

proof fn lemma_probes_len(image: memory::MemoryImage, probes: Seq<Probe>, n: nat)
    requires
        n <= probes.len(),
        forall|i: int| 0 <= i < probes.len() ==> (#[trigger] probes[i]).len <= values::MAX_VALUE_LEN,
    ensures
        local::probes_bytes(image, probes, n).len() <= n * values::MAX_VALUE_LEN,
    decreases n,
{
    if n > 0 {
        lemma_probes_len(image, probes, (n - 1) as nat);
        let probe = probes[n - 1];
        lemma_mapped_len(image, probe);
    }
}

proof fn lemma_mapped_len(image: memory::MemoryImage, probe: Probe)
    ensures
        local::probe_bytes(image, probe).len() == probe.len,
{
    if let Some(address) = values::resolved(image, probe.path.base, probe.path.offsets()) {
        memory::lemma_located(image.regions, 0, address, probe.len as int);
    }
}

proof fn lemma_probes_prefix(image: memory::MemoryImage, probes: Seq<Probe>, i: nat, n: nat)
    requires
        i <= n <= probes.len(),
    ensures
        local::probes_bytes(image, probes, i).len() <= local::probes_bytes(image, probes, n).len(),
        local::probes_bytes(image, probes, n).take(
            local::probes_bytes(image, probes, i).len() as int,
        ) == local::probes_bytes(image, probes, i),
    decreases n,
{
    let part = local::probes_bytes(image, probes, i);
    if i < n {
        lemma_probes_prefix(image, probes, i, (n - 1) as nat);
        let before = local::probes_bytes(image, probes, (n - 1) as nat);
        assert(local::probes_bytes(image, probes, n).take(part.len() as int) =~= before.take(
            part.len() as int,
        ));
    } else {
        assert(part.take(part.len() as int) =~= part);
    }
}

/// What was just looked at is no change: comparing traces with the memory their baselines were
/// taken from reports nothing.
pub proof fn law_baselines_are_no_change(
    run: local::TraceRun,
    traces: Seq<TraceState>,
    n: nat,
    image: memory::MemoryImage,
    frame: u64,
)
    requires
        n <= traces.len(),
    ensures
        local::traces_compared(run, local::traces_moved(traces, image), n, image, frame) == run,
    decreases n,
{
    if n > 0 {
        law_baselines_are_no_change(run, traces, (n - 1) as nat, image, frame);
    }
}

/// After memory was replaced wholesale, traces report the discontinuity and nothing else, and
/// never pause.
pub proof fn law_jumps_report_no_changes(m: LocalModel, pass: Pass)
    requires
        m.jumped(pass),
        m.traces.len() > 0,
    ensures
        m.traced(pass).events == m.events.push(
            shared::EventModel::Discontinuity { frame: pass.frame },
        ),
        !m.pauses(pass),
{
    reveal(LocalModel::looked);
    reveal(LocalModel::with_traces_run);
    reveal(LocalModel::trace_run);
}

/// An edit that is refused is answered with the reason and written nowhere: the core stays as it is.
pub proof fn law_refused_edits<C: MonitoredCore>(
    edits: Seq<shared::EditModel>,
    turns: Seq<local::EditTurn>,
    cores: Seq<C>,
    n: nat,
    frame: u64,
    playing_back: bool,
)
    requires
        n <= turns.len() == edits.len(),
        local::edit_turns_fit(edits, turns, cores, playing_back),
        forall|i: int|
            0 <= i < n ==> local::edit_plan((#[trigger] turns[i]).image, edits[i], playing_back) is Err,
    ensures
        cores[n as int] == cores[0],
        forall|i: int|
            0 <= i < n ==> local::edit_event(#[trigger] turns[i], edits[i], frame, playing_back) == (
            shared::EventModel::WriteFailed {
                edit_id: edits[i].edit_id,
                reason: local::edit_plan(turns[i].image, edits[i], playing_back)->Err_0,
            }),
    decreases n,
{
    if n > 0 {
        law_refused_edits(edits, turns, cores, (n - 1) as nat, frame, playing_back);
        reveal(local::edit_turns_fit);
        assert(local::edit_turn_fits(
            edits[n - 1],
            turns[n - 1],
            cores[n - 1],
            cores[n - 1 + 1],
            playing_back,
        ));
    }
}

// ---------------------------------------------------------------------------------------------

impl MemoryMonitorLocal {
    /// Put every frozen value back that the game changed. Returns whether anything was written.
    pub fn apply_freezes<C: MonitoredCore>(&mut self, core: &mut C) -> (r: bool)
        requires
            old(self)@.wf(),
            old(core).valid(),
        ensures
            final(self)@.wf(),
            final(core).valid(),
            exists|turns: Seq<local::FreezeTurn>, cores: Seq<C>|
                {
                    &&& turns.len() == old(self)@.request.freezes.len()
                    &&& #[trigger] local::freeze_turns_fit(
                        old(self)@.request.freezes,
                        turns,
                        cores,
                    )
                    &&& cores[0] == *old(core)
                    &&& cores.last() == *final(core)
                    &&& final(self)@ == old(self)@.with_freezes(turns)
                    &&& r == local::any_freeze_wrote(turns, turns.len())
                },
    {
        let ghost before = self@;
        let ghost freezes = before.request.freezes;
        let ghost start = *core;
        let ghost mut turns: Seq<local::FreezeTurn> = Seq::empty();
        let ghost mut cores: Seq<C> = seq![*core];
        let mut wrote: bool = false;
        let n: usize = self.request.freezes.len();
        let mut index: usize = 0;
        proof {
            reveal(local::freeze_turns_fit);
            reveal(LocalModel::with_freezes);
            assert(before.with_freezes(turns) =~= before);
        }
        while index < n
            invariant
                index <= n == freezes.len() == turns.len() + (n - index),
                before.wf(),
                freezes == before.request.freezes,
                self@ == before.with_freezes(turns),
                core.valid(),
                local::freeze_turns_fit(freezes, turns, cores),
                cores.len() == turns.len() + 1,
                cores[0] == start,
                cores.last() == *core,
                wrote == local::any_freeze_wrote(turns, turns.len()),
            decreases n - index,
        {
            proof {
                reveal(LocalModel::with_freezes);
            }
            let freeze: FreezeSpec = self.request.freezes[index];
            let ghost image = core.image();
            let ghost done = turns;
            let ghost passed = cores;
            let target: Option<u32> = writable_target(
                core.emulator(),
                freeze.path.resolve(core.emulator()),
                freeze.len(),
            );
            let mut restored: bool = false;
            self.freeze_ok[index] = target.is_some();
            if let Some(address) = target {
                restored = core.write_if_changed(address, freeze.bytes());
                if restored {
                    let (id, count): (u32, u32) = self.freeze_restores[index];
                    self.freeze_restores[index] = (id, count.saturating_add(1));
                    wrote = true;
                }
            }
            proof {
                reveal(local::freeze_turns_fit);
                let turn = local::FreezeTurn { image, wrote: restored, after: core.image() };
                turns = turns.push(turn);
                cores = cores.push(*core);
                assert(turns[index as int] == turn);
                assert(self@ =~= before.with_freezes(turns));
                assert forall|i: int| 0 <= i < turns.len() implies local::freeze_turn_fits(
                    freezes[i],
                    #[trigger] turns[i],
                    cores[i],
                    cores[i + 1],
                ) by {
                    if i < done.len() {
                        assert(local::freeze_turn_fits(
                            freezes[i],
                            done[i],
                            passed[i],
                            passed[i + 1],
                        ));
                    }
                }
                if wrote {
                    if restored {
                        assert(turns[index as int].wrote);
                    } else {
                        let k = choose|k: int| 0 <= k < done.len() && (#[trigger] done[k]).wrote;
                        assert(turns[k].wrote);
                    }
                } else {
                    assert forall|k: int| 0 <= k < turns.len() implies !(
                    #[trigger] turns[k]).wrote by {
                        if k < done.len() {
                            assert(!done[k].wrote);
                        }
                    }
                }
            }
            index = index + 1;
        }
        proof {
            lemma_freezes_keep_shape(before, turns);
        }
        wrote
    }
}

/// The freezes keep the shape.
proof fn lemma_freezes_keep_shape(m: LocalModel, turns: Seq<local::FreezeTurn>)
    ensures
        m.with_freezes(turns).shape() == m.shape(),
        m.with_freezes(turns).traces == m.traces,
{
    reveal(LocalModel::with_freezes);
}

/// The edits keep the shape, but none is pending afterwards.
proof fn lemma_edits_keep_shape(
    m: LocalModel,
    turns: Seq<local::EditTurn>,
    frame: u64,
    playing_back: bool,
)
    ensures
        m.with_edits(turns, frame, playing_back).shape() == (local::Shape {
            pending_edits: Seq::empty(),
            ..m.shape()
        }),
        m.with_edits(turns, frame, playing_back).traces == m.traces,
{
    reveal(LocalModel::with_edits);
}

/// `address`, if there is one and all `len` bytes there may be written.
fn writable_target<M: ConsoleMemory>(memory: &M, address: Option<u32>, len: usize) -> (r: Option<u32>)
    ensures
        r == (match address {
            Some(a) => match memory::located(memory.image().regions, a, len as int) {
                Some((region, _)) => if memory.image().regions[region as int].writable {
                    Some(a)
                } else {
                    None
                },
                None => None,
            },
            None => None,
        }),
{
    let a: u32 = address?;
    let regions: &[MemoryRegionInfo] = memory.memory_regions();
    match memory::locate_memory(regions, a, len) {
        Some((region, _)) => if regions[region].writable {
            Some(a)
        } else {
            None
        },
        None => None,
    }
}

/// What one pass over the core came to.
#[derive(Copy, Clone, Debug, PartialEq, Eq, Structural)]
pub struct Worked {
    /// Nothing was done: the core is in the middle of a running frame.
    pub skipped: bool,
    /// A trace's condition was met: pause emulation.
    pub pause: bool,
    /// The pass saw another frame than the last one did.
    pub new_frame: bool,
}

impl MemoryMonitorLocal {
    /// Service the monitor. Call it on the core thread on every loop iteration; it does nothing in
    /// the middle of a running frame and next to nothing when there is nothing new. `now` is the
    /// time in microseconds.
    pub fn service<C: MonitoredCore>(
        &mut self,
        core: &mut C,
        shared_half: &mut MemoryMonitorShared,
        running: bool,
        now: u64,
    ) -> (r: ServiceOutcome)
        requires
            old(self)@.wf(),
            old(shared_half).wf(),
            old(core).valid(),
        ensures
            final(core).valid(),
            final(self)@.wf(),
            final(shared_half).wf(),
            running && old(core).mid_frame() ==> {
                &&& !r.pause
                &&& final(self)@ == old(self)@
                &&& *final(shared_half) == *old(shared_half)
                &&& *final(core) == *old(core)
            },
            !(running && old(core).mid_frame()) ==> exists|pass: Pass, cores: Cores<C>|
                #[trigger] serviced(
                    pass,
                    cores,
                    old(self)@,
                    final(self)@,
                    *old(core),
                    *final(core),
                    *old(shared_half),
                    *final(shared_half),
                    running,
                    now,
                    r,
                ),
    {
        if running && core.is_mid_frame() {
            return ServiceOutcome { pause: false };
        }
        let request_changed: bool = self.pull_request(shared_half);
        let edits_arrived: bool = self.pull_edits(shared_half);
        let ghost pulled = self@;
        let worked: Worked = self.work(core, running, request_changed, edits_arrived, now);
        let ghost after_work = self@;
        let frame: u64 = self.last_frame;
        let epoch: u64 = self.last_epoch;
        self.publish(core.emulator(), shared_half, worked.new_frame, frame, epoch, now);
        let outcome = ServiceOutcome { pause: worked.pause };
        proof {
            let todo = Todo { running, request_changed, edits_arrived, now };
            let (pass, cores) = choose|pass: Pass, cores: Cores<C>|
                #[trigger] worked_on(
                    pass,
                    cores,
                    pulled,
                    after_work,
                    *old(core),
                    *core,
                    todo,
                    worked,
                );
            assert(worked_on(pass, cores, pulled, after_work, *old(core), *core, todo, worked));
            reveal(worked_on);
            reveal(LocalModel::pulled);
            reveal(LocalModel::with_request);
            reveal(shared::SharedModel::without_taken_edits);
            assert(after_work.last_frame == pass.frame && after_work.last_epoch == pass.epoch) by {
                reveal(LocalModel::worked);
                reveal(LocalModel::ended);
            }
            reveal(LocalModel::fits);
            assert(serviced(
                pass,
                cores,
                old(self)@,
                self@,
                *old(core),
                *core,
                *old(shared_half),
                *shared_half,
                running,
                now,
                outcome,
            ));
        }
        outcome
    }

    /// Everything a pass does that does not need the shared state: what is to be done when the UI
    /// side holds it. `request_changed` and `edits_arrived` say what was pulled just before.
    #[verifier::rlimit(40)]
    pub fn work<C: MonitoredCore>(
        &mut self,
        core: &mut C,
        running: bool,
        request_changed: bool,
        edits_arrived: bool,
        now: u64,
    ) -> (r: Worked)
        requires
            old(self)@.wf(),
            old(core).valid(),
        ensures
            final(self)@.wf(),
            final(core).valid(),
            r.skipped == (running && old(core).mid_frame()),
            r.skipped ==> {
                &&& !r.pause
                &&& !r.new_frame
                &&& final(self)@ == old(self)@
                &&& *final(core) == *old(core)
            },
            !r.skipped ==> exists|pass: Pass, cores: Cores<C>|
                #[trigger] worked_on(
                    pass,
                    cores,
                    old(self)@,
                    final(self)@,
                    *old(core),
                    *final(core),
                    Todo { running, request_changed, edits_arrived, now },
                    r,
                ),
    {
        if running && core.is_mid_frame() {
            return Worked { skipped: true, pause: false, new_frame: false };
        }
        let ghost before = self@;
        let ghost first = *core;
        self.finish_frame_to_write(core, request_changed);
        let ghost at = *core;
        let frame: u64 = core.frame();
        let epoch: u64 = core.state_epoch();
        let jumped: bool = self.initialized && epoch != self.last_epoch;
        let new_frame: bool = !self.initialized || frame != self.last_frame || jumped;
        let playing_back: bool = core.is_playing_back();

        // Observe what the game did, and whether that pauses.
        let mut pause: bool = false;
        if new_frame && self.traces.len() > 0 {
            pause = self.look(core.emulator(), frame, jumped);
        }
        let ghost traced = self@;

        // Freezes and edits.
        let freezing: bool = (new_frame || request_changed) && !playing_back
            && !self.request.freezes_suspended && self.request.freezes.len() > 0;
        let (wrote, edited): (bool, bool) = self.write_all(core, frame, freezing, playing_back);
        let ghost wrote_model = self@;

        // What was just written is the new baseline, not a change the game made.
        if (wrote || edited) && self.traces.len() > 0 {
            let _ = self.run_traces(core.emulator(), frame, false);
        }
        let ghost written = self@;
        proof {
            local::lemma_traces_keep_shape(wrote_model, core.image(), frame, false);
            assert(written.shape() == wrote_model.shape());
        }

        // Sample.
        let come: bool = match self.next_sample_at {
            Some(at) => now >= at,
            None => true,
        };
        let due: bool = self.request.sampling && (request_changed || edits_arrived || edited || (
        new_frame && (!running || come)));
        self.end_pass(core.emulator(), frame, epoch, due, now);
        let r = Worked { skipped: false, pause, new_frame };
        proof {
            let (seen, cores) = choose|seen: Pass, cores: Cores<C>|
                #[trigger] wrote_all(
                    seen,
                    cores,
                    traced,
                    wrote_model,
                    at,
                    *core,
                    freezing,
                    wrote,
                    edited,
                ) && seen.frame == frame && seen.playing_back == playing_back;
            let pass = Pass { epoch, image: at.image(), ..seen };
            let todo = Todo { running, request_changed, edits_arrived, now };
            assert(wrote_all(
                seen,
                cores,
                traced,
                wrote_model,
                at,
                *core,
                freezing,
                wrote,
                edited,
            ));
            assert(traced == before.traced(pass));
            assert(pause == before.pauses(pass));
            assert(freezing == traced.applies_freezes_in(
                new_frame || request_changed,
                playing_back,
            ));
            assert(self@ == written.ended(core.image(), frame, epoch, due, now));
            lemma_worked_on(
                seen,
                pass,
                cores,
                before,
                traced,
                wrote_model,
                written,
                self@,
                first,
                at,
                *core,
                todo,
                freezing,
                wrote,
                edited,
                due,
                r,
            );
            assert(worked_on(
                pass,
                cores,
                old(self)@,
                self@,
                *old(core),
                *core,
                Todo { running, request_changed, edits_arrived, now },
                r,
            ));
            assert(self@.wf());
            assert(!r.skipped);
            assert(r.skipped == (running && old(core).mid_frame()));
        }
        r
    }

    /// Finish the frame a paused core sits in the middle of, if something waits to be written: a
    /// paused Game Boy can stop there, and writes belong between frames.
    fn finish_frame_to_write<C: MonitoredCore>(&self, core: &mut C, request_changed: bool)
        requires
            old(core).valid(),
        ensures
            final(core).valid(),
            self@.finishes_frame(*old(core), request_changed) ==> old(core).finished(&*final(core)),
            !self@.finishes_frame(*old(core), request_changed) ==> *final(core) == *old(core),
    {
        let wants_write: bool = self.pending_edits.len() > 0 || (request_changed
            && self.request.freezes.len() > 0);
        if wants_write && core.is_mid_frame() && !core.is_playing_back() {
            core.finish_current_frame();
        }
    }

    /// Take the sample, if one is due, and remember what the pass saw.
    fn end_pass<M: ConsoleMemory>(
        &mut self,
        memory: &M,
        frame: u64,
        epoch: u64,
        due: bool,
        now: u64,
    )
        requires
            old(self)@.wf(),
        ensures
            final(self)@.wf(),
            final(self)@ == old(self)@.ended(memory.image(), frame, epoch, due, now),
    {
        if due {
            self.fill_sample(memory, frame, epoch);
            self.next_sample_at = Some(now.saturating_add(self.request.interval_micros));
        }
        self.initialized = true;
        self.last_frame = frame;
        self.last_epoch = epoch;
        proof {
            reveal(LocalModel::ended);
            reveal(LocalModel::with_sample);
            reveal(LocalModel::sample_of);
        }
    }

    /// Let the traces look at memory, which was replaced wholesale if `jumped`. Returns whether a
    /// condition asks for a pause.
    fn look<M: ConsoleMemory>(&mut self, memory: &M, frame: u64, jumped: bool) -> (r: bool)
        requires
            old(self)@.wf(),
        ensures
            final(self)@.wf(),
            final(self)@ == old(self)@.looked(memory.image(), frame, jumped),
            final(self)@.shape() == old(self)@.shape(),
            r == (!jumped && old(self)@.trace_run(memory.image(), frame, true).pause),
    {
        let ghost before = self@;
        if jumped {
            self.push_event(MonitorEvent::Discontinuity { frame });
        }
        let ghost told = self@;
        let pause: bool = self.run_traces(memory, frame, !jumped);
        proof {
            reveal(LocalModel::looked);
            reveal(LocalModel::trace_run);
            local::lemma_traces_keep_shape(told, memory.image(), frame, !jumped);
            assert(told.shape() == before.shape());
        }
        pause
    }

    /// Apply the freezes, if `freezing`, and the pending edits. Returns whether a freeze and
    /// whether an edit was applied.
    fn write_all<C: MonitoredCore>(
        &mut self,
        core: &mut C,
        frame: u64,
        freezing: bool,
        playing_back: bool,
    ) -> (r: (bool, bool))
        requires
            old(self)@.wf(),
            old(core).valid(),
        ensures
            final(self)@.wf(),
            final(core).valid(),
            exists|pass: Pass, cores: Cores<C>|
                #[trigger] wrote_all(
                    pass,
                    cores,
                    old(self)@,
                    final(self)@,
                    *old(core),
                    *final(core),
                    freezing,
                    r.0,
                    r.1,
                ) && pass.frame == frame && pass.playing_back == playing_back,
    {
        let ghost before = self@;
        let ghost first = *core;
        let ghost mut pass = Pass {
            frame,
            epoch: 0,
            playing_back,
            image: core.image(),
            frozen: Seq::empty(),
            edited: Seq::empty(),
            after: core.image(),
        };
        let ghost mut freezing_cores: Seq<C> = seq![*core];
        let mut wrote: bool = false;
        let mut edited: bool = false;
        assert(before.with_freezes(pass.frozen) =~= before) by {
            reveal(LocalModel::with_freezes);
        }
        if freezing {
            wrote = self.apply_freezes(core);
            proof {
                let (turns, cores) = choose|turns: Seq<local::FreezeTurn>, cores: Seq<C>|
                    {
                        &&& turns.len() == before.request.freezes.len()
                        &&& #[trigger] local::freeze_turns_fit(
                            before.request.freezes,
                            turns,
                            cores,
                        )
                        &&& cores[0] == first
                        &&& cores.last() == *core
                        &&& self@ == before.with_freezes(turns)
                        &&& wrote == local::any_freeze_wrote(turns, turns.len())
                    };
                pass = Pass { frozen: turns, after: core.image(), ..pass };
                freezing_cores = cores;
            }
        }
        let ghost frozen = self@;
        let ghost at = *core;
        let ghost mut editing_cores: Seq<C> = seq![*core];
        if self.pending_edits.len() > 0 {
            edited = self.apply_edits(core, frame, playing_back);
            proof {
                let (turns, cores) = choose|turns: Seq<local::EditTurn>, cores: Seq<C>|
                    {
                        &&& turns.len() == frozen.pending_edits.len()
                        &&& #[trigger] local::edit_turns_fit(
                            frozen.pending_edits,
                            turns,
                            cores,
                            playing_back,
                        )
                        &&& cores[0] == at
                        &&& cores.last() == *core
                        &&& self@ == frozen.with_edits(turns, frame, playing_back)
                        &&& edited == local::any_edit_applied(
                            frozen.pending_edits,
                            turns,
                            turns.len(),
                            playing_back,
                        )
                    };
                pass = Pass { edited: turns, after: core.image(), ..pass };
                editing_cores = cores;
            }
        } else {
            assert(frozen.with_edits(Seq::empty(), frame, playing_back) =~= frozen) by {
                reveal(LocalModel::with_edits);
            }
        }
        let r: (bool, bool) = (wrote, edited);
        proof {
            let cores = Cores { freezing: freezing_cores, editing: editing_cores };
            assert(local::freeze_turns_fit(before.request.freezes, Seq::empty(), seq![first])) by {
                reveal(local::freeze_turns_fit);
            }
            assert(local::edit_turns_fit(
                before.pending_edits,
                Seq::empty(),
                seq![at],
                playing_back,
            )) by {
                reveal(local::edit_turns_fit);
            }
            reveal(wrote_all);
            lemma_freezes_keep_shape(before, pass.frozen);
            lemma_edits_keep_shape(frozen, pass.edited, frame, playing_back);
            assert(wrote_all(pass, cores, before, self@, first, *core, freezing, r.0, r.1));
        }
        r
    }

    /// Hand over what the last pass left: the sample, the events, a snapshot.
    pub fn publish<M: ConsoleMemory>(
        &mut self,
        memory: &M,
        shared_half: &mut MemoryMonitorShared,
        new_frame: bool,
        frame: u64,
        epoch: u64,
        now: u64,
    )
        requires
            old(self)@.wf(),
            old(shared_half).wf(),
        ensures
            final(self)@.wf(),
            final(shared_half).wf(),
            final(self)@ == old(self)@.published(old(shared_half)@, new_frame, now),
            final(shared_half)@ == old(shared_half)@.published_from(
                old(self)@,
                memory.image(),
                new_frame,
                now,
            ),
            snapshot_taken(*old(shared_half), *final(shared_half), memory.image(), frame, epoch),
    {
        let ghost before = *shared_half;
        if self.sample_unpublished {
            self.try_publish_sample(shared_half);
        }
        if self.events.len() > 0 || self.events_dropped != 0 {
            self.try_flush_events(shared_half, new_frame, now);
        }
        let job: u64 = shared_half.snapshot_requested;
        if job != 0 {
            send_snapshot(memory, shared_half, job, frame, epoch);
        }
        proof {
            reveal(LocalModel::published);
            reveal(shared::SharedModel::published_from);
            assert(shared_half@ =~= before@.published_from(old(self)@, memory.image(), new_frame, now));
        }
    }

    /// Swap the sample into the shared state. The old one's buffers are filled next time.
    pub fn try_publish_sample(&mut self, shared_half: &mut MemoryMonitorShared)
        ensures
            final(self)@ == (LocalModel {
                sample: old(shared_half)@.sample,
                sample_unpublished: false,
                ..old(self)@
            }),
            final(shared_half)@ == (shared::SharedModel {
                sample: old(self)@.sample,
                sample_generation: old(self)@.sample.generation,
                ..old(shared_half)@
            }),
            final(shared_half).snapshots == old(shared_half).snapshots,
            final(shared_half).snapshot_pool == old(shared_half).snapshot_pool,
            old(shared_half).wf() ==> final(shared_half).wf(),
    {
        core::mem::swap(&mut shared_half.sample, &mut self.sample);
        shared_half.sample_generation = shared_half.sample.generation;
        self.sample_unpublished = false;
    }

    /// Hand the events over. Traces can produce an event every frame; they are handed over at most
    /// once per sample interval unless something the user did is waiting for an answer.
    pub fn try_flush_events(
        &mut self,
        shared_half: &mut MemoryMonitorShared,
        new_frame: bool,
        now: u64,
    )
        requires
            old(shared_half).wf(),
            old(self)@.events.len() > 0 || old(self)@.events_dropped != 0,
        ensures
            final(shared_half).wf(),
            final(shared_half).snapshots == old(shared_half).snapshots,
            final(shared_half).snapshot_pool == old(shared_half).snapshot_pool,
            ({
                let m = old(self)@;
                let half = old(shared_half)@;
                if m.flushes(new_frame, now) {
                    &&& final(self)@ == (LocalModel {
                        events: Seq::empty(),
                        events_dropped: 0,
                        events_flush_at: if m.flush_events_now {
                            m.events_flush_at
                        } else {
                            Some(later(now, m.request.interval_micros))
                        },
                        flush_events_now: false,
                        ..m
                    })
                    &&& final(shared_half)@ == (shared::SharedModel {
                        events: shared::ring_after(half.events, m.events),
                        dropped: shared::capped_sum(
                            shared::capped_sum(half.dropped, left_out(half.events, m.events)),
                            m.events_dropped as nat,
                        ),
                        events_generation: half.events_generation.wrapping_add(1),
                        ..half
                    })
                } else {
                    final(self)@ == m && *final(shared_half) == *old(shared_half)
                }
            }),
    {
        if !self.flush_events_now {
            let come: bool = match self.events_flush_at {
                Some(at) => now >= at,
                None => true,
            };
            if !new_frame || !come {
                return;
            }
            self.events_flush_at = Some(now.saturating_add(self.request.interval_micros));
        }
        let ghost half = shared_half@;
        let ghost models = self@.events;
        let mut events: Vec<MonitorEvent> = Vec::new();
        core::mem::swap(&mut events, &mut self.events);
        push_all(&mut shared_half.events, events);
        shared_half.events.dropped = shared_half.events.dropped.saturating_add(
            self.events_dropped,
        );
        self.events_dropped = 0;
        shared_half.events_generation = shared_half.events_generation.wrapping_add(1);
        self.flush_events_now = false;
        proof {
            assert(self@.events =~= Seq::empty());
            assert(shared_half@.events == shared::ring_after(half.events, models));
        }
    }
}

impl LocalModel {
    /// After pulling what the shared state has.
    #[verifier::opaque]
    pub open spec fn pulled(self, half: shared::SharedModel) -> LocalModel {
        let m = if half.request_generation != self.seen_request_generation {
            self.with_request(half.request, half.request_generation)
        } else {
            self
        };
        if half.edits_generation != self.seen_edits_generation {
            LocalModel {
                pending_edits: self.pending_edits + half.edits,
                seen_edits_generation: half.edits_generation,
                ..m
            }
        } else {
            m
        }
    }

    /// Whether the current frame is finished first: something waits to be written, and a paused
    /// core sits in the middle of a frame.
    pub open spec fn finishes_frame<C: MonitoredCore>(self, core: C, request_changed: bool) -> bool {
        self.wants_write(request_changed) && core.mid_frame() && !core.playing_back()
    }

    /// Whether a pass over `core` can start from `at`: with the current frame finished if it is
    /// finished first, and as it is otherwise.
    pub open spec fn starts_from<C: MonitoredCore>(
        self,
        core: C,
        at: C,
        request_changed: bool,
    ) -> bool {
        if self.finishes_frame(core, request_changed) {
            core.finished(&at)
        } else {
            at == core
        }
    }
}

impl shared::SharedModel {
    /// Without the edits that `m` pulls.
    #[verifier::opaque]
    pub open spec fn without_taken_edits(self, m: LocalModel) -> shared::SharedModel {
        if self.edits_generation != m.seen_edits_generation {
            shared::SharedModel { edits: Seq::empty(), ..self }
        } else {
            self
        }
    }
}

/// Whether the pass saw the core as it is.
pub open spec fn pass_sees<C: MonitoredCore>(pass: Pass, core: C) -> bool {
    &&& pass.frame == core.frame_count()
    &&& pass.epoch == core.epoch()
    &&& pass.playing_back == core.playing_back()
    &&& pass.image == core.image()
}

/// Whether the freezes, if `freezing`, and the pending edits had the turns the pass says.
#[verifier::opaque]
pub open spec fn wrote_all<C: MonitoredCore>(
    pass: Pass,
    cores: Cores<C>,
    before: LocalModel,
    after: LocalModel,
    core_before: C,
    core_after: C,
    freezing: bool,
    wrote: bool,
    edited: bool,
) -> bool {
    let freezes = before.request.freezes;
    let edits = before.pending_edits;
    &&& pass.frozen.len() == (if freezing {
        freezes.len()
    } else {
        0
    })
    &&& local::freeze_turns_fit(freezes, pass.frozen, cores.freezing)
    &&& cores.seen() == core_before
    &&& cores.editing[0] == cores.freezing.last()
    &&& pass.edited.len() == edits.len()
    &&& local::edit_turns_fit(edits, pass.edited, cores.editing, pass.playing_back)
    &&& cores.end() == core_after
    &&& core_after.image() == pass.after
    &&& wrote == local::any_freeze_wrote(pass.frozen, pass.frozen.len())
    &&& edited == local::any_edit_applied(
        edits,
        pass.edited,
        pass.edited.len(),
        pass.playing_back,
    )
    &&& after == before.with_freezes(pass.frozen).with_edits(
        pass.edited,
        pass.frame,
        pass.playing_back,
    )
}

/// What the freezes and the edits leave alone.
proof fn lemma_kept(m: LocalModel, pass: Pass)
    ensures
        ({
            let after = m.with_freezes(pass.frozen).with_edits(
                pass.edited,
                pass.frame,
                pass.playing_back,
            );
            after.shape() == (local::Shape { pending_edits: Seq::empty(), ..m.shape() })
        }),
{
    lemma_freezes_keep_shape(m, pass.frozen);
    lemma_edits_keep_shape(
        m.with_freezes(pass.frozen),
        pass.edited,
        pass.frame,
        pass.playing_back,
    );
}

/// What the traces leave alone.
proof fn lemma_traced_kept(m: LocalModel, pass: Pass)
    ensures
        m.traced(pass).shape() == m.shape(),
{
    reveal(LocalModel::looked);
    let jumped = m.jumped(pass);
    let told = if jumped {
        LocalModel {
            events: m.events.push(shared::EventModel::Discontinuity { frame: pass.frame }),
            ..m
        }
    } else {
        m
    };
    local::lemma_traces_keep_shape(told, pass.image, pass.frame, !jumped);
}

proof fn lemma_wrote_all<C: MonitoredCore>(
    seen: Pass,
    pass: Pass,
    cores: Cores<C>,
    traced: LocalModel,
    wrote_model: LocalModel,
    at: C,
    core: C,
    freezing: bool,
    wrote: bool,
    edited: bool,
)
    requires
        wrote_all(seen, cores, traced, wrote_model, at, core, freezing, wrote, edited),
        pass == (Pass { epoch: pass.epoch, image: at.image(), ..seen }),
    ensures
        pass.frozen.len() == (if freezing {
            traced.request.freezes.len()
        } else {
            0
        }),
        local::freeze_turns_fit(traced.request.freezes, pass.frozen, cores.freezing),
        cores.seen() == at,
        cores.editing[0] == cores.freezing.last(),
        pass.edited.len() == traced.pending_edits.len(),
        local::edit_turns_fit(
            traced.pending_edits,
            pass.edited,
            cores.editing,
            pass.playing_back,
        ),
        cores.end() == core,
        core.image() == pass.after,
        wrote == local::any_freeze_wrote(pass.frozen, pass.frozen.len()),
        edited == local::any_edit_applied(
            traced.pending_edits,
            pass.edited,
            pass.edited.len(),
            pass.playing_back,
        ),
        wrote_model == traced.with_freezes(pass.frozen).with_edits(
            pass.edited,
            pass.frame,
            pass.playing_back,
        ),
{
    reveal(wrote_all);
}

proof fn lemma_written(
    before: LocalModel,
    traced: LocalModel,
    wrote_model: LocalModel,
    written: LocalModel,
    pass: Pass,
    wrote: bool,
    edited: bool,
)
    requires
        traced == before.traced(pass),
        wrote_model == traced.with_freezes(pass.frozen).with_edits(
            pass.edited,
            pass.frame,
            pass.playing_back,
        ),
        wrote == local::any_freeze_wrote(pass.frozen, pass.frozen.len()),
        edited == before.edits_applied(pass),
        written == (if (wrote || edited) && wrote_model.traces.len() > 0 {
            wrote_model.with_traces_run(pass.after, pass.frame, false)
        } else {
            wrote_model
        }),
    ensures
        written == before.written(pass),
{
    reveal(LocalModel::written);
    lemma_traced_kept(before, pass);
    lemma_kept(traced, pass);
    assert(wrote_model.traces.len() == wrote_model.shape().traces);
    assert(traced.traces.len() == traced.shape().traces);
    assert(before.traces.len() == before.shape().traces);
}

proof fn lemma_due(
    before: LocalModel,
    written: LocalModel,
    pass: Pass,
    edited: bool,
    todo: Todo,
)
    requires
        written == before.written(pass),
        edited == before.edits_applied(pass),
    ensures
        written.request == before.request,
        written.next_sample_at == before.next_sample_at,
        before.sample_due(
            pass,
            todo.running,
            todo.request_changed,
            todo.edits_arrived,
            todo.now,
        ) == (written.request.sampling && (todo.request_changed || todo.edits_arrived || edited || (
        before.sees_new_frame(pass) && (!todo.running || has_come(
            written.next_sample_at,
            todo.now,
        ))))),
{
    reveal(LocalModel::written);
    lemma_traced_kept(before, pass);
    let traced = before.traced(pass);
    lemma_kept(traced, pass);
    let m = traced.with_freezes(pass.frozen).with_edits(
        pass.edited,
        pass.frame,
        pass.playing_back,
    );
    local::lemma_traces_keep_shape(m, pass.after, pass.frame, false);
    assert(written.shape().request == before.shape().request);
    assert(written.shape().next_sample_at == before.shape().next_sample_at);
}

/// What a pass starts with.
pub ghost struct Todo {
    pub running: bool,
    pub request_changed: bool,
    pub edits_arrived: bool,
    pub now: u64,
}

/// Whether the monitor, in state `before`, made this pass over the core.
#[verifier::opaque]
pub open spec fn worked_on<C: MonitoredCore>(
    pass: Pass,
    cores: Cores<C>,
    before: LocalModel,
    after: LocalModel,
    core_before: C,
    core_after: C,
    todo: Todo,
    r: Worked,
) -> bool {
    &&& before.starts_from(core_before, cores.seen(), todo.request_changed)
    &&& before.fits(pass, cores, todo.request_changed)
    &&& core_after == cores.end()
    &&& r.pause == before.pauses(pass)
    &&& r.new_frame == before.sees_new_frame(pass)
    &&& after == before.worked(
        pass,
        todo.running,
        todo.request_changed,
        todo.edits_arrived,
        todo.now,
    )
}

/// The steps of a pass add up to one.
proof fn lemma_worked_on<C: MonitoredCore>(
    seen: Pass,
    pass: Pass,
    cores: Cores<C>,
    before: LocalModel,
    traced: LocalModel,
    wrote_model: LocalModel,
    written: LocalModel,
    after: LocalModel,
    first: C,
    at: C,
    core: C,
    todo: Todo,
    freezing: bool,
    wrote: bool,
    edited: bool,
    due: bool,
    r: Worked,
)
    requires
        pass == (Pass { epoch: at.epoch(), image: at.image(), ..seen }),
        pass.frame == at.frame_count(),
        pass.playing_back == at.playing_back(),
        before.starts_from(first, at, todo.request_changed),
        traced == before.traced(pass),
        r.pause == before.pauses(pass),
        r.new_frame == before.sees_new_frame(pass),
        freezing == traced.applies_freezes_in(
            r.new_frame || todo.request_changed,
            pass.playing_back,
        ),
        wrote_all(seen, cores, traced, wrote_model, at, core, freezing, wrote, edited),
        written == (if (wrote || edited) && wrote_model.traces.len() > 0 {
            wrote_model.with_traces_run(core.image(), pass.frame, false)
        } else {
            wrote_model
        }),
        due == (written.request.sampling && (todo.request_changed || todo.edits_arrived || edited
            || (r.new_frame && (!todo.running || has_come(written.next_sample_at, todo.now))))),
        after == written.ended(core.image(), pass.frame, pass.epoch, due, todo.now),
    ensures
        worked_on(pass, cores, before, after, first, core, todo, r),
{
    lemma_wrote_all(seen, pass, cores, traced, wrote_model, at, core, freezing, wrote, edited);
    lemma_traced_kept(before, pass);
    assert(traced.shape().pending_edits == before.shape().pending_edits);
    assert(traced.shape().request == before.shape().request);
    lemma_kept(traced, pass);
    assert(wrote_model.shape().traces == traced.shape().traces);
    lemma_written(before, traced, wrote_model, written, pass, wrote, edited);
    lemma_due(before, written, pass, edited, todo);
    reveal(worked_on);
    reveal(LocalModel::worked);
    assert(before.fits(pass, cores, todo.request_changed)) by {
        reveal(LocalModel::fits);
    }
}

/// Whether the monitor, in state `before`, pulled what was shared, made this pass over the core and
/// handed over what came of it.
pub open spec fn serviced<C: MonitoredCore>(
    pass: Pass,
    cores: Cores<C>,
    before: LocalModel,
    after: LocalModel,
    core_before: C,
    core_after: C,
    shared_before: MemoryMonitorShared,
    shared_after: MemoryMonitorShared,
    running: bool,
    now: u64,
    r: ServiceOutcome,
) -> bool {
    let request_changed = shared_before@.request_generation != before.seen_request_generation;
    let edits_arrived = shared_before@.edits_generation != before.seen_edits_generation;
    let pulled = before.pulled(shared_before@);
    let half = shared_before@.without_taken_edits(before);
    let new_frame = pulled.sees_new_frame(pass);
    let worked = pulled.worked(pass, running, request_changed, edits_arrived, now);
    &&& pulled.starts_from(core_before, cores.seen(), request_changed)
    &&& pulled.fits(pass, cores, request_changed)
    &&& core_after == cores.end()
    &&& r.pause == pulled.pauses(pass)
    &&& after == worked.published(half, new_frame, now)
    &&& shared_after@ == half.published_from(worked, pass.after, new_frame, now)
    &&& snapshot_taken(shared_before, shared_after, pass.after, pass.frame, pass.epoch)
}

/// What becomes of a requested snapshot: it is taken if anybody takes snapshots, into a buffer of
/// the pool if there is one.
pub open spec fn snapshot_taken(
    before: MemoryMonitorShared,
    after: MemoryMonitorShared,
    image: memory::MemoryImage,
    frame: u64,
    epoch: u64,
) -> bool {
    let job = before.snapshot_requested;
    if job != 0 && before.snapshots_wanted && fits(image.regions) {
        &&& after.snapshots@.len() == before.snapshots@.len() + 1
        &&& after.snapshots@.drop_last() == before.snapshots@
        &&& snapshot_shows(after.snapshots@.last(), image, job, frame, epoch)
        &&& after.snapshot_pool@ == (if before.snapshot_pool@.len() > 0 {
            before.snapshot_pool@.drop_last()
        } else {
            before.snapshot_pool@
        })
    } else {
        after.snapshots == before.snapshots && after.snapshot_pool == before.snapshot_pool
    }
}

/// Take the snapshot asked for, if anybody takes snapshots; otherwise it stays asked for.
fn send_snapshot<M: ConsoleMemory>(
    memory: &M,
    shared_half: &mut MemoryMonitorShared,
    job_id: u64,
    frame: u64,
    epoch: u64,
)
    requires
        old(shared_half).wf(),
        job_id != 0,
        job_id == old(shared_half).snapshot_requested,
    ensures
        final(shared_half).wf(),
        final(shared_half)@ == (shared::SharedModel {
            snapshot_requested: if old(shared_half).snapshots_wanted && fits(memory.image().regions) {
                0
            } else {
                job_id
            },
            ..old(shared_half)@
        }),
        snapshot_taken(*old(shared_half), *final(shared_half), memory.image(), frame, epoch),
{
    if !shared_half.snapshots_wanted || !fit_in_memory(memory.memory_regions()) {
        // Nobody to receive it, or no room for it; it stays asked for.
        return;
    }
    shared_half.snapshot_requested = 0;
    let ghost before = *shared_half;
    let mut bytes: Vec<u8> = match shared_half.snapshot_pool.pop() {
        Some(buffer) => buffer,
        None => Vec::new(),
    };
    bytes.clear();
    let ghost image = memory.image();
    let regions: &[MemoryRegionInfo] = memory.memory_regions();
    let mut layout: Vec<SnapshotRegion> = Vec::new();
    let mut index: usize = 0;
    while index < regions.len()
        invariant
            index <= regions@.len(),
            regions@ == image.regions,
            image == memory.image(),
            fits(image.regions),
            bytes@ == regions_copy(image, index as nat),
            layout@.len() == index,
            forall|i: int|
                0 <= i < index ==> {
                    let r = #[trigger] layout@[i];
                    &&& r.info == image.regions[i]
                    &&& r.offset == regions_len(image.regions, i as nat)
                    &&& r.available == region_mapped(image, i).len()
                },
        decreases regions@.len() - index,
    {
        let info: MemoryRegionInfo = regions[index];
        let offset: usize = bytes.len();
        proof {
            lemma_copied_len(image, index as nat);
            lemma_regions_len_grows(image.regions, (index + 1) as nat, image.regions.len());
        }
        let len: usize = info.len as usize;
        let mut available: usize = 0;
        if let Some(data) = memory.memory_region_data(index) {
            available = if data.len() < len {
                data.len()
            } else {
                len
            };
            bytes.extend_from_slice(slice_subrange(data, 0, available));
            assert(data@.subrange(0, available as int) =~= region_mapped(image, index as int));
        }
        push_zeros(&mut bytes, len - available);
        layout.push(SnapshotRegion { info, offset, available });
        index = index + 1;
        assert(bytes@ =~= regions_copy(image, index as nat));
    }
    let snapshot = FullSnapshot { job_id, frame, state_epoch: epoch, regions: layout, bytes };
    shared_half.snapshots.push(snapshot);
    proof {
        assert(shared_half.snapshots@.drop_last() =~= before.snapshots@);
    }
}

/// Add events to the ring, dropping the oldest ones it has no room for.
fn push_all(ring: &mut EventRing, events: Vec<MonitorEvent>)
    requires
        old(ring).wf(),
    ensures
        final(ring).wf(),
        shared::event_models(final(ring).events@) == shared::ring_after(
            shared::event_models(old(ring).events@),
            shared::event_models(events@),
        ),
        final(ring).dropped == shared::capped_sum(
            old(ring).dropped,
            left_out(
                shared::event_models(old(ring).events@),
                shared::event_models(events@),
            ),
        ),
{
    let ghost models = shared::event_models(events@);
    let ghost first = shared::event_models(ring.events@);
    let ghost dropped = ring.dropped;
    let mut rest: Vec<MonitorEvent> = events;
    // Taken from the back, so the oldest has to come last.
    let mut reversed: Vec<MonitorEvent> = Vec::new();
    while rest.len() > 0
        invariant
            rest@.len() + reversed@.len() == models.len(),
            forall|i: int| 0 <= i < rest@.len() ==> (#[trigger] rest@[i])@ == models[i],
            forall|i: int|
                0 <= i < reversed@.len() ==> (#[trigger] reversed@[i])@ == models[models.len() - 1
                    - i],
        decreases rest@.len(),
    {
        if let Some(event) = rest.pop() {
            reversed.push(event);
        }
    }
    let ghost mut n: int = 0;
    assert(first + models.take(0) =~= first);
    while reversed.len() > 0
        invariant
            0 <= n <= models.len(),
            n + reversed@.len() == models.len(),
            forall|i: int|
                0 <= i < reversed@.len() ==> (#[trigger] reversed@[i])@ == models[models.len() - 1
                    - i],
            ring.wf(),
            first.len() <= shared::EVENT_RING_CAPACITY,
            shared::event_models(ring.events@) == shared::ring_after(first, models.take(n)),
            ring.dropped == shared::capped_sum(dropped, left_out(first, models.take(n))),
        decreases reversed@.len(),
    {
        let ghost before = shared::event_models(ring.events@);
        if let Some(event) = reversed.pop() {
            assert(event@ == models[n]);
            ring.push(event);
            proof {
                assert(models.take(n + 1) =~= models.take(n).push(models[n]));
                assert(shared::ring_after(before, seq![models[n]]) =~= shared::ring_after(
                    first,
                    models.take(n + 1),
                ));
                n = n + 1;
            }
        }
    }
    assert(models.take(n) =~= models);
}

impl MemoryMonitorLocal {
    /// Apply every pending edit and answer each with an event. Returns whether any was applied.
    pub fn apply_edits<C: MonitoredCore>(&mut self, core: &mut C, frame: u64, playing_back: bool) -> (r: bool)
        requires
            old(self)@.wf(),
            old(core).valid(),
        ensures
            final(self)@.wf(),
            final(core).valid(),
            exists|turns: Seq<local::EditTurn>, cores: Seq<C>|
                {
                    &&& turns.len() == old(self)@.pending_edits.len()
                    &&& #[trigger] local::edit_turns_fit(
                        old(self)@.pending_edits,
                        turns,
                        cores,
                        playing_back,
                    )
                    &&& cores[0] == *old(core)
                    &&& cores.last() == *final(core)
                    &&& final(self)@ == old(self)@.with_edits(turns, frame, playing_back)
                    &&& r == local::any_edit_applied(
                        old(self)@.pending_edits,
                        turns,
                        turns.len(),
                        playing_back,
                    )
                },
    {
        let ghost before = self@;
        let ghost models = before.pending_edits;
        let ghost start = *core;
        let ghost mut turns: Seq<local::EditTurn> = Seq::empty();
        let ghost mut cores: Seq<C> = seq![*core];
        let mut wrote: bool = false;
        let mut edits: Vec<MemoryEdit> = Vec::new();
        core::mem::swap(&mut edits, &mut self.pending_edits);
        let mut index: usize = 0;
        proof {
            reveal(local::edit_turns_fit);
            reveal(LocalModel::with_edits);
            assert(self@.pending_edits =~= Seq::empty());
            assert(self@ =~= before.with_edits(turns, frame, playing_back));
        }
        while index < edits.len()
            invariant
                index == turns.len() <= edits@.len() == models.len(),
                models == shared::edit_models(edits@),
                models == before.pending_edits,
                before.wf(),
                self@ == before.with_edits(turns, frame, playing_back),
                core.valid(),
                local::edit_turns_fit(models, turns, cores, playing_back),
                cores.len() == turns.len() + 1,
                cores[0] == start,
                cores.last() == *core,
                wrote == local::any_edit_applied(models, turns, turns.len(), playing_back),
            decreases edits@.len() - index,
        {
            let ghost image = core.image();
            let ghost done = turns;
            let ghost passed = cores;
            let ghost events = self@.events;
            let edit: &MemoryEdit = &edits[index];
            let ghost model = models[index as int];
            assert(model == edit@);
            let mut written: bool = false;
            let mut result: Result<(u32, Vec<u8>), WriteFailure> = plan_edit(
                core.emulator(),
                edit,
                playing_back,
            );
            let mut refused: bool = false;
            if let Ok((address, replaced)) = &result {
                if !same_bytes(replaced.as_slice(), edit.data.as_slice()) {
                    written = core.write(*address, edit.data.as_slice());
                    refused = !written;
                }
            }
            if refused {
                result = Err(WriteFailure::Playback);
            }
            let ghost turn = local::EditTurn { image, written, after: core.image() };
            match result {
                Ok((address, replaced)) => {
                    wrote = true;
                    let new: Vec<u8> = slice_to_vec(edit.data.as_slice());
                    self.events.push(
                        MonitorEvent::Written {
                            frame,
                            edit_id: edit.edit_id,
                            address,
                            old: replaced,
                            new,
                        },
                    );
                },
                Err(reason) => {
                    self.events.push(MonitorEvent::WriteFailed { edit_id: edit.edit_id, reason });
                },
            }
            self.flush_events_now = true;
            proof {
                reveal(local::edit_turns_fit);
                reveal(LocalModel::with_edits);
                turns = turns.push(turn);
                cores = cores.push(*core);
                assert(turns[index as int] == turn);
                assert(self@.events =~= events.push(
                    local::edit_event(turn, model, frame, playing_back),
                ));
                assert(self@ =~= before.with_edits(turns, frame, playing_back));
                assert forall|i: int| 0 <= i < turns.len() implies local::edit_turn_fits(
                    models[i],
                    #[trigger] turns[i],
                    cores[i],
                    cores[i + 1],
                    playing_back,
                ) by {
                    if i < done.len() {
                        assert(local::edit_turn_fits(
                            models[i],
                            done[i],
                            passed[i],
                            passed[i + 1],
                            playing_back,
                        ));
                    }
                }
                if wrote {
                    if local::edit_result(turn, model, playing_back) is Ok {
                        assert(local::edit_result(
                            turns[index as int],
                            models[index as int],
                            playing_back,
                        ) is Ok);
                    } else {
                        let k = choose|k: int|
                            0 <= k < done.len() && local::edit_result(
                                #[trigger] done[k],
                                models[k],
                                playing_back,
                            ) is Ok;
                        assert(local::edit_result(turns[k], models[k], playing_back) is Ok);
                    }
                } else {
                    assert forall|k: int| 0 <= k < turns.len() implies local::edit_result(
                        #[trigger] turns[k],
                        models[k],
                        playing_back,
                    ) is Err by {
                        if k < done.len() {
                            assert(local::edit_result(done[k], models[k], playing_back) is Err);
                        }
                    }
                }
            }
            index = index + 1;
        }
        proof {
            lemma_edits_keep_shape(before, turns, frame, playing_back);
        }
        wrote
    }

    /// Fill the sample from memory.
    pub fn fill_sample<M: ConsoleMemory>(&mut self, memory: &M, frame: u64, epoch: u64)
        requires
            old(self)@.wf(),
        ensures
            final(self)@.wf(),
            final(self)@ == old(self)@.with_sample(memory.image(), frame, epoch),
    {
        let ghost before = self@;
        let ghost image = memory.image();
        self.sample.generation = self.next_sample_generation;
        self.sample.frame = frame;
        self.sample.state_epoch = epoch;
        self.sample.request_generation = self.seen_request_generation;

        let mut slot: usize = 0;
        while slot < 4
            invariant
                slot <= 4,
                image == memory.image(),
                before.wf(),
                before.request.windows == self.request.windows@,
                forall|i: int|
                    0 <= i < slot ==> (#[trigger] self.sample.windows@[i])@ == local::window_shown(
                        image,
                        before.request.windows[i],
                        before.sample.windows[i],
                    ),
                forall|i: int|
                    slot <= i < 4 ==> (#[trigger] self.sample.windows@[i])@
                        == before.sample.windows[i],
                self@ == (LocalModel {
                    sample: shared::SampleModel {
                        generation: before.next_sample_generation,
                        frame,
                        state_epoch: epoch,
                        request_generation: before.seen_request_generation,
                        windows: self@.sample.windows,
                        ..before.sample
                    },
                    ..before
                }),
            decreases 4 - slot,
        {
            let window: Option<ViewWindow> = self.request.windows[slot];
            let shown: WindowSample = match window {
                Some(w) => {
                    let (bytes, valid_len): (Vec<u8>, u32) = memory::copy_mapped_prefix(
                        memory,
                        w.address,
                        w.len,
                    );
                    proof {
                        let mapped = memory::mapped_prefix(image, w.address, w.len as int);
                        assert forall|i: int| 0 <= i < bytes@.len() implies bytes@[i] == (mapped
                            + local::zeros((w.len - mapped.len()) as nat))[i] by {
                            if i < mapped.len() {
                                assert(bytes@.take(valid_len as int)[i] == bytes@[i]);
                            }
                        }
                        assert(bytes@ =~= mapped + local::zeros((w.len - mapped.len()) as nat));
                    }
                    WindowSample { active: true, address: w.address, bytes, valid_len }
                },
                None => WindowSample {
                    active: false,
                    address: self.sample.windows[slot].address,
                    bytes: Vec::new(),
                    valid_len: 0,
                },
            };
            self.sample.windows[slot] = shown;
            slot = slot + 1;
        }

        self.fill_probes(memory);
        self.sample.freeze_restores = Vec::new();
        let mut i: usize = 0;
        let ghost filled = self@;
        while i < self.freeze_restores.len()
            invariant
                i <= self.freeze_restores@.len(),
                self@ == (LocalModel {
                    sample: shared::SampleModel {
                        freeze_restores: Seq::new(
                            i as nat,
                            |k: int| self.freeze_restores@[k].1,
                        ),
                        ..filled.sample
                    },
                    ..filled
                }),
            decreases self.freeze_restores@.len() - i,
        {
            let (_, restores): (u32, u32) = self.freeze_restores[i];
            self.sample.freeze_restores.push(restores);
            i = i + 1;
            assert(self.sample.freeze_restores@ =~= Seq::new(
                i as nat,
                |k: int| self.freeze_restores@[k].1,
            ));
        }
        self.sample.freeze_ok = self.freeze_ok.clone();
        self.next_sample_generation = self.next_sample_generation.wrapping_add(1);
        self.sample_unpublished = true;
        proof {
            reveal(LocalModel::sample_of);
            reveal(LocalModel::with_sample);
            assert(self@.sample.windows =~= before.sample_of(image, frame, epoch).windows);
            assert(self@.sample =~= before.sample_of(image, frame, epoch));
        }
    }

    fn fill_probes<M: ConsoleMemory>(&mut self, memory: &M)
        requires
            old(self)@.wf(),
        ensures
            final(self)@ == (LocalModel {
                sample: shared::SampleModel {
                    probe_values: old(self)@.sample_of(memory.image(), 0, 0).probe_values,
                    probe_offsets: old(self)@.sample_of(memory.image(), 0, 0).probe_offsets,
                    probe_ok: old(self)@.sample_of(memory.image(), 0, 0).probe_ok,
                    probe_addresses: old(self)@.sample_of(memory.image(), 0, 0).probe_addresses,
                    ..old(self)@.sample
                },
                ..old(self)@
            }),
    {
        let ghost before = self@;
        let ghost image = memory.image();
        let ghost probes = self.request.probes@;
        let mut probe_values: Vec<u8> = Vec::new();
        let mut probe_offsets: Vec<u32> = Vec::new();
        let mut probe_ok: Vec<bool> = Vec::new();
        let mut probe_addresses: Vec<u32> = Vec::new();
        let mut i: usize = 0;
        while i < self.request.probes.len()
            invariant
                i <= self.request.probes@.len(),
                probes == self.request.probes@,
                image == memory.image(),
                self@ == before,
                probe_values@ == local::probes_bytes(image, probes, i as nat),
                probe_offsets@ == Seq::new(
                    i as nat,
                    |k: int| local::probes_bytes(image, probes, k as nat).len() as u32,
                ),
                probe_ok@ == Seq::new(i as nat, |k: int| local::probed(image, probes[k]) is Some),
                probe_addresses@ == Seq::new(
                    i as nat,
                    |k: int| local::probe_address(image, probes[k]),
                ),
            decreases self.request.probes@.len() - i,
        {
            let probe: Probe = self.request.probes[i];
            let len: usize = probe.len as usize;
            probe_offsets.push(probe_values.len() as u32);
            let address: Option<u32> = probe.path.resolve(memory);
            let mut found: Option<&[u8]> = None;
            match address {
                Some(a) => {
                    probe_addresses.push(a);
                    found = memory::memory_slice(memory, a, len);
                },
                None => {
                    probe_addresses.push(0);
                },
            }
            match found {
                Some(bytes) => {
                    probe_values.extend_from_slice(bytes);
                    probe_ok.push(true);
                },
                None => {
                    push_zeros(&mut probe_values, len);
                    probe_ok.push(false);
                },
            }
            i = i + 1;
            assert(probe_values@ =~= local::probes_bytes(image, probes, i as nat));
            assert(probe_offsets@ =~= Seq::new(
                i as nat,
                |k: int| local::probes_bytes(image, probes, k as nat).len() as u32,
            ));
            assert(probe_ok@ =~= Seq::new(
                i as nat,
                |k: int| local::probed(image, probes[k]) is Some,
            ));
            assert(probe_addresses@ =~= Seq::new(
                i as nat,
                |k: int| local::probe_address(image, probes[k]),
            ));
        }
        proof {
            reveal(LocalModel::sample_of);
        }
        self.sample.probe_values = probe_values;
        self.sample.probe_offsets = probe_offsets;
        self.sample.probe_ok = probe_ok;
        self.sample.probe_addresses = probe_addresses;
    }
}

/// Whether two byte strings are the same.
fn same_bytes(a: &[u8], b: &[u8]) -> (r: bool)
    ensures
        r == (a@ == b@),
{
    if a.len() != b.len() {
        return false;
    }
    let mut i: usize = 0;
    while i < a.len()
        invariant
            i <= a@.len() == b@.len(),
            forall|k: int| 0 <= k < i ==> a@[k] == b@[k],
        decreases a@.len() - i,
    {
        if a[i] != b[i] {
            return false;
        }
        i = i + 1;
    }
    assert(a@ =~= b@);
    true
}

/// Append `n` zeros.
fn push_zeros(out: &mut Vec<u8>, n: usize)
    ensures
        final(out)@ == old(out)@ + local::zeros(n as nat),
{
    let ghost before = out@;
    let mut i: usize = 0;
    while i < n
        invariant
            i <= n,
            out@ == before + local::zeros(i as nat),
        decreases n - i,
    {
        out.push(0);
        i = i + 1;
        assert(out@ =~= before + local::zeros(i as nat));
    }
    assert(out@ =~= before + local::zeros(n as nat));
}

/// Where an edit goes and the bytes it replaces, or why it is not applied.
fn plan_edit<M: ConsoleMemory>(memory: &M, edit: &MemoryEdit, playing_back: bool) -> (r: Result<
    (u32, Vec<u8>),
    WriteFailure,
>)
    ensures
        match local::edit_plan(memory.image(), edit@, playing_back) {
            Ok((address, replaced)) => r matches Ok((a, b)) && a == address && b@ == replaced,
            Err(reason) => r matches Err(e) && e == reason,
        },
{
    if playing_back {
        return Err(WriteFailure::Playback);
    }
    let len: usize = edit.data.len();
    if len == 0 || len > MAX_EDIT_LEN {
        return Err(WriteFailure::BadLength);
    }
    let address: u32 = match edit.path.resolve(memory) {
        Some(address) => address,
        None => return Err(WriteFailure::PointerInvalid),
    };
    let regions: &[MemoryRegionInfo] = memory.memory_regions();
    match memory::locate_memory(regions, address, len) {
        None => return Err(WriteFailure::Unmapped),
        Some((region, _)) => if !regions[region].writable {
            return Err(WriteFailure::ReadOnly);
        },
    }
    match memory::memory_slice(memory, address, len) {
        Some(replaced) => Ok((address, slice_to_vec(replaced))),
        None => Err(WriteFailure::Unmapped),
    }
}

// ---------------------------------------------------------------------------------------------
// From one sample to the next.

impl LocalModel {
    /// Whether the next sample is newer than any that was published, and one that waits to be
    /// published is too.
    pub open spec fn ahead_of(self, half: shared::SharedModel) -> bool {
        &&& half.sample_generation < self.next_sample_generation
        &&& self.sample_unpublished ==> half.sample_generation < self.sample.generation
            < self.next_sample_generation
    }

    /// Whether what samples are numbered by is the same.
    pub open spec fn samples_as(self, other: LocalModel) -> bool {
        &&& self.next_sample_generation == other.next_sample_generation
        &&& self.sample_unpublished == other.sample_unpublished
        &&& self.sample == other.sample
    }
}

/// A pass takes no sample or the next one.
proof fn lemma_samples_are_numbered(
    m: LocalModel,
    pass: Pass,
    running: bool,
    request_changed: bool,
    edits_arrived: bool,
    now: u64,
)
    ensures
        ({
            let worked = m.worked(pass, running, request_changed, edits_arrived, now);
            ||| worked.samples_as(m)
            ||| {
                &&& worked.sample_unpublished
                &&& worked.sample.generation == m.next_sample_generation
                &&& worked.next_sample_generation == m.next_sample_generation.wrapping_add(1)
            }
        }),
{
    let written = m.written(pass);
    assert(written.samples_as(m)) by {
        reveal(LocalModel::written);
        reveal(LocalModel::looked);
        reveal(LocalModel::with_freezes);
        reveal(LocalModel::with_edits);
        reveal(LocalModel::with_traces_run);
    }
    reveal(LocalModel::worked);
    reveal(LocalModel::ended);
    reveal(LocalModel::with_sample);
    reveal(LocalModel::sample_of);
}

/// A monitor that nothing was published through owes nobody anything, and the samples of a core
/// attached to a monitor are newer than any published before.
pub proof fn law_attached_cores_go_on_counting(
    fresh: MemoryMonitorShared,
    half: MemoryMonitorShared,
    m: LocalModel,
    seen: u64,
)
    requires
        fresh@.sample == shared::SampleModel::blank(),
        fresh@.sample_generation == 0,
        half@.sample_generation < u64::MAX,
        m.next_sample_generation == half@.sample_generation.wrapping_add(1),
        !m.sample_unpublished,
    ensures
        fresh@.owes(shared::SampleModel::blank(), seen),
        m.ahead_of(half@),
{
}

/// A sample that is published is newer than every one before it, carries the generation that is
/// announced with it, and is the one the next reader gets; without one, what readers are owed stays
/// what it was. (There are as many generations as 64 bits can tell apart.)
pub proof fn law_published_samples_are_the_newest<C: MonitoredCore>(
    pass: Pass,
    cores: Cores<C>,
    before: LocalModel,
    after: LocalModel,
    core_before: C,
    core_after: C,
    shared_before: MemoryMonitorShared,
    shared_after: MemoryMonitorShared,
    running: bool,
    now: u64,
    r: ServiceOutcome,
    newest: shared::SampleModel,
    seen: u64,
)
    requires
        serviced(
            pass,
            cores,
            before,
            after,
            core_before,
            core_after,
            shared_before,
            shared_after,
            running,
            now,
            r,
        ),
        before.ahead_of(shared_before@),
        before.next_sample_generation < u64::MAX,
        shared_before@.owes(newest, seen),
    ensures
        after.ahead_of(shared_after@),
        !after.sample_unpublished,
        shared_after@.sample_generation == newest.generation ==> shared_after@.owes(newest, seen)
            && shared_after@.sample == shared_before@.sample,
        shared_after@.sample_generation != newest.generation ==> {
            &&& shared_after@.sample_generation > newest.generation
            &&& shared_after@.sample.generation == shared_after@.sample_generation
            &&& shared_after@.owes(shared_after@.sample, seen)
        },
{
    let request_changed = shared_before@.request_generation != before.seen_request_generation;
    let edits_arrived = shared_before@.edits_generation != before.seen_edits_generation;
    let pulled = before.pulled(shared_before@);
    assert(pulled.samples_as(before)) by {
        reveal(LocalModel::pulled);
        reveal(LocalModel::with_request);
    }
    lemma_samples_are_numbered(pulled, pass, running, request_changed, edits_arrived, now);
    reveal(LocalModel::published);
    reveal(shared::SharedModel::published_from);
    reveal(shared::SharedModel::without_taken_edits);
}

} // verus!
