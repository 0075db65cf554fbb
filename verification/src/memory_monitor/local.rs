//! The core thread's half of a memory monitor.
//!
//! Everything happens between frames in a fixed order: traces observe what the game did, pause
//! conditions are checked, freezes restore their values, pending edits are applied, and finally
//! the sample shows the state the next frame will start from.

use super::request;
use super::request::{MonitorRequest, Probe, TraceSpec, ViewWindow, MAX_VIEW_WINDOWS};
use super::shared;
use super::shared::{
    MemoryEdit, MemoryMonitorShared, MonitorEvent, MonitorSample, WriteFailure, MAX_EDIT_LEN,
};
use super::values;
use super::values::FreezeSpec;
use crate::emulator::memory;
use crate::emulator::memory::ConsoleMemory;
use vstd::prelude::*;
use vstd::slice::slice_to_vec;

verus! {

/// Events buffered on the core thread between flushes before further ones are dropped.
pub const LOCAL_EVENT_CAPACITY: usize = 1024;

/// What servicing the monitor asks the core thread to do.
#[derive(Copy, Clone, Debug, PartialEq, Eq, Structural)]
pub struct ServiceOutcome {
    /// A trace's condition was met: pause emulation.
    pub pause: bool,
}

impl Default for ServiceOutcome {
    fn default() -> (r: Self)
        ensures
            !r.pause,
    {
        ServiceOutcome { pause: false }
    }
}

/// The part of a core the monitor needs. Implemented by the session core; benchmarks and tests can
/// implement it over a bare emulator.
pub trait MonitoredCore {
    /// The emulator, as far as memory goes.
    type Memory: ConsoleMemory;

    /// Whether the core is in a state it can be asked something in.
    closed spec fn valid(&self) -> bool {
        arbitrary()
    }

    /// The memory as it is now.
    closed spec fn image(&self) -> memory::MemoryImage {
        arbitrary()
    }

    /// Frames emulated so far.
    closed spec fn frame_count(&self) -> u64 {
        arbitrary()
    }

    /// Changes whenever memory is replaced wholesale.
    closed spec fn epoch(&self) -> u64 {
        arbitrary()
    }

    /// Whether the core is between a frame's slices.
    closed spec fn mid_frame(&self) -> bool {
        arbitrary()
    }

    /// Whether a replay is being played back.
    closed spec fn playing_back(&self) -> bool {
        arbitrary()
    }

    /// Whether finishing the current frame can leave the core as `after`.
    closed spec fn finished(&self, after: &Self) -> bool {
        arbitrary()
    }

    /// Whether writing `data` at `address` can answer `written` and leave the core as `after`.
    closed spec fn wrote(&self, after: &Self, address: u32, data: Seq<u8>, written: bool) -> bool {
        arbitrary()
    }

    /// Whether writing `data` at `address` if it differs can answer `written` and leave the core as
    /// `after`.
    closed spec fn wrote_if_changed(
        &self,
        after: &Self,
        address: u32,
        data: Seq<u8>,
        written: bool,
    ) -> bool {
        arbitrary()
    }

    /// The emulator, for reading memory.
    fn emulator(&self) -> (r: &Self::Memory)
        ensures
            r.image() == self.image(),
    ;

    /// Frames emulated so far.
    fn frame(&self) -> (r: u64)
        ensures
            r == self.frame_count(),
    ;

    /// Changes whenever memory is replaced wholesale.
    fn state_epoch(&self) -> (r: u64)
        ensures
            r == self.epoch(),
    ;

    /// Whether the core is between frames' slices (Game Boy sub-frame stepping).
    fn is_mid_frame(&self) -> (r: bool)
        ensures
            r == self.mid_frame(),
    ;

    /// Whether a replay is being played back.
    fn is_playing_back(&self) -> (r: bool)
        ensures
            r == self.playing_back(),
    ;

    /// Run until the current frame is complete.
    fn finish_current_frame(&mut self)
        requires
            old(self).valid(),
        ensures
            old(self).finished(&*final(self)),
            final(self).valid(),
    ;

    /// Write `data` at `address` (recorded into a replay being recorded). Returns whether it was
    /// written.
    fn write(&mut self, address: u32, data: &[u8]) -> (r: bool)
        requires
            old(self).valid(),
        ensures
            old(self).wrote(&*final(self), address, data@, r),
            final(self).valid(),
    ;

    /// Write only if the bytes there differ. Returns whether it wrote.
    fn write_if_changed(&mut self, address: u32, data: &[u8]) -> (r: bool)
        requires
            old(self).valid(),
        ensures
            old(self).wrote_if_changed(&*final(self), address, data@, r),
            final(self).valid(),
    ;
}

/// A traced watch and the value it last had.
#[derive(Copy, Clone, Debug)]
pub struct TraceState {
    pub spec: TraceSpec,
    pub value: u64,
    pub decoded: Option<i64>,
    pub valid: bool,
}

// ---------------------------------------------------------------------------------------------
// Traces.

/// The bytes a trace watches, if its path leads to mapped memory.
pub open spec fn observed(image: memory::MemoryImage, spec_: TraceSpec) -> Option<Seq<u8>> {
    match values::resolved(image, spec_.path.base, spec_.path.offsets()) {
        Some(address) => image.mapped(address, spec_.len as int),
        None => None,
    }
}

/// The number a decoded value is, as an `i64`.
pub open spec fn decoded_value(decode: values::ValueDecode, s: Seq<u8>) -> Option<i64> {
    match decode.value(s) {
        Some(v) => Some(v as i64),
        None => None,
    }
}

impl TraceState {
    /// The trace after looking at memory: its new baseline, or invalid if it cannot be read.
    pub open spec fn moved_along(self, image: memory::MemoryImage) -> TraceState {
        match observed(image, self.spec) {
            Some(bytes) => TraceState {
                spec: self.spec,
                value: values::packed(bytes),
                decoded: decoded_value(self.spec.decode, bytes),
                valid: true,
            },
            None => TraceState { valid: false, ..self },
        }
    }

    /// Whether memory holds another value than the baseline.
    pub open spec fn changed(self, image: memory::MemoryImage) -> bool {
        self.valid && match observed(image, self.spec) {
            Some(bytes) => values::packed(bytes) != self.value,
            None => false,
        }
    }

    /// Whether the change memory shows meets the pause condition.
    pub open spec fn pauses(self, image: memory::MemoryImage) -> bool {
        self.changed(image) && match self.spec.pause_when {
            Some(condition) => condition.met(self.decoded, self.moved_along(image).decoded, true),
            None => false,
        }
    }
}

/// What comparing traces adds up to.
#[verifier::ext_equal]
pub ghost struct TraceRun {
    pub events: Seq<shared::EventModel>,
    pub dropped: u64,
    pub pause: bool,
}

/// One more trace compared: a change is reported unless the buffer is full, a met condition is
/// reported always.
pub open spec fn trace_compared(
    run: TraceRun,
    trace: TraceState,
    image: memory::MemoryImage,
    frame: u64,
) -> TraceRun {
    if !trace.changed(image) {
        run
    } else {
        let change = shared::EventModel::Changed {
            frame,
            id: trace.spec.id,
            before: trace.value,
            after: trace.moved_along(image).value,
        };
        let fits = run.events.len() < LOCAL_EVENT_CAPACITY;
        let events = if fits {
            run.events.push(change)
        } else {
            run.events
        };
        let dropped = if fits {
            run.dropped
        } else {
            shared::capped_sum(run.dropped, 1)
        };
        if trace.pauses(image) {
            TraceRun {
                events: events.push(
                    shared::EventModel::PausedByCondition { frame, id: trace.spec.id },
                ),
                dropped,
                pause: true,
            }
        } else {
            TraceRun { events, dropped, pause: run.pause }
        }
    }
}

/// The first `n` traces compared, in order.
pub open spec fn traces_compared(
    run: TraceRun,
    traces: Seq<TraceState>,
    n: nat,
    image: memory::MemoryImage,
    frame: u64,
) -> TraceRun
    decreases n,
{
    if n == 0 {
        run
    } else {
        trace_compared(
            traces_compared(run, traces, (n - 1) as nat, image, frame),
            traces[n - 1],
            image,
            frame,
        )
    }
}

/// Every trace's baseline moved along.
pub open spec fn traces_moved(traces: Seq<TraceState>, image: memory::MemoryImage) -> Seq<
    TraceState,
> {
    Seq::new(traces.len(), |i: int| traces[i].moved_along(image))
}

// ---------------------------------------------------------------------------------------------
// Freezes and edits.

/// Where a freeze writes: its address, if the path leads there and the region may be written.
pub open spec fn freeze_target(image: memory::MemoryImage, freeze: FreezeSpec) -> Option<u32> {
    match values::resolved(image, freeze.path.base, freeze.path.offsets()) {
        Some(address) => match memory::located(
            image.regions,
            address,
            freeze.held().len() as int,
        ) {
            Some((region, _)) => if image.regions[region as int].writable {
                Some(address)
            } else {
                None
            },
            None => None,
        },
        None => None,
    }
}

/// One freeze's turn: memory before and after it, and whether the core wrote.
pub ghost struct FreezeTurn {
    pub image: memory::MemoryImage,
    pub wrote: bool,
    pub after: memory::MemoryImage,
}

/// Whether a freeze can have had this turn, with the core before and after it: its value goes to its
/// target, if it has one and something else is there.
pub open spec fn freeze_turn_fits<C: MonitoredCore>(
    freeze: FreezeSpec,
    turn: FreezeTurn,
    core: C,
    after: C,
) -> bool {
    &&& turn.image == core.image()
    &&& turn.after == after.image()
    &&& match freeze_target(turn.image, freeze) {
        Some(address) => core.wrote_if_changed(&after, address, freeze.held(), turn.wrote),
        None => !turn.wrote && after == core,
    }
}

/// Whether the freezes can have had these turns: `cores` are the core before the first one and after
/// each.
#[verifier::opaque]
pub open spec fn freeze_turns_fit<C: MonitoredCore>(
    freezes: Seq<FreezeSpec>,
    turns: Seq<FreezeTurn>,
    cores: Seq<C>,
) -> bool {
    &&& turns.len() <= freezes.len()
    &&& cores.len() == turns.len() + 1
    &&& forall|i: int|
        0 <= i < turns.len() ==> freeze_turn_fits(
            freezes[i],
            #[trigger] turns[i],
            cores[i],
            cores[i + 1],
        )
}

/// Whether any of the first `n` freezes wrote.
pub open spec fn any_freeze_wrote(turns: Seq<FreezeTurn>, n: nat) -> bool {
    exists|i: int| 0 <= i < n && (#[trigger] turns[i]).wrote
}

/// `count`, one up if `wrote`, stopping at the largest number.
pub open spec fn restores_after(count: u32, wrote: bool) -> u32 {
    if wrote && count < u32::MAX {
        (count + 1) as u32
    } else {
        count
    }
}

/// What becomes of an edit, memory being `image`: where it goes and the bytes it replaces, or why
/// it is not applied.
pub open spec fn edit_plan(
    image: memory::MemoryImage,
    edit: shared::EditModel,
    playing_back: bool,
) -> Result<(u32, Seq<u8>), WriteFailure> {
    if playing_back {
        Err(WriteFailure::Playback)
    } else if edit.data.len() == 0 || edit.data.len() > MAX_EDIT_LEN {
        Err(WriteFailure::BadLength)
    } else {
        match values::resolved(image, edit.path.base, edit.path.offsets()) {
            None => Err(WriteFailure::PointerInvalid),
            Some(address) => match memory::located(
                image.regions,
                address,
                edit.data.len() as int,
            ) {
                None => Err(WriteFailure::Unmapped),
                Some((region, _)) => if !image.regions[region as int].writable {
                    Err(WriteFailure::ReadOnly)
                } else {
                    match image.mapped(address, edit.data.len() as int) {
                        None => Err(WriteFailure::Unmapped),
                        Some(replaced) => Ok((address, replaced)),
                    }
                },
            },
        }
    }
}

/// One edit's turn: memory before and after it, and whether the core wrote (an edit that changes
/// nothing is not handed to the core at all).
pub ghost struct EditTurn {
    pub image: memory::MemoryImage,
    pub written: bool,
    pub after: memory::MemoryImage,
}

/// Whether an edit has to be handed to the core.
pub open spec fn edit_is_written(turn: EditTurn, edit: shared::EditModel, playing_back: bool) -> bool {
    edit_plan(turn.image, edit, playing_back) matches Ok((_, replaced)) && replaced != edit.data
}

/// What an edit's turn came to.
pub open spec fn edit_result(
    turn: EditTurn,
    edit: shared::EditModel,
    playing_back: bool,
) -> Result<(u32, Seq<u8>), WriteFailure> {
    match edit_plan(turn.image, edit, playing_back) {
        Ok((address, replaced)) => if replaced != edit.data && !turn.written {
            Err(WriteFailure::Playback)
        } else {
            Ok((address, replaced))
        },
        Err(reason) => Err(reason),
    }
}

/// The event that answers an edit.
pub open spec fn edit_event(
    turn: EditTurn,
    edit: shared::EditModel,
    frame: u64,
    playing_back: bool,
) -> shared::EventModel {
    match edit_result(turn, edit, playing_back) {
        Ok((address, replaced)) => shared::EventModel::Written {
            frame,
            edit_id: edit.edit_id,
            address,
            before: replaced,
            after: edit.data,
        },
        Err(reason) => shared::EventModel::WriteFailed { edit_id: edit.edit_id, reason },
    }
}

/// Whether an edit can have had this turn, with the core before and after it: its bytes are handed
/// to the core if it can be applied and changes something.
pub open spec fn edit_turn_fits<C: MonitoredCore>(
    edit: shared::EditModel,
    turn: EditTurn,
    core: C,
    after: C,
    playing_back: bool,
) -> bool {
    &&& turn.image == core.image()
    &&& turn.after == after.image()
    &&& if edit_is_written(turn, edit, playing_back) {
        core.wrote(
            &after,
            edit_plan(turn.image, edit, playing_back)->Ok_0.0,
            edit.data,
            turn.written,
        )
    } else {
        !turn.written && after == core
    }
}

/// Whether the edits can have had these turns: `cores` are the core before the first one and after
/// each.
#[verifier::opaque]
pub open spec fn edit_turns_fit<C: MonitoredCore>(
    edits: Seq<shared::EditModel>,
    turns: Seq<EditTurn>,
    cores: Seq<C>,
    playing_back: bool,
) -> bool {
    &&& turns.len() <= edits.len()
    &&& cores.len() == turns.len() + 1
    &&& forall|i: int|
        0 <= i < turns.len() ==> edit_turn_fits(
            edits[i],
            #[trigger] turns[i],
            cores[i],
            cores[i + 1],
            playing_back,
        )
}

/// Whether any of the first `n` edits was applied.
pub open spec fn any_edit_applied(
    edits: Seq<shared::EditModel>,
    turns: Seq<EditTurn>,
    n: nat,
    playing_back: bool,
) -> bool {
    exists|i: int|
        0 <= i < n && edit_result(#[trigger] turns[i], edits[i], playing_back) is Ok
}

// ---------------------------------------------------------------------------------------------
// Samples.

/// `n` zeros.
pub open spec fn zeros(n: nat) -> Seq<u8> {
    Seq::new(n, |i: int| 0u8)
}

/// What a viewer slot shows: the window's mapped bytes, zeros up to its length. A slot that asks
/// for nothing keeps the address it last had.
pub open spec fn window_shown(
    image: memory::MemoryImage,
    window: Option<ViewWindow>,
    last: shared::WindowModel,
) -> shared::WindowModel {
    match window {
        Some(w) => {
            let mapped = memory::mapped_prefix(image, w.address, w.len as int);
            shared::WindowModel {
                active: true,
                address: w.address,
                bytes: mapped + zeros((w.len - mapped.len()) as nat),
                valid_len: mapped.len() as u32,
            }
        },
        None => shared::WindowModel {
            active: false,
            address: last.address,
            bytes: Seq::empty(),
            valid_len: 0,
        },
    }
}

/// A probe's bytes, if its path leads to mapped memory.
pub open spec fn probed(image: memory::MemoryImage, probe: Probe) -> Option<Seq<u8>> {
    match values::resolved(image, probe.path.base, probe.path.offsets()) {
        Some(address) => image.mapped(address, probe.len as int),
        None => None,
    }
}

/// A probe's bytes in a sample: zeros if it could not be read.
pub open spec fn probe_bytes(image: memory::MemoryImage, probe: Probe) -> Seq<u8> {
    match probed(image, probe) {
        Some(bytes) => bytes,
        None => zeros(probe.len as nat),
    }
}

/// The bytes of the first `n` probes, one after the other.
pub open spec fn probes_bytes(image: memory::MemoryImage, probes: Seq<Probe>, n: nat) -> Seq<u8>
    decreases n,
{
    if n == 0 {
        Seq::empty()
    } else {
        probes_bytes(image, probes, (n - 1) as nat) + probe_bytes(image, probes[n - 1])
    }
}

/// A probe's final address in a sample: 0 if a pointer on the way to it is unmapped.
pub open spec fn probe_address(image: memory::MemoryImage, probe: Probe) -> u32 {
    match values::resolved(image, probe.path.base, probe.path.offsets()) {
        Some(address) => address,
        None => 0,
    }
}

// ---------------------------------------------------------------------------------------------

/// The core thread's half of a memory monitor.
pub struct MemoryMonitorLocal {
    pub request: MonitorRequest,
    pub seen_request_generation: u64,
    pub seen_edits_generation: u64,
    pub sample: MonitorSample,
    pub sample_unpublished: bool,
    pub next_sample_generation: u64,
    /// The time of the next sample, in microseconds.
    pub next_sample_at: Option<u64>,
    pub initialized: bool,
    pub last_frame: u64,
    pub last_epoch: u64,
    pub traces: Vec<TraceState>,
    /// `(freeze id, restores)`, in request order.
    pub freeze_restores: Vec<(u32, u32)>,
    pub freeze_ok: Vec<bool>,
    pub pending_edits: Vec<MemoryEdit>,
    pub events: Vec<MonitorEvent>,
    pub events_dropped: u64,
    /// Events are held back until this time, in microseconds.
    pub events_flush_at: Option<u64>,
    pub flush_events_now: bool,
}

/// The core thread's half, as the contracts see it.
#[verifier::ext_equal]
pub ghost struct LocalModel {
    pub request: request::RequestModel,
    pub seen_request_generation: u64,
    pub seen_edits_generation: u64,
    pub sample: shared::SampleModel,
    pub sample_unpublished: bool,
    pub next_sample_generation: u64,
    pub next_sample_at: Option<u64>,
    pub initialized: bool,
    pub last_frame: u64,
    pub last_epoch: u64,
    pub traces: Seq<TraceState>,
    pub freeze_restores: Seq<(u32, u32)>,
    pub freeze_ok: Seq<bool>,
    pub pending_edits: Seq<shared::EditModel>,
    pub events: Seq<shared::EventModel>,
    pub events_dropped: u64,
    pub events_flush_at: Option<u64>,
    pub flush_events_now: bool,
}

impl View for MemoryMonitorLocal {
    type V = LocalModel;

    open spec fn view(&self) -> LocalModel {
        LocalModel {
            request: self.request@,
            seen_request_generation: self.seen_request_generation,
            seen_edits_generation: self.seen_edits_generation,
            sample: self.sample@,
            sample_unpublished: self.sample_unpublished,
            next_sample_generation: self.next_sample_generation,
            next_sample_at: self.next_sample_at,
            initialized: self.initialized,
            last_frame: self.last_frame,
            last_epoch: self.last_epoch,
            traces: self.traces@,
            freeze_restores: self.freeze_restores@,
            freeze_ok: self.freeze_ok@,
            pending_edits: shared::edit_models(self.pending_edits@),
            events: shared::event_models(self.events@),
            events_dropped: self.events_dropped,
            events_flush_at: self.events_flush_at,
            flush_events_now: self.flush_events_now,
        }
    }
}

/// The baseline a trace of a new request starts from: the one of the same watch at the same place,
/// if there was one.
pub open spec fn carried_trace(old_traces: Seq<TraceState>, spec_: TraceSpec) -> TraceState
    decreases old_traces.len(),
{
    if old_traces.len() == 0 {
        TraceState { spec: spec_, value: 0, decoded: None, valid: false }
    } else {
        let t = old_traces[0];
        if t.spec.id == spec_.id && t.spec.path.same(spec_.path) && t.spec.len == spec_.len {
            TraceState { spec: spec_, ..t }
        } else {
            carried_trace(old_traces.skip(1), spec_)
        }
    }
}

/// The restores a freeze of a new request starts from: those counted under its id.
pub open spec fn carried_restores(old_restores: Seq<(u32, u32)>, id: u32) -> u32
    decreases old_restores.len(),
{
    if old_restores.len() == 0 {
        0
    } else if old_restores[0].0 == id {
        old_restores[0].1
    } else {
        carried_restores(old_restores.skip(1), id)
    }
}

/// The parts of a monitor's state that most steps of a pass leave alone.
pub ghost struct Shape {
    pub request: request::RequestModel,
    pub traces: nat,
    pub windows: nat,
    pub restores: nat,
    pub ok: nat,
    pub next_sample_at: Option<u64>,
    pub pending_edits: Seq<shared::EditModel>,
    pub initialized: bool,
    pub last_frame: u64,
    pub last_epoch: u64,
}

impl LocalModel {
    /// What is kept per trace and per freeze matches the request, which is within every limit.
    pub open spec fn wf(self) -> bool {
        &&& self.request.within_limits()
        &&& self.request.windows.len() == MAX_VIEW_WINDOWS
        &&& self.sample.windows.len() == MAX_VIEW_WINDOWS
        &&& self.freeze_restores.len() == self.request.freezes.len()
        &&& self.freeze_ok.len() == self.request.freezes.len()
    }

    /// What decides whether the state is valid, and what most steps leave alone.
    pub open spec fn shape(self) -> Shape {
        Shape {
            request: self.request,
            traces: self.traces.len(),
            windows: self.sample.windows.len(),
            restores: self.freeze_restores.len(),
            ok: self.freeze_ok.len(),
            next_sample_at: self.next_sample_at,
            pending_edits: self.pending_edits,
            initialized: self.initialized,
            last_frame: self.last_frame,
            last_epoch: self.last_epoch,
        }
    }

    /// After taking over `request`: its limits enforced, baselines of unchanged traces and restore
    /// counts kept.
    #[verifier::opaque]
    pub open spec fn with_request(self, request: request::RequestModel, generation: u64) -> LocalModel {
        let r = request.clamped();
        LocalModel {
            request: r,
            seen_request_generation: generation,
            traces: Seq::new(r.traces.len(), |i: int| carried_trace(self.traces, r.traces[i])),
            freeze_restores: Seq::new(
                r.freezes.len(),
                |i: int|
                    (r.freezes[i].id, carried_restores(self.freeze_restores, r.freezes[i].id)),
            ),
            freeze_ok: Seq::new(r.freezes.len(), |i: int| true),
            ..self
        }
    }

    /// After comparing every trace with memory (only moving the baselines if not `report`).
    #[verifier::opaque]
    pub open spec fn with_traces_run(self, image: memory::MemoryImage, frame: u64, report: bool) -> LocalModel {
        let run = self.trace_run(image, frame, report);
        LocalModel {
            traces: traces_moved(self.traces, image),
            events: run.events,
            events_dropped: run.dropped,
            ..self
        }
    }

    /// What comparing every trace with memory adds up to.
    #[verifier::opaque]
    pub open spec fn trace_run(self, image: memory::MemoryImage, frame: u64, report: bool) -> TraceRun {
        let start = TraceRun {
            events: self.events,
            dropped: self.events_dropped,
            pause: false,
        };
        if report {
            traces_compared(start, self.traces, self.traces.len(), image, frame)
        } else {
            start
        }
    }
}

impl MemoryMonitorLocal {
    /// The core thread's half of `shared`. A monitor outlives the cores it is attached to; sample
    /// generations keep increasing, so the UI side, which remembers the last one it saw, takes this
    /// core's samples too.
    pub fn new(shared_half: &MemoryMonitorShared) -> (r: Self)
        ensures
            r@.wf(),
            r@ == (LocalModel {
                request: request::RequestModel::idle(),
                seen_request_generation: 0,
                seen_edits_generation: 0,
                sample: shared::SampleModel::blank(),
                sample_unpublished: false,
                next_sample_generation: shared_half@.sample_generation.wrapping_add(1),
                next_sample_at: None,
                initialized: false,
                last_frame: 0,
                last_epoch: 0,
                traces: Seq::empty(),
                freeze_restores: Seq::empty(),
                freeze_ok: Seq::empty(),
                pending_edits: Seq::empty(),
                events: Seq::empty(),
                events_dropped: 0,
                events_flush_at: None,
                flush_events_now: false,
            }),
    {
        let r = Self {
            request: MonitorRequest::default(),
            seen_request_generation: 0,
            seen_edits_generation: 0,
            sample: MonitorSample::default(),
            sample_unpublished: false,
            next_sample_generation: shared_half.sample_generation.wrapping_add(1),
            next_sample_at: None,
            initialized: false,
            last_frame: 0,
            last_epoch: 0,
            traces: Vec::new(),
            freeze_restores: Vec::new(),
            freeze_ok: Vec::new(),
            pending_edits: Vec::new(),
            events: Vec::new(),
            events_dropped: 0,
            events_flush_at: None,
            flush_events_now: false,
        };
        proof {
            reveal(request::RequestModel::within_limits);
            reveal_with_fuel(request::window_bytes, 6);
            assert(r@.pending_edits =~= Seq::empty());
            assert(r@.events =~= Seq::empty());
        }
        r
    }

    /// Take over a new request, if there is one.
    pub fn pull_request(&mut self, shared_half: &MemoryMonitorShared) -> (r: bool)
        requires
            old(self)@.wf(),
        ensures
            final(self)@.wf(),
            r == (shared_half@.request_generation != old(self)@.seen_request_generation),
            final(self)@ == (if r {
                old(self)@.with_request(shared_half@.request, shared_half@.request_generation)
            } else {
                old(self)@
            }),
    {
        let generation: u64 = shared_half.request_generation;
        if generation == self.seen_request_generation {
            return false;
        }
        let ghost before = self@;
        let mut taken = shared_half.request.duplicate();
        taken.clamp();
        let ghost r = taken@;
        proof {
            request::law_clamping(shared_half.request@);
        }
        let mut traces: Vec<TraceState> = Vec::new();
        let mut i: usize = 0;
        while i < taken.traces.len()
            invariant
                i <= taken.traces@.len() == r.traces.len(),
                taken@ == r,
                self@ == before,
                traces@ == Seq::new(
                    i as nat,
                    |k: int| carried_trace(before.traces, r.traces[k]),
                ),
            decreases taken.traces@.len() - i,
        {
            let t: TraceState = self.carry_trace(taken.traces[i]);
            traces.push(t);
            i = i + 1;
            assert(traces@ =~= Seq::new(
                i as nat,
                |k: int| carried_trace(before.traces, r.traces[k]),
            ));
        }
        let mut restores: Vec<(u32, u32)> = Vec::new();
        let mut ok: Vec<bool> = Vec::new();
        i = 0;
        while i < taken.freezes.len()
            invariant
                i <= taken.freezes@.len() == r.freezes.len(),
                taken@ == r,
                self@ == before,
                restores@ == Seq::new(
                    i as nat,
                    |k: int|
                        (
                            r.freezes[k].id,
                            carried_restores(before.freeze_restores, r.freezes[k].id),
                        ),
                ),
                ok@ == Seq::new(i as nat, |k: int| true),
            decreases taken.freezes@.len() - i,
        {
            let id: u32 = taken.freezes[i].id;
            let count: u32 = self.carry_restores(id);
            restores.push((id, count));
            ok.push(true);
            i = i + 1;
            assert(restores@ =~= Seq::new(
                i as nat,
                |k: int|
                    (r.freezes[k].id, carried_restores(before.freeze_restores, r.freezes[k].id)),
            ));
            assert(ok@ =~= Seq::new(i as nat, |k: int| true));
        }
        self.request = taken;
        self.seen_request_generation = generation;
        self.traces = traces;
        self.freeze_restores = restores;
        self.freeze_ok = ok;
        proof {
            reveal(LocalModel::with_request);
            lemma_windows_len(shared_half.request@);
            assert(self@ =~= before.with_request(shared_half@.request, generation));
        }
        true
    }

    fn carry_trace(&self, spec_: TraceSpec) -> (r: TraceState)
        ensures
            r == carried_trace(self.traces@, spec_),
    {
        let mut i: usize = 0;
        assert(self.traces@.skip(0) =~= self.traces@);
        while i < self.traces.len()
            invariant
                i <= self.traces@.len(),
                carried_trace(self.traces@, spec_) == carried_trace(
                    self.traces@.skip(i as int),
                    spec_,
                ),
            decreases self.traces@.len() - i,
        {
            let t: TraceState = self.traces[i];
            let ghost rest = self.traces@.skip(i as int);
            assert(rest[0] == t);
            if t.spec.id == spec_.id && t.spec.path.is_same(&spec_.path) && t.spec.len
                == spec_.len {
                return TraceState {
                    spec: spec_,
                    value: t.value,
                    decoded: t.decoded,
                    valid: t.valid,
                };
            }
            i = i + 1;
            assert(rest.skip(1) =~= self.traces@.skip(i as int));
        }
        TraceState { spec: spec_, value: 0, decoded: None, valid: false }
    }

    fn carry_restores(&self, id: u32) -> (r: u32)
        ensures
            r == carried_restores(self.freeze_restores@, id),
    {
        let mut i: usize = 0;
        assert(self.freeze_restores@.skip(0) =~= self.freeze_restores@);
        while i < self.freeze_restores.len()
            invariant
                i <= self.freeze_restores@.len(),
                carried_restores(self.freeze_restores@, id) == carried_restores(
                    self.freeze_restores@.skip(i as int),
                    id,
                ),
            decreases self.freeze_restores@.len() - i,
        {
            let (known, count): (u32, u32) = self.freeze_restores[i];
            let ghost rest = self.freeze_restores@.skip(i as int);
            assert(rest[0] == (known, count));
            if known == id {
                return count;
            }
            i = i + 1;
            assert(rest.skip(1) =~= self.freeze_restores@.skip(i as int));
        }
        0
    }

    /// Take over the edits that arrived, if any did.
    pub fn pull_edits(&mut self, shared_half: &mut MemoryMonitorShared) -> (r: bool)
        ensures
            r == (old(shared_half)@.edits_generation != old(self)@.seen_edits_generation),
            final(self)@ == (if r {
                LocalModel {
                    pending_edits: old(self)@.pending_edits + old(shared_half)@.edits,
                    seen_edits_generation: old(shared_half)@.edits_generation,
                    ..old(self)@
                }
            } else {
                old(self)@
            }),
            final(shared_half)@ == (if r {
                shared::SharedModel { edits: Seq::empty(), ..old(shared_half)@ }
            } else {
                old(shared_half)@
            }),
            final(shared_half).snapshots == old(shared_half).snapshots,
            final(shared_half).snapshot_pool == old(shared_half).snapshot_pool,
            old(shared_half).wf() ==> final(shared_half).wf(),
    {
        let generation: u64 = shared_half.edits_generation;
        if generation == self.seen_edits_generation {
            return false;
        }
        let ghost pending = self.pending_edits@;
        let ghost arrived = shared_half.edits@;
        self.pending_edits.append(&mut shared_half.edits);
        self.seen_edits_generation = generation;
        proof {
            assert(shared::edit_models(pending + arrived) =~= shared::edit_models(pending)
                + shared::edit_models(arrived));
            assert(shared::edit_models(shared_half.edits@) =~= Seq::empty());
        }
        true
    }

    /// Compare every trace with its baseline and move the baseline along. With `report` unset the
    /// baselines are only refreshed. Returns whether a pause condition fired.
    pub fn run_traces<M: ConsoleMemory>(&mut self, memory: &M, frame: u64, report: bool) -> (r: bool)
        ensures
            final(self)@ == old(self)@.with_traces_run(memory.image(), frame, report),
            r == old(self)@.trace_run(memory.image(), frame, report).pause,
    {
        let ghost before = self@;
        let ghost image = memory.image();
        let ghost start = TraceRun {
            events: before.events,
            dropped: before.events_dropped,
            pause: false,
        };
        let mut pause: bool = false;
        let mut index: usize = 0;
        let n: usize = self.traces.len();
        while index < n
            invariant
                index <= n == self.traces@.len() == before.traces.len(),
                image == memory.image(),
                forall|k: int| index <= k < n ==> self.traces@[k] == before.traces[k],
                forall|k: int|
                    0 <= k < index ==> self.traces@[k] == before.traces[k].moved_along(image),
                self@ == (LocalModel {
                    traces: self.traces@,
                    events: shared::event_models(self.events@),
                    events_dropped: self.events_dropped,
                    ..before
                }),
                (TraceRun {
                    events: shared::event_models(self.events@),
                    dropped: self.events_dropped,
                    pause,
                }) == (if report {
                    traces_compared(start, before.traces, index as nat, image, frame)
                } else {
                    start
                }),
            decreases n - index,
        {
            let state: TraceState = self.traces[index];
            let ghost events = self.events@;
            let found: Option<Vec<u8>> = observe(memory, state.spec);
            match found {
                None => {
                    self.traces[index] = TraceState {
                        spec: state.spec,
                        value: state.value,
                        decoded: state.decoded,
                        valid: false,
                    };
                },
                Some(bytes) => {
                    let value: u64 = values::pack_value(bytes.as_slice());
                    let decoded: Option<i64> = state.spec.decode.decode(bytes.as_slice());
                    if report && state.valid && state.value != value {
                        if self.events.len() < LOCAL_EVENT_CAPACITY {
                            self.push_event(
                                MonitorEvent::Changed {
                                    frame,
                                    id: state.spec.id,
                                    old: state.value,
                                    new: value,
                                },
                            );
                        } else {
                            self.events_dropped = self.events_dropped.saturating_add(1);
                        }
                        if let Some(condition) = state.spec.pause_when {
                            if condition.fires(state.decoded, decoded, true) {
                                pause = true;
                                self.push_event(
                                    MonitorEvent::PausedByCondition { frame, id: state.spec.id },
                                );
                            }
                        }
                    }
                    self.traces[index] = TraceState {
                        spec: state.spec,
                        value,
                        decoded,
                        valid: true,
                    };
                },
            }
            index = index + 1;
        }
        proof {
            reveal(LocalModel::with_traces_run);
            reveal(LocalModel::trace_run);
            assert(self.traces@ =~= traces_moved(before.traces, image));
        }
        pause
    }

    /// Queue an event that must not be lost to the local capacity limit (rare, user-driven ones).
    pub fn push_event(&mut self, event: MonitorEvent)
        ensures
            final(self)@ == (LocalModel { events: old(self)@.events.push(event@), ..old(self)@ }),
            final(self).traces == old(self).traces,
            final(self).events@.len() == old(self).events@.len() + 1,
    {
        self.events.push(event);
        assert(shared::event_models(self.events@) =~= old(self)@.events.push(event@));
    }
}

/// Comparing traces keeps the shape.
pub proof fn lemma_traces_keep_shape(
    m: LocalModel,
    image: memory::MemoryImage,
    frame: u64,
    report: bool,
)
    ensures
        m.with_traces_run(image, frame, report).shape() == m.shape(),
{
    reveal(LocalModel::with_traces_run);
}

/// Clamping keeps the viewer slots.
proof fn lemma_windows_len(r: request::RequestModel)
    ensures
        r.clamped().windows.len() == r.windows.len(),
{
    request::lemma_window_count(r.windows, request::MAX_VIEW_BYTES as u32);
}

/// The bytes a trace watches, if its path leads to mapped memory.
fn observe<M: ConsoleMemory>(memory: &M, spec_: TraceSpec) -> (r: Option<Vec<u8>>)
    ensures
        match observed(memory.image(), spec_) {
            Some(bytes) => r matches Some(read) && read@ == bytes,
            None => r is None,
        },
{
    match spec_.path.resolve(memory) {
        Some(address) => match memory::memory_slice(memory, address, spec_.len as usize) {
            Some(bytes) => Some(slice_to_vec(bytes)),
            None => None,
        },
        None => None,
    }
}

} // verus!
