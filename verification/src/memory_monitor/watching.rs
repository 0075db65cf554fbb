//! What the RAM tools can rely on: that what they are shown is what memory holds, that every change
//! and every edit is told once, and that nothing is told that did not happen.

use super::local;
use super::local::{LocalModel, MonitoredCore, TraceState};
use super::request;
use super::request::{RequestModel, TraceSpec, ViewWindow};
use super::service::{Cores, Pass, Todo, Worked};
use super::service;
use super::shared;
use super::shared::{EventModel, WriteFailure};
use super::values;
use super::values::FreezeSpec;
use crate::bytes;
use crate::emulator::memory;
use vstd::prelude::*;

verus! {

// ---------------------------------------------------------------------------------------------
// Samples.

/// A sample says which frame it is of, which state, which request it answers and how often each
/// freeze had to put its value back.
pub proof fn law_a_sample_says_what_it_is_of(
    m: LocalModel,
    image: memory::MemoryImage,
    frame: u64,
    epoch: u64,
)
    ensures
        m.with_sample(image, frame, epoch).sample_unpublished,
        ({
            let sample = m.with_sample(image, frame, epoch).sample;
            &&& sample.frame == frame
            &&& sample.state_epoch == epoch
            &&& sample.request_generation == m.seen_request_generation
            &&& sample.generation == m.next_sample_generation
            &&& sample.freeze_ok == m.freeze_ok
            &&& sample.freeze_restores.len() == m.freeze_restores.len()
            &&& forall|i: int|
                0 <= i < m.freeze_restores.len() ==> #[trigger] sample.freeze_restores[i]
                    == m.freeze_restores[i].1
        }),
        m.next_sample_generation < u64::MAX ==> m.with_sample(
            image,
            frame,
            epoch,
        ).next_sample_generation == m.next_sample_generation + 1,
{
    reveal(LocalModel::sample_of);
    reveal(LocalModel::with_sample);
}

/// A watched value is the bytes at the end of its path: a probe whose path leads to `address` is
/// read if memory has its bytes there, and the sample then gives back those bytes and that address.
pub proof fn law_a_watched_value_is_read_where_its_path_leads(
    m: LocalModel,
    image: memory::MemoryImage,
    frame: u64,
    epoch: u64,
    index: int,
    address: u32,
)
    requires
        m.wf(),
        0 <= index < m.request.probes.len(),
        values::resolved(
            image,
            m.request.probes[index].path.base,
            m.request.probes[index].path.offsets(),
        ) == Some(address),
    ensures
        m.with_sample(image, frame, epoch).sample.probe(index) == image.mapped(
            address,
            m.request.probes[index].len as int,
        ),
        m.with_sample(image, frame, epoch).sample.probe_addresses[index] == address,
{
    service::law_sample_shows_memory(m, image, frame, epoch, index);
    reveal(LocalModel::sample_of);
    reveal(LocalModel::with_sample);
}

/// A viewer's window has the length asked for and starts with what memory holds there; the rest is
/// zero and is not said to be memory.
pub proof fn law_a_window_shows_memory(
    m: LocalModel,
    image: memory::MemoryImage,
    frame: u64,
    epoch: u64,
    index: int,
    window: ViewWindow,
)
    requires
        0 <= index < request::MAX_VIEW_WINDOWS,
        m.request.windows[index] == Some(window),
    ensures
        ({
            let shown = m.with_sample(image, frame, epoch).sample.windows[index];
            &&& shown.active
            &&& shown.address == window.address
            &&& shown.bytes.len() == window.len
            &&& shown.valid_len <= window.len
            &&& shown.bytes.take(shown.valid_len as int) == memory::mapped_prefix(
                image,
                window.address,
                window.len as int,
            )
            &&& forall|k: int|
                shown.valid_len <= k < window.len ==> #[trigger] shown.bytes[k] == 0
        }),
{
    reveal(LocalModel::sample_of);
    reveal(LocalModel::with_sample);
    let shown = m.with_sample(image, frame, epoch).sample.windows[index];
    let mapped = memory::mapped_prefix(image, window.address, window.len as int);
    memory::law_no_more_is_shown_than_asked_for(image, window.address, window.len as int);
    assert(shown.bytes.take(shown.valid_len as int) =~= mapped);
}

// ---------------------------------------------------------------------------------------------
// Traces.

/// Two byte strings of the same length, up to eight long, are told apart.
pub proof fn law_short_values_are_told_apart(a: Seq<u8>, b: Seq<u8>)
    requires
        a.len() == b.len() <= 8,
    ensures
        values::packed(a) == values::packed(b) <==> a == b,
{
    bytes::lemma_le_value_bound(a);
    bytes::lemma_le_value_bound(b);
    bytes::lemma_byte_ranges();
    bytes::lemma_byte_range_grows(a.len(), 8);
    lemma_le_value_injective(a, b);
}

proof fn lemma_le_value_injective(a: Seq<u8>, b: Seq<u8>)
    requires
        a.len() == b.len(),
    ensures
        bytes::le_value(a) == bytes::le_value(b) ==> a == b,
    decreases a.len(),
{
    if a.len() > 0 {
        lemma_le_value_injective(a.skip(1), b.skip(1));
        if bytes::le_value(a) == bytes::le_value(b) {
            assert(a[0] == b[0]);
            assert(a =~= seq![a[0]] + a.skip(1));
            assert(b =~= seq![b[0]] + b.skip(1));
        }
    } else {
        assert(a =~= b);
    }
}

/// A watched value that memory holds as `old_bytes` on one pass and as `new_bytes` on the next is
/// reported on the next exactly if it changed, with what it was and what it is, and asks for a
/// pause exactly if its condition is met by the change.
pub proof fn law_a_change_is_reported_once(
    run: local::TraceRun,
    trace: TraceState,
    image: memory::MemoryImage,
    next: memory::MemoryImage,
    frame: u64,
    old_bytes: Seq<u8>,
    new_bytes: Seq<u8>,
)
    requires
        local::observed(image, trace.spec) == Some(old_bytes),
        local::observed(next, trace.spec) == Some(new_bytes),
        old_bytes.len() == new_bytes.len() <= 8,
        run.events.len() < local::LOCAL_EVENT_CAPACITY,
    ensures
        ({
            let baseline = trace.moved_along(image);
            let after = local::trace_compared(run, baseline, next, frame);
            let told = after.events.skip(run.events.len() as int);
            let met = trace.spec.pause_when matches Some(condition) && condition.met(
                local::decoded_value(trace.spec.decode, old_bytes),
                local::decoded_value(trace.spec.decode, new_bytes),
                true,
            );
            &&& after.events.take(run.events.len() as int) == run.events
            &&& after.dropped == run.dropped
            &&& old_bytes == new_bytes ==> told == Seq::<EventModel>::empty() && after.pause
                == run.pause
            &&& old_bytes != new_bytes ==> {
                &&& told[0] == (EventModel::Changed {
                    frame,
                    id: trace.spec.id,
                    before: bytes::le_value(old_bytes) as u64,
                    after: bytes::le_value(new_bytes) as u64,
                })
                &&& met ==> told.len() == 2 && told[1] == (EventModel::PausedByCondition {
                    frame,
                    id: trace.spec.id,
                }) && after.pause
                &&& !met ==> told.len() == 1 && after.pause == run.pause
            }
        }),
{
    law_short_values_are_told_apart(old_bytes, new_bytes);
    let baseline = trace.moved_along(image);
    let after = local::trace_compared(run, baseline, next, frame);
    let told = after.events.skip(run.events.len() as int);
    assert(after.events.take(run.events.len() as int) =~= run.events);
    if old_bytes == new_bytes {
        assert(told =~= Seq::<EventModel>::empty());
    }
}

/// A value that cannot be read is no change, and neither is the first value read after that.
pub proof fn law_values_out_of_reach_do_not_change(
    run: local::TraceRun,
    trace: TraceState,
    image: memory::MemoryImage,
    next: memory::MemoryImage,
    frame: u64,
)
    requires
        local::observed(image, trace.spec) is None,
    ensures
        local::trace_compared(run, trace, image, frame) == run,
        local::trace_compared(run, trace.moved_along(image), next, frame) == run,
        !trace.moved_along(image).valid,
{
}

/// Where the buffer is full a change is counted as left out, and what asks for a pause is still
/// told.
pub proof fn law_changes_left_out_are_counted(
    run: local::TraceRun,
    trace: TraceState,
    image: memory::MemoryImage,
    frame: u64,
)
    requires
        trace.changed(image),
        run.events.len() >= local::LOCAL_EVENT_CAPACITY,
        run.dropped < u64::MAX,
    ensures
        ({
            let after = local::trace_compared(run, trace, image, frame);
            &&& after.dropped == run.dropped + 1
            &&& trace.pauses(image) ==> after.pause && after.events == run.events.push(
                EventModel::PausedByCondition { frame, id: trace.spec.id },
            )
            &&& !trace.pauses(image) ==> after.pause == run.pause && after.events == run.events
        }),
{
}

/// Whether emulation is paused is for the conditions alone to say: a pass asks for it exactly if it
/// sees another frame, memory was not replaced wholesale, and some trace's condition is met.
pub proof fn law_a_pass_pauses_for_a_met_condition(m: LocalModel, pass: Pass)
    ensures
        m.pauses(pass) <==> (!m.initialized || pass.frame != m.last_frame) && !(m.initialized
            && pass.epoch != m.last_epoch) && exists|i: int|
            0 <= i < m.traces.len() && (#[trigger] m.traces[i]).pauses(pass.image),
{
    reveal(LocalModel::trace_run);
    let start = local::TraceRun {
        events: m.events,
        dropped: m.events_dropped,
        pause: false,
    };
    lemma_compared_pause(start, m.traces, m.traces.len(), pass.image, pass.frame);
}

proof fn lemma_compared_pause(
    run: local::TraceRun,
    traces: Seq<TraceState>,
    n: nat,
    image: memory::MemoryImage,
    frame: u64,
)
    requires
        n <= traces.len(),
    ensures
        local::traces_compared(run, traces, n, image, frame).pause <==> run.pause || exists|i: int|
            0 <= i < n && (#[trigger] traces[i]).pauses(image),
    decreases n,
{
    if n > 0 {
        lemma_compared_pause(run, traces, (n - 1) as nat, image, frame);
        assert(traces[n - 1].pauses(image) || !traces[n - 1].pauses(image));
    }
}

/// A watch that stays in the request at the same place with the same length keeps its baseline; a
/// new one starts without any.
pub proof fn law_baselines_are_kept(old_traces: Seq<TraceState>, asked: TraceSpec, i: int)
    ensures
        (forall|j: int|
            0 <= j < old_traces.len() ==> !((#[trigger] old_traces[j]).spec.id == asked.id
                && old_traces[j].spec.path.same(asked.path) && old_traces[j].spec.len
                == asked.len)) ==> !local::carried_trace(old_traces, asked).valid,
        0 <= i < old_traces.len() && old_traces[i].spec.id == asked.id && old_traces[i].spec.path.same(
            asked.path,
        ) && old_traces[i].spec.len == asked.len && (forall|j: int|
            0 <= j < i ==> (#[trigger] old_traces[j]).spec.id != asked.id) ==> ({
            let kept = local::carried_trace(old_traces, asked);
            &&& kept.value == old_traces[i].value
            &&& kept.decoded == old_traces[i].decoded
            &&& kept.valid == old_traces[i].valid
        }),
        local::carried_trace(old_traces, asked).spec == asked,
    decreases old_traces.len(),
{
    if old_traces.len() > 0 {
        let rest = old_traces.skip(1);
        law_baselines_are_kept(rest, asked, i - 1);
        assert(forall|j: int| 0 <= j < rest.len() ==> #[trigger] rest[j] == old_traces[j + 1]);
        let first = old_traces[0];
    }
}

/// A freeze that stays in the request keeps the count of how often it put its value back; a new
/// one starts at zero.
pub proof fn law_restore_counts_are_kept(old_restores: Seq<(u32, u32)>, id: u32, i: int)
    ensures
        (forall|j: int| 0 <= j < old_restores.len() ==> (#[trigger] old_restores[j]).0 != id)
            ==> local::carried_restores(old_restores, id) == 0,
        0 <= i < old_restores.len() && old_restores[i].0 == id && (forall|j: int|
            0 <= j < i ==> (#[trigger] old_restores[j]).0 != id) ==> local::carried_restores(
            old_restores,
            id,
        ) == old_restores[i].1,
    decreases old_restores.len(),
{
    if old_restores.len() > 0 {
        let rest = old_restores.skip(1);
        law_restore_counts_are_kept(rest, id, i - 1);
        assert(forall|j: int| 0 <= j < rest.len() ==> #[trigger] rest[j] == old_restores[j + 1]);
        let first = old_restores[0];
    }
}

/// A request taken over is the one shared, within its limits, with a trace for each watch and a
/// count for each freeze.
pub proof fn law_a_new_request_is_taken_over(m: LocalModel, half: shared::SharedModel)
    ensures
        half.request_generation != m.seen_request_generation ==> {
            let after = m.pulled(half);
            &&& after.request == half.request.clamped()
            &&& after.seen_request_generation == half.request_generation
            &&& after.traces.len() == after.request.traces.len()
            &&& forall|i: int|
                0 <= i < after.traces.len() ==> (#[trigger] after.traces[i]).spec
                    == after.request.traces[i]
            &&& after.freeze_restores.len() == after.request.freezes.len()
            &&& forall|i: int|
                0 <= i < after.freeze_restores.len() ==> (#[trigger] after.freeze_restores[i]).0
                    == after.request.freezes[i].id
        },
        half.request_generation == m.seen_request_generation ==> m.pulled(half).request
            == m.request && m.pulled(half).traces == m.traces,
        half.edits_generation != m.seen_edits_generation ==> m.pulled(half).pending_edits
            == m.pending_edits + half.edits && half.without_taken_edits(m).edits.len() == 0,
        half.edits_generation == m.seen_edits_generation ==> m.pulled(half).pending_edits
            == m.pending_edits && half.without_taken_edits(m).edits == half.edits,
{
    reveal(LocalModel::pulled);
    reveal(LocalModel::with_request);
    reveal(shared::SharedModel::without_taken_edits);
    if half.request_generation != m.seen_request_generation {
        let after = m.pulled(half);
        assert forall|i: int| 0 <= i < after.traces.len() implies (#[trigger] after.traces[i]).spec
            == after.request.traces[i] by {
            law_baselines_are_kept(m.traces, after.request.traces[i], 0);
        }
    }
}

/// Taking a request over changes nothing of one that keeps the limits: lengths, order and places
/// stay as they were asked for.
pub proof fn law_requests_within_limits_stay(r: RequestModel)
    requires
        r.within_limits(),
    ensures
        r.clamped() == r,
{
    reveal(RequestModel::within_limits);
    request::lemma_windows_already_fit(r.windows, request::MAX_VIEW_BYTES as u32);
    lemma_all_kept(r.freezes, request::MAX_FREEZE_BYTES as int);
    assert(r.clamped().probes =~= r.probes);
    assert(r.clamped().traces =~= r.traces);
}

proof fn lemma_all_kept(freezes: Seq<FreezeSpec>, budget: int)
    requires
        request::freeze_bytes(freezes) <= budget,
    ensures
        request::kept_freezes(freezes, budget) == freezes,
    decreases freezes.len(),
{
    if freezes.len() > 0 {
        lemma_freeze_bytes_counted(freezes.skip(1));
        lemma_all_kept(freezes.skip(1), budget - freezes[0].held().len());
        assert(request::kept_freezes(freezes, budget) =~= freezes);
    } else {
        assert(request::kept_freezes(freezes, budget) =~= freezes);
    }
}

proof fn lemma_freeze_bytes_counted(freezes: Seq<FreezeSpec>)
    ensures
        request::freeze_bytes(freezes) >= 0,
    decreases freezes.len(),
{
    if freezes.len() > 0 {
        lemma_freeze_bytes_counted(freezes.skip(1));
    }
}

// ---------------------------------------------------------------------------------------------
// Freezes and edits.

/// Freezes are held on every new frame and whenever the request changed, but never while a replay
/// plays back and never while they are suspended.
pub proof fn law_when_freezes_are_held(m: LocalModel, pass: Pass, request_changed: bool)
    ensures
        m.applies_freezes(pass, request_changed) ==> !pass.playing_back
            && !m.request.freezes_suspended && m.request.freezes.len() > 0,
        !pass.playing_back && !m.request.freezes_suspended && m.request.freezes.len() > 0 && (
        request_changed || !m.initialized || pass.frame != m.last_frame || pass.epoch
            != m.last_epoch) ==> m.applies_freezes(pass, request_changed),
        !request_changed && m.initialized && pass.frame == m.last_frame && pass.epoch
            == m.last_epoch ==> !m.applies_freezes(pass, request_changed),
{
}

/// A freeze puts exactly its bytes at the end of its path, if a region that may be written has room
/// for them there, and otherwise leaves the core alone. Every time it wrote is counted.
pub proof fn law_a_freeze_puts_its_value_back<C: MonitoredCore>(
    m: LocalModel,
    turns: Seq<local::FreezeTurn>,
    cores: Seq<C>,
    i: int,
    address: u32,
    region: int,
)
    requires
        local::freeze_turns_fit(m.request.freezes, turns, cores),
        m.wf(),
        0 <= i < turns.len(),
        values::resolved(
            cores[i].image(),
            m.request.freezes[i].path.base,
            m.request.freezes[i].path.offsets(),
        ) == Some(address),
        memory::located(
            cores[i].image().regions,
            address,
            m.request.freezes[i].held().len() as int,
        ) matches Some((r, _)) && r == region,
    ensures
        cores[i].image().regions[region].writable ==> {
            &&& cores[i].wrote_if_changed(
                &cores[i + 1],
                address,
                m.request.freezes[i].held(),
                turns[i].wrote,
            )
            &&& m.with_freezes(turns).freeze_ok[i]
        },
        !cores[i].image().regions[region].writable ==> {
            &&& cores[i + 1] == cores[i]
            &&& !m.with_freezes(turns).freeze_ok[i]
            &&& m.with_freezes(turns).freeze_restores[i] == m.freeze_restores[i]
        },
        m.with_freezes(turns).freeze_restores[i].0 == m.freeze_restores[i].0,
        turns[i].wrote && m.freeze_restores[i].1 < u32::MAX ==> m.with_freezes(
            turns,
        ).freeze_restores[i].1 == m.freeze_restores[i].1 + 1,
        !turns[i].wrote ==> m.with_freezes(turns).freeze_restores[i].1 == m.freeze_restores[i].1,
{
    reveal(local::freeze_turns_fit);
    reveal(LocalModel::with_freezes);
    let turn = turns[i];
    assert(local::freeze_turn_fits(m.request.freezes[i], turn, cores[i], cores[i + 1]));
}

/// Every edit is answered by one event, in the order the edits came in, right away, and none is
/// left.
pub proof fn law_every_edit_is_answered(
    m: LocalModel,
    turns: Seq<local::EditTurn>,
    frame: u64,
    playing_back: bool,
    i: int,
)
    requires
        turns.len() == m.pending_edits.len(),
        0 <= i < m.pending_edits.len(),
    ensures
        ({
            let after = m.with_edits(turns, frame, playing_back);
            &&& after.pending_edits.len() == 0
            &&& after.flush_events_now
            &&& after.events.len() == m.events.len() + m.pending_edits.len()
            &&& after.events.take(m.events.len() as int) == m.events
            &&& match after.events[m.events.len() + i] {
                EventModel::Written { frame: f, edit_id, after: put, .. } => f == frame && edit_id
                    == m.pending_edits[i].edit_id && put == m.pending_edits[i].data,
                EventModel::WriteFailed { edit_id, .. } => edit_id == m.pending_edits[i].edit_id,
                _ => false,
            }
        }),
{
    reveal(LocalModel::with_edits);
    let after = m.with_edits(turns, frame, playing_back);
    assert(after.events.take(m.events.len() as int) =~= m.events);
}

/// An edit that is answered as written went to the end of its path, into a region that may be
/// written, and the answer tells the bytes that were there. If those are the edit's own bytes
/// nothing was written; otherwise the core took them.
pub proof fn law_a_written_edit<C: MonitoredCore>(
    edit: shared::EditModel,
    turn: local::EditTurn,
    core: C,
    after: C,
    frame: u64,
    playing_back: bool,
)
    requires
        local::edit_turn_fits(edit, turn, core, after, playing_back),
    ensures
        local::edit_event(turn, edit, frame, playing_back) matches EventModel::Written {
            address,
            before,
            ..
        } ==> {
            &&& !playing_back
            &&& 1 <= edit.data.len() <= shared::MAX_EDIT_LEN
            &&& values::resolved(core.image(), edit.path.base, edit.path.offsets()) == Some(address)
            &&& core.image().mapped(address, edit.data.len() as int) == Some(before)
            &&& before == edit.data ==> after == core
            &&& before != edit.data ==> core.wrote(&after, address, edit.data, true)
        },
{
}

/// Why an edit is refused: while a replay plays back; with no bytes or too many; with a pointer on
/// its path that is not in memory; at an address no region has; in a region that may not be
/// written; in this order.
pub proof fn law_why_edits_are_refused(
    image: memory::MemoryImage,
    edit: shared::EditModel,
    playing_back: bool,
)
    ensures
        playing_back ==> local::edit_plan(image, edit, playing_back) == Err::<(u32, Seq<u8>), _>(
            WriteFailure::Playback,
        ),
        !playing_back && (edit.data.len() == 0 || edit.data.len() > shared::MAX_EDIT_LEN)
            ==> local::edit_plan(image, edit, playing_back) == Err::<(u32, Seq<u8>), _>(
            WriteFailure::BadLength,
        ),
        !playing_back && 1 <= edit.data.len() <= shared::MAX_EDIT_LEN ==> match values::resolved(
            image,
            edit.path.base,
            edit.path.offsets(),
        ) {
            None => local::edit_plan(image, edit, playing_back) == Err::<(u32, Seq<u8>), _>(
                WriteFailure::PointerInvalid,
            ),
            Some(address) => match memory::located(image.regions, address, edit.data.len() as int) {
                None => local::edit_plan(image, edit, playing_back) == Err::<(u32, Seq<u8>), _>(
                    WriteFailure::Unmapped,
                ),
                Some((region, _)) => {
                    &&& !image.regions[region as int].writable ==> local::edit_plan(
                        image,
                        edit,
                        playing_back,
                    ) == Err::<(u32, Seq<u8>), _>(WriteFailure::ReadOnly)
                    &&& image.regions[region as int].writable ==> (local::edit_plan(
                        image,
                        edit,
                        playing_back,
                    ) is Ok <==> image.mapped(address, edit.data.len() as int) is Some)
                },
            },
        },
{
}

/// What the tools wrote is not reported as a change: after a pass that wrote, a look at the memory
/// it left finds every trace as it is.
pub proof fn law_the_tools_own_writes_are_no_change(
    m: LocalModel,
    pass: Pass,
    run: local::TraceRun,
    frame: u64,
)
    requires
        m.edits_applied(pass) || local::any_freeze_wrote(pass.frozen, pass.frozen.len()),
    ensures
        local::traces_compared(
            run,
            m.written(pass).traces,
            m.written(pass).traces.len(),
            pass.after,
            frame,
        ) == run,
{
    reveal(LocalModel::written);
    reveal(LocalModel::looked);
    reveal(LocalModel::with_traces_run);
    reveal(LocalModel::with_freezes);
    reveal(LocalModel::with_edits);
    if m.traces.len() > 0 {
        let wrote = m.traced(pass).with_freezes(pass.frozen).with_edits(
            pass.edited,
            pass.frame,
            pass.playing_back,
        );
        assert(m.written(pass).traces == local::traces_moved(wrote.traces, pass.after));
        service::law_baselines_are_no_change(
            run,
            wrote.traces,
            wrote.traces.len(),
            pass.after,
            frame,
        );
    }
}

// ---------------------------------------------------------------------------------------------
// A pass as a whole.

/// When a sample is taken: at once when the request changed, edits came in or one was applied; on a
/// new frame if emulation is paused or the interval is over; never unless samples are asked for.
/// The next one is due an interval later.
pub proof fn law_when_samples_are_taken<C: MonitoredCore>(
    pass: Pass,
    cores: Cores<C>,
    before: LocalModel,
    after: LocalModel,
    core_before: C,
    core_after: C,
    todo: Todo,
    r: Worked,
)
    requires
        service::worked_on(pass, cores, before, after, core_before, core_after, todo, r),
        before.next_sample_generation < u64::MAX,
        todo.now + before.request.interval_micros <= u64::MAX,
    ensures
        ({
            let new_frame = !before.initialized || core_seen_frame(cores) != before.last_frame
                || cores.seen().epoch() != before.last_epoch;
            let taken = after.next_sample_generation == before.next_sample_generation + 1;
            &&& taken || after.next_sample_generation == before.next_sample_generation
            &&& !before.request.sampling ==> !taken
            &&& before.request.sampling && (todo.request_changed || todo.edits_arrived) ==> taken
            &&& before.request.sampling && new_frame && (!todo.running || before.next_sample_at
                is None || before.next_sample_at->0 <= todo.now) ==> taken
            &&& !new_frame && !todo.request_changed && !todo.edits_arrived
                && before.pending_edits.len() == 0 ==> !taken
            &&& taken ==> after.next_sample_at == Some(
                (todo.now + before.request.interval_micros) as u64,
            )
            &&& taken ==> after.sample.frame == core_seen_frame(cores)
            &&& r.new_frame == new_frame
            &&& after.last_frame == core_seen_frame(cores)
            &&& after.last_epoch == cores.seen().epoch()
            &&& after.initialized
        }),
{
    reveal(service::worked_on);
    reveal(LocalModel::fits);
    reveal(LocalModel::worked);
    reveal(LocalModel::ended);
    reveal(LocalModel::with_sample);
    reveal(LocalModel::sample_of);
    reveal(LocalModel::written);
    reveal(LocalModel::looked);
    reveal(LocalModel::with_traces_run);
    reveal(LocalModel::with_freezes);
    reveal(LocalModel::with_edits);
    let written = before.written(pass);
    assert(written.next_sample_generation == before.next_sample_generation);
    assert(written.request == before.request);
    if before.pending_edits.len() == 0 {
        assert(pass.edited.len() == 0);
        assert(!before.edits_applied(pass));
    }
}

/// The frame a pass saw.
pub open spec fn core_seen_frame<C: MonitoredCore>(cores: Cores<C>) -> u64 {
    cores.seen().frame_count()
}

/// No event is lost without being counted: those kept for the tools, and those counted as left out,
/// are together those that were there and those handed over. The newest are kept, in order.
pub proof fn law_events_are_kept_or_counted(
    half: shared::SharedModel,
    m: LocalModel,
    image: memory::MemoryImage,
    new_frame: bool,
    now: u64,
)
    requires
        m.flushes(new_frame, now),
        half.events.len() <= shared::EVENT_RING_CAPACITY,
        half.dropped + half.events.len() + m.events.len() + m.events_dropped <= u64::MAX,
    ensures
        ({
            let after = half.published_from(m, image, new_frame, now);
            &&& after.events.len() + after.dropped == half.events.len() + half.dropped
                + m.events.len() + m.events_dropped
            &&& after.events == (half.events + m.events).skip(
                half.events.len() + m.events.len() - after.events.len(),
            )
            &&& after.events.len() <= shared::EVENT_RING_CAPACITY
            &&& half.events.len() + m.events.len() <= shared::EVENT_RING_CAPACITY ==> after.dropped
                == half.dropped + m.events_dropped
            &&& m.published(half, new_frame, now).events.len() == 0
            &&& m.published(half, new_frame, now).events_dropped == 0
            &&& !m.published(half, new_frame, now).flush_events_now
        }),
{
    reveal(shared::SharedModel::published_from);
    reveal(LocalModel::published);
    let after = half.published_from(m, image, new_frame, now);
    let all = half.events + m.events;
    assert(all.skip(0) =~= all);
    assert(after.events =~= all.skip(all.len() - after.events.len()));
}

/// Events wait for a new frame and for the interval, unless an edit waits for its answer; then they
/// go at once.
pub proof fn law_answers_do_not_wait(m: LocalModel, new_frame: bool, now: u64)
    ensures
        m.flush_events_now && m.events.len() > 0 ==> m.flushes(new_frame, now),
        !m.flush_events_now && !new_frame ==> !m.flushes(new_frame, now),
        !m.flush_events_now && (m.events_flush_at matches Some(at) && now < at) ==> !m.flushes(
            new_frame,
            now,
        ),
        new_frame && m.events.len() > 0 && (m.events_flush_at is None || m.events_flush_at->0
            <= now) ==> m.flushes(new_frame, now),
{
}

/// A sample that was taken is handed over with its number, and no other is.
pub proof fn law_samples_are_handed_over(
    half: shared::SharedModel,
    m: LocalModel,
    image: memory::MemoryImage,
    new_frame: bool,
    now: u64,
)
    ensures
        m.sample_unpublished ==> half.published_from(m, image, new_frame, now).sample == m.sample
            && half.published_from(m, image, new_frame, now).sample_generation
            == m.sample.generation,
        !m.sample_unpublished ==> half.published_from(m, image, new_frame, now).sample
            == half.sample && half.published_from(m, image, new_frame, now).sample_generation
            == half.sample_generation,
        !m.published(half, new_frame, now).sample_unpublished,
{
    reveal(shared::SharedModel::published_from);
    reveal(LocalModel::published);
}

/// A snapshot has every region at its place: a byte of memory that a region has stands in the
/// snapshot at the region's offset plus its distance from the region's start, and the offsets are
/// the lengths of the regions before, added up.
pub proof fn law_a_snapshot_holds_all_of_memory(
    snapshot: shared::FullSnapshot,
    image: memory::MemoryImage,
    job_id: u64,
    frame: u64,
    epoch: u64,
    r: int,
    k: int,
)
    requires
        service::snapshot_shows(snapshot, image, job_id, frame, epoch),
        0 <= r < image.regions.len(),
        0 <= k < image.regions[r].len,
    ensures
        snapshot.job_id == job_id,
        snapshot.frame == frame,
        snapshot.state_epoch == epoch,
        snapshot.regions@[r].info == image.regions[r],
        r == 0 ==> snapshot.regions@[r].offset == 0,
        r > 0 ==> snapshot.regions@[r].offset == snapshot.regions@[r - 1].offset
            + image.regions[r - 1].len,
        image.region_data(r) matches Some(data) ==> (if k < data.len() {
            k < snapshot.regions@[r].available && snapshot.bytes@[snapshot.regions@[r].offset + k]
                == data[k]
        } else {
            k >= snapshot.regions@[r].available && snapshot.bytes@[snapshot.regions@[r].offset + k]
                == 0
        }),
        image.region_data(r) is None ==> snapshot.regions@[r].available == 0,
{
    service::law_snapshot_layout(image, r as nat, image.regions.len());
    let start = service::regions_len(image.regions, r as nat);
    let end = start + image.regions[r].len;
    let all = service::regions_copy(image, image.regions.len());
    assert(all.subrange(start, end)[k] == all[start + k]);
    let here = snapshot.regions@[r];
    if r > 0 {
        let there = snapshot.regions@[r - 1];
        assert(service::regions_len(image.regions, r as nat) == service::regions_len(
            image.regions,
            (r - 1) as nat,
        ) + image.regions[r - 1].len);
    }
}

/// There is work for a request as soon as it samples, traces or freezes anything, and only then:
/// windows and probes are read by samples alone.
pub proof fn law_when_there_is_nothing_to_do(r: RequestModel, trace: TraceSpec)
    ensures
        RequestModel::idle().wants_nothing(),
        !(RequestModel { sampling: true, ..r }).wants_nothing(),
        !(RequestModel { traces: r.traces.push(trace), ..r }).wants_nothing(),
        r.freezes.len() > 0 ==> !r.wants_nothing(),
        r.wants_nothing() ==> (RequestModel {
            windows: RequestModel::idle().windows,
            probes: Seq::empty(),
            interval_micros: RequestModel::idle().interval_micros,
            freezes_suspended: false,
            ..r
        }) == RequestModel::idle(),
{
    if r.wants_nothing() {
        assert(r.traces =~= Seq::empty());
        assert(r.freezes =~= Seq::empty());
    }
}

/// Before the first sample there is nothing to show: no window is active and no value was read.
pub proof fn law_nothing_is_shown_before_the_first_sample(index: int)
    ensures
        shared::SampleModel::blank().generation == 0,
        shared::SampleModel::blank().frame == 0,
        shared::SampleModel::blank().probe(index) is None,
        0 <= index < shared::SampleModel::blank().windows.len() ==> {
            let window = shared::SampleModel::blank().windows[index];
            !window.active && window.bytes.len() == 0 && window.valid_len == 0
        },
        shared::SampleModel::blank().windows.len() == RequestModel::idle().windows.len(),
        shared::SampleModel::blank().freeze_ok.len() == 0,
{
}

} // verus!
