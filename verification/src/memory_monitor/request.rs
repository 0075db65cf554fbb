//! What the UI side wants from the core thread.

use super::values;
use super::values::{AddressPath, FreezeSpec, TraceCondition, ValueDecode, MAX_VALUE_LEN};
use vstd::prelude::*;

verus! {

/// Viewer windows that can be sampled at once (one per viewer window).
pub const MAX_VIEW_WINDOWS: usize = 4;

/// Bytes sampled across all viewer windows per sample.
pub const MAX_VIEW_BYTES: usize = 16_384;

/// Scattered values (visible watch and search rows) sampled per sample.
pub const MAX_PROBES: usize = 512;

/// Watches compared every emulated frame.
pub const MAX_TRACES: usize = 64;

/// Freeze entries held at once.
pub const MAX_FREEZES: usize = 256;

/// Bytes all freeze entries may hold in total.
pub const MAX_FREEZE_BYTES: usize = 4096;

/// Shortest time between samples, in microseconds.
pub const MIN_INTERVAL_MICROS: u64 = 1000;

/// A byte range the viewer wants to see.
#[derive(Copy, Clone, Debug, PartialEq, Eq, Structural)]
pub struct ViewWindow {
    /// First address.
    pub address: u32,
    /// Bytes wanted (capped by [`MAX_VIEW_BYTES`] across all windows).
    pub len: u32,
}

impl Default for ViewWindow {
    fn default() -> (r: Self)
        ensures
            r.address == 0 && r.len == 0,
    {
        ViewWindow { address: 0, len: 0 }
    }
}

/// A value to read with every sample.
#[derive(Copy, Clone, Debug, PartialEq, Eq)]
pub struct Probe {
    /// Where the value lives.
    pub path: AddressPath,
    /// Its length in bytes (1..=[`MAX_VALUE_LEN`]).
    pub len: u8,
}

/// A watch compared every emulated frame.
#[derive(Copy, Clone, Debug, PartialEq, Eq)]
pub struct TraceSpec {
    /// The watch's id, echoed in events.
    pub id: u32,
    /// Where the value lives.
    pub path: AddressPath,
    /// Its length in bytes (1..=[`MAX_VALUE_LEN`]). Values longer than 8 bytes are compared by hash.
    pub len: u8,
    /// How to read it as a number for `pause_when`.
    pub decode: ValueDecode,
    /// Pause emulation when this is met.
    pub pause_when: Option<TraceCondition>,
}

/// Everything the UI side wants from the core thread.
#[derive(Clone, Debug)]
pub struct MonitorRequest {
    /// Whether to take samples at all (viewer windows and probes).
    pub sampling: bool,
    /// Wall-clock time between samples while emulation runs, in microseconds.
    pub interval_micros: u64,
    /// Viewer windows, by viewer slot.
    pub windows: [Option<ViewWindow>; 4],
    /// Values to read with every sample.
    pub probes: Vec<Probe>,
    /// Watches compared every frame.
    pub traces: Vec<TraceSpec>,
    /// Values held in place.
    pub freezes: Vec<FreezeSpec>,
    /// Keep freezes but do not apply them (replay playback).
    pub freezes_suspended: bool,
}

/// A request, as the contracts see it.
#[verifier::ext_equal]
pub ghost struct RequestModel {
    pub sampling: bool,
    pub interval_micros: u64,
    pub windows: Seq<Option<ViewWindow>>,
    pub probes: Seq<Probe>,
    pub traces: Seq<TraceSpec>,
    pub freezes: Seq<FreezeSpec>,
    pub freezes_suspended: bool,
}

impl View for MonitorRequest {
    type V = RequestModel;

    open spec fn view(&self) -> RequestModel {
        RequestModel {
            sampling: self.sampling,
            interval_micros: self.interval_micros,
            windows: self.windows@,
            probes: self.probes@,
            traces: self.traces@,
            freezes: self.freezes@,
            freezes_suspended: self.freezes_suspended,
        }
    }
}

/// A length brought into the range a value may have.
pub open spec fn value_len(len: u8) -> u8 {
    if len < 1 {
        1
    } else if len > MAX_VALUE_LEN {
        64
    } else {
        len
    }
}

/// Windows with their lengths cut so that they stay within `budget` bytes in all, earlier windows
/// first.
pub open spec fn clamped_windows(windows: Seq<Option<ViewWindow>>, budget: u32) -> Seq<
    Option<ViewWindow>,
>
    decreases windows.len(),
{
    if windows.len() == 0 {
        Seq::empty()
    } else {
        match windows[0] {
            None => seq![None::<ViewWindow>] + clamped_windows(windows.skip(1), budget),
            Some(window) => {
                let len = if window.len < budget {
                    window.len
                } else {
                    budget
                };
                seq![Some(ViewWindow { len, ..window })] + clamped_windows(
                    windows.skip(1),
                    (budget - len) as u32,
                )
            },
        }
    }
}

/// The bytes all windows ask for.
pub open spec fn window_bytes(windows: Seq<Option<ViewWindow>>) -> int
    decreases windows.len(),
{
    if windows.len() == 0 {
        0
    } else {
        (match windows[0] {
            Some(window) => window.len as int,
            None => 0,
        }) + window_bytes(windows.skip(1))
    }
}

/// The freezes that fit into `budget` bytes, taken in order; one that does not fit is left out.
pub open spec fn kept_freezes(freezes: Seq<FreezeSpec>, budget: int) -> Seq<FreezeSpec>
    decreases freezes.len(),
{
    if freezes.len() == 0 {
        Seq::empty()
    } else {
        let len = freezes[0].held().len();
        if len <= budget {
            seq![freezes[0]] + kept_freezes(freezes.skip(1), budget - len)
        } else {
            kept_freezes(freezes.skip(1), budget)
        }
    }
}

/// The bytes all freezes hold.
pub open spec fn freeze_bytes(freezes: Seq<FreezeSpec>) -> int
    decreases freezes.len(),
{
    if freezes.len() == 0 {
        0
    } else {
        freezes[0].held().len() + freeze_bytes(freezes.skip(1))
    }
}

/// At most the first `n` of a sequence.
pub open spec fn first_of<T>(s: Seq<T>, n: nat) -> Seq<T> {
    if s.len() <= n {
        s
    } else {
        s.take(n as int)
    }
}

impl RequestModel {
    /// A request that asks for nothing.
    pub open spec fn idle() -> RequestModel {
        RequestModel {
            sampling: false,
            interval_micros: 33_000,
            windows: seq![None, None, None, None],
            probes: Seq::empty(),
            traces: Seq::empty(),
            freezes: Seq::empty(),
            freezes_suspended: false,
        }
    }

    /// The request with every limit enforced.
    pub open spec fn clamped(self) -> RequestModel {
        RequestModel {
            windows: clamped_windows(self.windows, MAX_VIEW_BYTES as u32),
            probes: first_of(self.probes, MAX_PROBES as nat).map_values(
                |p: Probe| Probe { len: value_len(p.len), ..p },
            ),
            traces: first_of(self.traces, MAX_TRACES as nat).map_values(
                |t: TraceSpec| TraceSpec { len: value_len(t.len), ..t },
            ),
            freezes: kept_freezes(
                first_of(self.freezes, MAX_FREEZES as nat),
                MAX_FREEZE_BYTES as int,
            ),
            interval_micros: if self.interval_micros < MIN_INTERVAL_MICROS {
                MIN_INTERVAL_MICROS
            } else {
                self.interval_micros
            },
            ..self
        }
    }

    /// Whether the request is within every limit.
    #[verifier::opaque]
    pub open spec fn within_limits(self) -> bool {
        &&& window_bytes(self.windows) <= MAX_VIEW_BYTES
        &&& self.probes.len() <= MAX_PROBES
        &&& self.traces.len() <= MAX_TRACES
        &&& self.freezes.len() <= MAX_FREEZES
        &&& freeze_bytes(self.freezes) <= MAX_FREEZE_BYTES
        &&& self.interval_micros >= MIN_INTERVAL_MICROS
        &&& forall|i: int|
            0 <= i < self.probes.len() ==> 1 <= (#[trigger] self.probes[i]).len <= MAX_VALUE_LEN
        &&& forall|i: int|
            0 <= i < self.traces.len() ==> 1 <= (#[trigger] self.traces[i]).len <= MAX_VALUE_LEN
    }

    /// Whether the request needs nothing done.
    pub open spec fn wants_nothing(self) -> bool {
        !self.sampling && self.traces.len() == 0 && self.freezes.len() == 0
    }
}

proof fn lemma_clamped_windows(windows: Seq<Option<ViewWindow>>, budget: u32)
    ensures
        clamped_windows(windows, budget).len() == windows.len(),
        0 <= window_bytes(clamped_windows(windows, budget)) <= budget,
    decreases windows.len(),
{
    if windows.len() > 0 {
        let out = clamped_windows(windows, budget);
        match windows[0] {
            None => {
                lemma_clamped_windows(windows.skip(1), budget);
                assert(out.skip(1) =~= clamped_windows(windows.skip(1), budget));
            },
            Some(window) => {
                let len = if window.len < budget {
                    window.len
                } else {
                    budget
                };
                lemma_clamped_windows(windows.skip(1), (budget - len) as u32);
                assert(out.skip(1) =~= clamped_windows(windows.skip(1), (budget - len) as u32));
            },
        }
    }
}

/// Clamping keeps the number of windows.
pub proof fn lemma_window_count(windows: Seq<Option<ViewWindow>>, budget: u32)
    ensures
        clamped_windows(windows, budget).len() == windows.len(),
{
    lemma_clamped_windows(windows, budget);
}

pub proof fn lemma_windows_already_fit(windows: Seq<Option<ViewWindow>>, budget: u32)
    requires
        window_bytes(windows) <= budget,
    ensures
        clamped_windows(windows, budget) == windows,
        window_bytes(windows) >= 0,
    decreases windows.len(),
{
    if windows.len() > 0 {
        lemma_window_bytes_nonnegative(windows.skip(1));
        match windows[0] {
            None => {
                lemma_windows_already_fit(windows.skip(1), budget);
            },
            Some(window) => {
                lemma_windows_already_fit(windows.skip(1), (budget - window.len) as u32);
            },
        }
        assert(clamped_windows(windows, budget) =~= windows);
    } else {
        assert(windows =~= Seq::empty());
    }
}

proof fn lemma_window_bytes_nonnegative(windows: Seq<Option<ViewWindow>>)
    ensures
        window_bytes(windows) >= 0,
    decreases windows.len(),
{
    if windows.len() > 0 {
        lemma_window_bytes_nonnegative(windows.skip(1));
    }
}

proof fn lemma_kept_freezes(freezes: Seq<FreezeSpec>, budget: int)
    requires
        budget >= 0,
    ensures
        kept_freezes(freezes, budget).len() <= freezes.len(),
        0 <= freeze_bytes(kept_freezes(freezes, budget)) <= budget,
        kept_freezes(kept_freezes(freezes, budget), budget) == kept_freezes(freezes, budget),
    decreases freezes.len(),
{
    if freezes.len() > 0 {
        let kept = kept_freezes(freezes, budget);
        let len = freezes[0].held().len();
        if len <= budget {
            lemma_kept_freezes(freezes.skip(1), budget - len);
            assert(kept.skip(1) =~= kept_freezes(freezes.skip(1), budget - len));
            assert(kept[0] == freezes[0]);
            assert(kept_freezes(kept, budget) =~= kept);
        } else {
            lemma_kept_freezes(freezes.skip(1), budget);
        }
    }
}

/// Clamping brings any request within every limit, and leaves one that is clamped alone.
pub proof fn law_clamping(request: RequestModel)
    ensures
        request.clamped().within_limits(),
        request.clamped().clamped() == request.clamped(),
{
    reveal(RequestModel::within_limits);
    let c = request.clamped();
    lemma_clamped_windows(request.windows, MAX_VIEW_BYTES as u32);
    lemma_windows_already_fit(c.windows, MAX_VIEW_BYTES as u32);
    lemma_kept_freezes(first_of(request.freezes, MAX_FREEZES as nat), MAX_FREEZE_BYTES as int);
    assert(c.clamped().probes =~= c.probes);
    assert(c.clamped().traces =~= c.traces);
}

impl Default for MonitorRequest {
    fn default() -> (r: Self)
        ensures
            r@ == RequestModel::idle(),
    {
        let r = Self {
            sampling: false,
            interval_micros: 33_000,
            windows: [None, None, None, None],
            probes: Vec::new(),
            traces: Vec::new(),
            freezes: Vec::new(),
            freezes_suspended: false,
        };
        assert(r.windows@ =~= RequestModel::idle().windows);
        r
    }
}

fn clamp_len(len: u8) -> (r: u8)
    ensures
        r == value_len(len),
{
    if len < 1 {
        1
    } else if len as usize > MAX_VALUE_LEN {
        64
    } else {
        len
    }
}

/// `window` cut to `budget` bytes, and the budget left after it.
fn clamp_window(window: Option<ViewWindow>, budget: u32) -> (r: (Option<ViewWindow>, u32))
    ensures
        r.0 == clamped_windows(seq![window], budget)[0],
        r.1 == (match window {
            Some(w) => if w.len < budget {
                budget - w.len
            } else {
                0
            },
            None => budget as int,
        }),
{
    match window {
        None => (None, budget),
        Some(w) => {
            let len: u32 = if w.len < budget {
                w.len
            } else {
                budget
            };
            (Some(ViewWindow { address: w.address, len }), budget - len)
        },
    }
}

impl MonitorRequest {
    /// A copy of the request.
    pub fn duplicate(&self) -> (r: Self)
        ensures
            r@ == self@,
    {
        let r = Self {
            sampling: self.sampling,
            interval_micros: self.interval_micros,
            windows: self.windows,
            probes: self.probes.clone(),
            traces: self.traces.clone(),
            freezes: self.freezes.clone(),
            freezes_suspended: self.freezes_suspended,
        };
        assert(r.probes@ =~= self.probes@);
        assert(r.traces@ =~= self.traces@);
        assert(r.freezes@ =~= self.freezes@);
        r
    }

    /// Enforce the limits (lengths, counts, byte budgets). Applied by the core thread to every
    /// request it takes, so a bad request costs no more than a good one.
    pub fn clamp(&mut self)
        ensures
            final(self)@ == old(self)@.clamped(),
    {
        let ghost request = self@;
        let (w0, b0): (Option<ViewWindow>, u32) = clamp_window(
            self.windows[0],
            MAX_VIEW_BYTES as u32,
        );
        let (w1, b1): (Option<ViewWindow>, u32) = clamp_window(self.windows[1], b0);
        let (w2, b2): (Option<ViewWindow>, u32) = clamp_window(self.windows[2], b1);
        let (w3, _b3): (Option<ViewWindow>, u32) = clamp_window(self.windows[3], b2);
        proof {
            let ws = request.windows;
            reveal_with_fuel(clamped_windows, 5);
            assert(ws.skip(1)[0] == ws[1]);
            assert(ws.skip(1).skip(1)[0] == ws[2]);
            assert(ws.skip(1).skip(1).skip(1)[0] == ws[3]);
            assert(ws.skip(1).skip(1).skip(1).skip(1).len() == 0);
        }
        self.windows = [w0, w1, w2, w3];
        assert(self.windows@ =~= request.clamped().windows);
        self.probes.truncate(MAX_PROBES);
        let ghost probes = first_of(request.probes, MAX_PROBES as nat);
        assert(self.probes@ =~= probes);
        let mut i: usize = 0;
        while i < self.probes.len()
            invariant
                i <= self.probes@.len() == probes.len(),
                forall|k: int| i <= k < probes.len() ==> self.probes@[k] == probes[k],
                forall|k: int|
                    0 <= k < i ==> self.probes@[k] == (Probe {
                        len: value_len(probes[k].len),
                        ..probes[k]
                    }),
                self@ == (RequestModel {
                    windows: request.clamped().windows,
                    probes: self.probes@,
                    ..request
                }),
            decreases probes.len() - i,
        {
            let mut probe: Probe = self.probes[i];
            probe.len = clamp_len(probe.len);
            self.probes[i] = probe;
            i = i + 1;
        }
        assert(self.probes@ =~= request.clamped().probes);
        self.traces.truncate(MAX_TRACES);
        let ghost traces = first_of(request.traces, MAX_TRACES as nat);
        assert(self.traces@ =~= traces);
        i = 0;
        while i < self.traces.len()
            invariant
                i <= self.traces@.len() == traces.len(),
                forall|k: int| i <= k < traces.len() ==> self.traces@[k] == traces[k],
                forall|k: int|
                    0 <= k < i ==> self.traces@[k] == (TraceSpec {
                        len: value_len(traces[k].len),
                        ..traces[k]
                    }),
                self@ == (RequestModel {
                    windows: request.clamped().windows,
                    probes: request.clamped().probes,
                    traces: self.traces@,
                    ..request
                }),
            decreases traces.len() - i,
        {
            let mut trace: TraceSpec = self.traces[i];
            trace.len = clamp_len(trace.len);
            self.traces[i] = trace;
            i = i + 1;
        }
        assert(self.traces@ =~= request.clamped().traces);
        self.freezes.truncate(MAX_FREEZES);
        assert(self.freezes@ =~= first_of(request.freezes, MAX_FREEZES as nat));
        self.freezes = within_budget(&self.freezes);
        if self.interval_micros < MIN_INTERVAL_MICROS {
            self.interval_micros = MIN_INTERVAL_MICROS;
        }
        assert(self@ =~= request.clamped());
    }

    /// Whether this request needs the core thread to do anything at all.
    pub fn is_idle(&self) -> (r: bool)
        ensures
            r == self@.wants_nothing(),
    {
        !self.sampling && self.traces.is_empty() && self.freezes.is_empty()
    }
}

/// The freezes that fit into [`MAX_FREEZE_BYTES`], taken in order.
fn within_budget(freezes: &Vec<FreezeSpec>) -> (r: Vec<FreezeSpec>)
    ensures
        r@ == kept_freezes(freezes@, MAX_FREEZE_BYTES as int),
{
    let mut kept: Vec<FreezeSpec> = Vec::new();
    let mut budget: usize = MAX_FREEZE_BYTES;
    let mut i: usize = 0;
    let ghost whole = kept_freezes(freezes@, MAX_FREEZE_BYTES as int);
    assert(freezes@.skip(0) =~= freezes@);
    assert(kept@ + whole =~= whole);
    while i < freezes.len()
        invariant
            i <= freezes@.len(),
            budget <= MAX_FREEZE_BYTES,
            whole == kept@ + kept_freezes(freezes@.skip(i as int), budget as int),
        decreases freezes@.len() - i,
    {
        let ghost rest = freezes@.skip(i as int);
        let ghost before = kept@;
        let ghost old_budget = budget;
        let freeze: FreezeSpec = freezes[i];
        let len: usize = freeze.len();
        i = i + 1;
        assert(rest.skip(1) =~= freezes@.skip(i as int));
        if len <= budget {
            budget = budget - len;
            kept.push(freeze);
            assert(before + (seq![freeze] + kept_freezes(rest.skip(1), budget as int)) =~= kept@
                + kept_freezes(rest.skip(1), budget as int));
        }
    }
    assert(freezes@.skip(i as int) =~= Seq::empty());
    assert(kept@ + Seq::<FreezeSpec>::empty() =~= kept@);
    kept
}

} // verus!
