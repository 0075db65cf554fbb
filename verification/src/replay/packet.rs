//! The events a session is made of, in the order they happened.

use vstd::prelude::*;

verus! {

/// A game speed, in 256ths of the console's own.
#[derive(Copy, Clone, Debug, PartialEq, Eq, Structural)]
pub struct Speed {
    pub units: u32,
}

/// The console's own speed.
pub const NORMAL_SPEED: u32 = 256;

impl Default for Speed {
    fn default() -> (r: Self)
        ensures
            r.units == NORMAL_SPEED,
    {
        Speed { units: NORMAL_SPEED }
    }
}

/// Frames over which one is drawn at a speed: all of them below twice the console's own, from
/// there on one in as many as the console runs in the time of one.
pub open spec fn drawn_every(speed: Speed) -> u64 {
    let whole = speed.units / NORMAL_SPEED;
    if whole < 2 {
        1
    } else {
        whole as u64
    }
}

impl Speed {
    /// Whether this is the console's own speed.
    pub fn is_normal(&self) -> (r: bool)
        ensures
            r == (self.units == NORMAL_SPEED),
    {
        self.units == NORMAL_SPEED
    }

    /// Frames over which one is drawn.
    pub fn present_every(&self) -> (r: u64)
        ensures
            r == drawn_every(*self),
            r >= 1,
    {
        let whole: u64 = (self.units / NORMAL_SPEED) as u64;
        if whole < 2 {
            1
        } else {
            whole
        }
    }
}

/// A named count a session keeps.
#[derive(Clone, Debug)]
pub struct Counter {
    pub name: String,
    pub value: i64,
}

/// A counter, as the contracts see it.
pub ghost struct CounterModel {
    pub name: Seq<char>,
    pub value: i64,
}

impl View for Counter {
    type V = CounterModel;

    open spec fn view(&self) -> CounterModel {
        CounterModel { name: self.name@, value: self.value }
    }
}

/// Counters, as the contracts see them.
pub open spec fn counter_models(counters: Seq<Counter>) -> Seq<CounterModel> {
    Seq::new(counters.len(), |i: int| counters[i]@)
}

/// Where the counter of that name is at or after `from`, if there is one.
pub open spec fn counter_index_from(counters: Seq<CounterModel>, from: nat, name: Seq<char>) -> Option<
    nat,
>
    decreases counters.len() - from,
{
    if from >= counters.len() {
        None
    } else if counters[from as int].name == name {
        Some(from)
    } else {
        counter_index_from(counters, from + 1, name)
    }
}

/// Where the counter of that name is, if there is one.
pub open spec fn counter_index(counters: Seq<CounterModel>, name: Seq<char>) -> Option<nat> {
    counter_index_from(counters, 0, name)
}

/// The counter's value; one that was never changed is 0.
pub open spec fn counter_value(counters: Seq<CounterModel>, name: Seq<char>) -> i64 {
    match counter_index(counters, name) {
        Some(i) => counters[i as int].value,
        None => 0,
    }
}

/// The counters after one changed: it is added if it was not there.
pub open spec fn counter_changed(counters: Seq<CounterModel>, name: Seq<char>, delta: i64) -> Seq<
    CounterModel,
> {
    match counter_index(counters, name) {
        Some(i) => counters.update(
            i as int,
            CounterModel { name, value: counters[i as int].value.wrapping_add(delta) },
        ),
        None => counters.push(CounterModel { name, value: delta }),
    }
}

/// What is found is where it was found.
pub proof fn lemma_counter_index(counters: Seq<CounterModel>, from: nat, name: Seq<char>)
    ensures
        match counter_index_from(counters, from, name) {
            Some(i) => from <= i < counters.len() && counters[i as int].name == name && forall|
                k: int,
            |
                from <= k < i ==> (#[trigger] counters[k]).name != name,
            None => forall|k: int|
                from <= k < counters.len() ==> (#[trigger] counters[k]).name != name,
        },
    decreases counters.len() - from,
{
    if from < counters.len() && counters[from as int].name != name {
        lemma_counter_index(counters, from + 1, name);
    }
}

/// A counter that is first at `i` is found there.
pub proof fn lemma_counter_found(counters: Seq<CounterModel>, from: nat, i: nat, name: Seq<char>)
    requires
        from <= i < counters.len(),
        counters[i as int].name == name,
        forall|k: int| from <= k < i ==> (#[trigger] counters[k]).name != name,
    ensures
        counter_index_from(counters, from, name) == Some(i),
    decreases i - from,
{
    if from < i {
        lemma_counter_found(counters, from + 1, i, name);
    }
}

/// Changing a counter adds to its value and leaves the others alone.
pub proof fn law_counters(counters: Seq<CounterModel>, name: Seq<char>, delta: i64, other: Seq<char>)
    requires
        other != name,
    ensures
        counter_value(counter_changed(counters, name, delta), name) == counter_value(
            counters,
            name,
        ).wrapping_add(delta),
        counter_value(counter_changed(counters, name, delta), other) == counter_value(
            counters,
            other,
        ),
{
    let after = counter_changed(counters, name, delta);
    lemma_counter_index(counters, 0, name);
    lemma_counter_index(counters, 0, other);
    match counter_index(counters, name) {
        Some(i) => {
            lemma_counter_found(after, 0, i, name);
        },
        None => {
            lemma_counter_found(after, 0, counters.len(), name);
        },
    }
    match counter_index(counters, other) {
        Some(i) => {
            assert forall|k: int| 0 <= k < i implies (#[trigger] after[k]).name != other by {
                assert(counters[k].name != other);
            }
            lemma_counter_found(after, 0, i, other);
        },
        None => {
            lemma_counter_index(after, 0, other);
            assert forall|k: int| 0 <= k < after.len() implies (#[trigger] after[k]).name
                != other by {
                if k < counters.len() {
                    assert(counters[k].name != other);
                }
            }
        },
    }
}

/// Add `delta` to the counter of that name.
pub fn change_counter(counters: &mut Vec<Counter>, name: &String, delta: i64)
    ensures
        counter_models(final(counters)@) == counter_changed(
            counter_models(old(counters)@),
            name@,
            delta,
        ),
{
    let ghost before = counter_models(counters@);
    let mut i: usize = 0;
    while i < counters.len()
        invariant
            i <= counters@.len(),
            counter_models(counters@) == before,
            before == counter_models(old(counters)@),
            forall|k: int| 0 <= k < i ==> (#[trigger] before[k]).name != name@,
        decreases counters@.len() - i,
    {
        assert(before[i as int] == counters@[i as int]@);
        if counters[i].name == *name {
            let value: i64 = counters[i].value.wrapping_add(delta);
            proof {
                lemma_counter_found(before, 0, i as nat, name@);
            }
            counters[i] = Counter { name: name.clone(), value };
            assert(counter_models(counters@) =~= counter_changed(before, name@, delta));
            return;
        }
        i = i + 1;
    }
    proof {
        lemma_counter_index(before, 0, name@);
    }
    counters.push(Counter { name: name.clone(), value: delta });
    assert(counter_models(counters@) =~= counter_changed(before, name@, delta));
}

/// The value of the counter of that name; one that was never changed is 0.
pub fn value_of(counters: &Vec<Counter>, name: &String) -> (r: i64)
    ensures
        r == counter_value(counter_models(counters@), name@),
{
    let ghost models = counter_models(counters@);
    let mut i: usize = 0;
    while i < counters.len()
        invariant
            i <= counters@.len(),
            counter_models(counters@) == models,
            forall|k: int| 0 <= k < i ==> (#[trigger] models[k]).name != name@,
        decreases counters@.len() - i,
    {
        assert(models[i as int] == counters@[i as int]@);
        if counters[i].name == *name {
            proof {
                lemma_counter_found(models, 0, i as nat, name@);
            }
            return counters[i].value;
        }
        i = i + 1;
    }
    proof {
        lemma_counter_index(models, 0, name@);
    }
    0
}

/// A copy of counters.
pub fn copy_counters(counters: &Vec<Counter>) -> (r: Vec<Counter>)
    ensures
        counter_models(r@) == counter_models(counters@),
{
    let mut r: Vec<Counter> = Vec::new();
    let mut i: usize = 0;
    while i < counters.len()
        invariant
            i == r@.len() <= counters@.len(),
            forall|k: int| 0 <= k < i ==> (#[trigger] r@[k])@ == counters@[k]@,
        decreases counters@.len() - i,
    {
        r.push(Counter { name: counters[i].name.clone(), value: counters[i].value });
        i = i + 1;
    }
    assert(counter_models(r@) =~= counter_models(counters@));
    r
}

/// A copy of bytes.
pub fn copy_bytes(bytes: &Vec<u8>) -> (r: Vec<u8>)
    ensures
        r@ == bytes@,
{
    let mut r: Vec<u8> = Vec::new();
    r.extend_from_slice(bytes.as_slice());
    assert(r@ =~= bytes@);
    r
}

/// What goes with a complete state: where in the session it is and what was in effect there.
#[derive(Clone, Debug)]
pub struct KeyframeMetadata {
    /// The input held, as the console encodes it.
    pub input: Vec<u8>,
    /// The game speed.
    pub speed: Speed,
    /// Frames emulated.
    pub elapsed_frames: u64,
    /// Time passed, in milliseconds.
    pub elapsed_millis: u64,
    /// The counters.
    pub counters: Vec<Counter>,
}

/// A keyframe's metadata, as the contracts see it.
pub ghost struct KeyframeModel {
    pub input: Seq<u8>,
    pub speed: Speed,
    pub elapsed_frames: u64,
    pub elapsed_millis: u64,
    pub counters: Seq<CounterModel>,
}

impl View for KeyframeMetadata {
    type V = KeyframeModel;

    open spec fn view(&self) -> KeyframeModel {
        KeyframeModel {
            input: self.input@,
            speed: self.speed,
            elapsed_frames: self.elapsed_frames,
            elapsed_millis: self.elapsed_millis,
            counters: counter_models(self.counters@),
        }
    }
}

impl Default for KeyframeMetadata {
    fn default() -> (r: Self)
        ensures
            r.input@.len() == 0,
            r.speed.units == NORMAL_SPEED,
            r.elapsed_frames == 0,
            r.elapsed_millis == 0,
            r.counters@.len() == 0,
    {
        KeyframeMetadata {
            input: Vec::new(),
            speed: Speed::default(),
            elapsed_frames: 0,
            elapsed_millis: 0,
            counters: Vec::new(),
        }
    }
}

/// One event of a session.
#[derive(Clone, Debug)]
pub enum Packet {
    /// Nothing.
    NoOp,
    /// A frame ran, this many milliseconds after the one before it.
    NextFrame { timestamp_delta: u64 },
    /// Memory was written from outside.
    WriteMemory { address: u64, data: Vec<u8> },
    /// The input changed.
    ChangeInput { data: Vec<u8> },
    /// The speed changed.
    ChangeSpeed { speed: Speed },
    /// The console was hard reset.
    ResetConsole,
    /// A save state was loaded.
    LoadSaveState { state: Vec<u8> },
    /// A mark for the user, or the table of all of them.
    Bookmark,
    /// The complete state at a frame boundary.
    Keyframe { metadata: KeyframeMetadata, state: Vec<u8> },
    /// A counter changed.
    IncrementCounter { name: String, delta: i64 },
    /// What the console received over its link cable during the frame about to run.
    SerialIn { data: Vec<u8> },
}

/// An event, as the contracts see it.
pub ghost enum PacketModel {
    NoOp,
    NextFrame { timestamp_delta: u64 },
    WriteMemory { address: u64, data: Seq<u8> },
    ChangeInput { data: Seq<u8> },
    ChangeSpeed { speed: Speed },
    ResetConsole,
    LoadSaveState { state: Seq<u8> },
    Bookmark,
    Keyframe { metadata: KeyframeModel, state: Seq<u8> },
    IncrementCounter { name: Seq<char>, delta: i64 },
    SerialIn { data: Seq<u8> },
}

impl View for Packet {
    type V = PacketModel;

    open spec fn view(&self) -> PacketModel {
        match *self {
            Packet::NoOp => PacketModel::NoOp,
            Packet::NextFrame { timestamp_delta } => PacketModel::NextFrame { timestamp_delta },
            Packet::WriteMemory { address, data } => PacketModel::WriteMemory {
                address,
                data: data@,
            },
            Packet::ChangeInput { data } => PacketModel::ChangeInput { data: data@ },
            Packet::ChangeSpeed { speed } => PacketModel::ChangeSpeed { speed },
            Packet::ResetConsole => PacketModel::ResetConsole,
            Packet::LoadSaveState { state } => PacketModel::LoadSaveState { state: state@ },
            Packet::Bookmark => PacketModel::Bookmark,
            Packet::Keyframe { metadata, state } => PacketModel::Keyframe {
                metadata: metadata@,
                state: state@,
            },
            Packet::IncrementCounter { name, delta } => PacketModel::IncrementCounter {
                name: name@,
                delta,
            },
            Packet::SerialIn { data } => PacketModel::SerialIn { data: data@ },
        }
    }
}

/// Events, as the contracts see them.
pub open spec fn packet_models(packets: Seq<Packet>) -> Seq<PacketModel> {
    Seq::new(packets.len(), |i: int| packets[i]@)
}

impl Packet {
    /// A copy of the event.
    pub fn duplicate(&self) -> (r: Packet)
        ensures
            r@ == self@,
    {
        match self {
            Packet::NoOp => Packet::NoOp,
            Packet::NextFrame { timestamp_delta } => Packet::NextFrame {
                timestamp_delta: *timestamp_delta,
            },
            Packet::WriteMemory { address, data } => Packet::WriteMemory {
                address: *address,
                data: copy_bytes(data),
            },
            Packet::ChangeInput { data } => Packet::ChangeInput { data: copy_bytes(data) },
            Packet::ChangeSpeed { speed } => Packet::ChangeSpeed { speed: *speed },
            Packet::ResetConsole => Packet::ResetConsole,
            Packet::LoadSaveState { state } => Packet::LoadSaveState { state: copy_bytes(state) },
            Packet::Bookmark => Packet::Bookmark,
            Packet::Keyframe { metadata, state } => Packet::Keyframe {
                metadata: metadata.duplicate(),
                state: copy_bytes(state),
            },
            Packet::IncrementCounter { name, delta } => Packet::IncrementCounter {
                name: name.clone(),
                delta: *delta,
            },
            Packet::SerialIn { data } => Packet::SerialIn { data: copy_bytes(data) },
        }
    }
}

impl KeyframeMetadata {
    /// A copy of the metadata.
    pub fn duplicate(&self) -> (r: KeyframeMetadata)
        ensures
            r@ == self@,
    {
        KeyframeMetadata {
            input: copy_bytes(&self.input),
            speed: self.speed,
            elapsed_frames: self.elapsed_frames,
            elapsed_millis: self.elapsed_millis,
            counters: copy_counters(&self.counters),
        }
    }
}

/// A copy of events.
pub fn copy_packets(packets: &Vec<Packet>) -> (r: Vec<Packet>)
    ensures
        packet_models(r@) == packet_models(packets@),
{
    let mut r: Vec<Packet> = Vec::new();
    let mut i: usize = 0;
    while i < packets.len()
        invariant
            i == r@.len() <= packets@.len(),
            forall|k: int| 0 <= k < i ==> (#[trigger] r@[k])@ == packets@[k]@,
        decreases packets@.len() - i,
    {
        r.push(packets[i].duplicate());
        i = i + 1;
    }
    assert(packet_models(r@) =~= packet_models(packets@));
    r
}

/// Below twice the console's own speed every frame is drawn; from there on one in as many as the
/// speed is times the console's own.
pub proof fn law_how_many_frames_are_drawn(speed: Speed)
    ensures
        speed.units < 512 ==> drawn_every(speed) == 1,
        speed.units >= 512 ==> drawn_every(speed) * 256 <= speed.units < (drawn_every(speed) + 1)
            * 256,
{
}

} // verus!
