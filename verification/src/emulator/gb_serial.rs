//! What a Game Boy received over its link cable, as the bytes of a `SerialIn` replay packet.

use super::link::LinkError;
use super::varint;
use crate::text;
use vstd::prelude::*;
use vstd::slice::slice_subrange;
use vstd::string::*;

verus! {

/// One thing a Game Boy received over its link cable during a frame.
#[derive(Copy, Clone, Debug, PartialEq, Eq, Structural)]
pub enum GbSerialEvent {
    /// A bit the console received while it was the transfer's master (its own clock). Ordered; no
    /// timing needed, the console's own clock decides when.
    MasterBit(bool),
    /// A bit shifted into the console while it was the slave (the partner's clock), `cycles`
    /// 8 MHz cycles after the frame boundary (the console's link time at the step boundary the
    /// bit arrived at).
    SlaveBit {
        /// Link cycles since the frame boundary.
        cycles: u64,
        /// The bit.
        bit: bool,
    },
    /// The cable was plugged in (`true`) or pulled (`false`).
    Connected(bool),
}

/// Tag byte of a run of master bits.
pub const TAG_MASTER: u8 = 0x01;

/// Tag byte of a run of slave bits.
pub const TAG_SLAVE: u8 = 0x02;

/// Tag byte reserved for infrared.
pub const TAG_INFRARED: u8 = 0x03;

/// Tag byte of a plug or an unplug.
pub const TAG_CONNECTED: u8 = 0x04;

/// Most events one `SerialIn` packet may describe: a frame of the fastest transfer (the Game Boy
/// Color's 512 KHz clock) is under 9,000 bits.
pub const MAX_GB_EVENTS: u64 = 65_536;

/// Encode and decode a frame's Game Boy events.
///
/// The bytes are a run of tagged groups, in event order:
///
/// ```text
/// 0x01  count varint  bits packed MSB first, count/8 rounded up bytes     master bits received
/// 0x02  count varint  (cycle_delta varint, bit u8)*                        slave bits received
/// 0x04  connected u8                                                       plug / unplug
/// 0x03  (reserved for infrared)
/// ```
///
/// Varints are LEB128. A slave bit's `cycle_delta` is relative to the previous slave bit of the
/// group (the first, to the frame boundary). Master and slave groups are emitted in the order
/// the events happened, so a run of master bits is followed by any slave bits that came after
/// them and so on; consecutive events of the same kind share a group.
pub struct GbSerialEvents;

/// The number of master bits at the front of `events`.
pub open spec fn master_run(events: Seq<GbSerialEvent>) -> nat
    decreases events.len(),
{
    if events.len() > 0 && events[0] is MasterBit {
        1 + master_run(events.skip(1))
    } else {
        0
    }
}

/// The number of slave bits at the front of `events`.
pub open spec fn slave_run(events: Seq<GbSerialEvent>) -> nat
    decreases events.len(),
{
    if events.len() > 0 && events[0] is SlaveBit {
        1 + slave_run(events.skip(1))
    } else {
        0
    }
}

/// What bit `i` of a byte is worth, counted from the most significant.
pub open spec fn bit_weight(i: int) -> u8 {
    if i == 0 {
        128
    } else if i == 1 {
        64
    } else if i == 2 {
        32
    } else if i == 3 {
        16
    } else if i == 4 {
        8
    } else if i == 5 {
        4
    } else if i == 6 {
        2
    } else {
        1
    }
}

/// What event `n` adds to its byte when only the first `upto` events count.
pub open spec fn bit_share(bits: Seq<GbSerialEvent>, n: int, upto: int) -> int {
    if n < upto && bits[n] == GbSerialEvent::MasterBit(true) {
        bit_weight(n % 8) as int
    } else {
        0
    }
}

/// Byte `j` of the packed bits, of which the first `upto` count.
pub open spec fn packed_byte(bits: Seq<GbSerialEvent>, j: int, upto: int) -> int {
    bit_share(bits, 8 * j, upto) + bit_share(bits, 8 * j + 1, upto) + bit_share(
        bits,
        8 * j + 2,
        upto,
    ) + bit_share(bits, 8 * j + 3, upto) + bit_share(bits, 8 * j + 4, upto) + bit_share(
        bits,
        8 * j + 5,
        upto,
    ) + bit_share(bits, 8 * j + 6, upto) + bit_share(bits, 8 * j + 7, upto)
}

/// Master bits packed most significant first, the last byte padded with zeros.
pub open spec fn packed_bits(bits: Seq<GbSerialEvent>) -> Seq<u8> {
    Seq::new((bits.len() + 7) / 8, |j: int| packed_byte(bits, j, bits.len() as int) as u8)
}

/// Slave bits, each with its distance from the one before it (`previous` for the first); a bit
/// that is not after the one before it is zero cycles away from it.
pub open spec fn slave_bytes(bits: Seq<GbSerialEvent>, previous: u64) -> Seq<u8>
    decreases bits.len(),
{
    if bits.len() == 0 {
        Seq::empty()
    } else {
        let cycles = bits[0]->cycles;
        let delta: nat = if cycles > previous {
            (cycles - previous) as nat
        } else {
            0
        };
        varint::varint_bytes(delta) + seq![bits[0]->bit as u8] + slave_bytes(bits.skip(1), cycles)
    }
}

/// The bytes of a frame's events.
pub open spec fn encoded_events(events: Seq<GbSerialEvent>) -> Seq<u8>
    decreases events.len(),
{
    if events.len() == 0 {
        Seq::empty()
    } else {
        proof {
            lemma_runs(events);
        }
        match events[0] {
            GbSerialEvent::MasterBit(_) => {
                let n = master_run(events);
                seq![TAG_MASTER] + varint::varint_bytes(n) + packed_bits(events.take(n as int))
                    + encoded_events(events.skip(n as int))
            },
            GbSerialEvent::SlaveBit { .. } => {
                let n = slave_run(events);
                seq![TAG_SLAVE] + varint::varint_bytes(n) + slave_bytes(events.take(n as int), 0)
                    + encoded_events(events.skip(n as int))
            },
            GbSerialEvent::Connected(connected) => {
                seq![TAG_CONNECTED, connected as u8] + encoded_events(events.skip(1))
            },
        }
    }
}

/// What a run at the front of `events` is made of, and where it ends.
pub proof fn lemma_runs(events: Seq<GbSerialEvent>)
    ensures
        master_run(events) <= events.len(),
        slave_run(events) <= events.len(),
        forall|i: int| 0 <= i < master_run(events) ==> #[trigger] events[i] is MasterBit,
        forall|i: int| 0 <= i < slave_run(events) ==> #[trigger] events[i] is SlaveBit,
        master_run(events) < events.len() ==> !(events[master_run(events) as int] is MasterBit),
        slave_run(events) < events.len() ==> !(events[slave_run(events) as int] is SlaveBit),
    decreases events.len(),
{
    if events.len() > 0 {
        lemma_runs(events.skip(1));
        let rest = events.skip(1);
        assert forall|i: int| 0 <= i < master_run(events) implies #[trigger] events[i] is MasterBit by {
            if i > 0 {
                assert(events[i] == rest[i - 1]);
            }
        }
        assert forall|i: int| 0 <= i < slave_run(events) implies #[trigger] events[i] is SlaveBit by {
            if i > 0 {
                assert(events[i] == rest[i - 1]);
            }
        }
    }
}

/// A run that is known to end at `n` has length `n`.
proof fn lemma_master_run_is(events: Seq<GbSerialEvent>, n: nat)
    requires
        n <= events.len(),
        forall|i: int| 0 <= i < n ==> #[trigger] events[i] is MasterBit,
        n < events.len() ==> !(events[n as int] is MasterBit),
    ensures
        master_run(events) == n,
    decreases n,
{
    if n > 0 {
        let rest = events.skip(1);
        assert(events[0] is MasterBit);
        assert forall|i: int| 0 <= i < n - 1 implies #[trigger] rest[i] is MasterBit by {
            assert(rest[i] == events[i + 1]);
        }
        lemma_master_run_is(rest, (n - 1) as nat);
    }
}

/// A run that is known to end at `n` has length `n`.
proof fn lemma_slave_run_is(events: Seq<GbSerialEvent>, n: nat)
    requires
        n <= events.len(),
        forall|i: int| 0 <= i < n ==> #[trigger] events[i] is SlaveBit,
        n < events.len() ==> !(events[n as int] is SlaveBit),
    ensures
        slave_run(events) == n,
    decreases n,
{
    if n > 0 {
        let rest = events.skip(1);
        assert(events[0] is SlaveBit);
        assert forall|i: int| 0 <= i < n - 1 implies #[trigger] rest[i] is SlaveBit by {
            assert(rest[i] == events[i + 1]);
        }
        lemma_slave_run_is(rest, (n - 1) as nat);
    }
}

fn weight_of(i: usize) -> (r: u8)
    requires
        i < 8,
    ensures
        r == bit_weight(i as int),
{
    match i {
        0 => 128,
        1 => 64,
        2 => 32,
        3 => 16,
        4 => 8,
        5 => 4,
        6 => 2,
        _ => 1,
    }
}

/// Append the packed bits of `events[start..end]`, all of them master bits.
fn push_packed(events: &[GbSerialEvent], start: usize, end: usize, into: &mut Vec<u8>)
    requires
        start <= end <= events@.len(),
    ensures
        final(into)@ == old(into)@ + packed_bits(events@.subrange(start as int, end as int)),
{
    let ghost bits = events@.subrange(start as int, end as int);
    let ghost base = into@;
    let count: usize = end - start;
    let mut byte: u8 = 0;
    let mut n: usize = 0;
    while n < count
        invariant
            n <= count,
            count == end - start,
            start <= end <= events@.len(),
            bits == events@.subrange(start as int, end as int),
            into@ == base + packed_bits(bits).take(n as int / 8),
            byte == packed_byte(bits, n as int / 8, n as int),
            byte <= 255,
        decreases count - n,
    {
        let bit: bool = match events[start + n] {
            GbSerialEvent::MasterBit(bit) => bit,
            _ => false,
        };
        let ghost j = n as int / 8;
        assert(bits[n as int] == events@[start + n]);
        proof {
            lemma_packed_step(bits, n as int);
        }
        if bit {
            byte = byte + weight_of(n % 8);
        }
        if n % 8 == 7 {
            proof {
                lemma_packed_full(bits, j, n as int + 1);
                assert(packed_bits(bits).take(j + 1) =~= packed_bits(bits).take(j).push(byte));
                assert((n + 1) as int / 8 == j + 1);
                assert(base + packed_bits(bits).take(j + 1) =~= (base + packed_bits(bits).take(j)).push(byte));
            }
            into.push(byte);
            byte = 0;
        }
        n = n + 1;
    }
    let ghost j = count as int / 8;
    if count % 8 != 0 {
        assert(packed_bits(bits) =~= packed_bits(bits).take(j).push(byte));
        into.push(byte);
        assert(into@ =~= base + packed_bits(bits));
    } else {
        assert(packed_bits(bits) =~= packed_bits(bits).take(j));
    }
}

proof fn lemma_packed_step(bits: Seq<GbSerialEvent>, n: int)
    requires
        0 <= n < bits.len(),
    ensures
        packed_byte(bits, n / 8, n + 1) == packed_byte(bits, n / 8, n) + (if bits[n]
            == GbSerialEvent::MasterBit(true) {
            bit_weight(n % 8) as int
        } else {
            0
        }),
        packed_byte(bits, n / 8, n + 1) <= 255,
        n % 8 == 7 ==> packed_byte(bits, n / 8 + 1, n + 1) == 0,
{
    let j = n / 8;
    assert(n == 8 * j + n % 8);
}

proof fn lemma_packed_full(bits: Seq<GbSerialEvent>, j: int, upto: int)
    requires
        0 <= j,
        8 * j + 8 <= upto <= bits.len(),
    ensures
        packed_byte(bits, j, upto) == packed_byte(bits, j, bits.len() as int),
{
}

impl GbSerialEvents {
    /// Append the encoding of `events` (in order) to `into`. Nothing is appended for no events.
    pub fn encode(events: &[GbSerialEvent], into: &mut Vec<u8>)
        ensures
            final(into)@ == old(into)@ + encoded_events(events@),
    {
        let mut i: usize = 0;
        let ghost base = into@;
        assert(events@.skip(0) =~= events@);
        while i < events.len()
            invariant
                i <= events@.len(),
                base + encoded_events(events@) == into@ + encoded_events(events@.skip(i as int)),
            decreases events@.len() - i,
        {
            let ghost rest = events@.skip(i as int);
            let ghost before = into@;
            let start: usize = i;
            assert(rest[0] == events@[i as int]);
            match events[i] {
                GbSerialEvent::MasterBit(_) => {
                    i = i + 1;
                    while i < events.len() && matches!(events[i], GbSerialEvent::MasterBit(_))
                        invariant
                            start < i <= events@.len(),
                            forall|k: int| start <= k < i ==> #[trigger] events@[k] is MasterBit,
                        decreases events@.len() - i,
                    {
                        i = i + 1;
                    }
                    let ghost n = (i - start) as nat;
                    proof {
                        assert forall|k: int| 0 <= k < n implies #[trigger] rest[k] is MasterBit by {
                            assert(rest[k] == events@[start + k]);
                        }
                        if n < rest.len() {
                            assert(rest[n as int] == events@[i as int]);
                        }
                        lemma_master_run_is(rest, n);
                        assert(rest.take(n as int) =~= events@.subrange(start as int, i as int));
                        assert(rest.skip(n as int) =~= events@.skip(i as int));
                    }
                    into.push(TAG_MASTER);
                    varint::push_varint(into, (i - start) as u64);
                    push_packed(events, start, i, into);
                    assert(into@ + encoded_events(events@.skip(i as int)) =~= before
                        + encoded_events(rest));
                },
                GbSerialEvent::SlaveBit { .. } => {
                    i = i + 1;
                    while i < events.len() && matches!(events[i], GbSerialEvent::SlaveBit { .. })
                        invariant
                            start < i <= events@.len(),
                            forall|k: int| start <= k < i ==> #[trigger] events@[k] is SlaveBit,
                        decreases events@.len() - i,
                    {
                        i = i + 1;
                    }
                    let ghost n = (i - start) as nat;
                    proof {
                        assert forall|k: int| 0 <= k < n implies #[trigger] rest[k] is SlaveBit by {
                            assert(rest[k] == events@[start + k]);
                        }
                        if n < rest.len() {
                            assert(rest[n as int] == events@[i as int]);
                        }
                        lemma_slave_run_is(rest, n);
                        assert(rest.take(n as int) =~= events@.subrange(start as int, i as int));
                        assert(rest.skip(n as int) =~= events@.skip(i as int));
                    }
                    into.push(TAG_SLAVE);
                    varint::push_varint(into, (i - start) as u64);
                    push_slave_bits(events, start, i, into);
                    assert(into@ + encoded_events(events@.skip(i as int)) =~= before
                        + encoded_events(rest));
                },
                GbSerialEvent::Connected(connected) => {
                    into.push(TAG_CONNECTED);
                    into.push(if connected { 1 } else { 0 });
                    i = i + 1;
                    assert(rest.skip(1) =~= events@.skip(i as int));
                    assert(into@ + encoded_events(events@.skip(i as int)) =~= before
                        + encoded_events(rest));
                },
            }
        }
        assert(events@.skip(i as int) =~= Seq::empty());
        assert(into@ + encoded_events(events@.skip(i as int)) =~= into@);
    }
}

/// Append the slave bits `events[start..end]`.
fn push_slave_bits(events: &[GbSerialEvent], start: usize, end: usize, into: &mut Vec<u8>)
    requires
        start <= end <= events@.len(),
        forall|k: int| start <= k < end ==> #[trigger] events@[k] is SlaveBit,
    ensures
        final(into)@ == old(into)@ + slave_bytes(
            events@.subrange(start as int, end as int),
            0,
        ),
{
    let ghost base = into@;
    let ghost bits = events@.subrange(start as int, end as int);
    let mut previous: u64 = 0;
    let mut i: usize = start;
    while i < end
        invariant
            start <= i <= end <= events@.len(),
            forall|k: int| start <= k < end ==> #[trigger] events@[k] is SlaveBit,
            base + slave_bytes(bits, 0) == into@ + slave_bytes(
                events@.subrange(i as int, end as int),
                previous,
            ),
        decreases end - i,
    {
        let ghost rest = events@.subrange(i as int, end as int);
        let ghost before = into@;
        let ghost old_previous = previous;
        assert(rest[0] == events@[i as int]);
        if let GbSerialEvent::SlaveBit { cycles, bit } = events[i] {
            varint::push_varint(into, cycles.saturating_sub(previous));
            previous = cycles;
            into.push(if bit { 1 } else { 0 });
            assert(rest.skip(1) =~= events@.subrange(i + 1, end as int));
            assert(into@ + slave_bytes(rest.skip(1), cycles) =~= before + slave_bytes(
                rest,
                old_previous,
            ));
        }
        i = i + 1;
    }
    assert(events@.subrange(i as int, end as int) =~= Seq::empty());
    assert(into@ =~= into@ + slave_bytes(events@.subrange(i as int, end as int), previous));
}

/// What reading one tagged group finds: how many bytes it took, and its events or what is wrong.
#[verifier::ext_equal]
pub struct GroupRead {
    pub used: nat,
    pub result: Result<Seq<GbSerialEvent>, Seq<char>>,
}

/// Whether bit `i` of `byte` is set, counted from the most significant.
pub open spec fn bit_set(byte: u8, i: int) -> bool {
    (byte as int / bit_weight(i) as int) % 2 == 1
}

/// The first `count` bits of `packed` as master bits.
pub open spec fn unpacked_bits(packed: Seq<u8>, count: nat) -> Seq<GbSerialEvent> {
    Seq::new(count, |n: int| GbSerialEvent::MasterBit(bit_set(packed[n / 8], n % 8)))
}

/// Read the master bits that follow their tag, `have` events having been read before.
pub open spec fn read_master_group(data: Seq<u8>, have: nat) -> GroupRead {
    let head = varint::read_varint_spec(data);
    match head.result {
        Err(problem) => GroupRead { used: head.used, result: Err(problem) },
        Ok(count) => {
            let bytes = (count + 7) / 8;
            if have + count > MAX_GB_EVENTS {
                GroupRead {
                    used: head.used,
                    result: Err(text::decimal(count) + " master bits in one frame"@),
                }
            } else if data.len() < head.used + bytes {
                GroupRead { used: head.used, result: Err("truncated master bits"@) }
            } else {
                GroupRead {
                    used: head.used + bytes,
                    result: Ok(unpacked_bits(data.skip(head.used as int), count)),
                }
            }
        },
    }
}

/// Read `count` slave bits, the one before them at `cycles`.
pub open spec fn read_slave_bits(data: Seq<u8>, count: nat, cycles: nat) -> GroupRead
    decreases count,
{
    if count == 0 {
        GroupRead { used: 0, result: Ok(Seq::empty()) }
    } else {
        let head = varint::read_varint_spec(data);
        match head.result {
            Err(problem) => GroupRead { used: head.used, result: Err(problem) },
            Ok(delta) => {
                if cycles + delta > u64::MAX {
                    GroupRead { used: head.used, result: Err("slave bit cycle overflow"@) }
                } else if data.len() <= head.used {
                    GroupRead { used: head.used, result: Err("truncated slave bit"@) }
                } else if data[head.used as int] > 1 {
                    GroupRead {
                        used: head.used + 1,
                        result: Err(
                            "slave bit value "@ + text::decimal(data[head.used as int] as nat),
                        ),
                    }
                } else {
                    let first = GbSerialEvent::SlaveBit {
                        cycles: (cycles + delta) as u64,
                        bit: data[head.used as int] == 1,
                    };
                    let more = read_slave_bits(
                        data.skip((head.used + 1) as int),
                        (count - 1) as nat,
                        cycles + delta,
                    );
                    GroupRead {
                        used: head.used + 1 + more.used,
                        result: match more.result {
                            Ok(bits) => Ok(seq![first] + bits),
                            Err(problem) => Err(problem),
                        },
                    }
                }
            },
        }
    }
}

/// Read the slave bits that follow their tag, `have` events having been read before.
pub open spec fn read_slave_group(data: Seq<u8>, have: nat) -> GroupRead {
    let head = varint::read_varint_spec(data);
    match head.result {
        Err(problem) => GroupRead { used: head.used, result: Err(problem) },
        Ok(count) => {
            if have + count > MAX_GB_EVENTS {
                GroupRead {
                    used: head.used,
                    result: Err(text::decimal(count) + " slave bits in one frame"@),
                }
            } else {
                let bits = read_slave_bits(data.skip(head.used as int), count, 0);
                GroupRead { used: head.used + bits.used, result: bits.result }
            }
        },
    }
}

/// Read the flag that follows a plug's tag, `have` events having been read before.
pub open spec fn read_connected(data: Seq<u8>, have: nat) -> GroupRead {
    if have + 1 > MAX_GB_EVENTS {
        GroupRead { used: 0, result: Err("too many plug events in one frame"@) }
    } else if data.len() == 0 {
        GroupRead { used: 0, result: Err("truncated connected flag"@) }
    } else if data[0] > 1 {
        GroupRead { used: 1, result: Err("connected flag "@ + text::decimal(data[0] as nat)) }
    } else {
        GroupRead { used: 1, result: Ok(seq![GbSerialEvent::Connected(data[0] == 1)]) }
    }
}

/// Read the group with tag `tag` from the bytes after the tag, `have` events having been read
/// before.
pub open spec fn read_group(tag: u8, data: Seq<u8>, have: nat) -> GroupRead {
    if tag == TAG_MASTER {
        read_master_group(data, have)
    } else if tag == TAG_SLAVE {
        read_slave_group(data, have)
    } else if tag == TAG_CONNECTED {
        read_connected(data, have)
    } else if tag == TAG_INFRARED {
        GroupRead { used: 0, result: Err("infrared events are not supported by this version"@) }
    } else {
        GroupRead { used: 0, result: Err("unknown event tag 0x"@ + text::hex_byte(tag)) }
    }
}

/// The events of `data`, `have` events having been read before; or what is wrong with it.
pub open spec fn decoded_events_from(data: Seq<u8>, have: nat) -> Result<
    Seq<GbSerialEvent>,
    Seq<char>,
>
    decreases data.len(),
{
    if data.len() == 0 {
        Ok(Seq::empty())
    } else {
        let group = read_group(data[0], data.skip(1), have);
        proof {
            lemma_group_used(data[0], data.skip(1), have);
        }
        match group.result {
            Err(problem) => Err(problem),
            Ok(events) => match decoded_events_from(
                data.skip(1).skip(group.used as int),
                have + events.len(),
            ) {
                Ok(more) => Ok(events + more),
                Err(problem) => Err(problem),
            },
        }
    }
}

/// The events of a packet's bytes, or what is wrong with them.
pub open spec fn decoded_events(data: Seq<u8>) -> Result<Seq<GbSerialEvent>, Seq<char>> {
    decoded_events_from(data, 0)
}

proof fn lemma_slave_bits_used(data: Seq<u8>, count: nat, cycles: nat)
    ensures
        read_slave_bits(data, count, cycles).used <= data.len(),
        read_slave_bits(data, count, cycles).result matches Ok(bits) ==> bits.len() == count,
    decreases count,
{
    if count > 0 {
        varint::lemma_read_bound(data, 0);
        let head = varint::read_varint_spec(data);
        if head.result is Ok && head.used < data.len() {
            lemma_slave_bits_used(
                data.skip((head.used + 1) as int),
                (count - 1) as nat,
                (cycles + head.result->Ok_0) as nat,
            );
        }
    }
}

/// A group never takes more bytes than there are, nor has more events than a packet may describe.
pub proof fn lemma_group_used(tag: u8, data: Seq<u8>, have: nat)
    ensures
        read_group(tag, data, have).used <= data.len(),
        read_group(tag, data, have).result matches Ok(events) ==> have + events.len()
            <= MAX_GB_EVENTS,
{
    varint::lemma_read_bound(data, 0);
    let head = varint::read_varint_spec(data);
    if head.result is Ok {
        lemma_slave_bits_used(data.skip(head.used as int), head.result->Ok_0, 0);
    }
}

/// An error that says `what`.
pub open spec fn is_bad_serial_data(e: LinkError, what: Seq<char>) -> bool {
    e matches LinkError::BadSerialData(w) && w@ == what
}

/// What a reader of one group leaves behind.
spec fn group_read_as(
    group: GroupRead,
    data_before: Seq<u8>,
    data_after: Seq<u8>,
    events_before: Seq<GbSerialEvent>,
    events_after: Seq<GbSerialEvent>,
    r: Result<(), LinkError>,
) -> bool {
    match group.result {
        Ok(events) => r is Ok && data_after == data_before.skip(group.used as int) && events_after
            == events_before + events,
        Err(problem) => r matches Err(e) && is_bad_serial_data(e, problem),
    }
}

fn decode_master(data: &mut &[u8], events: &mut Vec<GbSerialEvent>) -> (r: Result<(), LinkError>)
    ensures
        group_read_as(
            read_master_group(old(data)@, old(events)@.len()),
            old(data)@,
            final(data)@,
            old(events)@,
            final(events)@,
            r,
        ),
{
    let ghost whole = data@;
    let ghost before = events@;
    let count: u64 = match varint::read_varint(data) {
        Ok(count) => count,
        Err(e) => return Err(e),
    };
    proof {
        varint::lemma_read_bound(whole, 0);
    }
    if count > MAX_GB_EVENTS || events.len() as u64 > MAX_GB_EVENTS - count {
        return Err(
            LinkError::BadSerialData(text::counted(count, " master bits in one frame")),
        );
    }
    let packed: &[u8] = *data;
    let bytes: usize = (count as usize + 7) / 8;
    if packed.len() < bytes {
        return Err(LinkError::BadSerialData("truncated master bits".to_owned()));
    }
    *data = slice_subrange(packed, bytes, packed.len());
    assert(data@ =~= whole.skip(read_master_group(whole, before.len()).used as int));
    let mut n: usize = 0;
    while n < count as usize
        invariant
            n <= count <= MAX_GB_EVENTS,
            bytes == (count as usize + 7) / 8,
            bytes <= packed@.len(),
            events@ == before + unpacked_bits(packed@, n as nat),
        decreases count - n,
    {
        let bit: bool = (packed[n / 8] / weight_of(n % 8)) % 2 == 1;
        events.push(GbSerialEvent::MasterBit(bit));
        n = n + 1;
        assert(events@ =~= before + unpacked_bits(packed@, n as nat));
    }
    Ok(())
}

fn decode_slave(data: &mut &[u8], events: &mut Vec<GbSerialEvent>) -> (r: Result<(), LinkError>)
    ensures
        group_read_as(
            read_slave_group(old(data)@, old(events)@.len()),
            old(data)@,
            final(data)@,
            old(events)@,
            final(events)@,
            r,
        ),
{
    let ghost whole = data@;
    let ghost before = events@;
    let count: u64 = match varint::read_varint(data) {
        Ok(count) => count,
        Err(e) => return Err(e),
    };
    proof {
        varint::lemma_read_bound(whole, 0);
    }
    if count > MAX_GB_EVENTS || events.len() as u64 > MAX_GB_EVENTS - count {
        return Err(
            LinkError::BadSerialData(text::counted(count, " slave bits in one frame")),
        );
    }
    let ghost head_used = varint::read_varint_spec(whole).used;
    let ghost body = data@;
    let ghost group = read_slave_bits(body, count as nat, 0);
    let mut cycles: u64 = 0;
    let mut n: u64 = 0;
    proof {
        assert(body.skip(0) =~= body);
        assert(events@.skip(before.len() as int) =~= Seq::<GbSerialEvent>::empty());
        lemma_slave_bits_used(body, count as nat, 0);
        if let Ok(bits) = group.result {
            assert(Seq::<GbSerialEvent>::empty() + bits =~= bits);
        }
    }
    while n < count
        invariant
            n <= count <= MAX_GB_EVENTS,
            whole == old(data)@,
            before == old(events)@,
            body == whole.skip(head_used as int),
            head_used <= whole.len(),
            group == read_slave_bits(body, count as nat, 0),
            read_slave_group(whole, before.len()) == (GroupRead {
                used: head_used + group.used,
                result: group.result,
            }),
            before.len() <= events@.len(),
            ({
                let more = read_slave_bits(data@, (count - n) as nat, cycles as nat);
                let done = events@.skip(before.len() as int);
                &&& events@ =~= before + done
                &&& match (group.result, more.result) {
                    (Ok(all), Ok(bits)) => all == done + bits && group.used <= body.len()
                        && data@ == body.skip(group.used - more.used) && more.used <= group.used,
                    (Err(a), Err(b)) => a == b,
                    _ => false,
                }
            }),
        decreases count - n,
    {
        let ghost d0 = data@;
        let ghost done = events@.skip(before.len() as int);
        let ghost head = varint::read_varint_spec(d0);
        let ghost more = read_slave_bits(d0, (count - n) as nat, cycles as nat);
        proof {
            varint::lemma_read_bound(d0, 0);
            lemma_slave_bits_used(d0, (count - n) as nat, cycles as nat);
        }
        let delta: u64 = match varint::read_varint(data) {
            Ok(delta) => delta,
            Err(e) => return Err(e),
        };
        cycles = match cycles.checked_add(delta) {
            Some(cycles) => cycles,
            None => {
                return Err(LinkError::BadSerialData("slave bit cycle overflow".to_owned()));
            },
        };
        let rest: &[u8] = *data;
        if rest.len() == 0 {
            return Err(LinkError::BadSerialData("truncated slave bit".to_owned()));
        }
        let bit: u8 = rest[0];
        assert(bit == d0[head.used as int]);
        *data = slice_subrange(rest, 1, rest.len());
        assert(data@ =~= d0.skip((head.used + 1) as int));
        if bit > 1 {
            let mut what = "slave bit value ".to_owned();
            text::push_decimal(&mut what, bit as u64);
            return Err(LinkError::BadSerialData(what));
        }
        let event = GbSerialEvent::SlaveBit { cycles, bit: bit != 0 };
        events.push(event);
        n = n + 1;
        proof {
            assert(events@.skip(before.len() as int) =~= done.push(event));
            let after = read_slave_bits(data@, (count - n) as nat, cycles as nat);
            if let Ok(bits) = after.result {
                assert(done + (seq![event] + bits) =~= done.push(event) + bits);
                assert(d0.skip((head.used + 1) as int) =~= body.skip(group.used - after.used));
            }
        }
    }
    proof {
        assert(events@.skip(before.len() as int) + Seq::<GbSerialEvent>::empty() =~= events@.skip(
            before.len() as int,
        ));
        assert(body.skip(group.used as int) =~= whole.skip((head_used + group.used) as int));
    }
    Ok(())
}

fn decode_connected(data: &mut &[u8], events: &mut Vec<GbSerialEvent>) -> (r: Result<(), LinkError>)
    ensures
        group_read_as(
            read_connected(old(data)@, old(events)@.len()),
            old(data)@,
            final(data)@,
            old(events)@,
            final(events)@,
            r,
        ),
{
    if events.len() as u64 >= MAX_GB_EVENTS {
        return Err(LinkError::BadSerialData("too many plug events in one frame".to_owned()));
    }
    let bytes: &[u8] = *data;
    if bytes.len() == 0 {
        return Err(LinkError::BadSerialData("truncated connected flag".to_owned()));
    }
    let connected: u8 = bytes[0];
    *data = slice_subrange(bytes, 1, bytes.len());
    assert(data@ =~= bytes@.skip(1));
    if connected > 1 {
        let mut what = "connected flag ".to_owned();
        text::push_decimal(&mut what, connected as u64);
        return Err(LinkError::BadSerialData(what));
    }
    events.push(GbSerialEvent::Connected(connected != 0));
    assert(events@ =~= old(events)@ + seq![GbSerialEvent::Connected(connected == 1)]);
    Ok(())
}

impl GbSerialEvents {
    /// Decode a packet's bytes into events, in order. Refuses trailing or malformed data.
    pub fn decode(data: &[u8]) -> (r: Result<Vec<GbSerialEvent>, LinkError>)
        ensures
            match decoded_events(data@) {
                Ok(events) => r matches Ok(decoded) && decoded@ == events,
                Err(problem) => r matches Err(e) && is_bad_serial_data(e, problem),
            },
            r matches Ok(decoded) ==> decoded@.len() <= MAX_GB_EVENTS,
    {
        let mut events: Vec<GbSerialEvent> = Vec::new();
        let mut rest: &[u8] = data;
        while rest.len() > 0
            invariant
                events@.len() <= MAX_GB_EVENTS,
                match (
                    decoded_events(data@),
                    decoded_events_from(rest@, events@.len()),
                ) {
                    (Ok(all), Ok(more)) => all == events@ + more,
                    (Err(a), Err(b)) => a == b,
                    _ => false,
                },
            decreases rest@.len(),
        {
            let ghost d0 = rest@;
            let ghost before = events@;
            let tag: u8 = rest[0];
            rest = slice_subrange(rest, 1, rest.len());
            let ghost body = d0.skip(1);
            assert(rest@ =~= body);
            let ghost group = read_group(tag, body, before.len());
            proof {
                lemma_group_used(tag, body, before.len());
            }
            if tag == TAG_MASTER {
                if let Err(e) = decode_master(&mut rest, &mut events) {
                    return Err(e);
                }
            } else if tag == TAG_SLAVE {
                if let Err(e) = decode_slave(&mut rest, &mut events) {
                    return Err(e);
                }
            } else if tag == TAG_CONNECTED {
                if let Err(e) = decode_connected(&mut rest, &mut events) {
                    return Err(e);
                }
            } else if tag == TAG_INFRARED {
                return Err(
                    LinkError::BadSerialData(
                        "infrared events are not supported by this version".to_owned(),
                    ),
                );
            } else {
                let mut what = "unknown event tag 0x".to_owned();
                text::push_hex_byte(&mut what, tag);
                return Err(LinkError::BadSerialData(what));
            }
            proof {
                assert(group.result is Ok);
                if let Ok(more) = decoded_events_from(rest@, events@.len()) {
                    assert(before + (group.result->Ok_0 + more) =~= events@ + more);
                }
            }
        }
        assert(events@ + Seq::<GbSerialEvent>::empty() =~= events@);
        Ok(events)
    }
}

/// Whether each slave bit that directly follows another is not earlier than it.
pub open spec fn in_cycle_order(events: Seq<GbSerialEvent>) -> bool {
    forall|i: int, j: int|
        0 <= i < j < events.len() && j == i + 1 && #[trigger] events[i] is SlaveBit
            && #[trigger] events[j] is SlaveBit ==> events[i]->cycles <= events[j]->cycles
}

/// Decoding what was encoded gives the same events in the same order, for any frame's worth of
/// events whose slave bits are in cycle order.
pub proof fn law_events_round_trip(events: Seq<GbSerialEvent>)
    requires
        events.len() <= MAX_GB_EVENTS,
        in_cycle_order(events),
    ensures
        decoded_events(encoded_events(events)) == Ok::<Seq<GbSerialEvent>, Seq<char>>(events),
{
    lemma_events_round_trip(events, 0);
}

/// A packet describes no more events than one may, whatever mix of groups it holds.
pub proof fn law_packets_are_bounded(data: Seq<u8>)
    ensures
        decoded_events(data) matches Ok(events) ==> events.len() <= MAX_GB_EVENTS,
{
    lemma_bounded(data, 0);
}

proof fn lemma_bounded(data: Seq<u8>, have: nat)
    requires
        have <= MAX_GB_EVENTS,
    ensures
        decoded_events_from(data, have) matches Ok(events) ==> have + events.len() <= MAX_GB_EVENTS,
    decreases data.len(),
{
    if data.len() > 0 {
        let body = data.skip(1);
        lemma_group_used(data[0], body, have);
        let group = read_group(data[0], body, have);
        if let Ok(events) = group.result {
            lemma_bounded(body.skip(group.used as int), have + events.len());
        }
    }
}

/// No events encode to no bytes, and no bytes decode to no events; any event takes bytes.
pub proof fn law_nothing_is_nothing(events: Seq<GbSerialEvent>)
    ensures
        encoded_events(events).len() == 0 <==> events.len() == 0,
        decoded_events(Seq::empty()) == Ok::<Seq<GbSerialEvent>, Seq<char>>(Seq::empty()),
{
}

spec fn share(bit: bool, weight: int) -> int {
    if bit {
        weight
    } else {
        0
    }
}

/// Dividing a sum of distinct powers of two by one of them tells whether it is in the sum.
proof fn lemma_byte_bits(
    b0: bool,
    b1: bool,
    b2: bool,
    b3: bool,
    b4: bool,
    b5: bool,
    b6: bool,
    b7: bool,
    byte: int,
)
    requires
        byte == share(b0, 128) + share(b1, 64) + share(b2, 32) + share(b3, 16) + share(b4, 8)
            + share(b5, 4) + share(b6, 2) + share(b7, 1),
    ensures
        0 <= byte <= 255,
        (byte / 128) % 2 == 1 <==> b0,
        (byte / 64) % 2 == 1 <==> b1,
        (byte / 32) % 2 == 1 <==> b2,
        (byte / 16) % 2 == 1 <==> b3,
        (byte / 8) % 2 == 1 <==> b4,
        (byte / 4) % 2 == 1 <==> b5,
        (byte / 2) % 2 == 1 <==> b6,
        (byte / 1) % 2 == 1 <==> b7,
{
}

proof fn lemma_packed_bit(bits: Seq<GbSerialEvent>, n: int)
    requires
        0 <= n < bits.len(),
        forall|i: int| 0 <= i < bits.len() ==> #[trigger] bits[i] is MasterBit,
    ensures
        0 <= packed_byte(bits, n / 8, bits.len() as int) <= 255,
        GbSerialEvent::MasterBit(
            bit_set(packed_byte(bits, n / 8, bits.len() as int) as u8, n % 8),
        ) == bits[n],
{
    let j = n / 8;
    let len = bits.len() as int;
    let on = |k: int| k < len && bits[k] == GbSerialEvent::MasterBit(true);
    assert(n == 8 * j + n % 8);
    assert(bits[n] is MasterBit);
    lemma_byte_bits(
        on(8 * j),
        on(8 * j + 1),
        on(8 * j + 2),
        on(8 * j + 3),
        on(8 * j + 4),
        on(8 * j + 5),
        on(8 * j + 6),
        on(8 * j + 7),
        packed_byte(bits, j, len),
    );
}

proof fn lemma_slave_round_trip(
    bits: Seq<GbSerialEvent>,
    previous: u64,
    rest: Seq<u8>,
)
    requires
        forall|i: int| 0 <= i < bits.len() ==> #[trigger] bits[i] is SlaveBit,
        in_cycle_order(bits),
        bits.len() > 0 ==> previous <= bits[0]->cycles,
    ensures
        read_slave_bits(slave_bytes(bits, previous) + rest, bits.len(), previous as nat) == (
        GroupRead { used: slave_bytes(bits, previous).len(), result: Ok(bits) }),
    decreases bits.len(),
{
    let data = slave_bytes(bits, previous) + rest;
    if bits.len() == 0 {
        assert(bits =~= Seq::empty());
    } else {
        let cycles = bits[0]->cycles;
        let delta = (cycles - previous) as u64;
        let more = bits.skip(1);
        assert(bits[0] is SlaveBit);
        assert forall|i: int| 0 <= i < more.len() implies #[trigger] more[i] is SlaveBit by {
            assert(more[i] == bits[i + 1]);
        }
        assert(in_cycle_order(more)) by {
            assert forall|i: int, j: int|
                0 <= i < j < more.len() && j == i + 1 && #[trigger] more[i] is SlaveBit
                    && #[trigger] more[j] is SlaveBit implies more[i]->cycles <= more[j]->cycles by {
                assert(bits[i + 1] is SlaveBit && bits[j + 1] is SlaveBit);
            }
        }
        if more.len() > 0 {
            assert(bits[0] is SlaveBit && bits[1] is SlaveBit);
        }
        let head = varint::varint_bytes(delta as nat);
        let tail = seq![bits[0]->bit as u8] + slave_bytes(more, cycles) + rest;
        varint::law_varint_round_trip(delta, tail);
        assert(data =~= head + tail);
        lemma_slave_round_trip(more, cycles, rest);
        assert(data.skip((head.len() + 1) as int) =~= slave_bytes(more, cycles) + rest);
        assert(data[head.len() as int] == bits[0]->bit as u8);
        assert(seq![bits[0]] + more =~= bits);
    }
}

/// A run of master bits reads back, whatever follows it.
proof fn lemma_master_group(first: Seq<GbSerialEvent>, rest: Seq<u8>, have: nat)
    requires
        have + first.len() <= MAX_GB_EVENTS,
        forall|i: int| 0 <= i < first.len() ==> #[trigger] first[i] is MasterBit,
    ensures
        read_master_group(
            varint::varint_bytes(first.len()) + packed_bits(first) + rest,
            have,
        ) == (GroupRead {
            used: varint::varint_bytes(first.len()).len() + packed_bits(first).len(),
            result: Ok(first),
        }),
{
    let n = first.len();
    let head = varint::varint_bytes(n);
    let packed = packed_bits(first);
    varint::law_varint_round_trip(n as u64, packed + rest);
    assert(head + packed + rest =~= head + (packed + rest));
    assert(unpacked_bits(packed + rest, n) =~= first) by {
        assert forall|i: int| 0 <= i < n implies #[trigger] unpacked_bits(packed + rest, n)[i]
            == first[i] by {
            lemma_packed_bit(first, i);
            assert((packed + rest)[i / 8] == packed[i / 8]);
        }
    }
}

/// A run of slave bits reads back, whatever follows it.
proof fn lemma_slave_group(first: Seq<GbSerialEvent>, rest: Seq<u8>, have: nat)
    requires
        have + first.len() <= MAX_GB_EVENTS,
        forall|i: int| 0 <= i < first.len() ==> #[trigger] first[i] is SlaveBit,
        in_cycle_order(first),
    ensures
        read_slave_group(
            varint::varint_bytes(first.len()) + slave_bytes(first, 0) + rest,
            have,
        ) == (GroupRead {
            used: varint::varint_bytes(first.len()).len() + slave_bytes(first, 0).len(),
            result: Ok(first),
        }),
{
    let n = first.len();
    let head = varint::varint_bytes(n);
    let bits = slave_bytes(first, 0);
    varint::law_varint_round_trip(n as u64, bits + rest);
    assert(head + bits + rest =~= head + (bits + rest));
    lemma_slave_round_trip(first, 0, rest);
}

/// A plug reads back, whatever follows it.
proof fn lemma_connected_group(connected: bool, rest: Seq<u8>, have: nat)
    requires
        have < MAX_GB_EVENTS,
    ensures
        read_connected(seq![connected as u8] + rest, have) == (GroupRead {
            used: 1,
            result: Ok(seq![GbSerialEvent::Connected(connected)]),
        }),
{
    assert((seq![connected as u8] + rest)[0] == connected as u8);
}

/// Neighbours stay neighbours in a part of a sequence.
proof fn lemma_order_of_part(events: Seq<GbSerialEvent>, from: int, to: int)
    requires
        in_cycle_order(events),
        0 <= from <= to <= events.len(),
    ensures
        in_cycle_order(events.subrange(from, to)),
{
    let part = events.subrange(from, to);
    assert forall|i: int, j: int|
        0 <= i < j < part.len() && j == i + 1 && #[trigger] part[i] is SlaveBit
            && #[trigger] part[j] is SlaveBit implies part[i]->cycles <= part[j]->cycles by {
        assert(events[i + from] is SlaveBit && events[j + from] is SlaveBit);
    }
}

/// One group that reads as `first`, then bytes that decode to `more`.
proof fn lemma_decode_step(
    tag: u8,
    group: Seq<u8>,
    rest: Seq<u8>,
    have: nat,
    first: Seq<GbSerialEvent>,
    more: Seq<GbSerialEvent>,
)
    requires
        read_group(tag, group + rest, have) == (GroupRead { used: group.len(), result: Ok(first) }),
        decoded_events_from(rest, have + first.len()) == Ok::<Seq<GbSerialEvent>, Seq<char>>(more),
    ensures
        decoded_events_from(seq![tag] + group + rest, have) == Ok::<Seq<GbSerialEvent>, Seq<char>>(
            first + more,
        ),
{
    let data = seq![tag] + group + rest;
    assert(data.skip(1) =~= group + rest);
    assert((group + rest).skip(group.len() as int) =~= rest);
    reveal_with_fuel(decoded_events_from, 2);
}

proof fn lemma_events_round_trip(events: Seq<GbSerialEvent>, have: nat)
    requires
        have + events.len() <= MAX_GB_EVENTS,
        in_cycle_order(events),
    ensures
        decoded_events_from(encoded_events(events), have) == Ok::<Seq<GbSerialEvent>, Seq<char>>(
            events,
        ),
    decreases events.len(),
{
    if events.len() == 0 {
        assert(events =~= Seq::empty());
    } else {
        lemma_runs(events);
        let n: nat = match events[0] {
            GbSerialEvent::MasterBit(_) => master_run(events),
            GbSerialEvent::SlaveBit { .. } => slave_run(events),
            GbSerialEvent::Connected(_) => 1,
        };
        let first = events.take(n as int);
        let more = events.skip(n as int);
        assert(first + more =~= events);
        lemma_order_of_part(events, n as int, events.len() as int);
        lemma_order_of_part(events, 0, n as int);
        lemma_events_round_trip(more, have + n);
        lemma_first_group(events, first, more, have);
    }
}

/// The first group of an encoding, and the rest of it.
#[verifier::rlimit(40)]
#[verifier::spinoff_prover]
proof fn lemma_first_group(
    events: Seq<GbSerialEvent>,
    first: Seq<GbSerialEvent>,
    more: Seq<GbSerialEvent>,
    have: nat,
)
    requires
        events.len() > 0,
        have + events.len() <= MAX_GB_EVENTS,
        first + more == events,
        first == events.take(first.len() as int),
        more == events.skip(first.len() as int),
        first.len() == (match events[0] {
            GbSerialEvent::MasterBit(_) => master_run(events),
            GbSerialEvent::SlaveBit { .. } => slave_run(events),
            GbSerialEvent::Connected(_) => 1,
        }),
        in_cycle_order(first),
        decoded_events_from(encoded_events(more), have + first.len()) == Ok::<
            Seq<GbSerialEvent>,
            Seq<char>,
        >(more),
    ensures
        decoded_events_from(encoded_events(events), have) == Ok::<Seq<GbSerialEvent>, Seq<char>>(
            events,
        ),
{
    lemma_runs(events);
    let n = first.len();
    let rest = encoded_events(more);
    match events[0] {
        GbSerialEvent::MasterBit(_) => {
            assert forall|i: int| 0 <= i < n implies #[trigger] first[i] is MasterBit by {
                assert(first[i] == events[i]);
            }
            lemma_master_group(first, rest, have);
            let group = varint::varint_bytes(n) + packed_bits(first);
            assert(encoded_events(events) =~= seq![TAG_MASTER] + group + rest);
            lemma_decode_step(TAG_MASTER, group, rest, have, first, more);
        },
        GbSerialEvent::SlaveBit { .. } => {
            assert forall|i: int| 0 <= i < n implies #[trigger] first[i] is SlaveBit by {
                assert(first[i] == events[i]);
            }
            lemma_slave_group(first, rest, have);
            let group = varint::varint_bytes(n) + slave_bytes(first, 0);
            assert(encoded_events(events) =~= seq![TAG_SLAVE] + group + rest);
            lemma_decode_step(TAG_SLAVE, group, rest, have, first, more);
        },
        GbSerialEvent::Connected(connected) => {
            let group = seq![connected as u8];
            assert(first =~= seq![GbSerialEvent::Connected(connected)]);
            lemma_connected_group(connected, rest, have);
            assert(encoded_events(events) =~= seq![TAG_CONNECTED] + group + rest);
            lemma_decode_step(TAG_CONNECTED, group, rest, have, first, more);
        },
    }
}

/// Bits this console clocked are put eight to a byte, the first in the top bit; a byte that is not
/// full ends in zeros.
pub proof fn law_bits_fill_bytes_from_the_top(bits: Seq<GbSerialEvent>, n: int)
    requires
        0 <= n < bits.len(),
        forall|i: int| 0 <= i < bits.len() ==> #[trigger] bits[i] is MasterBit,
    ensures
        packed_bits(bits).len() == (bits.len() + 7) / 8,
        ({
            let byte = packed_bits(bits)[n / 8] as int;
            let set = bits[n] == GbSerialEvent::MasterBit(true);
            &&& n % 8 == 0 ==> (byte / 128 % 2 == 1) == set
            &&& n % 8 == 1 ==> (byte / 64 % 2 == 1) == set
            &&& n % 8 == 2 ==> (byte / 32 % 2 == 1) == set
            &&& n % 8 == 3 ==> (byte / 16 % 2 == 1) == set
            &&& n % 8 == 4 ==> (byte / 8 % 2 == 1) == set
            &&& n % 8 == 5 ==> (byte / 4 % 2 == 1) == set
            &&& n % 8 == 6 ==> (byte / 2 % 2 == 1) == set
            &&& n % 8 == 7 ==> (byte % 2 == 1) == set
        }),
{
    lemma_packed_bit(bits, n);
    assert(bits[n] is MasterBit);
    let byte = packed_bits(bits)[n / 8];
    assert(bit_set(byte, n % 8) == (bits[n] == GbSerialEvent::MasterBit(true)));
}

/// Each kind of event has its byte in front, and a plug says whether it is in.
pub proof fn law_events_are_told_apart(events: Seq<GbSerialEvent>)
    requires
        events.len() > 0,
    ensures
        events[0] is MasterBit ==> encoded_events(events)[0] == 1,
        events[0] is SlaveBit ==> encoded_events(events)[0] == 2,
        events[0] matches GbSerialEvent::Connected(plugged) ==> encoded_events(events)[0] == 4
            && encoded_events(events)[1] == (if plugged {
            1u8
        } else {
            0
        }),
{
}

/// A bit the other console clocked is put down with how long after the one before it came.
pub proof fn law_clocked_bits_keep_their_distance(bits: Seq<GbSerialEvent>, previous: u64)
    requires
        bits.len() > 0,
        bits[0] is SlaveBit,
    ensures
        bits[0]->cycles >= previous ==> slave_bytes(bits, previous) == varint::varint_bytes(
            (bits[0]->cycles - previous) as nat,
        ) + seq![if bits[0]->bit { 1u8 } else { 0u8 }] + slave_bytes(
            bits.skip(1),
            bits[0]->cycles,
        ),
{
}

} // verus!
