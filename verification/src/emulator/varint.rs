//! LEB128 varints.

use super::link::LinkError;
use vstd::arithmetic::power2::*;
use vstd::prelude::*;
use vstd::slice::slice_subrange;

verus! {

/// The LEB128 encoding of `value`: seven bits per byte, least significant group first, the top
/// bit set on every byte but the last.
pub open spec fn varint_bytes(value: nat) -> Seq<u8>
    decreases value,
{
    if value < 128 {
        seq![value as u8]
    } else {
        seq![(128 + value % 128) as u8] + varint_bytes(value / 128)
    }
}

/// What reading a varint finds: how many bytes were looked at, and the value or what is wrong.
#[verifier::ext_equal]
pub struct VarintRead {
    pub used: nat,
    pub result: Result<nat, Seq<char>>,
}

/// Read a varint off the front of `data`, of which `k` bytes came before. A value has at most 64
/// bits, so its tenth byte is 0 or 1 and there is no eleventh.
pub open spec fn read_varint_from(data: Seq<u8>, k: nat) -> VarintRead
    decreases data.len(),
{
    if data.len() == 0 {
        VarintRead { used: 0, result: Err("truncated varint"@) }
    } else if k > 9 || (k == 9 && data[0] % 128 > 1) {
        VarintRead { used: 1, result: Err("varint too long"@) }
    } else if data[0] < 128 {
        VarintRead { used: 1, result: Ok(data[0] as nat) }
    } else {
        let more = read_varint_from(data.skip(1), k + 1);
        VarintRead {
            used: more.used + 1,
            result: match more.result {
                Ok(high) => Ok((data[0] - 128 + 128 * high) as nat),
                Err(problem) => Err(problem),
            },
        }
    }
}

/// Read a varint off the front of `data`.
pub open spec fn read_varint_spec(data: Seq<u8>) -> VarintRead {
    read_varint_from(data, 0)
}

/// Append `value` as a LEB128 varint.
pub fn push_varint(into: &mut Vec<u8>, value: u64)
    ensures
        final(into)@ == old(into)@ + varint_bytes(value as nat),
{
    let mut value: u64 = value;
    let ghost start = into@;
    let ghost whole = value as nat;
    while value >= 128
        invariant
            start + varint_bytes(whole) == into@ + varint_bytes(value as nat),
        decreases value,
    {
        let byte: u8 = (value % 128) as u8;
        let ghost before = into@;
        let ghost head = seq![(128 + value % 128) as u8];
        let ghost tail = varint_bytes((value / 128) as nat);
        proof {
            assert(before + (head + tail) =~= (before + head) + tail);
        }
        into.push(byte + 128);
        assert(into@ =~= before + head);
        value = value / 128;
    }
    into.push(value as u8);
    assert(into@ =~= start + varint_bytes(whole));
}

/// The values that still fit in 64 bits when `k` groups of seven bits lie below them.
pub open spec fn varint_bound(k: nat) -> nat {
    if k <= 9 {
        pow2((64 - 7 * k) as nat)
    } else {
        1
    }
}

proof fn lemma_bound_step(k: nat)
    requires
        k < 9,
    ensures
        varint_bound(k) == 128 * varint_bound(k + 1),
        varint_bound(k + 1) >= 2,
{
    lemma_pow2_adds(7, (64 - 7 * (k + 1)) as nat);
    lemma2_to64();
    assert(7 + (64 - 7 * (k + 1)) == 64 - 7 * k);
    lemma_pow2_pos((64 - 7 * (k + 1) - 1) as nat);
    lemma_pow2_unfold((64 - 7 * (k + 1)) as nat);
}

/// A value read after `k` bytes fits in the bits that are left.
pub proof fn lemma_read_bound(data: Seq<u8>, k: nat)
    ensures
        read_varint_from(data, k).used <= data.len(),
        read_varint_from(data, k).result matches Ok(v) ==> v < varint_bound(k) && k <= 9
            && read_varint_from(data, k).used >= 1,
    decreases data.len(),
{
    lemma2_to64();
    if data.len() == 0 || k > 9 || (k == 9 && data[0] % 128 > 1) {
    } else if data[0] < 128 {
        if k < 9 {
            lemma_bound_step(k);
        } else {
            assert(varint_bound(9) == 2);
        }
    } else {
        lemma_read_bound(data.skip(1), k + 1);
        if k < 9 {
            lemma_bound_step(k);
        }
    }
}

/// Reading back an encoded value gives the value and leaves what follows it.
pub proof fn law_varint_round_trip(value: u64, rest: Seq<u8>)
    ensures
        read_varint_spec(varint_bytes(value as nat) + rest) == (VarintRead {
            used: varint_bytes(value as nat).len(),
            result: Ok(value as nat),
        }),
        (varint_bytes(value as nat) + rest).skip(varint_bytes(value as nat).len() as int) == rest,
{
    lemma2_to64();
    assert(varint_bound(0) == 0x1_0000_0000_0000_0000);
    lemma_round_trip_from(value as nat, rest, 0);
    assert((varint_bytes(value as nat) + rest).skip(varint_bytes(value as nat).len() as int)
        =~= rest);
}

proof fn lemma_round_trip_from(value: nat, rest: Seq<u8>, k: nat)
    requires
        k <= 9,
        value < varint_bound(k),
    ensures
        read_varint_from(varint_bytes(value) + rest, k) == (VarintRead {
            used: varint_bytes(value).len(),
            result: Ok(value),
        }),
    decreases value,
{
    lemma2_to64();
    let data = varint_bytes(value) + rest;
    if value < 128 {
        if k == 9 {
            assert(varint_bound(9) == 2);
        }
        assert(data[0] == value as u8);
    } else {
        if k == 9 {
            assert(varint_bound(9) == 2);
        }
        lemma_bound_step(k);
        assert(value / 128 < varint_bound(k + 1));
        lemma_round_trip_from(value / 128, rest, k + 1);
        assert(data[0] == (128 + value % 128) as u8);
        assert(data.skip(1) =~= varint_bytes(value / 128) + rest);
    }
}

/// Read a LEB128 varint, advancing `data`.
pub fn read_varint(data: &mut &[u8]) -> (r: Result<u64, LinkError>)
    ensures
        final(data)@ == old(data)@.skip(read_varint_spec(old(data)@).used as int),
        match read_varint_spec(old(data)@).result {
            Ok(v) => r == Ok::<u64, LinkError>(v as u64) && v <= u64::MAX,
            Err(problem) => r matches Err(LinkError::BadSerialData(what)) && what@ == problem,
        },
{
    let bytes: &[u8] = *data;
    let mut value: u64 = 0;
    let mut scale: u64 = 1;
    let mut k: usize = 0;
    proof {
        lemma2_to64();
        lemma2_to64_rest();
        assert(bytes@.skip(0) =~= bytes@);
        lemma_read_bound(bytes@, 0);
        assert(varint_bound(0) == 0x1_0000_0000_0000_0000);
    }
    loop
        invariant
            k <= bytes@.len(),
            k <= 10,
            k <= 9 ==> scale == pow2((7 * k) as nat),
            value < pow2((7 * k) as nat),
            ({
                let whole = read_varint_spec(bytes@);
                let more = read_varint_from(bytes@.skip(k as int), k as nat);
                &&& whole.used == more.used + k
                &&& whole.result is Ok == more.result is Ok
                &&& whole.result matches Err(a) ==> more.result == Err::<nat, Seq<char>>(a)
                &&& whole.result is Ok ==> whole.result->Ok_0 == value + pow2((7 * k) as nat)
                    * more.result->Ok_0
                &&& whole.result is Ok ==> whole.result->Ok_0 <= u64::MAX
            }),
            bytes@ == old(data)@,
        decreases bytes@.len() - k,
    {
        let ghost rest = bytes@.skip(k as int);
        if k == bytes.len() {
            *data = slice_subrange(bytes, k, bytes.len());
            assert(bytes@.subrange(k as int, bytes@.len() as int) =~= bytes@.skip(k as int));
            return Err(LinkError::BadSerialData("truncated varint".to_owned()));
        }
        let byte: u8 = bytes[k];
        assert(rest[0] == byte);
        if k > 9 || (k == 9 && byte % 128 > 1) {
            *data = slice_subrange(bytes, k + 1, bytes.len());
            assert(bytes@.subrange(k + 1, bytes@.len() as int) =~= bytes@.skip(k + 1));
            return Err(LinkError::BadSerialData("varint too long".to_owned()));
        }
        let group: u64 = (byte % 128) as u64;
        proof {
            lemma_group_fits(k as nat, group, value, scale);
            assert(rest.skip(1) =~= bytes@.skip(k + 1));
            lemma_pow2_adds(7, (7 * k) as nat);
            assert(7 + 7 * k == 7 * (k + 1));
            if byte >= 128 {
                let high = read_varint_from(rest.skip(1), (k + 1) as nat).result;
                if high is Ok {
                    let h = high->Ok_0;
                    let p = pow2((7 * k) as nat);
                    assert(p * ((byte - 128) + 128 * h) == p * (byte - 128) + (p * 128) * h)
                        by (nonlinear_arith);
                    assert(128 * p == p * 128) by (nonlinear_arith);
                }
            }
            assert(scale * group == group * scale) by (nonlinear_arith);
        }
        value = value + group * scale;
        if byte < 128 {
            *data = slice_subrange(bytes, k + 1, bytes.len());
            assert(bytes@.subrange(k + 1, bytes@.len() as int) =~= bytes@.skip(k + 1));
            return Ok(value);
        }
        if k < 9 {
            proof {
                lemma2_to64();
                lemma2_to64_rest();
                lemma_pow2_strictly_increases((7 * (k + 1)) as nat, 64);
                assert(pow2((7 * (k + 1)) as nat) == 128 * scale);
            }
            scale = scale * 128;
        }
        k = k + 1;
    }
}

/// The next group of seven bits fits above the ones read so far.
proof fn lemma_group_fits(k: nat, group: u64, value: u64, scale: u64)
    requires
        k <= 9,
        group < 128,
        k == 9 ==> group <= 1,
        scale == pow2((7 * k) as nat),
        value < scale,
    ensures
        value + group * scale <= u64::MAX,
        value + group * scale < pow2((7 * (k + 1)) as nat),
{
    lemma2_to64();
    lemma2_to64_rest();
    lemma_pow2_adds(7, (7 * k) as nat);
    assert(7 + 7 * k == 7 * (k + 1));
    assert(group * scale <= 127 * scale) by (nonlinear_arith)
        requires
            group < 128,
    ;
    if k < 9 {
        if k < 8 {
            lemma_pow2_strictly_increases((7 * (k + 1)) as nat, 63);
        }
    } else {
        assert(scale == 0x8000_0000_0000_0000);
        assert(group * scale <= 1 * scale) by (nonlinear_arith)
            requires
                group <= 1,
        ;
    }
}

/// Seven bits go into each byte, the lowest first; the top bit says that more follow.
pub proof fn law_seven_bits_a_byte(value: nat)
    ensures
        varint_bytes(value).len() >= 1,
        varint_bytes(value)[0] % 128 == value % 128,
        varint_bytes(value)[0] >= 128 <==> value >= 128,
        varint_bytes(value).last() < 128,
        value < 128 ==> varint_bytes(value).len() == 1,
        128 <= value < 0x4000 ==> varint_bytes(value).len() == 2 && varint_bytes(value)[1] == value
            / 128,
        value >= 128 ==> varint_bytes(value).len() == 1 + varint_bytes(value / 128).len(),
    decreases value,
{
    if value >= 128 {
        law_seven_bits_a_byte(value / 128);
        let rest = varint_bytes(value / 128);
        assert(varint_bytes(value).last() == rest.last());
        if value < 0x4000 {
            assert(rest =~= seq![(value / 128) as u8]);
        }
    }
}

} // verus!
