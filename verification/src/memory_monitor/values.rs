//! Where watched values live and what their bytes mean.

use crate::bytes;
use crate::emulator::memory;
use crate::emulator::memory::ConsoleMemory;
use vstd::arithmetic::div_mod::lemma_fundamental_div_mod_converse;
use vstd::prelude::*;
use vstd::slice::slice_subrange;

verus! {

/// Longest value a probe, trace or freeze entry covers.
pub const MAX_VALUE_LEN: usize = 64;

/// Pointer dereferences an [`AddressPath`] may go through.
pub const MAX_POINTER_DEREFS: usize = 4;

/// An address, optionally reached through pointers: start at `base`, then for each offset read a
/// little-endian 32-bit pointer at the current address and add the offset to it.
#[derive(Copy, Clone, Debug, PartialEq, Eq, Hash)]
pub struct AddressPath {
    /// Where the path starts.
    pub base: u32,
    /// The pointer offsets, zero past the ones in use.
    pub derefs: [i32; 4],
    /// How many offsets are in use.
    pub deref_count: u8,
}

impl Default for AddressPath {
    fn default() -> (r: Self)
        ensures
            r.leads_through(0, Seq::empty()),
    {
        AddressPath::direct(0)
    }
}

impl AddressPath {
    /// The pointer offsets, in the order they are applied.
    pub open spec fn offsets(self) -> Seq<i32> {
        if self.deref_count <= MAX_POINTER_DEREFS {
            self.derefs@.take(self.deref_count as int)
        } else {
            self.derefs@
        }
    }

    /// Whether two paths are the same, unused offsets included.
    pub open spec fn same(self, other: AddressPath) -> bool {
        self.base == other.base && self.derefs@ == other.derefs@ && self.deref_count
            == other.deref_count
    }

    /// Whether two paths are the same, unused offsets included.
    pub fn is_same(&self, other: &AddressPath) -> (r: bool)
        ensures
            r == self.same(*other),
    {
        let r = self.base == other.base && self.derefs[0] == other.derefs[0] && self.derefs[1]
            == other.derefs[1] && self.derefs[2] == other.derefs[2] && self.derefs[3]
            == other.derefs[3] && self.deref_count == other.deref_count;
        assert(r ==> self.derefs@ =~= other.derefs@);
        r
    }

    /// Whether the path starts at `base` and goes on through these offsets, the unused ones being
    /// zero.
    pub open spec fn leads_through(self, base: u32, offsets: Seq<i32>) -> bool {
        &&& self.base == base
        &&& self.deref_count == offsets.len()
        &&& self.derefs@ == offsets + Seq::new((4 - offsets.len()) as nat, |i: int| 0i32)
    }

    /// A plain address.
    pub fn direct(address: u32) -> (r: Self)
        ensures
            r.leads_through(address, Seq::empty()),
            r.offsets() == Seq::<i32>::empty(),
    {
        let r = Self { base: address, derefs: [0, 0, 0, 0], deref_count: 0 };
        assert(r.offsets() =~= Seq::<i32>::empty());
        assert(r.derefs@ =~= Seq::<i32>::empty() + Seq::new(4, |i: int| 0i32));
        r
    }

    /// `base`, then through a pointer per offset (`[[base] + a] + b`...). `None` if there are more
    /// than [`MAX_POINTER_DEREFS`] offsets.
    pub fn with_derefs(base: u32, offsets: &[i32]) -> (r: Option<Self>)
        ensures
            r is Some <==> offsets@.len() <= MAX_POINTER_DEREFS,
            r matches Some(path) ==> path.leads_through(base, offsets@) && path.offsets()
                == offsets@,
    {
        if offsets.len() > MAX_POINTER_DEREFS {
            return None;
        }
        let n: usize = offsets.len();
        let r = Self {
            base,
            derefs: [
                if n > 0 { offsets[0] } else { 0 },
                if n > 1 { offsets[1] } else { 0 },
                if n > 2 { offsets[2] } else { 0 },
                if n > 3 { offsets[3] } else { 0 },
            ],
            deref_count: n as u8,
        };
        assert(r.offsets() =~= offsets@);
        assert(r.derefs@ =~= offsets@ + Seq::new((4 - offsets@.len()) as nat, |i: int| 0i32));
        Some(r)
    }

    /// The pointer offsets, in the order they are applied.
    pub fn derefs(&self) -> (r: &[i32])
        ensures
            r@ == self.offsets(),
    {
        let all: &[i32] = self.derefs.as_slice();
        assert(all@.len() == 4);
        let count: usize = if (self.deref_count as usize) < MAX_POINTER_DEREFS {
            self.deref_count as usize
        } else {
            MAX_POINTER_DEREFS
        };
        let r: &[i32] = slice_subrange(all, 0, count);
        assert(r@ =~= self.offsets());
        r
    }

    /// Whether this is a plain address.
    pub fn is_direct(&self) -> (r: bool)
        ensures
            r == (self.offsets().len() == 0),
    {
        self.deref_count == 0
    }

    /// The final address, or `None` if a pointer on the way is unmapped.
    pub fn resolve<M: ConsoleMemory>(&self, memory: &M) -> (r: Option<u32>)
        ensures
            r == resolved(memory.image(), self.base, self.offsets()),
    {
        let mut address: u32 = self.base;
        let offsets: &[i32] = self.derefs();
        let ghost image = memory.image();
        let mut i: usize = 0;
        assert(offsets@.skip(0) =~= offsets@);
        while i < offsets.len()
            invariant
                i <= offsets@.len(),
                image == memory.image(),
                offsets@ == self.offsets(),
                resolved(image, self.base, offsets@) == resolved(
                    image,
                    address,
                    offsets@.skip(i as int),
                ),
            decreases offsets@.len() - i,
        {
            let ghost rest = offsets@.skip(i as int);
            let pointer: &[u8] = memory::memory_slice(memory, address, 4)?;
            proof {
                memory::lemma_located(image.regions, 0, address, 4);
                bytes::lemma_byte_ranges();
                assert(pointer@.subrange(0, 4) =~= pointer@);
                assert(rest.skip(1) =~= offsets@.skip(i + 1));
            }
            let target: u32 = bytes::read_le(pointer, 0, 4) as u32;
            address = target.wrapping_add_signed(offsets[i]);
            i = i + 1;
        }
        assert(offsets@.skip(i as int) =~= Seq::<i32>::empty());
        Some(address)
    }
}

/// Where a path leads: from `base`, for each offset, to the pointer found there plus the offset.
pub open spec fn resolved(image: memory::MemoryImage, base: u32, offsets: Seq<i32>) -> Option<u32>
    decreases offsets.len(),
{
    if offsets.len() == 0 {
        Some(base)
    } else {
        match image.mapped(base, 4) {
            Some(pointer) => resolved(
                image,
                (bytes::le_value(pointer) as u32).wrapping_add_signed(offsets[0]),
                offsets.skip(1),
            ),
            None => None,
        }
    }
}

/// A path without pointers leads where it starts, whatever memory holds.
pub proof fn law_direct_paths(image: memory::MemoryImage, path: AddressPath)
    requires
        path.offsets().len() == 0,
    ensures
        resolved(image, path.base, path.offsets()) == Some(path.base),
{
}

/// A pointer is four bytes in memory, lowest first: a path with one offset leads to where the
/// pointer points, moved by the offset, the address wrapping at 32 bits; where the pointer is not
/// in memory the path leads nowhere.
pub proof fn law_a_pointer_leads_where_it_points(
    image: memory::MemoryImage,
    base: u32,
    offset: i32,
)
    ensures
        match image.mapped(base, 4) {
            Some(p) => p.len() == 4 ==> (resolved(image, base, seq![offset]) matches Some(to) && ({
                let points_at = p[0] + 0x100 * p[1] + 0x1_0000 * p[2] + 0x100_0000 * p[3];
                ||| to == points_at + offset
                ||| to == points_at + offset + 0x1_0000_0000
                ||| to == points_at + offset - 0x1_0000_0000
            })),
            None => resolved(image, base, seq![offset]) is None,
        },
{
    if let Some(p) = image.mapped(base, 4) {
        if p.len() == 4 {
            bytes::law_what_bytes_are_worth(p);
            assert(seq![offset].skip(1) =~= Seq::<i32>::empty());
            let at = (bytes::le_value(p) as u32).wrapping_add_signed(offset);
            assert(resolved(image, at, Seq::<i32>::empty()) == Some(at));
        }
    }
}

/// A longer path goes on from where its first pointer leads.
pub proof fn law_pointers_are_followed_in_turn(
    image: memory::MemoryImage,
    base: u32,
    first: Seq<i32>,
    then_on: Seq<i32>,
)
    ensures
        resolved(image, base, first + then_on) == match resolved(image, base, first) {
            Some(at) => resolved(image, at, then_on),
            None => None,
        },
    decreases first.len(),
{
    if first.len() == 0 {
        assert(first + then_on =~= then_on);
    } else {
        assert((first + then_on).skip(1) =~= first.skip(1) + then_on);
        if let Some(p) = image.mapped(base, 4) {
            law_pointers_are_followed_in_turn(
                image,
                (bytes::le_value(p) as u32).wrapping_add_signed(first[0]),
                first.skip(1),
                then_on,
            );
        }
    }
}

/// Paths made of the same base and the same offsets are the same; so a path made without offsets is
/// the plain address.
pub proof fn law_paths_are_what_they_lead_through(
    a: AddressPath,
    b: AddressPath,
    base: u32,
    offsets: Seq<i32>,
)
    requires
        offsets.len() <= MAX_POINTER_DEREFS,
        a.leads_through(base, offsets),
        b.leads_through(base, offsets),
    ensures
        a.same(b),
        a.offsets() == offsets,
{
    assert(a.offsets() =~= offsets);
}

/// How to turn a traced value's bytes into a number for [`TraceCondition`]s.
#[derive(Copy, Clone, Debug, PartialEq, Eq, Structural)]
pub struct ValueDecode {
    /// Most significant byte first.
    pub big_endian: bool,
    /// Two's complement.
    pub signed: bool,
    /// Binary-coded decimal (two digits per byte).
    pub bcd: bool,
}

impl Default for ValueDecode {
    fn default() -> (r: Self)
        ensures
            !r.big_endian && !r.signed && !r.bcd,
    {
        ValueDecode { big_endian: false, signed: false, bcd: false }
    }
}

/// The decimal number whose digit pairs are `s`, most significant first; `None` if a half is not a
/// decimal digit.
pub open spec fn bcd_value(s: Seq<u8>) -> Option<int>
    decreases s.len(),
{
    if s.len() == 0 {
        Some(0)
    } else {
        let byte = s.last();
        match bcd_value(s.drop_last()) {
            Some(above) => if byte / 16 <= 9 && byte % 16 <= 9 {
                Some(100 * above + 10 * (byte / 16) as int + (byte % 16) as int)
            } else {
                None
            },
            None => None,
        }
    }
}

impl ValueDecode {
    /// The bytes that count, most significant first.
    pub open spec fn significant(self, s: Seq<u8>) -> Seq<u8> {
        let first = if s.len() > 8 {
            s.take(8)
        } else {
            s
        };
        if self.big_endian {
            first
        } else {
            first.reverse()
        }
    }

    /// The number held by `s`: its first 8 bytes in the given order, as decimal digit pairs, as a
    /// two's complement number of as many bytes, or as a plain one (one of 8 bytes wraps into the
    /// signed range).
    pub open spec fn value(self, s: Seq<u8>) -> Option<int> {
        let digits = self.significant(s);
        if self.bcd {
            bcd_value(digits)
        } else {
            let raw = bytes::le_value(digits.reverse()) as int;
            let range = bytes::byte_range(digits.len()) as int;
            if digits.len() > 0 && (self.signed || digits.len() == 8) && raw >= range / 2 {
                Some(raw - range)
            } else {
                Some(raw)
            }
        }
    }

    /// The number held by `bytes` (at most 8 of them), or `None` for invalid BCD.
    pub fn decode(&self, value_bytes: &[u8]) -> (r: Option<i64>)
        ensures
            match self.value(value_bytes@) {
                Some(v) => r == Some(v as i64) && i64::MIN <= v <= i64::MAX,
                None => r is None,
            },
    {
        let len: usize = if value_bytes.len() < 8 {
            value_bytes.len()
        } else {
            8
        };
        let ghost first = if value_bytes@.len() > 8 {
            value_bytes@.take(8)
        } else {
            value_bytes@
        };
        let ghost digits = self.significant(value_bytes@);
        let mut ordered: Vec<u8> = Vec::new();
        let mut i: usize = 0;
        while i < len
            invariant
                i <= len,
                len == first.len() <= 8,
                len <= value_bytes@.len(),
                forall|k: int| 0 <= k < len ==> first[k] == value_bytes@[k],
                digits == self.significant(value_bytes@),
                digits == (if self.big_endian {
                    first
                } else {
                    first.reverse()
                }),
                ordered@ == digits.take(i as int),
            decreases len - i,
        {
            let b: u8 = if self.big_endian {
                value_bytes[i]
            } else {
                value_bytes[len - 1 - i]
            };
            ordered.push(b);
            i = i + 1;
            assert(ordered@ =~= digits.take(i as int));
        }
        assert(digits.take(len as int) =~= digits);
        if self.bcd {
            return bcd_number(&ordered);
        }
        signed_number(&ordered, self.signed)
    }
}

/// The decimal number whose digit pairs are `digits`.
/// A value's bytes read lowest first unless they are in big-endian order, and a value's bytes in
/// big-endian order are the same value's bytes the other way round.
pub proof fn law_byte_order(decode: ValueDecode, s: Seq<u8>)
    requires
        0 < s.len() <= 8,
    ensures
        (ValueDecode { big_endian: true, ..decode }).value(s) == (ValueDecode {
            big_endian: false,
            ..decode
        }).value(s.reverse()),
        !decode.big_endian && !decode.signed && !decode.bcd && s.len() < 8 ==> decode.value(s)
            == Some(bytes::le_value(s) as int),
{
    assert(s.reverse().reverse() =~= s);
}

/// A signed value is the one of its width's two's complement range that has the same remainder as
/// the unsigned value. Eight bytes are always read so.
pub proof fn law_signed_values_are_twos_complement(decode: ValueDecode, s: Seq<u8>)
    requires
        0 < s.len() <= 8,
        !decode.bcd,
        !decode.big_endian,
        decode.signed || s.len() == 8,
    ensures
        decode.value(s) matches Some(v) && ({
            let half = bytes::byte_range(s.len()) / 2;
            &&& -half <= v < half
            &&& v == bytes::le_value(s) || v + 2 * half == bytes::le_value(s)
        }),
{
    assert(s.reverse().reverse() =~= s);
    bytes::lemma_le_value_bound(s);
    bytes::lemma_byte_ranges();
}

/// A value of decimal digits: readable exactly if every half byte is a digit, and then its last
/// two decimals are the last byte's halves and what is above them is the value of the other bytes.
pub proof fn law_decimal_digits(s: Seq<u8>)
    ensures
        bcd_value(s) is Some <==> (forall|i: int|
            0 <= i < s.len() ==> (#[trigger] s[i]) / 16 < 10 && s[i] % 16 < 10),
        s.len() > 0 && bcd_value(s) is Some ==> {
            &&& bcd_value(s)->0 % 10 == s.last() % 16
            &&& bcd_value(s)->0 / 10 % 10 == s.last() / 16
            &&& Some(bcd_value(s)->0 / 100) == bcd_value(s.drop_last())
        },
        s.len() == 0 ==> bcd_value(s) == Some(0int),
    decreases s.len(),
{
    if s.len() > 0 {
        let rest = s.drop_last();
        let last = s[s.len() - 1];
        law_decimal_digits(rest);
        assert(forall|i: int| 0 <= i < rest.len() ==> rest[i] == #[trigger] s[i]);
        if bcd_value(s) is Some {
            assert(bcd_value(rest) is Some);
            assert forall|i: int| 0 <= i < s.len() implies (#[trigger] s[i]) / 16 < 10 && s[i] % 16
                < 10 by {
                if i < rest.len() {
                    assert(rest[i] / 16 < 10);
                }
            }
            let above = bcd_value(rest)->0;
            let high = (last / 16) as int;
            let low = (last % 16) as int;
            assert(bcd_value(s) == Some(100 * above + 10 * high + low));
            lemma_decimals(above, high, low);
        } else if forall|i: int| 0 <= i < s.len() ==> (#[trigger] s[i]) / 16 < 10 && s[i] % 16 < 10 {
            assert forall|i: int| 0 <= i < rest.len() implies (#[trigger] rest[i]) / 16 < 10
                && rest[i] % 16 < 10 by {
                assert(s[i] / 16 < 10);
            }
            assert(bcd_value(rest) is Some);
            assert(last / 16 < 10 && last % 16 < 10);
        }
    }
}

proof fn lemma_decimals(above: int, high: int, low: int)
    requires
        0 <= high < 10,
        0 <= low < 10,
    ensures
        (100 * above + 10 * high + low) % 10 == low,
        (100 * above + 10 * high + low) / 10 % 10 == high,
        (100 * above + 10 * high + low) / 100 == above,
{
    let n = 100 * above + 10 * high + low;
    lemma_fundamental_div_mod_converse(n, 10, 10 * above + high, low);
    lemma_fundamental_div_mod_converse(10 * above + high, 10, above, high);
    lemma_fundamental_div_mod_converse(n, 100, above, 10 * high + low);
}

fn bcd_number(digits: &Vec<u8>) -> (r: Option<i64>)
    requires
        digits@.len() <= 8,
    ensures
        match bcd_value(digits@) {
            Some(v) => r == Some(v as i64) && 0 <= v <= i64::MAX,
            None => r is None,
        },
{
    let mut value: i64 = 0;
    let mut i: usize = 0;
    let ghost mut limit: int = 1;
    assert(digits@.take(0) =~= Seq::<u8>::empty());
    while i < digits.len()
        invariant
            i <= digits@.len() <= 8,
            bcd_value(digits@.take(i as int)) == Some(value as int),
            limit == hundreds(i as nat),
            0 <= value < limit,
        decreases digits@.len() - i,
    {
        let byte: u8 = digits[i];
        proof {
            assert(digits@.take(i + 1).drop_last() =~= digits@.take(i as int));
            assert(digits@.take(i + 1).last() == byte);
            lemma_hundreds(i as nat);
            if byte / 16 > 9 || byte % 16 > 9 {
                lemma_bcd_prefix(digits@, i + 1);
            }
        }
        if byte / 16 > 9 || byte % 16 > 9 {
            return None;
        }
        value = value * 100 + ((byte / 16) * 10 + byte % 16) as i64;
        proof {
            limit = limit * 100;
        }
        i = i + 1;
    }
    assert(digits@.take(i as int) =~= digits@);
    Some(value)
}

spec fn hundreds(n: nat) -> int
    decreases n,
{
    if n == 0 {
        1
    } else {
        100 * hundreds((n - 1) as nat)
    }
}

proof fn lemma_hundreds(n: nat)
    requires
        n < 8,
    ensures
        1 <= hundreds(n) <= 100_000_000_000_000,
        hundreds(n + 1) == 100 * hundreds(n),
{
    reveal_with_fuel(hundreds, 9);
}

/// A part that is not decimal spoils the whole.
proof fn lemma_bcd_prefix(s: Seq<u8>, n: int)
    requires
        0 <= n <= s.len(),
        bcd_value(s.take(n)) is None,
    ensures
        bcd_value(s) is None,
    decreases s.len() - n,
{
    if n == s.len() {
        assert(s.take(n) =~= s);
    } else {
        assert(s.take(n + 1).drop_last() =~= s.take(n));
        lemma_bcd_prefix(s, n + 1);
    }
}

/// The plain or two's complement number whose bytes are `digits`, most significant first.
fn signed_number(digits: &Vec<u8>, signed: bool) -> (r: Option<i64>)
    requires
        digits@.len() <= 8,
    ensures
        ({
            let raw = bytes::le_value(digits@.reverse()) as int;
            let range = bytes::byte_range(digits@.len()) as int;
            let v = if digits@.len() > 0 && (signed || digits@.len() == 8) && raw >= range / 2 {
                raw - range
            } else {
                raw
            };
            i64::MIN <= v <= i64::MAX && r == Some(v as i64)
        }),
{
    let mut raw: u64 = 0;
    let mut i: usize = 0;
    let mut range: u128 = 1;
    assert(digits@.take(0).reverse() =~= Seq::<u8>::empty());
    while i < digits.len()
        invariant
            i <= digits@.len() <= 8,
            raw == bytes::le_value(digits@.take(i as int).reverse()),
            range == bytes::byte_range(i as nat),
            raw < range,
        decreases digits@.len() - i,
    {
        let ghost s = digits@.take(i + 1).reverse();
        proof {
            assert(s[0] == digits@[i as int]);
            assert(s.skip(1) =~= digits@.take(i as int).reverse());
            bytes::lemma_le_value_bound(s);
            bytes::lemma_byte_range_grows((i + 1) as nat, 8);
            bytes::lemma_byte_ranges();
        }
        raw = raw * 256 + digits[i] as u64;
        range = range * 256;
        i = i + 1;
    }
    proof {
        assert(digits@.take(i as int) =~= digits@);
        bytes::lemma_byte_ranges();
        bytes::lemma_byte_range_grows(digits@.len(), 8);
        if digits@.len() < 8 {
            bytes::lemma_byte_range_grows(digits@.len(), 7);
        }
    }
    let n: usize = digits.len();
    if n > 0 && (signed || n == 8) && raw as u128 >= range / 2 {
        return Some((raw as i128 - range as i128) as i64);
    }
    Some(raw as i64)
}

/// When a traced watch pauses emulation. Conditions fire on the frame the value starts meeting
/// them, not on every frame it keeps meeting them.
#[derive(Copy, Clone, Debug, PartialEq, Eq, Structural)]
pub enum TraceCondition {
    /// Any change.
    Changes,
    /// Becomes this value.
    Equals(i64),
    /// Stops being this value.
    NotEquals(i64),
    /// Rises above this value.
    GreaterThan(i64),
    /// Falls below this value.
    LessThan(i64),
    /// Goes up by exactly this much in one frame.
    IncreasedBy(i64),
    /// Goes down by exactly this much in one frame.
    DecreasedBy(i64),
}

impl TraceCondition {
    /// Whether a value starts meeting the condition by going from `old` to `new`. Differences are
    /// taken modulo 2^64.
    pub open spec fn starts_holding(self, old_value: i64, new_value: i64) -> bool {
        match self {
            TraceCondition::Changes => true,
            TraceCondition::Equals(v) => new_value == v && old_value != v,
            TraceCondition::NotEquals(v) => new_value != v && old_value == v,
            TraceCondition::GreaterThan(v) => new_value > v && old_value <= v,
            TraceCondition::LessThan(v) => new_value < v && old_value >= v,
            TraceCondition::IncreasedBy(d) => new_value.wrapping_sub(old_value) == d,
            TraceCondition::DecreasedBy(d) => old_value.wrapping_sub(new_value) == d,
        }
    }

    /// Whether the condition fires on a change from `old` to `new`.
    pub open spec fn met(
        self,
        old_value: Option<i64>,
        new_value: Option<i64>,
        changed: bool,
    ) -> bool {
        changed && match (old_value, new_value) {
            (Some(o), Some(n)) => self.starts_holding(o, n),
            _ => self is Changes,
        }
    }

    /// Whether going from `old` to `new` meets the condition. `None` values could not be decoded
    /// (invalid BCD); only [`TraceCondition::Changes`] can fire for them.
    pub fn fires(&self, old_value: Option<i64>, new_value: Option<i64>, changed: bool) -> (r: bool)
        ensures
            r == self.met(old_value, new_value, changed),
    {
        if !changed {
            return false;
        }
        let (o, n): (i64, i64) = match (old_value, new_value) {
            (Some(o), Some(n)) => (o, n),
            _ => return matches!(self, TraceCondition::Changes),
        };
        match *self {
            TraceCondition::Changes => true,
            TraceCondition::Equals(v) => n == v && o != v,
            TraceCondition::NotEquals(v) => n != v && o == v,
            TraceCondition::GreaterThan(v) => n > v && o <= v,
            TraceCondition::LessThan(v) => n < v && o >= v,
            TraceCondition::IncreasedBy(d) => n.wrapping_sub(o) == d,
            TraceCondition::DecreasedBy(d) => o.wrapping_sub(n) == d,
        }
    }
}

/// Conditions on a value fire on the frame it starts meeting them and not while it keeps meeting
/// them: without a change nothing fires, and a condition on the value alone does not fire twice in
/// a row.
pub proof fn law_conditions_fire_on_transitions(condition: TraceCondition, a: i64, b: i64, c: i64)
    requires
        !(condition is Changes),
        !(condition is IncreasedBy),
        !(condition is DecreasedBy),
    ensures
        !condition.met(Some(a), Some(b), false),
        condition.met(Some(a), Some(b), true) ==> !condition.met(Some(b), Some(c), true),
{
}

/// What a condition on the value alone asks of the value.
pub open spec fn asked_of(condition: TraceCondition, value: int) -> bool {
    match condition {
        TraceCondition::Equals(v) => value == v,
        TraceCondition::NotEquals(v) => value != v,
        TraceCondition::GreaterThan(v) => value > v,
        TraceCondition::LessThan(v) => value < v,
        _ => true,
    }
}

/// A condition on the value alone fires on a change from `a` to `b` exactly if what it asks is so
/// of `b` and was not so of `a`.
pub proof fn law_a_condition_fires_when_it_becomes_true(condition: TraceCondition, a: i64, b: i64)
    requires
        !(condition is Changes),
        !(condition is IncreasedBy),
        !(condition is DecreasedBy),
    ensures
        condition.met(Some(a), Some(b), true) <==> asked_of(condition, b as int) && !asked_of(
            condition,
            a as int,
        ),
{
}

/// A condition on the difference fires on a change of exactly that much, up or down, where the
/// difference fits; every change meets "changes".
pub proof fn law_a_condition_on_the_difference(a: i64, b: i64, d: i64)
    requires
        i64::MIN <= b - a <= i64::MAX,
        i64::MIN <= a - b <= i64::MAX,
    ensures
        TraceCondition::IncreasedBy(d).met(Some(a), Some(b), true) <==> b == a + d,
        TraceCondition::DecreasedBy(d).met(Some(a), Some(b), true) <==> b == a - d,
        TraceCondition::Changes.met(Some(a), Some(b), true),
{
}

/// A value that could not be read meets no condition but "changes", and nothing fires where
/// nothing changed.
pub proof fn law_unreadable_values_only_change(
    condition: TraceCondition,
    a: Option<i64>,
    b: Option<i64>,
    changed: bool,
)
    ensures
        !changed ==> !condition.met(a, b, changed),
        changed && (a is None || b is None) ==> (condition.met(a, b, changed)
            <==> condition is Changes),
{
}

/// A value held in place.
#[derive(Copy, Clone, Debug, PartialEq, Eq)]
pub struct FreezeSpec {
    /// The freeze's id (the watch holding it), used to keep its restore count across requests.
    pub id: u32,
    /// Where the value lives.
    pub path: AddressPath,
    /// How many bytes are held.
    pub len: u8,
    /// The bytes held, in front.
    pub bytes: [u8; 64],
}

impl FreezeSpec {
    /// The bytes held.
    pub open spec fn held(self) -> Seq<u8> {
        if self.len <= MAX_VALUE_LEN {
            self.bytes@.take(self.len as int)
        } else {
            self.bytes@
        }
    }

    /// Hold `bytes` (1..=[`MAX_VALUE_LEN`] of them) at `path`.
    pub fn new(id: u32, path: AddressPath, held: &[u8]) -> (r: Option<Self>)
        ensures
            r is Some <==> 1 <= held@.len() <= MAX_VALUE_LEN,
            r matches Some(f) ==> {
                &&& f.id == id
                &&& f.path == path
                &&& f.held() == held@
                &&& f.len == held@.len()
                &&& forall|k: int| held@.len() <= k < 64 ==> f.bytes@[k] == 0
            },
    {
        if held.len() == 0 || held.len() > MAX_VALUE_LEN {
            return None;
        }
        let mut bytes: [u8; 64] = [0;64];
        let mut i: usize = 0;
        while i < held.len()
            invariant
                i <= held@.len() <= 64,
                forall|k: int| 0 <= k < i ==> bytes@[k] == held@[k],
                forall|k: int| i <= k < 64 ==> bytes@[k] == 0,
            decreases held@.len() - i,
        {
            bytes[i] = held[i];
            i = i + 1;
        }
        let r = FreezeSpec { id, path, len: held.len() as u8, bytes };
        assert(r.held() =~= held@);
        Some(r)
    }

    /// How many bytes are held.
    pub fn len(&self) -> (r: usize)
        ensures
            r == self.held().len() <= MAX_VALUE_LEN,
    {
        if (self.len as usize) < MAX_VALUE_LEN {
            self.len as usize
        } else {
            MAX_VALUE_LEN
        }
    }

    /// The bytes held.
    pub fn bytes(&self) -> (r: &[u8])
        ensures
            r@ == self.held(),
    {
        let all: &[u8] = self.bytes.as_slice();
        assert(all@.len() == 64);
        let r: &[u8] = slice_subrange(all, 0, self.len());
        assert(r@ =~= self.held());
        r
    }
}

/// 64-bit FNV-1a.
pub open spec fn fnv1a_of(s: Seq<u8>) -> u64
    decreases s.len(),
{
    if s.len() == 0 {
        0xcbf29ce484222325
    } else {
        (fnv1a_of(s.drop_last()) ^ s.last() as u64).wrapping_mul(0x100000001b3)
    }
}

/// 64-bit FNV-1a.
pub fn fnv1a(bytes: &[u8]) -> (r: u64)
    ensures
        r == fnv1a_of(bytes@),
{
    let mut hash: u64 = 0xcbf29ce484222325;
    let mut i: usize = 0;
    assert(bytes@.take(0) =~= Seq::<u8>::empty());
    while i < bytes.len()
        invariant
            i <= bytes@.len(),
            hash == fnv1a_of(bytes@.take(i as int)),
        decreases bytes@.len() - i,
    {
        assert(bytes@.take(i + 1).drop_last() =~= bytes@.take(i as int));
        hash = (hash ^ bytes[i] as u64).wrapping_mul(0x100000001b3);
        i = i + 1;
    }
    assert(bytes@.take(i as int) =~= bytes@);
    hash
}

/// A traced value's identity for change detection.
pub open spec fn packed(s: Seq<u8>) -> u64 {
    if s.len() <= 8 {
        bytes::le_value(s) as u64
    } else {
        fnv1a_of(s)
    }
}

/// A traced value's identity for change detection: the bytes packed little-endian, or a hash.
pub fn pack_value(value_bytes: &[u8]) -> (r: u64)
    ensures
        r == packed(value_bytes@),
{
    if value_bytes.len() <= 8 {
        assert(value_bytes@.subrange(0, value_bytes@.len() as int) =~= value_bytes@);
        bytes::read_le(value_bytes, 0, value_bytes.len())
    } else {
        fnv1a(value_bytes)
    }
}

proof fn lemma_le_value_injective(a: Seq<u8>, b: Seq<u8>)
    requires
        a.len() == b.len(),
        bytes::le_value(a) == bytes::le_value(b),
    ensures
        a == b,
    decreases a.len(),
{
    if a.len() > 0 {
        lemma_le_value_injective(a.skip(1), b.skip(1));
        assert forall|i: int| 0 <= i < a.len() implies a[i] == b[i] by {
            if i > 0 {
                assert(a[i] == a.skip(1)[i - 1] && b[i] == b.skip(1)[i - 1]);
            }
        }
    }
    assert(a =~= b);
}

/// Values of up to 8 bytes are compared exactly: two of the same length have the same identity
/// only if they are the same bytes.
pub proof fn law_short_values_compare_exactly(a: Seq<u8>, b: Seq<u8>)
    requires
        a.len() == b.len() <= 8,
        packed(a) == packed(b),
    ensures
        a == b,
{
    bytes::lemma_le_value_bound(a);
    bytes::lemma_le_value_bound(b);
    bytes::lemma_byte_range_grows(a.len(), 8);
    bytes::lemma_byte_ranges();
    lemma_le_value_injective(a, b);
}

} // verus!
