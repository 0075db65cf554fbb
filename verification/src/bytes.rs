//! Little-endian numbers in byte strings.

use vstd::prelude::*;

verus! {

/// The low `width` bytes of `n`, least significant first.
pub open spec fn le_bytes(n: nat, width: nat) -> Seq<u8>
    decreases width,
{
    if width == 0 {
        Seq::empty()
    } else {
        seq![(n % 256) as u8] + le_bytes(n / 256, (width - 1) as nat)
    }
}

/// The number whose bytes are `s`, least significant first.
pub open spec fn le_value(s: Seq<u8>) -> nat
    decreases s.len(),
{
    if s.len() == 0 {
        0
    } else {
        s[0] as nat + 256 * le_value(s.skip(1))
    }
}

/// 256 to the power of `width`.
pub open spec fn byte_range(width: nat) -> nat
    decreases width,
{
    if width == 0 {
        1
    } else {
        256 * byte_range((width - 1) as nat)
    }
}

/// How many values the usual widths have.
pub proof fn lemma_byte_ranges()
    ensures
        byte_range(0) == 1,
        byte_range(1) == 0x100,
        byte_range(2) == 0x1_0000,
        byte_range(3) == 0x100_0000,
        byte_range(4) == 0x1_0000_0000,
        byte_range(5) == 0x100_0000_0000,
        byte_range(6) == 0x1_0000_0000_0000,
        byte_range(7) == 0x100_0000_0000_0000,
        byte_range(8) == 0x1_0000_0000_0000_0000,
{
    reveal_with_fuel(byte_range, 9);
}

/// More bytes have more values.
pub proof fn lemma_byte_range_grows(a: nat, b: nat)
    requires
        a <= b,
    ensures
        1 <= byte_range(a) <= byte_range(b),
    decreases b,
{
    if a < b {
        lemma_byte_range_grows(a, (b - 1) as nat);
    } else if a > 0 {
        lemma_byte_range_grows((a - 1) as nat, (a - 1) as nat);
    }
}

/// `width` bytes are that many, and read back as what of the number fits in them.
pub proof fn lemma_le_bytes(n: nat, width: nat)
    ensures
        le_bytes(n, width).len() == width,
        n < byte_range(width) ==> le_value(le_bytes(n, width)) == n,
    decreases width,
{
    if width > 0 {
        lemma_le_bytes(n / 256, (width - 1) as nat);
        assert(le_bytes(n, width).skip(1) =~= le_bytes(n / 256, (width - 1) as nat));
    } else {
        assert(le_bytes(n, 0) =~= Seq::empty());
    }
}

/// A value of `s.len()` bytes is below the number of such values.
pub proof fn lemma_le_value_bound(s: Seq<u8>)
    ensures
        le_value(s) < byte_range(s.len()),
    decreases s.len(),
{
    if s.len() > 0 {
        lemma_le_value_bound(s.skip(1));
    }
}

/// The byte at place `i` counts for 256 to the power of `i`: the first byte is the number's
/// remainder by 256, and each further byte is the remainder of the next quotient.
pub proof fn law_the_lowest_byte_comes_first(n: nat, width: nat, i: nat)
    requires
        i < width,
    ensures
        le_bytes(n, width).len() == width,
        le_bytes(n, width)[0] == n % 256,
        le_bytes(n, width)[i as int] == n / byte_range(i) % 256,
        width == 2 ==> le_bytes(n, width)[1] == n / 256 % 256,
    decreases width,
{
    lemma_le_bytes(n, width);
    lemma_le_bytes(n / 256, (width - 1) as nat);
    lemma_byte_range_grows(0, i);
    if i > 0 {
        law_the_lowest_byte_comes_first(n / 256, (width - 1) as nat, (i - 1) as nat);
        lemma_byte_range_grows(0, (i - 1) as nat);
        vstd::arithmetic::div_mod::lemma_div_denominator(
            n as int,
            256,
            byte_range((i - 1) as nat) as int,
        );
        assert(le_bytes(n, width)[i as int] == le_bytes(n / 256, (width - 1) as nat)[i - 1]);
    }
    if width == 2 {
        assert(le_bytes(n, 2)[1] == le_bytes(n / 256, 1)[0]);
    }
}

/// What bytes are worth: two, four and eight of them, each place worth 256 times the one before.
pub proof fn law_what_bytes_are_worth(s: Seq<u8>)
    ensures
        s.len() == 1 ==> le_value(s) == s[0],
        s.len() == 2 ==> le_value(s) == s[0] + 0x100 * s[1],
        s.len() == 4 ==> le_value(s) == s[0] + 0x100 * s[1] + 0x1_0000 * s[2] + 0x100_0000 * s[3],
        s.len() == 8 ==> le_value(s) == s[0] + 0x100 * s[1] + 0x1_0000 * s[2] + 0x100_0000 * s[3]
            + 0x1_0000_0000 * s[4] + 0x100_0000_0000 * s[5] + 0x1_0000_0000_0000 * s[6]
            + 0x100_0000_0000_0000 * s[7],
{
    reveal_with_fuel(le_value, 9);
}

/// Append the low `width` bytes of `n`, least significant first.
pub fn push_le(out: &mut Vec<u8>, n: u64, width: usize)
    ensures
        final(out)@ == old(out)@ + le_bytes(n as nat, width as nat),
{
    let mut left: u64 = n;
    let mut i: usize = 0;
    let ghost base = out@;
    while i < width
        invariant
            i <= width,
            base + le_bytes(n as nat, width as nat) == out@ + le_bytes(
                left as nat,
                (width - i) as nat,
            ),
        decreases width - i,
    {
        let ghost before = out@;
        let ghost old_left = left;
        out.push((left % 256) as u8);
        left = left / 256;
        i = i + 1;
        assert(out@ + le_bytes(left as nat, (width - i) as nat) =~= before + le_bytes(
            old_left as nat,
            (width - i + 1) as nat,
        ));
    }
    assert(out@ + le_bytes(left as nat, 0) =~= out@);
}

/// The number whose bytes are `bytes[start..start + width]`, least significant first.
pub fn read_le(bytes: &[u8], start: usize, width: usize) -> (r: u64)
    requires
        width <= 8,
        start + width <= bytes@.len(),
    ensures
        r == le_value(bytes@.subrange(start as int, start + width)),
        r < byte_range(width as nat),
{
    let mut value: u64 = 0;
    let mut i: usize = width;
    let len: usize = bytes.len();
    proof {
        lemma_byte_ranges();
        assert(bytes@.subrange(start + width, start + width) =~= Seq::empty());
    }
    while i > 0
        invariant
            i <= width <= 8,
            start + width <= bytes@.len() == len,
            value == le_value(bytes@.subrange(start + i, start + width)),
        decreases i,
    {
        i = i - 1;
        let ghost s = bytes@.subrange(start + i, start + width);
        proof {
            assert(s.skip(1) =~= bytes@.subrange(start + i + 1, start + width));
            lemma_le_value_bound(s);
            lemma_byte_range_grows(s.len(), 8);
            lemma_byte_ranges();
        }
        value = value * 256 + bytes[start + i] as u64;
    }
    proof {
        lemma_le_value_bound(bytes@.subrange(start as int, start + width));
    }
    value
}

} // verus!
