//! Message text: numbers as the messages of this library write them.

use vstd::prelude::*;
use vstd::string::*;

verus! {

/// The character of one hexadecimal digit, upper case.
pub open spec fn digit_char(d: nat) -> char
    recommends
        d < 16,
{
    if d < 10 {
        (48 + d) as char
    } else {
        (55 + d) as char
    }
}

/// `n` in decimal, without leading zeros.
pub open spec fn decimal(n: nat) -> Seq<char>
    decreases n,
{
    if n < 10 {
        seq![digit_char(n)]
    } else {
        decimal(n / 10).push(digit_char(n % 10))
    }
}

/// `b` as two upper-case hexadecimal digits.
pub open spec fn hex_byte(b: u8) -> Seq<char> {
    seq![digit_char((b / 16) as nat), digit_char((b % 16) as nat)]
}

/// The text of one hexadecimal digit.
fn digit_text(d: u8) -> (r: &'static str)
    requires
        d < 16,
    ensures
        r@ == seq![digit_char(d as nat)],
{
    proof {
        reveal_strlit("0");
        reveal_strlit("1");
        reveal_strlit("2");
        reveal_strlit("3");
        reveal_strlit("4");
        reveal_strlit("5");
        reveal_strlit("6");
        reveal_strlit("7");
        reveal_strlit("8");
        reveal_strlit("9");
        reveal_strlit("A");
        reveal_strlit("B");
        reveal_strlit("C");
        reveal_strlit("D");
        reveal_strlit("E");
        reveal_strlit("F");
    }
    let r: &'static str = match d {
        0 => "0",
        1 => "1",
        2 => "2",
        3 => "3",
        4 => "4",
        5 => "5",
        6 => "6",
        7 => "7",
        8 => "8",
        9 => "9",
        10 => "A",
        11 => "B",
        12 => "C",
        13 => "D",
        14 => "E",
        _ => "F",
    };
    assert(r@ =~= seq![digit_char(d as nat)]);
    r
}

/// Append `n` in decimal to `into`.
pub fn push_decimal(into: &mut String, n: u64)
    ensures
        final(into)@ == old(into)@ + decimal(n as nat),
    decreases n,
{
    if n >= 10 {
        push_decimal(into, n / 10);
    }
    into.append(digit_text((n % 10) as u8));
    proof {
        if n >= 10 {
            assert(old(into)@ + decimal((n / 10) as nat) + seq![digit_char((n % 10) as nat)]
                =~= old(into)@ + decimal(n as nat));
        }
    }
}

/// Append `b` as two upper-case hexadecimal digits to `into`.
pub fn push_hex_byte(into: &mut String, b: u8)
    ensures
        final(into)@ == old(into)@ + hex_byte(b),
{
    into.append(digit_text(b / 16));
    into.append(digit_text(b % 16));
    assert(into@ =~= old(into)@ + hex_byte(b));
}

/// The text `before`, then `n` in decimal, then `after`.
pub fn numbered(before: &str, n: u64, after: &str) -> (r: String)
    ensures
        r@ == before@ + decimal(n as nat) + after@,
{
    let mut r = before.to_owned();
    push_decimal(&mut r, n);
    r.append(after);
    r
}

/// `n` in decimal, then `after`.
pub fn counted(n: u64, after: &str) -> (r: String)
    ensures
        r@ == decimal(n as nat) + after@,
{
    let mut r = String::new();
    push_decimal(&mut r, n);
    assert(r@ =~= decimal(n as nat));
    r.append(after);
    r
}

/// The text `before` followed by `after`.
pub fn joined(before: &str, after: &str) -> (r: String)
    ensures
        r@ == before@ + after@,
{
    let mut r = before.to_owned();
    r.append(after);
    r
}

/// What decimal digits are worth.
pub open spec fn decimal_worth(s: Seq<char>) -> int
    decreases s.len(),
{
    if s.len() == 0 {
        0
    } else {
        10 * decimal_worth(s.drop_last()) + (s.last() as int - '0' as int)
    }
}

/// A number in decimal reads back as the number, is made of digits, and has no leading zero.
pub proof fn law_decimals_read_back(n: nat, i: int)
    ensures
        decimal(n).len() > 0,
        decimal_worth(decimal(n)) == n,
        0 <= i < decimal(n).len() ==> '0' <= decimal(n)[i] <= '9',
        n > 0 ==> decimal(n)[0] != '0',
    decreases n,
{
    if n >= 10 {
        law_decimals_read_back(n / 10, i);
        let front = decimal(n / 10);
        let c = digit_char(n % 10);
        assert(decimal(n) == front.push(c));
        assert(front.push(c).drop_last() =~= front);
        assert(decimal(n)[0] == front[0]);
    } else {
        let c = digit_char(n);
        assert(decimal(n) =~= seq![c]);
        assert(seq![c].drop_last() =~= Seq::<char>::empty());
        assert(decimal_worth(Seq::<char>::empty()) == 0);
    }
}

/// A byte's two digits are its halves, the upper one first: `0` to `9`, then `A` to `F`.
pub proof fn law_hexadecimal_bytes(b: u8)
    ensures
        hex_byte(b).len() == 2,
        b / 16 < 10 ==> hex_byte(b)[0] as int == '0' as int + b / 16,
        b / 16 >= 10 ==> hex_byte(b)[0] as int == 'A' as int + b / 16 - 10,
        b % 16 < 10 ==> hex_byte(b)[1] as int == '0' as int + b % 16,
        b % 16 >= 10 ==> hex_byte(b)[1] as int == 'A' as int + b % 16 - 10,
{
}

} // verus!
