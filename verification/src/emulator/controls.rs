//! What reaches the consoles: every button where the console looks for it, every colour as it was
//! drawn, every address where the console has it, and frames as long as the speed says.

use super::game_boy_advance;
use super::game_boy_color;
use super::input::Input;
use super::memory::MemoryRegionInfo;
use super::nintendo_3ds;
use super::nintendo_ds;
use super::pacing;
use crate::bytes;
use crate::replay::packet::Speed;
use vstd::arithmetic::div_mod::{lemma_div_denominator, lemma_fundamental_div_mod_converse};
use vstd::prelude::*;

verus! {

/// Whether the bit of that weight is set in a number.
#[verifier::opaque]
pub open spec fn has_bit(n: int, weight: int) -> bool {
    n / weight % 2 == 1
}

proof fn lemma_halved(n: int, v: int, m: int, weight: int)
    requires
        n == v + 2 * m,
        0 <= v <= 1,
        m >= 0,
        weight >= 1,
    ensures
        has_bit(n, 1) == (v == 1),
        has_bit(n, 2 * weight) == has_bit(m, weight),
{
    reveal(has_bit);
    lemma_div_denominator(n, 2, weight);
    assert(n / 2 == m);
}

#[verifier::spinoff_prover]
#[verifier::rlimit(40)]
proof fn lemma_bit_values(
    n: int,
    v0: int,
    v1: int,
    v2: int,
    v3: int,
    v4: int,
    v5: int,
    v6: int,
    v7: int,
    v8: int,
    v9: int,
    v10: int,
    v11: int,
    v12: int,
)
    requires
        0 <= v0 <= 1,
        0 <= v1 <= 1,
        0 <= v2 <= 1,
        0 <= v3 <= 1,
        0 <= v4 <= 1,
        0 <= v5 <= 1,
        0 <= v6 <= 1,
        0 <= v7 <= 1,
        0 <= v8 <= 1,
        0 <= v9 <= 1,
        0 <= v10 <= 1,
        0 <= v11 <= 1,
        0 <= v12 <= 1,
        n == 1 * v0 + 2 * v1 + 4 * v2 + 8 * v3 + 16 * v4 + 32 * v5 + 64 * v6 + 128 * v7 + 256 * v8 + 512 * v9 + 1024 * v10 + 2048 * v11 + 4096 * v12,
    ensures
        has_bit(n, 1) == (v0 == 1),
        has_bit(n, 2) == (v1 == 1),
        has_bit(n, 4) == (v2 == 1),
        has_bit(n, 8) == (v3 == 1),
        has_bit(n, 16) == (v4 == 1),
        has_bit(n, 32) == (v5 == 1),
        has_bit(n, 64) == (v6 == 1),
        has_bit(n, 128) == (v7 == 1),
        has_bit(n, 256) == (v8 == 1),
        has_bit(n, 512) == (v9 == 1),
        has_bit(n, 1024) == (v10 == 1),
        has_bit(n, 2048) == (v11 == 1),
        has_bit(n, 4096) == (v12 == 1),
{
    let m12 = v12;
    let m11 = v11 + 2 * m12;
    let m10 = v10 + 2 * m11;
    let m9 = v9 + 2 * m10;
    let m8 = v8 + 2 * m9;
    let m7 = v7 + 2 * m8;
    let m6 = v6 + 2 * m7;
    let m5 = v5 + 2 * m6;
    let m4 = v4 + 2 * m5;
    let m3 = v3 + 2 * m4;
    let m2 = v2 + 2 * m3;
    let m1 = v1 + 2 * m2;
    let m0 = v0 + 2 * m1;
    lemma_halved(m0, v0, m1, 1);
    lemma_halved(m0, v0, m1, 2);
    lemma_halved(m1, v1, m2, 1);
    lemma_halved(m0, v0, m1, 4);
    lemma_halved(m1, v1, m2, 2);
    lemma_halved(m2, v2, m3, 1);
    lemma_halved(m0, v0, m1, 8);
    lemma_halved(m1, v1, m2, 4);
    lemma_halved(m2, v2, m3, 2);
    lemma_halved(m3, v3, m4, 1);
    lemma_halved(m0, v0, m1, 16);
    lemma_halved(m1, v1, m2, 8);
    lemma_halved(m2, v2, m3, 4);
    lemma_halved(m3, v3, m4, 2);
    lemma_halved(m4, v4, m5, 1);
    lemma_halved(m0, v0, m1, 32);
    lemma_halved(m1, v1, m2, 16);
    lemma_halved(m2, v2, m3, 8);
    lemma_halved(m3, v3, m4, 4);
    lemma_halved(m4, v4, m5, 2);
    lemma_halved(m5, v5, m6, 1);
    lemma_halved(m0, v0, m1, 64);
    lemma_halved(m1, v1, m2, 32);
    lemma_halved(m2, v2, m3, 16);
    lemma_halved(m3, v3, m4, 8);
    lemma_halved(m4, v4, m5, 4);
    lemma_halved(m5, v5, m6, 2);
    lemma_halved(m6, v6, m7, 1);
    lemma_halved(m0, v0, m1, 128);
    lemma_halved(m1, v1, m2, 64);
    lemma_halved(m2, v2, m3, 32);
    lemma_halved(m3, v3, m4, 16);
    lemma_halved(m4, v4, m5, 8);
    lemma_halved(m5, v5, m6, 4);
    lemma_halved(m6, v6, m7, 2);
    lemma_halved(m7, v7, m8, 1);
    lemma_halved(m0, v0, m1, 256);
    lemma_halved(m1, v1, m2, 128);
    lemma_halved(m2, v2, m3, 64);
    lemma_halved(m3, v3, m4, 32);
    lemma_halved(m4, v4, m5, 16);
    lemma_halved(m5, v5, m6, 8);
    lemma_halved(m6, v6, m7, 4);
    lemma_halved(m7, v7, m8, 2);
    lemma_halved(m8, v8, m9, 1);
    lemma_halved(m0, v0, m1, 512);
    lemma_halved(m1, v1, m2, 256);
    lemma_halved(m2, v2, m3, 128);
    lemma_halved(m3, v3, m4, 64);
    lemma_halved(m4, v4, m5, 32);
    lemma_halved(m5, v5, m6, 16);
    lemma_halved(m6, v6, m7, 8);
    lemma_halved(m7, v7, m8, 4);
    lemma_halved(m8, v8, m9, 2);
    lemma_halved(m9, v9, m10, 1);
    lemma_halved(m0, v0, m1, 1024);
    lemma_halved(m1, v1, m2, 512);
    lemma_halved(m2, v2, m3, 256);
    lemma_halved(m3, v3, m4, 128);
    lemma_halved(m4, v4, m5, 64);
    lemma_halved(m5, v5, m6, 32);
    lemma_halved(m6, v6, m7, 16);
    lemma_halved(m7, v7, m8, 8);
    lemma_halved(m8, v8, m9, 4);
    lemma_halved(m9, v9, m10, 2);
    lemma_halved(m10, v10, m11, 1);
    lemma_halved(m0, v0, m1, 2048);
    lemma_halved(m1, v1, m2, 1024);
    lemma_halved(m2, v2, m3, 512);
    lemma_halved(m3, v3, m4, 256);
    lemma_halved(m4, v4, m5, 128);
    lemma_halved(m5, v5, m6, 64);
    lemma_halved(m6, v6, m7, 32);
    lemma_halved(m7, v7, m8, 16);
    lemma_halved(m8, v8, m9, 8);
    lemma_halved(m9, v9, m10, 4);
    lemma_halved(m10, v10, m11, 2);
    lemma_halved(m11, v11, m12, 1);
    lemma_halved(m12, v12, 0, 1);
}

proof fn lemma_share(set: bool, weight: int) -> (v: int)
    ensures
        0 <= v <= 1,
        v == 1 <==> set,
        game_boy_color::weight(set, weight) == weight * v,
{
    if set {
        1
    } else {
        0
    }
}

/// A Game Boy's input byte: each button has a bit of its own, the directions' in the lower half.
#[verifier::spinoff_prover]
#[verifier::rlimit(40)]
pub proof fn law_game_boy_buttons(input: Input)
    ensures
        has_bit(game_boy_color::buttons(input), 0x01) == input.d_right,
        has_bit(game_boy_color::buttons(input), 0x02) == input.d_left,
        has_bit(game_boy_color::buttons(input), 0x04) == input.d_up,
        has_bit(game_boy_color::buttons(input), 0x08) == input.d_down,
        has_bit(game_boy_color::buttons(input), 0x10) == input.a,
        has_bit(game_boy_color::buttons(input), 0x20) == input.b,
        has_bit(game_boy_color::buttons(input), 0x40) == input.select,
        has_bit(game_boy_color::buttons(input), 0x80) == input.start,
{
    let v0 = lemma_share(input.d_right, 1);
    let v1 = lemma_share(input.d_left, 2);
    let v2 = lemma_share(input.d_up, 4);
    let v3 = lemma_share(input.d_down, 8);
    let v4 = lemma_share(input.a, 16);
    let v5 = lemma_share(input.b, 32);
    let v6 = lemma_share(input.select, 64);
    let v7 = lemma_share(input.start, 128);
    lemma_bit_values(
        game_boy_color::buttons(input),
        v0,
        v1,
        v2,
        v3,
        v4,
        v5,
        v6,
        v7,
        0,
        0,
        0,
        0,
        0,
    );
}

/// A Game Boy Advance's keys: each has a bit of its own, in the order of the key register.
#[verifier::spinoff_prover]
#[verifier::rlimit(40)]
pub proof fn law_game_boy_advance_keys(input: Input)
    ensures
        has_bit(game_boy_advance::keys(input), 0x001) == input.a,
        has_bit(game_boy_advance::keys(input), 0x002) == input.b,
        has_bit(game_boy_advance::keys(input), 0x004) == input.select,
        has_bit(game_boy_advance::keys(input), 0x008) == input.start,
        has_bit(game_boy_advance::keys(input), 0x010) == input.d_right,
        has_bit(game_boy_advance::keys(input), 0x020) == input.d_left,
        has_bit(game_boy_advance::keys(input), 0x040) == input.d_up,
        has_bit(game_boy_advance::keys(input), 0x080) == input.d_down,
        has_bit(game_boy_advance::keys(input), 0x100) == input.r,
        has_bit(game_boy_advance::keys(input), 0x200) == input.l,
{
    let v0 = lemma_share(input.a, 1);
    let v1 = lemma_share(input.b, 2);
    let v2 = lemma_share(input.select, 4);
    let v3 = lemma_share(input.start, 8);
    let v4 = lemma_share(input.d_right, 16);
    let v5 = lemma_share(input.d_left, 32);
    let v6 = lemma_share(input.d_up, 64);
    let v7 = lemma_share(input.d_down, 128);
    let v8 = lemma_share(input.r, 256);
    let v9 = lemma_share(input.l, 512);
    lemma_bit_values(
        game_boy_advance::keys(input),
        v0,
        v1,
        v2,
        v3,
        v4,
        v5,
        v6,
        v7,
        v8,
        v9,
        0,
        0,
        0,
    );
}

/// A Nintendo DS has the Game Boy Advance's keys, and above them X, Y and whether the screen is
/// touched.
#[verifier::spinoff_prover]
#[verifier::rlimit(40)]
pub proof fn law_nintendo_ds_keys(input: Input)
    ensures
        has_bit(nintendo_ds::keys(input), 0x0001) == input.a,
        has_bit(nintendo_ds::keys(input), 0x0002) == input.b,
        has_bit(nintendo_ds::keys(input), 0x0004) == input.select,
        has_bit(nintendo_ds::keys(input), 0x0008) == input.start,
        has_bit(nintendo_ds::keys(input), 0x0010) == input.d_right,
        has_bit(nintendo_ds::keys(input), 0x0020) == input.d_left,
        has_bit(nintendo_ds::keys(input), 0x0040) == input.d_up,
        has_bit(nintendo_ds::keys(input), 0x0080) == input.d_down,
        has_bit(nintendo_ds::keys(input), 0x0100) == input.r,
        has_bit(nintendo_ds::keys(input), 0x0200) == input.l,
        has_bit(nintendo_ds::keys(input), 0x0400) == input.x,
        has_bit(nintendo_ds::keys(input), 0x0800) == input.y,
        has_bit(nintendo_ds::keys(input), 0x1000) == (input.touch is Some),
{
    let v0 = lemma_share(input.a, 1);
    let v1 = lemma_share(input.b, 2);
    let v2 = lemma_share(input.select, 4);
    let v3 = lemma_share(input.start, 8);
    let v4 = lemma_share(input.d_right, 16);
    let v5 = lemma_share(input.d_left, 32);
    let v6 = lemma_share(input.d_up, 64);
    let v7 = lemma_share(input.d_down, 128);
    let v8 = lemma_share(input.r, 256);
    let v9 = lemma_share(input.l, 512);
    let v10 = lemma_share(input.x, 1024);
    let v11 = lemma_share(input.y, 2048);
    let v12 = lemma_share(input.touch is Some, 4096);
    lemma_bit_values(
        nintendo_ds::keys(input),
        v0,
        v1,
        v2,
        v3,
        v4,
        v5,
        v6,
        v7,
        v8,
        v9,
        v10,
        v11,
        v12,
    );
}

/// A stick that is used is passed on as it is; otherwise the directional buttons steer fully in
/// their direction, and opposite ones cancel out.
pub proof fn law_nintendo_3ds_circle_pad(input: Input)
    ensures
        input.circle != (0i8, 0i8) ==> nintendo_3ds::circle_pad(input) == input.circle,
        input.circle == (0i8, 0i8) ==> {
            let (x, y) = nintendo_3ds::circle_pad(input);
            &&& x > 0 <==> input.d_right && !input.d_left
            &&& x < 0 <==> input.d_left && !input.d_right
            &&& y > 0 <==> input.d_up && !input.d_down
            &&& y < 0 <==> input.d_down && !input.d_up
            &&& -127 <= x <= 127 && -127 <= y <= 127
            &&& x != 0 ==> x == 127 || x == -127
            &&& y != 0 ==> y == 127 || y == -127
        },
{
}

/// Where a Nintendo 3DS input holds what: the buttons in four bytes, then the circle pad, the C
/// stick and the touch point, whose `x` has two bytes. A touch outside the screen is moved to its
/// edge.
pub proof fn law_nintendo_3ds_input(input: Input, bits: nintendo_3ds::ButtonBits)
    ensures
        ({
            let e = nintendo_3ds::encoded(input, bits);
            &&& e.len() == 12
            &&& bytes::le_value(e.subrange(0, 4)) == nintendo_3ds::buttons(input, bits)
            &&& e[4] == nintendo_3ds::circle_pad(input).0 as int % 256
            &&& e[5] == nintendo_3ds::circle_pad(input).1 as int % 256
            &&& e[6] == input.c_stick.0 as int % 256
            &&& e[7] == input.c_stick.1 as int % 256
            &&& input.touch is None ==> e[8] == 0
            &&& input.touch matches Some((x, y)) ==> {
                &&& e[8] == 1
                &&& e[9] <= 239
                &&& e[10] + 0x100 * e[11] <= 319
                &&& x <= 319 ==> e[10] + 0x100 * e[11] == x
                &&& x > 319 ==> e[10] + 0x100 * e[11] == 319
                &&& y <= 239 ==> e[9] == y
                &&& y > 239 ==> e[9] == 239
            }
        }),
{
    let e = nintendo_3ds::encoded(input, bits);
    bytes::lemma_le_bytes(nintendo_3ds::buttons(input, bits) as nat, 4);
    bytes::lemma_byte_ranges();
    assert(e.subrange(0, 4) =~= bytes::le_bytes(nintendo_3ds::buttons(input, bits) as nat, 4));
}

/// Two inputs held at once press what either presses; where both use a stick or touch the screen,
/// the first one's counts.
pub proof fn law_inputs_held_at_once(a: Input, b: Input)
    ensures
        a.either(b).a <==> a.a || b.a,
        a.either(b).b <==> a.b || b.b,
        a.either(b).start <==> a.start || b.start,
        a.either(b).select <==> a.select || b.select,
        a.either(b).d_up <==> a.d_up || b.d_up,
        a.either(b).d_down <==> a.d_down || b.d_down,
        a.either(b).d_left <==> a.d_left || b.d_left,
        a.either(b).d_right <==> a.d_right || b.d_right,
        a.either(b).l <==> a.l || b.l,
        a.either(b).r <==> a.r || b.r,
        a.either(b).x <==> a.x || b.x,
        a.either(b).y <==> a.y || b.y,
        a.either(b).zl <==> a.zl || b.zl,
        a.either(b).zr <==> a.zr || b.zr,
        a.circle != (0i8, 0i8) ==> a.either(b).circle == a.circle,
        a.circle == (0i8, 0i8) ==> a.either(b).circle == b.circle,
        a.c_stick != (0i8, 0i8) ==> a.either(b).c_stick == a.c_stick,
        a.c_stick == (0i8, 0i8) ==> a.either(b).c_stick == b.c_stick,
        a.touch is Some ==> a.either(b).touch == a.touch,
        a.touch is None ==> a.either(b).touch == b.touch,
{
}

/// What both hold is pressed by each; a stick or a touch is the second one's, if the first uses its
/// own.
pub proof fn law_what_both_hold(a: Input, b: Input)
    ensures
        a.both(b).a <==> a.a && b.a,
        a.both(b).b <==> a.b && b.b,
        a.both(b).start <==> a.start && b.start,
        a.both(b).select <==> a.select && b.select,
        a.both(b).d_up <==> a.d_up && b.d_up,
        a.both(b).d_down <==> a.d_down && b.d_down,
        a.both(b).d_left <==> a.d_left && b.d_left,
        a.both(b).d_right <==> a.d_right && b.d_right,
        a.both(b).l <==> a.l && b.l,
        a.both(b).r <==> a.r && b.r,
        a.both(b).x <==> a.x && b.x,
        a.both(b).y <==> a.y && b.y,
        a.both(b).zl <==> a.zl && b.zl,
        a.both(b).zr <==> a.zr && b.zr,
        a.touch is None ==> a.both(b).touch is None,
        a.touch is Some ==> a.both(b).touch == b.touch,
        a.circle == (0i8, 0i8) ==> a.both(b).circle == (0i8, 0i8),
        a.circle != (0i8, 0i8) ==> a.both(b).circle == b.circle,
        a.c_stick == (0i8, 0i8) ==> a.both(b).c_stick == (0i8, 0i8),
        a.c_stick != (0i8, 0i8) ==> a.both(b).c_stick == b.c_stick,
{
}

/// Released, exactly the other buttons are pressed, and no stick or touch is left: nothing is held
/// in common, and together every button is.
pub proof fn law_what_is_released(a: Input)
    ensures
        !a.both(a.released()).a && a.either(a.released()).a,
        !a.both(a.released()).b && a.either(a.released()).b,
        !a.both(a.released()).start && a.either(a.released()).start,
        !a.both(a.released()).select && a.either(a.released()).select,
        !a.both(a.released()).d_up && a.either(a.released()).d_up,
        !a.both(a.released()).d_down && a.either(a.released()).d_down,
        !a.both(a.released()).d_left && a.either(a.released()).d_left,
        !a.both(a.released()).d_right && a.either(a.released()).d_right,
        !a.both(a.released()).l && a.either(a.released()).l,
        !a.both(a.released()).r && a.either(a.released()).r,
        !a.both(a.released()).x && a.either(a.released()).x,
        !a.both(a.released()).y && a.either(a.released()).y,
        !a.both(a.released()).zl && a.either(a.released()).zl,
        !a.both(a.released()).zr && a.either(a.released()).zr,
        a.released().touch is None,
        a.released().circle == (0i8, 0i8),
        a.released().c_stick == (0i8, 0i8),
{
}

// ---------------------------------------------------------------------------------------------
// Colours.

/// A Game Boy Advance's pixel has red lowest and the screen's has blue lowest; either way the
/// amounts are the same, and the screen's pixel is opaque. Swapping twice gives the colour back.
pub proof fn law_colours_stay(pixel: u32)
    ensures
        ({
            let shown = game_boy_advance::swizzled(pixel);
            &&& shown / 0x1_0000 % 0x100 == pixel % 0x100
            &&& shown / 0x100 % 0x100 == pixel / 0x100 % 0x100
            &&& shown % 0x100 == pixel / 0x1_0000 % 0x100
            &&& shown / 0x100_0000 == 0xFF
            &&& 0 <= shown <= u32::MAX
            &&& game_boy_advance::swizzled(shown as u32) % 0x100_0000 == pixel % 0x100_0000
        }),
{
    let red = (pixel % 0x100) as int;
    let green = (pixel / 0x100 % 0x100) as int;
    let blue = (pixel / 0x1_0000 % 0x100) as int;
    let shown = game_boy_advance::swizzled(pixel);
    lemma_mixed(red, green, blue);
    lemma_mixed(blue, green, red);
    let mixed = shown as u32;
    assert(mixed % 0x100 == blue && mixed / 0x100 % 0x100 == green && mixed / 0x1_0000 % 0x100
        == red);
    assert(game_boy_advance::swizzled(mixed) == 0xFF00_0000 + blue * 0x1_0000 + green * 0x100
        + red);
    let rest = (pixel / 0x100_0000) as int;
    assert(pixel == rest * 0x100_0000 + (blue * 0x1_0000 + green * 0x100 + red)) by {
        assert(pixel == (pixel / 0x100) * 0x100 + red);
        assert(pixel / 0x100 / 0x100 == pixel / 0x1_0000);
        assert(pixel / 0x1_0000 / 0x100 == pixel / 0x100_0000);
    }
    lemma_fundamental_div_mod_converse(
        pixel as int,
        0x100_0000,
        rest,
        blue * 0x1_0000 + green * 0x100 + red,
    );
}

/// A colour of those amounts.
proof fn lemma_mixed(red: int, green: int, blue: int)
    requires
        0 <= red < 0x100,
        0 <= green < 0x100,
        0 <= blue < 0x100,
    ensures
        ({
            let n = 0xFF00_0000 + red * 0x1_0000 + green * 0x100 + blue;
            &&& n % 0x100 == blue
            &&& n / 0x100 % 0x100 == green
            &&& n / 0x1_0000 % 0x100 == red
            &&& n / 0x100_0000 == 0xFF
            &&& n % 0x100_0000 == red * 0x1_0000 + green * 0x100 + blue
            &&& 0 <= n <= u32::MAX
        }),
{
    let n = 0xFF00_0000 + red * 0x1_0000 + green * 0x100 + blue;
    lemma_fundamental_div_mod_converse(n, 0x100, 0xFF_0000 + red * 0x100 + green, blue);
    lemma_fundamental_div_mod_converse(
        0xFF_0000 + red * 0x100 + green,
        0x100,
        0xFF00 + red,
        green,
    );
    lemma_fundamental_div_mod_converse(n, 0x1_0000, 0xFF00 + red, green * 0x100 + blue);
    lemma_fundamental_div_mod_converse(0xFF00 + red, 0x100, 0xFF, red);
    lemma_fundamental_div_mod_converse(
        n,
        0x100_0000,
        0xFF,
        red * 0x1_0000 + green * 0x100 + blue,
    );
}

/// A Game Boy's colour is drawn as it is, opaque.
pub proof fn law_palette_colours_stay(color: u32)
    ensures
        game_boy_color::opaque_pixel(color) % 0x100_0000 == color % 0x100_0000,
        game_boy_color::opaque_pixel(color) / 0x100_0000 == 0xFF,
{
}

/// What the core of a Game Boy Advance drew is what its screen shows, colour by colour, pixel by
/// pixel.
pub proof fn law_the_screen_shows_what_was_drawn(
    before: game_boy_advance::GameBoyAdvance,
    after: game_boy_advance::GameBoyAdvance,
    pixels: Seq<u32>,
    i: int,
)
    requires
        before.published(after, pixels),
        0 <= i < before.screen.pixels@.len(),
    ensures
        after.screen.pixels@.len() == before.screen.pixels@.len(),
        i < pixels.len() ==> {
            &&& after.screen.pixels@[i] / 0x1_0000 % 0x100 == pixels[i] % 0x100
            &&& after.screen.pixels@[i] / 0x100 % 0x100 == pixels[i] / 0x100 % 0x100
            &&& after.screen.pixels@[i] % 0x100 == pixels[i] / 0x1_0000 % 0x100
        },
        i >= pixels.len() ==> after.screen.pixels@[i] == before.screen.pixels@[i],
        after.link == before.link && after.pacer == before.pacer,
{
    if i < pixels.len() {
        law_colours_stay(pixels[i]);
    }
}

/// A slice of a linked step that completes no frame leaves the console in the middle of one and
/// shows nothing; one that does is a frame that was drawn.
pub proof fn law_slices_of_a_linked_frame(
    before: game_boy_advance::GameBoyAdvance,
    after: game_boy_advance::GameBoyAdvance,
    frames: u64,
    clock: i32,
    pixels: Seq<u32>,
    paced: bool,
    now: u64,
    r: super::console::RunTime,
)
    requires
        before.slice_ran(after, frames, clock, pixels, paced, now, r),
    ensures
        frames == 0 ==> r.frames == 0 && !r.presented && after.link.mid_frame && after.screen
            == before.screen && after.pacer == before.pacer,
        frames > 0 ==> r.frames == 1 && r.presented && !after.link.mid_frame,
        frames > 0 && !paced ==> after.pacer.last_frame_microseconds == now,
        after.link.last_now == clock,
{
}

/// The upper screen of a Nintendo DS comes first; a frame that is not drawn leaves both as they
/// were.
pub proof fn law_both_screens_are_shown(
    before: nintendo_ds::NintendoDS,
    after: nintendo_ds::NintendoDS,
    upper: Vec<u32>,
    lower: Vec<u32>,
    r: super::console::RunTime,
)
    requires
        before.frame_shown(after, upper, lower, r),
    ensures
        r.frames == 1,
        r.presented <==> !before.skip_drawing,
        before.skip_drawing ==> after.screens == before.screens,
        !before.skip_drawing ==> after.screens@.len() == 2 && after.screens@[0].pixels == upper
            && after.screens@[1].pixels == lower,
{
}

/// A step of a Game Boy ran as many frames as it completed, is between frames only after one, and
/// its cycles add up.
pub proof fn law_steps_of_a_game_boy(
    before: game_boy_color::GameBoyColor,
    after: game_boy_color::GameBoyColor,
    cycles: u64,
    time: super::console::RunTime,
    due: Seq<bool>,
)
    requires
        before.ran(after, cycles, time, due),
        before.cycles + cycles <= u64::MAX,
    ensures
        time.frames == before.run_frames,
        time.presented <==> before.run_frames > 0,
        after.mid_frame <==> before.run_frames == 0,
        after.run_frames == 0,
        after.cycles == before.cycles + cycles,
{
}

/// The instance that renders sound is made a copy of the emulated one again as soon as it took
/// another path, is compared with it once a second, and is otherwise left alone.
pub proof fn law_the_sound_follows_the_game(
    before: game_boy_color::GameBoyColor,
    after: game_boy_color::GameBoyColor,
    shadow: game_boy_color::ShadowAudio,
    cycles: u64,
    frames: u64,
    r: game_boy_color::ShadowCheck,
)
    requires
        before.shadow == Some(shadow),
        before.shadow_followed(after, cycles, frames, r),
        shadow.cycles + cycles <= u64::MAX,
        shadow.frames_since_check + frames <= u32::MAX,
        shadow.resyncs < u64::MAX,
    ensures
        r == game_boy_color::ShadowCheck::Resync <==> shadow.cycles + cycles != before.cycles
            || shadow.missed || shadow.master_bits@.len() > 0,
        r == game_boy_color::ShadowCheck::Resync ==> after.cycles == 0 && (after.shadow matches
            Some(s) && s.cycles == 0 && s.resyncs == shadow.resyncs + 1 && !s.missed),
        r == game_boy_color::ShadowCheck::Compare ==> shadow.frames_since_check + frames >= 60,
        r == game_boy_color::ShadowCheck::Aligned ==> shadow.frames_since_check + frames < 60 && (
        after.shadow matches Some(s) && s.cycles == after.cycles),
{
}

// ---------------------------------------------------------------------------------------------
// Memory.

/// Whether two regions share no address.
pub open spec fn apart(a: MemoryRegionInfo, b: MemoryRegionInfo) -> bool {
    a.base_address + a.len <= b.base_address || b.base_address + b.len <= a.base_address
}

/// The regions of the larger consoles are little-endian, may be written and share no address; main
/// memory is where the console has it.
pub proof fn law_address_spaces(regions: Seq<MemoryRegionInfo>, i: int, j: int)
    requires
        game_boy_advance::is_gba_map(regions) || nintendo_ds::is_nds_map(regions)
            || nintendo_3ds::is_3ds_map(regions),
        0 <= i < j < regions.len(),
    ensures
        apart(regions[i], regions[j]),
        !regions[i].default_big_endian && regions[i].writable && !regions[j].default_big_endian
            && regions[j].writable,
        game_boy_advance::is_gba_map(regions) ==> regions[0].base_address == 0x0200_0000
            && regions[0].len == 0x40000 && regions[1].base_address == 0x0300_0000 && regions[1].len
            == 0x8000,
        nintendo_ds::is_nds_map(regions) ==> regions[0].base_address == 0x0200_0000
            && regions[0].len == 0x40_0000,
        nintendo_3ds::is_3ds_map(regions) ==> regions[0].base_address == 0x0800_0000
            && regions[1].base_address == 0x1400_0000,
{
}

/// A Game Boy's areas share no address, keep to the console's bus where they are on it, and begin
/// in their part of memory where the ones before ended.
pub proof fn law_game_boy_address_space(sizes: game_boy_color::GbMemorySizes, i: int, j: int)
    requires
        0 <= i < 7,
        0 <= j < 7,
        i != j,
    ensures
        ({
            let areas = game_boy_color::gb_areas(sizes);
            &&& areas.len() == 7
            &&& areas[i].base_address + areas[i].len <= areas[j].base_address
                || areas[j].base_address + areas[j].len <= areas[i].base_address
            &&& areas[0].base_address == 0x8000 && areas[0].len <= 0x2000
            &&& areas[1].base_address == 0xC000 && areas[1].len <= 0x2000
            &&& areas[2].base_address == 0x10000 && areas[2].source.offset == 0x2000
                && areas[2].source.region == areas[1].source.region
            &&& areas[1].len + areas[2].len <= sizes.ram
            &&& sizes.ram <= 0x10000 ==> areas[1].len + areas[2].len == sizes.ram
            &&& areas[3].base_address == 0xFE00 && areas[3].len <= 0xA0
            &&& areas[4].base_address == 0xFF00 && areas[4].len <= 0x80
            &&& areas[5].base_address == 0xFF80 && areas[5].len <= 0x7F
            &&& areas[6].base_address == 0x20000 && areas[6].len <= sizes.cartridge_ram
            &&& areas[i].writable <==> i != 4
        }),
{
}

/// The regions a Game Boy lists are its areas that are there, in order, each with its own bytes:
/// every area that is not empty is listed, and no empty one.
pub proof fn law_every_area_that_is_there_is_listed(
    areas: Seq<game_boy_color::GbArea>,
    n: nat,
    i: int,
)
    requires
        n <= areas.len(),
        0 <= i < n,
    ensures
        areas[i].len > 0 ==> game_boy_color::present(areas, n).contains(areas[i]),
        forall|k: int|
            0 <= k < game_boy_color::present(areas, n).len() ==> (#[trigger] game_boy_color::present(
                areas,
                n,
            )[k]).len > 0,
    decreases n,
{
    let fewer = game_boy_color::present(areas, (n - 1) as nat);
    let all = game_boy_color::present(areas, n);
    if n > 1 {
        law_every_area_that_is_there_is_listed(
            areas,
            (n - 1) as nat,
            if i < n - 1 {
                i
            } else {
                0
            },
        );
    } else {
        assert(fewer =~= Seq::<game_boy_color::GbArea>::empty());
    }
    if areas[i].len > 0 {
        if i < n - 1 {
            let k = choose|k: int| 0 <= k < fewer.len() && fewer[k] == areas[i];
            assert(all[k] == areas[i]);
        } else {
            assert(all[fewer.len() as int] == areas[i]);
        }
    }
    assert forall|k: int| 0 <= k < all.len() implies (#[trigger] all[k]).len > 0 by {
        if k < fewer.len() {
            assert(fewer[k].len > 0);
        }
    }
}

/// Of a save state at most two bytes are cleared for the instance that renders sound: the pending
/// cycles of the sound hardware.
pub proof fn law_only_pending_cycles_are_cleared(state: Seq<u8>, i: int)
    requires
        0 <= i < state.len(),
    ensures
        game_boy_color::without_pending_apu_cycles(state).len() == state.len(),
        game_boy_color::pending_apu_cycles(state, 8, 5) is None
            ==> game_boy_color::without_pending_apu_cycles(state) == state,
        game_boy_color::pending_apu_cycles(state, 8, 5) matches Some(at) ==> (if i == at || i == at
            + 1 {
            game_boy_color::without_pending_apu_cycles(state)[i] == 0
        } else {
            game_boy_color::without_pending_apu_cycles(state)[i] == state[i]
        }),
{
    lemma_pending_inside(state, 8, 5);
}

proof fn lemma_pending_inside(state: Seq<u8>, offset: int, sections: nat)
    requires
        offset >= 0,
    ensures
        game_boy_color::pending_apu_cycles(state, offset, sections) matches Some(at) ==> 0 <= at
            && at + 1 < state.len(),
    decreases sections,
{
    if offset + 4 <= state.len() && sections > 0 {
        lemma_pending_inside(
            state,
            offset + 4 + bytes::le_value(state.subrange(offset, offset + 4)),
            (sections - 1) as nat,
        );
    }
}

// ---------------------------------------------------------------------------------------------
// Speed.

/// At the console's own speed a frame is as long as it is; at twice the speed half as long; and the
/// faster, the shorter. A console that stands still has the longest frames there are.
pub proof fn law_frames_are_as_long_as_the_speed_says(normal: u64, speed: Speed, faster: Speed)
    requires
        normal <= u32::MAX,
        0 < speed.units <= faster.units,
    ensures
        pacing::frame_length(normal, Speed { units: 256 }) == normal,
        pacing::frame_length(normal, Speed { units: 512 }) == normal / 2,
        pacing::frame_length(normal, faster) <= pacing::frame_length(normal, speed),
        pacing::frame_length(normal, Speed { units: 0 }) == u32::MAX,
        ({
            let length = pacing::frame_length(normal, speed);
            &&& length * speed.units <= normal * 256
            &&& length < u32::MAX ==> normal * 256 < (length + 1) * speed.units
        }),
{
    let total = normal * 256;
    let slow = speed.units as int;
    let fast = faster.units as int;
    vstd::arithmetic::div_mod::lemma_div_is_ordered_by_denominator(total, slow, fast);
    vstd::arithmetic::div_mod::lemma_fundamental_div_mod(total, slow);
    let q = total / slow;
    let length = pacing::frame_length(normal, speed) as int;
    assert(slow * q <= total && total < slow * q + slow);
    assert(length <= q);
    assert(length * slow <= q * slow) by (nonlinear_arith)
        requires
            length <= q,
            slow > 0,
    ;
    assert(q * slow == slow * q && (q + 1) * slow == slow * q + slow) by (nonlinear_arith);
}

/// A paced console never waits longer than one frame from when the last one was due, and waits
/// exactly as long as it takes until the next is due.
pub proof fn law_waits_end_when_the_frame_is_due(pacer: pacing::FramePacer, now: u64)
    requires
        pacer.last_frame_microseconds + pacer.microseconds_per_frame <= u64::MAX,
    ensures
        pacer.next() == pacer.last_frame_microseconds + pacer.microseconds_per_frame,
        now >= pacer.last_frame_microseconds && now < pacer.next() ==> pacer.next() - now
            <= pacer.microseconds_per_frame,
{
}

/// A palette in the pixel format is the colours it was made from, each opaque.
pub proof fn law_a_palette_keeps_its_colours(colors: [u32; 4], pixels: [u32; 4], i: int)
    requires
        game_boy_color::palette_encoded(colors, pixels),
        0 <= i < 4,
    ensures
        pixels@[i] % 0x100_0000 == colors@[i] % 0x100_0000,
        pixels@[i] / 0x100_0000 == 0xFF,
{
    assert(pixels@[i] == game_boy_color::opaque_pixel(colors@[i]));
}

/// Each region of the dual-screen console shows the memory it is named after, and no two the same.
pub proof fn law_regions_show_the_memory_they_name(regions: Seq<MemoryRegionInfo>, index: usize)
    requires
        nintendo_ds::is_nds_map(regions),
    ensures
        nintendo_ds::nds_region(index) is Some <==> index < regions.len(),
        nintendo_ds::nds_region(index) matches Some(region) ==> regions[index as int].name@
            == match region {
            nintendo_ds::NdsRegion::MainRam => "Main RAM"@,
            nintendo_ds::NdsRegion::SharedWorkRam => "Shared WRAM"@,
            nintendo_ds::NdsRegion::Arm7WorkRam => "ARM7 WRAM"@,
        },
{
}

/// Data that is too short for an input leaves every control alone, as an input of nothing but zeros
/// does.
pub proof fn law_short_input_is_no_input(data: Seq<u8>, zeros: Seq<u8>)
    requires
        data.len() < 12,
        zeros == Seq::new(12, |i: int| 0u8),
    ensures
        nintendo_3ds::decoded(data) == nintendo_3ds::decoded(zeros),
        nintendo_3ds::decoded(data).buttons == 0,
        !nintendo_3ds::decoded(data).touch_pressed,
{
    let head = zeros.subrange(0, 4);
    bytes::lemma_byte_ranges();
    bytes::lemma_le_bytes(0, 4);
    assert(head =~= bytes::le_bytes(0, 4)) by {
        reveal_with_fuel(bytes::le_bytes, 5);
    }
    assert(zeros[10] + zeros[11] * 256 == 0);
}

} // verus!
