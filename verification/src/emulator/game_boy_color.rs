//! The Game Boy family.
//!
//! What a [`GameBoyColor`] holds is everything but the emulated instances themselves: the program
//! around it runs those, and asks it what to do with their serial bits, their cycles and the
//! colours they draw with.
//!
//! # Audio
//!
//! Rendering samples is not free of side effects, so the instance the frontend sees never does.
//! When audio is on, a second, *shadow* instance of the same ROM runs one step behind it in
//! lockstep, and only its samples are used; it is resynced from the emulated instance's state the
//! moment its instruction stream drifts. It gets the same serial bits its emulated instance got, at
//! the same step boundaries, so it never diverges over a transfer.

use super::console::RunTime;
use super::gb_link;
use super::gb_link::{GbLinkState, LinkMode};
use super::input::Input;
use super::link;
use super::link::LinkError;
use super::memory;
use super::memory::MemoryRegionInfo;
use crate::bytes;
use crate::play_together::live;
use crate::replay::player::ReplayConsoleType;
use crate::text;
use std::collections::VecDeque;
use vstd::prelude::*;
use vstd::string::*;

verus! {

/// The seed every reset starts the emulator's random number generator from: every reset then
/// starts from the same garbage in RAM, here, in a replay of this session and on the other end of a
/// link cable.
pub const RESET_RANDOM_SEED: u64 = 0x5375_7065_7253_6875;

/// How many frames after a reset the palette override is applied before every step, not just at
/// vblank; the boot ROMs are done well within this.
pub const PALETTE_OVERRIDE_FORCE_FRAMES: u32 = 16;

/// Emulated frames between full-state comparisons of the audio shadow, a backstop for a divergence
/// that did not change the instruction stream's cycle counts (which is caught immediately).
pub const CHECK_EVERY_FRAMES: u32 = 60;

// ---------------------------------------------------------------------------------------------
// Colours.

/// The pixel format of a `0xRRGGBB` colour.
pub open spec fn opaque_pixel(color: u32) -> int {
    0xFF00_0000 + color % 0x100_0000
}

/// `0xRRGGBB` to the pixel format.
pub fn encode_rgb(color: u32) -> (r: u32)
    ensures
        r == opaque_pixel(color),
{
    0xFF00_0000 + color % 0x100_0000
}

/// The pixel format to `0xRRGGBB`.
pub fn decode_rgb(pixel: u32) -> (r: u32)
    ensures
        r == pixel % 0x100_0000,
{
    pixel % 0x100_0000
}

/// A colour survives being turned into a pixel.
pub proof fn law_colors_round_trip(color: u32)
    requires
        color < 0x100_0000,
    ensures
        opaque_pixel(color) % 0x100_0000 == color,
{
}

/// Colours to draw Game Boy games with instead of their own.
#[derive(Copy, Clone, Debug)]
pub struct GbPaletteOverride {
    pub background: [u32; 4],
    pub objects_0: [u32; 4],
    pub objects_1: [u32; 4],
}

/// Whether each colour of a palette is the other's in the pixel format.
pub open spec fn palette_encoded(colors: [u32; 4], pixels: [u32; 4]) -> bool {
    forall|i: int| 0 <= i < 4 ==> #[trigger] pixels@[i] == opaque_pixel(colors@[i])
}

fn encode_palette(colors: [u32; 4]) -> (r: [u32; 4])
    ensures
        palette_encoded(colors, r),
{
    [encode_rgb(colors[0]), encode_rgb(colors[1]), encode_rgb(colors[2]), encode_rgb(colors[3])]
}

fn decode_palette(pixels: [u32; 4]) -> (r: [u32; 4])
    ensures
        forall|i: int| 0 <= i < 4 ==> #[trigger] r@[i] == pixels@[i] % 0x100_0000,
{
    [decode_rgb(pixels[0]), decode_rgb(pixels[1]), decode_rgb(pixels[2]), decode_rgb(pixels[3])]
}

/// Colours of the pixel format as `0xRRGGBB`.
pub fn decode_palettes(pixels: GbPaletteOverride) -> (r: GbPaletteOverride)
    ensures
        forall|i: int|
            0 <= i < 4 ==> #[trigger] r.background@[i] == pixels.background@[i] % 0x100_0000,
        forall|i: int|
            0 <= i < 4 ==> #[trigger] r.objects_0@[i] == pixels.objects_0@[i] % 0x100_0000,
        forall|i: int|
            0 <= i < 4 ==> #[trigger] r.objects_1@[i] == pixels.objects_1@[i] % 0x100_0000,
{
    GbPaletteOverride {
        background: decode_palette(pixels.background),
        objects_0: decode_palette(pixels.objects_0),
        objects_1: decode_palette(pixels.objects_1),
    }
}

/// Whether the game is drawn with the Game Boy palettes the override replaces: not a Game Boy Color
/// game (it sets its own palettes as it runs) and not on the Super Game Boy (its colours come from
/// elsewhere).
pub fn palette_override_applies(cgb_in_cgb_mode: bool, super_game_boy: bool) -> (r: bool)
    ensures
        r == (!cgb_in_cgb_mode && !super_game_boy),
{
    !cgb_in_cgb_mode && !super_game_boy
}

// ---------------------------------------------------------------------------------------------
// Input.

/// A bit's weight, if it is set.
pub open spec fn weight(set: bool, weight: int) -> int {
    if set {
        weight
    } else {
        0
    }
}

/// The buttons of a Game Boy as one byte.
pub open spec fn buttons(input: Input) -> int {
    weight(input.d_right, 1) + weight(input.d_left, 2) + weight(input.d_up, 4) + weight(
        input.d_down,
        8,
    ) + weight(input.a, 16) + weight(input.b, 32) + weight(input.select, 64) + weight(
        input.start,
        128,
    )
}

fn weigh(set: bool, weight: u8) -> (r: u8)
    ensures
        r == self::weight(set, weight as int),
        r <= weight,
{
    if set {
        weight
    } else {
        0
    }
}

/// The input as a replay holds it.
pub fn encode_input(input: Input) -> (r: Vec<u8>)
    ensures
        r@.len() == 1,
        r@[0] == buttons(input),
{
    let low: u8 = weigh(input.d_right, 1) + weigh(input.d_left, 2) + weigh(input.d_up, 4) + weigh(
        input.d_down,
        8,
    );
    let high: u8 = weigh(input.a, 16) + weigh(input.b, 32) + weigh(input.select, 64) + weigh(
        input.start,
        128,
    );
    let mut r: Vec<u8> = Vec::new();
    r.push(low + high);
    r
}

/// No two inputs that differ in a button of the console are encoded alike.
pub proof fn law_buttons_are_told_apart(a: Input, b: Input)
    requires
        buttons(a) == buttons(b),
    ensures
        a.d_right == b.d_right,
        a.d_left == b.d_left,
        a.d_up == b.d_up,
        a.d_down == b.d_down,
        a.a == b.a,
        a.b == b.b,
        a.select == b.select,
        a.start == b.start,
{
}

// ---------------------------------------------------------------------------------------------
// States.

/// Where the pending cycles of the sound hardware are in a save state: an 8-byte header, then
/// sections each prefixed by a 4-byte size, the sound hardware's being the sixth; they are the two
/// bytes at its offset 2.
pub open spec fn pending_apu_cycles(state: Seq<u8>, offset: int, sections: nat) -> Option<int>
    decreases sections,
{
    if offset + 4 > state.len() {
        None
    } else if sections == 0 {
        if offset + 8 <= state.len() {
            Some(offset + 6)
        } else {
            None
        }
    } else {
        pending_apu_cycles(
            state,
            offset + 4 + bytes::le_value(state.subrange(offset, offset + 4)),
            (sections - 1) as nat,
        )
    }
}

/// A state without pending cycles of the sound hardware.
pub open spec fn without_pending_apu_cycles(state: Seq<u8>) -> Seq<u8> {
    match pending_apu_cycles(state, 8, 5) {
        Some(at) => state.update(at, 0).update(at + 1, 0),
        None => state,
    }
}

/// Drop the pending cycles of the sound hardware from a save state: the shadow, with a sample rate,
/// runs it in smaller batches than the emulated instance and cannot take so many at once.
pub fn zero_pending_apu_cycles(state: &mut Vec<u8>)
    ensures
        final(state)@ == without_pending_apu_cycles(old(state)@),
{
    let ghost before = state@;
    let len: usize = state.len();
    let mut offset: usize = 8;
    let mut sections: usize = 5;
    while sections > 0
        invariant
            sections <= 5,
            state@ == before,
            len == before.len(),
            before == old(state)@,
            pending_apu_cycles(before, 8, 5) == pending_apu_cycles(
                before,
                offset as int,
                sections as nat,
            ),
        decreases sections,
    {
        if len < 4 || offset > len - 4 {
            return;
        }
        let ghost at = offset as int;
        let size: u64 = bytes::read_le(state.as_slice(), offset, 4);
        assert(pending_apu_cycles(before, at, sections as nat) == pending_apu_cycles(
            before,
            at + 4 + size,
            (sections - 1) as nat,
        ));
        // A section that reaches past the end of the state is followed by nothing.
        if size > (len - 4 - offset) as u64 {
            assert(pending_apu_cycles(before, at + 4 + size, (sections - 1) as nat) is None);
            return;
        }
        offset = offset + 4 + size as usize;
        sections = sections - 1;
    }
    if len < 8 || offset > len - 8 {
        return;
    }
    state.set(offset + 6, 0);
    state.set(offset + 7, 0);
}

/// Whether the introduction of the Super Game Boy is to be skipped in a state, which is then done.
pub fn skip_sgb_intro(state: &mut Vec<u8>) -> (r: bool)
    ensures
        r == (old(state)@.len() >= 0x1AB68),
        final(state)@ == (if r {
            old(state)@.update(0x1AB66, 201).update(0x1AB67, 0)
        } else {
            old(state)@
        }),
{
    if state.len() < 0x1AB68 {
        return false;
    }
    state.set(0x1AB66, 201);
    state.set(0x1AB67, 0);
    true
}

// ---------------------------------------------------------------------------------------------
// Memory.

/// A part of the emulated instance's memory that can be reached directly.
#[derive(Copy, Clone, Debug, PartialEq, Eq, Structural)]
pub enum GbRegion {
    VideoRam,
    Ram,
    Oam,
    Io,
    HighRam,
    CartridgeRam,
}

/// How much of each there is.
#[derive(Copy, Clone, Debug)]
pub struct GbMemorySizes {
    pub video_ram: usize,
    pub ram: usize,
    pub oam: usize,
    pub io: usize,
    pub high_ram: usize,
    pub cartridge_ram: usize,
}

/// Where a region is backed: the bytes of a directly reachable part, starting at `offset`.
#[derive(Copy, Clone, Debug, PartialEq, Eq, Structural)]
pub struct RegionSource {
    pub region: GbRegion,
    pub offset: usize,
}

/// A region of the address space.
pub ghost struct GbArea {
    pub name: Seq<char>,
    pub short_name: Seq<char>,
    pub base_address: u32,
    pub source: RegionSource,
    pub len: int,
    pub writable: bool,
}

/// How much of a part is there past `offset`, at most `max_len`.
pub open spec fn there(available: usize, offset: int, max_len: int) -> int {
    if available <= offset {
        0
    } else if available - offset > max_len {
        max_len
    } else {
        available - offset
    }
}

/// The address space, with regions that may be empty.
pub open spec fn gb_areas(sizes: GbMemorySizes) -> Seq<GbArea> {
    seq![
        GbArea {
            name: "VRAM"@,
            short_name: "VRAM"@,
            base_address: 0x8000,
            source: RegionSource { region: GbRegion::VideoRam, offset: 0 },
            len: there(sizes.video_ram, 0, 0x2000),
            writable: true,
        },
        GbArea {
            name: "WRAM (banks 0-1)"@,
            short_name: "WRAM"@,
            base_address: 0xC000,
            source: RegionSource { region: GbRegion::Ram, offset: 0 },
            len: there(sizes.ram, 0, 0x2000),
            writable: true,
        },
        GbArea {
            name: "WRAM (banks 2-7)"@,
            short_name: "WRAMX"@,
            base_address: 0x10000,
            source: RegionSource { region: GbRegion::Ram, offset: 0x2000 },
            len: there(sizes.ram, 0x2000, 0xE000),
            writable: true,
        },
        GbArea {
            name: "OAM"@,
            short_name: "OAM"@,
            base_address: 0xFE00,
            source: RegionSource { region: GbRegion::Oam, offset: 0 },
            len: there(sizes.oam, 0, 0xA0),
            writable: true,
        },
        GbArea {
            name: "I/O registers"@,
            short_name: "IO"@,
            base_address: 0xFF00,
            source: RegionSource { region: GbRegion::Io, offset: 0 },
            len: there(sizes.io, 0, 0x80),
            writable: false,
        },
        GbArea {
            name: "HRAM"@,
            short_name: "HRAM"@,
            base_address: 0xFF80,
            source: RegionSource { region: GbRegion::HighRam, offset: 0 },
            len: there(sizes.high_ram, 0, 0x7F),
            writable: true,
        },
        GbArea {
            name: "Cartridge RAM"@,
            short_name: "CART"@,
            base_address: 0x20000,
            source: RegionSource { region: GbRegion::CartridgeRam, offset: 0 },
            len: there(sizes.cartridge_ram, 0, 0x100000),
            writable: true,
        },
    ]
}

/// Those of the first `n` regions that are not empty.
pub open spec fn present(areas: Seq<GbArea>, n: nat) -> Seq<GbArea>
    decreases n,
{
    if n == 0 {
        Seq::empty()
    } else if areas[n - 1].len > 0 {
        present(areas, (n - 1) as nat).push(areas[n - 1])
    } else {
        present(areas, (n - 1) as nat)
    }
}

/// Whether an area is no larger than any there is.
pub open spec fn bounded(area: GbArea) -> bool {
    area.len <= 0x100000 && area.source.offset <= 0x2000
}

proof fn lemma_present(areas: Seq<GbArea>, n: nat)
    requires
        forall|i: int| 0 <= i < n ==> bounded(#[trigger] areas[i]),
    ensures
        forall|i: int| 0 <= i < present(areas, n).len() ==> bounded(#[trigger] present(areas, n)[i]),
    decreases n,
{
    if n > 0 {
        lemma_present(areas, (n - 1) as nat);
        let fewer = present(areas, (n - 1) as nat);
        assert forall|i: int| 0 <= i < present(areas, n).len() implies bounded(
            #[trigger] present(areas, n)[i],
        ) by {
            assert(bounded(areas[n - 1]));
            if i < fewer.len() {
                assert(bounded(fewer[i]));
            }
        }
    }
}

/// Whether a region describes an area.
pub open spec fn describes(info: MemoryRegionInfo, source: RegionSource, area: GbArea) -> bool {
    &&& info.name@ == area.name
    &&& info.short_name@ == area.short_name
    &&& info.base_address == area.base_address
    &&& info.len == area.len
    &&& info.default_big_endian
    &&& info.writable == area.writable
    &&& source == area.source
}

/// Whether regions describe areas, one for one.
pub open spec fn describe(
    regions: Seq<MemoryRegionInfo>,
    sources: Seq<RegionSource>,
    areas: Seq<GbArea>,
) -> bool {
    &&& regions.len() == areas.len()
    &&& sources.len() == areas.len()
    &&& forall|i: int|
        0 <= i < areas.len() ==> describes(#[trigger] regions[i], sources[i], areas[i])
}

fn add_region(
    regions: &mut Vec<MemoryRegionInfo>,
    sources: &mut Vec<RegionSource>,
    info: MemoryRegionInfo,
    source: RegionSource,
    available: usize,
)
    requires
        old(regions)@.len() == old(sources)@.len(),
    ensures
        ({
            let len = there(available, source.offset as int, info.len as int);
            if len > 0 {
                &&& final(regions)@ == old(regions)@.push(
                    MemoryRegionInfo { len: len as u32, ..info },
                )
                &&& final(sources)@ == old(sources)@.push(source)
            } else {
                final(regions)@ == old(regions)@ && final(sources)@ == old(sources)@
            }
        }),
{
    let past: usize = available.saturating_sub(source.offset);
    let len: u32 = if past as u64 > info.len as u64 {
        info.len
    } else {
        past as u32
    };
    if len == 0 {
        return;
    }
    regions.push(
        MemoryRegionInfo {
            name: info.name,
            short_name: info.short_name,
            base_address: info.base_address,
            len,
            default_big_endian: info.default_big_endian,
            writable: info.writable,
        },
    );
    sources.push(source);
}

fn big_endian_region(
    name: &'static str,
    short_name: &'static str,
    base_address: u32,
    len: u32,
    writable: bool,
) -> (r: MemoryRegionInfo)
    ensures
        r == (MemoryRegionInfo {
            name,
            short_name,
            base_address,
            len,
            default_big_endian: true,
            writable,
        }),
{
    MemoryRegionInfo { name, short_name, base_address, len, default_big_endian: true, writable }
}

/// The Game Boy address space.
///
/// VRAM, WRAM and HRAM keep the addresses memory tools have always used: `0xC000-0xDFFF` is the
/// first 8 KiB of WRAM (banks 0 and 1, whatever bank the game has switched in) and `0x10000`
/// onwards continues through the rest of it (banks 2-7 on a Game Boy Color). OAM and the I/O
/// registers are at their real addresses. Cartridge RAM gets an address past everything else,
/// because its real window only shows whichever bank is switched in.
pub fn build_memory_regions(sizes: GbMemorySizes) -> (r: (Vec<MemoryRegionInfo>, Vec<RegionSource>))
    ensures
        describe(r.0@, r.1@, present(gb_areas(sizes), 7)),
{
    let mut regions: Vec<MemoryRegionInfo> = Vec::new();
    let mut sources: Vec<RegionSource> = Vec::new();
    let ghost areas = gb_areas(sizes);
    add_region(
        &mut regions,
        &mut sources,
        big_endian_region("VRAM", "VRAM", 0x8000, 0x2000, true),
        RegionSource { region: GbRegion::VideoRam, offset: 0 },
        sizes.video_ram,
    );
    assert(describe(regions@, sources@, present(areas, 1))) by {
        reveal_with_fuel(present, 2);
    }
    add_region(
        &mut regions,
        &mut sources,
        big_endian_region("WRAM (banks 0-1)", "WRAM", 0xC000, 0x2000, true),
        RegionSource { region: GbRegion::Ram, offset: 0 },
        sizes.ram,
    );
    assert(describe(regions@, sources@, present(areas, 2)));
    add_region(
        &mut regions,
        &mut sources,
        big_endian_region("WRAM (banks 2-7)", "WRAMX", 0x10000, 0xE000, true),
        RegionSource { region: GbRegion::Ram, offset: 0x2000 },
        sizes.ram,
    );
    assert(describe(regions@, sources@, present(areas, 3)));
    add_region(
        &mut regions,
        &mut sources,
        big_endian_region("OAM", "OAM", 0xFE00, 0xA0, true),
        RegionSource { region: GbRegion::Oam, offset: 0 },
        sizes.oam,
    );
    assert(describe(regions@, sources@, present(areas, 4)));
    // Raw register writes would bypass the hardware side effects of writing them.
    add_region(
        &mut regions,
        &mut sources,
        big_endian_region("I/O registers", "IO", 0xFF00, 0x80, false),
        RegionSource { region: GbRegion::Io, offset: 0 },
        sizes.io,
    );
    assert(describe(regions@, sources@, present(areas, 5)));
    add_region(
        &mut regions,
        &mut sources,
        big_endian_region("HRAM", "HRAM", 0xFF80, 0x7F, true),
        RegionSource { region: GbRegion::HighRam, offset: 0 },
        sizes.high_ram,
    );
    assert(describe(regions@, sources@, present(areas, 6)));
    add_region(
        &mut regions,
        &mut sources,
        big_endian_region("Cartridge RAM", "CART", 0x20000, 0x100000, true),
        RegionSource { region: GbRegion::CartridgeRam, offset: 0 },
        sizes.cartridge_ram,
    );
    assert(describe(regions@, sources@, present(areas, 7)));
    (regions, sources)
}

// ---------------------------------------------------------------------------------------------
// The audio shadow.

/// How the audio shadow stands to the emulated instance.
pub struct ShadowAudio {
    /// Cycles run since the last alignment.
    pub cycles: u64,
    /// Emulated frames since the last full-state comparison.
    pub frames_since_check: u32,
    /// How many times the shadow had to be resynced from the emulated instance.
    pub resyncs: u64,
    /// Master bits the emulated instance received this step, for the shadow's own transfer.
    pub master_bits: VecDeque<bool>,
    /// Whether the shadow asked for a master bit that was not there (a divergence).
    pub missed: bool,
}

impl ShadowAudio {
    /// A copy of the emulated instance as it is now.
    pub open spec fn aligned(self, resyncs: u64) -> bool {
        &&& self.cycles == 0
        &&& self.frames_since_check == 0
        &&& self.resyncs == resyncs
        &&& self.master_bits@ == Seq::<bool>::empty()
        &&& !self.missed
    }

    /// A shadow just copied from the emulated instance.
    pub fn new(resyncs: u64) -> (r: Self)
        ensures
            r.aligned(resyncs),
    {
        let r = ShadowAudio {
            cycles: 0,
            frames_since_check: 0,
            resyncs,
            master_bits: VecDeque::new(),
            missed: false,
        };
        assert(r.master_bits@ =~= Seq::<bool>::empty());
        r
    }

    /// A bit of a transfer the shadow clocks ends: it hears what the emulated instance heard.
    pub fn serial_transfer_bit_end(&mut self) -> (r: bool)
        ensures
            if old(self).master_bits@.len() > 0 {
                &&& r == old(self).master_bits@[0]
                &&& *final(self) == (ShadowAudio {
                    master_bits: final(self).master_bits,
                    ..*old(self)
                })
                &&& final(self).master_bits@ == old(self).master_bits@.skip(1)
            } else {
                &&& r
                &&& *final(self) == (ShadowAudio {
                    master_bits: final(self).master_bits,
                    missed: true,
                    ..*old(self)
                })
                &&& final(self).master_bits@ == old(self).master_bits@
            },
    {
        let ghost bits = self.master_bits@;
        match self.master_bits.pop_front() {
            Some(bit) => {
                assert(self.master_bits@ =~= bits.skip(1));
                bit
            },
            None => {
                self.missed = true;
                true
            },
        }
    }
}

/// What there is to do about the shadow after it stepped.
#[derive(Copy, Clone, Debug, PartialEq, Eq, Structural)]
pub enum ShadowCheck {
    /// It is where the emulated instance is.
    Aligned,
    /// The two instances' memory and registers are to be compared, and the answer handed to
    /// [`shadow_compared`](GameBoyColor::shadow_compared).
    Compare,
    /// It took another path, and is to be made a copy of the emulated instance again.
    Resync,
}

// ---------------------------------------------------------------------------------------------
// The console.

/// A Game Boy, but for the emulated instances.
pub struct GameBoyColor {
    pub link: GbLinkState,
    /// Cycles the emulated instance has run since the shadow was last aligned with it.
    pub cycles: u64,
    pub shadow: Option<ShadowAudio>,
    /// Whether the last step stopped inside a frame.
    pub mid_frame: bool,
    /// Frames the emulated instance completed in the current step.
    pub run_frames: u64,
    /// The colours to draw with instead of the game's own, in the pixel format.
    pub palette_override: Option<GbPaletteOverride>,
    /// Frames left in which the override is also applied before every step: after a reset the boot
    /// ROM writes the palettes somewhere inside a frame, which the vblank alone would leave showing
    /// for that one frame.
    pub palette_override_force_frames: u32,
    /// Memory regions and where each one's bytes live.
    pub regions: Vec<MemoryRegionInfo>,
    pub region_sources: Vec<RegionSource>,
}

/// What a step begins with.
#[derive(Clone, Debug)]
pub struct StepStart {
    /// Whether the palette override is to be applied first.
    pub reapply_palette: bool,
    /// Slave bits the partner shifted into the emulated instance since the last step: the shadow
    /// gets them before its own step, like the emulated instance did.
    pub shadow_slave: Vec<bool>,
}

impl GameBoyColor {
    /// Every region has its bytes somewhere.
    pub open spec fn wf(self) -> bool {
        &&& self.regions@.len() == self.region_sources@.len()
        &&& forall|i: int|
            0 <= i < self.regions@.len() ==> (#[trigger] self.regions@[i]).len <= 0x100000
                && self.region_sources@[i].offset <= 0x2000
    }

    /// A console that was just reset.
    pub fn new(sizes: GbMemorySizes) -> (r: Self)
        ensures
            r.wf(),
            r.link.unplugged(),
            r.cycles == 0,
            r.shadow is None,
            !r.mid_frame,
            r.run_frames == 0,
            r.palette_override is None,
            r.palette_override_force_frames == 0,
            describe(r.regions@, r.region_sources@, present(gb_areas(sizes), 7)),
    {
        let (regions, region_sources): (Vec<MemoryRegionInfo>, Vec<RegionSource>) =
            build_memory_regions(sizes);
        proof {
            let areas = gb_areas(sizes);
            lemma_present(areas, 7);
            assert forall|i: int| 0 <= i < regions@.len() implies (#[trigger] regions@[i]).len
                <= 0x100000 && region_sources@[i].offset <= 0x2000 by {
                assert(describes(regions@[i], region_sources@[i], present(areas, 7)[i]));
                assert(bounded(present(areas, 7)[i]));
            }
        }
        GameBoyColor {
            link: GbLinkState::new(),
            cycles: 0,
            shadow: None,
            mid_frame: false,
            run_frames: 0,
            palette_override: None,
            palette_override_force_frames: 0,
            regions,
            region_sources,
        }
    }

    /// How many times the audio shadow has been resynced from the emulated instance; zero while
    /// audio is off. For diagnostics.
    pub fn audio_resyncs(&self) -> (r: u64)
        ensures
            r == (match self.shadow {
                Some(s) => s.resyncs,
                None => 0,
            }),
    {
        match &self.shadow {
            Some(s) => s.resyncs,
            None => 0,
        }
    }

    // -----------------------------------------------------------------------------------------
    // Steps.

    /// A step of the emulated instance begins. A live port is stepped with its partner reachable.
    pub fn begin_step(&mut self) -> (r: StepStart)
        requires
            old(self).link.mode == LinkMode::Live ==> old(self).link.partnered,
        ensures
            r.reapply_palette == (old(self).palette_override_force_frames > 0
                && old(self).palette_override is Some),
            r.shadow_slave@ == old(self).link.shadow_pending_slave@,
            *final(self) == (GameBoyColor {
                link: GbLinkState {
                    shadow_pending_slave: final(self).link.shadow_pending_slave,
                    step_master_bits: final(self).link.step_master_bits,
                    ..old(self).link
                },
                ..*old(self)
            }),
            final(self).link.shadow_pending_slave@ == Seq::<bool>::empty(),
            final(self).link.step_master_bits@ == Seq::<bool>::empty(),
    {
        let reapply_palette: bool = self.palette_override_force_frames > 0
            && self.palette_override.is_some();
        let mut shadow_slave: Vec<bool> = Vec::new();
        core::mem::swap(&mut shadow_slave, &mut self.link.shadow_pending_slave);
        self.link.step_master_bits = Vec::new();
        StepStart { reapply_palette, shadow_slave }
    }

    /// The emulated instance completed a frame. Returns whether the palette override is to be
    /// applied: the emulator may have recomputed its own colours during the frame.
    pub fn vblank(&mut self) -> (r: bool)
        ensures
            r == (old(self).palette_override is Some),
            *final(self) == (GameBoyColor {
                run_frames: live::one_more(old(self).run_frames),
                palette_override_force_frames: if old(self).palette_override_force_frames > 0 {
                    (old(self).palette_override_force_frames - 1) as u32
                } else {
                    0
                },
                ..*old(self)
            }),
    {
        self.run_frames = self.run_frames.saturating_add(1);
        if self.palette_override_force_frames > 0 {
            self.palette_override_force_frames = self.palette_override_force_frames - 1;
        }
        self.palette_override.is_some()
    }

    /// After the emulated instance ran for that many cycles.
    pub open spec fn ran(self, after: Self, cycles: u64, time: RunTime, due: Seq<bool>) -> bool {
        &&& time == (RunTime { frames: self.run_frames, presented: self.run_frames > 0 })
        &&& after == (GameBoyColor {
            cycles: gb_link::sum(self.cycles, cycles),
            run_frames: 0,
            mid_frame: self.run_frames == 0,
            link: after.link,
            ..self
        })
        &&& self.link.link_ran(after.link, cycles, self.run_frames, due)
    }

    /// The emulated instance ran for that many cycles. Returns the time that passed, and the slave
    /// bits to shift into it now (and into the shadow once that has stepped).
    pub fn step_ran(&mut self, cycles: u64) -> (r: (RunTime, Vec<bool>))
        ensures
            old(self).ran(*final(self), cycles, r.0, r.1@),
    {
        self.cycles = self.cycles.saturating_add(cycles);
        let frames: u64 = self.run_frames;
        self.run_frames = 0;
        self.mid_frame = frames == 0;
        let due: Vec<bool> = self.link.stepped(cycles, frames);
        (RunTime { frames, presented: frames > 0 }, due)
    }

    /// The shadow is about to step: it hears the master bits the emulated instance just heard.
    pub fn shadow_begins(&mut self)
        ensures
            match old(self).shadow {
                None => *final(self) == *old(self),
                Some(s) => final(self).shadow matches Some(t) && t == (ShadowAudio {
                    master_bits: t.master_bits,
                    ..s
                }) && t.master_bits@ == s.master_bits@ + old(self).link.step_master_bits@
                    && *final(self) == (GameBoyColor {
                    shadow: final(self).shadow,
                    ..*old(self)
                }),
            },
    {
        if let Some(mut shadow) = self.shadow.take() {
            let ghost bits = shadow.master_bits@;
            let ghost step = self.link.step_master_bits@;
            let ghost first = shadow;
            let mut i: usize = 0;
            assert(bits + step.take(0) =~= bits);
            while i < self.link.step_master_bits.len()
                invariant
                    i <= step.len(),
                    step == self.link.step_master_bits@,
                    shadow == (ShadowAudio { master_bits: shadow.master_bits, ..first }),
                    shadow.master_bits@ == bits + step.take(i as int),
                decreases step.len() - i,
            {
                shadow.master_bits.push_back(self.link.step_master_bits[i]);
                i = i + 1;
                assert(shadow.master_bits@ =~= bits + step.take(i as int));
            }
            assert(step.take(i as int) =~= step);
            self.shadow = Some(shadow);
        }
    }

    /// The shadow after it ran for that many cycles, beside `frames` frames.
    pub open spec fn shadow_stepped(s: ShadowAudio, cycles: u64, frames: u64) -> ShadowAudio {
        ShadowAudio {
            cycles: gb_link::sum(s.cycles, cycles),
            frames_since_check: if s.frames_since_check + frames > u32::MAX {
                u32::MAX
            } else {
                (s.frames_since_check + frames) as u32
            },
            ..s
        }
    }

    /// Whether the shadow took another path than the emulated instance: same instruction stream,
    /// same step sizes, same bits heard.
    pub open spec fn strayed(self, s: ShadowAudio) -> bool {
        s.cycles != self.cycles || s.missed || s.master_bits@.len() > 0
    }

    /// With the shadow made a copy of the emulated instance.
    pub open spec fn realigned(self, after: Self, resyncs: u64) -> bool {
        &&& after == (GameBoyColor { shadow: after.shadow, cycles: 0, ..self })
        &&& after.shadow matches Some(t) && t.aligned(resyncs)
    }

    /// After the shadow stepped.
    pub open spec fn shadow_followed(
        self,
        after: Self,
        cycles: u64,
        frames: u64,
        r: ShadowCheck,
    ) -> bool {
        match self.shadow {
            None => after == self && r == ShadowCheck::Aligned,
            Some(s) => {
                let t = Self::shadow_stepped(s, cycles, frames);
                if self.strayed(t) {
                    &&& r == ShadowCheck::Resync
                    &&& self.realigned(after, live::one_more(s.resyncs))
                } else if t.frames_since_check >= CHECK_EVERY_FRAMES {
                    &&& r == ShadowCheck::Compare
                    &&& after == (GameBoyColor {
                        shadow: Some(ShadowAudio { frames_since_check: 0, ..t }),
                        ..self
                    })
                } else {
                    &&& r == ShadowCheck::Aligned
                    &&& after == (GameBoyColor { shadow: Some(t), ..self })
                }
            },
        }
    }

    /// The shadow ran for that many cycles, the emulated instance having completed `frames` frames.
    pub fn shadow_ran(&mut self, cycles: u64, frames: u64) -> (r: ShadowCheck)
        ensures
            old(self).shadow_followed(*final(self), cycles, frames, r),
    {
        if let Some(mut shadow) = self.shadow.take() {
            shadow.cycles = shadow.cycles.saturating_add(cycles);
            let since: u64 = (shadow.frames_since_check as u64).saturating_add(frames);
            shadow.frames_since_check = if since > u32::MAX as u64 {
                u32::MAX
            } else {
                since as u32
            };
            if shadow.cycles != self.cycles || shadow.missed || shadow.master_bits.len() > 0 {
                self.shadow = Some(ShadowAudio::new(shadow.resyncs.saturating_add(1)));
                self.cycles = 0;
                return ShadowCheck::Resync;
            }
            let due: bool = shadow.frames_since_check >= CHECK_EVERY_FRAMES;
            if due {
                shadow.frames_since_check = 0;
            }
            self.shadow = Some(shadow);
            if due {
                return ShadowCheck::Compare;
            }
        }
        ShadowCheck::Aligned
    }

    /// The two instances were compared. Returns whether the shadow is to be made a copy of the
    /// emulated instance again.
    pub fn shadow_compared(&mut self, same: bool) -> (r: bool)
        ensures
            match old(self).shadow {
                Some(s) => if same {
                    !r && *final(self) == *old(self)
                } else {
                    r && old(self).realigned(*final(self), live::one_more(s.resyncs))
                },
                None => !r && *final(self) == *old(self),
            },
    {
        if same {
            return false;
        }
        let resyncs: u64 = match &self.shadow {
            Some(s) => s.resyncs,
            None => return false,
        };
        self.shadow = Some(ShadowAudio::new(resyncs.saturating_add(1)));
        self.cycles = 0;
        true
    }

    /// Bring the shadow back to the emulated instance's state after something other than a step
    /// changed it (a state load, a reset). Returns whether there is one.
    pub fn resync_shadow(&mut self) -> (r: bool)
        ensures
            match old(self).shadow {
                Some(s) => r && old(self).realigned(*final(self), s.resyncs),
                None => !r && *final(self) == *old(self),
            },
    {
        let resyncs: u64 = match &self.shadow {
            Some(s) => s.resyncs,
            None => return false,
        };
        self.shadow = Some(ShadowAudio::new(resyncs));
        self.cycles = 0;
        true
    }

    /// Turn audio on or off. Returns whether anything changed: a shadow is to be built as a copy of
    /// the emulated instance, or dropped.
    pub fn set_audio_enabled(&mut self, enabled: bool) -> (r: bool)
        ensures
            r == (enabled != (old(self).shadow is Some)),
            if !r {
                *final(self) == *old(self)
            } else if enabled {
                old(self).realigned(*final(self), 0)
            } else {
                *final(self) == (GameBoyColor { shadow: None, ..*old(self) })
            },
    {
        if enabled == self.shadow.is_some() {
            return false;
        }
        if enabled {
            self.shadow = Some(ShadowAudio::new(0));
            self.cycles = 0;
        } else {
            self.shadow = None;
        }
        true
    }

    /// A state was loaded (or refused). Returns whether the palette override is to be applied
    /// again, and whether the shadow is to be made a copy of the emulated instance again.
    pub fn state_loaded(&mut self) -> (r: (bool, bool))
        ensures
            r.0 == (old(self).palette_override is Some),
            match old(self).shadow {
                Some(s) => r.1 && (GameBoyColor { mid_frame: false, ..*old(self) }).realigned(
                    *final(self),
                    s.resyncs,
                ),
                None => !r.1 && *final(self) == (GameBoyColor {
                    mid_frame: false,
                    ..*old(self)
                }),
            },
    {
        self.mid_frame = false;
        let resync: bool = self.resync_shadow();
        (self.palette_override.is_some(), resync)
    }

    /// The console was reset: the override, if any, is applied now and before every step for a few
    /// frames, until the boot ROM is done with the palettes. Returns what
    /// [`state_loaded`](Self::state_loaded) does.
    pub fn was_reset(&mut self) -> (r: (bool, bool))
        ensures
            r.0 == (old(self).palette_override is Some),
            ({
                let armed = GameBoyColor {
                    mid_frame: false,
                    palette_override_force_frames: if old(self).palette_override is Some {
                        PALETTE_OVERRIDE_FORCE_FRAMES
                    } else {
                        old(self).palette_override_force_frames
                    },
                    ..*old(self)
                };
                match old(self).shadow {
                    Some(s) => r.1 && armed.realigned(*final(self), s.resyncs),
                    None => !r.1 && *final(self) == armed,
                }
            }),
    {
        if self.palette_override.is_some() {
            self.palette_override_force_frames = PALETTE_OVERRIDE_FORCE_FRAMES;
        }
        self.state_loaded()
    }

    /// Draw with these colours (`0xRRGGBB`) instead of the game's own, or with its own again.
    /// Returns whether the override is to be applied now (else the emulator is to recompute its own
    /// colours).
    pub fn set_gb_palette_override(&mut self, colors: Option<GbPaletteOverride>) -> (r: bool)
        ensures
            r == (colors is Some),
            match colors {
                Some(c) => *final(self) == (GameBoyColor {
                    palette_override: final(self).palette_override,
                    palette_override_force_frames: PALETTE_OVERRIDE_FORCE_FRAMES,
                    ..*old(self)
                }) && (final(self).palette_override matches Some(p) && palette_encoded(
                    c.background,
                    p.background,
                ) && palette_encoded(c.objects_0, p.objects_0) && palette_encoded(
                    c.objects_1,
                    p.objects_1,
                )),
                None => *final(self) == (GameBoyColor { palette_override: None, ..*old(self) }),
            },
    {
        match colors {
            Some(c) => {
                self.palette_override = Some(
                    GbPaletteOverride {
                        background: encode_palette(c.background),
                        objects_0: encode_palette(c.objects_0),
                        objects_1: encode_palette(c.objects_1),
                    },
                );
                self.palette_override_force_frames = PALETTE_OVERRIDE_FORCE_FRAMES;
                true
            },
            None => {
                self.palette_override = None;
                false
            },
        }
    }

    // -----------------------------------------------------------------------------------------
    // Links.

    /// Why two consoles cannot be stepped beside each other.
    pub fn check_linked(&self, partner: &Self) -> (r: Result<(), LinkError>)
        ensures
            if self.link.mode == LinkMode::Live && partner.link.mode == LinkMode::Live {
                r is Ok
            } else {
                r matches Err(e) && e@ == link::ErrorModel::NotConnected
            },
    {
        if !self.link.is_live() || !partner.link.is_live() {
            return Err(LinkError::NotConnected);
        }
        Ok(())
    }

    // -----------------------------------------------------------------------------------------
    // Memory.

    /// Where a write goes: the part of memory, and where it starts there.
    pub fn locate_write(&self, address: u32, len: usize) -> (r: Result<
        (GbRegion, usize),
        &'static str,
    >)
        requires
            self.wf(),
        ensures
            match memory::located(self.regions@, address, len as int) {
                None => r matches Err(e) && e@ == "invalid or unknown address"@,
                Some((index, offset)) => if !self.regions@[index as int].writable {
                    r matches Err(e) && e@ == "region is read-only"@
                } else {
                    r matches Ok((region, start)) && region
                        == self.region_sources@[index as int].region && start
                        == self.region_sources@[index as int].offset + offset
                },
            },
    {
        proof {
            memory::lemma_located(self.regions@, 0, address, len as int);
        }
        match memory::locate_memory(self.regions.as_slice(), address, len) {
            None => Err("invalid or unknown address"),
            Some((index, offset)) => {
                if !self.regions[index].writable {
                    return Err("region is read-only");
                }
                let source: RegionSource = self.region_sources[index];
                Ok((source.region, source.offset + offset))
            },
        }
    }
}

/// A shadow that was where the emulated instance was, runs the same cycles and hears the same bits
/// is never taken to have strayed.
pub proof fn law_lockstep_needs_no_resync(
    gb: GameBoyColor,
    after: GameBoyColor,
    cycles: u64,
    frames: u64,
    r: ShadowCheck,
)
    requires
        gb.shadow matches Some(s) && gb.cycles == gb_link::sum(s.cycles, cycles) && !s.missed
            && s.master_bits@.len() == 0,
        gb.shadow_followed(after, cycles, frames, r),
    ensures
        r != ShadowCheck::Resync,
        after.shadow matches Some(t) && t.cycles == after.cycles,
{
}

/// The console a recording is made on.
pub fn replay_console_type(is_cgb: bool, is_sgb: bool) -> (r: ReplayConsoleType)
    ensures
        r == (if is_cgb {
            ReplayConsoleType::GameBoyColor
        } else if is_sgb {
            ReplayConsoleType::SuperGameBoy2
        } else {
            ReplayConsoleType::GameBoy
        }),
{
    if is_cgb {
        ReplayConsoleType::GameBoyColor
    } else if is_sgb {
        ReplayConsoleType::SuperGameBoy2
    } else {
        ReplayConsoleType::GameBoy
    }
}

/// The core's name, given the emulator's version.
pub fn core_name(version: &str, super_game_boy: bool) -> (r: String)
    ensures
        r@ == (if super_game_boy {
            version@ + " with SGB intro skipped"@
        } else {
            version@
        }),
{
    if super_game_boy {
        text::joined(version, " with SGB intro skipped")
    } else {
        version.to_owned()
    }
}

} // verus!
