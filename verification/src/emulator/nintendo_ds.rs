//! The Nintendo DS.
//!
//! What a [`NintendoDS`] holds is everything but the emulated core itself: the program around it
//! runs that, and asks when a frame is due, whether to draw it and where a write goes.

use super::console::{RunTime, ScreenData, ScreenDataEncoding};
use super::game_boy_advance;
use super::game_boy_color;
use super::input::Input;
use super::memory;
use super::memory::MemoryRegionInfo;
use super::pacing::FramePacer;
use crate::replay::packet::Speed;
use vstd::prelude::*;
use vstd::string::*;

verus! {

/// The length of a frame at normal speed.
pub const NDS_MICROSECONDS_PER_FRAME: u64 = 16666;

/// Width of either screen.
pub const NDS_WIDTH: usize = 256;

/// Height of either screen.
pub const NDS_HEIGHT: usize = 192;

/// A part of the console's memory.
#[derive(Copy, Clone, Debug, PartialEq, Eq, Structural)]
pub enum NdsRegion {
    MainRam,
    SharedWorkRam,
    Arm7WorkRam,
}

/// The Nintendo DS address space, in bus addresses. Main RAM is the region memory tools have always
/// used; the work RAM regions start past its 4 MiB.
pub open spec fn is_nds_map(regions: Seq<MemoryRegionInfo>) -> bool {
    &&& regions.len() == 3
    &&& game_boy_advance::is_plain(regions[0], "Main RAM"@, "MAIN"@, 0x0200_0000, 0x40_0000)
    &&& game_boy_advance::is_plain(regions[1], "Shared WRAM"@, "SWRAM"@, 0x0300_0000, 0x8000)
    &&& game_boy_advance::is_plain(regions[2], "ARM7 WRAM"@, "WRAM7"@, 0x0380_0000, 0x1_0000)
}

/// The Nintendo DS address space.
pub fn nds_memory_regions() -> (r: Vec<MemoryRegionInfo>)
    ensures
        is_nds_map(r@),
{
    let mut r: Vec<MemoryRegionInfo> = Vec::new();
    r.push(game_boy_advance::plain_region("Main RAM", "MAIN", 0x0200_0000, 0x40_0000));
    r.push(game_boy_advance::plain_region("Shared WRAM", "SWRAM", 0x0300_0000, 0x8000));
    r.push(game_boy_advance::plain_region("ARM7 WRAM", "WRAM7", 0x0380_0000, 0x1_0000));
    r
}

// ---------------------------------------------------------------------------------------------
// Input.

/// The buttons of a Nintendo DS as one number, with whether the screen is touched.
pub open spec fn keys(input: Input) -> int {
    game_boy_advance::keys(input) + game_boy_color::weight(input.x, 1024)
        + game_boy_color::weight(input.y, 2048) + game_boy_color::weight(input.touch is Some, 4096)
}

/// The two bytes of a touch point: a screen is 256 by 192, so each coordinate has one.
pub open spec fn touch_bytes(touch: Option<(u16, u16)>) -> (u8, u8) {
    match touch {
        Some((x, y)) => ((x % 256) as u8, (x / 256) as u8 | (y % 256) as u8),
        None => (0, 0),
    }
}

fn weigh(set: bool, weight: u32) -> (r: u32)
    ensures
        r == game_boy_color::weight(set, weight as int),
        r <= weight,
{
    if set {
        weight
    } else {
        0
    }
}

/// The input as a replay holds it: the buttons, the lower byte first, and the touch point.
pub fn encode_input(input: Input) -> (r: Vec<u8>)
    ensures
        r@.len() == 4,
        r@[0] == keys(input) % 256,
        r@[1] == keys(input) / 256,
        (r@[2], r@[3]) == touch_bytes(input.touch),
{
    let value: u32 = game_boy_advance::key_mask(input) + weigh(input.x, 1024) + weigh(
        input.y,
        2048,
    ) + weigh(input.touch.is_some(), 4096);
    let (x, y): (u8, u8) = match input.touch {
        Some((x, y)) => ((x % 256) as u8, (x / 256) as u8 | (y % 256) as u8),
        None => (0, 0),
    };
    let mut r: Vec<u8> = Vec::new();
    r.push((value % 256) as u8);
    r.push((value / 256) as u8);
    r.push(x);
    r.push(y);
    r
}

/// What an encoded input holds, as one number; nothing if it is not four bytes.
pub fn decode_input(input: &[u8]) -> (r: u32)
    ensures
        r == (if input@.len() == 4 {
            input@[0] + input@[1] * 0x100 + input@[2] * 0x1_0000 + input@[3] * 0x100_0000
        } else {
            0
        }),
{
    if input.len() != 4 {
        return 0;
    }
    input[0] as u32 + input[1] as u32 * 0x100 + input[2] as u32 * 0x1_0000 + input[3] as u32
        * 0x100_0000
}

/// A touch point on the screen is encoded as it is.
pub proof fn law_touch_points_fit(x: u16, y: u16)
    requires
        x < NDS_WIDTH,
        y < NDS_HEIGHT,
    ensures
        touch_bytes(Some((x, y))) == (x as u8, y as u8),
{
    let low = (y % 256) as u8;
    assert(0u8 | low == low) by (bit_vector);
}

// ---------------------------------------------------------------------------------------------
// The console.

/// A Nintendo DS, but for the emulated core.
pub struct NintendoDS {
    /// The upper and the lower screen.
    pub screens: Vec<ScreenData>,
    pub pacer: FramePacer,
    pub skip_drawing: bool,
    pub audio_enabled: bool,
    /// Whether the core recompiles code, which writes have to be told to.
    pub jit: bool,
    pub regions: Vec<MemoryRegionInfo>,
}

/// Whether a screen is all there.
pub open spec fn is_nds_screen(s: ScreenData) -> bool {
    &&& s.width == NDS_WIDTH
    &&& s.height == NDS_HEIGHT
    &&& s.pixels@.len() == NDS_WIDTH * NDS_HEIGHT
}

fn blank_screen() -> (r: ScreenData)
    ensures
        is_nds_screen(r),
        forall|i: int| 0 <= i < r.pixels@.len() ==> r.pixels@[i] == 0,
{
    let mut pixels: Vec<u32> = Vec::new();
    pixels.resize(NDS_WIDTH * NDS_HEIGHT, 0);
    ScreenData {
        pixels,
        width: NDS_WIDTH,
        height: NDS_HEIGHT,
        encoding: ScreenDataEncoding::A8R8G8B8,
    }
}

impl NintendoDS {
    /// There are two screens, and the address space is all there.
    pub open spec fn wf(self) -> bool {
        &&& self.screens@.len() == 2
        &&& is_nds_screen(self.screens@[0])
        &&& is_nds_screen(self.screens@[1])
        &&& is_nds_map(self.regions@)
    }

    /// A console that was just turned on.
    pub fn new(jit: bool) -> (r: Self)
        ensures
            r.wf(),
            r.pacer == (FramePacer {
                last_frame_microseconds: 0,
                microseconds_per_frame: NDS_MICROSECONDS_PER_FRAME,
            }),
            !r.skip_drawing,
            !r.audio_enabled,
            r.jit == jit,
            forall|s: int, i: int|
                0 <= s < 2 && 0 <= i < NDS_WIDTH * NDS_HEIGHT
                    ==> #[trigger] r.screens@[s].pixels@[i] == 0,
    {
        let mut screens: Vec<ScreenData> = Vec::new();
        screens.push(blank_screen());
        screens.push(blank_screen());
        NintendoDS {
            screens,
            pacer: FramePacer::new(NDS_MICROSECONDS_PER_FRAME),
            skip_drawing: false,
            audio_enabled: false,
            jit,
            regions: nds_memory_regions(),
        }
    }

    /// Whether the core composites frames. Returns whether it has to be told.
    pub fn set_skip_drawing(&mut self, skip: bool) -> (r: bool)
        ensures
            r == (old(self).skip_drawing != skip),
            *final(self) == (NintendoDS { skip_drawing: skip, ..*old(self) }),
            old(self).wf() ==> final(self).wf(),
    {
        let changed: bool = self.skip_drawing != skip;
        self.skip_drawing = skip;
        changed
    }

    /// Turn audio on or off. Returns whether the core's samples are to be thrown away: what was
    /// mixed while nobody listened must not play now.
    pub fn set_audio_enabled(&mut self, enabled: bool) -> (r: bool)
        ensures
            r == (old(self).audio_enabled != enabled),
            *final(self) == (NintendoDS { audio_enabled: enabled, ..*old(self) }),
            old(self).wf() ==> final(self).wf(),
    {
        let changed: bool = self.audio_enabled != enabled;
        self.audio_enabled = enabled;
        changed
    }

    /// Set the game speed.
    pub fn set_speed(&mut self, speed: Speed)
        ensures
            *final(self) == (NintendoDS {
                pacer: FramePacer {
                    microseconds_per_frame: super::pacing::frame_length(
                        NDS_MICROSECONDS_PER_FRAME,
                        speed,
                    ),
                    ..old(self).pacer
                },
                ..*old(self)
            }),
            old(self).wf() ==> final(self).wf(),
    {
        self.pacer.set_speed(NDS_MICROSECONDS_PER_FRAME, speed);
    }

    /// After a frame: a skipped one was not composited, so the screens are left alone.
    pub open spec fn frame_shown(
        self,
        after: Self,
        upper: Vec<u32>,
        lower: Vec<u32>,
        r: RunTime,
    ) -> bool {
        if self.skip_drawing {
            &&& r == (RunTime { frames: 1, presented: false })
            &&& after == self
        } else {
            &&& r == (RunTime { frames: 1, presented: true })
            &&& after == (NintendoDS { screens: after.screens, ..self })
            &&& after.screens@ == seq![
                ScreenData { pixels: upper, ..self.screens@[0] },
                ScreenData { pixels: lower, ..self.screens@[1] },
            ]
        }
    }

    /// The core ran a frame, which left those pixels.
    pub fn frame_ran(&mut self, upper: Vec<u32>, lower: Vec<u32>) -> (r: RunTime)
        requires
            old(self).wf(),
            upper@.len() == NDS_WIDTH * NDS_HEIGHT,
            lower@.len() == NDS_WIDTH * NDS_HEIGHT,
        ensures
            final(self).wf(),
            old(self).frame_shown(*final(self), upper, lower, r),
    {
        if self.skip_drawing {
            return RunTime { frames: 1, presented: false };
        }
        let ghost before = *self;
        let mut first: ScreenData = blank_screen();
        let mut second: ScreenData = blank_screen();
        first.pixels = upper;
        second.pixels = lower;
        let mut screens: Vec<ScreenData> = Vec::new();
        first.encoding = self.screens[0].encoding;
        second.encoding = self.screens[1].encoding;
        screens.push(first);
        screens.push(second);
        self.screens = screens;
        assert(self.screens@ =~= seq![
            ScreenData { pixels: upper, ..before.screens@[0] },
            ScreenData { pixels: lower, ..before.screens@[1] },
        ]);
        RunTime::one_frame()
    }

    /// Where a write goes.
    pub fn locate_write(&self, address: u32, len: usize) -> (r: Result<
        (NdsRegion, usize),
        &'static str,
    >)
        requires
            self.wf(),
        ensures
            match memory::located(self.regions@, address, len as int) {
                None => r matches Err(e) && e@ == "unknown address or range"@,
                Some((index, offset)) => r matches Ok((region, o)) && o == offset && Some(region)
                    == nds_region(index as usize),
            },
    {
        proof {
            memory::lemma_located(self.regions@, 0, address, len as int);
        }
        match memory::locate_memory(self.regions.as_slice(), address, len) {
            None => Err("unknown address or range"),
            Some((index, offset)) => {
                let region: NdsRegion = if index == 0 {
                    NdsRegion::MainRam
                } else if index == 1 {
                    NdsRegion::SharedWorkRam
                } else {
                    NdsRegion::Arm7WorkRam
                };
                Ok((region, offset))
            },
        }
    }

    /// Whether a part of memory is large enough for a write into it.
    pub fn check_write(offset: usize, len: usize, available: usize) -> (r: Result<(), &'static str>)
        ensures
            if offset + len <= available {
                r is Ok
            } else {
                r matches Err(e) && e@ == "out of range write"@
            },
    {
        if offset > available || len > available - offset {
            return Err("out of range write");
        }
        Ok(())
    }

    /// The part of memory a region shows.
    pub fn region_at(index: usize) -> (r: Option<NdsRegion>)
        ensures
            r == nds_region(index),
    {
        if index == 0 {
            Some(NdsRegion::MainRam)
        } else if index == 1 {
            Some(NdsRegion::SharedWorkRam)
        } else if index == 2 {
            Some(NdsRegion::Arm7WorkRam)
        } else {
            None
        }
    }
}

/// The part of memory a region shows.
pub open spec fn nds_region(index: usize) -> Option<NdsRegion> {
    if index == 0 {
        Some(NdsRegion::MainRam)
    } else if index == 1 {
        Some(NdsRegion::SharedWorkRam)
    } else if index == 2 {
        Some(NdsRegion::Arm7WorkRam)
    } else {
        None
    }
}

} // verus!
