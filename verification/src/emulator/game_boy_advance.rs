//! The Game Boy Advance.
//!
//! What a [`GameBoyAdvance`] holds is everything but the emulated core itself: the program around
//! it runs that, and asks when a frame is due, where a write goes and how the link stands.

use super::console::{RunTime, ScreenData, ScreenDataEncoding};
use super::game_boy_color;
use super::gb_link;
use super::gb_link::LinkMode;
use super::input::Input;
use super::link;
use super::link::LinkError;
use super::memory;
use super::memory::MemoryRegionInfo;
use super::pacing::FramePacer;
use crate::replay::packet::Speed;
use vstd::prelude::*;
use vstd::string::*;

verus! {

/// The length of a frame at normal speed (~59.7 Hz).
pub const GBA_MICROSECONDS_PER_FRAME: u64 = 16742;

/// Width of the screen.
pub const GBA_WIDTH: usize = 240;

/// Height of the screen.
pub const GBA_HEIGHT: usize = 160;

/// The link cable's state on a Game Boy Advance.
#[derive(Copy, Clone, Debug, PartialEq, Eq, Structural)]
pub struct GbaLinkState {
    pub mode: LinkMode,
    /// Whether this console is the pair's first: the lockstep's clock owner.
    pub first: bool,
    /// Emulated cycles since the cable went in (the core's clock wraps; this does not).
    pub link_time: u64,
    pub last_now: i32,
    /// Between two slices of a frame (live mode only): the frame is not complete.
    pub mid_frame: bool,
    /// The replayed cable came out during the frame about to run: it is taken out once the frame
    /// has run.
    pub replay_detach_pending: bool,
}

/// No cable.
pub open spec fn no_cable() -> GbaLinkState {
    GbaLinkState {
        mode: LinkMode::Off,
        first: false,
        link_time: 0,
        last_now: 0,
        mid_frame: false,
        replay_detach_pending: false,
    }
}

fn unplugged() -> (r: GbaLinkState)
    ensures
        r == no_cable(),
{
    GbaLinkState {
        mode: LinkMode::Off,
        first: false,
        link_time: 0,
        last_now: 0,
        mid_frame: false,
        replay_detach_pending: false,
    }
}

/// What happened to recorded traffic handed to the core.
#[derive(Copy, Clone, Debug, PartialEq, Eq, Structural)]
pub enum ReplayQueued {
    /// It is played.
    Applied,
    /// It is played, and the cable comes out after it.
    AppliedThenDetach,
}

/// Which lockstep two cores of a pair are put on.
#[derive(Copy, Clone, Debug, PartialEq, Eq, Structural)]
pub enum Coordinator {
    /// They already are on one.
    Both,
    /// This core's.
    Mine,
    /// The partner's.
    Theirs,
    /// A new one.
    New,
}

/// Whichever core already has a lockstep shares it.
pub fn choose_coordinator(
    attached: bool,
    partner_attached: bool,
    has: bool,
    partner_has: bool,
) -> (r: Coordinator)
    ensures
        r == (if attached && partner_attached {
            Coordinator::Both
        } else if has {
            Coordinator::Mine
        } else if partner_has {
            Coordinator::Theirs
        } else {
            Coordinator::New
        }),
{
    if attached && partner_attached {
        Coordinator::Both
    } else if has {
        Coordinator::Mine
    } else if partner_has {
        Coordinator::Theirs
    } else {
        Coordinator::New
    }
}

/// A core refused the cable.
pub fn cable_refused(partner: bool) -> (r: LinkError)
    ensures
        r@ == link::ErrorModel::Emulator(
            if partner {
                "mGBA refused the other console's link cable"@
            } else {
                "mGBA refused the link cable (a replay driver is in?)"@
            },
        ),
{
    if partner {
        LinkError::Emulator("mGBA refused the other console's link cable".to_owned())
    } else {
        LinkError::Emulator("mGBA refused the link cable (a replay driver is in?)".to_owned())
    }
}

// ---------------------------------------------------------------------------------------------
// Pictures.

/// A pixel of the core (red lowest) as the screen holds it (blue lowest, opaque).
pub open spec fn swizzled(pixel: u32) -> int {
    0xFF00_0000 + pixel % 0x100 * 0x1_0000 + pixel / 0x100 % 0x100 * 0x100 + pixel / 0x1_0000
        % 0x100
}

/// Swap the red and the blue of a pixel.
pub fn swizzle(pixel: u32) -> (r: u32)
    ensures
        r == swizzled(pixel),
{
    let red: u32 = pixel % 0x100;
    let green: u32 = pixel / 0x100 % 0x100;
    let blue: u32 = pixel / 0x1_0000 % 0x100;
    0xFF00_0000 + red * 0x1_0000 + green * 0x100 + blue
}

// ---------------------------------------------------------------------------------------------
// Input.

/// The buttons of a Game Boy Advance as one number.
pub open spec fn keys(input: Input) -> int {
    game_boy_color::weight(input.a, 1) + game_boy_color::weight(input.b, 2)
        + game_boy_color::weight(input.select, 4) + game_boy_color::weight(input.start, 8)
        + game_boy_color::weight(input.d_right, 16) + game_boy_color::weight(input.d_left, 32)
        + game_boy_color::weight(input.d_up, 64) + game_boy_color::weight(input.d_down, 128)
        + game_boy_color::weight(input.r, 256) + game_boy_color::weight(input.l, 512)
}

fn weigh(set: bool, weight: u32) -> (r: u32)
    ensures
        r == game_boy_color::weight(set, weight as int),
        r <= weight,
{
    if set {
        weight
    } else {
        0
    }
}

/// The buttons of a Game Boy Advance as one number.
pub fn key_mask(input: Input) -> (r: u32)
    ensures
        r == keys(input),
        r < 1024,
{
    weigh(input.a, 1) + weigh(input.b, 2) + weigh(input.select, 4) + weigh(input.start, 8) + weigh(
        input.d_right,
        16,
    ) + weigh(input.d_left, 32) + weigh(input.d_up, 64) + weigh(input.d_down, 128) + weigh(
        input.r,
        256,
    ) + weigh(input.l, 512)
}

/// The input as a replay holds it: two bytes, the lower first.
pub fn encode_input(input: Input) -> (r: Vec<u8>)
    ensures
        r@.len() == 2,
        r@[0] == keys(input) % 256,
        r@[1] == keys(input) / 256,
{
    let value: u32 = key_mask(input);
    let mut r: Vec<u8> = Vec::new();
    r.push((value % 256) as u8);
    r.push((value / 256) as u8);
    r
}

/// The buttons an encoded input presses; none if it is not two bytes.
pub fn decode_input(input: &[u8]) -> (r: u16)
    ensures
        r == (if input@.len() == 2 {
            input@[0] + input@[1] * 256
        } else {
            0
        }),
{
    if input.len() != 2 {
        return 0;
    }
    input[0] as u16 + input[1] as u16 * 256
}

/// An encoded input presses the buttons it was made from.
pub proof fn law_keys_round_trip(input: Input)
    ensures
        keys(input) % 256 + keys(input) / 256 * 256 == keys(input),
        0 <= keys(input) < 1024,
{
}

// ---------------------------------------------------------------------------------------------
// Memory.

/// A part of the console's memory.
#[derive(Copy, Clone, Debug, PartialEq, Eq, Structural)]
pub enum GbaRegion {
    ExternalWorkRam,
    InternalWorkRam,
    Palette,
    VideoRam,
    Oam,
    SaveData,
}

/// Where a write goes.
#[derive(Copy, Clone, Debug, PartialEq, Eq, Structural)]
pub enum GbaWrite {
    /// Into the region's bytes, at that offset.
    Direct { region: GbaRegion, offset: usize },
    /// Through the core, at its address: the renderer caches these regions.
    Patch,
    /// Into the save data, at that offset, if it is that large.
    Save { offset: usize },
}

/// A little-endian region that can be written.
pub fn plain_region(
    name: &'static str,
    short_name: &'static str,
    base_address: u32,
    len: u32,
) -> (r: MemoryRegionInfo)
    ensures
        r == (MemoryRegionInfo {
            name,
            short_name,
            base_address,
            len,
            default_big_endian: false,
            writable: true,
        }),
{
    MemoryRegionInfo {
        name,
        short_name,
        base_address,
        len,
        default_big_endian: false,
        writable: true,
    }
}

/// Whether a region is a little-endian one that can be written, of that name and place.
pub open spec fn is_plain(
    r: MemoryRegionInfo,
    name: Seq<char>,
    short_name: Seq<char>,
    base_address: u32,
    len: u32,
) -> bool {
    &&& r.name@ == name
    &&& r.short_name@ == short_name
    &&& r.base_address == base_address
    &&& r.len == len
    &&& !r.default_big_endian
    &&& r.writable
}

/// The Game Boy Advance's address space: the real bus addresses. The save data is sized for the
/// largest save chip; smaller or not-yet-detected saves are shorter.
pub open spec fn is_gba_map(regions: Seq<MemoryRegionInfo>) -> bool {
    &&& regions.len() == 6
    &&& is_plain(regions[0], "EWRAM"@, "EWRAM"@, 0x0200_0000, 0x40000)
    &&& is_plain(regions[1], "IWRAM"@, "IWRAM"@, 0x0300_0000, 0x8000)
    &&& is_plain(regions[2], "Palette RAM"@, "PAL"@, 0x0500_0000, 0x400)
    &&& is_plain(regions[3], "VRAM"@, "VRAM"@, 0x0600_0000, 0x18000)
    &&& is_plain(regions[4], "OAM"@, "OAM"@, 0x0700_0000, 0x400)
    &&& is_plain(regions[5], "Save data"@, "SAVE"@, 0x0E00_0000, 0x20000)
}

/// The Game Boy Advance's address space.
pub fn gba_memory_regions() -> (r: Vec<MemoryRegionInfo>)
    ensures
        is_gba_map(r@),
{
    let mut r: Vec<MemoryRegionInfo> = Vec::new();
    r.push(plain_region("EWRAM", "EWRAM", 0x0200_0000, 0x40000));
    r.push(plain_region("IWRAM", "IWRAM", 0x0300_0000, 0x8000));
    r.push(plain_region("Palette RAM", "PAL", 0x0500_0000, 0x400));
    r.push(plain_region("VRAM", "VRAM", 0x0600_0000, 0x18000));
    r.push(plain_region("OAM", "OAM", 0x0700_0000, 0x400));
    r.push(plain_region("Save data", "SAVE", 0x0E00_0000, 0x20000));
    r
}

// ---------------------------------------------------------------------------------------------
// The console.

/// A Game Boy Advance, but for the emulated core.
pub struct GameBoyAdvance {
    pub screen: ScreenData,
    pub pacer: FramePacer,
    pub link: GbaLinkState,
    pub regions: Vec<MemoryRegionInfo>,
}

impl GameBoyAdvance {
    /// The screen is all there, and so is the address space.
    pub open spec fn wf(self) -> bool {
        &&& self.screen.width == GBA_WIDTH
        &&& self.screen.height == GBA_HEIGHT
        &&& self.screen.pixels@.len() == GBA_WIDTH * GBA_HEIGHT
        &&& is_gba_map(self.regions@)
    }

    /// A console that was just turned on.
    pub fn new() -> (r: Self)
        ensures
            r.wf(),
            forall|i: int| 0 <= i < r.screen.pixels@.len() ==> r.screen.pixels@[i] == 0,
            r.pacer == (FramePacer {
                last_frame_microseconds: 0,
                microseconds_per_frame: GBA_MICROSECONDS_PER_FRAME,
            }),
            r.link == no_cable(),
    {
        let mut pixels: Vec<u32> = Vec::new();
        pixels.resize(GBA_WIDTH * GBA_HEIGHT, 0);
        GameBoyAdvance {
            screen: ScreenData {
                pixels,
                width: GBA_WIDTH,
                height: GBA_HEIGHT,
                encoding: ScreenDataEncoding::A8R8G8B8,
            },
            pacer: FramePacer::new(GBA_MICROSECONDS_PER_FRAME),
            link: unplugged(),
            regions: gba_memory_regions(),
        }
    }

    /// With the core's frame on the screen, as far as either goes.
    pub open spec fn published(self, after: Self, pixels: Seq<u32>) -> bool {
        &&& after == (GameBoyAdvance {
            screen: ScreenData { pixels: after.screen.pixels, ..self.screen },
            ..self
        })
        &&& after.screen.pixels@ == Seq::new(
            self.screen.pixels@.len(),
            |i: int|
                if i < pixels.len() {
                    swizzled(pixels[i]) as u32
                } else {
                    self.screen.pixels@[i]
                },
        )
    }

    /// Copy the core's frame into the screen buffer.
    pub fn publish_frame(&mut self, pixels: &[u32])
        ensures
            old(self).published(*final(self), pixels@),
            old(self).wf() ==> final(self).wf(),
    {
        let ghost before = *self;
        let mut i: usize = 0;
        while i < self.screen.pixels.len() && i < pixels.len()
            invariant
                i <= pixels@.len(),
                i <= before.screen.pixels@.len(),
                *self == (GameBoyAdvance {
                    screen: ScreenData { pixels: self.screen.pixels, ..before.screen },
                    ..before
                }),
                self.screen.pixels@.len() == before.screen.pixels@.len(),
                forall|k: int|
                    0 <= k < before.screen.pixels@.len() ==> #[trigger] self.screen.pixels@[k]
                        == (if k < i {
                        swizzled(pixels@[k]) as u32
                    } else {
                        before.screen.pixels@[k]
                    }),
            decreases pixels@.len() - i,
        {
            self.screen.pixels.set(i, swizzle(pixels[i]));
            i = i + 1;
        }
        assert(self.screen.pixels@ =~= Seq::new(
            before.screen.pixels@.len(),
            |k: int|
                if k < pixels@.len() {
                    swizzled(pixels@[k]) as u32
                } else {
                    before.screen.pixels@[k]
                },
        ));
    }

    /// The core ran a whole frame (or the rest of one). Returns whether the replayed cable comes
    /// out now.
    pub fn frame_ran(&mut self) -> (r: bool)
        ensures
            r == old(self).link.replay_detach_pending,
            *final(self) == (GameBoyAdvance {
                link: GbaLinkState {
                    mid_frame: false,
                    replay_detach_pending: false,
                    mode: if r {
                        LinkMode::Off
                    } else {
                        old(self).link.mode
                    },
                    ..old(self).link
                },
                ..*old(self)
            }),
            old(self).wf() ==> final(self).wf(),
    {
        self.link.mid_frame = false;
        if self.link.replay_detach_pending {
            self.link.replay_detach_pending = false;
            self.link.mode = LinkMode::Off;
            return true;
        }
        false
    }

    /// Set the game speed.
    pub fn set_speed(&mut self, speed: Speed)
        ensures
            *final(self) == (GameBoyAdvance {
                pacer: FramePacer {
                    microseconds_per_frame: super::pacing::frame_length(
                        GBA_MICROSECONDS_PER_FRAME,
                        speed,
                    ),
                    ..old(self).pacer
                },
                ..*old(self)
            }),
            old(self).wf() ==> final(self).wf(),
    {
        self.pacer.set_speed(GBA_MICROSECONDS_PER_FRAME, speed);
    }

    // -----------------------------------------------------------------------------------------
    // Links.

    /// Whether two consoles can be stepped beside each other.
    pub fn check_linked(&self, partner: &Self) -> (r: Result<(), LinkError>)
        ensures
            if self.link.mode == LinkMode::Live && partner.link.mode == LinkMode::Live {
                r is Ok
            } else {
                r matches Err(e) && e@ == link::ErrorModel::NotConnected
            },
    {
        if self.link.mode != LinkMode::Live || partner.link.mode != LinkMode::Live {
            return Err(LinkError::NotConnected);
        }
        Ok(())
    }

    /// Whether a linked step runs the core: not while the lockstep has parked it (the partner has
    /// to run first), and a paced console starts a new frame only when it is due.
    pub fn may_step(&self, asleep: bool, paced: bool, now: u64) -> (r: bool)
        ensures
            r == (!asleep && (self.link.mid_frame || !paced || now >= self.pacer.next())),
    {
        if asleep {
            return false;
        }
        if !self.link.mid_frame && paced {
            return self.pacer.is_due(now);
        }
        true
    }

    /// The link after the core's clock advanced to `now`.
    pub open spec fn link_advanced(link: GbaLinkState, now: i32) -> GbaLinkState {
        let delta = now.wrapping_sub(link.last_now);
        GbaLinkState {
            last_now: now,
            link_time: if delta > 0 {
                gb_link::sum(link.link_time, delta as u64)
            } else {
                link.link_time
            },
            ..link
        }
    }

    /// Advance the link clock by what the core's clock did since the last look.
    pub fn advance_link_time(&mut self, now: i32)
        ensures
            *final(self) == (GameBoyAdvance {
                link: Self::link_advanced(old(self).link, now),
                ..*old(self)
            }),
            old(self).wf() ==> final(self).wf(),
    {
        let delta: i32 = now.wrapping_sub(self.link.last_now);
        self.link.last_now = now;
        if delta > 0 {
            self.link.link_time = self.link.link_time.saturating_add(delta as u64);
        }
    }

    /// After a slice of a linked step.
    pub open spec fn slice_ran(
        self,
        after: Self,
        frames: u64,
        clock: i32,
        pixels: Seq<u32>,
        paced: bool,
        now: u64,
        r: RunTime,
    ) -> bool {
        let linked = Self::link_advanced(self.link, clock);
        if frames == 0 {
            &&& r == super::console::no_time()
            &&& after == (GameBoyAdvance {
                link: GbaLinkState { mid_frame: true, ..linked },
                ..self
            })
        } else {
            &&& r == (RunTime { frames: 1, presented: true })
            &&& (GameBoyAdvance {
                link: GbaLinkState { mid_frame: false, ..linked },
                pacer: if paced {
                    self.pacer.after_frame(now)
                } else {
                    FramePacer { last_frame_microseconds: now, ..self.pacer }
                },
                ..self
            }).published(after, pixels)
        }
    }

    /// The core ran a slice of a linked step, which completed that many frames; its clock, its
    /// picture and the time.
    pub fn linked_slice_ran(
        &mut self,
        frames: u64,
        clock: i32,
        pixels: &[u32],
        paced: bool,
        now: u64,
    ) -> (r: RunTime)
        ensures
            old(self).slice_ran(*final(self), frames, clock, pixels@, paced, now, r),
            old(self).wf() ==> final(self).wf(),
    {
        self.advance_link_time(clock);
        if frames == 0 {
            self.link.mid_frame = true;
            return RunTime::none();
        }
        self.link.mid_frame = false;
        if paced {
            self.pacer.frame_completed(now);
        } else {
            self.pacer.frame_completed_unpaced(now);
        }
        self.publish_frame(pixels);
        RunTime::one_frame()
    }

    /// Plug the cable in, unless it is, the core's clock being at `clock`. Returns whether a
    /// replayed cable is taken out first.
    pub fn connect(&mut self, first: bool, clock: i32) -> (r: Result<bool, LinkError>)
        ensures
            if old(self).link.mode == LinkMode::Live {
                (r matches Err(e) && e@ == link::ErrorModel::NotConnected) && *final(self)
                    == *old(self)
            } else {
                (r matches Ok(detach) && detach == (old(self).link.mode == LinkMode::Replay))
                    && *final(self) == (GameBoyAdvance {
                    link: GbaLinkState {
                        mode: LinkMode::Live,
                        first,
                        last_now: clock,
                        ..no_cable()
                    },
                    ..*old(self)
                })
            },
            old(self).wf() ==> final(self).wf(),
    {
        if self.link.mode == LinkMode::Live {
            return Err(LinkError::NotConnected);
        }
        let detach: bool = self.link.mode == LinkMode::Replay;
        self.link = GbaLinkState {
            mode: LinkMode::Live,
            first,
            link_time: 0,
            last_now: clock,
            mid_frame: false,
            replay_detach_pending: false,
        };
        Ok(detach)
    }

    /// Pull the cable. Returns the one that was in. A frame cut short by the unplug completes on
    /// the next ordinary run.
    pub fn disconnect(&mut self) -> (r: LinkMode)
        ensures
            r == old(self).link.mode,
            *final(self) == (if r == LinkMode::Off {
                *old(self)
            } else {
                GameBoyAdvance { link: no_cable(), ..*old(self) }
            }),
            old(self).wf() ==> final(self).wf(),
    {
        let mode: LinkMode = self.link.mode;
        if mode != LinkMode::Off {
            self.link = unplugged();
        }
        mode
    }

    /// Whether recorded traffic may be handed to the core: a live port hears the real partner.
    pub fn may_queue_serial_in(&self) -> (r: Result<(), LinkError>)
        ensures
            if self.link.mode == LinkMode::Live {
                r matches Err(e) && e@ == link::ErrorModel::NotConnected
            } else {
                r is Ok
            },
    {
        if self.link.mode == LinkMode::Live {
            return Err(LinkError::NotConnected);
        }
        Ok(())
    }

    /// The core was handed recorded traffic, and took it or not.
    pub fn serial_in_queued(&mut self, taken: Option<ReplayQueued>) -> (r: Result<(), LinkError>)
        ensures
            match taken {
                None => (r matches Err(e) && e@ == link::ErrorModel::BadSerialData(
                    "the Game Boy Advance serial log does not parse"@,
                )) && *final(self) == *old(self),
                Some(how) => r is Ok && *final(self) == (GameBoyAdvance {
                    link: GbaLinkState {
                        mode: LinkMode::Replay,
                        replay_detach_pending: old(self).link.replay_detach_pending || how
                            == ReplayQueued::AppliedThenDetach,
                        ..old(self).link
                    },
                    ..*old(self)
                }),
            },
            old(self).wf() ==> final(self).wf(),
    {
        match taken {
            None => {
                return Err(
                    LinkError::BadSerialData(
                        "the Game Boy Advance serial log does not parse".to_owned(),
                    ),
                );
            },
            Some(ReplayQueued::Applied) => {},
            Some(ReplayQueued::AppliedThenDetach) => {
                self.link.replay_detach_pending = true;
            },
        }
        self.link.mode = LinkMode::Replay;
        Ok(())
    }

    // -----------------------------------------------------------------------------------------
    // Memory.

    /// Where a write goes.
    pub fn locate_write(&self, address: u32, len: usize) -> (r: Result<GbaWrite, &'static str>)
        requires
            self.wf(),
        ensures
            match memory::located(self.regions@, address, len as int) {
                None => r matches Err(e) && e@ == "unknown address or range"@,
                Some((index, offset)) => r matches Ok(w) && match w {
                    GbaWrite::Direct { region, offset: o } => o == offset && (if index == 0 {
                        region == GbaRegion::ExternalWorkRam
                    } else {
                        index == 1 && region == GbaRegion::InternalWorkRam
                    }),
                    GbaWrite::Patch => 2 <= index <= 4,
                    GbaWrite::Save { offset: o } => index == 5 && o == offset,
                },
            },
    {
        proof {
            memory::lemma_located(self.regions@, 0, address, len as int);
        }
        match memory::locate_memory(self.regions.as_slice(), address, len) {
            None => Err("unknown address or range"),
            Some((index, offset)) => {
                if index == 0 {
                    Ok(GbaWrite::Direct { region: GbaRegion::ExternalWorkRam, offset })
                } else if index == 1 {
                    Ok(GbaWrite::Direct { region: GbaRegion::InternalWorkRam, offset })
                } else if index <= 4 {
                    Ok(GbaWrite::Patch)
                } else {
                    Ok(GbaWrite::Save { offset })
                }
            },
        }
    }

    /// Whether the save data is large enough for a write into it.
    pub fn check_save_write(offset: usize, len: usize, save_len: usize) -> (r: Result<
        (),
        &'static str,
    >)
        ensures
            if offset + len <= save_len {
                r is Ok
            } else {
                r matches Err(e) && e@ == "invalid range (went outside of the save data)"@
            },
    {
        if offset > save_len || len > save_len - offset {
            return Err("invalid range (went outside of the save data)");
        }
        Ok(())
    }

    /// The part of memory a region shows.
    pub fn region_at(index: usize) -> (r: Option<GbaRegion>)
        ensures
            r == (if index == 0 {
                Some(GbaRegion::ExternalWorkRam)
            } else if index == 1 {
                Some(GbaRegion::InternalWorkRam)
            } else if index == 2 {
                Some(GbaRegion::Palette)
            } else if index == 3 {
                Some(GbaRegion::VideoRam)
            } else if index == 4 {
                Some(GbaRegion::Oam)
            } else if index == 5 {
                Some(GbaRegion::SaveData)
            } else {
                None
            }),
    {
        if index == 0 {
            Some(GbaRegion::ExternalWorkRam)
        } else if index == 1 {
            Some(GbaRegion::InternalWorkRam)
        } else if index == 2 {
            Some(GbaRegion::Palette)
        } else if index == 3 {
            Some(GbaRegion::VideoRam)
        } else if index == 4 {
            Some(GbaRegion::Oam)
        } else if index == 5 {
            Some(GbaRegion::SaveData)
        } else {
            None
        }
    }
}

/// The link clock counts every cycle, although the core's own clock wraps.
pub proof fn law_link_time_survives_wrapping(link: GbaLinkState, step: i32)
    requires
        step > 0,
        link.link_time + step <= u64::MAX,
    ensures
        GameBoyAdvance::link_advanced(link, link.last_now.wrapping_add(step)).link_time
            == link.link_time + step,
{
}

} // verus!
