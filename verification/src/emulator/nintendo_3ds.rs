//! The Nintendo 3DS.
//!
//! What a [`Nintendo3DS`] holds is everything but the emulated core itself: the program around it
//! runs that, and asks when a frame is due, whether to draw and show it and how input is encoded.

use super::console::{RunTime, ScreenData, ScreenDataEncoding};
use super::game_boy_advance;
use super::input::Input;
use super::memory::MemoryRegionInfo;
use super::pacing::FramePacer;
use crate::bytes;
use crate::play_together::live;
use crate::replay::packet::Speed;
use vstd::prelude::*;
use vstd::string::*;

verus! {

/// The length of a frame at normal speed (268111856 Hz / 4481136 cycles per frame = 59.8261 Hz).
pub const N3DS_MICROSECONDS_PER_FRAME: u64 = 16_715;

/// The address space of the emulated program. Reads and writes go through the process's page table
/// and accept any mapped address, so these only name the ranges a memory tool can expect to find
/// something in; their true extents are whatever the game mapped.
pub open spec fn is_3ds_map(regions: Seq<MemoryRegionInfo>) -> bool {
    &&& regions.len() == 2
    &&& game_boy_advance::is_plain(
        regions[0],
        "Process heap"@,
        "HEAP"@,
        0x0800_0000,
        0x0800_0000,
    )
    &&& game_boy_advance::is_plain(
        regions[1],
        "Linear heap"@,
        "LINEAR"@,
        0x1400_0000,
        0x0800_0000,
    )
}

/// The address space of the emulated program.
pub fn n3ds_memory_regions() -> (r: Vec<MemoryRegionInfo>)
    ensures
        is_3ds_map(r@),
{
    let mut r: Vec<MemoryRegionInfo> = Vec::new();
    r.push(game_boy_advance::plain_region("Process heap", "HEAP", 0x0800_0000, 0x0800_0000));
    r.push(game_boy_advance::plain_region("Linear heap", "LINEAR", 0x1400_0000, 0x0800_0000));
    r
}

// ---------------------------------------------------------------------------------------------
// Input.

/// The bit of each button, in the core's order.
#[derive(Copy, Clone, Debug, PartialEq, Eq, Structural)]
pub struct ButtonBits {
    pub a: u32,
    pub b: u32,
    pub x: u32,
    pub y: u32,
    pub up: u32,
    pub down: u32,
    pub left: u32,
    pub right: u32,
    pub l: u32,
    pub r: u32,
    pub start: u32,
    pub select: u32,
    pub zl: u32,
    pub zr: u32,
}

/// What a core is told of the input.
#[derive(Copy, Clone, Debug, PartialEq, Eq, Structural)]
pub struct InputState {
    pub buttons: u32,
    pub circle_x: i8,
    pub circle_y: i8,
    pub c_stick_x: i8,
    pub c_stick_y: i8,
    pub touch_pressed: bool,
    pub touch_x: u16,
    pub touch_y: u16,
}

/// No input.
pub open spec fn no_input() -> InputState {
    InputState {
        buttons: 0,
        circle_x: 0,
        circle_y: 0,
        c_stick_x: 0,
        c_stick_y: 0,
        touch_pressed: false,
        touch_x: 0,
        touch_y: 0,
    }
}

/// A bit, if its button is pressed.
pub open spec fn bit(pressed: bool, bit: u32) -> u32 {
    if pressed {
        bit
    } else {
        0
    }
}

fn pick(pressed: bool, bit: u32) -> (r: u32)
    ensures
        r == self::bit(pressed, bit),
{
    if pressed {
        bit
    } else {
        0
    }
}

/// The buttons pressed.
pub open spec fn buttons(input: Input, bits: ButtonBits) -> u32 {
    bit(input.a, bits.a) | bit(input.b, bits.b) | bit(input.x, bits.x) | bit(input.y, bits.y) | bit(
        input.d_up,
        bits.up,
    ) | bit(input.d_down, bits.down) | bit(input.d_left, bits.left) | bit(input.d_right, bits.right)
        | bit(input.l, bits.l) | bit(input.r, bits.r) | bit(input.start, bits.start) | bit(
        input.select,
        bits.select,
    ) | bit(input.zl, bits.zl) | bit(input.zr, bits.zr)
}

/// A pair of opposite buttons as a fully deflected stick.
pub open spec fn deflection(positive: bool, negative: bool) -> i8 {
    if positive == negative {
        0
    } else if positive {
        127
    } else {
        (-127) as i8
    }
}

fn deflect(positive: bool, negative: bool) -> (r: i8)
    ensures
        r == deflection(positive, negative),
{
    if positive == negative {
        0
    } else if positive {
        127
    } else {
        -127
    }
}

/// The circle pad. Without one, the d-pad doubles as a fully deflected one, which is how most games
/// expect to be walked.
pub open spec fn circle_pad(input: Input) -> (i8, i8) {
    if input.circle != (0i8, 0i8) {
        input.circle
    } else {
        (deflection(input.d_right, input.d_left), deflection(input.d_up, input.d_down))
    }
}

/// The smaller of two numbers.
pub open spec fn at_most(n: u16, most: u16) -> u16 {
    if n < most {
        n
    } else {
        most
    }
}

/// The byte of a signed number.
pub open spec fn signed_byte(n: i8) -> u8 {
    if n >= 0 {
        n as u8
    } else {
        (n + 256) as u8
    }
}

/// The signed number of a byte.
pub open spec fn signed(b: u8) -> i8 {
    if b < 128 {
        b as i8
    } else {
        (b - 256) as i8
    }
}

fn to_byte(n: i8) -> (r: u8)
    ensures
        r == signed_byte(n),
{
    if n >= 0 {
        n as u8
    } else {
        (n as i16 + 256) as u8
    }
}

fn from_byte(b: u8) -> (r: i8)
    ensures
        r == signed(b),
{
    if b < 128 {
        b as i8
    } else {
        (b as i16 - 256) as i8
    }
}

/// The replay encoding of an input: the buttons, the two sticks, and the touch point with a flag.
pub open spec fn encoded(input: Input, bits: ButtonBits) -> Seq<u8> {
    let (cx, cy) = circle_pad(input);
    let head = bytes::le_bytes(buttons(input, bits) as nat, 4) + seq![
        signed_byte(cx),
        signed_byte(cy),
        signed_byte(input.c_stick.0),
        signed_byte(input.c_stick.1),
    ];
    head + touched(input.touch)
}

/// What a core is told of an encoded input; nothing if it is too short.
pub open spec fn decoded(data: Seq<u8>) -> InputState {
    if data.len() < 12 {
        no_input()
    } else {
        InputState {
            buttons: bytes::le_value(data.subrange(0, 4)) as u32,
            circle_x: signed(data[4]),
            circle_y: signed(data[5]),
            c_stick_x: signed(data[6]),
            c_stick_y: signed(data[7]),
            touch_pressed: data[8] != 0,
            touch_y: data[9] as u16,
            touch_x: (data[10] + data[11] * 256) as u16,
        }
    }
}

fn press(input: &Input, bits: &ButtonBits) -> (r: u32)
    ensures
        r == buttons(*input, *bits),
{
    pick(input.a, bits.a) | pick(input.b, bits.b) | pick(input.x, bits.x) | pick(input.y, bits.y)
        | pick(input.d_up, bits.up) | pick(input.d_down, bits.down) | pick(input.d_left, bits.left)
        | pick(input.d_right, bits.right) | pick(input.l, bits.l) | pick(input.r, bits.r) | pick(
        input.start,
        bits.start,
    ) | pick(input.select, bits.select) | pick(input.zl, bits.zl) | pick(input.zr, bits.zr)
}

fn steer(input: &Input) -> (r: (i8, i8))
    ensures
        r == circle_pad(*input),
{
    let (x, y): (i8, i8) = input.circle;
    if x != 0 || y != 0 {
        (x, y)
    } else {
        (deflect(input.d_right, input.d_left), deflect(input.d_up, input.d_down))
    }
}

/// The last four bytes of an encoded input: the touch point, with a flag.
pub open spec fn touched(touch: Option<(u16, u16)>) -> Seq<u8> {
    match touch {
        Some((x, y)) => {
            let tx = at_most(x, 319);
            seq![1u8, at_most(y, 239) as u8, (tx % 256) as u8, (tx / 256) as u8]
        },
        None => seq![0u8, 0u8, 0u8, 0u8],
    }
}

fn push_touch(out: &mut Vec<u8>, touch: Option<(u16, u16)>)
    ensures
        final(out)@ == old(out)@ + touched(touch),
{
    let ghost before = out@;
    match touch {
        Some((x, y)) => {
            let ty: u16 = if y < 239 {
                y
            } else {
                239
            };
            let tx: u16 = if x < 319 {
                x
            } else {
                319
            };
            out.push(1);
            out.push(ty as u8);
            out.push((tx % 256) as u8);
            out.push((tx / 256) as u8);
        },
        None => {
            out.push(0);
            out.push(0);
            out.push(0);
            out.push(0);
        },
    }
    assert(out@ =~= before + touched(touch));
}

/// The replay encoding of an input.
pub fn encode(input: &Input, bits: &ButtonBits) -> (r: Vec<u8>)
    ensures
        r@ == encoded(*input, *bits),
{
    let pressed: u32 = press(input, bits);
    let (cx, cy): (i8, i8) = steer(input);
    let mut out: Vec<u8> = Vec::new();
    let ghost empty = out@;
    bytes::push_le(&mut out, pressed as u64, 4);
    let ghost head = out@;
    assert(head =~= bytes::le_bytes(pressed as nat, 4));
    out.push(to_byte(cx));
    out.push(to_byte(cy));
    out.push(to_byte(input.c_stick.0));
    out.push(to_byte(input.c_stick.1));
    assert(out@ =~= head + seq![
        signed_byte(cx),
        signed_byte(cy),
        signed_byte(input.c_stick.0),
        signed_byte(input.c_stick.1),
    ]);
    push_touch(&mut out, input.touch);
    out
}

/// What a core is told of an encoded input.
pub fn decode(data: &[u8]) -> (r: InputState)
    ensures
        r == decoded(data@),
{
    if data.len() < 12 {
        return InputState {
            buttons: 0,
            circle_x: 0,
            circle_y: 0,
            c_stick_x: 0,
            c_stick_y: 0,
            touch_pressed: false,
            touch_x: 0,
            touch_y: 0,
        };
    }
    proof {
        bytes::lemma_byte_ranges();
    }
    InputState {
        buttons: bytes::read_le(data, 0, 4) as u32,
        circle_x: from_byte(data[4]),
        circle_y: from_byte(data[5]),
        c_stick_x: from_byte(data[6]),
        c_stick_y: from_byte(data[7]),
        touch_pressed: data[8] != 0,
        touch_y: data[9] as u16,
        touch_x: data[10] as u16 + data[11] as u16 * 256,
    }
}

/// An input survives the replay encoding: the core is told the buttons, the sticks and the touch
/// point (kept on the screen) that were encoded.
pub proof fn law_input_round_trips(input: Input, bits: ButtonBits)
    ensures
        ({
            let s = decoded(encoded(input, bits));
            &&& s.buttons == buttons(input, bits)
            &&& (s.circle_x, s.circle_y) == circle_pad(input)
            &&& (s.c_stick_x, s.c_stick_y) == input.c_stick
            &&& s.touch_pressed == (input.touch is Some)
            &&& input.touch matches Some((x, y)) ==> s.touch_x == at_most(x, 319) && s.touch_y
                == at_most(y, 239)
        }),
{
    let data = encoded(input, bits);
    let head = bytes::le_bytes(buttons(input, bits) as nat, 4);
    bytes::lemma_byte_ranges();
    bytes::lemma_le_bytes(buttons(input, bits) as nat, 4);
    assert(data.subrange(0, 4) =~= head);
    assert(data.len() == 12);
}

// ---------------------------------------------------------------------------------------------
// The console.

/// A Nintendo 3DS, but for the emulated core.
pub struct Nintendo3DS {
    /// The upper and the lower screen.
    pub screens: Vec<ScreenData>,
    pub pacer: FramePacer,
    pub skip_drawing: bool,
    /// How many frames in a row have been drawn before this one. A frame is shown one or more
    /// frames after the game renders it, so the picture on the screens after a drawn frame was
    /// rendered by earlier frames: only when those were drawn too is there anything worth showing.
    pub drawn_in_a_row: u64,
    /// Whether the picture in `screens` is older than the emulation.
    pub stale: bool,
    /// Whether the emulated program stopped.
    pub stopped: bool,
}

/// How the next frame is run.
#[derive(Copy, Clone, Debug, PartialEq, Eq, Structural)]
pub struct FramePlan {
    /// Whether the core draws it.
    pub render: bool,
    /// Whether what the screens show afterwards is worth showing.
    pub present: bool,
}

impl Nintendo3DS {
    /// There are two screens.
    pub open spec fn wf(self) -> bool {
        self.screens@.len() == 2
    }

    /// A console that was just turned on, with screens of those sizes.
    pub fn new(
        top_width: usize,
        top_height: usize,
        bottom_width: usize,
        bottom_height: usize,
    ) -> (r: Self)
        requires
            top_width * top_height <= usize::MAX,
            bottom_width * bottom_height <= usize::MAX,
        ensures
            r.wf(),
            r.screens@[0].width == top_width,
            r.screens@[0].height == top_height,
            r.screens@[0].pixels@ == Seq::new((top_width * top_height) as nat, |i: int| BLANK),
            r.screens@[1].width == bottom_width,
            r.screens@[1].height == bottom_height,
            r.screens@[1].pixels@ == Seq::new(
                (bottom_width * bottom_height) as nat,
                |i: int| BLANK,
            ),
            r.pacer == (FramePacer {
                last_frame_microseconds: 0,
                microseconds_per_frame: N3DS_MICROSECONDS_PER_FRAME,
            }),
            !r.skip_drawing,
            r.drawn_in_a_row == u64::MAX,
            !r.stale,
            !r.stopped,
    {
        let mut screens: Vec<ScreenData> = Vec::new();
        screens.push(blank_screen(top_width, top_height));
        screens.push(blank_screen(bottom_width, bottom_height));
        Nintendo3DS {
            screens,
            pacer: FramePacer::new(N3DS_MICROSECONDS_PER_FRAME),
            skip_drawing: false,
            drawn_in_a_row: u64::MAX,
            stale: false,
            stopped: false,
        }
    }

    /// Whether the emulated program stopped (crashed or shut itself down); frames no longer
    /// advance. A reset recovers.
    pub fn stopped(&self) -> (r: bool)
        ensures
            r == self.stopped,
    {
        self.stopped
    }

    /// How the next frame is run, `lead` drawn frames being needed before one that is shown; not at
    /// all if the program stopped.
    pub fn plan_frame(&self, lead: u64) -> (r: Option<FramePlan>)
        ensures
            r == (if self.stopped {
                None
            } else {
                Some(
                    FramePlan {
                        render: !self.skip_drawing,
                        present: !self.skip_drawing && self.drawn_in_a_row >= lead,
                    },
                )
            }),
    {
        if self.stopped {
            return None;
        }
        let render: bool = !self.skip_drawing;
        Some(FramePlan { render, present: render && self.drawn_in_a_row >= lead })
    }

    /// The core did not get through a frame.
    pub fn frame_failed(&mut self) -> (r: RunTime)
        ensures
            r == super::console::no_time(),
            *final(self) == (Nintendo3DS { stopped: true, ..*old(self) }),
    {
        self.stopped = true;
        RunTime::none()
    }

    /// After a frame that was not shown.
    pub fn frame_hidden(&mut self) -> (r: RunTime)
        ensures
            r == (RunTime { frames: 1, presented: false }),
            *final(self) == (Nintendo3DS {
                stale: true,
                drawn_in_a_row: u64::MAX,
                ..*old(self)
            }),
    {
        self.stale = true;
        self.drawn_in_a_row = u64::MAX;
        RunTime { frames: 1, presented: false }
    }

    /// After a frame that was shown, with those pixels.
    pub fn frame_shown(&mut self, top: Vec<u32>, bottom: Vec<u32>) -> (r: RunTime)
        requires
            old(self).wf(),
            top@.len() == old(self).screens@[0].pixels@.len(),
            bottom@.len() == old(self).screens@[1].pixels@.len(),
        ensures
            final(self).wf(),
            r == (RunTime { frames: 1, presented: true }),
            *final(self) == (Nintendo3DS {
                stale: false,
                drawn_in_a_row: live::one_more(old(self).drawn_in_a_row),
                screens: final(self).screens,
                ..*old(self)
            }),
            final(self).screens@ == seq![
                ScreenData { pixels: top, ..old(self).screens@[0] },
                ScreenData { pixels: bottom, ..old(self).screens@[1] },
            ],
    {
        let ghost before = self.screens@;
        let mut screens: Vec<ScreenData> = Vec::new();
        screens.push(
            ScreenData {
                pixels: top,
                width: self.screens[0].width,
                height: self.screens[0].height,
                encoding: self.screens[0].encoding,
            },
        );
        screens.push(
            ScreenData {
                pixels: bottom,
                width: self.screens[1].width,
                height: self.screens[1].height,
                encoding: self.screens[1].encoding,
            },
        );
        self.screens = screens;
        assert(self.screens@ =~= seq![
            ScreenData { pixels: top, ..before[0] },
            ScreenData { pixels: bottom, ..before[1] },
        ]);
        self.stale = false;
        self.drawn_in_a_row = self.drawn_in_a_row.saturating_add(1);
        RunTime::one_frame()
    }

    /// Frames run from now on need not be drawn, or do.
    pub fn set_skip_drawing(&mut self, skip: bool)
        ensures
            *final(self) == (Nintendo3DS { skip_drawing: skip, ..*old(self) }),
    {
        self.skip_drawing = skip;
    }

    /// Set the game speed.
    pub fn set_speed(&mut self, speed: Speed)
        ensures
            *final(self) == (Nintendo3DS {
                pacer: FramePacer {
                    microseconds_per_frame: super::pacing::frame_length(
                        N3DS_MICROSECONDS_PER_FRAME,
                        speed,
                    ),
                    ..old(self).pacer
                },
                ..*old(self)
            }),
    {
        self.pacer.set_speed(N3DS_MICROSECONDS_PER_FRAME, speed);
    }

    /// A state was loaded.
    pub fn state_loaded(&mut self)
        ensures
            *final(self) == (Nintendo3DS {
                stopped: false,
                stale: true,
                drawn_in_a_row: u64::MAX,
                ..*old(self)
            }),
    {
        self.stopped = false;
        self.stale = true;
        self.drawn_in_a_row = u64::MAX;
    }

    /// The console was reset, if it could be.
    pub fn was_reset(&mut self, succeeded: bool)
        ensures
            *final(self) == (Nintendo3DS { stopped: !succeeded, stale: true, ..*old(self) }),
    {
        self.stopped = !succeeded;
        self.stale = true;
    }
}

/// The colour of a screen that has shown nothing yet.
pub const BLANK: u32 = 0xFF00_0000;

fn blank_screen(width: usize, height: usize) -> (r: ScreenData)
    requires
        width * height <= usize::MAX,
    ensures
        r.width == width,
        r.height == height,
        r.pixels@ == Seq::new((width * height) as nat, |i: int| BLANK),
{
    assert(0 <= width * height) by (nonlinear_arith)
        requires
            0 <= width,
            0 <= height,
    ;
    let mut pixels: Vec<u32> = Vec::new();
    pixels.resize(width * height, BLANK);
    assert(pixels@ =~= Seq::new((width * height) as nat, |i: int| BLANK));
    ScreenData { pixels, width, height, encoding: ScreenDataEncoding::A8R8G8B8 }
}

} // verus!
