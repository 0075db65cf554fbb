//! Video export from replays.
//!
//! One emulated frame becomes exactly one video frame at the console's native refresh rate. The
//! pictures go to a [`VideoFrameSink`], which the encoder implements.

use crate::emulator::console::ScreenData;
use vstd::arithmetic::div_mod::lemma_fundamental_div_mod_converse;
use vstd::prelude::*;
use vstd::string::*;

verus! {

/// Opaque black.
pub const BLACK: u32 = 0xFF00_0000;

/// Error that can occur during a video export.
#[derive(Clone, Debug)]
pub enum VideoExportError {
    /// No replay player was attached to export from.
    NoReplayAttached,
    /// The sink failed (pipe/encoder failure, spawn failure, etc.).
    Sink { explanation: String },
    /// The export was cancelled by the caller.
    Cancelled,
}

/// Error that can occur during a video export, as the contracts see it.
pub ghost enum ExportErrorModel {
    NoReplayAttached,
    Sink { explanation: Seq<char> },
    Cancelled,
}

impl View for VideoExportError {
    type V = ExportErrorModel;

    open spec fn view(&self) -> ExportErrorModel {
        match *self {
            VideoExportError::NoReplayAttached => ExportErrorModel::NoReplayAttached,
            VideoExportError::Sink { explanation } => ExportErrorModel::Sink {
                explanation: explanation@,
            },
            VideoExportError::Cancelled => ExportErrorModel::Cancelled,
        }
    }
}

impl ExportErrorModel {
    /// The error in words.
    pub open spec fn text(self) -> Seq<char> {
        match self {
            ExportErrorModel::NoReplayAttached => "No replay is attached to export"@,
            ExportErrorModel::Sink { explanation } => explanation,
            ExportErrorModel::Cancelled => "The export was cancelled"@,
        }
    }
}

impl VideoExportError {
    /// The error in words.
    pub fn message(&self) -> (r: String)
        ensures
            r@ == self@.text(),
    {
        match self {
            VideoExportError::NoReplayAttached => "No replay is attached to export".to_owned(),
            VideoExportError::Sink { explanation } => explanation.clone(),
            VideoExportError::Cancelled => "The export was cancelled".to_owned(),
        }
    }
}

/// The error of a result, if any.
pub open spec fn problem(r: Result<(), VideoExportError>) -> Option<ExportErrorModel> {
    match r {
        Ok(_) => None,
        Err(e) => Some(e@),
    }
}

/// Something asked of a sink, and the answer.
pub ghost enum SinkCall {
    Begin {
        width: u32,
        height: u32,
        fps_num: u32,
        fps_den: u32,
        error: Option<ExportErrorModel>,
    },
    Cancelled { answer: bool },
    PushFrame { argb: Seq<u32>, error: Option<ExportErrorModel> },
    Progress { done: u64, total: u64 },
    Finish { error: Option<ExportErrorModel> },
    Abort,
}

/// Consumes composited frames during a video export, and watches over it.
pub trait VideoFrameSink {
    /// Everything asked so far, with the answers.
    closed spec fn calls(&self) -> Seq<SinkCall> {
        arbitrary()
    }

    /// Called once before the first frame with the fixed output geometry and fps.
    fn begin(
        &mut self,
        width: u32,
        height: u32,
        fps_num: u32,
        fps_den: u32,
    ) -> (r: Result<(), VideoExportError>)
        ensures
            final(self).calls() == old(self).calls().push(
                SinkCall::Begin { width, height, fps_num, fps_den, error: problem(r) },
            ),
    ;

    /// Whether the export is to stop here. Asked before each frame.
    fn is_cancelled(&mut self) -> (r: bool)
        ensures
            final(self).calls() == old(self).calls().push(SinkCall::Cancelled { answer: r }),
    ;

    /// One frame, ARGB packed as `0xAARRGGBB` (`width * height` of them). Called once per emulated
    /// frame.
    fn push_frame(&mut self, argb: &Vec<u32>) -> (r: Result<(), VideoExportError>)
        ensures
            final(self).calls() == old(self).calls().push(
                SinkCall::PushFrame { argb: argb@, error: problem(r) },
            ),
    ;

    /// How far the export is. Called after each frame.
    fn progress(&mut self, done: u64, total: u64)
        ensures
            final(self).calls() == old(self).calls().push(SinkCall::Progress { done, total }),
    ;

    /// Called once after the last frame on success. Must flush/finalize.
    fn finish(&mut self) -> (r: Result<(), VideoExportError>)
        ensures
            final(self).calls() == old(self).calls().push(
                SinkCall::Finish { error: problem(r) },
            ),
    ;

    /// Called instead of [`finish`](Self::finish) if the export was cancelled or failed. Must clean
    /// up (e.g. kill the encoder, delete the partial output).
    fn abort(&mut self)
        ensures
            final(self).calls() == old(self).calls().push(SinkCall::Abort),
    ;
}

/// Frame range to export. Inclusive start, exclusive end; no end means up to the last frame.
#[derive(Copy, Clone, Debug)]
pub struct ExportRange {
    pub start_frame: u64,
    pub end_frame: Option<u64>,
}

/// How to lay out multi-screen consoles.
#[derive(Copy, Clone, Debug, PartialEq, Eq, Structural)]
pub enum ScreenLayout {
    /// Top screen above the bottom screen.
    VerticalStack,
    /// Top screen left of the bottom screen.
    HorizontalStack,
    /// Only the first (top) screen.
    TopOnly,
    /// Only the second (bottom) screen.
    BottomOnly,
}

impl Default for ScreenLayout {
    fn default() -> (r: Self)
        ensures
            r == ScreenLayout::VerticalStack,
    {
        ScreenLayout::VerticalStack
    }
}

// ---------------------------------------------------------------------------------------------
// Geometry.

/// The larger of two numbers.
pub open spec fn larger(a: usize, b: usize) -> int {
    if a > b {
        a as int
    } else {
        b as int
    }
}

/// The output geometry `(width, height)`; `None` without screens.
pub open spec fn geometry(screens: Seq<ScreenData>, layout: ScreenLayout) -> Option<(int, int)> {
    if screens.len() == 0 {
        None
    } else if screens.len() == 1 {
        Some((screens[0].width as int, screens[0].height as int))
    } else {
        let a = screens[0];
        let b = screens[1];
        Some(
            match layout {
                ScreenLayout::VerticalStack => (larger(a.width, b.width), a.height + b.height),
                ScreenLayout::HorizontalStack => (a.width + b.width, larger(a.height, b.height)),
                ScreenLayout::TopOnly => (a.width as int, a.height as int),
                ScreenLayout::BottomOnly => (b.width as int, b.height as int),
            },
        )
    }
}

/// Whether the output's sides fit in 32 bits.
pub open spec fn sides_fit(screens: Seq<ScreenData>, layout: ScreenLayout) -> bool {
    geometry(screens, layout) matches Some((w, h)) ==> w <= u32::MAX && h <= u32::MAX
}

/// Whether the output's picture fits in memory, too.
pub open spec fn picture_fits(screens: Seq<ScreenData>, layout: ScreenLayout) -> bool {
    &&& sides_fit(screens, layout)
    &&& geometry(screens, layout) matches Some((w, h)) ==> w * h <= usize::MAX
}

fn max_side(a: usize, b: usize) -> (r: usize)
    ensures
        r == larger(a, b),
{
    if a > b {
        a
    } else {
        b
    }
}

/// Compute the output geometry `(width, height)` for the given screens and layout.
///
/// Returns `None` if there are no screens.
pub fn output_geometry(screens: &[ScreenData], layout: ScreenLayout) -> (r: Option<(u32, u32)>)
    requires
        sides_fit(screens@, layout),
    ensures
        match geometry(screens@, layout) {
            Some((w, h)) => r matches Some((width, height)) && width == w && height == h,
            None => r is None,
        },
{
    if screens.len() == 0 {
        return None;
    }
    if screens.len() == 1 {
        return Some((screens[0].width as u32, screens[0].height as u32));
    }
    let a: &ScreenData = &screens[0];
    let b: &ScreenData = &screens[1];
    Some(
        match layout {
            ScreenLayout::VerticalStack => (
                max_side(a.width, b.width) as u32,
                a.height as u32 + b.height as u32,
            ),
            ScreenLayout::HorizontalStack => (
                a.width as u32 + b.width as u32,
                max_side(a.height, b.height) as u32,
            ),
            ScreenLayout::TopOnly => (a.width as u32, a.height as u32),
            ScreenLayout::BottomOnly => (b.width as u32, b.height as u32),
        },
    )
}

/// Whether the output's picture can be made: [`picture_fits`].
pub fn can_composite(screens: &[ScreenData], layout: ScreenLayout) -> (r: bool)
    ensures
        r == picture_fits(screens@, layout),
{
    if screens.len() == 0 {
        return true;
    }
    let (w, h): (u128, u128) = if screens.len() == 1 {
        (screens[0].width as u128, screens[0].height as u128)
    } else {
        let a: &ScreenData = &screens[0];
        let b: &ScreenData = &screens[1];
        match layout {
            ScreenLayout::VerticalStack => (
                max_side(a.width, b.width) as u128,
                a.height as u128 + b.height as u128,
            ),
            ScreenLayout::HorizontalStack => (
                a.width as u128 + b.width as u128,
                max_side(a.height, b.height) as u128,
            ),
            ScreenLayout::TopOnly => (a.width as u128, a.height as u128),
            ScreenLayout::BottomOnly => (b.width as u128, b.height as u128),
        }
    };
    if w > u32::MAX as u128 || h > u32::MAX as u128 {
        return false;
    }
    assert(w * h <= u32::MAX * u32::MAX) by (nonlinear_arith)
        requires
            w <= u32::MAX,
            h <= u32::MAX,
    ;
    w * h <= usize::MAX as u128
}

// ---------------------------------------------------------------------------------------------
// Pictures.

/// What a screen shows at a point, if its row of pixels is there.
pub open spec fn shown(s: ScreenData, x: int, y: int) -> Option<u32> {
    if 0 <= x < s.width && 0 <= y < s.height && (y + 1) * s.width <= s.pixels@.len() {
        Some(s.pixels@[y * s.width + x])
    } else {
        None
    }
}

/// The first colour there is, else black.
pub open spec fn first_of(a: Option<u32>, b: Option<u32>) -> u32 {
    match a {
        Some(p) => p,
        None => match b {
            Some(p) => p,
            None => BLACK,
        },
    }
}

/// The colour of the output at a point.
pub open spec fn pixel_at(screens: Seq<ScreenData>, layout: ScreenLayout, x: int, y: int) -> u32 {
    if screens.len() == 0 {
        BLACK
    } else if screens.len() == 1 {
        first_of(shown(screens[0], x, y), None)
    } else {
        let a = screens[0];
        let b = screens[1];
        match layout {
            ScreenLayout::VerticalStack => first_of(shown(a, x, y), shown(b, x, y - a.height)),
            ScreenLayout::HorizontalStack => first_of(shown(a, x, y), shown(b, x - a.width, y)),
            ScreenLayout::TopOnly => first_of(shown(a, x, y), None),
            ScreenLayout::BottomOnly => first_of(shown(b, x, y), None),
        }
    }
}

/// The output, row by row.
pub open spec fn composited(screens: Seq<ScreenData>, layout: ScreenLayout) -> Seq<u32> {
    match geometry(screens, layout) {
        None => Seq::empty(),
        Some((w, h)) => Seq::new(
            (w * h) as nat,
            |i: int| pixel_at(screens, layout, i % w, i / w),
        ),
    }
}

/// Whether a screen has all of its pixels.
pub open spec fn is_whole(s: ScreenData) -> bool {
    s.pixels@.len() == s.width * s.height
}

proof fn lemma_point(w: int, h: int, x: int, y: int)
    requires
        0 <= x < w,
        0 <= y < h,
    ensures
        0 <= y * w + x < w * h,
        (y * w + x) % w == x,
        (y * w + x) / w == y,
        (y + 1) * w <= w * h,
{
    lemma_fundamental_div_mod_converse(y * w + x, w, y, x);
    assert(y * w + w == (y + 1) * w && (y + 1) * w <= w * h && 0 <= y * w) by (nonlinear_arith)
        requires
            0 <= y < h,
            0 < w,
    ;
}

proof fn lemma_composited_at(screens: Seq<ScreenData>, layout: ScreenLayout, x: int, y: int)
    requires
        geometry(screens, layout) matches Some((w, h)) && 0 <= x < w && 0 <= y < h,
    ensures
        composited(screens, layout)[y * (geometry(screens, layout)->0).0 + x] == pixel_at(
            screens,
            layout,
            x,
            y,
        ),
{
    let (w, h) = geometry(screens, layout)->0;
    lemma_point(w, h, x, y);
}

/// A console with one screen, or a layout that shows one, is that screen, pixel for pixel.
pub proof fn law_one_screen_is_the_picture(screens: Seq<ScreenData>, layout: ScreenLayout)
    requires
        forall|i: int| 0 <= i < screens.len() ==> is_whole(#[trigger] screens[i]),
    ensures
        screens.len() == 1 ==> composited(screens, layout) == screens[0].pixels@,
        screens.len() == 2 && layout == ScreenLayout::TopOnly ==> composited(screens, layout)
            == screens[0].pixels@,
        screens.len() == 2 && layout == ScreenLayout::BottomOnly ==> composited(screens, layout)
            == screens[1].pixels@,
{
    if screens.len() == 1 {
        assert(is_whole(screens[0]));
        lemma_whole_screen(screens, layout, screens[0]);
    } else if screens.len() == 2 {
        assert(is_whole(screens[0]) && is_whole(screens[1]));
        if layout == ScreenLayout::TopOnly {
            lemma_whole_screen(screens, layout, screens[0]);
        } else if layout == ScreenLayout::BottomOnly {
            lemma_whole_screen(screens, layout, screens[1]);
        }
    }
}

proof fn lemma_whole_screen(screens: Seq<ScreenData>, layout: ScreenLayout, s: ScreenData)
    requires
        geometry(screens, layout) == Some((s.width as int, s.height as int)),
        is_whole(s),
        forall|x: int, y: int|
            #[trigger] pixel_at(screens, layout, x, y) == first_of(shown(s, x, y), None),
    ensures
        composited(screens, layout) == s.pixels@,
{
    let w = s.width as int;
    let h = s.height as int;
    let all = composited(screens, layout);
    assert(w * h >= 0) by (nonlinear_arith)
        requires
            w >= 0,
            h >= 0,
    ;
    assert forall|i: int| 0 <= i < all.len() implies #[trigger] all[i] == s.pixels@[i] by {
        assert(w > 0) by (nonlinear_arith)
            requires
                0 <= i < w * h,
                w >= 0,
        ;
        let y = i / w;
        let x = i % w;
        assert(i == y * w + x && 0 <= x < w && 0 <= y < h) by (nonlinear_arith)
            requires
                0 <= i < w * h,
                w > 0,
                y == i / w,
                x == i % w,
        ;
        lemma_point(w, h, x, y);
        assert(all[i] == pixel_at(screens, layout, x, y));
    }
    assert(all =~= s.pixels@);
}

/// Stacked, the first screen is at the top left and the second below it; side by side, the second
/// is to the right of it. Each of their pixels is in the picture, and what no screen covers is
/// opaque black.
pub proof fn law_two_screens_are_put_together(
    screens: Seq<ScreenData>,
    layout: ScreenLayout,
    x: int,
    y: int,
)
    requires
        screens.len() == 2,
        is_whole(screens[0]),
        is_whole(screens[1]),
        0 <= x,
        0 <= y,
        layout == ScreenLayout::VerticalStack || layout == ScreenLayout::HorizontalStack,
    ensures
        ({
            let (a, b) = (screens[0], screens[1]);
            let stacked = layout == ScreenLayout::VerticalStack;
            let width = if stacked {
                if a.width >= b.width {
                    a.width as int
                } else {
                    b.width as int
                }
            } else {
                a.width + b.width
            };
            let height = if stacked {
                a.height + b.height
            } else if a.height >= b.height {
                a.height as int
            } else {
                b.height as int
            };
            let (right, down) = if stacked {
                (0int, a.height as int)
            } else {
                (a.width as int, 0int)
            };
            let all = composited(screens, layout);
            &&& geometry(screens, layout) == Some((width, height))
            &&& all.len() == width * height
            &&& x < a.width && y < a.height ==> all[y * width + x] == a.pixels@[y * a.width + x]
            &&& x < b.width && y < b.height ==> all[(down + y) * width + (right + x)]
                == b.pixels@[y * b.width + x]
            &&& x < width && y < height && !(x < a.width && y < a.height) && !(right <= x < right
                + b.width && down <= y < down + b.height) ==> all[y * width + x] == 0xFF00_0000
        }),
{
    let (a, b) = (screens[0], screens[1]);
    let stacked = layout == ScreenLayout::VerticalStack;
    let (w, h) = geometry(screens, layout)->0;
    let (right, down) = if stacked {
        (0int, a.height as int)
    } else {
        (a.width as int, 0int)
    };
    assert(w * h >= 0) by (nonlinear_arith)
        requires
            w >= 0,
            h >= 0,
    ;
    if x < a.width && y < a.height {
        lemma_point(a.width as int, a.height as int, x, y);
        lemma_composited_at(screens, layout, x, y);
    }
    if x < b.width && y < b.height {
        lemma_point(b.width as int, b.height as int, x, y);
        lemma_composited_at(screens, layout, right + x, down + y);
        assert(shown(a, right + x, down + y) is None);
    }
    if x < w && y < h {
        lemma_composited_at(screens, layout, x, y);
    }
}

/// A picture with a screen drawn into it.
pub open spec fn blitted(out: Seq<u32>, w: int, src: ScreenData, dx: int, dy: int, rows: int) -> Seq<
    u32,
> {
    Seq::new(
        out.len(),
        |i: int|
            if i / w - dy < rows {
                match shown(src, i % w - dx, i / w - dy) {
                    Some(p) => p,
                    None => out[i],
                }
            } else {
                out[i]
            },
    )
}

proof fn lemma_place(w: int, y: int, x: int)
    requires
        0 <= x < w,
        0 <= y,
    ensures
        (y * w + x) / w == y,
        (y * w + x) % w == x,
{
    vstd::arithmetic::div_mod::lemma_fundamental_div_mod_converse(y * w + x, w, y, x);
}

proof fn lemma_parts(i: int, w: int)
    requires
        0 <= i,
        0 < w,
    ensures
        i == (i / w) * w + i % w,
        0 <= i % w < w,
        0 <= i / w,
{
    vstd::arithmetic::div_mod::lemma_fundamental_div_mod(i, w);
    assert(w * (i / w) == (i / w) * w) by (nonlinear_arith);
    vstd::arithmetic::div_mod::lemma_div_pos_is_pos(i, w);
}

/// Copy one row of a screen.
fn blit_row(out: &mut Vec<u32>, w: usize, src: &ScreenData, dx: usize, dy: usize, row: usize)
    requires
        w > 0,
        dx + src.width <= w,
        row < src.height,
        (row + 1) * src.width <= src.pixels@.len(),
        (dy + row + 1) * w <= old(out)@.len(),
    ensures
        final(out)@ == Seq::new(
            old(out)@.len(),
            |i: int|
                if i / (w as int) == dy + row && 0 <= i % (w as int) - dx < src.width {
                    src.pixels@[row * src.width + (i % (w as int) - dx)]
                } else {
                    old(out)@[i]
                },
        ),
{
    let ghost before = out@;
    let ghost wi = w as int;
    proof {
        assert(row * src.width + src.width == (row + 1) * src.width) by (nonlinear_arith);
        assert((dy + row) * w + w == (dy + row + 1) * w) by (nonlinear_arith);
        assert(0 <= row * src.width) by (nonlinear_arith)
            requires
                0 <= row,
                0 <= src.width,
        ;
        assert(0 <= (dy + row) * w) by (nonlinear_arith)
            requires
                0 <= dy + row,
                0 <= w,
        ;
        assert(dy + row <= (dy + row) * w) by (nonlinear_arith)
            requires
                0 <= dy + row,
                1 <= w,
        ;
    }
    let size: usize = out.len();
    let have: usize = src.pixels.len();
    assert(row * src.width <= have && (dy + row) * w + dx <= size);
    let from: usize = row * src.width;
    let to: usize = (dy + row) * w + dx;
    let mut k: usize = 0;
    while k < src.width
        invariant
            k <= src.width,
            wi == w,
            w > 0,
            dx + src.width <= w,
            before.len() == out@.len(),
            from == row * src.width,
            to == (dy + row) * w + dx,
            from + src.width <= src.pixels@.len(),
            to + src.width <= before.len(),
            before.len() == size,
            src.pixels@.len() == have,
            forall|i: int|
                0 <= i < before.len() ==> #[trigger] out@[i] == (if to <= i < to + k {
                    src.pixels@[from + (i - to)]
                } else {
                    before[i]
                }),
        decreases src.width - k,
    {
        out[to + k] = src.pixels[from + k];
        k = k + 1;
    }
    proof {
        assert forall|i: int| 0 <= i < before.len() implies #[trigger] out@[i] == (if i / wi == dy
            + row && 0 <= i % wi - dx < src.width {
            src.pixels@[row * src.width + (i % wi - dx)]
        } else {
            before[i]
        }) by {
            lemma_parts(i, wi);
            if to <= i < to + src.width {
                lemma_place(wi, dy + row, dx + (i - to));
            }
        }
        assert(out@ =~= Seq::new(
            before.len(),
            |i: int|
                if i / wi == dy + row && 0 <= i % wi - dx < src.width {
                    src.pixels@[row * src.width + (i % wi - dx)]
                } else {
                    before[i]
                },
        ));
    }
}

/// Draw a screen into the picture.
fn blit(out: &mut Vec<u32>, w: usize, h: usize, src: &ScreenData, dx: usize, dy: usize)
    requires
        old(out)@.len() == w * h,
        dx + src.width <= w,
        dy + src.height <= h,
    ensures
        final(out)@ == blitted(old(out)@, w as int, *src, dx as int, dy as int, src.height as int),
{
    let ghost before = out@;
    let ghost wi = w as int;
    if w == 0 {
        assert(before.len() == 0) by (nonlinear_arith)
            requires
                before.len() == w * h,
                w == 0,
        ;
        assert(out@ =~= blitted(before, wi, *src, dx as int, dy as int, src.height as int));
        return;
    }
    let mut row: usize = 0;
    proof {
        assert forall|i: int| 0 <= i < before.len() implies before[i] == blitted(
            before,
            wi,
            *src,
            dx as int,
            dy as int,
            0,
        )[i] by {
            lemma_parts(i, wi);
        }
        assert(out@ =~= blitted(before, wi, *src, dx as int, dy as int, 0));
        assert(0 * src.width == 0) by (nonlinear_arith);
    }
    while row < src.height
        invariant
            row <= src.height,
            wi == w,
            w > 0,
            before.len() == w * h,
            before == old(out)@,
            out@.len() == before.len(),
            dx + src.width <= w,
            dy + src.height <= h,
            row * src.width <= src.pixels@.len(),
            out@ == blitted(before, wi, *src, dx as int, dy as int, row as int),
        decreases src.height - row,
    {
        proof {
            assert(row * src.width + src.width == (row + 1) * src.width) by (nonlinear_arith);
            assert(0 <= row * src.width) by (nonlinear_arith)
                requires
                    0 <= row,
                    0 <= src.width,
            ;
        }
        let have: usize = src.pixels.len();
        let start: usize = row * src.width;
        if src.width > have - start {
            // The rest of the screen's pixels is missing.
            proof {
                assert forall|i: int| 0 <= i < before.len() implies #[trigger] out@[i] == blitted(
                    before,
                    wi,
                    *src,
                    dx as int,
                    dy as int,
                    src.height as int,
                )[i] by {
                    let y = i / wi - dy;
                    lemma_parts(i, wi);
                    if y >= row {
                        assert((y + 1) * src.width >= (row + 1) * src.width) by (nonlinear_arith)
                            requires
                                y >= row,
                                0 <= src.width,
                        ;
                        assert(shown(*src, i % wi - dx, y) is None);
                    }
                }
                assert(out@ =~= blitted(
                    before,
                    wi,
                    *src,
                    dx as int,
                    dy as int,
                    src.height as int,
                ));
                assert(before == old(out)@);
            }
            return;
        }
        let ghost drawn = out@;
        assert((dy + row + 1) * w <= w * h) by (nonlinear_arith)
            requires
                dy + row + 1 <= h,
                0 <= w,
        ;
        blit_row(out, w, src, dx, dy, row);
        proof {
            assert forall|i: int| 0 <= i < before.len() implies #[trigger] out@[i] == blitted(
                before,
                wi,
                *src,
                dx as int,
                dy as int,
                row + 1,
            )[i] by {
                lemma_parts(i, wi);
                let y = i / wi - dy;
                assert(drawn[i] == blitted(before, wi, *src, dx as int, dy as int, row as int)[i]);
            }
            assert(out@ =~= blitted(before, wi, *src, dx as int, dy as int, row + 1));
        }
        row = row + 1;
    }
}

/// Composite `screens` into `out` (ARGB, `0xAARRGGBB`) according to `layout`.
///
/// `out` is resized to `width * height` (geometry from [`output_geometry`]) and any padding is
/// filled opaque black. The buffer is intended to be reused across frames.
#[verifier::rlimit(40)]
pub fn composite_screens(screens: &[ScreenData], layout: ScreenLayout, out: &mut Vec<u32>)
    requires
        picture_fits(screens@, layout),
    ensures
        final(out)@ == composited(screens@, layout),
{
    out.clear();
    let (w, h): (usize, usize) = match output_geometry(screens, layout) {
        None => {
            assert(out@ =~= Seq::<u32>::empty());
            return;
        },
        Some((w, h)) => (w as usize, h as usize),
    };
    out.resize(w * h, BLACK);
    let ghost blank = out@;
    if screens.len() == 1 {
        blit(out, w, h, &screens[0], 0, 0);
    } else {
        let a: &ScreenData = &screens[0];
        let b: &ScreenData = &screens[1];
        match layout {
            ScreenLayout::VerticalStack => {
                blit(out, w, h, a, 0, 0);
                blit(out, w, h, b, 0, a.height);
            },
            ScreenLayout::HorizontalStack => {
                blit(out, w, h, a, 0, 0);
                blit(out, w, h, b, a.width, 0);
            },
            ScreenLayout::TopOnly => blit(out, w, h, a, 0, 0),
            ScreenLayout::BottomOnly => blit(out, w, h, b, 0, 0),
        }
    }
    proof {
        let wi = w as int;
        assert forall|i: int| 0 <= i < blank.len() implies #[trigger] out@[i] == pixel_at(
            screens@,
            layout,
            i % wi,
            i / wi,
        ) by {
            if w == 0 {
                assert(blank.len() == 0) by (nonlinear_arith)
                    requires
                        blank.len() == w * h,
                        w == 0,
                ;
            } else {
                lemma_parts(i, wi);
                assert(blank[i] == BLACK);
            }
        }
        assert(out@ =~= composited(screens@, layout));
    }
}

} // verus!
