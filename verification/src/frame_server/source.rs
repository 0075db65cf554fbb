//! What a replay says about itself.

use super::protocol;
use crate::emulator::console::ScreenData;
use crate::export;
use crate::export::ScreenLayout;
use crate::replay::packet::Counter;
use crate::replay::player::{KeyframePlace, ReplayConsoleType, ReplayFilePlayer};
use crate::session::effects::{Bookmark, BookmarkTable};
use vstd::prelude::*;
use vstd::string::*;

verus! {

/// What a replay's index holds beside its events and keyframes.
#[derive(Clone, Debug)]
pub struct ReplayIndex {
    /// Every bookmark, in the order the file has them.
    pub bookmark_table: BookmarkTable,
    /// The marked start, as `(frame, time)`.
    pub crop_start: Option<(u64, u64)>,
    /// The marked end, as `(frame, time)`.
    pub crop_end: Option<(u64, u64)>,
    /// The counters as of the last keyframe, in name order.
    pub last_counters: Vec<Counter>,
    pub format_version: u32,
}

/// Everything a client can learn of a replay without a core.
#[derive(Clone, Debug)]
pub struct ReplaySummary {
    pub console: ReplayConsoleType,
    pub frames: u64,
    /// Frame indices of every keyframe, ascending.
    pub keyframes: Vec<u64>,
    /// `(name, in frame)`, in frame order.
    pub bookmarks: Vec<(String, u64)>,
    /// Every bookmark with its out frame, type and keyframe flag.
    pub bookmark_table: BookmarkTable,
    /// `(start, end)` frame indices of the marked range, when both marks are set.
    pub crop: Option<(u64, u64)>,
    /// Counters as of the last keyframe, in name order.
    pub counters: Vec<(String, i64)>,
    pub rom_checksum: [u8; 32],
    pub rom_filename: String,
    pub rom_name: String,
    pub core_recorded: String,
    pub format_version: u32,
}

// ---------------------------------------------------------------------------------------------
// Order.

/// Whether a text does not come after another: they are compared character by character, and a
/// text comes before what it begins.
pub open spec fn text_le(a: Seq<char>, b: Seq<char>) -> bool
    decreases a.len(),
{
    if a.len() == 0 {
        true
    } else if b.len() == 0 {
        false
    } else if a[0] != b[0] {
        a[0] < b[0]
    } else {
        text_le(a.skip(1), b.skip(1))
    }
}

/// Whether a bookmark does not come after another: by frame, then by name.
pub open spec fn mark_le(a: (Seq<char>, u64), b: (Seq<char>, u64)) -> bool {
    a.1 < b.1 || (a.1 == b.1 && text_le(a.0, b.0))
}

/// Whether bookmarks are in order.
pub open spec fn marks_ordered(marks: Seq<(Seq<char>, u64)>) -> bool {
    forall|i: int, j: int| 0 <= i < j < marks.len() ==> mark_le(#[trigger] marks[i], #[trigger] marks[j])
}

proof fn lemma_text_order(a: Seq<char>, b: Seq<char>, c: Seq<char>)
    ensures
        text_le(a, b) || text_le(b, a),
        text_le(a, b) && text_le(b, c) ==> text_le(a, c),
    decreases a.len(),
{
    if a.len() > 0 && b.len() > 0 && a[0] == b[0] {
        lemma_text_order(a.skip(1), b.skip(1), c.skip(1));
    }
}

proof fn lemma_mark_order(a: (Seq<char>, u64), b: (Seq<char>, u64), c: (Seq<char>, u64))
    ensures
        mark_le(a, b) || mark_le(b, a),
        mark_le(a, b) && mark_le(b, c) ==> mark_le(a, c),
{
    lemma_text_order(a.0, b.0, c.0);
}

fn text_before_or_same(a: &String, b: &String) -> (r: bool)
    ensures
        r == text_le(a@, b@),
{
    let la: usize = a.as_str().unicode_len();
    let lb: usize = b.as_str().unicode_len();
    let mut i: usize = 0;
    assert(a@.skip(0) =~= a@);
    assert(b@.skip(0) =~= b@);
    while i < la && i < lb
        invariant
            i <= la == a@.len(),
            i <= lb == b@.len(),
            text_le(a@, b@) == text_le(a@.skip(i as int), b@.skip(i as int)),
        decreases la - i,
    {
        let ca: char = a.as_str().get_char(i);
        let cb: char = b.as_str().get_char(i);
        if ca != cb {
            return ca < cb;
        }
        assert(a@.skip(i as int).skip(1) =~= a@.skip(i + 1));
        assert(b@.skip(i as int).skip(1) =~= b@.skip(i + 1));
        i = i + 1;
    }
    i >= la
}

fn mark_before_or_same(a: &(String, u64), b: &(String, u64)) -> (r: bool)
    ensures
        r == mark_le((a.0@, a.1), (b.0@, b.1)),
{
    a.1 < b.1 || (a.1 == b.1 && text_before_or_same(&a.0, &b.0))
}

/// Put a bookmark where it belongs among bookmarks in order.
fn insert_mark(marks: &mut Vec<(String, u64)>, mark: (String, u64))
    requires
        marks_ordered(protocol::named(old(marks)@)),
    ensures
        marks_ordered(protocol::named(final(marks)@)),
        protocol::named(final(marks)@).to_multiset() == protocol::named(
            old(marks)@,
        ).to_multiset().insert((mark.0@, mark.1)),
{
    let ghost before = protocol::named(marks@);
    let ghost model = (mark.0@, mark.1);
    let mut at: usize = marks.len();
    while at > 0 && !mark_before_or_same(&marks[at - 1], &mark)
        invariant
            at <= marks@.len(),
            *marks == *old(marks),
            before == protocol::named(marks@),
            model == (mark.0@, mark.1),
            forall|k: int| at <= k < before.len() ==> !mark_le(#[trigger] before[k], model),
        decreases at,
    {
        assert(before[at - 1] == (marks@[at - 1].0@, marks@[at - 1].1));
        at = at - 1;
    }
    proof {
        if at > 0 {
            assert(before[at - 1] == (marks@[at - 1].0@, marks@[at - 1].1));
        }
    }
    marks.insert(at, mark);
    proof {
        let after = protocol::named(marks@);
        assert(after =~= before.insert(at as int, model));
        assert forall|i: int, j: int| 0 <= i < j < after.len() implies mark_le(
            #[trigger] after[i],
            #[trigger] after[j],
        ) by {
            if i == at {
                assert(after[j] == before[j - 1]);
                lemma_mark_order(model, before[j - 1], model);
            } else if j == at {
                assert(after[i] == before[i]);
                if i < at - 1 {
                    assert(mark_le(before[i], before[at - 1]));
                    lemma_mark_order(before[i], before[at - 1], model);
                }
            } else {
                let bi = if i < at {
                    i
                } else {
                    i - 1
                };
                let bj = if j < at {
                    j
                } else {
                    j - 1
                };
                assert(after[i] == before[bi] && after[j] == before[bj]);
            }
        }
        vstd::seq_lib::to_multiset_insert(before, at as int, model);
    }
}

// ---------------------------------------------------------------------------------------------
// The summary.

/// The names and frames of bookmarks.
pub open spec fn marks_of(bookmarks: Seq<Bookmark>) -> Seq<(Seq<char>, u64)> {
    Seq::new(bookmarks.len(), |i: int| (bookmarks[i].name@, bookmarks[i].in_frame))
}

/// Whether frames go up, each once.
pub open spec fn ascending(frames: Seq<u64>) -> bool {
    forall|i: int, j: int| 0 <= i < j < frames.len() ==> frames[i] < frames[j]
}

/// Whether there is a keyframe at a frame.
pub open spec fn has_keyframe(keyframes: Seq<KeyframePlace>, frame: u64) -> bool {
    exists|i: int| 0 <= i < keyframes.len() && (#[trigger] keyframes[i]).frame == frame
}

/// The names and values of counters.
pub open spec fn counter_pairs(counters: Seq<Counter>) -> Seq<(Seq<char>, i64)> {
    Seq::new(counters.len(), |i: int| (counters[i].name@, counters[i].value))
}

/// The marked range, when both marks are set.
pub open spec fn crop_of(start: Option<(u64, u64)>, end: Option<(u64, u64)>) -> Option<(u64, u64)> {
    match (start, end) {
        (Some((s, _)), Some((e, _))) => Some((s, e)),
        _ => None,
    }
}

/// Put a frame where it belongs among frames that go up, unless it is there.
fn insert_frame(frames: &mut Vec<u64>, frame: u64)
    requires
        ascending(old(frames)@),
    ensures
        ascending(final(frames)@),
        forall|f: u64| #[trigger]
            final(frames)@.contains(f) <==> old(frames)@.contains(f) || f == frame,
{
    let ghost before = frames@;
    let mut at: usize = frames.len();
    while at > 0 && frames[at - 1] > frame
        invariant
            at <= frames@.len(),
            frames@ == before,
            forall|k: int| at <= k < before.len() ==> before[k] > frame,
        decreases at,
    {
        at = at - 1;
    }
    if at > 0 && frames[at - 1] == frame {
        assert(before.contains(frame)) by {
            assert(before[at - 1] == frame);
        }
        return;
    }
    frames.insert(at, frame);
    proof {
        assert forall|f: u64| #[trigger]
            frames@.contains(f) implies before.contains(f) || f == frame by {
            let k = choose|k: int| 0 <= k < frames@.len() && frames@[k] == f;
            if k < at {
                assert(before[k] == f);
            } else if k > at {
                assert(before[k - 1] == f);
            }
        }
        assert forall|f: u64| before.contains(f) || f == frame implies #[trigger]
            frames@.contains(f) by {
            if f == frame {
                assert(frames@[at as int] == f);
            } else {
                let k = choose|k: int| 0 <= k < before.len() && before[k] == f;
                if k < at {
                    assert(frames@[k] == f);
                } else {
                    assert(frames@[k + 1] == f);
                }
            }
        }
    }
}

/// The frames of the keyframes, ascending.
fn collect_keyframes(keyframes: &Vec<KeyframePlace>) -> (r: Vec<u64>)
    ensures
        ascending(r@),
        forall|f: u64| #[trigger] r@.contains(f) <==> has_keyframe(keyframes@, f),
{
    let mut r: Vec<u64> = Vec::new();
    let mut i: usize = 0;
    while i < keyframes.len()
        invariant
            i <= keyframes@.len(),
            ascending(r@),
            forall|f: u64| #[trigger]
                r@.contains(f) <==> has_keyframe(keyframes@.take(i as int), f),
        decreases keyframes@.len() - i,
    {
        let ghost done = keyframes@.take(i as int);
        let ghost more = keyframes@.take(i + 1);
        insert_frame(&mut r, keyframes[i].frame);
        proof {
            assert forall|f: u64| has_keyframe(more, f) <==> has_keyframe(done, f) || f
                == keyframes@[i as int].frame by {
                if has_keyframe(done, f) {
                    let k = choose|k: int| 0 <= k < done.len() && (#[trigger] done[k]).frame == f;
                    assert(more[k].frame == f);
                }
                if f == keyframes@[i as int].frame {
                    assert(more[i as int].frame == f);
                }
                if has_keyframe(more, f) {
                    let k = choose|k: int| 0 <= k < more.len() && (#[trigger] more[k]).frame == f;
                    if k < i {
                        assert(done[k].frame == f);
                    }
                }
            }
        }
        i = i + 1;
    }
    assert(keyframes@.take(i as int) =~= keyframes@);
    r
}

/// The bookmarks with their in frames, in frame order.
fn collect_bookmarks(bookmarks: &Vec<Bookmark>) -> (r: Vec<(String, u64)>)
    ensures
        marks_ordered(protocol::named(r@)),
        protocol::named(r@).to_multiset() == marks_of(bookmarks@).to_multiset(),
{
    let mut r: Vec<(String, u64)> = Vec::new();
    let mut i: usize = 0;
    let ghost all = marks_of(bookmarks@);
    assert(all.take(0) =~= protocol::named(r@));
    while i < bookmarks.len()
        invariant
            i <= bookmarks@.len(),
            all == marks_of(bookmarks@),
            marks_ordered(protocol::named(r@)),
            protocol::named(r@).to_multiset() == all.take(i as int).to_multiset(),
        decreases bookmarks@.len() - i,
    {
        let mark: (String, u64) = (bookmarks[i].name.clone(), bookmarks[i].in_frame);
        insert_mark(&mut r, mark);
        proof {
            assert(all.take(i + 1) =~= all.take(i as int).push(all[i as int]));
            vstd::seq_lib::to_multiset_build(all.take(i as int), all[i as int]);
        }
        i = i + 1;
    }
    assert(all.take(i as int) =~= all);
    r
}

/// Whether counters are in the order of their names.
pub open spec fn counters_ordered(counters: Seq<(Seq<char>, i64)>) -> bool {
    forall|i: int, j: int|
        0 <= i < j < counters.len() ==> text_le(
            (#[trigger] counters[i]).0,
            (#[trigger] counters[j]).0,
        )
}

/// Put a counter where it belongs among counters in order.
fn insert_counter(counters: &mut Vec<(String, i64)>, counter: (String, i64))
    requires
        counters_ordered(protocol::named(old(counters)@)),
    ensures
        counters_ordered(protocol::named(final(counters)@)),
        protocol::named(final(counters)@).to_multiset() == protocol::named(
            old(counters)@,
        ).to_multiset().insert((counter.0@, counter.1)),
{
    let ghost before = protocol::named(counters@);
    let ghost model = (counter.0@, counter.1);
    let mut at: usize = counters.len();
    while at > 0 && !text_before_or_same(&counters[at - 1].0, &counter.0)
        invariant
            at <= counters@.len(),
            *counters == *old(counters),
            before == protocol::named(counters@),
            model == (counter.0@, counter.1),
            forall|k: int| at <= k < before.len() ==> !text_le((#[trigger] before[k]).0, model.0),
        decreases at,
    {
        assert(before[at - 1] == (counters@[at - 1].0@, counters@[at - 1].1));
        at = at - 1;
    }
    proof {
        if at > 0 {
            assert(before[at - 1] == (counters@[at - 1].0@, counters@[at - 1].1));
        }
    }
    counters.insert(at, counter);
    proof {
        let after = protocol::named(counters@);
        assert(after =~= before.insert(at as int, model));
        assert forall|i: int, j: int| 0 <= i < j < after.len() implies text_le(
            (#[trigger] after[i]).0,
            (#[trigger] after[j]).0,
        ) by {
            if i == at {
                assert(after[j] == before[j - 1]);
                lemma_text_order(model.0, before[j - 1].0, model.0);
            } else if j == at {
                assert(after[i] == before[i]);
                if i < at - 1 {
                    assert(text_le(before[i].0, before[at - 1].0));
                    lemma_text_order(before[i].0, before[at - 1].0, model.0);
                }
            } else {
                let bi = if i < at {
                    i
                } else {
                    i - 1
                };
                let bj = if j < at {
                    j
                } else {
                    j - 1
                };
                assert(after[i] == before[bi] && after[j] == before[bj]);
            }
        }
        vstd::seq_lib::to_multiset_insert(before, at as int, model);
    }
}

/// The counters with their values, in the order of their names.
fn collect_counters(counters: &Vec<Counter>) -> (r: Vec<(String, i64)>)
    ensures
        counters_ordered(protocol::named(r@)),
        protocol::named(r@).to_multiset() == counter_pairs(counters@).to_multiset(),
{
    let mut r: Vec<(String, i64)> = Vec::new();
    let mut i: usize = 0;
    let ghost all = counter_pairs(counters@);
    assert(all.take(0) =~= protocol::named(r@));
    while i < counters.len()
        invariant
            i <= counters@.len(),
            all == counter_pairs(counters@),
            counters_ordered(protocol::named(r@)),
            protocol::named(r@).to_multiset() == all.take(i as int).to_multiset(),
        decreases counters@.len() - i,
    {
        let counter: (String, i64) = (counters[i].name.clone(), counters[i].value);
        insert_counter(&mut r, counter);
        proof {
            assert(all.take(i + 1) =~= all.take(i as int).push(all[i as int]));
            vstd::seq_lib::to_multiset_build(all.take(i as int), all[i as int]);
        }
        i = i + 1;
    }
    assert(all.take(i as int) =~= all);
    r
}

/// A byte as two lower-case hexadecimal digits.
pub open spec fn hex_lower(b: u8) -> Seq<char> {
    seq![lower_digit((b / 16) as nat), lower_digit((b % 16) as nat)]
}

/// A lower-case hexadecimal digit.
pub open spec fn lower_digit(d: nat) -> char {
    if d < 10 {
        (48 + d) as char
    } else {
        (87 + d) as char
    }
}

/// Bytes as lower-case hexadecimal digits.
pub open spec fn hex_of(bytes: Seq<u8>) -> Seq<char>
    decreases bytes.len(),
{
    if bytes.len() == 0 {
        Seq::empty()
    } else {
        hex_of(bytes.drop_last()) + hex_lower(bytes.last())
    }
}

fn lower_digit_text(d: u8) -> (r: &'static str)
    requires
        d < 16,
    ensures
        r@ == seq![lower_digit(d as nat)],
{
    proof {
        reveal_strlit("0");
        reveal_strlit("1");
        reveal_strlit("2");
        reveal_strlit("3");
        reveal_strlit("4");
        reveal_strlit("5");
        reveal_strlit("6");
        reveal_strlit("7");
        reveal_strlit("8");
        reveal_strlit("9");
        reveal_strlit("a");
        reveal_strlit("b");
        reveal_strlit("c");
        reveal_strlit("d");
        reveal_strlit("e");
        reveal_strlit("f");
    }
    let r: &'static str = match d {
        0 => "0",
        1 => "1",
        2 => "2",
        3 => "3",
        4 => "4",
        5 => "5",
        6 => "6",
        7 => "7",
        8 => "8",
        9 => "9",
        10 => "a",
        11 => "b",
        12 => "c",
        13 => "d",
        14 => "e",
        _ => "f",
    };
    assert(r@ =~= seq![lower_digit(d as nat)]);
    r
}

impl ReplaySummary {
    /// Whether the summary is of that replay.
    pub open spec fn describes(self, player: ReplayFilePlayer, index: ReplayIndex) -> bool {
        &&& self.console == player.metadata.console_type
        &&& self.frames == player.total_frames
        &&& ascending(self.keyframes@)
        &&& forall|frame: u64| #[trigger]
            self.keyframes@.contains(frame) <==> has_keyframe(player.keyframes@, frame)
        &&& marks_ordered(protocol::named(self.bookmarks@))
        &&& protocol::named(self.bookmarks@).to_multiset() == marks_of(
            index.bookmark_table.bookmarks@,
        ).to_multiset()
        &&& self.bookmark_table@ == index.bookmark_table@
        &&& self.crop == crop_of(index.crop_start, index.crop_end)
        &&& counters_ordered(protocol::named(self.counters@))
        &&& protocol::named(self.counters@).to_multiset() == counter_pairs(
            index.last_counters@,
        ).to_multiset()
        &&& self.rom_checksum == player.metadata.rom_checksum
        &&& self.rom_filename@ == player.metadata.rom_filename@
        &&& self.rom_name@ == player.metadata.rom_name@
        &&& self.core_recorded@ == player.metadata.emulator_core_name@
        &&& self.format_version == index.format_version
    }

    /// Summarize a replay.
    pub fn of(player: &ReplayFilePlayer, index: &ReplayIndex) -> (r: Self)
        ensures
            r.describes(*player, *index),
    {
        let crop: Option<(u64, u64)> = match (index.crop_start, index.crop_end) {
            (Some((start, _)), Some((end, _))) => Some((start, end)),
            _ => None,
        };
        ReplaySummary {
            console: player.metadata.console_type,
            frames: player.get_total_frames(),
            keyframes: collect_keyframes(&player.keyframes),
            bookmarks: collect_bookmarks(&index.bookmark_table.bookmarks),
            bookmark_table: index.bookmark_table.duplicate(),
            crop,
            counters: collect_counters(&index.last_counters),
            rom_checksum: player.metadata.rom_checksum,
            rom_filename: player.metadata.rom_filename.clone(),
            rom_name: player.metadata.rom_name.clone(),
            core_recorded: player.metadata.emulator_core_name.clone(),
            format_version: index.format_version,
        }
    }

    /// The checksum of the ROM in hexadecimal.
    pub fn rom_hash_hex(&self) -> (r: String)
        ensures
            r@ == hex_of(self.rom_checksum@),
            r@.len() == 64,
    {
        let mut r: String = String::new();
        let ghost all = self.rom_checksum@;
        let mut i: usize = 0;
        assert(all.take(0) =~= Seq::<u8>::empty());
        assert(r@ =~= hex_of(all.take(0)));
        while i < 32
            invariant
                i <= 32,
                all == self.rom_checksum@,
                all.len() == 32,
                r@ == hex_of(all.take(i as int)),
                r@.len() == 2 * i,
            decreases 32 - i,
        {
            let b: u8 = self.rom_checksum[i];
            let ghost before = r@;
            r.append(lower_digit_text(b / 16));
            r.append(lower_digit_text(b % 16));
            i = i + 1;
            assert(all.take(i as int).drop_last() =~= all.take(i - 1));
            assert(r@ =~= before + hex_lower(b));
        }
        assert(all.take(32) =~= all);
        r
    }
}

// ---------------------------------------------------------------------------------------------
// Consoles.

/// The composited picture size for a console, without a core.
pub open spec fn picture_size(console: ReplayConsoleType, layout: ScreenLayout) -> (u32, u32) {
    match console {
        ReplayConsoleType::GameBoy => (160, 144),
        ReplayConsoleType::GameBoyColor => (160, 144),
        ReplayConsoleType::SuperGameBoy2 => (160, 144),
        ReplayConsoleType::GameBoyAdvance => (240, 160),
        ReplayConsoleType::NintendoDS => match layout {
            ScreenLayout::VerticalStack => (256, 384),
            ScreenLayout::HorizontalStack => (512, 192),
            ScreenLayout::TopOnly => (256, 192),
            ScreenLayout::BottomOnly => (256, 192),
        },
        ReplayConsoleType::Nintendo3DS => match layout {
            ScreenLayout::VerticalStack => (400, 480),
            ScreenLayout::HorizontalStack => (720, 240),
            ScreenLayout::TopOnly => (400, 240),
            ScreenLayout::BottomOnly => (320, 240),
        },
        ReplayConsoleType::Unknown => (0, 0),
    }
}

/// The composited picture size for `console` under `layout`, without a core.
pub fn geometry(console: ReplayConsoleType, layout: ScreenLayout) -> (r: (u32, u32))
    ensures
        r == picture_size(console, layout),
{
    match console {
        ReplayConsoleType::GameBoy => (160, 144),
        ReplayConsoleType::GameBoyColor => (160, 144),
        ReplayConsoleType::SuperGameBoy2 => (160, 144),
        ReplayConsoleType::GameBoyAdvance => (240, 160),
        ReplayConsoleType::NintendoDS => match layout {
            ScreenLayout::VerticalStack => (256, 384),
            ScreenLayout::HorizontalStack => (512, 192),
            ScreenLayout::TopOnly => (256, 192),
            ScreenLayout::BottomOnly => (256, 192),
        },
        // 400x240 over a 320x240 screen; the stack takes the wider one's width.
        ReplayConsoleType::Nintendo3DS => match layout {
            ScreenLayout::VerticalStack => (400, 480),
            ScreenLayout::HorizontalStack => (720, 240),
            ScreenLayout::TopOnly => (400, 240),
            ScreenLayout::BottomOnly => (320, 240),
        },
        ReplayConsoleType::Unknown => (0, 0),
    }
}

/// The sizes of a console's screens.
pub open spec fn screen_sizes(console: ReplayConsoleType) -> Seq<(int, int)> {
    match console {
        ReplayConsoleType::GameBoy => seq![(160int, 144int)],
        ReplayConsoleType::GameBoyColor => seq![(160int, 144int)],
        ReplayConsoleType::SuperGameBoy2 => seq![(160int, 144int)],
        ReplayConsoleType::GameBoyAdvance => seq![(240int, 160int)],
        ReplayConsoleType::NintendoDS => seq![(256int, 192int), (256int, 192int)],
        ReplayConsoleType::Nintendo3DS => seq![(400int, 240int), (320int, 240int)],
        ReplayConsoleType::Unknown => Seq::empty(),
    }
}

/// The picture size told without a core is the one the console's screens make.
pub proof fn law_sizes_are_those_of_the_screens(
    console: ReplayConsoleType,
    layout: ScreenLayout,
    screens: Seq<ScreenData>,
)
    requires
        console != ReplayConsoleType::Unknown,
        screens.len() == screen_sizes(console).len(),
        forall|i: int|
            0 <= i < screens.len() ==> (#[trigger] screens[i]).width == screen_sizes(console)[i].0
                && screens[i].height == screen_sizes(console)[i].1,
    ensures
        export::geometry(screens, layout) matches Some((w, h)) && w == picture_size(
            console,
            layout,
        ).0 && h == picture_size(console, layout).1,
{
    let sizes = screen_sizes(console);
    assert(screens[0].width == sizes[0].0 && screens[0].height == sizes[0].1);
    if screens.len() == 2 {
        assert(screens[1].width == sizes[1].0 && screens[1].height == sizes[1].1);
    }
}

/// The native picture rate of a console, as a fraction.
pub open spec fn native_rate(console: ReplayConsoleType) -> (u32, u32) {
    match console {
        ReplayConsoleType::GameBoy => (4194304, 70224),
        ReplayConsoleType::GameBoyColor => (4194304, 70224),
        ReplayConsoleType::SuperGameBoy2 => (4194304, 70224),
        ReplayConsoleType::GameBoyAdvance => (4194304, 70224),
        ReplayConsoleType::NintendoDS => (33513982, 560190),
        ReplayConsoleType::Nintendo3DS => (268111856, 4481136),
        ReplayConsoleType::Unknown => (60, 1),
    }
}

/// The native picture rate of `console` as a fraction.
pub fn frame_rate(console: ReplayConsoleType) -> (r: (u32, u32))
    ensures
        r == native_rate(console),
{
    match console {
        ReplayConsoleType::GameBoy => (4194304, 70224),
        ReplayConsoleType::GameBoyColor => (4194304, 70224),
        ReplayConsoleType::SuperGameBoy2 => (4194304, 70224),
        ReplayConsoleType::GameBoyAdvance => (4194304, 70224),
        ReplayConsoleType::NintendoDS => (33513982, 560190),
        ReplayConsoleType::Nintendo3DS => (268111856, 4481136),
        ReplayConsoleType::Unknown => (60, 1),
    }
}

/// The layout a byte stands for.
pub open spec fn byte_layout(layout: u8) -> ScreenLayout {
    if layout == 1 {
        ScreenLayout::HorizontalStack
    } else if layout == 2 {
        ScreenLayout::TopOnly
    } else if layout == 3 {
        ScreenLayout::BottomOnly
    } else {
        ScreenLayout::VerticalStack
    }
}

/// The protocol's `layout` byte: 0 stacked, 1 side by side, 2 first only, 3 second only.
pub fn layout_from_byte(layout: u8) -> (r: ScreenLayout)
    ensures
        r == byte_layout(layout),
{
    match layout {
        1 => ScreenLayout::HorizontalStack,
        2 => ScreenLayout::TopOnly,
        3 => ScreenLayout::BottomOnly,
        _ => ScreenLayout::VerticalStack,
    }
}

/// The consoles whose replays are served.
pub fn served_consoles() -> (r: Vec<ReplayConsoleType>)
    ensures
        r@ == seq![
            ReplayConsoleType::GameBoy,
            ReplayConsoleType::SuperGameBoy2,
            ReplayConsoleType::GameBoyColor,
            ReplayConsoleType::GameBoyAdvance,
            ReplayConsoleType::NintendoDS,
        ],
{
    let mut r: Vec<ReplayConsoleType> = Vec::new();
    r.push(ReplayConsoleType::GameBoy);
    r.push(ReplayConsoleType::SuperGameBoy2);
    r.push(ReplayConsoleType::GameBoyColor);
    r.push(ReplayConsoleType::GameBoyAdvance);
    r.push(ReplayConsoleType::NintendoDS);
    assert(r@ =~= seq![
        ReplayConsoleType::GameBoy,
        ReplayConsoleType::SuperGameBoy2,
        ReplayConsoleType::GameBoyColor,
        ReplayConsoleType::GameBoyAdvance,
        ReplayConsoleType::NintendoDS,
    ]);
    r
}

} // verus!
