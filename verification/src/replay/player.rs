//! A recorded session being read.

use super::packet;
use super::packet::Packet;
use vstd::prelude::*;
use vstd::string::*;

verus! {

/// A console a session can be recorded on.
#[derive(Copy, Clone, Debug, PartialEq, Eq, Structural)]
pub enum ReplayConsoleType {
    GameBoy,
    GameBoyColor,
    SuperGameBoy2,
    GameBoyAdvance,
    NintendoDS,
    Nintendo3DS,
    Unknown,
}

/// A console's name in messages.
pub open spec fn console_text(console: ReplayConsoleType) -> Seq<char> {
    match console {
        ReplayConsoleType::GameBoy => "GameBoy"@,
        ReplayConsoleType::GameBoyColor => "GameBoyColor"@,
        ReplayConsoleType::SuperGameBoy2 => "SuperGameBoy2"@,
        ReplayConsoleType::GameBoyAdvance => "GameBoyAdvance"@,
        ReplayConsoleType::NintendoDS => "NintendoDS"@,
        ReplayConsoleType::Nintendo3DS => "Nintendo3DS"@,
        ReplayConsoleType::Unknown => "Unknown"@,
    }
}

impl ReplayConsoleType {
    /// The console's name in messages.
    pub fn text(&self) -> (r: &'static str)
        ensures
            r@ == console_text(*self),
    {
        match self {
            ReplayConsoleType::GameBoy => "GameBoy",
            ReplayConsoleType::GameBoyColor => "GameBoyColor",
            ReplayConsoleType::SuperGameBoy2 => "SuperGameBoy2",
            ReplayConsoleType::GameBoyAdvance => "GameBoyAdvance",
            ReplayConsoleType::NintendoDS => "NintendoDS",
            ReplayConsoleType::Nintendo3DS => "Nintendo3DS",
            ReplayConsoleType::Unknown => "Unknown",
        }
    }
}

/// The console, ROM, BIOS and core a session was recorded on.
#[derive(Clone, Debug)]
pub struct ReplayFileMetadata {
    pub console_type: ReplayConsoleType,
    pub rom_name: String,
    pub rom_filename: String,
    pub rom_checksum: [u8; 32],
    pub bios_checksum: [u8; 32],
    pub emulator_core_name: String,
}

/// One place of a recorded session.
#[derive(Clone, Debug)]
pub enum ReplaySlot {
    /// The event there.
    Event(Packet),
    /// What is there cannot be read, and why.
    Unreadable(String),
}

/// One place of a recorded session, as the contracts see it.
pub ghost enum SlotModel {
    Event(packet::PacketModel),
    Unreadable(Seq<char>),
}

impl View for ReplaySlot {
    type V = SlotModel;

    open spec fn view(&self) -> SlotModel {
        match *self {
            ReplaySlot::Event(p) => SlotModel::Event(p@),
            ReplaySlot::Unreadable(why) => SlotModel::Unreadable(why@),
        }
    }
}

/// A keyframe's place: the frame it is at, the time there and the slot that holds it.
#[derive(Copy, Clone, Debug, PartialEq, Eq, Structural)]
pub struct KeyframePlace {
    pub frame: u64,
    pub elapsed_millis: u64,
    pub slot: usize,
}

/// Why a session could not be read at a keyframe.
#[derive(Clone, Debug)]
pub enum ReplaySeekError {
    /// There is no keyframe at that frame; `best` is the nearest one before it, or the first.
    NoSuchKeyframe { best: u64 },
    /// The keyframe cannot be read.
    ReadError { error: String },
}

/// A recorded session being read: its events, where its keyframes are, and how far it was read.
pub struct ReplayFilePlayer {
    pub metadata: ReplayFileMetadata,
    pub slots: Vec<ReplaySlot>,
    /// In the order of their frames.
    pub keyframes: Vec<KeyframePlace>,
    pub total_frames: u64,
    pub total_milliseconds: u64,
    /// The slot read next.
    pub cursor: usize,
}

/// Whether keyframes are in the order of their frames.
pub open spec fn in_frame_order(keyframes: Seq<KeyframePlace>) -> bool {
    forall|i: int, j: int|
        0 <= i < j < keyframes.len() ==> keyframes[i].frame <= keyframes[j].frame
}

/// How many keyframes there are up to and at `frame`.
pub open spec fn keyframes_upto(keyframes: Seq<KeyframePlace>, frame: u64) -> nat
    decreases keyframes.len(),
{
    if keyframes.len() == 0 {
        0
    } else if keyframes[0].frame > frame {
        0
    } else {
        1 + keyframes_upto(keyframes.skip(1), frame)
    }
}

/// The last keyframe at or before `frame`.
pub open spec fn keyframe_before(keyframes: Seq<KeyframePlace>, frame: u64) -> Option<KeyframePlace> {
    let n = keyframes_upto(keyframes, frame);
    if n == 0 {
        None
    } else {
        Some(keyframes[n - 1])
    }
}

/// The first keyframe at or after `frame`.
pub open spec fn keyframe_after(keyframes: Seq<KeyframePlace>, frame: u64) -> Option<KeyframePlace>
    decreases keyframes.len(),
{
    if keyframes.len() == 0 {
        None
    } else if keyframes[0].frame >= frame {
        Some(keyframes[0])
    } else {
        keyframe_after(keyframes.skip(1), frame)
    }
}

proof fn lemma_keyframes_upto(keyframes: Seq<KeyframePlace>, n: nat, frame: u64)
    requires
        n <= keyframes.len(),
        forall|k: int| 0 <= k < n ==> (#[trigger] keyframes[k]).frame <= frame,
        n < keyframes.len() ==> keyframes[n as int].frame > frame,
    ensures
        keyframes_upto(keyframes, frame) == n,
    decreases keyframes.len(),
{
    if n > 0 {
        let rest = keyframes.skip(1);
        assert forall|k: int| 0 <= k < n - 1 implies (#[trigger] rest[k]).frame <= frame by {
            assert(rest[k] == keyframes[k + 1]);
        }
        lemma_keyframes_upto(rest, (n - 1) as nat, frame);
        assert(keyframes[0].frame <= frame);
    }
}

proof fn lemma_keyframe_after(keyframes: Seq<KeyframePlace>, n: nat, frame: u64)
    requires
        n <= keyframes.len(),
        forall|k: int| 0 <= k < n ==> (#[trigger] keyframes[k]).frame < frame,
        n < keyframes.len() ==> keyframes[n as int].frame >= frame,
    ensures
        keyframe_after(keyframes, frame) == (if n < keyframes.len() {
            Some(keyframes[n as int])
        } else {
            None
        }),
    decreases keyframes.len(),
{
    if n > 0 {
        let rest = keyframes.skip(1);
        assert forall|k: int| 0 <= k < n - 1 implies (#[trigger] rest[k]).frame < frame by {
            assert(rest[k] == keyframes[k + 1]);
        }
        lemma_keyframe_after(rest, (n - 1) as nat, frame);
        assert(keyframes[0].frame < frame);
    }
}

/// In frame order, the last keyframe at or before a frame is the nearest one.
pub proof fn law_nearest_keyframe(keyframes: Seq<KeyframePlace>, frame: u64, i: int)
    requires
        in_frame_order(keyframes),
        0 <= i < keyframes.len(),
        keyframes[i].frame <= frame,
    ensures
        keyframe_before(keyframes, frame) matches Some(k) && keyframes[i].frame <= k.frame <= frame,
    decreases keyframes.len(),
{
    lemma_upto_bounds(keyframes, frame);
    let n = keyframes_upto(keyframes, frame);
    if i >= n {
        assert(keyframes[n as int].frame <= keyframes[i].frame);
    }
}

/// The keyframes up to a frame are those counted, and the next one is after it.
pub proof fn lemma_upto_bounds(keyframes: Seq<KeyframePlace>, frame: u64)
    ensures
        keyframes_upto(keyframes, frame) <= keyframes.len(),
        forall|k: int|
            0 <= k < keyframes_upto(keyframes, frame) ==> (#[trigger] keyframes[k]).frame <= frame,
        keyframes_upto(keyframes, frame) < keyframes.len() ==> keyframes[keyframes_upto(
            keyframes,
            frame,
        ) as int].frame > frame,
    decreases keyframes.len(),
{
    if keyframes.len() > 0 && keyframes[0].frame <= frame {
        let rest = keyframes.skip(1);
        lemma_upto_bounds(rest, frame);
        let n = keyframes_upto(keyframes, frame);
        assert forall|k: int| 0 <= k < n implies (#[trigger] keyframes[k]).frame <= frame by {
            if k > 0 {
                assert(rest[k - 1].frame <= frame);
            }
        }
    }
}

/// The first slot a keyframe at `frame` is in.
pub open spec fn keyframe_slot(keyframes: Seq<KeyframePlace>, frame: u64) -> Option<usize> {
    match keyframe_after(keyframes, frame) {
        Some(k) => if k.frame == frame {
            Some(k.slot)
        } else {
            None
        },
        None => None,
    }
}

impl ReplayFilePlayer {
    /// The last keyframe at or before `frame`.
    pub fn keyframe_at_or_before(&self, frame: u64) -> (r: Option<KeyframePlace>)
        ensures
            r == keyframe_before(self.keyframes@, frame),
    {
        let ghost all = self.keyframes@;
        let mut n: usize = 0;
        while n < self.keyframes.len() && self.keyframes[n].frame <= frame
            invariant
                n <= all.len(),
                all == self.keyframes@,
                forall|k: int| 0 <= k < n ==> (#[trigger] all[k]).frame <= frame,
            decreases all.len() - n,
        {
            n = n + 1;
        }
        proof {
            lemma_keyframes_upto(all, n as nat, frame);
        }
        if n == 0 {
            None
        } else {
            Some(self.keyframes[n - 1])
        }
    }

    /// The first keyframe at or after `frame`.
    pub fn keyframe_at_or_after(&self, frame: u64) -> (r: Option<KeyframePlace>)
        ensures
            r == keyframe_after(self.keyframes@, frame),
    {
        let ghost all = self.keyframes@;
        let mut n: usize = 0;
        while n < self.keyframes.len() && self.keyframes[n].frame < frame
            invariant
                n <= all.len(),
                all == self.keyframes@,
                forall|k: int| 0 <= k < n ==> (#[trigger] all[k]).frame < frame,
            decreases all.len() - n,
        {
            n = n + 1;
        }
        proof {
            lemma_keyframe_after(all, n as nat, frame);
        }
        if n == self.keyframes.len() {
            None
        } else {
            Some(self.keyframes[n])
        }
    }

    /// Frames in the session.
    pub fn get_total_frames(&self) -> (r: u64)
        ensures
            r == self.total_frames,
    {
        self.total_frames
    }

    /// What was found when asking for the keyframe at `frame`: the slot to read next, or the error.
    pub open spec fn sought(self, frame: u64) -> Result<usize, Seek> {
        match keyframe_slot(self.keyframes@, frame) {
            Some(slot) => if slot < self.slots@.len() {
                match self.slots@[slot as int]@ {
                    SlotModel::Event(_) => Ok(slot),
                    SlotModel::Unreadable(why) => Err(Seek::Unreadable(why)),
                }
            } else {
                Err(Seek::Unreadable("the keyframe is missing"@))
            },
            None => Err(
                Seek::NoSuchKeyframe(
                    match keyframe_before(self.keyframes@, frame) {
                        Some(k) => k.frame,
                        None => if self.keyframes@.len() > 0 {
                            self.keyframes@[0].frame
                        } else {
                            0
                        },
                    },
                ),
            ),
        }
    }

    /// Read on from the keyframe at `frame`.
    pub fn go_to_keyframe(&mut self, frame: u64) -> (r: Result<(), ReplaySeekError>)
        ensures
            match old(self).sought(frame) {
                Ok(slot) => r is Ok && *final(self) == (ReplayFilePlayer {
                    cursor: slot,
                    ..*old(self)
                }),
                Err(why) => r matches Err(e) && e@ == why && *final(self) == *old(self),
            },
    {
        let found: Option<KeyframePlace> = self.keyframe_at_or_after(frame);
        if let Some(k) = found {
            if k.frame == frame {
                let slot: usize = k.slot;
                if slot >= self.slots.len() {
                    return Err(
                        ReplaySeekError::ReadError { error: "the keyframe is missing".to_owned() },
                    );
                }
                if let ReplaySlot::Unreadable(why) = &self.slots[slot] {
                    return Err(ReplaySeekError::ReadError { error: why.clone() });
                }
                self.cursor = slot;
                return Ok(());
            }
        }
        let best: u64 = match self.keyframe_at_or_before(frame) {
            Some(k) => k.frame,
            None => if self.keyframes.len() > 0 {
                self.keyframes[0].frame
            } else {
                0
            },
        };
        Err(ReplaySeekError::NoSuchKeyframe { best })
    }

    /// The event in a slot, if there is one that can be read.
    pub open spec fn event_at(self, slot: int) -> Option<packet::PacketModel> {
        if 0 <= slot < self.slots@.len() {
            match self.slots@[slot]@ {
                SlotModel::Event(p) => Some(p),
                SlotModel::Unreadable(_) => None,
            }
        } else {
            None
        }
    }

    /// How many slots are still to be read.
    pub open spec fn unread(self) -> nat {
        if self.cursor < self.slots@.len() {
            (self.slots@.len() - self.cursor) as nat
        } else {
            0
        }
    }

    /// What is read next: nothing at the end.
    pub open spec fn upcoming(self) -> Option<SlotModel> {
        if self.cursor < self.slots@.len() {
            Some(self.slots@[self.cursor as int]@)
        } else {
            None
        }
    }

    /// Read the next event. `Ok(None)` at the end; what cannot be read is not passed.
    pub fn next_packet(&mut self) -> (r: Result<Option<Packet>, String>)
        ensures
            match old(self).upcoming() {
                None => r matches Ok(None) && *final(self) == *old(self),
                Some(SlotModel::Event(p)) => (r matches Ok(Some(read)) && read@ == p)
                    && *final(self) == (ReplayFilePlayer {
                    cursor: (old(self).cursor + 1) as usize,
                    ..*old(self)
                }),
                Some(SlotModel::Unreadable(why)) => (r matches Err(e) && e@ == why)
                    && *final(self) == *old(self),
            },
    {
        if self.cursor >= self.slots.len() {
            return Ok(None);
        }
        let read: Result<Packet, String> = match &self.slots[self.cursor] {
            ReplaySlot::Event(p) => Ok(p.duplicate()),
            ReplaySlot::Unreadable(why) => Err(why.clone()),
        };
        match read {
            Ok(p) => {
                self.cursor = self.cursor + 1;
                Ok(Some(p))
            },
            Err(why) => Err(why),
        }
    }
}

/// Why a session could not be read at a keyframe, as the contracts see it.
pub ghost enum Seek {
    NoSuchKeyframe(u64),
    Unreadable(Seq<char>),
}

impl View for ReplaySeekError {
    type V = Seek;

    open spec fn view(&self) -> Seek {
        match *self {
            ReplaySeekError::NoSuchKeyframe { best } => Seek::NoSuchKeyframe(best),
            ReplaySeekError::ReadError { error } => Seek::Unreadable(error@),
        }
    }
}

/// The keyframe after a frame is the nearest one: none lies between, and there is none only if all
/// are before.
pub proof fn law_next_keyframe(keyframes: Seq<KeyframePlace>, frame: u64, i: int)
    requires
        in_frame_order(keyframes),
        0 <= i < keyframes.len(),
    ensures
        keyframes[i].frame >= frame ==> (keyframe_after(keyframes, frame) matches Some(k) && frame
            <= k.frame <= keyframes[i].frame),
        keyframe_after(keyframes, frame) is None ==> keyframes[i].frame < frame,
    decreases keyframes.len(),
{
    if keyframes[0].frame >= frame {
        if i > 0 {
            assert(keyframes[0].frame <= keyframes[i].frame);
        }
    } else if i > 0 {
        let rest = keyframes.skip(1);
        assert forall|a: int, b: int| 0 <= a < b < rest.len() implies rest[a].frame
            <= rest[b].frame by {
            assert(keyframes[a + 1].frame <= keyframes[b + 1].frame);
        }
        law_next_keyframe(rest, frame, i - 1);
        assert(rest[i - 1] == keyframes[i]);
    } else {
        if keyframe_after(keyframes, frame) is None {
            assert(keyframes[i].frame < frame);
        }
    }
}

/// There is no keyframe before a frame that all come after.
pub proof fn law_no_keyframe_before(keyframes: Seq<KeyframePlace>, frame: u64)
    requires
        forall|i: int| 0 <= i < keyframes.len() ==> (#[trigger] keyframes[i]).frame > frame,
    ensures
        keyframe_before(keyframes, frame) is None,
{
    if keyframes.len() > 0 {
        assert(keyframes[0].frame > frame);
    }
}

/// A seek to a keyframe's frame goes to that keyframe's slot, if it can be read; a seek to another
/// frame is refused and names the nearest keyframe before it.
pub proof fn law_seeks_find_their_keyframe(player: ReplayFilePlayer, frame: u64, i: int)
    requires
        in_frame_order(player.keyframes@),
        forall|a: int, b: int|
            0 <= a < b < player.keyframes@.len() ==> player.keyframes@[a].frame
                != player.keyframes@[b].frame,
        0 <= i < player.keyframes@.len(),
    ensures
        frame == player.keyframes@[i].frame && player.event_at(
            player.keyframes@[i].slot as int,
        ) is Some ==> player.sought(frame) == Ok::<usize, Seek>(player.keyframes@[i].slot),
        player.sought(frame) is Ok ==> exists|k: int|
            0 <= k < player.keyframes@.len() && (#[trigger] player.keyframes@[k]).frame == frame,
        (forall|k: int|
            0 <= k < player.keyframes@.len() ==> (#[trigger] player.keyframes@[k]).frame != frame)
            && player.keyframes@[i].frame < frame && (i + 1 == player.keyframes@.len()
            || player.keyframes@[i + 1].frame > frame) ==> player.sought(frame) == Err::<usize, Seek>(
            Seek::NoSuchKeyframe(player.keyframes@[i].frame),
        ),
{
    let all = player.keyframes@;
    lemma_after_is_listed(all, frame);
    if frame == all[i].frame {
        law_next_keyframe(all, frame, i);
        let k = keyframe_after(all, frame)->0;
        let at = choose|at: int| 0 <= at < all.len() && all[at] == k;
        assert(all[at].frame == all[i].frame);
        if at < i {
            assert(all[at].frame != all[i].frame);
        } else if i < at {
            assert(all[i].frame != all[at].frame);
        }
    }
    if all[i].frame < frame && (i + 1 == all.len() || all[i + 1].frame > frame) {
        law_nearest_keyframe(all, frame, i);
        lemma_upto_bounds(all, frame);
        let n = keyframes_upto(all, frame);
        if n - 1 > i {
            assert(all[i + 1].frame <= all[n - 1].frame);
        }
    }
}

proof fn lemma_after_is_listed(keyframes: Seq<KeyframePlace>, frame: u64)
    ensures
        keyframe_after(keyframes, frame) matches Some(k) ==> exists|at: int|
            0 <= at < keyframes.len() && keyframes[at] == k,
    decreases keyframes.len(),
{
    if keyframes.len() > 0 {
        if keyframes[0].frame >= frame {
            assert(keyframes[0] == keyframe_after(keyframes, frame)->0);
        } else {
            let rest = keyframes.skip(1);
            lemma_after_is_listed(rest, frame);
            if let Some(k) = keyframe_after(rest, frame) {
                let at = choose|at: int| 0 <= at < rest.len() && rest[at] == k;
                assert(keyframes[at + 1] == k);
            }
        }
    }
}

/// A session is read slot by slot, in order, to its end.
pub proof fn law_slots_are_read_in_order(player: ReplayFilePlayer)
    ensures
        player.cursor < player.slots@.len() ==> player.upcoming() == Some(
            player.slots@[player.cursor as int]@,
        ) && player.unread() + player.cursor == player.slots@.len(),
        player.cursor >= player.slots@.len() ==> player.upcoming() is None && player.unread() == 0,
{
}

} // verus!
