//! What a session asks of the rest of the program.

use crate::replay::packet;
use crate::replay::packet::{KeyframeMetadata, Packet, Speed};
use vstd::prelude::*;

verus! {

/// A mark of the user in a recording.
#[derive(Clone, Debug)]
pub struct Bookmark {
    pub name: String,
    /// The frame it is at, or begins at.
    pub in_frame: u64,
    /// The frame it ends at, if it marks a range.
    pub out_frame: Option<u64>,
    /// What sort of mark it is.
    pub bookmark_type: String,
    /// Whether there is a keyframe it can be reached from without emulating up to it.
    pub keyframe: bool,
}

/// A mark, as the contracts see it.
pub ghost struct BookmarkModel {
    pub name: Seq<char>,
    pub in_frame: u64,
    pub out_frame: Option<u64>,
    pub bookmark_type: Seq<char>,
    pub keyframe: bool,
}

impl View for Bookmark {
    type V = BookmarkModel;

    open spec fn view(&self) -> BookmarkModel {
        BookmarkModel {
            name: self.name@,
            in_frame: self.in_frame,
            out_frame: self.out_frame,
            bookmark_type: self.bookmark_type@,
            keyframe: self.keyframe,
        }
    }
}

/// The marks of a recording.
#[derive(Clone, Debug)]
pub struct BookmarkTable {
    pub bookmarks: Vec<Bookmark>,
}

impl View for BookmarkTable {
    type V = Seq<BookmarkModel>;

    open spec fn view(&self) -> Seq<BookmarkModel> {
        Seq::new(self.bookmarks@.len(), |i: int| self.bookmarks@[i]@)
    }
}

impl BookmarkTable {
    /// A copy of the marks.
    pub fn duplicate(&self) -> (r: BookmarkTable)
        ensures
            r@ == self@,
    {
        let mut bookmarks: Vec<Bookmark> = Vec::new();
        let mut i: usize = 0;
        while i < self.bookmarks.len()
            invariant
                i == bookmarks@.len() <= self.bookmarks@.len(),
                forall|k: int| 0 <= k < i ==> (#[trigger] bookmarks@[k])@ == self.bookmarks@[k]@,
            decreases self.bookmarks@.len() - i,
        {
            let mark: &Bookmark = &self.bookmarks[i];
            bookmarks.push(
                Bookmark {
                    name: mark.name.clone(),
                    in_frame: mark.in_frame,
                    out_frame: mark.out_frame,
                    bookmark_type: mark.bookmark_type.clone(),
                    keyframe: mark.keyframe,
                },
            );
            i = i + 1;
        }
        let r = BookmarkTable { bookmarks };
        assert(r@ =~= self@);
        r
    }
}

/// Something the rest of the program has to do.
#[derive(Clone, Debug)]
pub enum Effect {
    /// Recording: a frame ran, the clock being at this time.
    RecordFrame { millis: u64 },
    /// Recording: the input changed.
    RecordInput { data: Vec<u8> },
    /// Recording: memory was written.
    RecordWrite { address: u64, data: Vec<u8> },
    /// Recording: the speed changed.
    RecordSpeed { speed: Speed },
    /// Recording: the console was reset.
    RecordReset,
    /// Recording: a state was loaded.
    RecordState { state: Vec<u8> },
    /// Recording: a counter changed.
    RecordCounter { name: String, delta: i64 },
    /// Recording: what the console received over its cable during the frame that just ran.
    RecordSerialIn { data: Vec<u8> },
    /// Recording: a keyframe, stored in full if `full`. If it does not go in, the core is told so
    /// together with `since`.
    RecordKeyframe { state: Vec<u8>, millis: u64, full: bool, since: u64 },
    /// Recording: the run starts here.
    RecordStartMark { timer_offset: u64 },
    /// Recording: the run ends here.
    RecordEndMark,
    /// Recording: the user's marks.
    RecordBookmarks { table: BookmarkTable },
    /// Recording: close the file, unless it is closed already.
    RecordClose,
    /// Recording: drop the file as it is.
    RecordDrop,
    /// Publishing: the input changed.
    PublishInput { data: Vec<u8> },
    /// Publishing: memory was written.
    PublishWrite { address: u64, data: Vec<u8> },
    /// Publishing: the console was reset.
    PublishReset,
    /// Publishing: a state was loaded.
    PublishState { state: Vec<u8> },
    /// Publishing: a counter changed.
    PublishCounter { name: String, delta: i64 },
    /// Publishing: what the console received over its cable during the frame that just ran.
    PublishSerialIn { data: Vec<u8> },
    /// Publishing: a frame ran, the session being at this time.
    PublishFrame { millis: u64 },
    /// Publishing: the hash of the work RAM after a frame.
    PublishHash { frame: u64, hash: [u8; 32] },
    /// Publishing: the complete state at a frame boundary.
    PublishSnapshot { metadata: KeyframeMetadata, state: Vec<u8> },
    /// Publishing: nothing follows.
    PublishEnd,
    /// The cable: the local console's events for a link frame.
    SendLinkFrame {
        frame: u64,
        elapsed_millis: u64,
        events: Vec<Packet>,
        pair_hash: Option<(u64, [u8; 32])>,
    },
    /// Sound: samples to play.
    PlayAudio { samples: Vec<i16> },
    /// Sound: drop what is queued.
    ClearAudio,
    /// Sound: the speed changed.
    AudioSpeed { speed: Speed },
    /// Sound: whether sped-up audio needs its pitch scaled.
    AudioPitch { scales: bool },
}

/// Something the rest of the program has to do, as the contracts see it.
pub ghost enum Out {
    RecordFrame { millis: u64 },
    RecordInput { data: Seq<u8> },
    RecordWrite { address: u64, data: Seq<u8> },
    RecordSpeed { speed: Speed },
    RecordReset,
    RecordState { state: Seq<u8> },
    RecordCounter { name: Seq<char>, delta: i64 },
    RecordSerialIn { data: Seq<u8> },
    RecordKeyframe { state: Seq<u8>, millis: u64, full: bool, since: u64 },
    RecordStartMark { timer_offset: u64 },
    RecordEndMark,
    RecordBookmarks { table: Seq<BookmarkModel> },
    RecordClose,
    RecordDrop,
    PublishInput { data: Seq<u8> },
    PublishWrite { address: u64, data: Seq<u8> },
    PublishReset,
    PublishState { state: Seq<u8> },
    PublishCounter { name: Seq<char>, delta: i64 },
    PublishSerialIn { data: Seq<u8> },
    PublishFrame { millis: u64 },
    PublishHash { frame: u64, hash: [u8; 32] },
    PublishSnapshot { metadata: packet::KeyframeModel, state: Seq<u8> },
    PublishEnd,
    SendLinkFrame {
        frame: u64,
        elapsed_millis: u64,
        events: Seq<packet::PacketModel>,
        pair_hash: Option<(u64, [u8; 32])>,
    },
    PlayAudio { samples: Seq<i16> },
    ClearAudio,
    AudioSpeed { speed: Speed },
    AudioPitch { scales: bool },
}

impl View for Effect {
    type V = Out;

    open spec fn view(&self) -> Out {
        match *self {
            Effect::RecordFrame { millis } => Out::RecordFrame { millis },
            Effect::RecordInput { data } => Out::RecordInput { data: data@ },
            Effect::RecordWrite { address, data } => Out::RecordWrite { address, data: data@ },
            Effect::RecordSpeed { speed } => Out::RecordSpeed { speed },
            Effect::RecordReset => Out::RecordReset,
            Effect::RecordState { state } => Out::RecordState { state: state@ },
            Effect::RecordCounter { name, delta } => Out::RecordCounter { name: name@, delta },
            Effect::RecordSerialIn { data } => Out::RecordSerialIn { data: data@ },
            Effect::RecordKeyframe { state, millis, full, since } => Out::RecordKeyframe {
                state: state@,
                millis,
                full,
                since,
            },
            Effect::RecordStartMark { timer_offset } => Out::RecordStartMark { timer_offset },
            Effect::RecordEndMark => Out::RecordEndMark,
            Effect::RecordBookmarks { table } => Out::RecordBookmarks { table: table@ },
            Effect::RecordClose => Out::RecordClose,
            Effect::RecordDrop => Out::RecordDrop,
            Effect::PublishInput { data } => Out::PublishInput { data: data@ },
            Effect::PublishWrite { address, data } => Out::PublishWrite { address, data: data@ },
            Effect::PublishReset => Out::PublishReset,
            Effect::PublishState { state } => Out::PublishState { state: state@ },
            Effect::PublishCounter { name, delta } => Out::PublishCounter { name: name@, delta },
            Effect::PublishSerialIn { data } => Out::PublishSerialIn { data: data@ },
            Effect::PublishFrame { millis } => Out::PublishFrame { millis },
            Effect::PublishHash { frame, hash } => Out::PublishHash { frame, hash },
            Effect::PublishSnapshot { metadata, state } => Out::PublishSnapshot {
                metadata: metadata@,
                state: state@,
            },
            Effect::PublishEnd => Out::PublishEnd,
            Effect::SendLinkFrame { frame, elapsed_millis, events, pair_hash } =>
            Out::SendLinkFrame {
                frame,
                elapsed_millis,
                events: packet::packet_models(events@),
                pair_hash,
            },
            Effect::PlayAudio { samples } => Out::PlayAudio { samples: samples@ },
            Effect::ClearAudio => Out::ClearAudio,
            Effect::AudioSpeed { speed } => Out::AudioSpeed { speed },
            Effect::AudioPitch { scales } => Out::AudioPitch { scales },
        }
    }
}

/// Effects, as the contracts see them.
pub open spec fn outs_of(effects: Seq<Effect>) -> Seq<Out> {
    Seq::new(effects.len(), |i: int| effects[i]@)
}

/// An effect, if it is called for.
pub open spec fn only_if(wanted: bool, out: Out) -> Seq<Out> {
    if wanted {
        seq![out]
    } else {
        Seq::empty()
    }
}

} // verus!
