use supershuckie::emulator::console::{EmulatorCore, RunTime, ScreenData, ScreenDataEncoding};
use supershuckie::emulator::input::Input;
use supershuckie::emulator::link::LinkError;
use supershuckie::emulator::memory::{ConsoleMemory, MemoryRegionInfo};
use supershuckie::export::ScreenLayout;
use supershuckie::frame_server::protocol::{Reply, Request, PROTOCOL_VERSION};
use supershuckie::frame_server::server::{
    greet, info_of, memory_asked, open, server_name, Server, Source, Task,
};
use supershuckie::frame_server::source::{
    frame_rate, geometry, layout_from_byte, served_consoles, ReplayIndex, ReplaySummary,
};
use supershuckie::emulator::null::NullEmulatorCore;
use supershuckie::replay::packet::{Counter, KeyframeMetadata, Packet, Speed};
use supershuckie::replay::player::{
    KeyframePlace, ReplayConsoleType, ReplayFileMetadata, ReplayFilePlayer, ReplaySlot,
};
use supershuckie::session::effects::{Bookmark, BookmarkTable};
use supershuckie::session::state::MonotonicTimestampProvider;

struct Still;

impl MonotonicTimestampProvider for Still {
    fn get_timestamp_microseconds(&mut self) -> u64 {
        0
    }
}

fn player() -> ReplayFilePlayer {
    ReplayFilePlayer {
        metadata: ReplayFileMetadata {
            console_type: ReplayConsoleType::GameBoyAdvance,
            rom_name: "name".to_owned(),
            rom_filename: "name.gba".to_owned(),
            rom_checksum: [0xAB; 32],
            bios_checksum: [0; 32],
            emulator_core_name: "core".to_owned(),
        },
        slots: Vec::new(),
        keyframes: vec![
            KeyframePlace { frame: 0, elapsed_millis: 0, slot: 0 },
            KeyframePlace { frame: 60, elapsed_millis: 1000, slot: 70 },
        ],
        total_frames: 120,
        total_milliseconds: 2000,
        cursor: 0,
    }
}

fn bookmark(name: &str, frame: u64) -> Bookmark {
    Bookmark {
        name: name.to_owned(),
        in_frame: frame,
        out_frame: Some(frame + 5),
        bookmark_type: "split".to_owned(),
        keyframe: frame > 50,
    }
}

#[test]
fn a_summary_tells_what_is_in_the_file() {
    let index = ReplayIndex {
        bookmark_table: BookmarkTable {
            bookmarks: vec![bookmark("late", 90), bookmark("early", 10)],
        },
        crop_start: Some((5, 80)),
        crop_end: Some((100, 1700)),
        last_counters: vec![
            Counter { name: "wins".to_owned(), value: -2 },
            Counter { name: "deaths".to_owned(), value: 3 },
        ],
        format_version: 4,
    };
    let summary = ReplaySummary::of(&player(), &index);
    assert_eq!(summary.frames, 120);
    assert_eq!(summary.keyframes, vec![0, 60]);
    let mut twice = player();
    twice.keyframes.push(twice.keyframes[1]);
    twice.keyframes.push(twice.keyframes[0]);
    assert_eq!(ReplaySummary::of(&twice, &index).keyframes, vec![0, 60]);
    assert_eq!(
        summary.bookmarks,
        vec![("early".to_owned(), 10), ("late".to_owned(), 90)],
        "bookmarks come in frame order"
    );
    let late = &summary.bookmark_table.bookmarks[0];
    assert_eq!((late.name.as_str(), late.in_frame, late.out_frame), ("late", 90, Some(95)));
    assert_eq!((late.bookmark_type.as_str(), late.keyframe), ("split", true));
    assert!(!summary.bookmark_table.bookmarks[1].keyframe);
    assert_eq!(summary.crop, Some((5, 100)));
    assert_eq!(
        summary.counters,
        vec![("deaths".to_owned(), 3), ("wins".to_owned(), -2)],
        "counters come in name order"
    );
    assert_eq!(summary.rom_hash_hex(), "ab".repeat(32));
    assert_eq!(summary.rom_filename, "name.gba");

    let info = info_of(&summary, "Game Boy Advance".to_owned(), ScreenLayout::VerticalStack, false);
    assert_eq!((info.width, info.height), (240, 160));
    assert_eq!((info.fps_num, info.fps_den), (4194304, 70224));
    assert_eq!(info.core_running, "");

    let half_marked = ReplayIndex { crop_end: None, ..index };
    assert_eq!(ReplaySummary::of(&player(), &half_marked).crop, None);
}

#[test]
fn sizes_and_rates_are_the_consoles_own() {
    assert_eq!(geometry(ReplayConsoleType::GameBoy, ScreenLayout::VerticalStack), (160, 144));
    assert_eq!(geometry(ReplayConsoleType::NintendoDS, ScreenLayout::VerticalStack), (256, 384));
    assert_eq!(geometry(ReplayConsoleType::NintendoDS, ScreenLayout::HorizontalStack), (512, 192));
    assert_eq!(geometry(ReplayConsoleType::NintendoDS, ScreenLayout::TopOnly), (256, 192));
    assert_eq!(frame_rate(ReplayConsoleType::GameBoyColor), (4194304, 70224));
    assert!(matches!(layout_from_byte(0), ScreenLayout::VerticalStack));
    assert!(matches!(layout_from_byte(3), ScreenLayout::BottomOnly));
    assert!(matches!(layout_from_byte(77), ScreenLayout::VerticalStack));
    assert!(served_consoles().contains(&ReplayConsoleType::GameBoyAdvance));
    assert!(!served_consoles().contains(&ReplayConsoleType::Nintendo3DS));
}

#[test]
fn a_greeting_settles_the_protocol() {
    assert_eq!(server_name("1.2"), "supershuckie-frame-server 1.2");
    match greet(PROTOCOL_VERSION, "1.2", vec!["Game Boy".to_owned()]) {
        Ok(Reply::Hello { protocol, server, cores }) => {
            assert_eq!(protocol, PROTOCOL_VERSION);
            assert_eq!(server, "supershuckie-frame-server 1.2");
            assert_eq!(cores, vec!["Game Boy".to_owned()]);
        }
        _ => panic!("the same protocol is spoken"),
    }
    assert!(matches!(greet(PROTOCOL_VERSION + 1, "1.2", Vec::new()), Err(Reply::Error { .. })));
}

#[test]
fn nothing_is_served_without_a_replay() {
    let mut server: Server<NullEmulatorCore, Still> = Server::new();
    assert!(matches!(server.begin(7, Task::Frame { index: 0 }), Some(Reply::Error { id: 7, .. })));
    server.set_source(Some(Source::RomMismatch));
    assert!(matches!(
        server.begin(8, Task::Audio { first_frame: 0, frames: 1 }),
        Some(Reply::Error { id: 8, .. })
    ));
}

#[test]
fn newer_requests_supersede_older_ones() {
    let mut server: Server<NullEmulatorCore, Still> = Server::new();
    assert!(server.next_pending().is_none());
    assert!(!server.superseded(1));
    server.arrived(Request::Cancel { id: 1 });
    assert!(server.superseded(1));
    assert!(!server.superseded(2));
    assert!(matches!(server.next_pending(), Some(Request::Cancel { id: 1 })));
    server.input_ended();
    assert!(server.superseded(2), "the end of input ends all work");
    assert!(matches!(server.next_pending(), Some(Request::Close)));
}

// ---------------------------------------------------------------------------------------------
// Serving a replay of a console that counts its frames: on its screen, in its memory and in its
// sound.

struct Counting {
    count: u32,
    audible: bool,
    samples: Vec<i16>,
    hidden: bool,
    screens: Vec<ScreenData>,
}

impl Counting {
    fn new() -> Self {
        Counting {
            count: 0,
            audible: false,
            samples: Vec::new(),
            hidden: false,
            screens: vec![ScreenData {
                pixels: vec![0; 2],
                width: 2,
                height: 1,
                encoding: ScreenDataEncoding::A8R8G8B8,
            }],
        }
    }
}

impl ConsoleMemory for Counting {
    fn memory_regions(&self) -> &[MemoryRegionInfo] {
        &[]
    }

    fn memory_region_data(&self, _index: usize) -> Option<&[u8]> {
        None
    }
}

impl EmulatorCore for Counting {
    fn run(&mut self) -> RunTime {
        self.run_unlocked()
    }

    fn run_unlocked(&mut self) -> RunTime {
        self.count += 1;
        if self.audible {
            self.samples.extend_from_slice(&[self.count as i16, self.count as i16]);
        }
        if !self.hidden {
            self.screens[0].pixels = vec![0xFF00_0000 | self.count; 2];
        }
        RunTime { frames: 1, presented: !self.hidden }
    }

    fn read_ram(&self, address: u32, into: &mut Vec<u8>) -> Result<(), &'static str> {
        if address != 0 || into.len() > 4 {
            return Err("unmapped");
        }
        let len = into.len();
        into.copy_from_slice(&self.count.to_le_bytes()[..len]);
        Ok(())
    }

    fn write_ram(&mut self, _address: u32, _from: &[u8]) -> Result<(), &'static str> {
        Err("unmapped")
    }

    fn set_speed(&mut self, _speed: Speed) {}

    fn save_sram(&self) -> Vec<u8> {
        Vec::new()
    }

    fn create_save_state(&self) -> Vec<u8> {
        self.count.to_le_bytes().to_vec()
    }

    fn set_skip_drawing(&mut self, skip: bool) {
        self.hidden = skip;
    }

    fn set_audio_enabled(&mut self, enabled: bool) {
        self.audible = enabled;
        self.samples.clear();
    }

    fn take_audio(&mut self) -> Vec<i16> {
        std::mem::take(&mut self.samples)
    }

    fn load_save_state(&mut self, state: &[u8]) -> Result<(), String> {
        let state: [u8; 4] = state.try_into().map_err(|_| "bad state".to_owned())?;
        self.count = u32::from_le_bytes(state);
        Ok(())
    }

    fn encode_input(&self, _input: Input) -> Vec<u8> {
        Vec::new()
    }

    fn set_input_encoded(&mut self, _input: &[u8]) {}

    fn get_screens(&self) -> &[ScreenData] {
        &self.screens
    }

    fn transient_ranges(&self, _state: &[u8]) -> Vec<(usize, usize)> {
        Vec::new()
    }

    fn hard_reset(&mut self) {
        self.count = 0;
    }

    fn replay_console_type(&self) -> Option<ReplayConsoleType> {
        Some(ReplayConsoleType::GameBoyAdvance)
    }

    fn rom_checksum(&self) -> [u8; 32] {
        [0xAB; 32]
    }

    fn bios_checksum(&self) -> [u8; 32] {
        [0; 32]
    }

    fn core_name(&self) -> &'static str {
        "counting"
    }

    fn frame_rate(&self) -> (u32, u32) {
        (50, 1)
    }

    fn is_null(&self) -> bool {
        false
    }

    fn is_mid_frame(&self) -> bool {
        false
    }

    fn has_link_port(&self) -> bool {
        false
    }

    fn connect(&mut self, _first: bool) -> Result<(), LinkError> {
        Err(LinkError::IncompatiblePartner)
    }

    fn disconnect(&mut self) {}

    fn step_linked(&mut self, _partner: &mut Self, _paced: bool) -> Result<RunTime, LinkError> {
        Err(LinkError::NotConnected)
    }

    fn link_time(&self) -> u64 {
        0
    }

    fn is_asleep(&self) -> bool {
        false
    }

    fn take_serial_in(&mut self) -> Vec<u8> {
        Vec::new()
    }

    fn queue_serial_in(&mut self, _data: &[u8]) -> Result<(), LinkError> {
        Err(LinkError::NotConnected)
    }

    fn serial_replay_misses(&self) -> u64 {
        0
    }

    fn sync_hash(&self) -> Option<[u8; 32]> {
        None
    }

    fn pair_hash(_first: Option<[u8; 32]>, _second: Option<[u8; 32]>) -> [u8; 32] {
        [0; 32]
    }
}

/// A recording of a counting console, with a keyframe every 40 frames.
fn counted(frames: u64) -> ReplayFilePlayer {
    let mut replay = player();
    replay.total_frames = frames;
    replay.total_milliseconds = frames * 20;
    replay.keyframes = Vec::new();
    for frame in 0..frames {
        if frame % 40 == 0 {
            replay.keyframes.push(KeyframePlace {
                frame,
                elapsed_millis: frame * 20,
                slot: replay.slots.len(),
            });
            replay.slots.push(ReplaySlot::Event(Packet::Keyframe {
                metadata: KeyframeMetadata {
                    input: Vec::new(),
                    speed: Speed::default(),
                    elapsed_frames: frame,
                    elapsed_millis: frame * 20,
                    counters: Vec::new(),
                },
                state: (frame as u32).to_le_bytes().to_vec(),
            }));
        }
        replay.slots.push(ReplaySlot::Event(Packet::NextFrame { timestamp_delta: 20 }));
    }
    replay
}

fn serving(frames: u64) -> Server<Counting, Still> {
    let replay = counted(frames);
    let index = ReplayIndex {
        bookmark_table: BookmarkTable { bookmarks: Vec::new() },
        crop_start: None,
        crop_end: None,
        last_counters: Vec::new(),
        format_version: 1,
    };
    let summary = ReplaySummary::of(&replay, &index);
    let opened = open(
        Counting::new(),
        Still,
        replay,
        &summary,
        "Game Boy Advance".to_owned(),
        ScreenLayout::VerticalStack,
        true,
    )
    .expect("it opens");
    assert_eq!((opened.info.width, opened.info.height), (2, 1));
    assert_eq!((opened.info.fps_num, opened.info.fps_den), (50, 1));
    assert_eq!(opened.info.core_running, "counting");
    let mut server = Server::new();
    server.set_source(Some(Source::Open(opened.session)));
    server
}

/// Everything that is sent in answer to a request.
fn answers(server: &mut Server<Counting, Still>, id: u32, task: Task) -> Vec<Reply> {
    let mut sent = Vec::new();
    sent.extend(server.begin(id, task));
    while server.job.is_some() {
        sent.extend(server.work());
    }
    sent
}

fn assert_picture(reply: &Reply, id: u32, index: u64, count: u8) {
    match reply {
        Reply::Frame { id: i, index: n, pixels } => {
            assert_eq!((*i, *n), (id, index));
            assert_eq!(pixels, &vec![count, 0, 0, 0xFF, count, 0, 0, 0xFF]);
        }
        other => panic!("no picture: {other:?}"),
    }
}

fn assert_refused(replies: &[Reply], message: &str) {
    match replies {
        [Reply::Error { message: m, .. }] => assert_eq!(m, message),
        other => panic!("not refused: {other:?}"),
    }
}

#[test]
fn pictures_are_served_in_any_order() {
    let mut server = serving(120);
    for (index, count) in [(0, 1), (1, 1), (5, 5), (90, 90), (3, 3), (119, 119), (41, 41)] {
        let sent = answers(&mut server, 9, Task::Frame { index });
        assert_eq!(sent.len(), 1);
        assert_picture(&sent[0], 9, index, count);
    }
    assert_refused(
        &answers(&mut server, 9, Task::Frame { index: 120 }),
        "frame 120 is past the end (120 frames)",
    );
}

#[test]
fn a_run_of_pictures_ends_with_done() {
    let mut server = serving(120);
    let sent = answers(&mut server, 4, Task::Run { next: 38, to: 43 });
    assert_eq!(sent.len(), 6);
    for (i, reply) in sent[..5].iter().enumerate() {
        assert_picture(reply, 4, 38 + i as u64, 38 + i as u8);
    }
    assert!(matches!(sent[5], Reply::Done { id: 4 }));
    let sent = answers(&mut server, 5, Task::Run { next: 7, to: 7 });
    assert!(matches!(sent[..], [Reply::Done { id: 5 }]));
    assert_refused(
        &answers(&mut server, 6, Task::Run { next: 8, to: 7 }),
        "range 8..7 is not inside the 120 frames",
    );
}

#[test]
fn the_sound_of_a_picture_is_what_its_run_made() {
    let mut server = serving(120);
    let sent = answers(&mut server, 2, Task::Audio { first_frame: 10, frames: 3 });
    match &sent[..] {
        [Reply::Audio { id: 2, first_frame: 10, frames: 3, samples }] => {
            assert_eq!(samples, &vec![10, 10, 11, 11, 12, 12]);
        }
        other => panic!("no sound: {other:?}"),
    }
    assert_refused(
        &answers(&mut server, 3, Task::Audio { first_frame: 118, frames: 3 }),
        "audio range 118+3 is not inside the 120 frames",
    );
}

#[test]
fn memory_is_read_at_its_picture() {
    let mut server = serving(120);
    let blocks = vec![(0u32, 4u32), (99, 2), (0, 1)];
    let bytes = memory_asked(&blocks);
    assert_eq!(bytes, 7);
    assert!(answers(&mut server, 1, Task::Memory { index: 77, bytes, limit: 7 }).is_empty());
    assert_eq!(server.read_memory(&blocks), Some(vec![77, 0, 0, 0, 0, 0, 77]));
    assert_refused(
        &answers(&mut server, 1, Task::Memory { index: 77, bytes, limit: 6 }),
        "memory request of 7 bytes is more than 6",
    );
    assert_refused(
        &answers(&mut server, 1, Task::Memory { index: 200, bytes, limit: 6 }),
        "frame 200 is past the end (120 frames)",
    );
    let nothing: Server<Counting, Still> = Server::new();
    assert_eq!(nothing.read_memory(&blocks), None);
}

#[test]
fn work_stops_for_a_newer_request() {
    let mut server = serving(120);
    assert!(server.begin(1, Task::Run { next: 0, to: 120 }).is_none());
    assert!(server.work().is_some());
    server.arrived(Request::Frame { id: 2, index: 3 });
    assert!(matches!(server.work(), Some(Reply::Cancelled { id: 1 })));
    assert!(server.job.is_none());
    assert!(matches!(server.next_pending(), Some(Request::Frame { id: 2, index: 3 })));
}
