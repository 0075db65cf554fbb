//! Playing again: recordings that are played back, and a player that follows another's game.

use supershuckie::core_thread::CoreThread;
use supershuckie::emulator::console::{EmulatorCore, RunTime, ScreenData};
use supershuckie::emulator::input::Input;
use supershuckie::emulator::link::LinkError;
use supershuckie::emulator::memory::{ConsoleMemory, MemoryRegionInfo};
use supershuckie::memory_monitor::local::MemoryMonitorLocal;
use supershuckie::memory_monitor::shared::{MemoryEdit, MemoryMonitorShared};
use supershuckie::memory_monitor::values::{AddressPath, FreezeSpec};
use supershuckie::play_together::live::LiveReplaySource;
use supershuckie::play_together::stream::SnapshotRequestReason;
use supershuckie::replay::packet::{
    change_counter, value_of, KeyframeMetadata, Packet, Speed, NORMAL_SPEED,
};
use supershuckie::replay::player::{
    KeyframePlace, ReplayConsoleType, ReplayFileMetadata, ReplayFilePlayer, ReplaySlot,
};
use supershuckie::session::effects::{Bookmark, BookmarkTable, Effect};
use supershuckie::session::following::POST_LOAD_FRAMES;
use supershuckie::session::state::{MonotonicTimestampProvider, SuperShuckieCore};

struct Clock(u64);

impl MonotonicTimestampProvider for Clock {
    /// Every look takes a millisecond.
    fn get_timestamp_microseconds(&mut self) -> u64 {
        self.0 += 1000;
        self.0
    }
}

const REGIONS: [MemoryRegionInfo; 1] = [MemoryRegionInfo {
    name: "RAM",
    short_name: "RAM",
    base_address: 0,
    len: 16,
    default_big_endian: false,
    writable: true,
}];

/// A console that adds its input to its memory every frame.
struct Adder {
    ram: Vec<u8>,
    input: u8,
    audible: bool,
    hidden: bool,
    drawn: Vec<bool>,
}

impl Adder {
    fn new() -> Self {
        Adder { ram: vec![0; 16], input: 0, audible: false, hidden: false, drawn: Vec::new() }
    }
}

impl ConsoleMemory for Adder {
    fn memory_regions(&self) -> &[MemoryRegionInfo] {
        &REGIONS
    }

    fn memory_region_data(&self, _index: usize) -> Option<&[u8]> {
        Some(&self.ram)
    }
}

impl EmulatorCore for Adder {
    fn run(&mut self) -> RunTime {
        self.run_unlocked()
    }

    fn run_unlocked(&mut self) -> RunTime {
        self.ram[0] = self.ram[0].wrapping_add(1);
        self.ram[1] = self.ram[1].wrapping_mul(3).wrapping_add(self.input);
        self.drawn.push(!self.hidden);
        RunTime { frames: 1, presented: !self.hidden }
    }

    fn read_ram(&self, address: u32, into: &mut Vec<u8>) -> Result<(), &'static str> {
        let at = address as usize;
        let bytes = self.ram.get(at..at + into.len()).ok_or("unmapped")?;
        into.copy_from_slice(bytes);
        Ok(())
    }

    fn write_ram(&mut self, address: u32, from: &[u8]) -> Result<(), &'static str> {
        let at = address as usize;
        self.ram.get_mut(at..at + from.len()).ok_or("unmapped")?.copy_from_slice(from);
        Ok(())
    }

    fn set_speed(&mut self, _speed: Speed) {}

    fn save_sram(&self) -> Vec<u8> {
        Vec::new()
    }

    fn create_save_state(&self) -> Vec<u8> {
        self.ram.clone()
    }

    fn set_skip_drawing(&mut self, skip: bool) {
        self.hidden = skip;
    }

    fn set_audio_enabled(&mut self, enabled: bool) {
        self.audible = enabled;
    }

    fn take_audio(&mut self) -> Vec<i16> {
        if self.audible {
            vec![1, 1]
        } else {
            Vec::new()
        }
    }

    fn load_save_state(&mut self, state: &[u8]) -> Result<(), String> {
        if state.len() != 16 {
            return Err("bad state".to_owned());
        }
        self.ram = state.to_vec();
        Ok(())
    }

    fn encode_input(&self, input: Input) -> Vec<u8> {
        vec![input.a as u8 + 2 * input.b as u8]
    }

    fn set_input_encoded(&mut self, input: &[u8]) {
        self.input = input.first().copied().unwrap_or(0);
    }

    fn get_screens(&self) -> &[ScreenData] {
        &[]
    }

    fn transient_ranges(&self, _state: &[u8]) -> Vec<(usize, usize)> {
        Vec::new()
    }

    fn hard_reset(&mut self) {
        self.ram = vec![0; 16];
    }

    fn replay_console_type(&self) -> Option<ReplayConsoleType> {
        Some(ReplayConsoleType::NintendoDS)
    }

    fn rom_checksum(&self) -> [u8; 32] {
        [1; 32]
    }

    fn bios_checksum(&self) -> [u8; 32] {
        [2; 32]
    }

    fn core_name(&self) -> &'static str {
        "adder"
    }

    fn frame_rate(&self) -> (u32, u32) {
        (60, 1)
    }

    fn is_null(&self) -> bool {
        false
    }

    fn is_mid_frame(&self) -> bool {
        false
    }

    fn has_link_port(&self) -> bool {
        false
    }

    fn connect(&mut self, _first: bool) -> Result<(), LinkError> {
        Err(LinkError::IncompatiblePartner)
    }

    fn disconnect(&mut self) {}

    fn step_linked(&mut self, _partner: &mut Self, _paced: bool) -> Result<RunTime, LinkError> {
        Err(LinkError::NotConnected)
    }

    fn link_time(&self) -> u64 {
        0
    }

    fn is_asleep(&self) -> bool {
        false
    }

    fn take_serial_in(&mut self) -> Vec<u8> {
        Vec::new()
    }

    fn queue_serial_in(&mut self, _data: &[u8]) -> Result<(), LinkError> {
        Err(LinkError::NotConnected)
    }

    fn serial_replay_misses(&self) -> u64 {
        0
    }

    fn sync_hash(&self) -> Option<[u8; 32]> {
        let mut hash = [0; 32];
        hash[..16].copy_from_slice(&self.ram);
        Some(hash)
    }

    fn pair_hash(_first: Option<[u8; 32]>, _second: Option<[u8; 32]>) -> [u8; 32] {
        [0; 32]
    }
}

type Core = SuperShuckieCore<Adder, Clock>;

fn new_core() -> Core {
    SuperShuckieCore::new(Adder::new(), Clock(0))
}

fn metadata() -> ReplayFileMetadata {
    ReplayFileMetadata {
        console_type: ReplayConsoleType::NintendoDS,
        rom_name: "sum".to_owned(),
        rom_filename: "sum.nds".to_owned(),
        rom_checksum: [1; 32],
        bios_checksum: [2; 32],
        emulator_core_name: "adder".to_owned(),
    }
}

fn keyframe(frame: u64, input: u8, state: Vec<u8>) -> Packet {
    Packet::Keyframe {
        metadata: KeyframeMetadata {
            input: vec![input],
            speed: Speed::default(),
            elapsed_frames: frame,
            elapsed_millis: frame * 16,
            counters: Vec::new(),
        },
        state,
    }
}

/// The events a session tells a recorder.
fn events(core: &mut Core) -> Vec<Packet> {
    let mut out = Vec::new();
    for effect in core.take_effects() {
        out.push(match effect {
            Effect::RecordFrame { .. } => Packet::NextFrame { timestamp_delta: 16 },
            Effect::RecordInput { data } => Packet::ChangeInput { data },
            Effect::RecordWrite { address, data } => Packet::WriteMemory { address, data },
            Effect::RecordSpeed { speed } => Packet::ChangeSpeed { speed },
            Effect::RecordReset => Packet::ResetConsole,
            Effect::RecordState { state } => Packet::LoadSaveState { state },
            Effect::RecordCounter { name, delta } => Packet::IncrementCounter { name, delta },
            _ => continue,
        });
    }
    out
}

fn replay_of(state: Vec<u8>, events: Vec<Packet>) -> ReplayFilePlayer {
    let total_frames =
        events.iter().filter(|p| matches!(p, Packet::NextFrame { .. })).count() as u64;
    let mut slots = vec![ReplaySlot::Event(keyframe(0, 0, state))];
    slots.extend(events.into_iter().map(ReplaySlot::Event));
    ReplayFilePlayer {
        metadata: metadata(),
        slots,
        keyframes: vec![KeyframePlace { frame: 0, elapsed_millis: 0, slot: 0 }],
        total_frames,
        total_milliseconds: total_frames * 16,
        cursor: 0,
    }
}

#[test]
fn what_was_done_to_the_game_is_done_again() {
    let mut core = new_core();
    let start = core
        .start_recording_replay("sum".to_owned(), "sum.nds".to_owned())
        .expect("it records");
    core.recording_started(1000);
    let mut seen = Vec::new();
    for frame in 0..24u64 {
        core.enqueue_input(Input { a: frame % 2 == 0, b: frame % 3 == 0, ..Input::new() });
        match frame {
            5 => assert!(core.enqueue_write(8, vec![0xAA, 0xBB])),
            9 => core.hard_reset(),
            14 => core.load_save_state(&vec![9; 16]),
            17 => core.change_replay_counter("deaths".to_owned(), 3),
            20 => assert!(core.write_if_changed(4, &[1])),
            21 => assert!(!core.write_if_changed(4, &[1])),
            _ => {}
        }
        core.run_unlocked();
        seen.push(core.get_core().ram.clone());
    }
    assert!(core.stop_recording_replay());
    let replay = replay_of(start.state, events(&mut core));
    assert_eq!(replay.total_frames, core.total_frames());

    let mut again = new_core();
    again.attach_replay_player(replay, false).expect("it fits");
    let mut replayed = vec![again.get_core().ram.clone()];
    while replayed.len() < seen.len() {
        again.run_unlocked();
        replayed.push(again.get_core().ram.clone());
    }
    assert_eq!(replayed.last(), seen.last());
    let counters = again.get_replay_counters().expect("a replay counts");
    assert_eq!(value_of(counters, &"deaths".to_owned()), 3);
}

/// What a session told its recorder to write into memory.
fn writes(core: &mut Core) -> Vec<(u64, Vec<u8>)> {
    let mut out = Vec::new();
    for event in events(core) {
        if let Packet::WriteMemory { address, data } = event {
            out.push((address, data));
        }
    }
    out
}

#[test]
fn what_memory_tools_write_is_recorded() {
    let mut core = new_core();
    core.start_recording_replay("sum".to_owned(), "sum.nds".to_owned()).expect("it records");
    core.recording_started(1000);
    core.take_effects();
    let mut shared = MemoryMonitorShared::new();
    let mut monitor = MemoryMonitorLocal::new(&shared);
    let mut thread = CoreThread::new(core);
    shared.push_edit(MemoryEdit { edit_id: 1, path: AddressPath::direct(8), data: vec![5, 6] });
    shared.update_request(|mut r| {
        r.freezes.push(FreezeSpec::new(1, AddressPath::direct(12), &[9]).expect("it is short"));
        (r, ())
    });
    // Nothing is pulled while the other side holds the shared half.
    thread.handle_memory_monitor_unshared(&mut monitor, 0);
    assert_eq!(thread.core.get_core().ram, vec![0; 16]);
    thread.handle_memory_monitor(&mut monitor, &mut shared, 0);
    assert_eq!(thread.core.get_core().ram[8..13], [5, 6, 0, 0, 9]);
    assert_eq!(thread.core.total_frames(), 0, "no frame was run for it");
    assert_eq!(writes(&mut thread.core), vec![(12, vec![9]), (8, vec![5, 6])]);
    // What is held is written again only once the game changed it.
    thread.core.run_unlocked();
    events(&mut thread.core);
    thread.handle_memory_monitor_unshared(&mut monitor, 0);
    assert!(events(&mut thread.core).is_empty());
    assert!(thread.core.enqueue_write(12, vec![1]));
    thread.core.run_unlocked();
    events(&mut thread.core);
    thread.handle_memory_monitor(&mut monitor, &mut shared, 0);
    assert_eq!(writes(&mut thread.core), vec![(12, vec![9])]);
}

#[test]
fn drawn_frames_thin_out_with_speed_and_sound_changes_nothing() {
    let mut quiet = new_core();
    let mut loud = new_core();
    loud.set_audio_output(true);
    loud.set_audio_enabled(true);
    for core in [&mut quiet, &mut loud] {
        core.set_speed(Speed { units: NORMAL_SPEED * 4 });
    }
    let every = quiet.present_every();
    assert_eq!(every, 4);
    for _ in 0..40 {
        quiet.run();
        loud.run();
    }
    assert_eq!(quiet.get_core().ram, loud.get_core().ram);
    let drawn = quiet.get_core().drawn.iter().filter(|d| **d).count() as u64;
    assert_eq!(drawn, 40 / every);
}

#[test]
fn one_frame_in_as_many_as_the_speed_is_drawn() {
    let mut core = new_core();
    for (units, every) in [(128, 1), (256, 1), (511, 1), (512, 2), (1023, 3), (17 * 256, 17), (25600, 100)] {
        core.set_speed(Speed { units });
        assert_eq!(core.present_every(), every, "at {} units", units);
    }
    for _ in 0..200 {
        core.run();
    }
    assert_eq!(core.get_core().drawn.iter().filter(|d| **d).count(), 2);
}

#[test]
fn bookmarks_go_into_the_file_whole() {
    let table = || BookmarkTable {
        bookmarks: vec![Bookmark {
            name: "boss".to_owned(),
            in_frame: 30,
            out_frame: Some(45),
            bookmark_type: "fight".to_owned(),
            keyframe: true,
        }],
    };
    let mut core = new_core();
    core.set_replay_bookmarks(table());
    assert!(core.take_effects().is_empty(), "nothing is being recorded");
    core.start_recording_replay("sum".to_owned(), "sum.nds".to_owned()).expect("it records");
    core.recording_started(1000);
    core.take_effects();
    core.set_replay_bookmarks(table());
    match core.take_effects().as_slice() {
        [Effect::RecordBookmarks { table }] => {
            let mark = &table.bookmarks[0];
            assert_eq!((mark.name.as_str(), mark.in_frame), ("boss", 30));
            assert_eq!((mark.out_frame, mark.keyframe), (Some(45), true));
            assert_eq!(mark.bookmark_type, "fight");
        }
        other => panic!("unexpected: {other:?}"),
    }
}

#[test]
fn counters_add_up() {
    let mut counters = Vec::new();
    let (deaths, wins) = ("deaths".to_owned(), "wins".to_owned());
    change_counter(&mut counters, &deaths, 2);
    change_counter(&mut counters, &wins, 5);
    change_counter(&mut counters, &deaths, -3);
    assert_eq!(value_of(&counters, &deaths), -1);
    assert_eq!(value_of(&counters, &wins), 5);
    assert_eq!(value_of(&counters, &"else".to_owned()), 0);
}

#[test]
fn times_are_estimated_between_keyframes() {
    let mut player = replay_of(vec![0; 16], Vec::new());
    player.keyframes.push(KeyframePlace { frame: 40, elapsed_millis: 2000, slot: 1 });
    player.total_frames = 60;
    player.total_milliseconds = 2400;
    player.slots.push(ReplaySlot::Event(Packet::NextFrame { timestamp_delta: 16 }));
    assert_eq!(player.keyframe_at_or_before(39).map(|k| k.frame), Some(0));
    assert_eq!(player.keyframe_at_or_before(40).map(|k| k.frame), Some(40));
    assert_eq!(player.keyframe_at_or_after(1).map(|k| k.frame), Some(40));
    assert!(player.keyframe_at_or_after(41).is_none());

    let mut core = new_core();
    assert_eq!(core.estimate_millis_at(10), None);
    core.attach_replay_player(player, false).expect("it fits");
    assert_eq!(core.estimate_millis_at(0), Some(0));
    assert_eq!(core.estimate_millis_at(10), Some(500));
    assert_eq!(core.estimate_millis_at(40), Some(2000));
    assert_eq!(core.estimate_millis_at(50), Some(2200));
    assert_eq!(core.estimate_millis_at(1000), Some(2400));
}

#[test]
fn held_inputs_are_either_ones() {
    let left = Input { a: true, touch: Some((3, 4)), ..Input::new() };
    let right = Input { b: true, touch: Some((5, 6)), ..Input::new() };
    let both = left | right;
    assert!(both.a && both.b && !both.start);
    assert_eq!(both.touch, Some((3, 4)));
    let mut common = both & right;
    assert!(!common.a && common.b);
    common |= left;
    assert!(common.a);
    common &= right;
    assert!(!common.a && common.b);
}

// ---------------------------------------------------------------------------------------------
// Following another player.

fn source(core: &mut Core) -> &mut LiveReplaySource {
    &mut core.together.follower.as_mut().expect("it follows").source
}

fn follower() -> Core {
    let mut core = new_core();
    core.attach_live_replay_source(LiveReplaySource::new(), &metadata(), false).expect("it fits");
    core
}

fn frames(core: &mut Core, n: u64) {
    for _ in 0..n {
        source(core).push_packet(Packet::NextFrame { timestamp_delta: 16 }, 0);
    }
}

#[test]
fn a_follower_plays_what_arrives_and_waits_for_more() {
    let mut core = follower();
    assert!(core.is_following() && core.is_playing_back());
    core.run_unlocked();
    assert_eq!(core.total_frames(), 0);
    assert!(core.follower_stats().expect("it follows").waiting);

    source(&mut core).push_packet(keyframe(100, 1, vec![7; 16]), 0);
    assert!(source(&mut core).has_snapshot());
    frames(&mut core, 1);
    source(&mut core).push_packet(Packet::ChangeInput { data: vec![2] }, 0);
    source(&mut core).push_packet(Packet::WriteMemory { address: 8, data: vec![0x55] }, 0);
    frames(&mut core, 1);
    assert_eq!(core.live_frames_available(), 2);
    assert_eq!(core.live_newest_publisher_frame(), 102);

    core.run_unlocked();
    assert_eq!(core.total_frames(), 101);
    assert_eq!(core.get_core().ram[..2], [8, 22]);
    let stats = core.follower_stats().expect("it follows");
    assert_eq!((stats.frames_behind, stats.newest_publisher_frame), (1, 102));
    assert_eq!((stats.emulated_frames, stats.drawn_frames), (1, 1));
    core.enqueue_input(Input { a: true, ..Input::new() });
    core.run_unlocked();
    assert_eq!(core.total_frames(), 102);
    assert_eq!(core.get_core().ram[..2], [9, 68]);
    assert_eq!(core.get_core().ram[8], 0x55);
    core.run_unlocked();
    assert_eq!(core.total_frames(), 102);
    let stats = core.follower_stats().expect("it follows");
    assert!(stats.waiting);
    assert_eq!(stats.snapshots_applied, 1);
    assert_eq!((stats.frames_behind, stats.emulated_frames), (0, stats.drawn_frames));

    source(&mut core).end();
    core.run_unlocked();
    assert!(core.is_replay_stalled());
    core.detach_live_source();
    assert!(!core.is_following());
}

#[test]
fn a_follower_that_drifted_asks_for_a_snapshot() {
    let mut core = follower();
    source(&mut core).push_packet(keyframe(0, 0, vec![0; 16]), 0);
    frames(&mut core, POST_LOAD_FRAMES);
    // The hash right after a snapshot is not compared, a later one is.
    source(&mut core).push_sync_hash(POST_LOAD_FRAMES, [0xEE; 32]);
    frames(&mut core, 1);
    for _ in 0..POST_LOAD_FRAMES + 1 {
        core.run_unlocked();
    }
    let stats = core.follower_stats().expect("it follows");
    assert_eq!(stats.hash_mismatches, 1);
    assert_eq!(stats.snapshot_requests, 1);
    assert_eq!(source(&mut core).upstream, vec![SnapshotRequestReason::HashMismatch]);
    // Asking again right away is held back.
    core.live_request_snapshot(SnapshotRequestReason::TooFarBehind);
    assert_eq!(source(&mut core).upstream, vec![SnapshotRequestReason::HashMismatch]);
}

#[test]
fn a_follower_keeps_a_file_of_its_own() {
    let mut core = new_core();
    assert!(core.start_recording_follower_replay(60).is_err());
    let mut core2 = follower();
    assert!(!core2.is_recording_follower_replay());
    core2.start_recording_follower_replay(60).expect("it follows");
    assert!(core2.is_recording_follower_replay());
    assert!(core2.take_follower_recording_start().is_none());
    source(&mut core2).push_packet(keyframe(50, 1, vec![3; 16]), 0);
    frames(&mut core2, 2);
    core2.run_unlocked();
    core2.run_unlocked();
    let start = core2.take_follower_recording_start().expect("there is a state");
    assert_eq!(start.state, vec![3; 16]);
    assert_eq!(start.input, vec![1]);
    assert_eq!(start.frames_per_keyframe, 60);
    let written = events(&mut core2);
    assert_eq!(written.iter().filter(|p| matches!(p, Packet::NextFrame { .. })).count(), 2);

    core2.follower_recording_failed("no room".to_owned());
    assert!(!core2.is_recording_follower_replay());
    assert_eq!(
        core2.poll_follower_errors(),
        vec!["the replay file could not be started: no room".to_owned()]
    );
    assert!(core2.poll_follower_errors().is_empty());
}

// ---------------------------------------------------------------------------------------------
// Publishing to a follower.

/// Hand what a session publishes to a follower. Returns how many frames, hashes and snapshots that
/// were, and whether it ended.
fn deliver(from: &mut Core, to: &mut Core, last_millis: &mut u64) -> (usize, usize, usize, bool) {
    let (mut frames, mut hashes, mut snapshots, mut ended) = (0, 0, 0, false);
    for effect in from.take_effects() {
        let source = source(to);
        match effect {
            Effect::PublishInput { data } => source.push_packet(Packet::ChangeInput { data }, 0),
            Effect::PublishWrite { address, data } => {
                source.push_packet(Packet::WriteMemory { address, data }, 0)
            }
            Effect::PublishReset => source.push_packet(Packet::ResetConsole, 0),
            Effect::PublishState { state } => {
                source.push_packet(Packet::LoadSaveState { state }, 0)
            }
            Effect::PublishCounter { name, delta } => {
                source.push_packet(Packet::IncrementCounter { name, delta }, 0)
            }
            Effect::PublishSerialIn { data } => source.push_packet(Packet::SerialIn { data }, 0),
            Effect::PublishFrame { millis } => {
                frames += 1;
                let timestamp_delta = millis - *last_millis;
                *last_millis = millis;
                source.push_packet(Packet::NextFrame { timestamp_delta }, 0);
            }
            Effect::PublishHash { frame, hash } => {
                hashes += 1;
                source.push_sync_hash(frame, hash);
            }
            Effect::PublishSnapshot { metadata, state } => {
                snapshots += 1;
                *last_millis = metadata.elapsed_millis;
                source.push_packet(Packet::Keyframe { metadata, state }, 0);
            }
            Effect::PublishEnd => {
                ended = true;
                source.end();
            }
            _ => {}
        }
    }
    (frames, hashes, snapshots, ended)
}

#[test]
fn a_follower_is_in_step_with_a_published_session() {
    let mut publisher = new_core();
    for _ in 0..7 {
        publisher.run_unlocked();
    }
    assert!(publisher.take_effects().is_empty(), "nobody is told before publishing starts");

    let mut follows = follower();
    let mut millis = 0;
    publisher.set_stream_publisher(true);
    assert_eq!(deliver(&mut publisher, &mut follows, &mut millis), (0, 0, 1, false));

    let (mut frames, mut hashes) = (0, 0);
    for frame in 0..130u64 {
        publisher.enqueue_input(Input { a: frame % 2 == 0, b: frame % 3 == 0, ..Input::new() });
        match frame {
            5 => assert!(publisher.enqueue_write(8, vec![0xAA, 0xBB])),
            6 => assert!(publisher.enqueue_write(4000, vec![1])),
            9 => publisher.hard_reset(),
            14 => publisher.load_save_state(&vec![9; 16]),
            20 => publisher.set_speed(Speed { units: NORMAL_SPEED * 2 }),
            _ => {}
        }
        publisher.run_unlocked();
        let (ran, hashed, snapshots, ended) = deliver(&mut publisher, &mut follows, &mut millis);
        assert_eq!((ran, snapshots, ended), (1, 0, false));
        frames += ran;
        hashes += hashed;
        follows.run_unlocked();
        assert_eq!(follows.total_frames(), publisher.total_frames());
        assert_eq!(follows.get_core().ram, publisher.get_core().ram);
    }
    assert_eq!((frames, hashes), (130, 2));
    let stats = follows.follower_stats().expect("it follows");
    assert_eq!((stats.hash_mismatches, stats.snapshots_applied), (0, 1));

    publisher.set_stream_publisher(false);
    assert_eq!(deliver(&mut publisher, &mut follows, &mut millis), (0, 0, 0, true));
    publisher.run_unlocked();
    assert!(publisher.take_effects().is_empty());
}

#[test]
fn a_drifted_follower_is_put_right_by_a_snapshot() {
    let mut publisher = new_core();
    let mut follows = follower();
    let mut millis = 0;
    publisher.set_stream_publisher(true);
    for frame in 0..70u64 {
        publisher.run_unlocked();
        deliver(&mut publisher, &mut follows, &mut millis);
        follows.run_unlocked();
        if frame == 40 {
            follows.core.ram[5] = 0x77;
        }
    }
    assert_eq!(source(&mut follows).upstream, vec![SnapshotRequestReason::HashMismatch]);
    assert_ne!(follows.get_core().ram, publisher.get_core().ram);

    publisher.request_stream_snapshot();
    publisher.run_unlocked();
    assert_eq!(deliver(&mut publisher, &mut follows, &mut millis), (1, 0, 1, false));
    follows.run_unlocked();
    assert_eq!(follows.get_core().ram, publisher.get_core().ram);
    assert_eq!(follows.follower_stats().expect("it follows").snapshots_applied, 2);
}

#[test]
fn followers_hear_what_the_file_keeps() {
    let mut core = new_core();
    core.start_recording_replay("sum".to_owned(), "sum.nds".to_owned()).expect("it records");
    core.recording_started(2);
    core.set_stream_publisher(true);
    core.take_effects();
    for frame in 0..5u64 {
        core.enqueue_input(Input { a: frame % 2 == 0, ..Input::new() });
        core.change_replay_counter("deaths".to_owned(), 1);
        if frame == 3 {
            core.load_save_state(&vec![4; 16]);
        }
        core.run_unlocked();
    }
    core.mark_end();
    let (mut heard, mut kept) = (Vec::new(), Vec::new());
    for effect in core.take_effects() {
        match effect {
            Effect::PublishFrame { millis } => heard.push(format!("frame {millis}")),
            Effect::PublishInput { data } => heard.push(format!("input {data:?}")),
            Effect::PublishState { state } => heard.push(format!("state {state:?}")),
            Effect::PublishCounter { name, delta } => heard.push(format!("{name} {delta}")),
            Effect::RecordFrame { millis } => kept.push(format!("frame {millis}")),
            Effect::RecordInput { data } => kept.push(format!("input {data:?}")),
            Effect::RecordState { state } => kept.push(format!("state {state:?}")),
            Effect::RecordCounter { name, delta } => kept.push(format!("{name} {delta}")),
            Effect::RecordKeyframe { .. } | Effect::RecordEndMark => {}
            other => panic!("unexpected: {other:?}"),
        }
    }
    assert_eq!(heard, kept);
    assert_eq!(heard.len(), 5 * 3 + 1);
}

#[test]
fn a_published_console_cannot_follow() {
    let mut core = new_core();
    core.set_stream_publisher(true);
    let refused = core.attach_live_replay_source(LiveReplaySource::new(), &metadata(), false);
    assert!(refused.is_err());
    assert!(!core.is_following());
    core.request_stream_snapshot();
    assert_eq!(core.take_effects().len(), 2, "one snapshot to begin with and one on request");
}
