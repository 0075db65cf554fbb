//! The link cable, end to end inside one process: two machines, each with its own console and a
//! copy of the other's, exchanging link frames exactly as the network would, through a transfer of
//! 256 bytes. The consoles are small stand-ins that keep everything in their work RAM.

use std::collections::VecDeque;
use supershuckie::emulator::console::{EmulatorCore, RunTime, ScreenData};
use supershuckie::emulator::gb_link::GbLinkState;
use supershuckie::emulator::input::Input;
use supershuckie::emulator::link::{second_runs_next, LinkError};
use supershuckie::emulator::memory::{ConsoleMemory, MemoryRegionInfo};
use supershuckie::play_together::cable::{
    LinkFailure, LinkFrame, LinkInbox, LinkRunOutcome, LinkSettings, PAIR_HASH_INTERVAL_FRAMES,
};
use supershuckie::play_together::live::LiveReplaySource;
use supershuckie::replay::packet::{KeyframeMetadata, Packet, Speed, NORMAL_SPEED};
use supershuckie::replay::player::{
    KeyframePlace, ReplayConsoleType, ReplayFileMetadata, ReplayFilePlayer, ReplaySlot,
};
use supershuckie::session::effects::Effect;
use supershuckie::session::state::{MonotonicTimestampProvider, SuperShuckieCore};

const MAX_FRAMES: u64 = 900;

const BASE: u32 = 0xC000;
const RAM_LEN: usize = 0x2000;
const ROLE_ADDRESS: u32 = 0xC010;
const DONE_ADDRESS: u32 = 0xC011;
const NEXT_ADDRESS: u32 = 0xC012;
const RECEIVED_ADDRESS: u32 = 0xC100;

const ROLE_MASTER: u8 = 1;
const ROLE_SLAVE: u8 = 2;
const DONE: u8 = 0xD0;

/// Slices of a frame.
const SLICES: u8 = 4;

/// What a console sends as its `i`th byte.
fn sent_by(role: u8, i: u8) -> u8 {
    if role == ROLE_MASTER {
        i ^ 0x35
    } else {
        255 - i
    }
}

fn expected_received(role: u8) -> Vec<u8> {
    let other = if role == ROLE_MASTER { ROLE_SLAVE } else { ROLE_MASTER };
    (0..=255u8).map(|i| sent_by(other, i)).collect()
}

// ---------------------------------------------------------------------------------------------

struct Clock;

impl MonotonicTimestampProvider for Clock {
    fn get_timestamp_microseconds(&mut self) -> u64 {
        0
    }
}

/// A console with a link port: a master exchanges one byte per slice with its partner.
struct Console {
    kind: ReplayConsoleType,
    ram: Vec<u8>,
    slice: u8,
    live: bool,
    cycles: u64,
    /// What came over the cable during this frame: after how many slices, which byte, its value.
    heard: Vec<u8>,
    queued: VecDeque<(u8, u8, u8)>,
    misses: u64,
    input: u8,
}

impl Console {
    fn new(kind: ReplayConsoleType) -> Self {
        Console {
            kind,
            ram: vec![0; RAM_LEN],
            slice: 0,
            live: false,
            cycles: 0,
            heard: Vec::new(),
            queued: VecDeque::new(),
            misses: 0,
            input: 0,
        }
    }

    fn at(&mut self, address: u32) -> &mut u8 {
        &mut self.ram[(address - BASE) as usize]
    }

    fn get(&self, address: u32) -> u8 {
        self.ram[(address - BASE) as usize]
    }

    fn receive(&mut self, index: u8, value: u8) {
        *self.at(RECEIVED_ADDRESS + index as u32) = value;
        *self.at(NEXT_ADDRESS) = index.wrapping_add(1);
        if index == 255 {
            *self.at(DONE_ADDRESS) = DONE;
        }
    }

    fn hear(&mut self, index: u8, value: u8) {
        let slice = self.slice;
        self.heard.extend_from_slice(&[slice, index, value]);
        self.receive(index, value);
    }

    fn step(&mut self) -> RunTime {
        while let Some(&(slice, index, value)) = self.queued.front() {
            if slice > self.slice {
                break;
            }
            if slice < self.slice {
                self.misses += 1;
            }
            self.queued.pop_front();
            self.receive(index, value);
        }
        self.cycles += 10;
        self.slice += 1;
        if self.slice < SLICES {
            return RunTime::none();
        }
        self.slice = 0;
        RunTime::one_frame()
    }
}

impl ConsoleMemory for Console {
    fn memory_regions(&self) -> &[MemoryRegionInfo] {
        &[]
    }

    fn memory_region_data(&self, _index: usize) -> Option<&[u8]> {
        None
    }
}

impl EmulatorCore for Console {
    fn run(&mut self) -> RunTime {
        self.step()
    }

    fn run_unlocked(&mut self) -> RunTime {
        self.step()
    }

    fn read_ram(&self, address: u32, into: &mut Vec<u8>) -> Result<(), &'static str> {
        let from = (address as usize).checked_sub(BASE as usize).ok_or("unmapped")?;
        let bytes = self.ram.get(from..from + into.len()).ok_or("unmapped")?;
        into.copy_from_slice(bytes);
        Ok(())
    }

    fn write_ram(&mut self, address: u32, from: &[u8]) -> Result<(), &'static str> {
        let at = (address as usize).checked_sub(BASE as usize).ok_or("unmapped")?;
        let bytes = self.ram.get_mut(at..at + from.len()).ok_or("unmapped")?;
        bytes.copy_from_slice(from);
        Ok(())
    }

    fn set_speed(&mut self, _speed: Speed) {}

    fn save_sram(&self) -> Vec<u8> {
        Vec::new()
    }

    fn create_save_state(&self) -> Vec<u8> {
        let mut state = self.ram.clone();
        state.push(self.slice);
        state
    }

    fn set_skip_drawing(&mut self, _skip: bool) {}

    fn set_audio_enabled(&mut self, _enabled: bool) {}

    fn take_audio(&mut self) -> Vec<i16> {
        Vec::new()
    }

    fn load_save_state(&mut self, state: &[u8]) -> Result<(), String> {
        if state.len() != RAM_LEN + 1 {
            return Err("bad state".to_owned());
        }
        self.ram = state[..RAM_LEN].to_vec();
        self.slice = state[RAM_LEN];
        Ok(())
    }

    fn encode_input(&self, input: Input) -> Vec<u8> {
        vec![input.a as u8]
    }

    fn set_input_encoded(&mut self, input: &[u8]) {
        self.input = input.first().copied().unwrap_or(0);
    }

    fn get_screens(&self) -> &[ScreenData] {
        &[]
    }

    fn transient_ranges(&self, _state: &[u8]) -> Vec<(usize, usize)> {
        Vec::new()
    }

    fn hard_reset(&mut self) {
        self.ram = vec![0; RAM_LEN];
        self.slice = 0;
    }

    fn replay_console_type(&self) -> Option<ReplayConsoleType> {
        Some(self.kind)
    }

    fn rom_checksum(&self) -> [u8; 32] {
        [7; 32]
    }

    fn bios_checksum(&self) -> [u8; 32] {
        [0; 32]
    }

    fn core_name(&self) -> &'static str {
        "stand-in"
    }

    fn frame_rate(&self) -> (u32, u32) {
        (60, 1)
    }

    fn is_null(&self) -> bool {
        false
    }

    fn is_mid_frame(&self) -> bool {
        self.slice != 0
    }

    fn has_link_port(&self) -> bool {
        true
    }

    fn connect(&mut self, _first: bool) -> Result<(), LinkError> {
        if self.live {
            return Err(LinkError::NotConnected);
        }
        self.live = true;
        self.cycles = 0;
        self.heard.clear();
        Ok(())
    }

    fn disconnect(&mut self) {
        self.live = false;
        self.queued.clear();
    }

    fn step_linked(&mut self, partner: &mut Self, _paced: bool) -> Result<RunTime, LinkError> {
        if !self.live || !partner.live {
            return Err(LinkError::NotConnected);
        }
        if self.get(ROLE_ADDRESS) == ROLE_MASTER
            && partner.get(ROLE_ADDRESS) == ROLE_SLAVE
            && self.get(DONE_ADDRESS) != DONE
        {
            let index = self.get(NEXT_ADDRESS);
            self.hear(index, sent_by(ROLE_SLAVE, index));
            partner.hear(index, sent_by(ROLE_MASTER, index));
        }
        Ok(self.step())
    }

    fn link_time(&self) -> u64 {
        self.cycles
    }

    fn is_asleep(&self) -> bool {
        false
    }

    fn take_serial_in(&mut self) -> Vec<u8> {
        std::mem::take(&mut self.heard)
    }

    fn queue_serial_in(&mut self, data: &[u8]) -> Result<(), LinkError> {
        if self.live {
            return Err(LinkError::NotConnected);
        }
        self.queued.extend(data.chunks(3).map(|c| (c[0], c[1], c[2])));
        Ok(())
    }

    fn serial_replay_misses(&self) -> u64 {
        self.misses
    }

    fn sync_hash(&self) -> Option<[u8; 32]> {
        let mut hash = [0u8; 32];
        for (i, b) in self.ram.iter().enumerate() {
            hash[i % 32] = hash[i % 32].wrapping_mul(31).wrapping_add(*b);
        }
        Some(hash)
    }

    fn pair_hash(first: Option<[u8; 32]>, second: Option<[u8; 32]>) -> [u8; 32] {
        let mut hash = [0u8; 32];
        for i in 0..32 {
            hash[i] = first.map_or(0, |h| h[i]).wrapping_mul(3) ^ second.map_or(0, |h| h[i]);
        }
        hash
    }
}

type Core = SuperShuckieCore<Console, Clock>;

fn new_core(kind: ReplayConsoleType) -> Core {
    SuperShuckieCore::new(Console::new(kind), Clock)
}

fn read(core: &Core, address: u32, len: usize) -> Vec<u8> {
    let mut out = vec![0u8; len];
    core.get_core().read_ram(address, &mut out).expect("read");
    out
}

fn wram(core: &Core) -> Vec<u8> {
    read(core, BASE, RAM_LEN)
}

fn done(core: &Core) -> bool {
    read(core, DONE_ADDRESS, 1)[0] == DONE
}

fn received(core: &Core) -> Vec<u8> {
    read(core, RECEIVED_ADDRESS, 256)
}

fn run_alone_to(core: &mut Core, frame: u64) {
    while core.total_frames() < frame {
        core.run_unlocked();
    }
}

// ---------------------------------------------------------------------------------------------

/// A replay file kept in memory.
struct Tape {
    metadata: ReplayFileMetadata,
    slots: Vec<ReplaySlot>,
    keyframes: Vec<KeyframePlace>,
    input: Vec<u8>,
    frames: u64,
    millis: u64,
}

impl Tape {
    fn new(metadata: ReplayFileMetadata, input: Vec<u8>, state: Vec<u8>) -> Tape {
        let mut tape = Tape {
            metadata,
            slots: Vec::new(),
            keyframes: Vec::new(),
            input,
            frames: 0,
            millis: 0,
        };
        tape.keyframe(state, 0);
        tape
    }

    fn of(core: &mut Core) -> Tape {
        let start = core
            .start_recording_replay("test".to_owned(), "test".to_owned())
            .expect("start recording");
        core.recording_started(1000);
        Tape::new(start.metadata, start.input, start.state)
    }

    fn keyframe(&mut self, state: Vec<u8>, millis: u64) {
        self.keyframes.push(KeyframePlace {
            frame: self.frames,
            elapsed_millis: millis,
            slot: self.slots.len(),
        });
        self.event(Packet::Keyframe {
            metadata: KeyframeMetadata {
                input: self.input.clone(),
                speed: Speed { units: NORMAL_SPEED },
                elapsed_frames: self.frames,
                elapsed_millis: millis,
                counters: Vec::new(),
            },
            state,
        });
    }

    fn event(&mut self, p: Packet) {
        self.slots.push(ReplaySlot::Event(p));
    }

    fn note(&mut self, effect: Effect) {
        match effect {
            Effect::RecordFrame { millis } => {
                let timestamp_delta = millis - self.millis;
                self.millis = millis;
                self.frames += 1;
                self.event(Packet::NextFrame { timestamp_delta });
            }
            Effect::RecordInput { data } => {
                self.input = data.clone();
                self.event(Packet::ChangeInput { data });
            }
            Effect::RecordWrite { address, data } => {
                self.event(Packet::WriteMemory { address, data })
            }
            Effect::RecordReset => self.event(Packet::ResetConsole),
            Effect::RecordSerialIn { data } => {
                self.event(Packet::SerialIn { data });
            }
            Effect::RecordKeyframe { state, millis, .. } => self.keyframe(state, millis),
            _ => {}
        }
    }

    fn player(&self) -> ReplayFilePlayer {
        ReplayFilePlayer {
            metadata: self.metadata.clone(),
            slots: self.slots.clone(),
            keyframes: self.keyframes.clone(),
            total_frames: self.frames,
            total_milliseconds: self.millis,
            cursor: 0,
        }
    }

    /// The frame (count of `NextFrame`s before it) of every packet matching, oldest first.
    fn frames_of(&self, matches: impl Fn(&Packet) -> bool) -> Vec<u64> {
        let mut frames = 0;
        let mut found = Vec::new();
        for slot in &self.slots {
            if let ReplaySlot::Event(p) = slot {
                if let Packet::NextFrame { .. } = p {
                    frames += 1;
                } else if matches(p) {
                    found.push(frames);
                }
            }
        }
        found
    }
}

struct Machine {
    local: Core,
    follower: Core,
    local_file: Tape,
    follower_file: Tape,
    /// Frames held back, and the switch.
    held: VecDeque<(u64, LinkFrame)>,
    hold: bool,
    sent: Vec<u64>,
    /// What the local console's session published.
    published: Vec<Packet>,
    published_millis: u64,
}

impl Machine {
    /// Run once; what the local console says goes to the other machine.
    fn run(&mut self, other: &mut Machine) -> LinkRunOutcome {
        let outcome = self.local.run_linked(&mut self.follower);
        self.deliver(other);
        outcome
    }

    fn deliver(&mut self, other: &mut Machine) {
        for effect in self.local.take_effects() {
            match effect {
                Effect::SendLinkFrame { frame, elapsed_millis, events, pair_hash } => {
                    self.sent.push(frame);
                    let link_frame = LinkFrame { events, elapsed_millis, pair_hash };
                    if self.hold {
                        self.held.push_back((frame, link_frame));
                    } else {
                        other.push(frame, link_frame);
                    }
                }
                Effect::PublishSnapshot { metadata, state } => {
                    self.published_millis = metadata.elapsed_millis;
                    self.published.push(Packet::Keyframe { metadata, state });
                }
                Effect::PublishInput { data } => {
                    self.published.push(Packet::ChangeInput { data });
                }
                Effect::PublishWrite { address, data } => {
                    self.published.push(Packet::WriteMemory { address, data });
                }
                Effect::PublishReset => self.published.push(Packet::ResetConsole),
                Effect::PublishSerialIn { data } => self.published.push(Packet::SerialIn { data }),
                Effect::PublishFrame { millis } => {
                    let timestamp_delta = millis - self.published_millis;
                    self.published_millis = millis;
                    self.published.push(Packet::NextFrame { timestamp_delta });
                }
                effect => self.local_file.note(effect),
            }
        }
        for effect in self.follower.take_effects() {
            self.follower_file.note(effect);
        }
    }

    fn push(&mut self, frame: u64, link_frame: LinkFrame) {
        if let Some(partner) = self.follower.together.partner.as_mut() {
            partner.inbox.push(frame, link_frame);
        }
    }

    fn progress(&self) -> u64 {
        self.local.link_progress().map(|(f, _)| f).unwrap_or(0)
    }

    fn unplug(&mut self) {
        self.local.end_link(&mut self.follower);
        for effect in self.local.take_effects() {
            self.local_file.note(effect);
        }
        for effect in self.follower.take_effects() {
            self.follower_file.note(effect);
        }
    }
}

/// The follower of `of` (at its held frame) on a fresh core, with a file of its own.
fn follower_of(of: &Core, start_frame: u64, input: &[u8], metadata: &ReplayFileMetadata) -> (Core, Tape) {
    let mut follower = new_core(of.get_core().kind);
    assert!(follower.attach_live_replay_source(LiveReplaySource::new(), metadata, false).is_ok());
    assert!(follower.start_recording_follower_replay(1000).is_ok());
    let snapshot = Packet::Keyframe {
        metadata: KeyframeMetadata {
            input: input.to_vec(),
            speed: Speed { units: NORMAL_SPEED },
            elapsed_frames: start_frame,
            elapsed_millis: 0,
            counters: Vec::new(),
        },
        state: of.create_save_state(),
    };
    follower.together.follower.as_mut().expect("following").source.push_packet(snapshot, 0);
    follower.run_unlocked();
    assert_eq!(follower.total_frames(), start_frame, "the follower sits at the held frame");
    assert!(follower.playback.waiting);
    let start = follower.take_follower_recording_start().expect("the follower's file starts");
    let _ = follower.take_effects();
    (follower, Tape::new(metadata.clone(), start.input, start.state))
}

/// Two machines linked with `delay` frames, `a` being the first console, both consoles held a few
/// frames in.
fn link_two(kind: ReplayConsoleType, delay: u64) -> (Machine, Machine) {
    let mut a = new_core(kind);
    let mut b = new_core(kind);
    run_alone_to(&mut a, 5);
    run_alone_to(&mut b, 7);
    let _ = a.take_effects();
    let _ = b.take_effects();
    let mut a_file = Tape::of(&mut a);
    let mut b_file = Tape::of(&mut b);
    run_alone_to(&mut a, 3);
    run_alone_to(&mut b, 2);

    let (a_frame, a_input) = a.link_hold().expect("hold a");
    let (b_frame, b_input) = b.link_hold().expect("hold b");
    assert_eq!(a_frame, 3);
    assert_eq!(b_frame, 2);
    for effect in a.take_effects() {
        a_file.note(effect);
    }
    for effect in b.take_effects() {
        b_file.note(effect);
    }

    let (b_on_1, b_on_1_file) = follower_of(&b, b_frame, &b_input, &b_file.metadata);
    let (a_on_2, a_on_2_file) = follower_of(&a, a_frame, &a_input, &a_file.metadata);

    let mut m1 = Machine {
        local: a,
        follower: b_on_1,
        local_file: a_file,
        follower_file: b_on_1_file,
        held: VecDeque::new(),
        hold: false,
        sent: Vec::new(),
        published: Vec::new(),
        published_millis: 0,
    };
    let mut m2 = Machine {
        local: b,
        follower: a_on_2,
        local_file: b_file,
        follower_file: a_on_2_file,
        held: VecDeque::new(),
        hold: false,
        sent: Vec::new(),
        published: Vec::new(),
        published_millis: 0,
    };

    m1.local
        .begin_link(
            &mut m1.follower,
            LinkSettings {
                delay_frames: delay,
                local_is_first: true,
                local_start_frame: a_frame,
                partner_start_frame: b_frame,
                partner_start_input: b_input,
            },
            LinkInbox::new(),
        )
        .expect("link on machine 1");
    m2.local
        .begin_link(
            &mut m2.follower,
            LinkSettings {
                delay_frames: delay,
                local_is_first: false,
                local_start_frame: b_frame,
                partner_start_frame: a_frame,
                partner_start_input: a_input,
            },
            LinkInbox::new(),
        )
        .expect("link on machine 2");
    m1.local.set_link_paced(false);
    m2.local.set_link_paced(false);
    m1.deliver(&mut m2);
    m2.deliver(&mut m1);
    (m1, m2)
}

fn assert_ran(outcome: &LinkRunOutcome, what: &str) {
    assert!(matches!(outcome, LinkRunOutcome::Ran { .. }), "{}", what);
}

/// Run the two machines, the one whose console is behind going next, until `stop` says so or both
/// consoles have completed `frames` more link frames.
fn run_pair(m1: &mut Machine, m2: &mut Machine, frames: u64, stop: impl Fn(&Machine, &Machine) -> bool) {
    let target_1 = m1.progress() + frames;
    let target_2 = m2.progress() + frames;
    let mut steps = 0u64;
    while (m1.progress() < target_1 || m2.progress() < target_2) && !stop(m1, m2) {
        let first_goes = m1.progress() <= m2.progress();
        let outcome = if first_goes { m1.run(m2) } else { m2.run(m1) };
        match outcome {
            LinkRunOutcome::Ran { .. } => {}
            LinkRunOutcome::Stalled => {
                let other = if first_goes { m2.run(m1) } else { m1.run(m2) };
                assert_ran(&other, "both machines stalled");
            }
            LinkRunOutcome::Failed(failure) => panic!("failed: {}", failure.message()),
        }
        steps += 1;
        assert!(steps < 1_000_000, "runaway");
    }
}

fn all_done(m1: &Machine, m2: &Machine) -> bool {
    done(&m1.local) && done(&m2.local) && done(&m1.follower) && done(&m2.follower)
}

fn play_back_alone(tape: &Tape) -> Core {
    let mut playback = new_core(tape.metadata.console_type);
    let total = tape.frames;
    assert!(playback.attach_replay_player(tape.player(), false).is_ok());
    while playback.total_frames() < total && !playback.is_replay_stalled() {
        playback.run_unlocked();
    }
    assert_eq!(playback.total_frames(), total, "played to the end");
    playback
}

/// Both machines run the pair, the transfer completes on all four consoles with the right bytes,
/// both machines hold the same memory for both consoles, the pair hashes agree, and the four replay
/// files reach the same state on their own.
fn exchanges_bytes_on_both_machines(kind: ReplayConsoleType, delay: u64) {
    let (mut m1, mut m2) = link_two(kind, delay);

    assert!(m1.local.enqueue_write(ROLE_ADDRESS, vec![ROLE_MASTER]));
    assert!(m2.local.enqueue_write(ROLE_ADDRESS, vec![ROLE_SLAVE]));

    run_pair(&mut m1, &mut m2, MAX_FRAMES, all_done);
    assert!(done(&m1.local), "a finished on machine 1");
    assert!(done(&m2.local), "b finished on machine 2");
    assert!(done(&m1.follower), "b finished on machine 1");
    assert!(done(&m2.follower), "a finished on machine 2");
    assert_eq!(received(&m1.local), expected_received(ROLE_MASTER));
    assert_eq!(received(&m2.local), expected_received(ROLE_SLAVE));

    // Let the pair run past the next pair hash so that every hash sent so far has been checked.
    run_pair(&mut m1, &mut m2, 130, |_, _| false);
    assert!(m1.local.link_failure().is_none());
    assert!(m2.local.link_failure().is_none());
    assert!(!m1.sent.is_empty() && !m2.sent.is_empty());

    // Both machines computed the same consoles.
    assert_eq!(wram(&m1.local), wram(&m2.follower), "a on both machines");
    assert_eq!(wram(&m2.local), wram(&m1.follower), "b on both machines");
    assert_eq!(m1.local.serial_replay_misses(), 0);
    assert_eq!(m1.follower.serial_replay_misses(), 0);
    assert_eq!(m2.local.serial_replay_misses(), 0);
    assert_eq!(m2.follower.serial_replay_misses(), 0);
    assert_eq!(m1.follower.follower_stats().expect("following").hash_mismatches, 0);
    assert_eq!(m2.follower.follower_stats().expect("following").hash_mismatches, 0);

    // Unplug: the local consoles run alone again, the followers wait for a snapshot.
    let a_wram = wram(&m1.local);
    let b_wram = wram(&m2.local);
    m1.unplug();
    m2.unplug();
    assert!(!m1.local.is_linked() && !m1.follower.is_linked());
    let target = m1.local.total_frames() + 5;
    run_alone_to(&mut m1.local, target);
    let follower_frames = m1.follower.total_frames();
    for _ in 0..100 {
        m1.follower.run_unlocked();
        if m1.follower.playback.waiting {
            break;
        }
    }
    assert!(m1.follower.playback.waiting, "a follower without a snapshot waits");
    assert!(
        m1.follower.total_frames() <= follower_frames + 1,
        "...after finishing at most the frame it was in"
    );
    assert!(m1.local.stop_recording_replay());
    assert!(m2.local.stop_recording_replay());
    for effect in m1.local.take_effects() {
        m1.local_file.note(effect);
    }

    // Every file plays back on its own to the state the live console had at its end: the link
    // traffic came with it, so no partner is needed.
    let files = [
        (&m1.local_file, wram(&m1.local)),
        (&m2.local_file, wram(&m2.local)),
        (&m1.follower_file, b_wram),
        (&m2.follower_file, a_wram),
    ];
    for (tape, expected) in files {
        let playback = play_back_alone(tape);
        assert_eq!(wram(&playback), expected, "the replay reaches the live state");
        assert_eq!(playback.serial_replay_misses(), 0);
        assert!(done(&playback), "the transfer completed in the replay");
        let serial_ins = tape.frames_of(|p| matches!(p, Packet::SerialIn { .. })).len() as u64;
        let inputs = tape.frames_of(|p| matches!(p, Packet::ChangeInput { .. })).len() as u64;
        assert!(serial_ins > 0 && serial_ins <= tape.frames);
        assert!(inputs <= tape.frames + 2);
    }
}

#[test]
fn a_third_player_follows_a_linked_game() {
    let (mut m1, mut m2) = link_two(ReplayConsoleType::GameBoy, 2);
    m1.local.set_stream_publisher(true);
    assert!(m1.local.enqueue_write(ROLE_ADDRESS, vec![ROLE_MASTER]));
    assert!(m2.local.enqueue_write(ROLE_ADDRESS, vec![ROLE_SLAVE]));
    run_pair(&mut m1, &mut m2, MAX_FRAMES, all_done);
    assert!(done(&m1.local));
    assert!(m1.published.iter().any(|p| matches!(p, Packet::SerialIn { .. })));

    let mut third = new_core(ReplayConsoleType::GameBoy);
    let metadata = &m1.local_file.metadata;
    assert!(third.attach_live_replay_source(LiveReplaySource::new(), metadata, false).is_ok());
    for packet in m1.published.drain(..) {
        third.together.follower.as_mut().expect("following").source.push_packet(packet, 0);
        // Once with the packet, once more to find that there is nothing left to run.
        third.run_unlocked();
        while !third.playback.waiting {
            third.run_unlocked();
        }
    }
    assert_eq!(third.total_frames(), m1.local.total_frames());
    assert_eq!(wram(&third), wram(&m1.local));
    assert_eq!(received(&third), expected_received(ROLE_MASTER));
    assert_eq!(third.serial_replay_misses(), 0);
}

#[test]
fn linked_pair_exchanges_bytes_dmg() {
    exchanges_bytes_on_both_machines(ReplayConsoleType::GameBoy, 3);
}

#[test]
fn linked_pair_exchanges_bytes_gba() {
    exchanges_bytes_on_both_machines(ReplayConsoleType::GameBoyAdvance, 3);
}

#[test]
fn linked_pair_exchanges_bytes_cgb_with_one_frame_delay() {
    exchanges_bytes_on_both_machines(ReplayConsoleType::GameBoyColor, 1);
}

#[test]
fn both_perspectives_agree() {
    let (mut m1, mut m2) = link_two(ReplayConsoleType::GameBoy, 2);
    assert!(m1.local.enqueue_write(ROLE_ADDRESS, vec![ROLE_SLAVE]));
    assert!(m2.local.enqueue_write(ROLE_ADDRESS, vec![ROLE_MASTER]));
    run_pair(&mut m1, &mut m2, MAX_FRAMES, all_done);
    assert!(all_done(&m1, &m2));
    assert_eq!(received(&m1.local), expected_received(ROLE_SLAVE));
    assert_eq!(received(&m2.local), expected_received(ROLE_MASTER));
    for _ in 0..3 {
        run_pair(&mut m1, &mut m2, 61, |_, _| false);
        assert_eq!(wram(&m1.local), wram(&m2.follower));
        assert_eq!(wram(&m2.local), wram(&m1.follower));
    }
    assert!(m1.local.link_failure().is_none() && m2.local.link_failure().is_none());
}

#[test]
fn inputs_writes_and_resets_are_delayed_and_land_together() {
    const DELAY: u64 = 4;
    let (mut m1, mut m2) = link_two(ReplayConsoleType::GameBoy, DELAY);
    let probe = 0xC200u32;
    assert_eq!(m1.progress(), 0);

    // Not on either machine for `DELAY` frames, then on both.
    assert!(m1.local.enqueue_write(probe, vec![0x5A]));
    run_pair(&mut m1, &mut m2, DELAY, |_, _| false);
    assert_ne!(read(&m1.local, probe, 1)[0], 0x5A, "not before the delay");
    run_pair(&mut m1, &mut m2, 2, |_, _| false);
    assert_eq!(read(&m1.local, probe, 1)[0], 0x5A, "on machine 1");
    assert_eq!(read(&m2.follower, probe, 1)[0], 0x5A, "on machine 2");

    // A reset: memory is cleared, on both machines.
    assert!(m2.local.enqueue_write(0xC001, vec![0x77]));
    run_pair(&mut m1, &mut m2, DELAY + 2, |_, _| false);
    assert_eq!(read(&m2.local, 0xC001, 1)[0], 0x77);
    assert_eq!(read(&m1.follower, 0xC001, 1)[0], 0x77);
    let epoch_before = m2.local.state_epoch();
    m2.local.hard_reset();
    assert_eq!(m2.local.state_epoch(), epoch_before, "a reset is scheduled, not applied now");
    run_pair(&mut m1, &mut m2, DELAY + 6, |_, _| false);
    assert_eq!(read(&m2.local, 0xC001, 1)[0], 0, "reset on machine 2");
    assert_eq!(read(&m1.follower, 0xC001, 1)[0], 0, "reset on machine 1");
    assert!(m2.local.state_epoch() > epoch_before);
    assert_eq!(wram(&m2.local), wram(&m1.follower));

    // Unlinking drops the frames still scheduled: a write made just before is never applied.
    assert!(m1.local.enqueue_write(probe, vec![0xEE]));
    m1.unplug();
    m2.unplug();
    let target = m1.local.total_frames() + DELAY + 2;
    run_alone_to(&mut m1.local, target);
    assert_ne!(read(&m1.local, probe, 1)[0], 0xEE, "scheduled inputs are dropped at unlink");
    // ...and the next write is immediate again.
    assert!(m1.local.enqueue_write(probe, vec![0xEF]));
    assert_eq!(read(&m1.local, probe, 1)[0], 0xEF);

    // The files agree on the frame everything landed in.
    let is_probe_write =
        |p: &Packet| matches!(p, Packet::WriteMemory { address, data } if *address == probe as u64 && data[..] == [0x5A]);
    let a_writes = m1.local_file.frames_of(is_probe_write);
    let a_on_2_writes = m2.follower_file.frames_of(is_probe_write);
    assert_eq!(a_writes.len(), 1);
    assert_eq!(a_on_2_writes.len(), 1);
    assert_eq!(a_writes[0], 3 + DELAY, "the write sits before link frame `delay` in a's own file");
    assert_eq!(a_on_2_writes[0], DELAY, "and before the same link frame as followed on machine 2");
    let b_resets = m2.local_file.frames_of(|p| matches!(p, Packet::ResetConsole));
    let b_on_1_resets = m1.follower_file.frames_of(|p| matches!(p, Packet::ResetConsole));
    assert_eq!(b_resets.len(), 1);
    assert_eq!(b_on_1_resets.len(), 1);
    assert_eq!(b_resets[0], b_on_1_resets[0] + 2);
}

#[test]
fn missing_link_frames_stall_the_pair_until_they_arrive() {
    const DELAY: u64 = 3;
    let (mut m1, mut m2) = link_two(ReplayConsoleType::GameBoy, DELAY);
    assert!(m1.local.enqueue_write(ROLE_ADDRESS, vec![ROLE_MASTER]));
    assert!(m2.local.enqueue_write(ROLE_ADDRESS, vec![ROLE_SLAVE]));

    // Machine 2 stops delivering: machine 1 runs its pre-filled frames, then stalls (and so,
    // `DELAY` frames further, does machine 2, waiting for machine 1's).
    m2.hold = true;
    let mut stalled = false;
    for _ in 0..(DELAY + 2) * 1000 {
        match m1.run(&mut m2) {
            LinkRunOutcome::Ran { .. } => {}
            LinkRunOutcome::Stalled => {
                stalled = true;
                break;
            }
            LinkRunOutcome::Failed(failure) => panic!("machine 1: {}", failure.message()),
        }
    }
    assert!(stalled, "machine 1 should stall without machine 2's frames");
    assert!(m1.local.is_link_stalled());
    let progress = m1.progress();
    assert!(progress <= DELAY, "stalled once the pre-filled frames ran out: {}", progress);
    let frames_before = m1.local.total_frames();
    for _ in 0..100 {
        assert!(matches!(m1.run(&mut m2), LinkRunOutcome::Stalled));
    }
    assert_eq!(m1.local.total_frames(), frames_before, "nothing runs while stalled");
    let mut stalled_2 = false;
    for _ in 0..(DELAY + 2) * 1000 {
        match m2.run(&mut m1) {
            LinkRunOutcome::Ran { .. } => {}
            LinkRunOutcome::Stalled => {
                stalled_2 = true;
                break;
            }
            LinkRunOutcome::Failed(failure) => panic!("machine 2: {}", failure.message()),
        }
    }
    assert!(stalled_2, "machine 2 stalls too once it has used up machine 1's frames");
    assert!(m2.progress() <= progress + DELAY + 2);

    // Deliver everything held back: the pair resumes and finishes like an uninterrupted one.
    m2.hold = false;
    while let Some((frame, link_frame)) = m2.held.pop_front() {
        m1.push(frame, link_frame);
    }
    assert_ran(&m1.run(&mut m2), "machine 1 after delivery");
    assert!(!m1.local.is_link_stalled());
    run_pair(&mut m1, &mut m2, MAX_FRAMES, all_done);
    assert!(all_done(&m1, &m2));
    assert_eq!(wram(&m1.local), wram(&m2.follower));
    assert_eq!(wram(&m2.local), wram(&m1.follower));
}

#[test]
fn desync_and_partner_loss_fail_the_link() {
    let (mut m1, mut m2) = link_two(ReplayConsoleType::GameBoy, 2);
    run_pair(&mut m1, &mut m2, 5, |_, _| false);
    // Corrupt b as machine 1 sees it (a write straight into the follower, bypassing the link).
    m1.follower.core.write_ram(0xC300, &[1, 2, 3, 4]).unwrap();
    let mut failed = None;
    for _ in 0..PAIR_HASH_INTERVAL_FRAMES * 3 * 100 {
        let o1 = m1.run(&mut m2);
        let o2 = m2.run(&mut m1);
        if let LinkRunOutcome::Failed(failure) = o1 {
            failed = Some(failure);
            break;
        }
        if let LinkRunOutcome::Failed(failure) = o2 {
            failed = Some(failure);
            break;
        }
    }
    let failure = failed.expect("the pair hash catches the divergence");
    assert!(matches!(failure, LinkFailure::PairHashMismatch { .. }), "{}", failure.message());
    assert!(m1.local.link_failure().is_some() || m2.local.link_failure().is_some());
    // It stays so, and neither console steps any more.
    let broken = if m1.local.link_failure().is_some() { &mut m1 } else { &mut m2 };
    let frames = (broken.local.total_frames(), broken.follower.total_frames());
    for _ in 0..3 {
        match broken.local.run_linked(&mut broken.follower) {
            LinkRunOutcome::Failed(again) => assert_eq!(again, failure),
            _ => panic!("a failed link went on"),
        }
        assert_eq!(broken.local.link_failure(), Some(failure.clone()));
        assert_eq!((broken.local.total_frames(), broken.follower.total_frames()), frames);
    }
    m1.unplug();
    m2.unplug();

    // A partner whose frames end for good.
    let (mut m1, mut m2) = link_two(ReplayConsoleType::GameBoy, 2);
    run_pair(&mut m1, &mut m2, 3, |_, _| false);
    m1.follower.together.partner.as_mut().expect("linked").inbox.end();
    let mut ended = false;
    for _ in 0..2000 {
        match m1.run(&mut m2) {
            LinkRunOutcome::Failed(LinkFailure::PartnerEnded) => {
                ended = true;
                break;
            }
            LinkRunOutcome::Failed(other) => panic!("{}", other.message()),
            _ => {}
        }
    }
    assert!(ended);
}

#[test]
fn refusals_while_held_and_linked() {
    let (mut m1, mut m2) = link_two(ReplayConsoleType::GameBoy, 2);
    let state = m1.local.create_save_state();
    run_pair(&mut m1, &mut m2, 2, |_, _| false);

    let epoch = m1.local.state_epoch();
    m1.local.load_save_state(&state);
    assert_eq!(m1.local.state_epoch(), epoch, "a state load is refused while linked");
    m1.local.set_speed(Speed { units: 4 * NORMAL_SPEED });
    assert_eq!(m1.local.audio.speed.units, NORMAL_SPEED, "speed changes are refused while linked");
    assert!(m1.local.link_hold().is_err(), "cannot hold while linked");
    let player = m1.local_file.player();
    assert!(m1.local.attach_replay_player(player, true).is_err(), "no replay while linked");

    // A console held for a link runs nothing until released or linked.
    let mut lone = new_core(ReplayConsoleType::GameBoy);
    run_alone_to(&mut lone, 4);
    let (frame, _) = lone.link_hold().unwrap();
    assert_eq!(frame, 4);
    for _ in 0..50 {
        lone.run_unlocked();
    }
    assert_eq!(lone.total_frames(), 4, "held: nothing runs");
    lone.link_release();
    run_alone_to(&mut lone, 6);
    assert_eq!(lone.total_frames(), 6);

    m1.unplug();
    m2.unplug();
}

#[test]
fn malformed_serial_in_is_refused() {
    let mut gb = GbLinkState::new();
    assert!(gb.queue_serial_in(&[0x09]).is_err());
    assert!(!gb.is_live());
    gb.connect().unwrap();
    assert!(gb.queue_serial_in(&[]).is_err(), "a live port takes no recording");
    gb.disconnect();
    assert!(gb.queue_serial_in(&[0x04, 0x01]).is_ok(), "a clean packet puts the port in replay mode");
    assert!(!gb.is_live());
}

#[test]
fn the_console_that_is_behind_steps() {
    let mut a = Console::new(ReplayConsoleType::GameBoy);
    let mut b = Console::new(ReplayConsoleType::GameBoy);
    assert!(!second_runs_next(&a, &b).unwrap(), "ties go to the first");
    a.cycles = 20;
    assert!(second_runs_next(&a, &b).unwrap());
    b.cycles = 30;
    assert!(!second_runs_next(&a, &b).unwrap());
}
