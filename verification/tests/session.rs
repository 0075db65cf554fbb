use std::cell::{Cell, RefCell};
use std::rc::Rc;
use supershuckie::emulator::console::{EmulatorCore, RunTime, ScreenData, ScreenDataEncoding};
use supershuckie::emulator::input::Input;
use supershuckie::emulator::link::LinkError;
use supershuckie::emulator::memory::{ConsoleMemory, MemoryRegionInfo};
use supershuckie::emulator::null::NullEmulatorCore;
use supershuckie::export::{ExportRange, ScreenLayout, VideoExportError, VideoFrameSink};
use supershuckie::replay::packet::{Counter, KeyframeMetadata, Packet, Speed};
use supershuckie::replay::player::{
    KeyframePlace, ReplayConsoleType, ReplayFilePlayer, ReplaySlot,
};
use supershuckie::session::compat::ReplayPlayerAttachError;
use supershuckie::session::effects::Effect;
use supershuckie::session::starting::RecordingStart;
use supershuckie::session::state::{
    MonotonicTimestampProvider, SuperShuckieCore, SuperShuckieRapidFire,
};

// ---------------------------------------------------------------------------------------------
// A clock that stands still until told otherwise.

#[derive(Clone)]
struct FakeClock(Rc<Cell<u64>>);

impl FakeClock {
    fn new() -> Self {
        FakeClock(Rc::new(Cell::new(0)))
    }

    fn now(&self) -> u64 {
        self.0.get()
    }

    fn advance(&self, micros: u64) {
        self.0.set(self.0.get() + micros);
    }
}

impl MonotonicTimestampProvider for FakeClock {
    fn get_timestamp_microseconds(&mut self) -> u64 {
        self.now()
    }
}

// ---------------------------------------------------------------------------------------------
// A core that either paces itself off the clock or steps inside frames.

struct FakeCore {
    clock: FakeClock,
    /// The frame period of a paced core; 0 for one that runs whenever it is asked to.
    period_micros: u64,
    last_frame_micros: u64,
    /// Steps of a sliced core before a whole frame.
    steps_before_frame: u8,
    step: u8,
    mid_frame: bool,
    counter: u32,
    input_byte: u8,
    frame_inputs: Rc<RefCell<Vec<u8>>>,
    console: ReplayConsoleType,
    screens: Vec<ScreenData>,
}

impl FakeCore {
    fn paced(clock: FakeClock, period_micros: u64) -> Self {
        FakeCore {
            clock,
            period_micros,
            last_frame_micros: 0,
            steps_before_frame: 0,
            step: 0,
            mid_frame: false,
            counter: 0,
            input_byte: 0,
            frame_inputs: Rc::new(RefCell::new(Vec::new())),
            console: ReplayConsoleType::GameBoyAdvance,
            screens: vec![ScreenData {
                pixels: vec![0xFF112233; 4 * 4],
                width: 4,
                height: 4,
                encoding: ScreenDataEncoding::A8R8G8B8,
            }],
        }
    }

    fn sliced(steps_before_frame: u8) -> Self {
        FakeCore {
            steps_before_frame,
            console: ReplayConsoleType::GameBoy,
            screens: Vec::new(),
            ..FakeCore::paced(FakeClock::new(), 0)
        }
    }
}

impl ConsoleMemory for FakeCore {
    fn memory_regions(&self) -> &[MemoryRegionInfo] {
        &[]
    }

    fn memory_region_data(&self, _index: usize) -> Option<&[u8]> {
        None
    }
}

impl EmulatorCore for FakeCore {
    fn run(&mut self) -> RunTime {
        if self.period_micros > 0 {
            let due = self.last_frame_micros + self.period_micros;
            if self.clock.now() < due {
                return RunTime::none();
            }
            self.last_frame_micros = due;
        }
        self.run_unlocked()
    }

    fn run_unlocked(&mut self) -> RunTime {
        if self.step < self.steps_before_frame {
            self.step += 1;
            self.mid_frame = true;
            return RunTime::none();
        }
        self.step = 0;
        self.mid_frame = false;
        self.counter = self.counter.wrapping_add(1);
        self.frame_inputs.borrow_mut().push(self.input_byte);
        RunTime::one_frame()
    }

    fn read_ram(&self, _address: u32, _into: &mut Vec<u8>) -> Result<(), &'static str> {
        Err("unsupported")
    }

    fn write_ram(&mut self, _address: u32, _from: &[u8]) -> Result<(), &'static str> {
        Err("unsupported")
    }

    fn set_speed(&mut self, _speed: Speed) {}

    fn save_sram(&self) -> Vec<u8> {
        Vec::new()
    }

    fn create_save_state(&self) -> Vec<u8> {
        self.counter.to_le_bytes().to_vec()
    }

    fn set_skip_drawing(&mut self, _skip: bool) {}

    fn set_audio_enabled(&mut self, _enabled: bool) {}

    fn take_audio(&mut self) -> Vec<i16> {
        Vec::new()
    }

    fn load_save_state(&mut self, state: &[u8]) -> Result<(), String> {
        let bytes: [u8; 4] = state.try_into().map_err(|_| String::from("bad state"))?;
        self.counter = u32::from_le_bytes(bytes);
        self.mid_frame = false;
        Ok(())
    }

    fn encode_input(&self, input: Input) -> Vec<u8> {
        vec![input.a as u8]
    }

    fn set_input_encoded(&mut self, input: &[u8]) {
        self.input_byte = input.first().copied().unwrap_or(0);
    }

    fn get_screens(&self) -> &[ScreenData] {
        &self.screens
    }

    fn transient_ranges(&self, _state: &[u8]) -> Vec<(usize, usize)> {
        Vec::new()
    }

    fn hard_reset(&mut self) {
        self.counter = 0;
        self.step = 0;
        self.mid_frame = false;
    }

    fn replay_console_type(&self) -> Option<ReplayConsoleType> {
        Some(self.console)
    }

    fn rom_checksum(&self) -> [u8; 32] {
        [0; 32]
    }

    fn bios_checksum(&self) -> [u8; 32] {
        [0; 32]
    }

    fn core_name(&self) -> &'static str {
        "fake"
    }

    fn frame_rate(&self) -> (u32, u32) {
        (60, 1)
    }

    fn is_null(&self) -> bool {
        false
    }

    fn is_mid_frame(&self) -> bool {
        self.mid_frame
    }

    fn has_link_port(&self) -> bool {
        false
    }

    fn connect(&mut self, _first: bool) -> Result<(), LinkError> {
        Err(LinkError::IncompatiblePartner)
    }

    fn disconnect(&mut self) {}

    fn step_linked(&mut self, _partner: &mut Self, _paced: bool) -> Result<RunTime, LinkError> {
        Err(LinkError::NotConnected)
    }

    fn link_time(&self) -> u64 {
        0
    }

    fn is_asleep(&self) -> bool {
        false
    }

    fn take_serial_in(&mut self) -> Vec<u8> {
        Vec::new()
    }

    fn queue_serial_in(&mut self, _data: &[u8]) -> Result<(), LinkError> {
        Err(LinkError::NotConnected)
    }

    fn serial_replay_misses(&self) -> u64 {
        0
    }

    fn sync_hash(&self) -> Option<[u8; 32]> {
        None
    }

    fn pair_hash(_first: Option<[u8; 32]>, _second: Option<[u8; 32]>) -> [u8; 32] {
        [0; 32]
    }
}

type Core = SuperShuckieCore<FakeCore, FakeClock>;

// ---------------------------------------------------------------------------------------------
// A recording kept in memory.

struct Tape {
    start: RecordingStart,
    slots: Vec<ReplaySlot>,
    keyframes: Vec<KeyframePlace>,
    counters: Vec<Counter>,
    input: Vec<u8>,
    speed: Speed,
    frames: u64,
    millis: u64,
    errors: Vec<String>,
    closed: bool,
}

impl Tape {
    fn record(core: &mut Core, frames_per_keyframe: u64) -> Tape {
        let start = core
            .start_recording_replay("fake".to_owned(), "fake".to_owned())
            .expect("start recording");
        core.recording_started(frames_per_keyframe);
        let mut tape = Tape {
            slots: Vec::new(),
            keyframes: Vec::new(),
            counters: Vec::new(),
            input: start.input.clone(),
            speed: start.speed,
            frames: 0,
            millis: start.millis,
            errors: Vec::new(),
            closed: false,
            start,
        };
        let state = tape.start.state.clone();
        let millis = tape.start.millis;
        tape.keyframe(state, millis);
        tape
    }

    fn keyframe(&mut self, state: Vec<u8>, millis: u64) {
        self.keyframes.push(KeyframePlace {
            frame: self.frames,
            elapsed_millis: millis,
            slot: self.slots.len(),
        });
        self.slots.push(ReplaySlot::Event(Packet::Keyframe {
            metadata: KeyframeMetadata {
                input: self.input.clone(),
                speed: self.speed,
                elapsed_frames: self.frames,
                elapsed_millis: millis,
                counters: self.counters.clone(),
            },
            state,
        }));
    }

    fn event(&mut self, packet: Packet) {
        self.slots.push(ReplaySlot::Event(packet));
    }

    /// Take down what the core has to say.
    fn listen(&mut self, core: &mut Core) {
        for effect in core.take_effects() {
            match effect {
                Effect::RecordFrame { millis } => {
                    if millis < self.millis {
                        self.errors.push(format!("{} after {}", millis, self.millis));
                        continue;
                    }
                    let timestamp_delta = millis - self.millis;
                    self.millis = millis;
                    self.frames += 1;
                    self.event(Packet::NextFrame { timestamp_delta });
                }
                Effect::RecordInput { data } => {
                    self.input = data.clone();
                    self.event(Packet::ChangeInput { data });
                }
                Effect::RecordWrite { address, data } => {
                    self.event(Packet::WriteMemory { address, data })
                }
                Effect::RecordSpeed { speed } => {
                    self.speed = speed;
                    self.event(Packet::ChangeSpeed { speed });
                }
                Effect::RecordReset => self.event(Packet::ResetConsole),
                Effect::RecordState { state } => self.event(Packet::LoadSaveState { state }),
                Effect::RecordCounter { name, delta } => {
                    self.event(Packet::IncrementCounter { name, delta })
                }
                Effect::RecordSerialIn { data } => self.event(Packet::SerialIn { data }),
                Effect::RecordKeyframe { state, millis, .. } => self.keyframe(state, millis),
                Effect::RecordClose => self.closed = true,
                _ => {}
            }
        }
    }

    fn player(&self) -> ReplayFilePlayer {
        ReplayFilePlayer {
            metadata: self.start.metadata.clone(),
            slots: self.slots.clone(),
            keyframes: self.keyframes.clone(),
            total_frames: self.frames,
            total_milliseconds: self.millis,
            cursor: 0,
        }
    }
}

const PERIOD_MICROS: u64 = 16_667;

/// Advance the clock by exactly one frame period and run the one paced frame that unlocks.
fn run_one_frame(core: &mut Core, clock: &FakeClock) {
    let target = core.total_frames() + 1;
    while core.total_frames() < target {
        clock.advance(PERIOD_MICROS);
        core.run();
    }
}

fn paced_core(clock: &FakeClock) -> (Core, Rc<RefCell<Vec<u8>>>) {
    let fake = FakeCore::paced(clock.clone(), PERIOD_MICROS);
    let log = fake.frame_inputs.clone();
    (SuperShuckieCore::new(fake, clock.clone()), log)
}

fn holding_a(a: bool) -> Input {
    Input { a, ..Input::new() }
}

// ---------------------------------------------------------------------------------------------
// Recording.

#[test]
fn paused_save_state_and_bookmark_do_not_break_monotone_timestamps() {
    let clock = FakeClock::new();
    let (mut core, _) = paced_core(&clock);
    let mut tape = Tape::record(&mut core, 1000);

    for _ in 0..10 {
        run_one_frame(&mut core, &clock);
    }
    assert_eq!(core.total_frames(), 10);

    core.pause_timer();
    clock.advance(5_000_000);
    core.finish_current_frame();
    let _ = core.create_save_state();
    core.bookmark_anchor(true).expect("keyframe anchor while paused");
    core.unpause_timer();

    for _ in 0..10 {
        run_one_frame(&mut core, &clock);
    }
    assert_eq!(core.total_frames(), 20);

    assert!(core.stop_recording_replay());
    tape.listen(&mut core);
    assert!(tape.errors.is_empty(), "the recording hit an error");
    assert!(tape.closed);

    let mut player = tape.player();
    assert_eq!(player.get_total_frames(), 20);

    let mut elapsed = 0u64;
    let mut frame_count = 0u64;
    while let Some(packet) = player.next_packet().expect("read packet") {
        if let Packet::NextFrame { timestamp_delta } = packet {
            let next = elapsed + timestamp_delta;
            assert!(next >= elapsed, "NextFrame timestamps must be monotone non-decreasing");
            elapsed = next;
            frame_count += 1;
        }
    }
    assert_eq!(frame_count, 20);
}

#[test]
fn rapid_fire_toggles_once_per_emulated_frame_on_a_paced_core() {
    let clock = FakeClock::new();
    let (mut core, log) = paced_core(&clock);

    let rf = SuperShuckieRapidFire {
        input: holding_a(true),
        hold_length: 3,
        interval: 3,
        ..Default::default()
    };
    core.set_rapid_fire_input(Some(rf));

    for _ in 0..12 {
        run_one_frame(&mut core, &clock);
    }

    let seen = log.borrow().clone();
    let expected: Vec<u8> = (0..12u8).map(|i| u8::from((i % 6) < 3)).collect();
    assert_eq!(seen, expected, "rapid fire should hold for 3 frames then release for 3, repeating");
}

#[test]
fn recording_writes_one_change_input_per_emulated_frame_on_a_paced_core() {
    const FRAMES: u64 = 20;
    const POLLS_PER_FRAME: u64 = 50;

    let clock = FakeClock::new();
    let (mut core, log) = paced_core(&clock);
    let mut tape = Tape::record(&mut core, 1000);

    for frame in 0..FRAMES {
        for poll in 0..POLLS_PER_FRAME {
            if poll == POLLS_PER_FRAME / 2 {
                core.enqueue_input(holding_a(frame % 2 == 0));
            }
            core.run();
            assert_eq!(core.last_run_time().frames, 0);
        }
        run_one_frame(&mut core, &clock);
    }
    assert_eq!(core.total_frames(), FRAMES);

    let seen = log.borrow().clone();
    let expected: Vec<u8> = (0..FRAMES).map(|frame| u8::from(frame % 2 == 0)).collect();
    assert_eq!(seen, expected, "an input enqueued between frames should apply to the next frame");

    assert!(core.stop_recording_replay());
    tape.listen(&mut core);
    assert!(tape.errors.is_empty(), "the recording hit an error");

    let mut player = tape.player();
    assert_eq!(player.get_total_frames(), FRAMES);

    let mut change_inputs = 0u64;
    let mut next_frames = 0u64;
    while let Some(packet) = player.next_packet().expect("read packet") {
        match packet {
            Packet::ChangeInput { .. } => change_inputs += 1,
            Packet::NextFrame { .. } => next_frames += 1,
            _ => {}
        }
    }
    assert_eq!(next_frames, FRAMES);
    assert!(
        change_inputs <= 2 * FRAMES,
        "{} ChangeInput packets for {} frames",
        change_inputs,
        FRAMES
    );
}

#[test]
fn finish_current_frame_reaches_the_frame_boundary_on_a_sliced_core() {
    let mut core = SuperShuckieCore::new(FakeCore::sliced(2), FakeClock::new());

    core.run_unlocked();
    assert!(core.is_mid_frame());
    assert_eq!(core.total_frames(), 0);

    core.finish_current_frame();

    assert!(!core.is_mid_frame());
    assert_eq!(core.total_frames(), 1);
}

#[test]
fn start_recording_replay_on_a_null_core_is_rejected_without_side_effects() {
    let mut core = SuperShuckieCore::new(NullEmulatorCore::new(), FakeClock::new());

    let err = core
        .start_recording_replay("fake".to_owned(), "fake".to_owned())
        .expect_err("a null core cannot record replays");
    assert_eq!(err, "this core cannot record replays (no console type)");
    assert!(!core.stop_recording_replay(), "no recorder should have been installed");
}

#[test]
fn attach_replay_player_rejects_incompatible_console_without_touching_active_recording() {
    let clock = FakeClock::new();

    let mut source = SuperShuckieCore::new(FakeCore::sliced(0), clock.clone());
    let mut gb_tape = Tape::record(&mut source, 1000);
    for _ in 0..5 {
        source.run_unlocked();
    }
    assert!(source.stop_recording_replay());
    gb_tape.listen(&mut source);

    let (mut core, _) = paced_core(&clock);
    let _gba_tape = Tape::record(&mut core, 1000);

    let err = core
        .attach_replay_player(gb_tape.player(), false)
        .expect_err("console types differ, attach must fail");
    assert!(matches!(err, ReplayPlayerAttachError::Incompatible { .. }));

    // The live recording must still be active and closeable.
    assert!(core.stop_recording_replay());
}

#[test]
fn go_to_replay_frame_into_a_corrupted_blob_returns_an_error_without_panicking() {
    let clock = FakeClock::new();
    let (mut recorder, _) = paced_core(&clock);
    let mut tape = Tape::record(&mut recorder, 3);

    for _ in 0..12 {
        run_one_frame(&mut recorder, &clock);
        tape.listen(&mut recorder);
    }
    assert!(recorder.stop_recording_replay());

    // Nothing from the second keyframe on can be read.
    let mut corrupted_player = tape.player();
    assert!(corrupted_player.keyframes.len() > 1);
    let from = corrupted_player.keyframes[1].slot;
    for slot in &mut corrupted_player.slots[from..] {
        *slot = ReplaySlot::Unreadable("can't decompress".to_owned());
    }

    let (mut playback, _) = paced_core(&clock);
    assert!(
        playback.attach_replay_player(corrupted_player, true).is_ok(),
        "attach should succeed: only a later part is corrupted"
    );

    let result = playback.go_to_replay_frame(8);
    assert!(result.is_err(), "seeking into the corrupted part should return an error");
    assert!(
        playback.is_replay_stalled(),
        "the core should be marked stalled after the failed seek"
    );
}

#[test]
fn a_seek_past_the_end_shows_the_last_frame() {
    let clock = FakeClock::new();
    let (mut recorder, _) = paced_core(&clock);
    let mut tape = Tape::record(&mut recorder, 4);
    for _ in 0..8 {
        run_one_frame(&mut recorder, &clock);
        tape.listen(&mut recorder);
    }
    assert!(recorder.stop_recording_replay());
    tape.listen(&mut recorder);
    let player = tape.player();
    assert_eq!(player.keyframes.last().map(|k| k.frame), Some(8), "a keyframe ends the replay");

    let (mut core, _) = paced_core(&clock);
    assert!(core.attach_replay_player(player, true).is_ok());
    let runs = core.run_serial();
    core.go_to_replay_frame(1000).expect("seek");
    assert_eq!(core.total_frames(), 8);
    assert!(core.last_frame_presented(), "the last frame was run and drawn");
    assert_eq!(core.run_serial() - runs, 4, "from the keyframe at 4");
}

#[test]
fn a_keyframe_of_no_replay_stalls() {
    let clock = FakeClock::new();
    let (mut core, _) = paced_core(&clock);
    assert_eq!(core.go_to_replay_keyframe(5), Err("no replay is attached".to_owned()));
    assert!(core.is_replay_stalled());
    assert_eq!(core.total_frames(), 0);
}

// ---------------------------------------------------------------------------------------------
// Export.

#[derive(Default)]
struct CountingSink {
    frames: u64,
    progress_calls: Vec<(u64, u64)>,
    cancel_after: Option<u64>,
    fail_after: Option<u64>,
    refuses: bool,
    finished: bool,
    aborted: bool,
}

impl VideoFrameSink for CountingSink {
    fn begin(
        &mut self,
        _width: u32,
        _height: u32,
        _fps_num: u32,
        _fps_den: u32,
    ) -> Result<(), VideoExportError> {
        if self.refuses {
            return Err(VideoExportError::Sink { explanation: "no encoder".to_owned() });
        }
        Ok(())
    }

    fn is_cancelled(&mut self) -> bool {
        self.cancel_after.map_or(false, |n| self.frames >= n)
    }

    fn push_frame(&mut self, _argb: &Vec<u32>) -> Result<(), VideoExportError> {
        if self.fail_after.map_or(false, |n| self.frames >= n) {
            return Err(VideoExportError::Sink { explanation: "disk full".to_owned() });
        }
        self.frames += 1;
        Ok(())
    }

    fn progress(&mut self, done: u64, total: u64) {
        self.progress_calls.push((done, total));
    }

    fn finish(&mut self) -> Result<(), VideoExportError> {
        self.finished = true;
        Ok(())
    }

    fn abort(&mut self) {
        self.aborted = true;
    }
}

#[test]
fn export_frames_from_zero_emits_exactly_span_pictures() {
    let (tape, _) = record_alternating_replay(10);
    let player = tape.player();
    assert_eq!(player.get_total_frames(), 10);

    let clock = FakeClock::new();
    let (mut playback, _) = paced_core(&clock);
    assert!(playback.attach_replay_player(player, true).is_ok());

    let mut sink = CountingSink::default();
    let range = ExportRange { start_frame: 0, end_frame: None };
    let result = playback.export_frames(range, ScreenLayout::default(), &mut sink);

    assert!(result.is_ok(), "export should succeed");
    assert_eq!(sink.frames, 10, "expected exactly `span` pushed frames");
    assert_eq!(
        sink.progress_calls.last().copied(),
        Some((10, 10)),
        "the last progress callback should report (span, span)"
    );
    assert!(sink.finished);
}

#[test]
fn export_stops_when_cancelled_and_when_the_sink_fails() {
    let (tape, _) = record_alternating_replay(10);
    let range = ExportRange { start_frame: 0, end_frame: None };

    let (mut core, _, _) = playback_core(&tape);
    let mut sink = CountingSink { cancel_after: Some(3), ..Default::default() };
    let result = core.export_frames(range, ScreenLayout::default(), &mut sink);
    assert!(matches!(result, Err(VideoExportError::Cancelled)));
    assert!(sink.aborted && !sink.finished);

    let (mut core, _, _) = playback_core(&tape);
    let mut sink = CountingSink { fail_after: Some(2), ..Default::default() };
    let result = core.export_frames(range, ScreenLayout::default(), &mut sink);
    assert!(matches!(result, Err(VideoExportError::Sink { .. })));
    assert!(sink.aborted && !sink.finished);

    let clock = FakeClock::new();
    let (mut core, _) = paced_core(&clock);
    let result = core.export_frames(range, ScreenLayout::default(), &mut CountingSink::default());
    assert!(matches!(result, Err(VideoExportError::NoReplayAttached)));
}

#[test]
fn an_empty_export_is_finished_and_a_refused_one_is_aborted() {
    let (tape, _) = record_alternating_replay(10);
    let range = ExportRange { start_frame: 4, end_frame: Some(4) };

    let (mut core, _, _) = playback_core(&tape);
    let mut sink = CountingSink::default();
    assert!(core.export_frames(range, ScreenLayout::default(), &mut sink).is_ok());
    assert_eq!(sink.frames, 0);
    assert_eq!(sink.progress_calls, vec![(0, 0)]);
    assert!(sink.finished && !sink.aborted);

    let (mut core, _, _) = playback_core(&tape);
    let mut sink = CountingSink { refuses: true, ..Default::default() };
    let result = core.export_frames(range, ScreenLayout::default(), &mut sink);
    assert!(matches!(result, Err(VideoExportError::Sink { .. })));
    assert!(sink.aborted && !sink.finished);
}

// ---------------------------------------------------------------------------------------------
// Playback.

#[test]
fn playback_consumes_one_replay_frame_per_emulated_frame_on_a_paced_core() {
    const FRAMES: u64 = 24;
    let (tape, recorded) = record_alternating_replay(FRAMES);
    let (mut core, clock, played_log) = playback_core(&tape);

    while core.total_frames() < FRAMES {
        let before = core.total_frames();
        for _ in 0..4 {
            core.run(); // not yet due: a pacing miss
        }
        assert_eq!(core.total_frames(), before, "a pacing miss must not emulate a frame");
        assert!(!core.is_replay_stalled(), "playback stalled early at frame {}", before);
        run_one_frame(&mut core, &clock);
    }

    let played = played_log.borrow().clone();
    assert_eq!(
        played, recorded,
        "every frame must be emulated with the input that was recorded for it"
    );
}

/// Record `frames` frames on a fresh paced core, holding A for two frames then releasing for two,
/// and so on. Returns the replay and the input byte of every recorded frame.
fn record_alternating_replay(frames: u64) -> (Tape, Vec<u8>) {
    let clock = FakeClock::new();
    let (mut core, recorded_log) = paced_core(&clock);
    let mut tape = Tape::record(&mut core, 1000);
    for i in 0..frames {
        core.enqueue_input(holding_a((i / 2) % 2 == 0));
        run_one_frame(&mut core, &clock);
    }
    assert!(core.stop_recording_replay());
    tape.listen(&mut core);
    let recorded = recorded_log.borrow().clone();
    assert_eq!(recorded.len() as u64, frames);
    (tape, recorded)
}

/// A fresh paced core with `tape` attached for playback, plus its clock and input log.
fn playback_core(tape: &Tape) -> (Core, FakeClock, Rc<RefCell<Vec<u8>>>) {
    let clock = FakeClock::new();
    let (mut core, played_log) = paced_core(&clock);
    assert!(core.attach_replay_player(tape.player(), true).is_ok());
    (core, clock, played_log)
}

#[test]
fn stopped_replay_runs_the_users_input_and_resumes_where_it_stopped() {
    const FRAMES: u64 = 24;
    const STOP_AT: u64 = 8;
    const LIVE_FRAMES: u64 = 5;

    let (tape, recorded) = record_alternating_replay(FRAMES);
    let (mut core, clock, played_log) = playback_core(&tape);

    while core.total_frames() < STOP_AT {
        run_one_frame(&mut core, &clock);
    }
    assert!(core.is_playing_back());
    assert!(!core.is_replay_playback_stopped());

    assert!(core.stop_replay_playback());
    assert!(!core.stop_replay_playback(), "stopping twice must be a no-op");
    assert!(!core.is_playing_back(), "a stopped replay is not driving the emulator");
    assert!(core.has_replay_attached(), "...but it is still attached");
    assert!(core.is_replay_playback_stopped());
    assert_eq!(core.replay_position().0, STOP_AT);
    let stopped_millis = core.get_recording_milliseconds();

    core.enqueue_input(holding_a(true));
    for _ in 0..LIVE_FRAMES {
        run_one_frame(&mut core, &clock);
    }
    assert_eq!(
        core.total_frames(),
        STOP_AT + LIVE_FRAMES,
        "the live frame counter keeps counting"
    );
    assert_eq!(core.replay_position().0, STOP_AT, "...but the resume point stays put");
    assert!(!core.is_replay_stalled());
    {
        let played = played_log.borrow();
        assert!(played[STOP_AT as usize..].iter().all(|&a| a == 1));
    }
    let live_millis = core.get_recording_milliseconds();
    assert!(
        live_millis >= stopped_millis + LIVE_FRAMES * (PERIOD_MICROS / 1000),
        "the timer runs on from the replay's time while stopped ({} -> {})",
        stopped_millis,
        live_millis
    );

    core.resume_replay_playback().expect("resume");
    assert!(core.is_playing_back());
    assert!(!core.is_replay_playback_stopped());
    assert_eq!(
        core.total_frames(),
        STOP_AT,
        "resuming puts the emulator back at the resume point"
    );

    // The user still "holds" A, which playback must ignore from here on.
    played_log.borrow_mut().truncate(STOP_AT as usize);
    while core.total_frames() < FRAMES {
        run_one_frame(&mut core, &clock);
    }
    let played = played_log.borrow().clone();
    assert_eq!(played, recorded, "after resuming, the recording plays on from the resume point");
}

#[test]
fn seeking_a_stopped_replay_moves_the_resume_point_and_keeps_the_user_in_control() {
    const FRAMES: u64 = 24;
    const SEEK_TO: u64 = 12;

    let (tape, recorded) = record_alternating_replay(FRAMES);
    let (mut core, clock, played_log) = playback_core(&tape);

    while core.total_frames() < 4 {
        run_one_frame(&mut core, &clock);
    }
    assert!(core.stop_replay_playback());
    core.enqueue_input(holding_a(true));
    run_one_frame(&mut core, &clock);

    core.go_to_replay_frame(SEEK_TO).expect("seek");
    assert!(core.is_replay_playback_stopped(), "a seek does not resume playback");
    assert!(!core.is_playing_back());
    assert_eq!(core.total_frames(), SEEK_TO);
    assert_eq!(core.replay_position().0, SEEK_TO, "the seek target is the new resume point");

    let before = played_log.borrow().len();
    for _ in 0..4 {
        run_one_frame(&mut core, &clock);
    }
    {
        let played = played_log.borrow();
        assert!(played[before..].iter().all(|&a| a == 1));
    }
    assert_eq!(core.replay_position().0, SEEK_TO);

    core.resume_replay_playback().expect("resume");
    assert_eq!(core.total_frames(), SEEK_TO);
    let before = played_log.borrow().len();
    for _ in SEEK_TO..FRAMES {
        run_one_frame(&mut core, &clock);
    }
    let played = played_log.borrow().clone();
    assert_eq!(
        &played[before..],
        &recorded[SEEK_TO as usize..],
        "playback resumes from the seek target"
    );
}

#[test]
fn jumping_to_the_resume_point_rewinds_live_play_without_resuming_playback() {
    const FRAMES: u64 = 24;
    const STOP_AT: u64 = 8;
    const SEEK_TO: u64 = 14;

    let (tape, recorded) = record_alternating_replay(FRAMES);
    let (mut core, clock, played_log) = playback_core(&tape);

    while core.total_frames() < STOP_AT {
        run_one_frame(&mut core, &clock);
    }
    core.go_to_replay_resume_point().expect("a no-op while playing back");
    assert!(core.is_playing_back());
    assert_eq!(core.total_frames(), STOP_AT);

    assert!(core.stop_replay_playback());
    core.enqueue_input(holding_a(true));
    for _ in 0..6 {
        run_one_frame(&mut core, &clock);
    }
    assert_eq!(core.total_frames(), STOP_AT + 6);

    core.go_to_replay_resume_point().expect("jump");
    assert!(core.is_replay_playback_stopped(), "jumping back does not resume playback");
    assert!(!core.is_playing_back());
    assert_eq!(core.total_frames(), STOP_AT, "the emulator is back at the resume point");
    assert_eq!(core.replay_position().0, STOP_AT, "...which stays the resume point");

    let before = played_log.borrow().len();
    for _ in 0..3 {
        run_one_frame(&mut core, &clock);
    }
    {
        let played = played_log.borrow();
        assert!(played[before..].iter().all(|&a| a == 1));
    }

    core.go_to_replay_frame(SEEK_TO).expect("seek");
    run_one_frame(&mut core, &clock);
    run_one_frame(&mut core, &clock);
    core.go_to_replay_resume_point().expect("jump after a seek");
    assert_eq!(core.total_frames(), SEEK_TO);
    assert_eq!(core.replay_position().0, SEEK_TO);
    assert!(core.is_replay_playback_stopped());

    core.resume_replay_playback().expect("resume");
    let before = played_log.borrow().len();
    for _ in SEEK_TO..FRAMES {
        run_one_frame(&mut core, &clock);
    }
    let played = played_log.borrow().clone();
    assert_eq!(&played[before..], &recorded[SEEK_TO as usize..]);
}

#[test]
fn stopped_replay_allows_reset_and_save_states_and_detach_clears_it() {
    let (tape, _) = record_alternating_replay(8);
    let (mut core, clock, _) = playback_core(&tape);
    run_one_frame(&mut core, &clock);

    // Playing back: refused.
    let state = core.create_save_state();
    core.hard_reset();
    assert_eq!(core.create_save_state(), state, "a reset is ignored during playback");
    assert!(!core.enqueue_write(0, vec![1u8]), "writes are dropped during playback");

    assert!(core.stop_replay_playback());
    core.hard_reset();
    assert_eq!(
        core.create_save_state(),
        0u32.to_le_bytes().to_vec(),
        "a reset works while stopped"
    );
    core.load_save_state(&state);
    assert_eq!(core.create_save_state(), state, "loading a save state works while stopped");
    assert!(core.enqueue_write(0, vec![1u8]), "writes are accepted while stopped");

    core.detach_replay_player();
    assert!(!core.has_replay_attached());
    assert!(!core.is_replay_playback_stopped());
    assert!(!core.is_playing_back());
    assert_eq!(core.replay_position(), (0, 0));
}
