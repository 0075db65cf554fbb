//! What a console core does for the rest of the library.

use super::input::Input;
use super::link;
use super::link::LinkError;
use super::memory::ConsoleMemory;
use crate::replay::packet::Speed;
use crate::replay::player::ReplayConsoleType;
use vstd::prelude::*;

verus! {

/// Sample rate, in Hz, at which every core delivers audio through [`EmulatorCore::take_audio`].
pub const AUDIO_SAMPLE_RATE: u32 = 48_000;

/// Amount of time passed when running the emulator core.
#[derive(Copy, Clone, Debug, PartialEq, Eq, Structural)]
pub struct RunTime {
    /// Frames passed.
    pub frames: u64,
    /// Whether the screens were updated.
    pub presented: bool,
}

impl RunTime {
    /// Nothing ran.
    pub fn none() -> (r: Self)
        ensures
            r == no_time(),
    {
        RunTime { frames: 0, presented: false }
    }

    /// One frame ran and was drawn.
    pub fn one_frame() -> (r: Self)
        ensures
            r == (RunTime { frames: 1, presented: true }),
    {
        RunTime { frames: 1, presented: true }
    }
}

/// No time at all.
pub open spec fn no_time() -> RunTime {
    RunTime { frames: 0, presented: false }
}

/// Describes the color encoding.
#[derive(Copy, Clone, Debug, PartialEq, Eq, Structural)]
pub enum ScreenDataEncoding {
    /// 0xAARRGGBB
    A8R8G8B8,
}

/// One screen's picture.
#[derive(Clone, Debug)]
pub struct ScreenData {
    /// Pixels, encoded.
    pub pixels: Vec<u32>,
    /// Width in pixels. Not allowed to change.
    pub width: usize,
    /// Height in pixels. Not allowed to change.
    pub height: usize,
    /// Encoding to use. Not allowed to change.
    pub encoding: ScreenDataEncoding,
}

impl Default for ScreenData {
    fn default() -> (r: Self)
        ensures
            r.pixels@.len() == 0,
            r.width == 0,
            r.height == 0,
            r.encoding == ScreenDataEncoding::A8R8G8B8,
    {
        ScreenData {
            pixels: Vec::new(),
            width: 0,
            height: 0,
            encoding: ScreenDataEncoding::A8R8G8B8,
        }
    }
}

/// What never changes about a core.
pub ghost struct Identity {
    pub console: Option<ReplayConsoleType>,
    pub rom_checksum: [u8; 32],
    pub bios_checksum: [u8; 32],
    pub name: Seq<char>,
    pub frame_rate: (u32, u32),
    pub has_link_port: bool,
    /// Whether there is no console at all.
    pub null: bool,
}

/// Something asked of a core, and the answer.
pub ghost enum CoreCall {
    Run { time: RunTime },
    RunUnlocked { time: RunTime },
    WriteRam { address: u32, data: Seq<u8>, written: bool },
    SetSpeed { speed: Speed },
    SetSkipDrawing { skip: bool },
    SetAudioEnabled { enabled: bool },
    TakeAudio { samples: Seq<i16> },
    LoadSaveState { state: Seq<u8>, error: Option<Seq<char>> },
    SetInput { data: Seq<u8> },
    HardReset,
    Connect { first: bool, error: Option<link::ErrorModel> },
    Disconnect,
    StepLinked { paced: bool, outcome: Result<RunTime, link::ErrorModel> },
    SteppedBeside,
    TakeSerialIn { data: Seq<u8> },
    QueueSerialIn { data: Seq<u8>, error: Option<link::ErrorModel> },
}

/// Why something failed, if it did.
pub open spec fn refusal(r: Result<(), String>) -> Option<Seq<char>> {
    match r {
        Ok(_) => None,
        Err(e) => Some(e@),
    }
}

/// Why something about the link failed, if it did.
pub open spec fn link_refusal(r: Result<(), LinkError>) -> Option<link::ErrorModel> {
    match r {
        Ok(_) => None,
        Err(e) => Some(e@),
    }
}

/// A console core.
///
/// The link port is part of it: a core whose identity has none answers link calls with
/// [`LinkError::NotConnected`] or not at all.
pub trait EmulatorCore: ConsoleMemory + Sized {
    /// What never changes about the core.
    closed spec fn identity(&self) -> Identity {
        arbitrary()
    }

    /// Everything asked of the core so far, with the answers.
    closed spec fn log(&self) -> Seq<CoreCall> {
        arbitrary()
    }

    /// Whether the last run stopped inside a frame.
    closed spec fn mid_frame(&self) -> bool {
        arbitrary()
    }

    /// The state [`create_save_state`](Self::create_save_state) gives.
    closed spec fn state(&self) -> Seq<u8> {
        arbitrary()
    }

    /// The input as the console encodes it.
    closed spec fn encoded(&self, input: Input) -> Seq<u8> {
        arbitrary()
    }

    /// The bytes at an address under the core's own address decoding.
    closed spec fn decoded_ram(&self, address: u32, len: nat) -> Option<Seq<u8>> {
        arbitrary()
    }

    /// The pictures on the screens.
    closed spec fn pictures(&self) -> Seq<ScreenData> {
        arbitrary()
    }

    /// Emulated time since the cable was plugged in.
    closed spec fn linked_for(&self) -> u64 {
        arbitrary()
    }

    /// Whether the console waits for its partner.
    closed spec fn asleep(&self) -> bool {
        arbitrary()
    }

    /// The hash of the work RAM, if the console has one that can be compared.
    closed spec fn work_ram_hash(&self) -> Option<[u8; 32]> {
        arbitrary()
    }

    /// Run the smallest amount of time.
    fn run(&mut self) -> (r: RunTime)
        ensures
            final(self).log() == old(self).log().push(CoreCall::Run { time: r }),
            final(self).identity() == old(self).identity(),
            final(self).image().regions == old(self).image().regions,
    ;

    /// Run the smallest amount of time without any timing.
    fn run_unlocked(&mut self) -> (r: RunTime)
        ensures
            final(self).log() == old(self).log().push(CoreCall::RunUnlocked { time: r }),
            final(self).identity() == old(self).identity(),
            final(self).image().regions == old(self).image().regions,
    ;

    /// Read RAM at the given address, as many bytes as `into` holds. How `address` is interpreted
    /// is core-specific. Nothing is read on an error.
    fn read_ram(&self, address: u32, into: &mut Vec<u8>) -> (r: Result<(), &'static str>)
        ensures
            match self.decoded_ram(address, old(into)@.len()) {
                Some(bytes) => r is Ok && final(into)@ == bytes,
                None => r is Err && final(into)@ == old(into)@,
            },
    ;

    /// Write RAM at the given address. How `address` is interpreted is core-specific.
    fn write_ram(&mut self, address: u32, from: &[u8]) -> (r: Result<(), &'static str>)
        ensures
            final(self).log() == old(self).log().push(
                CoreCall::WriteRam { address, data: from@, written: r is Ok },
            ),
            final(self).identity() == old(self).identity(),
            final(self).image().regions == old(self).image().regions,
            final(self).mid_frame() == old(self).mid_frame(),
    ;

    /// Set the game speed.
    fn set_speed(&mut self, speed: Speed)
        ensures
            final(self).log() == old(self).log().push(CoreCall::SetSpeed { speed }),
            final(self).identity() == old(self).identity(),
            final(self).image().regions == old(self).image().regions,
            final(self).mid_frame() == old(self).mid_frame(),
    ;

    /// The battery-backed memory.
    closed spec fn sram(&self) -> Seq<u8> {
        arbitrary()
    }

    /// The battery-backed memory.
    fn save_sram(&self) -> (r: Vec<u8>)
        ensures
            r@ == self.sram(),
    ;

    /// Create a save state.
    fn create_save_state(&self) -> (r: Vec<u8>)
        ensures
            r@ == self.state(),
    ;

    /// Presentation hint: frames run from now on need not be drawn. Emulation is unaffected.
    fn set_skip_drawing(&mut self, skip: bool)
        ensures
            final(self).log() == old(self).log().push(CoreCall::SetSkipDrawing { skip }),
            final(self).identity() == old(self).identity(),
            final(self).image().regions == old(self).image().regions,
            final(self).mid_frame() == old(self).mid_frame(),
            final(self).state() == old(self).state(),
            final(self).image() == old(self).image(),
    ;

    /// Turn audio generation on or off. Emulation is unaffected.
    fn set_audio_enabled(&mut self, enabled: bool)
        ensures
            final(self).log() == old(self).log().push(CoreCall::SetAudioEnabled { enabled }),
            final(self).identity() == old(self).identity(),
            final(self).image().regions == old(self).image().regions,
            final(self).mid_frame() == old(self).mid_frame(),
            final(self).state() == old(self).state(),
            final(self).image() == old(self).image(),
    ;

    /// Every interleaved stereo sample produced since the previous call. Emulation is unaffected.
    fn take_audio(&mut self) -> (r: Vec<i16>)
        ensures
            final(self).log() == old(self).log().push(CoreCall::TakeAudio { samples: r@ }),
            final(self).identity() == old(self).identity(),
            final(self).image().regions == old(self).image().regions,
            final(self).mid_frame() == old(self).mid_frame(),
            final(self).state() == old(self).state(),
            final(self).image() == old(self).image(),
            final(self).pictures() == old(self).pictures(),
    ;

    /// Load a save state.
    fn load_save_state(&mut self, state: &[u8]) -> (r: Result<(), String>)
        ensures
            final(self).log() == old(self).log().push(
                CoreCall::LoadSaveState { state: state@, error: refusal(r) },
            ),
            final(self).identity() == old(self).identity(),
            final(self).image().regions == old(self).image().regions,
    ;

    /// The input as the console encodes it.
    fn encode_input(&self, input: Input) -> (r: Vec<u8>)
        ensures
            r@ == self.encoded(input),
    ;

    /// Set the current input, as [`encode_input`](Self::encode_input) encoded it.
    fn set_input_encoded(&mut self, input: &[u8])
        ensures
            final(self).log() == old(self).log().push(CoreCall::SetInput { data: input@ }),
            final(self).identity() == old(self).identity(),
            final(self).image().regions == old(self).image().regions,
            final(self).mid_frame() == old(self).mid_frame(),
    ;

    /// The screens.
    fn get_screens(&self) -> (r: &[ScreenData])
        ensures
            r@ == self.pictures(),
    ;

    /// The parts of a state that are regenerated output buffers, as `[start, end)`.
    closed spec fn regenerated(&self, state: Seq<u8>) -> Seq<(usize, usize)> {
        arbitrary()
    }

    /// The parts of a state that are regenerated output buffers (3D geometry, mixed sound) rather
    /// than the console's own, as `[start, end)`.
    fn transient_ranges(&self, state: &[u8]) -> (r: Vec<(usize, usize)>)
        ensures
            r@ == self.regenerated(state@),
            forall|i: int|
                0 <= i < r@.len() ==> (#[trigger] r@[i]).0 <= r@[i].1 <= state@.len(),
    ;

    /// Hard reset the console: as if turned off and on.
    fn hard_reset(&mut self)
        ensures
            final(self).log() == old(self).log().push(CoreCall::HardReset),
            final(self).identity() == old(self).identity(),
            final(self).image().regions == old(self).image().regions,
    ;

    /// The console sessions are recorded as on this core, if they can be.
    fn replay_console_type(&self) -> (r: Option<ReplayConsoleType>)
        ensures
            r == self.identity().console,
    ;

    /// The checksum of the running ROM.
    fn rom_checksum(&self) -> (r: [u8; 32])
        ensures
            r == self.identity().rom_checksum,
    ;

    /// The checksum of the running BIOS.
    fn bios_checksum(&self) -> (r: [u8; 32])
        ensures
            r == self.identity().bios_checksum,
    ;

    /// The core's name.
    fn core_name(&self) -> (r: &'static str)
        ensures
            r@ == self.identity().name,
    ;

    /// Native video refresh rate as `(numerator, denominator)` frames per second.
    fn frame_rate(&self) -> (r: (u32, u32))
        ensures
            r == self.identity().frame_rate,
    ;

    /// Whether the core is a null core.
    fn is_null(&self) -> (r: bool)
        ensures
            r == self.identity().null,
    ;

    /// Whether the last run stopped inside a frame (a partial step, not a pacing wait).
    fn is_mid_frame(&self) -> (r: bool)
        ensures
            r == self.mid_frame(),
    ;

    /// Whether the console can be linked to another of its family.
    fn has_link_port(&self) -> (r: bool)
        ensures
            r == self.identity().has_link_port,
    ;

    /// Plug the cable in.
    fn connect(&mut self, first: bool) -> (r: Result<(), LinkError>)
        ensures
            final(self).log() == old(self).log().push(
                CoreCall::Connect { first, error: link_refusal(r) },
            ),
            final(self).identity() == old(self).identity(),
            final(self).image().regions == old(self).image().regions,
            final(self).mid_frame() == old(self).mid_frame(),
    ;

    /// Pull the cable.
    fn disconnect(&mut self)
        ensures
            final(self).log() == old(self).log().push(CoreCall::Disconnect),
            final(self).identity() == old(self).identity(),
            final(self).image().regions == old(self).image().regions,
            final(self).mid_frame() == old(self).mid_frame(),
    ;

    /// Run one step of this console with its serial hardware wired to `partner`, which is not run.
    fn step_linked(&mut self, partner: &mut Self, paced: bool) -> (r: Result<RunTime, LinkError>)
        ensures
            final(self).log() == old(self).log().push(
                CoreCall::StepLinked {
                    paced,
                    outcome: match r {
                        Ok(time) => Ok(time),
                        Err(e) => Err(e@),
                    },
                },
            ),
            final(self).identity() == old(self).identity(),
            final(self).image().regions == old(self).image().regions,
            final(partner).log() == old(partner).log().push(CoreCall::SteppedBeside),
            final(partner).identity() == old(partner).identity(),
            final(partner).image().regions == old(partner).image().regions,
            final(partner).mid_frame() == old(partner).mid_frame(),
    ;

    /// Emulated time since the cable was plugged in, in the console's own link unit.
    fn link_time(&self) -> (r: u64)
        ensures
            r == self.linked_for(),
    ;

    /// Whether the console is parked waiting for its partner and must not be stepped.
    fn is_asleep(&self) -> (r: bool)
        ensures
            r == self.asleep(),
    ;

    /// Everything received over the cable since the last call.
    fn take_serial_in(&mut self) -> (r: Vec<u8>)
        ensures
            final(self).log() == old(self).log().push(CoreCall::TakeSerialIn { data: r@ }),
            final(self).identity() == old(self).identity(),
            final(self).image().regions == old(self).image().regions,
            final(self).mid_frame() == old(self).mid_frame(),
            final(self).state() == old(self).state(),
    ;

    /// Queue recorded link traffic for the frame about to run.
    fn queue_serial_in(&mut self, data: &[u8]) -> (r: Result<(), LinkError>)
        ensures
            final(self).log() == old(self).log().push(
                CoreCall::QueueSerialIn { data: data@, error: link_refusal(r) },
            ),
            final(self).identity() == old(self).identity(),
            final(self).image().regions == old(self).image().regions,
            final(self).mid_frame() == old(self).mid_frame(),
    ;

    /// Recorded link traffic that could not be delivered where it was recorded.
    fn serial_replay_misses(&self) -> (r: u64)
        ensures
            r == self.missed_serial(),
    ;

    /// How much recorded link traffic could not be delivered where it was recorded.
    closed spec fn missed_serial(&self) -> u64 {
        arbitrary()
    }

    /// The hash of the work RAM, if the console has one that can be compared.
    fn sync_hash(&self) -> (r: Option<[u8; 32]>)
        ensures
            r == self.work_ram_hash(),
    ;

    /// One hash of the two consoles' of a pair.
    fn pair_hash(first: Option<[u8; 32]>, second: Option<[u8; 32]>) -> (r: [u8; 32])
        ensures
            r == Self::hash_of_pair(first, second),
    ;

    /// One hash of the two consoles' of a pair.
    closed spec fn hash_of_pair(first: Option<[u8; 32]>, second: Option<[u8; 32]>) -> [u8; 32] {
        arbitrary()
    }
}

} // verus!
