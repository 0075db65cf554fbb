//! A core without a console.

use super::console;
use super::console::{CoreCall, EmulatorCore, Identity, RunTime, ScreenData};
use super::input::Input;
use super::link::LinkError;
use super::memory::{ConsoleMemory, MemoryImage, MemoryRegionInfo};
use crate::replay::packet::Speed;
use crate::replay::player::ReplayConsoleType;
use vstd::prelude::*;

verus! {

/// A hash of zeros.
pub open spec fn blank_hash() -> [u8; 32] {
    choose|hash: [u8; 32]| #[trigger] hash@ == Seq::new(32, |i: int| 0u8)
}

fn blank() -> (r: [u8; 32])
    ensures
        r == blank_hash(),
        r@ == Seq::new(32, |i: int| 0u8),
{
    let r: [u8; 32] = [0u8;32];
    assert(r@ =~= Seq::new(32, |i: int| 0u8));
    assert(r =~= blank_hash());
    r
}

/// A core without a console: nothing ever runs, and there is no memory and no screen.
pub struct NullEmulatorCore {
    screens: Vec<ScreenData>,
    regions: Vec<MemoryRegionInfo>,
    asked: Ghost<Seq<CoreCall>>,
}

impl NullEmulatorCore {
    /// Whether there is nothing.
    pub closed spec fn empty(self) -> bool {
        self.screens@.len() == 0 && self.regions@.len() == 0
    }

    /// A core without a console.
    pub fn new() -> (r: Self)
        ensures
            r.empty(),
            r.log() == Seq::<CoreCall>::empty(),
            r.image().regions == Seq::<MemoryRegionInfo>::empty(),
            r.pictures() == Seq::<ScreenData>::empty(),
    {
        NullEmulatorCore { screens: Vec::new(), regions: Vec::new(), asked: Ghost(Seq::empty()) }
    }

    fn note(&mut self, call: Ghost<CoreCall>)
        ensures
            final(self).asked@ == old(self).asked@.push(call@),
            final(self).screens == old(self).screens,
            final(self).regions == old(self).regions,
    {
        proof {
            self.asked@ = self.asked@.push(call@);
        }
    }
}

impl ConsoleMemory for NullEmulatorCore {
    closed spec fn image(&self) -> MemoryImage {
        MemoryImage { regions: self.regions@, data: Seq::empty() }
    }

    fn memory_regions(&self) -> (r: &[MemoryRegionInfo]) {
        self.regions.as_slice()
    }

    fn memory_region_data(&self, index: usize) -> (r: Option<&[u8]>) {
        None
    }
}

impl EmulatorCore for NullEmulatorCore {
    open spec fn identity(&self) -> Identity {
        Identity {
            console: None,
            rom_checksum: blank_hash(),
            bios_checksum: blank_hash(),
            name: "null"@,
            frame_rate: (60, 1),
            has_link_port: false,
            null: true,
        }
    }

    closed spec fn log(&self) -> Seq<CoreCall> {
        self.asked@
    }

    open spec fn mid_frame(&self) -> bool {
        false
    }

    open spec fn state(&self) -> Seq<u8> {
        Seq::empty()
    }

    open spec fn encoded(&self, input: Input) -> Seq<u8> {
        Seq::empty()
    }

    open spec fn decoded_ram(&self, address: u32, len: nat) -> Option<Seq<u8>> {
        None
    }

    closed spec fn pictures(&self) -> Seq<ScreenData> {
        self.screens@
    }

    open spec fn linked_for(&self) -> u64 {
        0
    }

    open spec fn asleep(&self) -> bool {
        false
    }

    open spec fn work_ram_hash(&self) -> Option<[u8; 32]> {
        None
    }

    fn run(&mut self) -> (r: RunTime) {
        self.note(Ghost(CoreCall::Run { time: console::no_time() }));
        RunTime::none()
    }

    fn run_unlocked(&mut self) -> (r: RunTime) {
        self.note(Ghost(CoreCall::RunUnlocked { time: console::no_time() }));
        RunTime::none()
    }

    fn read_ram(&self, address: u32, into: &mut Vec<u8>) -> (r: Result<(), &'static str>) {
        Err("null core")
    }

    fn write_ram(&mut self, address: u32, from: &[u8]) -> (r: Result<(), &'static str>) {
        self.note(Ghost(CoreCall::WriteRam { address, data: from@, written: false }));
        Err("null core")
    }

    fn set_speed(&mut self, speed: Speed) {
        self.note(Ghost(CoreCall::SetSpeed { speed }));
    }

    open spec fn sram(&self) -> Seq<u8> {
        Seq::empty()
    }

    fn save_sram(&self) -> (r: Vec<u8>) {
        Vec::new()
    }

    fn create_save_state(&self) -> (r: Vec<u8>) {
        Vec::new()
    }

    fn set_skip_drawing(&mut self, skip: bool) {
        self.note(Ghost(CoreCall::SetSkipDrawing { skip }));
    }

    fn set_audio_enabled(&mut self, enabled: bool) {
        self.note(Ghost(CoreCall::SetAudioEnabled { enabled }));
    }

    fn take_audio(&mut self) -> (r: Vec<i16>) {
        self.note(Ghost(CoreCall::TakeAudio { samples: Seq::empty() }));
        Vec::new()
    }

    fn load_save_state(&mut self, state: &[u8]) -> (r: Result<(), String>) {
        self.note(Ghost(CoreCall::LoadSaveState { state: state@, error: None }));
        Ok(())
    }

    fn encode_input(&self, input: Input) -> (r: Vec<u8>) {
        Vec::new()
    }

    fn set_input_encoded(&mut self, input: &[u8]) {
        self.note(Ghost(CoreCall::SetInput { data: input@ }));
    }

    fn get_screens(&self) -> (r: &[ScreenData]) {
        self.screens.as_slice()
    }

    open spec fn regenerated(&self, state: Seq<u8>) -> Seq<(usize, usize)> {
        Seq::empty()
    }

    fn transient_ranges(&self, state: &[u8]) -> (r: Vec<(usize, usize)>) {
        Vec::new()
    }

    fn hard_reset(&mut self) {
        self.note(Ghost(CoreCall::HardReset));
    }

    fn replay_console_type(&self) -> (r: Option<ReplayConsoleType>) {
        None
    }

    fn rom_checksum(&self) -> (r: [u8; 32]) {
        blank()
    }

    fn bios_checksum(&self) -> (r: [u8; 32]) {
        blank()
    }

    fn core_name(&self) -> (r: &'static str) {
        "null"
    }

    fn frame_rate(&self) -> (r: (u32, u32)) {
        (60, 1)
    }

    fn is_null(&self) -> (r: bool) {
        true
    }

    fn is_mid_frame(&self) -> (r: bool) {
        false
    }

    fn has_link_port(&self) -> (r: bool) {
        false
    }

    fn connect(&mut self, first: bool) -> (r: Result<(), LinkError>) {
        self.note(
            Ghost(
                CoreCall::Connect {
                    first,
                    error: Some(super::link::ErrorModel::IncompatiblePartner),
                },
            ),
        );
        Err(LinkError::IncompatiblePartner)
    }

    fn disconnect(&mut self) {
        self.note(Ghost(CoreCall::Disconnect));
    }

    fn step_linked(&mut self, partner: &mut Self, paced: bool) -> (r: Result<RunTime, LinkError>) {
        self.note(
            Ghost(
                CoreCall::StepLinked {
                    paced,
                    outcome: Err(super::link::ErrorModel::NotConnected),
                },
            ),
        );
        partner.note(Ghost(CoreCall::SteppedBeside));
        Err(LinkError::NotConnected)
    }

    fn link_time(&self) -> (r: u64) {
        0
    }

    fn is_asleep(&self) -> (r: bool) {
        false
    }

    fn take_serial_in(&mut self) -> (r: Vec<u8>) {
        self.note(Ghost(CoreCall::TakeSerialIn { data: Seq::empty() }));
        Vec::new()
    }

    fn queue_serial_in(&mut self, data: &[u8]) -> (r: Result<(), LinkError>) {
        self.note(
            Ghost(
                CoreCall::QueueSerialIn {
                    data: data@,
                    error: Some(super::link::ErrorModel::NotConnected),
                },
            ),
        );
        Err(LinkError::NotConnected)
    }

    fn serial_replay_misses(&self) -> (r: u64) {
        0
    }

    open spec fn missed_serial(&self) -> u64 {
        0
    }

    fn sync_hash(&self) -> (r: Option<[u8; 32]>) {
        None
    }

    fn pair_hash(first: Option<[u8; 32]>, second: Option<[u8; 32]>) -> (r: [u8; 32]) {
        blank()
    }

    open spec fn hash_of_pair(first: Option<[u8; 32]>, second: Option<[u8; 32]>) -> [u8; 32] {
        blank_hash()
    }
}

} // verus!
