use supershuckie::emulator::memory::{
    locate_memory, read_ram_from_regions, ConsoleMemory, MemoryRegionInfo,
};
use supershuckie::memory_monitor::local::{MemoryMonitorLocal, MonitoredCore};
use supershuckie::memory_monitor::request::{
    MonitorRequest, Probe, TraceSpec, ViewWindow, MAX_FREEZE_BYTES, MAX_VIEW_BYTES,
    MAX_VIEW_WINDOWS,
};
use supershuckie::memory_monitor::shared::{
    MemoryEdit, MemoryMonitorShared, MonitorEvent, MonitorSample, WriteFailure,
};
use supershuckie::memory_monitor::values::{
    AddressPath, FreezeSpec, TraceCondition, ValueDecode,
};

const REGIONS: [MemoryRegionInfo; 3] = [
    MemoryRegionInfo {
        name: "RAM",
        short_name: "RAM",
        base_address: 0x1000,
        len: 0x100,
        default_big_endian: false,
        writable: true,
    },
    MemoryRegionInfo {
        name: "IO",
        short_name: "IO",
        base_address: 0x2000,
        len: 0x10,
        default_big_endian: false,
        writable: false,
    },
    // Backed by fewer bytes than its length.
    MemoryRegionInfo {
        name: "SAVE",
        short_name: "SAVE",
        base_address: 0x3000,
        len: 0x40,
        default_big_endian: false,
        writable: true,
    },
];

struct FakeEmulator {
    ram: Vec<u8>,
    io: Vec<u8>,
    save: Vec<u8>,
}

impl FakeEmulator {
    fn read_ram(&self, address: u32, into: &mut Vec<u8>) -> Result<(), &'static str> {
        read_ram_from_regions(self, address, into)
    }

    fn write_ram(&mut self, address: u32, from: &[u8]) -> Result<(), &'static str> {
        let (index, offset) = locate_memory(&REGIONS, address, from.len()).ok_or("unmapped")?;
        let memory = match index {
            0 => &mut self.ram,
            1 => &mut self.io,
            _ => &mut self.save,
        };
        memory.get_mut(offset..offset + from.len()).ok_or("short")?.copy_from_slice(from);
        Ok(())
    }
}

impl ConsoleMemory for FakeEmulator {
    fn memory_regions(&self) -> &[MemoryRegionInfo] {
        &REGIONS
    }

    fn memory_region_data(&self, index: usize) -> Option<&[u8]> {
        match index {
            0 => Some(&self.ram),
            1 => Some(&self.io),
            2 => Some(&self.save),
            _ => None,
        }
    }
}

struct FakeCore {
    emulator: FakeEmulator,
    frame: u64,
    epoch: u64,
    playing_back: bool,
    mid_frame: bool,
    writes: Vec<(u32, Vec<u8>)>,
}

impl FakeCore {
    fn new() -> Self {
        Self {
            emulator: FakeEmulator { ram: vec![0; 0x100], io: vec![0; 0x10], save: vec![0; 0x20] },
            frame: 0,
            epoch: 0,
            playing_back: false,
            mid_frame: false,
            writes: Vec::new(),
        }
    }
}

impl MonitoredCore for FakeCore {
    type Memory = FakeEmulator;

    fn emulator(&self) -> &FakeEmulator {
        &self.emulator
    }

    fn frame(&self) -> u64 {
        self.frame
    }

    fn state_epoch(&self) -> u64 {
        self.epoch
    }

    fn is_mid_frame(&self) -> bool {
        self.mid_frame
    }

    fn is_playing_back(&self) -> bool {
        self.playing_back
    }

    fn finish_current_frame(&mut self) {
        self.mid_frame = false;
        self.frame += 1;
    }

    fn write(&mut self, address: u32, data: &[u8]) -> bool {
        if self.playing_back {
            return false;
        }
        self.writes.push((address, data.to_vec()));
        self.emulator.write_ram(address, data).is_ok()
    }

    fn write_if_changed(&mut self, address: u32, data: &[u8]) -> bool {
        let mut current = vec![0; data.len()];
        if self.emulator.read_ram(address, &mut current).is_err() || current == data {
            return false;
        }
        self.write(address, data)
    }
}

fn drain(shared: &mut MemoryMonitorShared) -> Vec<MonitorEvent> {
    let mut events = Vec::new();
    shared.drain_events(&mut events);
    events
}

#[test]
fn decode_values() {
    let le = ValueDecode::default();
    assert_eq!(le.decode(&[0x34, 0x12]), Some(0x1234));
    let be = ValueDecode { big_endian: true, ..Default::default() };
    assert_eq!(be.decode(&[0x12, 0x34]), Some(0x1234));
    let signed = ValueDecode { signed: true, ..Default::default() };
    assert_eq!(signed.decode(&[0xFE]), Some(-2));
    assert_eq!(signed.decode(&[0xFE, 0xFF]), Some(-2));
    let bcd = ValueDecode { bcd: true, big_endian: true, ..Default::default() };
    assert_eq!(bcd.decode(&[0x12, 0x34, 0x56]), Some(123456));
    assert_eq!(bcd.decode(&[0x1A]), None);
}

#[test]
fn conditions_fire_on_transitions() {
    assert!(TraceCondition::Equals(5).fires(Some(4), Some(5), true));
    assert!(!TraceCondition::Equals(5).fires(Some(5), Some(5), false));
    assert!(TraceCondition::GreaterThan(10).fires(Some(10), Some(11), true));
    assert!(!TraceCondition::GreaterThan(10).fires(Some(11), Some(12), true));
    assert!(TraceCondition::DecreasedBy(3).fires(Some(10), Some(7), true));
    assert!(!TraceCondition::IncreasedBy(3).fires(Some(10), Some(7), true));
    assert!(TraceCondition::Changes.fires(None, None, true));
}

#[test]
fn pointer_paths_resolve() {
    let mut core = FakeCore::new();
    core.emulator.ram[0x10..0x14].copy_from_slice(&0x1080u32.to_le_bytes());
    let path = AddressPath::with_derefs(0x1010, &[4]).unwrap();
    assert_eq!(path.resolve(&core.emulator), Some(0x1084));
    let broken = AddressPath::with_derefs(0x1020, &[0, 0]).unwrap();
    assert_eq!(broken.resolve(&core.emulator), None, "a null pointer is unmapped");
}

#[test]
fn samples_windows_and_probes() {
    let mut shared = MemoryMonitorShared::new();
    let mut local = MemoryMonitorLocal::new(&shared);
    let mut core = FakeCore::new();
    core.emulator.ram[0] = 0xAB;
    core.emulator.save[0x1F] = 0xCD;

    shared.update_request(|mut r| {
        r.sampling = true;
        r.windows[0] = Some(ViewWindow { address: 0x1000, len: 4 });
        r.windows[2] = Some(ViewWindow { address: 0x3010, len: 0x30 });
        r.probes.push(Probe { path: AddressPath::direct(0x1000), len: 2 });
        r.probes.push(Probe { path: AddressPath::direct(0x5000), len: 1 });
        (r, ())
    });
    local.service(&mut core, &mut shared, true, 0);

    let mut sample = MonitorSample::default();
    let generation = shared.take_sample(0, &mut sample).expect("a sample");
    assert_eq!(&sample.windows[0].bytes, &[0xAB, 0, 0, 0]);
    assert_eq!(sample.windows[0].valid_len, 4);
    assert!(!sample.windows[1].active);
    // The save region is 0x40 long but only 0x20 bytes are backed.
    assert_eq!(sample.windows[2].valid_len, 0x10);
    assert_eq!(sample.windows[2].bytes[0xF], 0xCD);
    assert_eq!(sample.probe(0), Some(&[0xAB, 0][..]));
    assert_eq!(sample.probe(1), None);
    assert!(shared.take_sample(generation, &mut sample).is_none(), "nothing newer yet");

    // Nothing new: no new sample.
    local.service(&mut core, &mut shared, true, 0);
    assert!(shared.take_sample(generation, &mut sample).is_none());
}

#[test]
fn traces_report_changes_and_discontinuities() {
    let mut shared = MemoryMonitorShared::new();
    let mut local = MemoryMonitorLocal::new(&shared);
    let mut core = FakeCore::new();
    shared.update_request(|mut r| {
        r.traces.push(TraceSpec {
            id: 7,
            path: AddressPath::direct(0x1004),
            len: 1,
            decode: ValueDecode::default(),
            pause_when: Some(TraceCondition::Equals(9)),
        });
        (r, ())
    });
    local.service(&mut core, &mut shared, true, 0);

    core.frame += 1;
    core.emulator.ram[4] = 3;
    let outcome = local.service(&mut core, &mut shared, true, 0);
    assert!(!outcome.pause);

    core.frame += 1;
    core.emulator.ram[4] = 9;
    let outcome = local.service(&mut core, &mut shared, true, 0);
    assert!(outcome.pause, "became 9");

    // A state load changes the value without being reported as a change.
    core.frame += 1;
    core.epoch += 1;
    core.emulator.ram[4] = 1;
    local.service(&mut core, &mut shared, true, 0);

    local.flush_events_now = true;
    local.service(&mut core, &mut shared, true, 0);
    let events = drain(&mut shared);
    assert_eq!(
        events,
        vec![
            MonitorEvent::Changed { frame: 1, id: 7, old: 0, new: 3 },
            MonitorEvent::Changed { frame: 2, id: 7, old: 3, new: 9 },
            MonitorEvent::PausedByCondition { frame: 2, id: 7 },
            MonitorEvent::Discontinuity { frame: 3 },
        ]
    );
}

#[test]
fn freezes_write_only_when_changed() {
    let mut shared = MemoryMonitorShared::new();
    let mut local = MemoryMonitorLocal::new(&shared);
    let mut core = FakeCore::new();
    let asked = shared.update_request(|mut r| {
        r.freezes.push(FreezeSpec::new(1, AddressPath::direct(0x1008), &[0x63, 0x00]).unwrap());
        r.freezes.push(FreezeSpec::new(2, AddressPath::direct(0x2000), &[0xFF]).unwrap());
        let asked = r.freezes.len();
        (r, asked)
    });
    assert_eq!(asked, 2);
    local.service(&mut core, &mut shared, true, 0);
    assert_eq!(
        core.writes,
        vec![(0x1008, vec![0x63, 0x00])],
        "applied once; the read-only region is not written"
    );

    for _ in 0..5 {
        core.frame += 1;
        local.service(&mut core, &mut shared, true, 0);
    }
    assert_eq!(core.writes.len(), 1, "no writes while the value holds");

    core.frame += 1;
    core.emulator.ram[8] = 0x10;
    local.service(&mut core, &mut shared, true, 0);
    assert_eq!(core.writes.len(), 2, "restored once the game changed it");
    assert_eq!(core.emulator.ram[8], 0x63);

    // Suspended during playback.
    core.playing_back = true;
    core.frame += 1;
    core.emulator.ram[8] = 0x20;
    local.service(&mut core, &mut shared, true, 0);
    assert_eq!(core.writes.len(), 2);

    shared.update_request(|mut r| {
        r.sampling = true;
        (r, ())
    });
    core.playing_back = false;
    core.frame += 1;
    local.service(&mut core, &mut shared, true, 0);
    let mut sample = MonitorSample::default();
    shared.take_sample(0, &mut sample).unwrap();
    assert_eq!(sample.freeze_restores, vec![3, 0]);
    assert_eq!(sample.freeze_ok, vec![true, false]);
}

#[test]
fn edits_report_old_bytes_and_failures() {
    let mut shared = MemoryMonitorShared::new();
    let mut local = MemoryMonitorLocal::new(&shared);
    let mut core = FakeCore::new();
    core.emulator.ram[0x20] = 0x11;

    shared.push_edit(MemoryEdit { edit_id: 1, path: AddressPath::direct(0x1020), data: vec![0x22, 0x33] });
    shared.push_edit(MemoryEdit { edit_id: 2, path: AddressPath::direct(0x2000), data: vec![1] });
    shared.push_edit(MemoryEdit { edit_id: 3, path: AddressPath::direct(0x10FF), data: vec![1, 2] });
    local.service(&mut core, &mut shared, false, 0);

    assert_eq!(&core.emulator.ram[0x20..0x22], &[0x22, 0x33]);
    let events = drain(&mut shared);
    assert_eq!(
        events,
        vec![
            MonitorEvent::Written {
                frame: 0,
                edit_id: 1,
                address: 0x1020,
                old: vec![0x11, 0x00],
                new: vec![0x22, 0x33]
            },
            MonitorEvent::WriteFailed { edit_id: 2, reason: WriteFailure::ReadOnly },
            MonitorEvent::WriteFailed { edit_id: 3, reason: WriteFailure::Unmapped },
        ]
    );

    core.playing_back = true;
    shared.push_edit(MemoryEdit { edit_id: 4, path: AddressPath::direct(0x1020), data: vec![0] });
    local.service(&mut core, &mut shared, false, 0);
    assert_eq!(
        drain(&mut shared),
        vec![MonitorEvent::WriteFailed { edit_id: 4, reason: WriteFailure::Playback }]
    );
}

#[test]
fn edits_with_a_bad_length_or_a_broken_pointer_are_refused() {
    let mut shared = MemoryMonitorShared::new();
    let mut local = MemoryMonitorLocal::new(&shared);
    let mut core = FakeCore::new();
    let broken = AddressPath::with_derefs(0x1020, &[0, 0]).unwrap();
    shared.push_edit(MemoryEdit { edit_id: 1, path: AddressPath::direct(0x1000), data: vec![] });
    shared.push_edit(MemoryEdit { edit_id: 2, path: AddressPath::direct(0x1000), data: vec![0; 4097] });
    shared.push_edit(MemoryEdit { edit_id: 3, path: broken, data: vec![1] });
    // Listed as memory, but not backed by any.
    shared.push_edit(MemoryEdit { edit_id: 4, path: AddressPath::direct(0x3030), data: vec![1] });
    local.service(&mut core, &mut shared, false, 0);
    assert_eq!(
        drain(&mut shared),
        vec![
            MonitorEvent::WriteFailed { edit_id: 1, reason: WriteFailure::BadLength },
            MonitorEvent::WriteFailed { edit_id: 2, reason: WriteFailure::BadLength },
            MonitorEvent::WriteFailed { edit_id: 3, reason: WriteFailure::PointerInvalid },
            MonitorEvent::WriteFailed { edit_id: 4, reason: WriteFailure::Unmapped },
        ]
    );
    assert!(core.writes.is_empty());
}

#[test]
fn edits_wait_for_the_end_of_a_paused_frame() {
    let mut shared = MemoryMonitorShared::new();
    let mut local = MemoryMonitorLocal::new(&shared);
    let mut core = FakeCore::new();
    core.mid_frame = true;
    shared.push_edit(MemoryEdit { edit_id: 1, path: AddressPath::direct(0x1000), data: vec![7] });
    // In the middle of a running frame nothing happens at all.
    local.service(&mut core, &mut shared, true, 0);
    assert!(core.writes.is_empty());
    local.service(&mut core, &mut shared, false, 0);
    assert_eq!(core.frame, 1, "the frame was finished first");
    assert_eq!(core.writes, vec![(0x1000, vec![7])]);
}

#[test]
fn edits_under_a_trace_are_not_reported_as_changes() {
    let mut shared = MemoryMonitorShared::new();
    let mut local = MemoryMonitorLocal::new(&shared);
    let mut core = FakeCore::new();
    shared.update_request(|mut r| {
        r.traces.push(TraceSpec {
            id: 1,
            path: AddressPath::direct(0x1000),
            len: 1,
            decode: ValueDecode::default(),
            pause_when: None,
        });
        (r, ())
    });
    local.service(&mut core, &mut shared, true, 0);
    shared.push_edit(MemoryEdit { edit_id: 1, path: AddressPath::direct(0x1000), data: vec![5] });
    local.service(&mut core, &mut shared, true, 0);
    core.frame += 1;
    local.service(&mut core, &mut shared, true, 0);
    let events = drain(&mut shared);
    assert!(events.iter().all(|e| !matches!(e, MonitorEvent::Changed { .. })), "{events:?}");
}

#[test]
fn snapshots_cover_every_region() {
    let mut shared = MemoryMonitorShared::new();
    let mut local = MemoryMonitorLocal::new(&shared);
    let mut core = FakeCore::new();
    core.emulator.io[3] = 0x44;
    shared.set_snapshot_sender(true);
    shared.request_snapshot(9);
    local.service(&mut core, &mut shared, true, 0);
    let snapshots = shared.take_snapshots();
    let snapshot = snapshots.first().expect("a snapshot");
    assert_eq!(snapshot.job_id, 9);
    assert_eq!(snapshot.bytes.len(), 0x100 + 0x10 + 0x40);
    assert_eq!(snapshot.regions[1].offset, 0x100);
    assert_eq!(snapshot.bytes[0x103], 0x44);
    assert_eq!(snapshot.regions[2].available, 0x20);
}

#[test]
fn snapshots_wait_for_somebody_to_take_them() {
    let mut shared = MemoryMonitorShared::new();
    let mut local = MemoryMonitorLocal::new(&shared);
    let mut core = FakeCore::new();
    shared.request_snapshot(5);
    local.service(&mut core, &mut shared, true, 0);
    assert!(shared.take_snapshots().is_empty());
    shared.set_snapshot_sender(true);
    shared.recycle_snapshot_buffer(vec![1, 2, 3]);
    local.service(&mut core, &mut shared, true, 0);
    assert_eq!(shared.take_snapshots()[0].job_id, 5);
    local.service(&mut core, &mut shared, true, 0);
    assert!(shared.take_snapshots().is_empty(), "taken once");
}

#[test]
fn request_limits_are_enforced() {
    let mut request = MonitorRequest::default();
    request.windows = [Some(ViewWindow { address: 0, len: 10_000 }); MAX_VIEW_WINDOWS];
    request.freezes =
        (0..300).map(|i| FreezeSpec::new(i, AddressPath::direct(i), &[0; 64]).unwrap()).collect();
    request.clamp();
    let total: u32 = request.windows.iter().flatten().map(|w| w.len).sum();
    assert_eq!(total as usize, MAX_VIEW_BYTES);
    assert_eq!(request.freezes.len(), MAX_FREEZE_BYTES / 64);
}

#[test]
fn a_path_without_offsets_is_the_plain_address() {
    let direct = AddressPath::direct(0x2000);
    assert_eq!(AddressPath::with_derefs(0x2000, &[]), Some(direct));
    assert_eq!(direct.derefs, [0; 4]);
    assert_eq!(AddressPath::default(), AddressPath::direct(0));
    let path = AddressPath::with_derefs(0x2000, &[4, -8]).unwrap();
    assert_eq!((path.derefs, path.deref_count), ([4, -8, 0, 0], 2));
    assert!(!path.is_same(&direct));
    assert_eq!(AddressPath::with_derefs(0x2000, &[1, 2, 3, 4, 5]), None);
    let freeze = FreezeSpec::new(1, direct, &[7, 9]).unwrap();
    assert_eq!(freeze.len, 2);
    assert!(freeze.bytes[2..].iter().all(|b| *b == 0));
}

#[test]
fn the_newest_sample_is_taken_once() {
    let mut shared = MemoryMonitorShared::new();
    let mut local = MemoryMonitorLocal::new(&shared);
    let mut core = FakeCore::new();
    shared.update_request(|mut r| {
        r.sampling = true;
        r.windows[0] = Some(ViewWindow { address: 0x1000, len: 1 });
        (r, ())
    });
    // Two samples nobody took: the newer one is handed out.
    for value in [1, 2] {
        core.emulator.ram[0] = value;
        core.frame += 1;
        local.service(&mut core, &mut shared, false, 0);
        assert_eq!(shared.sample.generation, shared.sample_generation);
    }
    let mut sample = MonitorSample::default();
    let first = shared.take_sample(0, &mut sample).expect("a sample");
    assert_eq!((sample.generation, &sample.windows[0].bytes[..]), (first, &[2][..]));
    assert_eq!(shared.take_sample(first, &mut sample), None);
    assert_eq!(sample.generation, first);

    // A core attached later goes on counting.
    let mut local = MemoryMonitorLocal::new(&shared);
    local.service(&mut core, &mut shared, false, 0);
    let second = shared.take_sample(first, &mut sample).expect("a newer sample");
    assert!(second > first);
}
