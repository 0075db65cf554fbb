use supershuckie::emulator::game_boy_advance;
use supershuckie::emulator::game_boy_advance::{
    choose_coordinator, Coordinator, GameBoyAdvance, GbaRegion, GbaWrite, ReplayQueued,
};
use supershuckie::emulator::game_boy_color;
use supershuckie::emulator::game_boy_color::{
    build_memory_regions, decode_palettes, decode_rgb, encode_rgb, palette_override_applies,
    skip_sgb_intro, zero_pending_apu_cycles, GameBoyColor, GbMemorySizes, GbPaletteOverride,
    GbRegion, ShadowCheck, PALETTE_OVERRIDE_FORCE_FRAMES,
};
use supershuckie::emulator::gb_link::{BitEnd, GbLinkState};
use supershuckie::emulator::input::Input;
use supershuckie::emulator::link::LinkError;
use supershuckie::emulator::nintendo_3ds;
use supershuckie::emulator::nintendo_3ds::{ButtonBits, Nintendo3DS};
use supershuckie::emulator::nintendo_ds;
use supershuckie::emulator::nintendo_ds::{NdsRegion, NintendoDS};
use supershuckie::emulator::pacing::FramePacer;
use supershuckie::replay::packet::{Speed, NORMAL_SPEED};
use supershuckie::replay::player::ReplayConsoleType;

// ---------------------------------------------------------------------------------------------
// Pacing.

#[test]
fn paced_frames_do_not_drift() {
    let mut pacer = FramePacer::new(1000);
    assert!(!pacer.is_due(999));
    assert_eq!(pacer.microseconds_until_next_frame(400), 600);
    assert!(pacer.is_due(1000));
    // Noticed late; the next frame is still due a period after this one was.
    pacer.frame_completed(1300);
    assert_eq!(pacer.last_frame_microseconds, 1000);
    assert_eq!(pacer.microseconds_until_next_frame(1300), 700);
    assert_eq!(pacer.microseconds_until_next_frame(5000), 0);
}

#[test]
fn a_long_stall_is_not_caught_up() {
    let mut pacer = FramePacer::new(1000);
    pacer.frame_completed(1_000_000);
    assert!(pacer.last_frame_microseconds + 16 * 1000 >= 1_000_000 - 1000);
    pacer.frame_completed_unpaced(2_000_000);
    assert_eq!(pacer.last_frame_microseconds, 2_000_000);
}

#[test]
fn speed_divides_the_frame_period() {
    let mut pacer = FramePacer::new(16742);
    pacer.set_speed(16742, Speed { units: 2 * NORMAL_SPEED });
    assert_eq!(pacer.microseconds_per_frame, 8371);
    pacer.set_speed(16742, Speed { units: NORMAL_SPEED });
    assert_eq!(pacer.microseconds_per_frame, 16742);
}

// ---------------------------------------------------------------------------------------------
// The Game Boy.

fn color_game_boy() -> GameBoyColor {
    GameBoyColor::new(GbMemorySizes {
        video_ram: 0x4000,
        ram: 0x8000,
        oam: 0xA0,
        io: 0x80,
        high_ram: 0x7F,
        cartridge_ram: 0x2000,
    })
}

#[test]
fn game_boy_buttons_have_a_bit_each() {
    let input = Input { a: true, d_down: true, start: true, ..Input::new() };
    assert_eq!(game_boy_color::encode_input(input), vec![0x98]);
    assert_eq!(game_boy_color::encode_input(Input::new()), vec![0]);
}

#[test]
fn colors_round_trip() {
    assert_eq!(encode_rgb(0x123456), 0xFF123456);
    assert_eq!(decode_rgb(encode_rgb(0x123456)), 0x123456);
    let pixels = GbPaletteOverride {
        background: [0xFF000001; 4],
        objects_0: [0xFF000002; 4],
        objects_1: [0xFF000003; 4],
    };
    let colors = decode_palettes(pixels);
    assert_eq!(colors.background, [1; 4]);
    assert_eq!(colors.objects_0, [2; 4]);
    assert_eq!(colors.objects_1, [3; 4]);
}

#[test]
fn the_palette_override_is_for_monochrome_games() {
    assert!(palette_override_applies(false, false));
    assert!(!palette_override_applies(true, false), "color games keep their own colors");
    assert!(!palette_override_applies(false, true), "so does the Super Game Boy");
}

#[test]
fn the_palette_override_is_forced_for_a_while_after_a_reset() {
    let mut gb = color_game_boy();
    assert!(!gb.begin_step().reapply_palette);
    let colors =
        GbPaletteOverride { background: [1; 4], objects_0: [2; 4], objects_1: [3; 4] };
    assert!(gb.set_gb_palette_override(Some(colors)));
    assert!(gb.was_reset().0);
    assert_eq!(gb.palette_override_force_frames, PALETTE_OVERRIDE_FORCE_FRAMES);
    assert!(!gb.set_gb_palette_override(None));
    assert!(!gb.was_reset().0);
}

#[test]
fn game_boy_memory_is_laid_out_as_tools_expect() {
    let gb = color_game_boy();
    let (regions, sources) = build_memory_regions(GbMemorySizes {
        video_ram: 0x4000,
        ram: 0x8000,
        oam: 0xA0,
        io: 0x80,
        high_ram: 0x7F,
        cartridge_ram: 0x2000,
    });
    assert_eq!(regions.len(), sources.len());
    let wram = regions.iter().find(|r| r.base_address == 0xC000).expect("work RAM");
    assert_eq!(wram.len, 0x2000);
    assert!(wram.writable && wram.default_big_endian);
    let more = regions.iter().find(|r| r.base_address == 0x10000).expect("the other banks");
    assert_eq!(more.len, 0x6000);
    assert_eq!(gb.locate_write(0xC010, 4), Ok((GbRegion::Ram, 0x10)));
    assert_eq!(gb.locate_write(0x10000, 1), Ok((GbRegion::Ram, 0x2000)));
    assert!(gb.locate_write(0x0000, 1).is_err(), "the ROM is not writable");

    // A monochrome console has no other banks.
    let (regions, _) = build_memory_regions(GbMemorySizes {
        video_ram: 0x2000,
        ram: 0x2000,
        oam: 0xA0,
        io: 0x80,
        high_ram: 0x7F,
        cartridge_ram: 0,
    });
    assert!(regions.iter().all(|r| r.base_address != 0x10000));
}

#[test]
fn pending_sound_cycles_are_dropped_from_a_state() {
    // Eight bytes, then five empty sections, then the sound hardware.
    let mut state = vec![0xAAu8; 8];
    state.extend_from_slice(&[0; 5 * 4]);
    state.extend_from_slice(&[1, 2, 3, 4, 5, 6, 7, 8, 9]);
    let before = state.clone();
    zero_pending_apu_cycles(&mut state);
    assert_eq!(state[..34], before[..34]);
    assert_eq!(state[34..], [0, 0, 9]);

    let mut short = vec![1u8; 6];
    zero_pending_apu_cycles(&mut short);
    assert_eq!(short, vec![1u8; 6]);
}

#[test]
fn the_super_game_boy_introduction_is_skipped() {
    let mut state = vec![7u8; 0x1AB68];
    assert!(skip_sgb_intro(&mut state));
    assert_eq!((state[0x1AB66], state[0x1AB67]), (201, 0));
    let mut state = vec![7u8; 0x1AB67];
    assert!(!skip_sgb_intro(&mut state));
}

#[test]
fn game_boy_console_types_and_names() {
    assert_eq!(game_boy_color::replay_console_type(true, false), ReplayConsoleType::GameBoyColor);
    assert_eq!(game_boy_color::replay_console_type(false, true), ReplayConsoleType::SuperGameBoy2);
    assert_eq!(game_boy_color::replay_console_type(false, false), ReplayConsoleType::GameBoy);
    assert!(game_boy_color::core_name("1.0", false).contains("1.0"));
    assert_ne!(game_boy_color::core_name("1.0", false), game_boy_color::core_name("1.0", true));
}

#[test]
fn steps_add_up_to_frames() {
    let mut gb = color_game_boy();
    gb.begin_step();
    let (time, bits) = gb.step_ran(100);
    assert_eq!((time.frames, time.presented), (0, false));
    assert!(bits.is_empty());
    assert!(gb.mid_frame);
    gb.begin_step();
    gb.vblank();
    let (time, _) = gb.step_ran(50);
    assert_eq!((time.frames, time.presented), (1, true));
    assert!(!gb.mid_frame);
    assert_eq!(gb.cycles, 150);
}

#[test]
fn a_shadow_in_lockstep_needs_no_resync() {
    let mut gb = color_game_boy();
    assert!(gb.set_audio_enabled(true));
    for _ in 0..3 {
        gb.begin_step();
        gb.shadow_begins();
        gb.vblank();
        gb.step_ran(70224);
        assert!(!matches!(gb.shadow_ran(70224, 1), ShadowCheck::Resync));
    }
    assert_eq!(gb.audio_resyncs(), 0);
    assert!(gb.set_audio_enabled(false));
}

#[test]
fn serial_bits_are_exchanged_over_a_live_cable() {
    let mut a = GbLinkState::new();
    let mut b = GbLinkState::new();
    assert!(matches!(a.serial_transfer_bit_end(), BitEnd::Received(true)), "no cable reads ones");
    a.connect().unwrap();
    b.connect().unwrap();
    assert!(matches!(a.connect(), Err(LinkError::NotConnected)));
    a.serial_transfer_bit_start(true);
    assert!(
        matches!(a.serial_transfer_bit_end(), BitEnd::Received(true)),
        "nobody is at the other end outside a linked step"
    );
    a.partnered = true;
    assert!(matches!(a.serial_transfer_bit_end(), BitEnd::Exchange));
    assert!(a.exchanged(&mut b, false), "the partner is handed the bit that was sent");
    assert!(!a.take_serial_in().is_empty());
    assert!(!b.take_serial_in().is_empty());
    assert!(a.disconnect());
    assert!(!a.disconnect());
}

#[test]
fn recorded_serial_traffic_is_heard_again() {
    let mut a = GbLinkState::new();
    let mut b = GbLinkState::new();
    a.connect().unwrap();
    b.connect().unwrap();
    for bit in [true, false, true] {
        a.serial_transfer_bit_start(bit);
        a.serial_transfer_bit_end();
        a.exchanged(&mut b, !bit);
        a.stepped(8, 0);
        b.stepped(8, 0);
    }
    let heard = a.take_serial_in();

    let mut replayed = GbLinkState::new();
    assert!(replayed.queue_serial_in(&heard).unwrap().is_empty());
    for bit in [true, false, true] {
        replayed.serial_transfer_bit_start(bit);
        match replayed.serial_transfer_bit_end() {
            BitEnd::Received(got) => assert_eq!(got, !bit),
            BitEnd::Exchange => panic!("nothing is plugged in"),
        }
        replayed.stepped(8, 0);
    }
}

// ---------------------------------------------------------------------------------------------
// The Game Boy Advance.

#[test]
fn game_boy_advance_keys_round_trip() {
    let input = Input { a: true, l: true, d_right: true, ..Input::new() };
    assert_eq!(game_boy_advance::key_mask(input), 1 + 16 + 512);
    let encoded = game_boy_advance::encode_input(input);
    assert_eq!(encoded, vec![17, 2]);
    assert_eq!(game_boy_advance::decode_input(&encoded), 529);
    assert_eq!(game_boy_advance::decode_input(&[1]), 0);
}

#[test]
fn game_boy_advance_pixels_are_swizzled() {
    assert_eq!(game_boy_advance::swizzle(0x00AABBCC), 0xFFCCBBAA);
    let mut gba = GameBoyAdvance::new();
    gba.publish_frame(&[0x00010203; 240 * 160]);
    assert!(gba.screen.pixels.iter().all(|&p| p == 0xFF030201));
}

#[test]
fn game_boy_advance_writes_go_where_they_belong() {
    let gba = GameBoyAdvance::new();
    assert_eq!(
        gba.locate_write(0x0200_0004, 2),
        Ok(GbaWrite::Direct { region: GbaRegion::ExternalWorkRam, offset: 4 })
    );
    assert_eq!(
        gba.locate_write(0x0300_0000, 1),
        Ok(GbaWrite::Direct { region: GbaRegion::InternalWorkRam, offset: 0 })
    );
    assert_eq!(gba.locate_write(0x0500_0000, 2), Ok(GbaWrite::Patch));
    assert_eq!(gba.locate_write(0x0E00_0001, 1), Ok(GbaWrite::Save { offset: 1 }));
    assert!(gba.locate_write(0x0000_0000, 1).is_err());
    assert!(GameBoyAdvance::check_save_write(4, 4, 8).is_ok());
    assert!(GameBoyAdvance::check_save_write(4, 5, 8).is_err());
    assert_eq!(GameBoyAdvance::region_at(0), Some(GbaRegion::ExternalWorkRam));
    assert_eq!(GameBoyAdvance::region_at(6), None);
}

#[test]
fn game_boy_advance_link_time_survives_the_clock_wrapping() {
    let mut gba = GameBoyAdvance::new();
    assert_eq!(gba.connect(true, i32::MAX - 1), Ok(false));
    gba.advance_link_time(i32::MIN + 8);
    assert_eq!(gba.link.link_time, 10);
    gba.advance_link_time(i32::MIN + 3);
    assert_eq!(gba.link.link_time, 10, "a clock that went back adds nothing");
}

#[test]
fn a_parked_or_early_console_does_not_step() {
    let mut gba = GameBoyAdvance::new();
    assert!(!gba.may_step(true, false, 0));
    assert!(gba.may_step(false, false, 0));
    assert!(!gba.may_step(false, true, 0), "not due yet");
    assert!(gba.may_step(false, true, 1_000_000));
    let pixels = vec![0u32; 240 * 160];
    assert_eq!(gba.linked_slice_ran(0, 100, &pixels, true, 0).frames, 0);
    assert!(gba.may_step(false, true, 0), "a frame that was begun is finished");
    assert_eq!(gba.linked_slice_ran(1, 200, &pixels, false, 50).frames, 1);
}

#[test]
fn game_boy_advance_cables() {
    let mut a = GameBoyAdvance::new();
    let mut b = GameBoyAdvance::new();
    assert!(matches!(a.check_linked(&b), Err(LinkError::NotConnected)));
    assert!(a.may_queue_serial_in().is_ok());
    assert!(a.serial_in_queued(Some(ReplayQueued::Applied)).is_ok());
    a.connect(true, 0).unwrap();
    b.connect(false, 0).unwrap();
    assert!(a.check_linked(&b).is_ok());
    assert!(matches!(a.connect(true, 0), Err(LinkError::NotConnected)));
    assert!(a.may_queue_serial_in().is_err(), "a live port takes no recording");
    a.disconnect();
    assert!(a.check_linked(&b).is_err());
    assert_eq!(choose_coordinator(true, true, true, true), Coordinator::Both);
    assert_eq!(choose_coordinator(true, false, true, false), Coordinator::Mine);
    assert_eq!(choose_coordinator(false, true, false, true), Coordinator::Theirs);
    assert_eq!(choose_coordinator(false, false, false, false), Coordinator::New);
}

// ---------------------------------------------------------------------------------------------
// The Nintendo DS.

#[test]
fn nintendo_ds_input_holds_the_touch_point() {
    let input = Input { x: true, touch: Some((200, 100)), ..Input::new() };
    let encoded = nintendo_ds::encode_input(input);
    assert_eq!(encoded, vec![0, 0x14, 200, 100]);
    assert_eq!(nintendo_ds::decode_input(&encoded), 0x64C8_1400);
    assert_eq!(nintendo_ds::decode_input(&[0; 3]), 0);
}

#[test]
fn nintendo_ds_frames_and_memory() {
    let mut ds = NintendoDS::new(false);
    let upper = vec![1u32; 256 * 192];
    let lower = vec![2u32; 256 * 192];
    let time = ds.frame_ran(upper, lower);
    assert_eq!((time.frames, time.presented), (1, true));
    assert_eq!(ds.screens[0].pixels[0], 1);
    assert_eq!(ds.screens[1].pixels[0], 2);

    assert!(ds.set_skip_drawing(true));
    assert!(!ds.set_skip_drawing(true));
    let time = ds.frame_ran(vec![3u32; 256 * 192], vec![4u32; 256 * 192]);
    assert_eq!((time.frames, time.presented), (1, false));
    assert_eq!(ds.screens[0].pixels[0], 1, "a frame that is not drawn changes nothing");

    assert_eq!(ds.locate_write(0x0200_0010, 4), Ok((NdsRegion::MainRam, 0x10)));
    assert!(ds.locate_write(0x0100_0000, 1).is_err());
    assert!(NintendoDS::check_write(0, 4, 4).is_ok());
    assert!(NintendoDS::check_write(1, 4, 4).is_err());
    assert_eq!(NintendoDS::region_at(0), Some(NdsRegion::MainRam));
}

// ---------------------------------------------------------------------------------------------
// The Nintendo 3DS.

const BITS: ButtonBits = ButtonBits {
    a: 1 << 0,
    b: 1 << 1,
    select: 1 << 2,
    start: 1 << 3,
    right: 1 << 4,
    left: 1 << 5,
    up: 1 << 6,
    down: 1 << 7,
    r: 1 << 8,
    l: 1 << 9,
    x: 1 << 10,
    y: 1 << 11,
    zl: 1 << 14,
    zr: 1 << 15,
};

#[test]
fn input_round_trips_through_the_replay_encoding() {
    let mut input = Input::new();
    input.a = true;
    input.zr = true;
    input.d_left = true;
    input.touch = Some((319, 239));
    let state = nintendo_3ds::decode(&nintendo_3ds::encode(&input, &BITS));
    assert_eq!(state.buttons, BITS.a | BITS.zr | BITS.left);
    assert_eq!((state.circle_x, state.circle_y), (-127, 0));
    assert!(state.touch_pressed);
    assert_eq!((state.touch_x, state.touch_y), (319, 239));

    input.circle = (40, -3);
    let state = nintendo_3ds::decode(&nintendo_3ds::encode(&input, &BITS));
    assert_eq!((state.circle_x, state.circle_y), (40, -3));
}

#[test]
fn a_stopped_3ds_program_runs_nothing() {
    let mut n3ds = Nintendo3DS::new(4, 2, 3, 2);
    let plan = n3ds.plan_frame(0).expect("it runs");
    assert!(plan.render && plan.present);
    let time = n3ds.frame_shown(vec![9; 8], vec![8; 6]);
    assert_eq!((time.frames, time.presented), (1, true));
    n3ds.set_skip_drawing(true);
    let plan = n3ds.plan_frame(0).expect("it runs");
    assert!(!plan.render && !plan.present);
    assert!(!n3ds.frame_hidden().presented);
    assert_eq!(n3ds.frame_failed().frames, 0);
    assert!(n3ds.stopped());
    assert!(n3ds.plan_frame(0).is_none());
    n3ds.was_reset(true);
    assert!(!n3ds.stopped());
}
