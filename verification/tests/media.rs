use supershuckie::audio::AudioOutput;
use supershuckie::emulator::console::{ScreenData, ScreenDataEncoding};
use supershuckie::export::{
    can_composite, composite_screens, output_geometry, ScreenLayout, VideoExportError, BLACK,
};
use supershuckie::replay::packet::{Speed, NORMAL_SPEED};

fn frames(from: i16, count: usize) -> Vec<i16> {
    (0..count as i16).flat_map(|i| [from + i, -(from + i)]).collect()
}

#[test]
fn overflow_keeps_the_newest() {
    let mut ring = AudioOutput::new(1); // 48 frames
    assert_eq!(ring.max_frames(), 48);
    ring.push(&frames(0, 40));
    ring.push(&frames(100, 40));
    assert_eq!(ring.queued_frames(), 48);

    let mut out = vec![0i16; 96];
    assert_eq!(ring.read(&mut out), 48);
    // the first 32 frames of the first push were dropped
    assert_eq!(&out[..4], &[32, -32, 33, -33]);
    assert_eq!(&out[92..], &[138, -138, 139, -139]);
    assert_eq!(ring.queued_frames(), 0);
}

#[test]
fn underrun_returns_what_there_is() {
    let mut ring = AudioOutput::new(100);
    ring.push(&frames(0, 3));
    let mut out = vec![7i16; 10];
    assert_eq!(ring.read(&mut out), 3);
    assert_eq!(&out[..6], &[0, 0, 1, -1, 2, -2]);
    assert_eq!(&out[6..], &[7, 7, 7, 7], "unwritten samples are left for the caller to pad");
    assert_eq!(ring.read(&mut out), 0);
}

#[test]
fn clear_and_shrink() {
    let mut ring = AudioOutput::new(100);
    ring.push(&frames(0, 500));
    ring.set_max_latency_ms(1);
    assert_eq!(ring.queued_frames(), 48);
    ring.clear();
    assert_eq!(ring.queued_frames(), 0);
}

#[test]
fn audio_settings_are_kept_apart_from_the_samples() {
    let mut ring = AudioOutput::new(10);
    ring.push(&frames(0, 4));
    ring.set_speed(Speed { units: 3 * NORMAL_SPEED });
    ring.set_fast_forward_scales_pitch(true);
    assert_eq!(ring.speed().units, 768);
    assert!(ring.fast_forward_scales_pitch());
    assert_eq!(ring.queued_frames(), 4);
}

fn screen(width: usize, height: usize, fill: u32) -> ScreenData {
    ScreenData {
        pixels: vec![fill; width * height],
        width,
        height,
        encoding: ScreenDataEncoding::A8R8G8B8,
    }
}

#[test]
fn geometry_single_screen() {
    let s = [screen(240, 160, 0)];
    assert_eq!(output_geometry(&s, ScreenLayout::VerticalStack), Some((240, 160)));
}

#[test]
fn geometry_nds_layouts() {
    let s = [screen(256, 192, 0), screen(256, 192, 0)];
    assert_eq!(output_geometry(&s, ScreenLayout::VerticalStack), Some((256, 384)));
    assert_eq!(output_geometry(&s, ScreenLayout::HorizontalStack), Some((512, 192)));
    assert_eq!(output_geometry(&s, ScreenLayout::TopOnly), Some((256, 192)));
    assert_eq!(output_geometry(&s, ScreenLayout::BottomOnly), Some((256, 192)));
}

#[test]
fn geometry_without_screens_is_none() {
    assert_eq!(output_geometry(&[], ScreenLayout::VerticalStack), None);
}

#[test]
fn composite_vertical_stack_places_top_then_bottom() {
    let top = screen(256, 192, 0xFF112233);
    let bottom = screen(256, 192, 0xFF445566);
    let s = [top, bottom];
    let mut out = Vec::new();
    composite_screens(&s, ScreenLayout::VerticalStack, &mut out);

    assert_eq!(out.len(), 256 * 384);
    // First row belongs to the top screen.
    assert_eq!(out[0], 0xFF112233);
    // First pixel of row 192 (start of the bottom screen) belongs to the bottom screen.
    assert_eq!(out[192 * 256], 0xFF445566);
    // Last pixel belongs to the bottom screen.
    assert_eq!(out[256 * 384 - 1], 0xFF445566);
}

#[test]
fn composite_horizontal_stack_places_left_then_right() {
    let left = screen(256, 192, 0xFFAAAAAA);
    let right = screen(256, 192, 0xFFBBBBBB);
    let s = [left, right];
    let mut out = Vec::new();
    composite_screens(&s, ScreenLayout::HorizontalStack, &mut out);

    assert_eq!(out.len(), 512 * 192);
    // Row 0: first 256 px are the left screen, next 256 are the right screen.
    assert_eq!(out[0], 0xFFAAAAAA);
    assert_eq!(out[255], 0xFFAAAAAA);
    assert_eq!(out[256], 0xFFBBBBBB);
    assert_eq!(out[511], 0xFFBBBBBB);
}

#[test]
fn composite_single_screen_copies_through() {
    let s = [screen(160, 144, 0xFF777777)];
    let mut out = Vec::new();
    composite_screens(&s, ScreenLayout::VerticalStack, &mut out);
    assert_eq!(out.len(), 160 * 144);
    assert!(out.iter().all(|&p| p == 0xFF777777));
}

#[test]
fn composite_fills_what_no_screen_covers() {
    let s = [screen(4, 2, 0xFF010101), screen(2, 2, 0xFF020202)];
    let mut out = Vec::new();
    assert!(can_composite(&s, ScreenLayout::VerticalStack));
    composite_screens(&s, ScreenLayout::VerticalStack, &mut out);
    assert_eq!(out.len(), 16);
    assert_eq!(&out[..8], &[0xFF010101; 8]);
    assert_eq!(out[8..].iter().filter(|&&p| p == 0xFF020202).count(), 4);
    assert_eq!(out[8..].iter().filter(|&&p| p == BLACK).count(), 4);
}

#[test]
fn argb_reinterpret_is_bgra_on_le() {
    // 0xAARRGGBB in memory on little-endian is bytes [BB, GG, RR, AA] == bgra.
    let px: u32 = 0xAABBCCDD; // A=AA R=BB G=CC B=DD
    let bytes = px.to_le_bytes();
    assert_eq!(bytes, [0xDD, 0xCC, 0xBB, 0xAA]); // B, G, R, A
}

#[test]
fn export_errors_explain_themselves() {
    let sink = VideoExportError::Sink { explanation: "disk full".to_owned() };
    assert!(sink.message().contains("disk full"));
    assert!(!VideoExportError::Cancelled.message().is_empty());
    assert!(!VideoExportError::NoReplayAttached.message().is_empty());
}
