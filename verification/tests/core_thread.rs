use supershuckie::core_thread::{
    frame_wait, CoreThread, CoreThreadDead, FrameTimeStats, Ran, ReplayStatus,
    ScreenUpdate, MAX_FREEZES, MAX_FRAME_WAIT,
};
use supershuckie::emulator::null::NullEmulatorCore;
use supershuckie::session::anchors::BookmarkAnchorError;
use supershuckie::session::compat::ReplayPlayerAttachError;
use supershuckie::session::state::{MonotonicTimestampProvider, SuperShuckieCore};

struct Still;

impl MonotonicTimestampProvider for Still {
    fn get_timestamp_microseconds(&mut self) -> u64 {
        0
    }
}

fn thread() -> CoreThread<NullEmulatorCore, Still> {
    CoreThread::new(SuperShuckieCore::new(NullEmulatorCore::new(), Still))
}

#[test]
fn frame_times_are_averaged() {
    let mut stats = FrameTimeStats::default();
    stats.record(6400, Some(5000));
    assert_eq!(stats.average_frame_micros, 6400);
    assert_eq!(stats.frames_over_budget, 1);
    stats.record(0, Some(5000));
    assert_eq!(stats.average_frame_micros, 6300);
    assert_eq!(stats.last_frame_micros, 0);
    assert_eq!(stats.max_frame_micros, 6400);
    stats.record(1, None);
    assert_eq!(stats.budget_micros, 0);
    assert_eq!(stats.frames_measured, 3);
    assert_eq!(stats.frames_over_budget, 1);
    // Rounded up.
    assert_eq!(stats.average_frame_micros, 6202);
    stats.record(u64::MAX, Some(u64::MAX));
    assert_eq!(stats.last_frame_micros, u32::MAX);
    assert_eq!(stats.budget_micros, u32::MAX);
}

#[test]
fn waits_are_bounded_and_end_early() {
    assert_eq!(frame_wait(None), MAX_FRAME_WAIT);
    assert_eq!(frame_wait(Some(1000)), 0);
    assert_eq!(frame_wait(Some(1001)), 1);
    assert_eq!(frame_wait(Some(5000)), 4000);
    assert_eq!(frame_wait(Some(60_000)), 8000);
}

#[test]
fn freezes_are_ordered_and_bounded() {
    let mut thread = thread();
    thread.tool_freezes(20, vec![2]);
    thread.tool_freezes(10, vec![1]);
    thread.tool_freezes(20, vec![9]);
    let held: Vec<(u64, Vec<u8>)> = thread.freezes.iter().map(|(a, d)| (*a, d.clone())).collect();
    assert_eq!(held, vec![(10, vec![1]), (20, vec![9])]);
    thread.tool_unfreezes(15);
    thread.tool_unfreezes(10);
    assert_eq!(thread.freezes.len(), 1);
    for i in 0..MAX_FREEZES as u64 + 10 {
        thread.tool_freezes(1000 + i, vec![0]);
    }
    assert_eq!(thread.freezes.len(), MAX_FREEZES);
    thread.tool_freezes(20, vec![5]);
    assert_eq!(thread.freezes.get(&20), Some(&vec![5]), "one that is held can still be changed");
    thread.tool_resets();
    assert!(thread.freezes.is_empty());
}

#[test]
fn a_null_core_never_runs() {
    let mut thread = thread();
    assert!(!thread.is_running());
    assert!(!thread.may_run());
    assert_eq!(thread.idle_wait(), 100);
    thread.pause();
    assert!(thread.paused);
    thread.start();
    assert!(!thread.paused);
    assert!(matches!(thread.run_one(), Ran::Wait));
    assert!(!thread.check_if_replay_stalled());
    assert!(!thread.go_to_desired_frame(None, 0));
    assert!(thread.go_to_desired_frame(Some(3), -1));
}

#[test]
fn refused_mark_start_and_end_do_not_declare_the_thread_dead() {
    let mut thread = thread();
    assert_eq!(thread.core.mark_start(0), None, "not recording, so the mark is refused");
    assert_eq!(thread.core.mark_end(), None, "not recording, so the mark is refused");
    // The thread really is still there: a state can still be made.
    assert_eq!(thread.create_save_state(), Vec::<u8>::new());
    assert_eq!(
        CoreThreadDead.message(),
        "The emulator thread has stopped; reload the ROM."
    );
}

#[test]
fn a_late_bookmark_is_not_placed() {
    let mut thread = thread();
    assert!(thread.bookmark_anchor(false, 11, 10).is_none());
    let placed = thread.bookmark_anchor(false, 10, 10).expect("in time");
    assert!(matches!(placed, Err(BookmarkAnchorError::NoReplay)));
}

#[test]
fn pictures_are_published_once() {
    let mut thread = thread();
    assert!(matches!(thread.refresh_screen_data(), ScreenUpdate::Stats));
    thread.picture_drawn(false);
    assert!(thread.picture_waits);
    assert_eq!(thread.elapsed_time().screen_generation, 0);
    thread.picture_drawn(true);
    assert!(!thread.picture_waits);
    assert_eq!(thread.elapsed_time().screen_generation, 1);
    thread.screens_forced();
    assert_eq!(thread.elapsed_time().screen_generation, 2);
    assert_eq!(thread.elapsed_time().frames, 0);
}

#[test]
fn a_tool_reads_whenever_nothing_runs() {
    let mut thread = thread();
    assert!(thread.tool_turn(false, Some(9)));
    assert!(thread.tool_turn(false, Some(9)));
    thread.tool_freezes(5, vec![1, 2]);
    thread.tool_freezes(u32::MAX as u64 + 1, vec![3]);
    thread.tool_writes(u32::MAX as u64 + 1, vec![3]);
    assert_eq!(thread.freezes.get(&5), Some(&vec![1, 2]));
    assert_eq!(thread.freezes.len(), 1);
    thread.tool_unfreezes(u32::MAX as u64 + 6);
    assert_eq!(thread.freezes.len(), 1);
    thread.tool_unfreezes(5);
    assert!(thread.freezes.is_empty());
}

#[test]
fn the_replay_status_follows_the_threads_answers() {
    let mut status = ReplayStatus::default();
    assert!(!status.stop_playback());
    status.attach_answered(100, 1600, &Ok(()));
    assert!(status.is_playing_back());
    assert_eq!(status.get_playback_total_frames(), 100);
    assert_eq!(status.get_playback_total_milliseconds(), 1600);
    assert!(!status.resume_playback());
    assert!(status.stop_playback());
    assert!(status.is_replay_playback_stopped() && status.has_replay_attached());
    assert!(status.resume_playback());
    assert!(status.is_playing_back());
    let failed = Err(ReplayPlayerAttachError::Failed { description: "unreadable".to_owned() });
    status.attach_answered(5, 5, &failed);
    assert!(!status.has_replay_attached());
    assert_eq!(status.get_playback_total_frames(), 0);
}
