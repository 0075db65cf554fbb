use std::collections::BTreeMap;
use supershuckie::play_together::cable::{
    link_family, same_hash, LinkFailure, LinkFrame, LinkInbox,
};
use supershuckie::ordered::{keys_in_order, remove_through};
use supershuckie::play_together::live::{
    LiveItem, LivePoll, LiveReplaySource, MAX_QUEUED_FRAMES, SNAPSHOT_REQUEST_INTERVAL,
};
use supershuckie::play_together::stream::SnapshotRequestReason;
use supershuckie::replay::packet::{KeyframeMetadata, Packet, Speed, NORMAL_SPEED};
use supershuckie::replay::player::ReplayConsoleType;

fn keyframe(frame: u64) -> Packet {
    Packet::Keyframe {
        metadata: KeyframeMetadata {
            input: Vec::new(),
            speed: Speed { units: NORMAL_SPEED },
            elapsed_frames: frame,
            elapsed_millis: 0,
            counters: Vec::new(),
        },
        state: vec![1, 2, 3],
    }
}

fn next_frame() -> Packet {
    Packet::NextFrame { timestamp_delta: 16 }
}

#[test]
fn packets_before_the_first_snapshot_are_dropped_and_a_snapshot_clears_the_backlog() {
    let mut source = LiveReplaySource::new();

    source.push_packet(next_frame(), 0);
    assert!(matches!(source.pop(), LivePoll::Waiting));
    assert_eq!(source.frames_available(), 0);

    source.push_packet(keyframe(10), 0);
    source.push_packet(next_frame(), 0);
    source.push_packet(next_frame(), 0);
    assert_eq!(source.frames_available(), 2);
    assert_eq!(source.newest_publisher_frame(), 12);

    source.push_packet(keyframe(50), 0);
    assert_eq!(source.frames_available(), 0);
    assert_eq!(source.newest_publisher_frame(), 50);
    assert!(matches!(source.pop(), LivePoll::Item(LiveItem::Packet(Packet::Keyframe { .. }))));
    assert!(matches!(source.pop(), LivePoll::Waiting));

    source.end();
    assert!(matches!(source.pop(), LivePoll::Ended));
}

#[test]
fn overflow_drops_the_queue_and_requests_a_snapshot_once() {
    let mut source = LiveReplaySource::new();

    source.push_packet(keyframe(0), 0);
    for _ in 0..MAX_QUEUED_FRAMES + 5 {
        source.push_packet(next_frame(), 0);
    }
    assert_eq!(source.frames_available(), 0, "the backlog is dropped");
    assert_eq!(source.upstream.len(), 1, "one request, not one per dropped packet");
    assert!(matches!(source.upstream[0], SnapshotRequestReason::QueueOverflow));
    assert_eq!(source.stats.snapshot_requests, 1);

    // Nothing is kept until the snapshot answers.
    source.push_packet(next_frame(), 0);
    assert!(matches!(source.pop(), LivePoll::Waiting));
    source.push_packet(keyframe(2000), 0);
    assert!(matches!(source.pop(), LivePoll::Item(LiveItem::Packet(Packet::Keyframe { .. }))));
}

#[test]
fn snapshot_requests_are_rate_limited_until_a_snapshot_arrives() {
    let mut source = LiveReplaySource::new();

    source.request_snapshot(SnapshotRequestReason::Join, 0);
    source.request_snapshot(SnapshotRequestReason::HashMismatch, 0);
    assert_eq!(source.upstream.len(), 1, "a second request within the interval is held back");
    assert!(matches!(source.upstream[0], SnapshotRequestReason::Join));

    source.push_packet(keyframe(0), 0);
    source.request_snapshot(SnapshotRequestReason::HashMismatch, 0);
    assert_eq!(source.upstream.len(), 2, "a snapshot re-arms the limiter");
    assert!(matches!(source.upstream[1], SnapshotRequestReason::HashMismatch));
}

#[test]
fn a_request_is_allowed_again_after_the_interval() {
    let mut source = LiveReplaySource::new();
    source.request_snapshot(SnapshotRequestReason::Join, 10);
    source.request_snapshot(SnapshotRequestReason::Join, 10 + SNAPSHOT_REQUEST_INTERVAL - 1);
    assert_eq!(source.upstream.len(), 1);
    source.request_snapshot(SnapshotRequestReason::Join, 10 + SNAPSHOT_REQUEST_INTERVAL);
    assert_eq!(source.upstream.len(), 2);
}

#[test]
fn sync_hashes_are_queued_with_the_packets() {
    let mut source = LiveReplaySource::new();
    source.push_sync_hash(5, [9; 32]);
    assert!(matches!(source.pop(), LivePoll::Waiting), "nothing before a snapshot");
    source.push_packet(keyframe(0), 0);
    source.push_sync_hash(5, [9; 32]);
    let _ = source.pop();
    match source.pop() {
        LivePoll::Item(LiveItem::SyncHash { frame, hash }) => {
            assert_eq!(frame, 5);
            assert!(same_hash(&hash, &[9; 32]));
            assert!(!same_hash(&hash, &[8; 32]));
        }
        _ => panic!("a hash was queued"),
    }
}

#[test]
fn frames_the_pair_has_run_are_moot() {
    let frame = |n: u64| LinkFrame { events: Vec::new(), elapsed_millis: n, pair_hash: None };
    let mut inbox = LinkInbox::new();
    inbox.push(4, frame(4));
    inbox.push(5, frame(5));
    assert_eq!(inbox.newest(), 5);
    assert!(inbox.take(3).is_none());
    assert_eq!(inbox.take(4).expect("frame 4").elapsed_millis, 4);
    assert!(inbox.take(4).is_none(), "taken once");
    inbox.push(4, frame(4));
    assert!(inbox.take(4).is_none(), "a frame that has been run is not kept");
    assert!(inbox.take(5).is_some());
    assert!(!inbox.ended());
    inbox.end();
    assert!(inbox.ended());
}

#[test]
fn keys_are_listed_and_removed_in_their_order() {
    let mut map: BTreeMap<u64, u8> = BTreeMap::new();
    assert!(keys_in_order(&map).is_empty());
    for key in [7, 3, 900, 4] {
        map.insert(key, key as u8);
    }
    assert_eq!(keys_in_order(&map), vec![3, 4, 7, 900]);
    remove_through(&mut map, 2);
    assert_eq!(map.len(), 4);
    remove_through(&mut map, 4);
    assert_eq!(keys_in_order(&map), vec![7, 900]);
    remove_through(&mut map, u64::MAX);
    assert!(map.is_empty());
}

#[test]
fn only_consoles_of_one_family_link() {
    let gb = link_family(Some(ReplayConsoleType::GameBoy));
    assert!(gb.is_some());
    assert_eq!(gb, link_family(Some(ReplayConsoleType::GameBoyColor)));
    assert_eq!(gb, link_family(Some(ReplayConsoleType::SuperGameBoy2)));
    assert_ne!(gb, link_family(Some(ReplayConsoleType::GameBoyAdvance)));
    assert_eq!(link_family(Some(ReplayConsoleType::NintendoDS)), None);
    assert_eq!(link_family(None), None);
}

#[test]
fn link_failures_explain_themselves() {
    assert!(!LinkFailure::PartnerEnded.message().is_empty());
    assert!(LinkFailure::PairHashMismatch { frame: 120 }.message().contains("120"));
    for reason in [
        SnapshotRequestReason::Join,
        SnapshotRequestReason::HashMismatch,
        SnapshotRequestReason::QueueOverflow,
    ] {
        assert!(!reason.message().is_empty());
    }
}
