//! A replay that arrives while it is played: the queue between the network and a follower.
//!
//! Snapshots (a keyframe with the state present) supersede everything queued before them: a
//! follower that fell behind jumps rather than replays the backlog. Before the first snapshot every
//! packet is dropped, since there is no state to apply them to.

use super::stream::SnapshotRequestReason;
use crate::replay::packet;
use crate::replay::packet::Packet;
use std::collections::VecDeque;
use vstd::prelude::*;

verus! {

/// Frames a queue holds before it gives up on the backlog and asks for a snapshot instead (20 s at
/// 60 fps, 5 s at 4x).
pub const MAX_QUEUED_FRAMES: u64 = 1200;

/// Shortest time between two snapshot requests from one follower, unless a snapshot arrived in
/// between, in microseconds.
pub const SNAPSHOT_REQUEST_INTERVAL: u64 = 2_000_000;

/// One thing a follower reads from its publisher, in order.
#[derive(Clone, Debug)]
pub enum LiveItem {
    /// A replay packet (a `Keyframe` here is a snapshot with the state present).
    Packet(Packet),
    /// The publisher's work-RAM hash after `frame`.
    SyncHash { frame: u64, hash: [u8; 32] },
}

/// One thing a follower reads, as the contracts see it.
pub ghost enum ItemModel {
    Packet(packet::PacketModel),
    SyncHash { frame: u64, hash: [u8; 32] },
}

impl View for LiveItem {
    type V = ItemModel;

    open spec fn view(&self) -> ItemModel {
        match *self {
            LiveItem::Packet(p) => ItemModel::Packet(p@),
            LiveItem::SyncHash { frame, hash } => ItemModel::SyncHash { frame, hash },
        }
    }
}

impl ItemModel {
    /// Whether this is the end of a frame.
    pub open spec fn ends_frame(self) -> bool {
        self matches ItemModel::Packet(packet::PacketModel::NextFrame { .. })
    }
}

/// What a follower reads, as the contracts see it.
pub open spec fn item_models(items: Seq<LiveItem>) -> Seq<ItemModel> {
    Seq::new(items.len(), |i: int| items[i]@)
}

/// How many frames end among the items.
pub open spec fn frames_in(items: Seq<ItemModel>) -> nat
    decreases items.len(),
{
    if items.len() == 0 {
        0
    } else {
        frames_in(items.drop_last()) + (if items.last().ends_frame() {
            1nat
        } else {
            0nat
        })
    }
}

proof fn lemma_frames_first(items: Seq<ItemModel>)
    requires
        items.len() > 0,
    ensures
        frames_in(items) == (if items[0].ends_frame() {
            1nat
        } else {
            0nat
        }) + frames_in(items.skip(1)),
    decreases items.len(),
{
    if items.len() == 1 {
        assert(items.drop_last() =~= Seq::empty());
        assert(items.skip(1) =~= Seq::empty());
    } else {
        lemma_frames_first(items.drop_last());
        assert(items.drop_last().skip(1) =~= items.skip(1).drop_last());
    }
}

/// What [`LiveReplaySource::pop`] found.
#[derive(Clone, Debug)]
pub enum LivePoll {
    /// The next item.
    Item(LiveItem),
    /// Nothing has arrived yet; the publisher is still going.
    Waiting,
    /// The publisher is gone for good.
    Ended,
}

/// Counters a follower keeps up to date for whoever shows its status.
#[derive(Copy, Clone, Debug, PartialEq, Eq, Structural)]
pub struct FollowerStats {
    /// The newest publisher frame number received.
    pub newest_publisher_frame: u64,
    /// Whether the follower is idle for lack of data, as opposed to keeping up.
    pub waiting: bool,
    /// Snapshots applied so far (the join counts as one).
    pub snapshots_applied: u64,
    /// Sync hashes that did not match the publisher's.
    pub hash_mismatches: u64,
    /// Snapshot requests sent upstream.
    pub snapshot_requests: u64,
    /// Frames emulated.
    pub emulated_frames: u64,
    /// Frames drawn.
    pub drawn_frames: u64,
}

/// A copy of [`FollowerStats`] at one moment, with how far the follower is behind.
#[derive(Copy, Clone, Debug, PartialEq, Eq, Structural)]
pub struct FollowerStatsSnapshot {
    /// Frames the follower is behind the newest frame the publisher sent.
    pub frames_behind: u64,
    pub newest_publisher_frame: u64,
    pub waiting: bool,
    pub snapshots_applied: u64,
    pub hash_mismatches: u64,
    pub snapshot_requests: u64,
    pub emulated_frames: u64,
    pub drawn_frames: u64,
}

impl FollowerStats {
    /// The counters of a follower that is at `frame`.
    pub open spec fn at(self, frame: u64) -> FollowerStatsSnapshot {
        FollowerStatsSnapshot {
            frames_behind: if self.newest_publisher_frame > frame {
                (self.newest_publisher_frame - frame) as u64
            } else {
                0
            },
            newest_publisher_frame: self.newest_publisher_frame,
            waiting: self.waiting,
            snapshots_applied: self.snapshots_applied,
            hash_mismatches: self.hash_mismatches,
            snapshot_requests: self.snapshot_requests,
            emulated_frames: self.emulated_frames,
            drawn_frames: self.drawn_frames,
        }
    }

    /// Copy every counter, for a follower that is at `frame`.
    pub fn snapshot(&self, frame: u64) -> (r: FollowerStatsSnapshot)
        ensures
            r == self.at(frame),
    {
        FollowerStatsSnapshot {
            frames_behind: self.newest_publisher_frame.saturating_sub(frame),
            newest_publisher_frame: self.newest_publisher_frame,
            waiting: self.waiting,
            snapshots_applied: self.snapshots_applied,
            hash_mismatches: self.hash_mismatches,
            snapshot_requests: self.snapshot_requests,
            emulated_frames: self.emulated_frames,
            drawn_frames: self.drawn_frames,
        }
    }
}

impl Default for FollowerStats {
    fn default() -> (r: Self)
        ensures
            r == (FollowerStats {
                newest_publisher_frame: 0,
                waiting: false,
                snapshots_applied: 0,
                hash_mismatches: 0,
                snapshot_requests: 0,
                emulated_frames: 0,
                drawn_frames: 0,
            }),
    {
        FollowerStats {
            newest_publisher_frame: 0,
            waiting: false,
            snapshots_applied: 0,
            hash_mismatches: 0,
            snapshot_requests: 0,
            emulated_frames: 0,
            drawn_frames: 0,
        }
    }
}

/// What a publisher sent and its follower has not read yet.
pub struct LiveReplaySource {
    pub items: VecDeque<LiveItem>,
    /// Frames that end in `items`.
    pub frames_queued: u64,
    /// The publisher's frame number the newest queued frame completes.
    pub newest_frame: u64,
    /// Whether a snapshot has been queued (nothing before one is worth keeping).
    pub have_snapshot: bool,
    /// Snapshot requests are held back until this time unless a snapshot arrives first.
    pub request_allowed_at: Option<u64>,
    /// The publisher is gone.
    pub ended: bool,
    /// The counters, for whoever shows them.
    pub stats: FollowerStats,
    /// Snapshot requests to be forwarded to the publisher.
    pub upstream: Vec<SnapshotRequestReason>,
}

impl LiveReplaySource {
    /// The items, as the contracts see them.
    pub open spec fn queued(self) -> Seq<ItemModel> {
        item_models(self.items@)
    }

    /// The frames are counted, and there are no more than are kept.
    pub open spec fn wf(self) -> bool {
        self.frames_queued == frames_in(self.queued()) && self.frames_queued <= MAX_QUEUED_FRAMES
    }

    /// An empty queue.
    pub fn new() -> (r: Self)
        ensures
            r.wf(),
            r.queued() == Seq::<ItemModel>::empty(),
            r.newest_frame == 0,
            !r.have_snapshot,
            r.request_allowed_at is None,
            !r.ended,
            r.upstream@.len() == 0,
            r.stats == (FollowerStats {
                newest_publisher_frame: 0,
                waiting: false,
                snapshots_applied: 0,
                hash_mismatches: 0,
                snapshot_requests: 0,
                emulated_frames: 0,
                drawn_frames: 0,
            }),
    {
        let r = LiveReplaySource {
            items: VecDeque::new(),
            frames_queued: 0,
            newest_frame: 0,
            have_snapshot: false,
            request_allowed_at: None,
            ended: false,
            stats: FollowerStats::default(),
            upstream: Vec::new(),
        };
        assert(r.queued() =~= Seq::<ItemModel>::empty());
        r
    }

    /// After asking for a snapshot at time `now`: at most one request per interval.
    pub open spec fn asked(self, after: Self, reason: SnapshotRequestReason, now: u64) -> bool {
        if self.request_allowed_at matches Some(at) && now < at {
            after == self
        } else {
            &&& after == (LiveReplaySource {
                request_allowed_at: Some(allowed_next(now)),
                stats: FollowerStats {
                    snapshot_requests: one_more(self.stats.snapshot_requests),
                    ..self.stats
                },
                upstream: after.upstream,
                ..self
            })
            &&& after.upstream@ == self.upstream@.push(reason)
        }
    }

    /// Ask the publisher for a snapshot (at most one per [`SNAPSHOT_REQUEST_INTERVAL`] unless a
    /// snapshot arrives in between). `now` is the time in microseconds.
    pub fn request_snapshot(&mut self, reason: SnapshotRequestReason, now: u64)
        ensures
            old(self).asked(*final(self), reason, now),
            old(self).wf() ==> final(self).wf(),
    {
        if let Some(at) = self.request_allowed_at {
            if now < at {
                return;
            }
        }
        self.request_allowed_at = Some(now.saturating_add(SNAPSHOT_REQUEST_INTERVAL));
        self.stats.snapshot_requests = self.stats.snapshot_requests.saturating_add(1);
        self.upstream.push(reason);
    }

    /// What a packet does to the queue.
    pub open spec fn pushed(self, after: Self, p: packet::PacketModel, now: u64) -> bool {
        match p {
            packet::PacketModel::Keyframe { metadata, .. } => {
                &&& after.queued() == seq![ItemModel::Packet(p)]
                &&& after == (LiveReplaySource {
                    items: after.items,
                    frames_queued: 0,
                    newest_frame: metadata.elapsed_frames,
                    have_snapshot: true,
                    request_allowed_at: None,
                    stats: FollowerStats {
                        newest_publisher_frame: metadata.elapsed_frames,
                        ..self.stats
                    },
                    ..self
                })
            },
            _ => if !self.have_snapshot {
                after == self
            } else if p is NextFrame && self.frames_queued >= MAX_QUEUED_FRAMES {
                let dropped = LiveReplaySource {
                    items: after.items,
                    frames_queued: 0,
                    have_snapshot: false,
                    ..self
                };
                &&& after.queued() == Seq::<ItemModel>::empty()
                &&& dropped.asked(after, SnapshotRequestReason::QueueOverflow, now)
            } else {
                let newest = if p is NextFrame {
                    one_more(self.newest_frame)
                } else {
                    self.newest_frame
                };
                &&& after.queued() == self.queued().push(ItemModel::Packet(p))
                &&& after == (LiveReplaySource {
                    items: after.items,
                    frames_queued: if p is NextFrame {
                        (self.frames_queued + 1) as u64
                    } else {
                        self.frames_queued
                    },
                    newest_frame: newest,
                    stats: FollowerStats { newest_publisher_frame: newest, ..self.stats },
                    ..self
                })
            },
        }
    }

    /// Queue a packet. A `Keyframe` (a snapshot) clears whatever was queued before it; before the
    /// first snapshot everything else is dropped. A backlog that is far too much to catch up on is
    /// dropped for a fresh state.
    pub fn push_packet(&mut self, p: Packet, now: u64)
        requires
            old(self).wf(),
        ensures
            final(self).wf(),
            old(self).pushed(*final(self), p@, now),
    {
        let ghost before = self.queued();
        let ghost model = p@;
        match &p {
            Packet::Keyframe { metadata, .. } => {
                self.items = VecDeque::new();
                self.frames_queued = 0;
                self.newest_frame = metadata.elapsed_frames;
                self.have_snapshot = true;
                self.request_allowed_at = None;
            },
            Packet::NextFrame { .. } => {
                if !self.have_snapshot {
                    return;
                }
                if self.frames_queued >= MAX_QUEUED_FRAMES {
                    self.items = VecDeque::new();
                    self.frames_queued = 0;
                    self.have_snapshot = false;
                    assert(self.queued() =~= Seq::<ItemModel>::empty());
                    self.request_snapshot(SnapshotRequestReason::QueueOverflow, now);
                    return;
                }
                self.frames_queued = self.frames_queued + 1;
                self.newest_frame = self.newest_frame.saturating_add(1);
            },
            _ => {
                if !self.have_snapshot {
                    return;
                }
            },
        }
        self.stats.newest_publisher_frame = self.newest_frame;
        let ghost kept = self.queued();
        self.items.push_back(LiveItem::Packet(p));
        proof {
            assert(self.queued() =~= kept.push(ItemModel::Packet(model)));
            assert(self.queued().drop_last() =~= kept);
            assert(self.queued().last() == ItemModel::Packet(model));
            if model is Keyframe {
                assert(kept =~= Seq::<ItemModel>::empty());
                assert(frames_in(kept) == 0);
                assert(self.queued() =~= seq![ItemModel::Packet(model)]);
            } else {
                assert(kept =~= before);
                assert(ItemModel::Packet(model).ends_frame() == (model is NextFrame));
            }
        }
    }

    /// Queue a sync hash (dropped before the first snapshot).
    pub fn push_sync_hash(&mut self, frame: u64, hash: [u8; 32])
        requires
            old(self).wf(),
        ensures
            final(self).wf(),
            *final(self) == (LiveReplaySource { items: final(self).items, ..*old(self) }),
            final(self).queued() == (if old(self).have_snapshot {
                old(self).queued().push(ItemModel::SyncHash { frame, hash })
            } else {
                old(self).queued()
            }),
    {
        if !self.have_snapshot {
            return;
        }
        let ghost before = self.queued();
        self.items.push_back(LiveItem::SyncHash { frame, hash });
        proof {
            assert(self.queued() =~= before.push(ItemModel::SyncHash { frame, hash }));
            assert(self.queued().drop_last() =~= before);
        }
    }

    /// The publisher is gone: whatever is queued still plays, then the follower stalls.
    pub fn end(&mut self)
        ensures
            *final(self) == (LiveReplaySource { ended: true, ..*old(self) }),
            old(self).wf() ==> final(self).wf(),
    {
        self.ended = true;
    }

    /// Whether a snapshot has been queued since the queue was made (or since the last overflow).
    pub fn has_snapshot(&self) -> (r: bool)
        ensures
            r == self.have_snapshot,
    {
        self.have_snapshot
    }

    /// Take the next item, if any.
    pub fn pop(&mut self) -> (r: LivePoll)
        requires
            old(self).wf(),
        ensures
            final(self).wf(),
            old(self).popped(*final(self), r),
    {
        let ghost before = self.queued();
        let ghost items = self.items@;
        if self.items.len() == 0 {
            return if self.ended {
                LivePoll::Ended
            } else {
                LivePoll::Waiting
            };
        }
        let popped: Option<LiveItem> = self.items.pop_front();
        match popped {
            Some(item) => {
                proof {
                    assert(before[0] == items[0]@);
                    lemma_frames_first(before);
                    assert(self.queued() =~= before.skip(1));
                    assert(item@ == before[0]);
                }
                if let LiveItem::Packet(Packet::NextFrame { .. }) = &item {
                    self.frames_queued = self.frames_queued - 1;
                }
                LivePoll::Item(item)
            },
            None => LivePoll::Waiting,
        }
    }

    /// What taking the next item does.
    pub open spec fn popped(self, after: Self, r: LivePoll) -> bool {
        if self.queued().len() > 0 {
            let ends = self.queued()[0].ends_frame();
            &&& r matches LivePoll::Item(item) && item@ == self.queued()[0]
            &&& after.queued() == self.queued().skip(1)
            &&& after == (LiveReplaySource {
                items: after.items,
                frames_queued: if ends {
                    (self.frames_queued - 1) as u64
                } else {
                    self.frames_queued
                },
                ..self
            })
        } else {
            &&& after == self
            &&& r == (if self.ended {
                LivePoll::Ended
            } else {
                LivePoll::Waiting
            })
        }
    }

    /// Complete frames queued and not yet read.
    pub fn frames_available(&self) -> (r: u64)
        requires
            self.wf(),
        ensures
            r == frames_in(self.queued()),
    {
        self.frames_queued
    }

    /// The publisher's newest frame number received.
    pub fn newest_publisher_frame(&self) -> (r: u64)
        ensures
            r == self.newest_frame,
    {
        self.newest_frame
    }
}

/// When the request after one made at `now` may be made.
pub open spec fn allowed_next(now: u64) -> u64 {
    if now + SNAPSHOT_REQUEST_INTERVAL > u64::MAX {
        u64::MAX
    } else {
        (now + SNAPSHOT_REQUEST_INTERVAL) as u64
    }
}

/// One more than `n`, stopping at the largest number.
pub open spec fn one_more(n: u64) -> u64 {
    if n == u64::MAX {
        n
    } else {
        (n + 1) as u64
    }
}

/// A snapshot supersedes everything queued before it: whatever the queue held, the follower reads
/// the snapshot next and nothing older.
pub proof fn law_snapshots_supersede(
    before: LiveReplaySource,
    after: LiveReplaySource,
    p: packet::PacketModel,
    now: u64,
)
    requires
        before.pushed(after, p, now),
        p is Keyframe,
    ensures
        after.queued() == seq![ItemModel::Packet(p)],
        after.have_snapshot,
{
}

/// Requests are limited until a snapshot arrives: a second one within the interval changes
/// nothing, one after a snapshot goes out.
pub proof fn law_requests_are_limited(
    first: LiveReplaySource,
    second: LiveReplaySource,
    third: LiveReplaySource,
    reason: SnapshotRequestReason,
    again: SnapshotRequestReason,
    now: u64,
    later: u64,
)
    requires
        first.request_allowed_at is None,
        first.asked(second, reason, now),
        second.asked(third, again, later),
        later < allowed_next(now),
    ensures
        second.upstream@ == first.upstream@.push(reason),
        third == second,
{
}

/// A queue that overflowed keeps nothing but the request for a snapshot, and what arrives before
/// the snapshot is dropped.
pub proof fn law_overflow_drops_the_backlog(
    before: LiveReplaySource,
    after: LiveReplaySource,
    later: LiveReplaySource,
    p: packet::PacketModel,
    next: packet::PacketModel,
    now: u64,
)
    requires
        before.have_snapshot,
        before.frames_queued >= MAX_QUEUED_FRAMES,
        p is NextFrame,
        before.pushed(after, p, now),
        !(next is Keyframe),
        after.pushed(later, next, now),
    ensures
        after.queued() == Seq::<ItemModel>::empty(),
        later == after,
{
}

} // verus!
