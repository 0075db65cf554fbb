//! Live publishing of the running session.

use vstd::prelude::*;

verus! {

/// Frames between two sync hashes of a publisher's work RAM (one emulated second).
pub const SYNC_HASH_INTERVAL_FRAMES: u64 = 60;

/// Why a follower asks its publisher for a snapshot.
#[derive(Copy, Clone, Debug, PartialEq, Eq, Structural)]
pub enum SnapshotRequestReason {
    /// The follower just attached and has no state yet.
    Join,
    /// The follower's work RAM hash differed from the publisher's at the same frame.
    HashMismatch,
    /// The follower is so far behind that emulating the backlog costs more than a state load.
    TooFarBehind,
    /// The follower's queue overflowed and the backlog was dropped.
    QueueOverflow,
    /// Packets went missing between the publisher and the follower.
    Gap,
}

impl SnapshotRequestReason {
    /// The reason in words.
    pub open spec fn text(self) -> Seq<char> {
        match self {
            SnapshotRequestReason::Join => "joining"@,
            SnapshotRequestReason::HashMismatch => "desynced"@,
            SnapshotRequestReason::TooFarBehind => "too far behind"@,
            SnapshotRequestReason::QueueOverflow => "queue overflowed"@,
            SnapshotRequestReason::Gap => "packets were lost"@,
        }
    }

    /// The reason in words.
    pub fn message(&self) -> (r: &'static str)
        ensures
            r@ == self.text(),
    {
        match self {
            SnapshotRequestReason::Join => "joining",
            SnapshotRequestReason::HashMismatch => "desynced",
            SnapshotRequestReason::TooFarBehind => "too far behind",
            SnapshotRequestReason::QueueOverflow => "queue overflowed",
            SnapshotRequestReason::Gap => "packets were lost",
        }
    }
}

} // verus!
