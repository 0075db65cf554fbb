//! Publishing the running session to whoever follows it.
//!
//! Everything that reproduces the session goes out as it happens, in order, whether or not a replay
//! is being recorded: a complete state when publishing starts and whenever one is asked for, then
//! what is done to the console, each frame that ran, and every so often a hash of the work RAM by
//! which a follower can tell that it has drifted. Speed changes, keyframes, bookmarks and timer marks
//! stay here: a follower paces itself on arrival and keeps its own file.

use super::effects;
use super::effects::Effect;
use super::following;
use super::state::{MonotonicTimestampProvider, SuperShuckieCore, TogetherState};
use crate::emulator::console::{CoreCall, EmulatorCore, RunTime};
use crate::play_together::live;
use crate::play_together::stream::{SnapshotRequestReason, SYNC_HASH_INTERVAL_FRAMES};
use crate::replay::packet;
use crate::replay::packet::{Counter, KeyframeMetadata};
use vstd::prelude::*;

verus! {

/// Whether one of the `ran` frames that ended with frame `frame` is one after which a hash is sent.
pub open spec fn hash_due(frame: u64, ran: u64) -> bool {
    frame % SYNC_HASH_INTERVAL_FRAMES < ran
}

/// A hash is sent after every so many frames; a run of several frames that passes one of those sends
/// it where the run ends.
pub proof fn law_hashes_come_regularly(frame: u64, ran: u64)
    requires
        1 <= ran <= frame,
    ensures
        ran == 1 ==> (hash_due(frame, ran) <==> frame % SYNC_HASH_INTERVAL_FRAMES == 0),
        hash_due(frame, ran) <==> exists|k: int|
            frame - ran < k <= frame && #[trigger] (k % SYNC_HASH_INTERVAL_FRAMES as int) == 0,
{
    let every = SYNC_HASH_INTERVAL_FRAMES as int;
    if hash_due(frame, ran) {
        let k = frame - frame % SYNC_HASH_INTERVAL_FRAMES;
        assert(k % every == 0);
    }
}

impl<C: EmulatorCore, T: MonotonicTimestampProvider> SuperShuckieCore<C, T> {
    // -----------------------------------------------------------------------------------------
    // Snapshots.

    /// The session as it is now: the exact state, and the input, speed, frame counter, time and
    /// counters that go with it.
    pub open spec fn snapshot(self) -> effects::Out {
        effects::Out::PublishSnapshot {
            metadata: packet::KeyframeModel {
                input: self.core.encoded(self.input.current),
                speed: self.audio.speed,
                elapsed_frames: self.timer.frames,
                elapsed_millis: self.timer.millis,
                counters: following::counters_of(self.playback.counters),
            },
            state: self.core.state(),
        }
    }

    /// After a snapshot went out, if one is due and the console is between frames.
    pub open spec fn snapshot_sent(self, after: Self) -> bool {
        if self.together.publishing && self.together.snapshot_due && !self.core.mid_frame() {
            &&& after == (SuperShuckieCore {
                together: TogetherState { snapshot_due: false, ..self.together },
                effects: after.effects,
                ..self
            })
            &&& after.outs() == self.outs() + seq![self.snapshot()]
        } else {
            after == self
        }
    }

    fn send_snapshot_if_due(&mut self)
        ensures
            old(self).snapshot_sent(*final(self)),
            old(self).wf() ==> final(self).wf(),
    {
        if !self.together.publishing || !self.together.snapshot_due || self.core.is_mid_frame() {
            return;
        }
        let counters: Vec<Counter> = match &self.playback.counters {
            Some(counters) => packet::copy_counters(counters),
            None => Vec::new(),
        };
        assert(packet::counter_models(counters@) =~= following::counters_of(self.playback.counters));
        let metadata = KeyframeMetadata {
            input: self.core.encode_input(self.input.current),
            speed: self.audio.speed,
            elapsed_frames: self.timer.frames,
            elapsed_millis: self.timer.millis,
            counters,
        };
        let state: Vec<u8> = self.core.create_save_state();
        self.together.snapshot_due = false;
        self.tell(Effect::PublishSnapshot { metadata, state });
    }

    /// After publishing was started or stopped: whoever was published to is told that nothing
    /// follows, and whoever is from now on gets a snapshot first.
    pub open spec fn publisher_set(self, after: Self, publishing: bool) -> bool {
        exists|ended: Self| #[trigger]
            self.told(ended, effects::only_if(self.together.publishing, effects::Out::PublishEnd))
                && (SuperShuckieCore {
                together: TogetherState {
                    publishing,
                    snapshot_due: publishing,
                    ..ended.together
                },
                ..ended
            }).snapshot_sent(after)
    }

    /// Publish the session (to somebody else than before), or stop publishing it.
    pub fn set_stream_publisher(&mut self, publishing: bool)
        ensures
            old(self).publisher_set(*final(self), publishing),
            old(self).wf() ==> final(self).wf(),
    {
        let ghost before = *self;
        self.publish(Effect::PublishEnd);
        let ghost ended = *self;
        assert(before.told(
            ended,
            effects::only_if(before.together.publishing, effects::Out::PublishEnd),
        ));
        self.together.publishing = publishing;
        self.together.snapshot_due = publishing;
        self.send_snapshot_if_due();
    }

    /// Send a snapshot to whoever the session is published to: now, or once the frame that is partly
    /// emulated completes.
    pub fn request_stream_snapshot(&mut self)
        ensures
            if old(self).together.publishing {
                (SuperShuckieCore {
                    together: TogetherState { snapshot_due: true, ..old(self).together },
                    ..*old(self)
                }).snapshot_sent(*final(self))
            } else {
                *final(self) == *old(self)
            },
            old(self).wf() ==> final(self).wf(),
    {
        if !self.together.publishing {
            return;
        }
        self.together.snapshot_due = true;
        self.send_snapshot_if_due();
    }

    // -----------------------------------------------------------------------------------------
    // Hashes.

    /// What goes out of the work RAM's hash after a run.
    pub open spec fn hash_outs(self, time: RunTime) -> Seq<effects::Out> {
        match self.core.work_ram_hash() {
            Some(hash) => effects::only_if(
                !self.playing_back() && hash_due(self.timer.frames, time.frames),
                effects::Out::PublishHash { frame: self.timer.frames, hash },
            ),
            None => Seq::empty(),
        }
    }

    /// After the hash and the snapshot that a run made due went out.
    pub open spec fn synced(self, after: Self, time: RunTime) -> bool {
        if time.frames == 0 || self.core.mid_frame() || !self.together.publishing {
            after == self
        } else {
            exists|hashed: Self| #[trigger]
                self.told(hashed, self.hash_outs(time)) && hashed.snapshot_sent(after)
        }
    }

    /// Publish the work RAM's hash and a snapshot, if they are due.
    pub fn publish_sync(&mut self, time: RunTime)
        ensures
            old(self).synced(*final(self), time),
            old(self).wf() ==> final(self).wf(),
    {
        if time.frames == 0 || self.core.is_mid_frame() || !self.together.publishing {
            return;
        }
        let ghost before = *self;
        assert(before.outs() + Seq::<effects::Out>::empty() =~= before.outs());
        if !self.is_playing_back() && self.timer.frames % SYNC_HASH_INTERVAL_FRAMES < time.frames {
            if let Some(hash) = self.core.sync_hash() {
                self.tell(Effect::PublishHash { frame: self.timer.frames, hash });
            }
        }
        let ghost hashed = *self;
        assert(before.told(hashed, before.hash_outs(time)));
        self.send_snapshot_if_due();
    }
}

/// Publishing begins with a snapshot of the session as it is, if the console is between frames; if it
/// is not, the snapshot is owed, and goes out with the run that completes the frame.
pub proof fn law_publishing_begins_with_a_snapshot<C: EmulatorCore, T: MonotonicTimestampProvider>(
    before: SuperShuckieCore<C, T>,
    after: SuperShuckieCore<C, T>,
)
    requires
        before.publisher_set(after, true),
    ensures
        after.together.publishing,
        after.core == before.core,
        if before.core.mid_frame() {
            after.together.snapshot_due
        } else {
            !after.together.snapshot_due && after.outs().last() == before.snapshot()
        },
{
}

/// A snapshot that is owed goes out after the first run that ends a frame, behind that frame and its
/// hash.
pub proof fn law_owed_snapshots_go_out_between_frames<
    C: EmulatorCore,
    T: MonotonicTimestampProvider,
>(before: SuperShuckieCore<C, T>, after: SuperShuckieCore<C, T>, time: RunTime)
    requires
        before.together.publishing,
        before.together.snapshot_due,
        before.synced(after, time),
    ensures
        time.frames > 0 && !before.core.mid_frame() ==> !after.together.snapshot_due
            && after.outs().last() == before.snapshot(),
        time.frames == 0 || before.core.mid_frame() ==> after.together.snapshot_due
            && after.outs() == before.outs(),
{
}

/// A snapshot that a follower can load puts it exactly where the publisher was: it is given the
/// publisher's state and then the publisher's input, and is at the same frame and time with the same
/// counters.
pub proof fn law_a_snapshot_puts_a_follower_where_the_publisher_was<
    P: EmulatorCore,
    S: MonotonicTimestampProvider,
    C: EmulatorCore,
    T: MonotonicTimestampProvider,
>(
    publisher: SuperShuckieCore<P, S>,
    before: SuperShuckieCore<C, T>,
    put: SuperShuckieCore<C, T>,
    after: SuperShuckieCore<C, T>,
    metadata: packet::KeyframeModel,
    state: Seq<u8>,
)
    requires
        publisher.snapshot() == (effects::Out::PublishSnapshot { metadata, state }),
        before.snapshot_put(after, put, None, metadata, state),
    ensures
        after.core.log() == before.core.log() + seq![
            CoreCall::LoadSaveState { state: publisher.core.state(), error: None },
            CoreCall::SetInput { data: publisher.core.encoded(publisher.input.current) },
        ],
        after.timer.frames == publisher.timer.frames,
        after.timer.millis == publisher.timer.millis,
        after.playback.speed == publisher.audio.speed,
        following::counters_of(after.playback.counters) == following::counters_of(
            publisher.playback.counters,
        ),
        !after.playback.stalled,
{
}

/// A follower that is in step with its publisher is not disturbed by a hash; one that has drifted
/// counts that and asks for a snapshot (if it may already ask again), unless it has only just loaded
/// a state.
pub proof fn law_drift_is_noticed<
    P: EmulatorCore,
    S: MonotonicTimestampProvider,
    C: EmulatorCore,
    T: MonotonicTimestampProvider,
>(
    publisher: SuperShuckieCore<P, S>,
    time: RunTime,
    before: SuperShuckieCore<C, T>,
    after: SuperShuckieCore<C, T>,
    frame: u64,
    hash: [u8; 32],
)
    requires
        publisher.hash_outs(time) == seq![effects::Out::PublishHash { frame, hash }],
        before.hash_checked(after, frame, hash),
        before.timer.frames == publisher.timer.frames,
        before.together.follower is Some,
    ensures
        publisher.core.work_ram_hash() == Some(hash),
        before.core.work_ram_hash() == publisher.core.work_ram_hash() ==> after == before,
        before.core.work_ram_hash() matches Some(mine) && mine@ != hash@
            && before.timer.frames >= before.following().hash_suppressed_until
            ==> {
            let source = before.following().source;
            let told = after.following().source;
            &&& told.stats.hash_mismatches == live::one_more(source.stats.hash_mismatches)
            &&& source.request_allowed_at is None ==> told.upstream@ == source.upstream@.push(
                SnapshotRequestReason::HashMismatch,
            )
        },
{
    let outs = publisher.hash_outs(time);
    assert(outs.len() == 1 && outs[0] == (effects::Out::PublishHash { frame, hash }));
    assert(publisher.core.work_ram_hash() is Some);
}

} // verus!
