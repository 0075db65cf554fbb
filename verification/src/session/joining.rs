//! What two players can rely on: who may be linked or followed, that everything sent arrives in
//! order and counts once, and that times, bookmarks and marks mean what they say.

use super::anchors;
use super::anchors::{BookmarkAnchor, BookmarkAnchorError};
use super::compat;
use super::following;
use super::publishing;
use super::state::{MonotonicTimestampProvider, SuperShuckieCore};
use crate::emulator::console;
use crate::emulator::console::{CoreCall, EmulatorCore, RunTime};
use crate::emulator::input::Input;
use crate::emulator::link;
use crate::play_together::cable;
use crate::play_together::cable::{LinkFrame, LinkInbox, LinkSettings, LinkState};
use crate::play_together::live;
use crate::play_together::live::{FollowerStats, ItemModel, LivePoll, LiveReplaySource};
use crate::play_together::stream::SnapshotRequestReason;
use crate::replay::packet;
use crate::replay::player::{ReplayConsoleType, ReplayFileMetadata};
use crate::session::effects;
use vstd::prelude::*;

verus! {

// ---------------------------------------------------------------------------------------------
// The cable.

/// Whether a console has the Game Boy's cable.
pub open spec fn has_game_boy_cable(console: ReplayConsoleType) -> bool {
    console == ReplayConsoleType::GameBoy || console == ReplayConsoleType::GameBoyColor || console
        == ReplayConsoleType::SuperGameBoy2
}

/// Game Boys of all kinds fit the same cable, a Game Boy Advance fits another one's, and no other
/// console fits any.
pub proof fn law_which_consoles_fit_a_cable(a: ReplayConsoleType, b: ReplayConsoleType)
    ensures
        (cable::family(Some(a)) is Some && cable::family(Some(a)) == cable::family(Some(b))) <==> (
        has_game_boy_cable(a) && has_game_boy_cable(b)) || (a == ReplayConsoleType::GameBoyAdvance
            && b == ReplayConsoleType::GameBoyAdvance),
        cable::family(None) is None,
{
}

/// The cable goes in exactly if the local console is held at the frame agreed on, the partner's game
/// is followed and at its frame, neither is linked already or in the middle of a frame, both have a
/// port of the same kind, and inputs are delayed at all.
pub proof fn law_when_the_cable_goes_in<C: EmulatorCore, T: MonotonicTimestampProvider>(
    local: SuperShuckieCore<C, T>,
    partner: SuperShuckieCore<C, T>,
    settings: LinkSettings,
)
    ensures
        local.link_refused(partner, settings) is None <==> {
            &&& local.together.holding
            &&& local.together.link is None && local.together.partner is None
            &&& partner.together.link is None && partner.together.partner is None
            &&& !local.core.mid_frame()
            &&& local.timer.frames == settings.local_start_frame
            &&& partner.together.follower is Some
            &&& !partner.core.mid_frame()
            &&& partner.timer.frames == settings.partner_start_frame
            &&& cable::family(local.core.identity().console) is Some
            &&& cable::family(local.core.identity().console) == cable::family(
                partner.core.identity().console,
            )
            &&& settings.delay_frames > 0
            &&& local.core.identity().has_link_port
            &&& partner.core.identity().has_link_port
        },
{
}

/// A console is held for a link unless a replay is attached, it is linked already, or it has no
/// port.
pub proof fn law_when_a_console_is_held<C: EmulatorCore, T: MonotonicTimestampProvider>(
    local: SuperShuckieCore<C, T>,
)
    ensures
        local.hold_refused() is None <==> {
            &&& !local.playing_back()
            &&& local.playback.player is None
            &&& local.together.link is None && local.together.partner is None
            &&& local.core.identity().has_link_port
        },
{
}

/// The two ends of a cable are different ones: the partner's console is told the other end than the
/// local one. Once both are plugged in, the local console has nothing scheduled but the input it
/// held, for as many frames as inputs are delayed.
pub proof fn law_the_ends_of_a_cable_differ<C: EmulatorCore, T: MonotonicTimestampProvider>(
    local: SuperShuckieCore<C, T>,
    plugged: SuperShuckieCore<C, T>,
    partner: SuperShuckieCore<C, T>,
    partner_plugged: SuperShuckieCore<C, T>,
    settings: LinkSettings,
)
    requires
        local.plugged(plugged, settings.local_is_first, None),
        partner.partner_plugged(partner_plugged, settings, None),
    ensures
        plugged.core.log().last() == (CoreCall::Connect {
            first: settings.local_is_first,
            error: None,
        }),
        partner_plugged.core.log().last() == (CoreCall::Connect {
            first: !settings.local_is_first,
            error: None,
        }),
{
}

/// Until the first delayed input arrives, both consoles run with what the local one held when the
/// cable went in.
pub proof fn law_a_new_cable_holds_the_input<C: EmulatorCore, T: MonotonicTimestampProvider>(
    held: SuperShuckieCore<C, T>,
    laid: SuperShuckieCore<C, T>,
    settings: LinkSettings,
    frame: u64,
)
    requires
        held.cable_laid(laid, settings),
    ensures
        ({
            let link = laid.together.link->Some_0;
            &&& laid.together.link is Some
            &&& !laid.together.holding
            &&& link.frame == 0
            &&& link.next_send_frame - link.frame == settings.delay_frames
            &&& frame < settings.delay_frames ==> link.scheduled(frame) == seq![
                packet::PacketModel::ChangeInput { data: held.core.encoded(held.input.current) },
            ] && link.scheduled_input(frame) == Some(held.input.current)
            &&& frame >= settings.delay_frames ==> link.scheduled(frame).len() == 0
        }),
{
}

/// What the partner sent for a link frame is what is taken for it, whatever else arrived; what was
/// run already, or is too far ahead, is not kept.
pub proof fn law_what_was_sent_is_taken(
    before: LinkInbox,
    kept: LinkInbox,
    after: LinkInbox,
    frame: u64,
    other: u64,
    sent: LinkFrame,
    r: Option<LinkFrame>,
)
    requires
        kept.frames@ == before.frames@.insert(frame, sent),
        kept.took(after, frame, r),
    ensures
        r == Some(sent),
        other > frame && before.frames@.contains_key(other) ==> after.frames@.contains_key(other)
            && after.frames@[other] == before.frames@[other],
        before.keeps(frame) <==> before.applied <= frame && frame - before.applied <= 600,
{
}

/// Events scheduled for a link frame keep their order, and a reset goes before all of them.
pub proof fn law_scheduled_events_keep_their_order(
    before: LinkState,
    after: LinkState,
    p: packet::PacketModel,
)
    requires
        before.with_scheduled(after, p),
    ensures
        ({
            let was = before.scheduled(before.next_send_frame);
            let now = after.scheduled(before.next_send_frame);
            &&& now.len() == was.len() + 1
            &&& !(p is ResetConsole) ==> now.last() == p && now.drop_last() == was
            &&& p is ResetConsole ==> now[0] == p && now.skip(1) == was
        }),
{
    let was = before.scheduled(before.next_send_frame);
    let now = after.scheduled(before.next_send_frame);
    if p is ResetConsole {
        assert(now.skip(1) =~= was);
    } else {
        assert(now.drop_last() =~= was);
    }
}

/// A pair hash falls due with every sixtieth frame of the first console and at no other.
pub proof fn law_pair_hashes_fall_due(link: LinkState)
    requires
        link.first_frames < u64::MAX,
    ensures
        link.with_first_frame().first_frames == link.first_frames + 1,
        (link.first_frames + 1) % 60 == 0 ==> link.with_first_frame().hash_due_at == Some(
            (link.first_frames + 1) as u64,
        ),
        (link.first_frames + 1) % 60 != 0 ==> link.with_first_frame().hash_due_at
            == link.hash_due_at,
{
}

/// A pair hash that was computed goes to the partner with the next link frame and is remembered for
/// its own frame, the newest few being kept.
pub proof fn law_computed_hashes_are_remembered(
    before: LinkState,
    noted: LinkState,
    frame: u64,
    hash: [u8; 32],
)
    requires
        before.with_computed(frame, hash, noted),
    ensures
        noted.pending_hash == Some((frame, hash)),
        noted.computed_hashes@.len() > 0 && noted.computed_hashes@.last() == (frame, hash),
        noted.computed_hashes@.len() <= 8,
        before.computed_hashes@.len() < 8 ==> noted.computed_hashes@.drop_last()
            == before.computed_hashes@,
{
    if before.computed_hashes@.len() < 8 {
        assert(noted.computed_hashes@.drop_last() =~= before.computed_hashes@);
    }
}

// ---------------------------------------------------------------------------------------------
// The queue of a followed game.

/// What a publisher sends is read in the order it was sent: what is put in last is read after
/// everything that was there, and the first item is read next.
pub proof fn law_a_followed_game_is_read_in_order(
    before: LiveReplaySource,
    after: LiveReplaySource,
    popped: LiveReplaySource,
    p: packet::PacketModel,
    now: u64,
    r: LivePoll,
)
    requires
        before.have_snapshot,
        before.frames_queued < live::MAX_QUEUED_FRAMES,
        !(p is Keyframe),
        before.pushed(after, p, now),
        after.popped(popped, r),
    ensures
        after.queued().last() == ItemModel::Packet(p),
        after.queued().drop_last() == before.queued(),
        before.queued().len() > 0 ==> (r matches LivePoll::Item(item) && item@
            == before.queued()[0]) && popped.queued() == before.queued().skip(1).push(
            ItemModel::Packet(p),
        ),
        before.queued().len() == 0 ==> (r matches LivePoll::Item(item) && item@
            == ItemModel::Packet(p)) && popped.queued().len() == 0,
        p is NextFrame && before.newest_frame < u64::MAX ==> after.newest_frame
            == before.newest_frame + 1 && after.frames_queued == before.frames_queued + 1,
        !(p is NextFrame) ==> after.newest_frame == before.newest_frame && after.frames_queued
            == before.frames_queued,
{
    assert(after.queued().drop_last() =~= before.queued());
    if before.queued().len() > 0 {
        assert(popped.queued() =~= before.queued().skip(1).push(ItemModel::Packet(p)));
    }
}

/// Before the first snapshot nothing is kept, and a snapshot sets the publisher's frame.
pub proof fn law_nothing_is_kept_before_a_snapshot(
    before: LiveReplaySource,
    after: LiveReplaySource,
    p: packet::PacketModel,
    now: u64,
)
    requires
        before.pushed(after, p, now),
    ensures
        !before.have_snapshot && !(p is Keyframe) ==> after == before,
        p matches packet::PacketModel::Keyframe { metadata, .. } ==> after.newest_frame
            == metadata.elapsed_frames && after.stats.newest_publisher_frame
            == metadata.elapsed_frames && after.frames_queued == 0 && after.request_allowed_at
            is None,
{
}

/// An empty queue says whether more is to come, and only an empty one does.
pub proof fn law_an_empty_queue(before: LiveReplaySource, after: LiveReplaySource, r: LivePoll)
    requires
        before.popped(after, r),
    ensures
        r == LivePoll::Ended <==> before.queued().len() == 0 && before.ended,
        r == LivePoll::Waiting <==> before.queued().len() == 0 && !before.ended,
{
}

/// How far a follower is behind: as many frames as the publisher has sent beyond its own.
pub proof fn law_how_far_a_follower_is_behind(stats: FollowerStats, frame: u64)
    ensures
        frame <= stats.newest_publisher_frame ==> stats.at(frame).frames_behind + frame
            == stats.newest_publisher_frame,
        frame > stats.newest_publisher_frame ==> stats.at(frame).frames_behind == 0,
        stats.at(frame).newest_publisher_frame == stats.newest_publisher_frame,
        stats.at(frame).waiting == stats.waiting,
        stats.at(frame).snapshots_applied == stats.snapshots_applied,
        stats.at(frame).hash_mismatches == stats.hash_mismatches,
        stats.at(frame).snapshot_requests == stats.snapshot_requests,
        stats.at(frame).emulated_frames == stats.emulated_frames,
        stats.at(frame).drawn_frames == stats.drawn_frames,
{
}

/// A request for a snapshot is passed on and counted, and the next one waits two seconds.
pub proof fn law_requests_are_passed_on(
    before: LiveReplaySource,
    after: LiveReplaySource,
    reason: SnapshotRequestReason,
    now: u64,
)
    requires
        before.asked(after, reason, now),
        now <= u64::MAX - 2_000_000,
        before.stats.snapshot_requests < u64::MAX,
    ensures
        before.request_allowed_at is None || before.request_allowed_at->0 <= now ==> {
            &&& after.upstream@ == before.upstream@.push(reason)
            &&& after.stats.snapshot_requests == before.stats.snapshot_requests + 1
            &&& after.request_allowed_at == Some((now + 2_000_000) as u64)
        },
        (before.request_allowed_at matches Some(at) && now < at) ==> after == before,
{
}

// ---------------------------------------------------------------------------------------------
// Following.

/// After a snapshot, hashes are not compared until the core has redrawn what it regenerates, and a
/// snapshot that does not load stalls the session and is told.
pub proof fn law_a_snapshot_is_applied_or_told<C: EmulatorCore, T: MonotonicTimestampProvider>(
    before: SuperShuckieCore<C, T>,
    put: SuperShuckieCore<C, T>,
    after: SuperShuckieCore<C, T>,
    error: Option<Seq<char>>,
    metadata: packet::KeyframeModel,
    state: Seq<u8>,
)
    requires
        before.together.follower is Some,
        before.snapshot_put(after, put, error, metadata, state),
        metadata.elapsed_frames <= u64::MAX - 3,
    ensures
        after.together.follower is Some,
        error is None ==> {
            &&& put.following().hash_suppressed_until == metadata.elapsed_frames + 3
            &&& put.following().last_input@ == metadata.input
            &&& put.playback.speed == metadata.speed
            &&& put.timer.frames == metadata.elapsed_frames
            &&& put.timer.millis == metadata.elapsed_millis
            &&& before.following().source.stats.snapshots_applied < u64::MAX
                ==> put.following().source.stats.snapshots_applied
                == before.following().source.stats.snapshots_applied + 1
        },
        error is Some ==> {
            &&& after.playback.stalled
            &&& after.timer == before.timer
            &&& after.following().errors@.len() == before.following().errors@.len() + 1
        },
{
}

/// A file written of a followed game goes on over a snapshot: the state, the publisher's input and
/// speed, and a full keyframe to seek to are put down, in this order.
pub proof fn law_a_snapshot_goes_into_the_followers_file<
    C: EmulatorCore,
    T: MonotonicTimestampProvider,
>(
    put: SuperShuckieCore<C, T>,
    counters: Seq<packet::CounterModel>,
    metadata: packet::KeyframeModel,
    state: Seq<u8>,
)
    ensures
        ({
            let outs = put.snapshot_records(counters, metadata, state);
            &&& outs.len() >= 4
            &&& outs[0] == effects::Out::RecordState { state }
            &&& outs[1] == effects::Out::RecordInput { data: metadata.input }
            &&& outs[2] == effects::Out::RecordSpeed { speed: metadata.speed }
            &&& outs.last() == (effects::Out::RecordKeyframe {
                state,
                millis: put.file_millis(),
                full: true,
                since: 0,
            })
        }),
{
}

/// Counters are put down as differences: each counter's record is what it changed by, and counters
/// that did not change have none.
pub proof fn law_counter_differences(
    before: Seq<packet::CounterModel>,
    after: Seq<packet::CounterModel>,
    n: nat,
    i: int,
)
    requires
        n <= after.len(),
        0 <= i < following::counter_records(before, after, n).len(),
    ensures
        following::counter_records(before, after, n)[i] matches effects::Out::RecordCounter {
            name,
            delta,
        } && exists|k: int|
            #![trigger after[k]]
            0 <= k < n && after[k].name == name && packet::counter_value(
                before,
                name,
            ).wrapping_add(delta) == after[k].value && delta != 0,
    decreases n,
{
    let fewer = following::counter_records(before, after, (n - 1) as nat);
    if i < fewer.len() {
        law_counter_differences(before, after, (n - 1) as nat, i);
    } else {
        let c = after[n - 1];
        let was = packet::counter_value(before, c.name);
        let delta = c.value.wrapping_sub(was);
        assert(was.wrapping_add(delta) == c.value);
    }
}

/// A follower reads on until a frame is complete, waits when nothing is there, and stops for good
/// when the publisher is gone.
pub proof fn law_a_follower_without_anything_to_read<C: EmulatorCore, T: MonotonicTimestampProvider>(
    before: SuperShuckieCore<C, T>,
    after: SuperShuckieCore<C, T>,
)
    requires
        before.together.follower is Some,
        before.following().source.queued().len() == 0,
        before.live_handled(after),
    ensures
        before.following().source.ended ==> after.playback.stalled && !after.playback.waiting
            && after.core == before.core,
        !before.following().source.ended ==> after.playback.waiting && after.core == before.core
            && after.following().source.stats.waiting && after.playback.stalled
            == before.playback.stalled,
{
    let steps = choose|steps: Seq<SuperShuckieCore<C, T>>| #[trigger]
        before.read_in_steps(after, steps);
    if steps.len() > 1 {
        assert(steps[0].reads_on(steps[1]));
    }
}

/// Letting go of a followed game leaves the console as it is and hands it back to the user: nothing
/// is pressed, nothing stalls or waits.
pub proof fn law_letting_go_of_a_game<C: EmulatorCore, T: MonotonicTimestampProvider>(
    before: SuperShuckieCore<C, T>,
    after: SuperShuckieCore<C, T>,
)
    requires
        before.together.follower is Some,
        before.live_detached(after),
    ensures
        after.together.follower is None,
        after.core == before.core,
        after.timer.frames == before.timer.frames,
        !after.playback.stalled && !after.playback.waiting && !after.playback.frame_pending
            && !after.playback.stopped,
        after.playback.counters is None,
        after.input.next == Some(Input::nothing()),
        !after.recorder.active,
        before.recorder.active ==> after.outs()[before.outs().len() as int]
            == effects::Out::RecordClose,
{
}

/// Following a game begins without any input or write of one's own, waiting for the first snapshot,
/// and ignores the speed of the recording.
pub proof fn law_following_begins_empty<C: EmulatorCore, T: MonotonicTimestampProvider>(
    before: SuperShuckieCore<C, T>,
    after: SuperShuckieCore<C, T>,
    source: LiveReplaySource,
)
    requires
        before.follows(after, source),
    ensures
        after.together.follower is Some,
        after.following().source.queued() == source.queued(),
        after.input.current == Input::nothing() && after.input.next is None,
        after.waiting_writes().len() == 0,
        after.playback.waiting && !after.playback.stalled,
        after.playback.ignore_speed,
        after.core == before.core,
{
}

// ---------------------------------------------------------------------------------------------
// What fits.

/// A replay fits the running core exactly if it is of the same console and, unless differences are
/// allowed, of the same ROM, BIOS and core.
pub proof fn law_what_fits(
    metadata: ReplayFileMetadata,
    running: console::Identity,
    allow_mismatched: bool,
)
    ensures
        compat::misfit(metadata, running, allow_mismatched) is None <==> running.console == Some(
            metadata.console_type,
        ) && (allow_mismatched || (metadata.rom_checksum@ == running.rom_checksum@
            && metadata.bios_checksum@ == running.bios_checksum@ && metadata.emulator_core_name@
            == running.name)),
        compat::mismatches(metadata, running).len() == (if metadata.rom_checksum@
            != running.rom_checksum@ {
            1int
        } else {
            0
        }) + (if metadata.bios_checksum@ != running.bios_checksum@ {
            1int
        } else {
            0
        }) + (if metadata.emulator_core_name@ != running.name {
            1int
        } else {
            0
        }),
{
}

// ---------------------------------------------------------------------------------------------
// Hashes.

/// A publisher's hash goes out for the frame it is of, every sixtieth frame, and not while a replay
/// plays back.
pub proof fn law_which_hashes_go_out<C: EmulatorCore, T: MonotonicTimestampProvider>(
    session: SuperShuckieCore<C, T>,
    hash: [u8; 32],
    time: RunTime,
)
    requires
        session.core.work_ram_hash() == Some(hash),
        time.frames == 1,
    ensures
        !session.playing_back() && session.timer.frames % 60 == 0 ==> session.hash_outs(time)
            == seq![effects::Out::PublishHash { frame: session.timer.frames, hash }],
        session.playing_back() || session.timer.frames % 60 != 0 ==> session.hash_outs(time).len()
            == 0,
{
}

// ---------------------------------------------------------------------------------------------
// Times and bookmarks.

/// A timer that was started over shows how long ago that was, and its frames start from none.
pub proof fn law_a_restarted_timer_starts_from_zero<
    C: EmulatorCore,
    T: MonotonicTimestampProvider,
>(before: SuperShuckieCore<C, T>, after: SuperShuckieCore<C, T>, later: u64)
    requires
        before.timer_restarted(after),
        later >= after.clock.last() / 1000,
    ensures
        after.timer.frames == 0,
        after.timer.millis == 0,
        after.timer.paused_at is None,
        after.timer_at(later) == later - after.clock.last() / 1000,
{
}

/// A bookmark goes on the frame that is shown. One with a keyframe goes as far behind the keyframe
/// as a seek to it needs, whether the keyframe is written now or when the frame completes.
pub proof fn law_where_bookmarks_go<C: EmulatorCore, T: MonotonicTimestampProvider>(
    before: SuperShuckieCore<C, T>,
    after: SuperShuckieCore<C, T>,
    keyframe: bool,
    r: Result<BookmarkAnchor, BookmarkAnchorError>,
)
    requires
        before.recorder.active,
        before.bookmarked(after, keyframe, r),
        before.timer.frames <= u64::MAX - 4,
    ensures
        r is Ok,
        r->Ok_0.in_millis == before.timer.millis,
        r->Ok_0.keyframe == keyframe,
        !keyframe ==> r->Ok_0.in_frame == before.timer.frames && after == before,
        keyframe && !before.core.mid_frame() ==> r->Ok_0.in_frame == before.timer.frames + 3
            && before.keyframe_written(after, true),
        keyframe && before.core.mid_frame() ==> r->Ok_0.in_frame == before.timer.frames + 4
            && after.recorder.full_pending && after.core == before.core,
{
}

/// Without a replay there is nothing to put a bookmark in, and in one that is played back a plain
/// bookmark goes on its current moment.
pub proof fn law_bookmarks_in_playback<C: EmulatorCore, T: MonotonicTimestampProvider>(
    before: SuperShuckieCore<C, T>,
    after: SuperShuckieCore<C, T>,
    r: Result<BookmarkAnchor, BookmarkAnchorError>,
)
    requires
        !before.recorder.active,
        before.bookmarked(after, false, r),
    ensures
        after == before,
        before.playback.player is None ==> r is Err,
        before.playback.player is Some ==> r is Ok && r->Ok_0.in_frame == before.position().0
            && r->Ok_0.in_millis == before.position().1 && !r->Ok_0.keyframe,
{
}

/// Estimated times go forward: a later frame is never estimated earlier, and the estimate is the
/// keyframe's time plus the frame's share of the time between.
pub proof fn law_estimates_go_forward(
    f0: u64,
    ms0: u64,
    f1: u64,
    ms1: u64,
    frame: u64,
    later: u64,
)
    requires
        f0 <= frame <= later <= f1,
        f0 < f1,
        ms0 <= ms1,
    ensures
        anchors::interpolated(f0, ms0, f1, ms1, frame) <= anchors::interpolated(
            f0,
            ms0,
            f1,
            ms1,
            later,
        ),
        ({
            let share = (anchors::interpolated(f0, ms0, f1, ms1, frame) - ms0) * (f1 - f0);
            share <= (ms1 - ms0) * (frame - f0) < share + (f1 - f0)
        }),
{
    let n = f1 - f0;
    let span = ms1 - ms0;
    let a = span * (frame - f0);
    let b = span * (later - f0);
    assert(0 <= a <= b) by (nonlinear_arith)
        requires
            a == span * (frame - f0),
            b == span * (later - f0),
            span >= 0,
            f0 <= frame <= later,
    ;
    vstd::arithmetic::div_mod::lemma_div_is_ordered(a, b, n);
    vstd::arithmetic::div_mod::lemma_fundamental_div_mod(a, n);
    assert((a / n) * n == n * (a / n)) by (nonlinear_arith);
}

/// A frame is as long as the console's rate says, to the microsecond.
pub proof fn law_frame_lengths(console: ReplayConsoleType)
    requires
        has_game_boy_cable(console) || console == ReplayConsoleType::GameBoyAdvance || console
            == ReplayConsoleType::NintendoDS,
    ensures
        ({
            let (num, den) = crate::frame_server::source::native_rate(console);
            let length = anchors::frame_micros(Some(console));
            den * 1_000_000 - num < length * num < den * 1_000_000 + num
        }),
{
}

// ---------------------------------------------------------------------------------------------
// Plugging in and pulling out.

/// A console that is held stands at the end of its frame, where nothing runs it on, and names that
/// frame and the input it holds.
pub proof fn law_a_held_console_names_its_place<C: EmulatorCore, T: MonotonicTimestampProvider>(
    before: SuperShuckieCore<C, T>,
    after: SuperShuckieCore<C, T>,
    frame: u64,
    input: Seq<u8>,
)
    requires
        before.held_at(after, frame, input),
    ensures
        after.together.holding,
        after.held(),
        frame == after.timer.frames,
        input == after.core.encoded(after.input.current),
{
}

/// The partner's console begins with what its player held, for as many frames as inputs are
/// delayed, and reads from what arrives.
pub proof fn law_the_partners_console_is_cabled<C: EmulatorCore, T: MonotonicTimestampProvider>(
    before: SuperShuckieCore<C, T>,
    after: SuperShuckieCore<C, T>,
    settings: LinkSettings,
    inbox: LinkInbox,
)
    requires
        before.partner_cabled(after, settings, inbox),
    ensures
        after.together.partner is Some,
        ({
            let p = after.together.partner->Some_0;
            &&& p.frame == 0
            &&& p.delay == settings.delay_frames
            &&& p.prefill_input@ == settings.partner_start_input@
            &&& p.inbox == inbox
        }),
        after.core == before.core,
        !after.playback.waiting && !after.playback.stalled,
{
}

/// Pulling the cable takes it out of both consoles and leaves nothing of it: the local console is the
/// user's again, with nothing scheduled or waiting to be written; the partner's copy waits for a
/// snapshot.
pub proof fn law_pulling_the_cable<C: EmulatorCore, T: MonotonicTimestampProvider>(
    before: SuperShuckieCore<C, T>,
    unplugged: SuperShuckieCore<C, T>,
    after: SuperShuckieCore<C, T>,
    partner: SuperShuckieCore<C, T>,
    partner_unplugged: SuperShuckieCore<C, T>,
    partner_after: SuperShuckieCore<C, T>,
)
    requires
        before.core.identity().has_link_port,
        partner.core.identity().has_link_port,
        before.unplugged(unplugged),
        unplugged.local_freed(after),
        partner.unplugged(partner_unplugged),
        partner_unplugged.partner_freed(partner_after),
        partner.together.follower is Some,
    ensures
        after.core.log() == before.core.log().push(CoreCall::Disconnect),
        partner_after.core.log() == partner.core.log().push(CoreCall::Disconnect),
        after.together.link is None && !after.together.holding,
        after.waiting_writes().len() == 0,
        partner_after.together.partner is None,
        partner_after.together.follower is Some,
        partner_after.following().source.stats.waiting,
        after.timer == before.timer && partner_after.timer == partner.timer,
{
    assert(after.core.log() =~= before.core.log().push(CoreCall::Disconnect));
    assert(partner_after.core.log() =~= partner.core.log().push(CoreCall::Disconnect));
}

/// A reset of a linked console is made by both machines at the same frame: it goes onto the cable,
/// before everything else of its frame, and the console is not touched now.
pub proof fn law_a_linked_reset_goes_onto_the_cable<C: EmulatorCore, T: MonotonicTimestampProvider>(
    before: SuperShuckieCore<C, T>,
    after: SuperShuckieCore<C, T>,
)
    requires
        before.reset_scheduled(after),
    ensures
        after.core == before.core,
        after.outs() == before.outs(),
        ({
            let frame = before.together.link->Some_0.next_send_frame;
            after.together.link->Some_0.scheduled(frame)[0] == packet::PacketModel::ResetConsole
        }),
{
}

/// A game can be followed exactly if it fits the running core and this session is not followed
/// itself.
pub proof fn law_which_games_can_be_followed<C: EmulatorCore, T: MonotonicTimestampProvider>(
    session: SuperShuckieCore<C, T>,
    metadata: ReplayFileMetadata,
    allow_mismatched: bool,
)
    ensures
        session.follow_refused(metadata, allow_mismatched) is None <==> compat::misfit(
            metadata,
            session.core.identity(),
            allow_mismatched,
        ) is None && !session.together.publishing,
{
}

/// Before another replay or game comes in, the recording is closed and nothing of the old one is
/// left; the console stays as it is.
pub proof fn law_everything_is_let_go_of<C: EmulatorCore, T: MonotonicTimestampProvider>(
    before: SuperShuckieCore<C, T>,
    after: SuperShuckieCore<C, T>,
)
    requires
        before.all_detached(after),
    ensures
        after.together.follower is None,
        after.playback.player is None,
        !after.recorder.active,
{
}

/// A file of a followed game is begun at once if a snapshot was applied and the console is between
/// frames, from the console as it is, with the publisher's input; otherwise it waits for the next
/// snapshot. A file that was written before is closed.
pub proof fn law_a_followers_file_is_begun<C: EmulatorCore, T: MonotonicTimestampProvider>(
    before: SuperShuckieCore<C, T>,
    after: SuperShuckieCore<C, T>,
    frames_per_keyframe: u64,
)
    requires
        before.together.follower is Some,
        before.follower_file_asked(after, frames_per_keyframe),
    ensures
        after.together.follower is Some,
        after.core == before.core,
        before.following().source.stats.snapshots_applied > 0 && !before.core.mid_frame() ==> {
            &&& after.recorder.active
            &&& after.recorder.per_keyframe == frames_per_keyframe
            &&& after.following().pending_recording is None
            &&& after.following().starting_recording is Some
            &&& after.following().starting_recording->0.state@ == before.core.state()
            &&& after.following().starting_recording->0.input@ == before.following().last_input@
            &&& after.timer.origin == before.timer.millis
        },
        before.following().source.stats.snapshots_applied == 0 || before.core.mid_frame() ==> {
            &&& !after.recorder.active
            &&& after.following().pending_recording == Some(frames_per_keyframe)
        },
        before.recorder.active ==> after.outs() == before.outs().push(effects::Out::RecordClose),
{
    let stopped = choose|stopped: SuperShuckieCore<C, T>| #[trigger]
        before.recording_stopped(stopped) && {
            let asked = stopped.with_follower(
                Some(
                    crate::session::state::FollowerState {
                        pending_recording: Some(frames_per_keyframe),
                        ..stopped.following()
                    },
                ),
            );
            if before.following().source.stats.snapshots_applied > 0 && !before.core.mid_frame() {
                asked.file_started(after, before.core.state())
            } else {
                after == asked
            }
        };
    if before.recorder.active {
        assert(stopped.outs() =~= before.outs().push(effects::Out::RecordClose));
    }
}

/// Reading the timer changes nothing but the clock, which is not even asked while the timer is
/// paused.
pub proof fn law_reading_the_timer_changes_nothing<C: EmulatorCore, T: MonotonicTimestampProvider>(
    before: SuperShuckieCore<C, T>,
    after: SuperShuckieCore<C, T>,
)
    requires
        before.clock_read(after),
    ensures
        after.timer == before.timer && after.core == before.core && after.outs() == before.outs(),
        after.clock.last() >= before.clock.last(),
        before.timer.paused_at is Some ==> after == before,
{
}

/// Going back to where a stopped replay resumes is a seek to that frame, and nothing without a
/// stopped replay.
pub proof fn law_going_back_to_the_resume_point<C: EmulatorCore, T: MonotonicTimestampProvider>(
    before: SuperShuckieCore<C, T>,
    after: SuperShuckieCore<C, T>,
    r: Result<(), String>,
)
    requires
        before.goes_to_resume_point(after, r),
    ensures
        before.playback.player is Some && before.playback.stopped ==> before.went_to_frame(
            after,
            before.playback.resume_point.0,
            r,
        ),
        !(before.playback.player is Some && before.playback.stopped) ==> after == before && r is Ok,
{
}

/// A follower does what it reads: the first item of the queue is taken, and what it says is done,
/// before the next is looked at.
pub proof fn law_a_follower_does_what_it_reads<C: EmulatorCore, T: MonotonicTimestampProvider>(
    before: SuperShuckieCore<C, T>,
    after: SuperShuckieCore<C, T>,
)
    requires
        before.reads_on(after),
    ensures
        before.together.follower is Some,
        before.following().source.queued().len() > 0,
        exists|taken: SuperShuckieCore<C, T>| #[trigger]
            before.item_taken(taken) && taken.following().source.queued()
                == before.following().source.queued().skip(1) && taken.core == before.core
                && match before.following().source.queued()[0] {
                ItemModel::SyncHash { frame, hash } => taken.hash_checked(after, frame, hash),
                ItemModel::Packet(packet::PacketModel::Keyframe { metadata, state }) =>
                taken.snapshot_applied(after, metadata, state),
                ItemModel::Packet(p) => taken.packet_applied(after, p),
            },
{
    let taken = choose|taken: SuperShuckieCore<C, T>| #[trigger]
        before.item_taken(taken) && before.next_item() is Some && taken.item_applied(
            after,
            before.next_item()->Some_0,
        );
    assert(before.item_taken(taken));
}

} // verus!
