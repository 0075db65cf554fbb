//! Where a session is put: by a seek, by stopping and resuming a replay, and by recording on.

use super::driving;
use super::following;
use super::seeking;
use super::starting;
use super::state::{MonotonicTimestampProvider, SuperShuckieCore};
use crate::emulator::console::{CoreCall, EmulatorCore};
use crate::replay::packet;
use crate::replay::player;
use crate::replay::player::{KeyframePlace, ReplayFilePlayer};
use vstd::prelude::*;

verus! {

// ---------------------------------------------------------------------------------------------
// Keyframes.

proof fn lemma_first_after(keyframes: Seq<KeyframePlace>, frame: u64)
    ensures
        player::keyframe_after(keyframes, frame) matches Some(k) ==> keyframes.contains(k)
            && k.frame >= frame,
        player::keyframe_after(keyframes, frame) is None ==> forall|i: int|
            0 <= i < keyframes.len() ==> (#[trigger] keyframes[i]).frame < frame,
    decreases keyframes.len(),
{
    if keyframes.len() > 0 {
        let rest = keyframes.skip(1);
        if keyframes[0].frame >= frame {
            assert(keyframes.contains(keyframes[0]));
        } else {
            lemma_first_after(rest, frame);
            match player::keyframe_after(rest, frame) {
                Some(k) => {
                    let i = choose|i: int| 0 <= i < rest.len() && rest[i] == k;
                    assert(keyframes[i + 1] == k);
                },
                None => {
                    assert forall|i: int| 0 <= i < keyframes.len() implies (
                    #[trigger] keyframes[i]).frame < frame by {
                        if i > 0 {
                            assert(rest[i - 1] == keyframes[i]);
                        }
                    }
                },
            }
        }
    }
}

/// The keyframe a seek loads is one of the replay, not after the frame it is meant for, and no later
/// one would have done.
pub proof fn law_seeks_load_the_last_keyframe_before(
    p: ReplayFilePlayer,
    frame: u64,
    target: u64,
    slot: usize,
)
    requires
        player::in_frame_order(p.keyframes@),
        seeking::nearest(p, frame) == Ok::<(u64, usize), Seq<char>>((target, slot)),
    ensures
        target <= frame,
        exists|i: int|
            0 <= i < p.keyframes@.len() && (#[trigger] p.keyframes@[i]).frame == target
                && p.keyframes@[i].slot == slot,
        forall|i: int|
            0 <= i < p.keyframes@.len() && (#[trigger] p.keyframes@[i]).frame <= frame
                ==> p.keyframes@[i].frame <= target,
        p.event_at(slot as int) is Some,
    decreases frame,
{
    let keyframes = p.keyframes@;
    lemma_first_after(keyframes, frame);
    match p.sought(frame) {
        Ok(found) => {
            let k = player::keyframe_after(keyframes, frame)->Some_0;
            let i = choose|i: int| 0 <= i < keyframes.len() && keyframes[i] == k;
            assert(keyframes[i].frame == target && keyframes[i].slot == slot);
        },
        Err(player::Seek::NoSuchKeyframe(best)) => {
            law_seeks_load_the_last_keyframe_before(p, best, target, slot);
            assert forall|i: int|
                0 <= i < keyframes.len() && (#[trigger] keyframes[i]).frame
                    <= frame implies keyframes[i].frame <= target by {
                player::law_nearest_keyframe(keyframes, frame, i);
            }
        },
        Err(_) => {},
    }
}

/// A keyframe that is loaded puts the console where it was when the keyframe was recorded: it is
/// given the state and then the input of that moment, before anything runs, and the session is at
/// the frame, the time, the counters and the speed of that moment, reading on right behind it.
pub proof fn law_a_keyframe_restores_its_moment<C: EmulatorCore, T: MonotonicTimestampProvider>(
    before: SuperShuckieCore<C, T>,
    after: SuperShuckieCore<C, T>,
    p: ReplayFilePlayer,
    frame: u64,
    target: u64,
    slot: usize,
    metadata: packet::KeyframeModel,
    state: Seq<u8>,
    r: Result<(), String>,
)
    requires
        before.keyframe_loaded(after, frame, r),
        r is Ok,
        before.playback.player == Some(p),
        seeking::nearest(p, frame) == Ok::<(u64, usize), Seq<char>>((target, slot)),
        p.event_at(slot as int) == Some(packet::PacketModel::Keyframe { metadata, state }),
    ensures
        ({
            let n = before.core.log().len() as int;
            let log = after.core.log();
            &&& log.len() >= n + 2
            &&& log.take(n) == before.core.log()
            &&& log[n] == (CoreCall::LoadSaveState { state, error: None })
            &&& log[n + 1] == (CoreCall::SetInput { data: metadata.input })
            &&& forall|i: int| n + 2 <= i < log.len() ==> (#[trigger] log[i]) is SetSpeed
            &&& driving::input_in_force(log) == Some(metadata.input)
        }),
        after.timer.frames == metadata.elapsed_frames,
        after.timer.millis == metadata.elapsed_millis,
        following::counters_of(after.playback.counters) == metadata.counters,
        after.playback.speed == metadata.speed,
        !before.playback.ignore_speed ==> after.audio.speed == metadata.speed,
        before.playback.ignore_speed ==> after.audio.speed == before.audio.speed,
        !after.playback.stalled,
        !after.playback.frame_pending,
        after.playback.player matches Some(q) && q.cursor == slot + 1 && q.slots == p.slots,
        after.runs.epoch != before.runs.epoch,
{
    assert(slot < p.slots.len());
    let read = ReplayFilePlayer { cursor: (slot + 1) as usize, ..p };
    assert(before.keyframe_came(after, read, target, metadata, state, r));
    let (put, error) = choose|put: SuperShuckieCore<C, T>, error: Option<Seq<char>>| #[trigger]
        before.keyframe_put(after, put, error, read, metadata, state) && match error {
            Some(why) => r matches Err(e) && e@ == seeking::bad_state(target, why),
            None => r is Ok,
        };
    let n = before.core.log().len() as int;
    let two = put.core.log();
    assert(two.drop_last().last() == (CoreCall::LoadSaveState { state, error: None }));
    assert(two.last() == (CoreCall::SetInput { data: metadata.input }));
    assert(driving::input_in_force(two) == Some(metadata.input));
    if before.playback.ignore_speed {
        assert(after == put);
    } else {
        assert(after.core.log().drop_last() =~= two);
        assert(after.core.log().last() is SetSpeed);
    }
    assert(after.core.log().take(n) =~= before.core.log());
}

/// A keyframe that cannot be loaded leaves the session where it was, stalled, and says so.
pub proof fn law_a_failed_seek_stalls<C: EmulatorCore, T: MonotonicTimestampProvider>(
    before: SuperShuckieCore<C, T>,
    after: SuperShuckieCore<C, T>,
    frame: u64,
    r: Result<(), String>,
)
    requires
        before.keyframe_loaded(after, frame, r),
        r is Err,
    ensures
        after.playback.stalled,
        after.timer == before.timer,
        after.outs() == before.outs(),
        after.input == before.input,
        driving::input_in_force(after.core.log()) == driving::input_in_force(before.core.log()),
{
    match before.playback.player {
        Some(p) => match seeking::nearest(p, frame) {
            Ok((target, slot)) => {
                let read = ReplayFilePlayer { cursor: (slot + 1) as usize, ..p };
                match p.event_at(slot as int) {
                    Some(packet::PacketModel::Keyframe { metadata, state }) => {
                        let (put, error) = choose|
                            put: SuperShuckieCore<C, T>,
                            error: Option<Seq<char>>,
                        | #[trigger]
                            before.keyframe_put(after, put, error, read, metadata, state)
                                && match error {
                                Some(why) => r matches Err(e) && e@ == seeking::bad_state(
                                    target,
                                    why,
                                ),
                                None => r is Ok,
                            };
                        assert(after.core.log().drop_last() =~= before.core.log());
                    },
                    _ => {},
                }
            },
            Err(_) => {},
        },
        None => {},
    }
}

// ---------------------------------------------------------------------------------------------
// Seeks.

/// The number of frames a seek to `frame` ends with in a replay of `total`: that many, at least one
/// and no more than there are.
pub open spec fn frames_sought(frame: u64, total: u64) -> int {
    if frame == 0 {
        1
    } else if frame > total {
        total as int
    } else {
        frame as int
    }
}

/// A seek loads a keyframe at least as far before the frame asked for as a loaded state takes to
/// settle (or the first one), and runs from there until exactly that many frames have been run: the
/// runs are those of the replay, only the last of them drawn.
pub proof fn law_a_seek_goes_where_it_was_asked<C: EmulatorCore, T: MonotonicTimestampProvider>(
    before: SuperShuckieCore<C, T>,
    after: SuperShuckieCore<C, T>,
    p: ReplayFilePlayer,
    frame: u64,
    r: Result<(), String>,
)
    requires
        before.went_to_frame(after, frame, r),
        before.playback.player == Some(p),
        !before.playback.stopped,
        p.total_frames >= 1,
        r is Ok,
    ensures
        exists|
            loaded: SuperShuckieCore<C, T>,
            hint: u64,
            last: u64,
            steps: Seq<SuperShuckieCore<C, T>>,
        |
            {
                &&& #[trigger] before.keyframe_loaded(loaded, hint, r)
                &&& hint == 0 || hint + 2 <= frames_sought(frame, p.total_frames)
                &&& last + 1 == frames_sought(frame, p.total_frames)
                &&& #[trigger] loaded.seek_ran(after, last, steps)
                &&& !after.playback.stalled && steps.len() <= u64::MAX ==> after.timer.frames
                    >= frames_sought(frame, p.total_frames)
                &&& forall|i: int, j: int|
                    0 <= i && j == i + 1 && j < steps.len() ==> (#[trigger] steps[i]).ran_drawing(
                        #[trigger] steps[j],
                        steps[i].timer.frames + 1 < frames_sought(frame, p.total_frames),
                        true,
                        false,
                    )
            },
{
    let target = before.within_replay(frame);
    let hint = seeking::less(target, following::POST_LOAD_FRAMES);
    let desired = seeking::less(target, 1);
    let last = seeking::at_most(desired, seeking::less(p.total_frames, 1));
    assert(before.sought_in_replay(after, hint, desired, r));
    let loaded = choose|loaded: SuperShuckieCore<C, T>| #[trigger]
        before.keyframe_loaded(loaded, hint, r) && match r {
            Err(_) => after == loaded,
            Ok(_) => exists|steps: Seq<SuperShuckieCore<C, T>>| #[trigger]
                loaded.seek_ran(after, last, steps),
        };
    let steps = choose|steps: Seq<SuperShuckieCore<C, T>>| #[trigger]
        loaded.seek_ran(after, last, steps);
    assert forall|i: int, j: int| 0 <= i && j == i + 1 && j < steps.len() implies (
    #[trigger] steps[i]).ran_drawing(
        #[trigger] steps[j],
        steps[i].timer.frames + 1 < frames_sought(frame, p.total_frames),
        true,
        false,
    ) by {
        assert(steps[i].seeks_on(steps[j], last));
    }
    assert(before.keyframe_loaded(loaded, hint, r) && loaded.seek_ran(after, last, steps));
}

/// A seek in a stopped replay leaves it stopped: the user has the console at the frame that was
/// reached, which is where the replay resumes from, and nothing they had waiting to be written is
/// left.
pub proof fn law_a_seek_in_a_stopped_replay_moves_its_resume_point<
    C: EmulatorCore,
    T: MonotonicTimestampProvider,
>(
    before: SuperShuckieCore<C, T>,
    after: SuperShuckieCore<C, T>,
    frame: u64,
    r: Result<(), String>,
    later: u64,
)
    requires
        before.went_to_frame(after, frame, r),
        before.playback.player is Some,
        before.playback.stopped,
        later >= after.clock.last() / 1000,
        after.timer.millis + (later - after.clock.last() / 1000) <= u64::MAX,
    ensures
        after.playback.stopped,
        !after.playback.stalled,
        after.playback.resume_point == (after.timer.frames, after.timer.millis),
        after.position() == (after.timer.frames, after.timer.millis) || after.playback.player is None,
        after.waiting_writes().len() == 0,
        after.timer_at(later) == after.timer.millis + (later - after.clock.last() / 1000),
        !after.input.latched,
{
}

/// From where a replay was stopped the timer goes on as it stood there, and the user starts with
/// nothing pressed.
pub proof fn law_a_stopped_replay_is_the_users<C: EmulatorCore, T: MonotonicTimestampProvider>(
    before: SuperShuckieCore<C, T>,
    after: SuperShuckieCore<C, T>,
    later: u64,
)
    requires
        before.stops_playback(after, true),
        before.together.follower is None,
        later >= after.clock.last() / 1000,
        before.timer.millis + (later - after.clock.last() / 1000) <= u64::MAX,
    ensures
        before.playing_back(),
        !after.playing_back(),
        after.timer_at(later) == before.timer.millis + (later - after.clock.last() / 1000),
        after.input.next matches Some(pressed) && pressed == crate::emulator::input::Input::nothing(),
        !after.input.latched,
        after.waiting_writes().len() == 0,
        after.outs() == before.outs(),
{
}

/// A stopped replay resumes by a seek to where it was stopped, driving the console again; nothing
/// the user pressed or wrote meanwhile goes into that seek.
pub proof fn law_resuming_goes_back_to_the_resume_point<
    C: EmulatorCore,
    T: MonotonicTimestampProvider,
>(before: SuperShuckieCore<C, T>, after: SuperShuckieCore<C, T>, r: Result<(), String>)
    requires
        before.resumes_playback(after, r),
        before.playback.player is Some,
        before.playback.stopped,
    ensures
        exists|from: SuperShuckieCore<C, T>|
            {
                &&& #[trigger] from.went_to_frame(after, before.playback.resume_point.0, r)
                &&& !from.playback.stopped
                &&& from.playback.player == before.playback.player
                &&& from.input.next is None
                &&& from.waiting_writes().len() == 0
                &&& from.core == before.core
                &&& from.timer == before.timer
            },
{
    let from = choose|from: SuperShuckieCore<C, T>| #[trigger]
        before.reclaimed(from) && from.went_to_frame(after, before.playback.resume_point.0, r);
    assert(from.went_to_frame(after, before.playback.resume_point.0, r));
}

// ---------------------------------------------------------------------------------------------
// Recording on.

/// Recording goes on exactly where the replay left off: at its frame and its time, from where the
/// timer goes on, with its counters, at its speed and with the input held there; the replay no
/// longer drives the console.
pub proof fn law_recording_goes_on_where_the_replay_left_off<
    C: EmulatorCore,
    T: MonotonicTimestampProvider,
>(
    before: SuperShuckieCore<C, T>,
    after: SuperShuckieCore<C, T>,
    info: starting::ResumeInfo,
    frames_per_keyframe: u64,
    later: u64,
)
    requires
        before.resumed_from(after, info, frames_per_keyframe),
        later >= after.clock.last() / 1000,
        info.elapsed_millis + (later - after.clock.last() / 1000) <= u64::MAX,
    ensures
        after.timer.frames == info.elapsed_frames,
        after.timer.millis == info.elapsed_millis,
        after.timer_at(later) == info.elapsed_millis + (later - after.clock.last() / 1000),
        after.recorder.active,
        after.recorder.per_keyframe == frames_per_keyframe,
        after.recorder.since == 0,
        after.playback.player is None,
        !after.playback.stalled,
        before.together.follower is None ==> !after.playing_back(),
        following::counters_of(after.playback.counters) == packet::counter_models(info.counters@),
        after.audio.speed == info.speed,
        driving::input_in_force(after.core.log()) == Some(info.input@),
        after.input.base == before.input.base,
        after.input.next == before.input.next,
        !after.input.latched,
{
    let (taken, timed, set) = choose|
        taken: SuperShuckieCore<C, T>,
        timed: SuperShuckieCore<C, T>,
        set: SuperShuckieCore<C, T>,
    |
        #![trigger
            before.source_taken(taken, info, frames_per_keyframe),
            taken.timer_resumed(timed, info.elapsed_millis, info.elapsed_frames),
            timed.held_set(set, info.input@)]
        before.source_taken(taken, info, frames_per_keyframe) && taken.timer_resumed(
            timed,
            info.elapsed_millis,
            info.elapsed_frames,
        ) && timed.held_set(set, info.input@) && set.speed_set(after, info.speed);
    assert(set.core.log().last() == (CoreCall::SetInput { data: info.input@ }));
    assert(driving::input_in_force(set.core.log()) == Some(info.input@));
    assert(after.core.log().last() is SetSpeed);
    assert(after.core.log().drop_last() =~= set.core.log());
}

/// What going on with a replay asks of the seek: the replay's last frame, unless another is given;
/// and the answer is that frame.
pub proof fn law_resuming_names_its_frame<C: EmulatorCore, T: MonotonicTimestampProvider>(
    before: SuperShuckieCore<C, T>,
    after: SuperShuckieCore<C, T>,
    target: u64,
    r: Result<u64, String>,
)
    requires
        before.resume_sought(after, target, r),
    ensures
        r matches Ok(frame) ==> frame == target,
        exists|went: Result<(), String>| #[trigger]
            before.went_to_frame(after, target, went) && (went is Ok <==> r is Ok),
{
}

/// A new file starts from the console as it is: its state and the input it is given, at no time and
/// before any frame; it says which game and which core it was recorded with.
pub proof fn law_a_new_file_starts_from_the_console<
    C: EmulatorCore,
    T: MonotonicTimestampProvider,
>(
    before: SuperShuckieCore<C, T>,
    after: SuperShuckieCore<C, T>,
    start: starting::RecordingStart,
    rom_name: Seq<char>,
    rom_filename: Seq<char>,
    later: u64,
)
    requires
        before.recording_readied(after, start, rom_name, rom_filename),
        later >= after.clock.last() / 1000,
    ensures
        start.millis == 0,
        after.timer.frames == 0,
        after.timer.millis == 0,
        after.timer_at(later) == later - after.clock.last() / 1000,
        driving::input_in_force(after.core.log()) == Some(start.input@),
        exists|finished: SuperShuckieCore<C, T>|
            {
                &&& #[trigger] finished.core.state() == start.state@
                &&& after.core.log() == finished.core.log().push(
                    CoreCall::SetInput { data: start.input@ },
                )
            },
        start.metadata.rom_name@ == rom_name,
        start.metadata.rom_filename@ == rom_filename,
        before.core.identity().console == Some(start.metadata.console_type),
        start.metadata.rom_checksum == before.core.identity().rom_checksum,
        start.metadata.bios_checksum == before.core.identity().bios_checksum,
        start.metadata.emulator_core_name@ == before.core.identity().name,
        start.speed == before.audio.speed,
{
    let (stopped, detached, finished) = choose|
        stopped: SuperShuckieCore<C, T>,
        detached: SuperShuckieCore<C, T>,
        finished: SuperShuckieCore<C, T>,
    |
        #![trigger
            before.recording_stopped(stopped),
            stopped.player_detached(detached),
            detached.frame_finished(finished)]
        before.recording_stopped(stopped) && stopped.player_detached(detached)
            && detached.frame_finished(finished) && detached.starts_from(
            finished,
            start,
            rom_name,
            rom_filename,
        ) && finished.start_readied(after, detached.input.current);
    let held = detached.input.current;
    let set = choose|set: SuperShuckieCore<C, T>| #[trigger]
        finished.input_set(set, held) && set.timer_restarted(after);
    assert(finished.core.state() == start.state@);
    assert(after.core.log() =~= finished.core.log().push(
        CoreCall::SetInput { data: start.input@ },
    ));
}

/// A replay that is attached starts at its beginning: no frame, no time, nothing pressed or waiting
/// to be written, and no counters.
pub proof fn law_an_attached_replay_starts_at_its_beginning<
    C: EmulatorCore,
    T: MonotonicTimestampProvider,
>(before: SuperShuckieCore<C, T>, after: SuperShuckieCore<C, T>, p: ReplayFilePlayer)
    requires
        before.player_put(after, p),
    ensures
        after.playback.player == Some(p),
        after.playing_back(),
        after.timer.frames == 0,
        after.timer.millis == 0,
        after.input.current == crate::emulator::input::Input::nothing(),
        after.input.next is None,
        after.waiting_writes().len() == 0,
        following::counters_of(after.playback.counters).len() == 0,
        !after.playback.stalled,
        after.core == before.core,
{
}

/// A replay that does not fit changes nothing: what was being recorded or played goes on.
pub proof fn law_a_refused_replay_changes_nothing<
    C: EmulatorCore,
    T: MonotonicTimestampProvider,
>(
    before: SuperShuckieCore<C, T>,
    after: SuperShuckieCore<C, T>,
    p: ReplayFilePlayer,
    allow_mismatched: bool,
    r: Result<(), super::compat::ReplayPlayerAttachError>,
)
    requires
        before.attaches(after, p, allow_mismatched, r),
        before.linked() || before.core.identity().console != Some(p.metadata.console_type),
    ensures
        r is Err,
        after == before,
{
}

} // verus!
