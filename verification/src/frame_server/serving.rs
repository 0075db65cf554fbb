//! What a client of the frame server can rely on: that the picture, the sound and the memory it gets
//! are those it asked for, and that what it asked for in vain is refused.

use super::protocol;
use super::protocol::{Info, ReplyModel, RequestModel};
use super::server;
use super::server::{Job, Phase, Server, Task};
use super::source;
use super::source::{ReplayIndex, ReplaySummary};
use super::walk;
use super::walk::{FrameSession, RingModel};
use crate::audio;
use crate::emulator::console::{CoreCall, EmulatorCore};
use crate::export;
use crate::export::ScreenLayout;
use crate::replay::player::{ReplayConsoleType, ReplayFilePlayer};
use crate::session::effects;
use crate::session::state::{MonotonicTimestampProvider, SuperShuckieCore};
use vstd::prelude::*;

verus! {

// ---------------------------------------------------------------------------------------------
// Pictures.

/// The frame whose picture is picture `index`: the screens are empty before the first frame, so
/// pictures 0 and 1 are the same.
pub open spec fn frame_of(index: u64) -> u64 {
    if index == 0 {
        1
    } else {
        index
    }
}

/// The job and the pictures of a reply.
pub open spec fn is_picture<C, T>(
    session: FrameSession<C, T>,
    job: Job,
    r: Option<ReplyModel>,
    index: u64,
) -> bool {
    r matches Some(ReplyModel::Frame { id, index: i, .. }) && id == job.id && i == index
        && session.drawn == Some(frame_of(index))
}

proof fn lemma_arrived<C: EmulatorCore, T: MonotonicTimestampProvider>(
    session: FrameSession<C, T>,
    after: FrameSession<C, T>,
    job: Job,
    next: Option<Job>,
    r: Option<ReplyModel>,
)
    requires
        server::arrived_at(session, after, job, next, r),
        session.drawn == Some(server::task_target(job.task)),
        job.task is Frame || job.task is Run,
        r matches Some(ReplyModel::Frame { .. }),
    ensures
        job.task matches Task::Frame { index } ==> is_picture(after, job, r, index) && next is None,
        job.task matches Task::Run { next: index, to } ==> is_picture(after, job, r, index)
            && next == Some(
            Job {
                id: job.id,
                task: Task::Run { next: (index + 1) as u64, to },
                phase: Phase::Positioning,
            },
        ),
        r matches Some(ReplyModel::Frame { pixels, .. }) && after.pixels() == Some(pixels),
{
}

proof fn lemma_walked_picture<C: EmulatorCore, T: MonotonicTimestampProvider>(
    session: FrameSession<C, T>,
    after: FrameSession<C, T>,
    job: Job,
    next: Option<Job>,
    r: Option<ReplyModel>,
)
    requires
        server::walked(session, after, job, next, r),
        job.task is Frame || job.task is Run,
        r matches Some(ReplyModel::Frame { .. }),
    ensures
        job.task matches Task::Frame { index } ==> is_picture(after, job, r, index) && next is None,
        job.task matches Task::Run { next: index, to } ==> is_picture(after, job, r, index)
            && next == Some(
            Job {
                id: job.id,
                task: Task::Run { next: (index + 1) as u64, to },
                phase: Phase::Positioning,
            },
        ),
        r matches Some(ReplyModel::Frame { pixels, .. }) && after.pixels() == Some(pixels),
{
    let (nearer, went) = choose|nearer: FrameSession<C, T>, went: Result<bool, String>|
        #[trigger] session.walked(nearer, server::hidden_target(job.task), false, went) && match went {
            Err(why) => after == nearer && server::done(
                next,
                server::failure(job.id, why@),
                r,
            ),
            Ok(there) => if !there {
                &&& after == nearer
                &&& next == Some(Job { phase: Phase::Walking, ..job })
                &&& r is None
            } else if server::is_audio(job.task) {
                server::arrived_at(nearer, after, job, next, r)
            } else {
                server::drawn(nearer, after, job, next, r)
            },
        };
    assert(server::drawn(nearer, after, job, next, r));
    let (shown, drew) = choose|shown: FrameSession<C, T>, drew: Result<(), String>|
        #[trigger] nearer.drew(shown, server::task_target(job.task), drew) && match drew {
            Err(why) => after == shown && server::done(
                next,
                server::failure(job.id, why@),
                r,
            ),
            Ok(_) => server::arrived_at(shown, after, job, next, r),
        };
    assert(drew is Ok);
    lemma_arrived(shown, after, job, next, r);
}

/// A picture that is sent is the one asked for: it carries the request's number and the picture's
/// index, it is the picture of that frame, and it is what the screens show. The pictures of a run
/// go out one after another, each once.
pub proof fn law_the_picture_sent_is_the_one_asked_for<
    C: EmulatorCore,
    T: MonotonicTimestampProvider,
>(before: Server<C, T>, after: Server<C, T>, job: Job, r: Option<ReplyModel>)
    requires
        before.job == Some(job),
        server::job_wf(job),
        before.worked(after, r),
        job.task is Frame || job.task is Run,
        r matches Some(ReplyModel::Frame { .. }),
    ensures
        job.task matches Task::Frame { index } ==> is_picture(after.session(), job, r, index)
            && after.job is None,
        job.task matches Task::Run { next, to } ==> is_picture(after.session(), job, r, next)
            && after.job == Some(
            Job {
                id: job.id,
                task: Task::Run { next: (next + 1) as u64, to },
                phase: Phase::Positioning,
            },
        ),
        r matches Some(ReplyModel::Frame { pixels, .. }) && after.session().pixels() == Some(
            pixels,
        ),
{
    let session = before.session();
    let target = server::task_target(job.task);
    if job.phase == Phase::Walking {
        lemma_walked_picture(session, after.session(), job, after.job, r);
    } else {
        assert(server::positioned(session, after.session(), job, after.job, r));
        let (placed, began) = choose|placed: FrameSession<C, T>, began: Result<bool, String>|
            #[trigger] session.begun(placed, target, server::is_audio(job.task), began)
                && match began {
                Err(why) => after.session() == placed && server::done(
                    after.job,
                    server::failure(job.id, why@),
                    r,
                ),
                Ok(there) => if there {
                    server::arrived_at(placed, after.session(), job, after.job, r)
                } else {
                    server::walked(placed, after.session(), job, after.job, r)
                },
            };
        match began {
            Err(_) => {},
            Ok(there) => if there {
                lemma_arrived(placed, after.session(), job, after.job, r);
            } else {
                lemma_walked_picture(placed, after.session(), job, after.job, r);
            },
        }
    }
}

/// A run that has sent its last picture is answered as done, and nothing is run for that.
pub proof fn law_a_run_ends_after_its_last_picture<C: EmulatorCore, T: MonotonicTimestampProvider>(
    before: Server<C, T>,
    after: Server<C, T>,
    job: Job,
    next: u64,
    to: u64,
    r: Option<ReplyModel>,
)
    requires
        before.job == Some(job),
        job.task == (Task::Run { next, to }),
        job.phase == Phase::Positioning,
        !before.is_superseded(job.id),
        before.worked(after, r),
    ensures
        next >= to ==> r == Some(ReplyModel::Done { id: job.id }) && after.job is None
            && after.session() == before.session(),
        next < to ==> r != Some(ReplyModel::Done { id: job.id }),
{
    if next < to {
        let session = before.session();
        assert(server::positioned(session, after.session(), job, after.job, r));
        if r == Some(ReplyModel::Done { id: job.id }) {
            let (placed, began) = choose|placed: FrameSession<C, T>, began: Result<bool, String>|
                #[trigger] session.begun(
                    placed,
                    server::task_target(job.task),
                    server::is_audio(job.task),
                    began,
                ) && match began {
                    Err(why) => after.session() == placed && server::done(
                        after.job,
                        server::failure(job.id, why@),
                        r,
                    ),
                    Ok(there) => if there {
                        server::arrived_at(placed, after.session(), job, after.job, r)
                    } else {
                        server::walked(placed, after.session(), job, after.job, r)
                    },
                };
            lemma_walks_are_not_done(placed, after.session(), job, after.job, r);
        }
    }
}

proof fn lemma_walks_are_not_done<C: EmulatorCore, T: MonotonicTimestampProvider>(
    session: FrameSession<C, T>,
    after: FrameSession<C, T>,
    job: Job,
    next: Option<Job>,
    r: Option<ReplyModel>,
)
    requires
        job.task is Run,
        r matches Some(ReplyModel::Done { .. }),
    ensures
        !server::arrived_at(session, after, job, next, r),
        !server::walked(session, after, job, next, r),
{
    assert forall|shown: FrameSession<C, T>| !#[trigger] server::arrived_at(
        shown,
        after,
        job,
        next,
        r,
    ) by {}
    assert forall|nearer: FrameSession<C, T>| !#[trigger] server::drawn(
        nearer,
        after,
        job,
        next,
        r,
    ) by {}
}

/// The bytes of a pixel of the picture sent: of a console with one screen, the pixel at `(x, y)` is
/// the screen's, its blue, green, red and alpha in this order at four times its place.
pub proof fn law_the_picture_sent_is_the_screen<C: EmulatorCore, T: MonotonicTimestampProvider>(
    session: FrameSession<C, T>,
    pixels: Seq<u8>,
    i: int,
)
    requires
        session.pixels() == Some(pixels),
        session.core.core.pictures().len() == 1,
        export::is_whole(session.core.core.pictures()[0]),
        0 <= i < session.core.core.pictures()[0].pixels@.len(),
    ensures
        ({
            let screen = session.core.core.pictures()[0];
            &&& pixels.len() == 4 * screen.pixels@.len()
            &&& pixels[4 * i] + 0x100 * pixels[4 * i + 1] + 0x1_0000 * pixels[4 * i + 2]
                + 0x100_0000 * pixels[4 * i + 3] == screen.pixels@[i]
        }),
{
    let screens = session.core.core.pictures();
    export::law_one_screen_is_the_picture(screens, session.layout);
    walk::law_pixels_are_sent_as_their_words(screens[0].pixels@, i);
}

// ---------------------------------------------------------------------------------------------
// Getting there.

/// A picture up to two keyframe intervals ahead is reached by running on; one that is behind, or
/// further ahead, by loading a keyframe at least as far before it as the screens need to be redrawn.
pub proof fn law_how_a_picture_is_reached<C: EmulatorCore, T: MonotonicTimestampProvider>(
    session: FrameSession<C, T>,
    after: FrameSession<C, T>,
    target: u64,
    hidden: bool,
    r: Result<bool, String>,
)
    requires
        session.begun(after, target, hidden, r),
    ensures
        session.core.timer.frames < target && target - session.core.timer.frames <= 240 ==> after
            == session && r == Ok::<bool, String>(false),
        session.core.timer.frames > target || target - session.core.timer.frames > 240 ==> {
            &&& after.drawn is None
            &&& after.audio == session.audio
            &&& exists|hint: u64, loaded: Result<(), String>| #[trigger]
                session.core.keyframe_loaded(after.core, hint, loaded) && (hint + 3 == target
                    || hint == 0 && target < 3)
        },
        r matches Ok(there) && there ==> session.core.timer.frames == target,
{
}

/// A walk says it is there exactly if it is: at the target's frame or past it. It stops for new
/// requests after a few frames, and says so when the replay is over before the target.
pub proof fn law_a_walk_ends_where_it_says<C: EmulatorCore, T: MonotonicTimestampProvider>(
    session: FrameSession<C, T>,
    after: FrameSession<C, T>,
    target: u64,
    audible: bool,
    r: Result<bool, String>,
)
    requires
        session.walked(after, target, audible, r),
    ensures
        r matches Ok(there) && there ==> after.core.timer.frames >= target,
        r is Err ==> after.core.timer.frames < target && after.core.playback.stalled,
        session.core.timer.frames >= target ==> after == session && r == Ok::<bool, String>(true),
{
    let steps = choose|steps: Seq<FrameSession<C, T>>| #[trigger]
        session.walked_in(after, target, audible, r, steps);
    if session.core.timer.frames >= target {
        if steps.len() > 1 {
            assert(steps[0].walks_on(steps[1], target, audible));
        }
    }
}

// ---------------------------------------------------------------------------------------------
// Sound.

/// The samples to be heard among what a session asks for.
pub open spec fn samples_heard(outs: Seq<effects::Out>, n: nat) -> Seq<i16>
    decreases n,
{
    if n == 0 {
        Seq::empty()
    } else {
        let before = samples_heard(outs, (n - 1) as nat);
        match outs[n - 1] {
            effects::Out::PlayAudio { samples } => if samples.len() % 2 == 0 {
                before + samples
            } else {
                before
            },
            _ => before,
        }
    }
}

/// Everything a session plays is collected, in order, as long as it fits: nothing is lost, nothing
/// is added.
pub proof fn law_all_that_plays_is_collected(
    ring: RingModel,
    outs: Seq<effects::Out>,
    capacity: nat,
    n: nat,
)
    requires
        n <= outs.len(),
        ring.samples.len() + samples_heard(outs, n).len() <= 2 * capacity,
        forall|i: int| 0 <= i < n ==> !((#[trigger] outs[i]) is ClearAudio),
    ensures
        ring.with_all(outs, capacity, n).samples == ring.samples + samples_heard(outs, n),
    decreases n,
{
    if n > 0 {
        law_all_that_plays_is_collected(ring, outs, capacity, (n - 1) as nat);
        let before = ring.with_all(outs, capacity, (n - 1) as nat);
        let last = outs[n - 1];
        assert(ring.with_all(outs, capacity, n).samples =~= ring.samples + samples_heard(outs, n));
    } else {
        assert(ring.samples + samples_heard(outs, 0) =~= ring.samples);
    }
}

/// The ring has room for the whole stretch and a second more: as many milliseconds as the frames
/// last at the console's rate, and a thousand.
pub proof fn law_the_ring_has_room_for_the_stretch<C: EmulatorCore, T: MonotonicTimestampProvider>(
    session: FrameSession<C, T>,
    after: FrameSession<C, T>,
    frames: u32,
)
    requires
        session.fps.0 >= 1,
        session.listening(after, frames),
        session.stretch_millis(frames) < u32::MAX,
    ensures
        (session.stretch_millis(frames) - 1000) * session.fps.0 >= frames * 1000 * session.fps.1,
        after.audio matches Some(ring) && ring@.len() == 0 && (ring.capacity() * 1000 >= 48000
            * session.stretch_millis(frames) || ring.capacity() == usize::MAX / 2),
{
    let num = session.fps.0 as int;
    let total = frames * 1000 * session.fps.1;
    assert(total >= 0) by (nonlinear_arith)
        requires
            total == frames * 1000 * session.fps.1,
            frames >= 0,
            session.fps.1 >= 0,
    ;
    let ms = (total + num - 1) / num;
    assert(ms * num >= total) by (nonlinear_arith)
        requires
            ms == (total + num - 1) / num,
            num >= 1,
    ;
    assert(ms >= 0) by (nonlinear_arith)
        requires
            ms == (total + num - 1) / num,
            num >= 1,
            total >= 0,
    ;
}

/// Sound that is sent carries the request's numbers, and by then as many frames were run as the
/// request has pictures, from just before its first picture on.
pub proof fn law_the_sound_sent_is_the_one_asked_for<C: EmulatorCore, T: MonotonicTimestampProvider>(
    session: FrameSession<C, T>,
    after: FrameSession<C, T>,
    job: Job,
    first_frame: u64,
    frames: u32,
    next: Option<Job>,
    r: Option<ReplyModel>,
)
    requires
        job.task == (Task::Audio { first_frame, frames }),
        server::heard(session, after, job, next, r),
        frame_of(first_frame) - 1 + frames <= u64::MAX,
        r matches Some(ReplyModel::Audio { .. }),
    ensures
        r matches Some(ReplyModel::Audio { id, first_frame: f, frames: n, .. }) && id == job.id && f
            == first_frame && n == frames,
        next is None,
        after.core.timer.frames >= frame_of(first_frame) - 1 + frames,
        server::task_target(job.task) + 1 == frame_of(first_frame),
{
    let (ran, collected, went) = choose|
        ran: FrameSession<C, T>,
        collected: FrameSession<C, T>,
        went: Result<bool, String>,
    |
        #![trigger session.walked(ran, server::audio_end(job.task), true, went), ran.collected(collected)]
        session.walked(ran, server::audio_end(job.task), true, went) && ran.collected(collected)
            && match went {
            Err(why) => after == collected && server::done(next, server::failure(job.id, why@), r),
            Ok(there) => if !there {
                &&& after == collected
                &&& next == Some(Job { phase: Phase::Hearing, ..job })
                &&& r is None
            } else {
                &&& server::done(next, server::sound_reply(job, collected.sound()), r)
                &&& after == (FrameSession { audio: after.audio, ..collected })
                &&& after.sound() == Seq::<i16>::empty()
            },
        };
    law_a_walk_ends_where_it_says(session, ran, server::audio_end(job.task), true, went);
}

// ---------------------------------------------------------------------------------------------
// Memory.

/// Blocks of memory come in the order they were asked for, one after the other, each with what the
/// core reads there or, where it reads nothing, as many zeros as were asked for.
pub proof fn law_blocks_come_in_order<C: EmulatorCore, T: MonotonicTimestampProvider>(
    session: FrameSession<C, T>,
    first: Seq<(u32, u32)>,
    second: Seq<(u32, u32)>,
    address: u32,
    len: u32,
)
    ensures
        session.blocks_of(first + second, (first + second).len()) == session.blocks_of(
            first,
            first.len(),
        ) + session.blocks_of(second, second.len()),
        match session.core.core.decoded_ram(address, len as nat) {
            Some(bytes) => session.blocks_of(seq![(address, len)], 1) == bytes,
            None => {
                let zeros = session.blocks_of(seq![(address, len)], 1);
                zeros.len() == len && forall|i: int| 0 <= i < len ==> #[trigger] zeros[i] == 0
            },
        },
{
    lemma_blocks_joined(session, first, second, second.len());
    assert(session.blocks_of(seq![(address, len)], 0) =~= Seq::<u8>::empty());
    if let Some(bytes) = session.core.core.decoded_ram(address, len as nat) {
        assert(session.blocks_of(seq![(address, len)], 1) =~= bytes);
    }
}

proof fn lemma_blocks_joined<C: EmulatorCore, T: MonotonicTimestampProvider>(
    session: FrameSession<C, T>,
    first: Seq<(u32, u32)>,
    second: Seq<(u32, u32)>,
    n: nat,
)
    requires
        n <= second.len(),
    ensures
        session.blocks_of(first + second, first.len() + n) == session.blocks_of(first, first.len())
            + session.blocks_of(second, n),
    decreases n,
{
    if n > 0 {
        lemma_blocks_joined(session, first, second, (n - 1) as nat);
        assert((first + second)[first.len() + n - 1] == second[n - 1]);
        assert(session.blocks_of(first + second, first.len() + n) =~= session.blocks_of(
            first,
            first.len(),
        ) + session.blocks_of(second, n));
    } else {
        lemma_blocks_prefix(session, first, second, first.len());
        assert(session.blocks_of(first, first.len()) + session.blocks_of(second, 0)
            =~= session.blocks_of(first, first.len()));
    }
}

proof fn lemma_blocks_prefix<C: EmulatorCore, T: MonotonicTimestampProvider>(
    session: FrameSession<C, T>,
    first: Seq<(u32, u32)>,
    second: Seq<(u32, u32)>,
    n: nat,
)
    requires
        n <= first.len(),
    ensures
        session.blocks_of(first + second, n) == session.blocks_of(first, n),
    decreases n,
{
    if n > 0 {
        lemma_blocks_prefix(session, first, second, (n - 1) as nat);
        assert((first + second)[n - 1] == first[n - 1]);
    }
}

/// The bytes asked for are those of all blocks.
pub proof fn law_blocks_are_counted(first: Seq<(u32, u32)>, address: u32, len: u32)
    ensures
        server::bytes_asked(first.push((address, len)), first.len() + 1) == server::bytes_asked(
            first,
            first.len(),
        ) + len,
        server::bytes_asked(Seq::<(u32, u32)>::empty(), 0) == 0,
{
    lemma_asked_prefix(first, (address, len), first.len());
}

proof fn lemma_asked_prefix(first: Seq<(u32, u32)>, more: (u32, u32), n: nat)
    requires
        n <= first.len(),
    ensures
        server::bytes_asked(first.push(more), n) == server::bytes_asked(first, n),
    decreases n,
{
    if n > 0 {
        lemma_asked_prefix(first, more, (n - 1) as nat);
    }
}

// ---------------------------------------------------------------------------------------------
// Requests.

/// What is refused: a picture, or memory, past the last picture; more memory than the limit; a run
/// or sound that is not inside the pictures. Nothing else is.
pub proof fn law_what_is_refused(frames: u64, index: u64, end: u64, n: u32, bytes: u64, limit: u64)
    ensures
        server::task_refused(Task::Frame { index }, frames) is Some <==> !(index < frames),
        server::task_refused(Task::Run { next: index, to: end }, frames) is Some <==> !(index <= end
            && end <= frames),
        server::task_refused(Task::Memory { index, bytes, limit }, frames) is Some <==> !(index
            < frames && bytes <= limit),
        server::task_refused(Task::Audio { first_frame: index, frames: n }, frames) is Some <==> !(
        index < frames && index + n <= frames),
{
}

/// What ends the work on a request: a newer picture or run asked for, the end of the session, or
/// that very request being cancelled. Greetings, openings and sound do not.
pub proof fn law_what_supersedes(request: RequestModel, id: u32)
    ensures
        request is Frame || request is Run || request is Close ==> server::supersedes(request, id),
        request is Hello || request is Open || request is Audio ==> !server::supersedes(request, id),
        request matches RequestModel::Cancel { id: cancelled } ==> (server::supersedes(request, id)
            <==> cancelled == id),
{
}

// ---------------------------------------------------------------------------------------------
// What is told of a replay.

/// What a client is told of a replay is so: how many pictures it has, where its keyframes are (each
/// once, in order), its bookmarks and counters, its marked range and the core it was recorded with.
pub proof fn law_a_replay_is_described(
    info: Info,
    summary: ReplaySummary,
    player: ReplayFilePlayer,
    index: ReplayIndex,
    console: Seq<char>,
    layout: ScreenLayout,
    rom_ok: bool,
    k: int,
    j: int,
)
    requires
        summary.describes(player, index),
        server::tells(info, summary, console, layout, rom_ok),
    ensures
        info.frames == player.total_frames,
        info.sample_rate == 48000,
        info.rom_ok == rom_ok,
        info.core_recorded@ == player.metadata.emulator_core_name@,
        0 <= k < info.keyframes@.len() ==> exists|i: int|
            0 <= i < player.keyframes@.len() && (#[trigger] player.keyframes@[i]).frame
                == info.keyframes@[k],
        0 <= j < player.keyframes@.len() ==> info.keyframes@.contains(player.keyframes@[j].frame),
        0 <= k < j < info.keyframes@.len() ==> info.keyframes@[k] < info.keyframes@[j],
        protocol::named(info.bookmarks@).to_multiset() == source::marks_of(
            index.bookmark_table.bookmarks@,
        ).to_multiset(),
        protocol::named(info.counters@).to_multiset() == source::counter_pairs(
            index.last_counters@,
        ).to_multiset(),
        index.crop_start is Some && index.crop_end is Some ==> info.crop == Some(
            ((index.crop_start->0).0, (index.crop_end->0).0),
        ),
        index.crop_start is None || index.crop_end is None ==> info.crop is None,
{
    if 0 <= k < info.keyframes@.len() {
        assert(summary.keyframes@.contains(summary.keyframes@[k]));
    }
    if 0 <= j < player.keyframes@.len() {
        assert(source::has_keyframe(player.keyframes@, player.keyframes@[j].frame));
    }
}

/// A session that is served plays at its own speed and is heard at every speed, with sound if it
/// was asked for, and starts from a fresh core.
pub proof fn law_a_served_session<C: EmulatorCore, T: MonotonicTimestampProvider>(
    core: SuperShuckieCore<C, T>,
    emulator: C,
    sound: bool,
)
    requires
        server::readied(core, emulator, sound),
    ensures
        core.playback.ignore_speed,
        !core.audio.mute_when_sped_up,
        core.audio.enabled == sound,
        sound ==> core.core.log() == emulator.log().push(
            CoreCall::SetAudioEnabled { enabled: true },
        ),
        !sound ==> core.core.log() == emulator.log(),
{
}

/// Two digits, high half first; each digit's value is its half byte.
pub open spec fn digit_value(c: char) -> int {
    if '0' <= c <= '9' {
        c as int - '0' as int
    } else {
        c as int - 'a' as int + 10
    }
}

/// Hexadecimal digits read back as the byte, and all are of `0` to `9` and `a` to `f`.
pub proof fn law_hexadecimal_digits_read_back(bytes: Seq<u8>, i: int)
    requires
        0 <= i < bytes.len(),
    ensures
        source::hex_of(bytes).len() == 2 * bytes.len(),
        ({
            let high = source::hex_of(bytes)[2 * i];
            let low = source::hex_of(bytes)[2 * i + 1];
            &&& 16 * digit_value(high) + digit_value(low) == bytes[i]
            &&& '0' <= high <= '9' || 'a' <= high <= 'f'
            &&& '0' <= low <= '9' || 'a' <= low <= 'f'
        }),
    decreases bytes.len(),
{
    lemma_hex_len(bytes);
    lemma_hex_len(bytes.drop_last());
    if i < bytes.len() - 1 {
        law_hexadecimal_digits_read_back(bytes.drop_last(), i);
    }
}

proof fn lemma_hex_len(bytes: Seq<u8>)
    ensures
        source::hex_of(bytes).len() == 2 * bytes.len(),
    decreases bytes.len(),
{
    if bytes.len() > 0 {
        lemma_hex_len(bytes.drop_last());
    }
}

/// The layout byte: stacked, side by side, the first screen only, the second only; whatever else is
/// stacked.
pub proof fn law_layout_bytes(layout: u8)
    ensures
        source::byte_layout(0) == ScreenLayout::VerticalStack,
        source::byte_layout(1) == ScreenLayout::HorizontalStack,
        source::byte_layout(2) == ScreenLayout::TopOnly,
        source::byte_layout(3) == ScreenLayout::BottomOnly,
        layout > 3 ==> source::byte_layout(layout) == ScreenLayout::VerticalStack,
{
}

/// Consoles draw between 59 and 60 pictures a second, and handhelds of one family the same number.
pub proof fn law_picture_rates(console: ReplayConsoleType)
    requires
        console != ReplayConsoleType::Unknown,
    ensures
        ({
            let (num, den) = source::native_rate(console);
            &&& 59 * den < num < 60 * den
            &&& console == ReplayConsoleType::GameBoy || console == ReplayConsoleType::GameBoyColor
                || console == ReplayConsoleType::SuperGameBoy2 || console
                == ReplayConsoleType::GameBoyAdvance ==> num == 4194304 && den == 70224
            &&& console == ReplayConsoleType::NintendoDS ==> num == 33513982 && den == 560190
            &&& console == ReplayConsoleType::Nintendo3DS ==> num == 268111856 && den == 4481136
        }),
{
}

/// A replay that was opened is what the client is told it is: its pictures have the size and rate
/// told, it starts at its beginning with nothing heard, and nothing can be served without one.
pub proof fn law_an_opened_replay<C: EmulatorCore, T: MonotonicTimestampProvider>(
    o: server::Opened<C, T>,
    core: SuperShuckieCore<C, T>,
    summary: ReplaySummary,
    console: Seq<char>,
    player: ReplayFilePlayer,
    layout: ScreenLayout,
)
    requires
        server::is_opened(o, core, summary, console, player, layout),
    ensures
        o.session.frames == summary.frames,
        o.info.frames == o.session.frames,
        o.session.layout == layout,
        (o.info.fps_num, o.info.fps_den) == o.session.fps,
        o.session.fps == o.session.core.core.identity().frame_rate,
        o.info.core_running@ == o.session.core.core.identity().name,
        o.session.sound().len() == 0,
        ({
            let screens = o.session.core.core.pictures();
            export::picture_fits(screens, layout) && screens.len() > 0 ==> o.session.pixels()
                is Some && o.session.pixels()->0.len() == 4 * (o.info.width * o.info.height)
        }),
        core.attaches(o.session.core, player, true, Ok(())),
{
    let screens = o.session.core.core.pictures();
    if export::picture_fits(screens, layout) && screens.len() > 0 {
        let (w, h) = export::geometry(screens, layout)->0;
        assert(w * h >= 0) by (nonlinear_arith)
            requires
                w >= 0,
                h >= 0,
        ;
        assert(walk::word_bytes(export::composited(screens, layout)).len() == 4
            * export::composited(screens, layout).len());
    }
}

/// Nothing is served before a replay is open, nor one whose ROM does not match; what is open is
/// served.
pub proof fn law_what_can_be_served<C: EmulatorCore, T: MonotonicTimestampProvider>(
    server: Server<C, T>,
)
    ensures
        server.source is None ==> server.unusable() is Some,
        server.source matches Some(server::Source::RomMismatch) ==> server.unusable() is Some,
        server.source matches Some(server::Source::Open(_)) ==> server.unusable() is None,
{
}

/// A picture counts as drawn only if the core drew it: its frame was reached and its last run put
/// something on the screens. A walk that is not heard draws nothing and is not shown.
pub proof fn law_drawn_pictures_were_drawn<C: EmulatorCore, T: MonotonicTimestampProvider>(
    before: FrameSession<C, T>,
    after: FrameSession<C, T>,
    target: u64,
    r: Result<(), String>,
)
    requires
        before.drew(after, target, r),
    ensures
        r is Ok ==> after.drawn == Some(target) && after.core.timer.frames >= target
            && after.core.runs.last.presented,
        r is Err ==> after.drawn is None && (after.core.timer.frames < target
            || !after.core.runs.last.presented),
        before.core.reached(after.core, target),
        after.audio == before.audio && after.layout == before.layout && after.frames
            == before.frames,
{
}

/// A walk to a picture runs the replay hidden and unheard; one that is listened to runs it as it is,
/// and what the screens show then is known.
pub proof fn law_how_a_walk_runs<C: EmulatorCore, T: MonotonicTimestampProvider>(
    before: FrameSession<C, T>,
    after: FrameSession<C, T>,
    target: u64,
    audible: bool,
)
    requires
        before.walks_on(after, target, audible),
    ensures
        before.core.timer.frames < target,
        before.core.ran_drawing(after.core, !audible, true, audible),
        !audible ==> after.drawn is None,
        audible && after.core.runs.last.presented ==> after.drawn == Some(after.core.timer.frames),
        audible && !after.core.runs.last.presented ==> after.drawn is None,
{
}

/// Whoever listens has the console's sound turned on, once.
pub proof fn law_listening_turns_the_sound_on<C: EmulatorCore, T: MonotonicTimestampProvider>(
    before: SuperShuckieCore<C, T>,
    after: SuperShuckieCore<C, T>,
)
    requires
        before.sound_on(after),
    ensures
        after.audio.enabled,
        before.audio.enabled ==> after.core == before.core,
        !before.audio.enabled ==> after.core.log() == before.core.log().push(
            CoreCall::SetAudioEnabled { enabled: true },
        ),
        after.timer == before.timer && after.playback == before.playback && after.runs
            == before.runs,
{
}

} // verus!
