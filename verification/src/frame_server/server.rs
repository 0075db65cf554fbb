//! What the server answers.
//!
//! The program around it reads requests and writes replies; in between, it asks the [`Server`] what
//! to do. A request that takes a while is worked on a few frames at a time, so that a newer request
//! (or a `Cancel`) that arrives part way through is noticed and the work abandoned.

use super::protocol;
use super::protocol::{Info, Reply, Request, PROTOCOL_VERSION};
use super::source;
use super::source::ReplaySummary;
use super::walk;
use super::walk::FrameSession;
use crate::emulator::console::{CoreCall, EmulatorCore, AUDIO_SAMPLE_RATE};
use crate::export;
use crate::export::ScreenLayout;
use crate::replay::player::ReplayFilePlayer;
use crate::session::compat::ReplayPlayerAttachError;
use crate::session::effects;
use crate::session::state::{
    AudioState, MonotonicTimestampProvider, PlaybackState, SuperShuckieCore,
};
use crate::text;
use std::collections::VecDeque;
use vstd::prelude::*;
use vstd::string::*;

verus! {

/// Human-readable server name for `Hello`, given the program's version.
pub fn server_name(version: &str) -> (r: String)
    ensures
        r@ == "supershuckie-frame-server "@ + version@,
{
    text::joined("supershuckie-frame-server ", version)
}

/// The answer to a greeting: the same protocol is spoken, or the client is told so and the server
/// ends.
pub fn greet(protocol: u32, version: &str, cores: Vec<String>) -> (r: Result<Reply, Reply>)
    ensures
        if protocol == PROTOCOL_VERSION {
            r matches Ok(reply) && reply@ == (protocol::ReplyModel::Hello {
                protocol: PROTOCOL_VERSION,
                server: "supershuckie-frame-server "@ + version@,
                cores: protocol::texts(cores@),
            })
        } else {
            r matches Err(reply) && reply@ == (protocol::ReplyModel::Error {
                id: 0,
                message: "this server speaks protocol "@ + text::decimal(PROTOCOL_VERSION as nat)
                    + ", the client asked for "@ + text::decimal(protocol as nat),
            })
        },
{
    if protocol != PROTOCOL_VERSION {
        let mut message: String = text::numbered(
            "this server speaks protocol ",
            PROTOCOL_VERSION as u64,
            ", the client asked for ",
        );
        text::push_decimal(&mut message, protocol as u64);
        return Err(Reply::Error { id: 0, message });
    }
    Ok(Reply::Hello { protocol: PROTOCOL_VERSION, server: server_name(version), cores })
}

// ---------------------------------------------------------------------------------------------
// Opening.

/// Whether an `Info` tells what a summary does.
pub open spec fn tells(
    info: Info,
    summary: ReplaySummary,
    console: Seq<char>,
    layout: ScreenLayout,
    rom_ok: bool,
) -> bool {
    &&& info.console@ == console
    &&& info.frames == summary.frames
    &&& info.sample_rate == AUDIO_SAMPLE_RATE
    &&& info.rom_ok == rom_ok
    &&& info.core_recorded@ == summary.core_recorded@
    &&& info.keyframes@ == summary.keyframes@
    &&& protocol::named(info.bookmarks@) == protocol::named(summary.bookmarks@)
    &&& info.crop == summary.crop
    &&& protocol::named(info.counters@) == protocol::named(summary.counters@)
}

/// The `Info` of a replay without a core.
pub fn info_of(summary: &ReplaySummary, console: String, layout: ScreenLayout, rom_ok: bool) -> (r:
    Info)
    ensures
        tells(r, *summary, console@, layout, rom_ok),
        (r.width, r.height) == source::picture_size(summary.console, layout),
        (r.fps_num, r.fps_den) == source::native_rate(summary.console),
        r.core_running@ == Seq::<char>::empty(),
{
    let (fps_num, fps_den): (u32, u32) = source::frame_rate(summary.console);
    let (width, height): (u32, u32) = source::geometry(summary.console, layout);
    let mut keyframes: Vec<u64> = Vec::new();
    keyframes.extend_from_slice(summary.keyframes.as_slice());
    assert(keyframes@ =~= summary.keyframes@);
    let core_running: String = String::new();
    assert(core_running@ =~= Seq::<char>::empty());
    Info {
        console,
        width,
        height,
        fps_num,
        fps_den,
        frames: summary.frames,
        sample_rate: AUDIO_SAMPLE_RATE,
        rom_ok,
        core_recorded: summary.core_recorded.clone(),
        core_running,
        keyframes,
        bookmarks: copy_named(&summary.bookmarks),
        crop: summary.crop,
        counters: copy_named(&summary.counters),
    }
}

fn copy_named<V: Copy>(list: &Vec<(String, V)>) -> (r: Vec<(String, V)>)
    ensures
        protocol::named(r@) == protocol::named(list@),
{
    let mut r: Vec<(String, V)> = Vec::new();
    let mut i: usize = 0;
    while i < list.len()
        invariant
            i == r@.len() <= list@.len(),
            forall|k: int|
                0 <= k < i ==> (#[trigger] r@[k]).0@ == list@[k].0@ && r@[k].1 == list@[k].1,
        decreases list@.len() - i,
    {
        r.push((list[i].0.clone(), list[i].1));
        i = i + 1;
    }
    assert(protocol::named(r@) =~= protocol::named(list@));
    r
}

/// After opening a replay with a core whose ROM matches: attached to a session that hears samples
/// at whatever speed and plays at none but its own.
pub open spec fn opened<C: EmulatorCore, T: MonotonicTimestampProvider>(
    core: SuperShuckieCore<C, T>,
    attached: SuperShuckieCore<C, T>,
    player: ReplayFilePlayer,
    r: Result<(), ReplayPlayerAttachError>,
) -> bool {
    core.attaches(attached, player, true, r)
}

/// A session readied for serving: a fresh one that renders sound if `audio`, hears it at every
/// speed and ignores the speeds of the recording.
pub open spec fn readied<C: EmulatorCore, T: MonotonicTimestampProvider>(
    core: SuperShuckieCore<C, T>,
    emulator: C,
    audio: bool,
) -> bool {
    &&& core.wf()
    &&& exists|fresh: SuperShuckieCore<C, T>| #[trigger]
        made_of(fresh, emulator) && core == (SuperShuckieCore {
            core: core.core,
            effects: core.effects,
            audio: AudioState { enabled: audio, mute_when_sped_up: false, ..fresh.audio },
            playback: PlaybackState { ignore_speed: true, ..fresh.playback },
            ..fresh
        })
    &&& core.outs() == Seq::<effects::Out>::empty()
    &&& core.core.log() == emulator.log() + (if audio {
        seq![CoreCall::SetAudioEnabled { enabled: true }]
    } else {
        Seq::empty()
    })
    &&& core.core.identity() == emulator.identity()
    &&& core.core.state() == emulator.state()
}

/// A new session around a core.
pub open spec fn made_of<C: EmulatorCore, T: MonotonicTimestampProvider>(
    core: SuperShuckieCore<C, T>,
    emulator: C,
) -> bool {
    core.core == emulator && core.fresh()
}

fn ready<C: EmulatorCore, T: MonotonicTimestampProvider>(
    emulator: C,
    clock: T,
    audio: bool,
) -> (r: SuperShuckieCore<C, T>)
    ensures
        readied(r, emulator, audio),
{
    let mut core: SuperShuckieCore<C, T> = SuperShuckieCore::new(emulator, clock);
    let ghost fresh = core;
    assert(made_of(fresh, emulator));
    core.set_audio_enabled(audio);
    assert(core.core.log() =~= emulator.log() + (if audio {
        seq![CoreCall::SetAudioEnabled { enabled: true }]
    } else {
        Seq::empty()
    }));
    // Samples are wanted per emulated frame at 1x whatever speed the recording was made at; the
    // recorded speed only ever paced the original session.
    core.set_audio_mute_when_sped_up(false);
    core.set_ignore_speed_changes_in_replays(true);
    assert(core.outs() =~= Seq::<effects::Out>::empty());
    core
}

/// What is open.
pub enum Source<C, T> {
    /// A replay whose ROM did not match: it was described, but nothing can be served.
    RomMismatch,
    /// A replay with a core.
    Open(FrameSession<C, T>),
}

/// A replay that was opened, or why it cannot be.
pub struct Opened<C, T> {
    pub session: FrameSession<C, T>,
    pub info: Info,
}

/// Whether a replay was opened, with its core in place.
pub open spec fn is_opened<C: EmulatorCore, T: MonotonicTimestampProvider>(
    o: Opened<C, T>,
    core: SuperShuckieCore<C, T>,
    summary: ReplaySummary,
    console: Seq<char>,
    player: ReplayFilePlayer,
    layout: ScreenLayout,
) -> bool {
    let id = core.core.identity();
    let screens = o.session.core.core.pictures();
    &&& opened(core, o.session.core, player, Ok(()))
    &&& o.session.layout == layout
    &&& o.session.frames == summary.frames
    &&& o.session.fps == o.session.core.core.identity().frame_rate
    &&& o.session.drawn == Some(o.session.core.timer.frames)
    &&& o.session.audio is None
    &&& tells(o.info, summary, console, layout, true)
    &&& o.info.core_running@ == o.session.core.core.identity().name
    &&& (o.info.fps_num, o.info.fps_den) == o.session.core.core.identity().frame_rate
    &&& (o.info.width, o.info.height) == (if export::sides_fit(screens, layout) {
        match export::geometry(screens, layout) {
            Some((w, h)) => (w as u32, h as u32),
            None => source::picture_size(summary.console, layout),
        }
    } else {
        source::picture_size(summary.console, layout)
    })
}

/// Open a replay with a core whose ROM matches.
pub fn open<C: EmulatorCore, T: MonotonicTimestampProvider>(
    emulator: C,
    clock: T,
    player: ReplayFilePlayer,
    summary: &ReplaySummary,
    console: String,
    layout: ScreenLayout,
    audio: bool,
) -> (r: Result<Opened<C, T>, ReplayPlayerAttachError>)
    ensures
        exists|core: SuperShuckieCore<C, T>| #[trigger]
            readied(core, emulator, audio) && match r {
                Ok(o) => o.session.wf() && is_opened(
                    o,
                    core,
                    *summary,
                    console@,
                    player,
                    layout,
                ),
                Err(e) => exists|attached: SuperShuckieCore<C, T>, failed: Result<
                    (),
                    ReplayPlayerAttachError,
                >| #[trigger]
                    opened(core, attached, player, failed) && (failed matches Err(f) && f@ == e@),
            },
{
    let mut info: Info = info_of(summary, console, layout, true);
    let mut core: SuperShuckieCore<C, T> = ready(emulator, clock, audio);
    let ghost first = core;
    let ghost given = player;
    let attached: Result<(), ReplayPlayerAttachError> = core.attach_replay_player(player, true);
    assert(opened(first, core, given, attached));
    if let Err(e) = attached {
        return Err(e);
    }
    info.core_running = core.get_core().core_name().to_owned();
    let fps: (u32, u32) = core.get_core().frame_rate();
    info.fps_num = fps.0;
    info.fps_den = fps.1;
    if sides_are_fine(core.get_core().get_screens(), layout) {
        if let Some((w, h)) = export::output_geometry(core.get_core().get_screens(), layout) {
            info.width = w;
            info.height = h;
        }
    }
    let frames: u64 = summary.frames;
    // Attaching runs the first frame, so the screens hold frame 1 (which is also frame 0).
    let drawn: Option<u64> = Some(core.total_frames());
    let o = Opened {
        session: FrameSession { core, layout, frames, fps, drawn, audio: None },
        info,
    };
    assert(is_opened(o, first, *summary, console@, given, layout));
    Ok(o)
}

fn sides_are_fine(
    screens: &[crate::emulator::console::ScreenData],
    layout: ScreenLayout,
) -> (r: bool)
    ensures
        r == export::sides_fit(screens@, layout),
{
    if screens.len() == 0 {
        return true;
    }
    let max: u64 = u32::MAX as u64;
    let aw: u64 = screens[0].width as u64;
    let ah: u64 = screens[0].height as u64;
    if screens.len() == 1 {
        return aw <= max && ah <= max;
    }
    let bw: u64 = screens[1].width as u64;
    let bh: u64 = screens[1].height as u64;
    match layout {
        ScreenLayout::VerticalStack => aw <= max && bw <= max && ah <= max && bh <= max - ah,
        ScreenLayout::HorizontalStack => ah <= max && bh <= max && aw <= max && bw <= max - aw,
        ScreenLayout::TopOnly => aw <= max && ah <= max,
        ScreenLayout::BottomOnly => bw <= max && bh <= max,
    }
}

// ---------------------------------------------------------------------------------------------
// Work.

/// What was asked for.
#[derive(Copy, Clone, Debug, PartialEq, Eq, Structural)]
pub enum Task {
    /// One picture.
    Frame { index: u64 },
    /// The pictures from `next` on, up to `to`.
    Run { next: u64, to: u64 },
    /// The sound of some pictures.
    Audio { first_frame: u64, frames: u32 },
    /// The memory behind one picture, that many bytes of it, no more than `limit` being allowed:
    /// reached like the picture, but nothing is sent. What is asked of it is read with
    /// [`read_memory`](Server::read_memory).
    Memory { index: u64, bytes: u64, limit: u64 },
}

/// How many bytes the first `n` blocks are.
pub open spec fn bytes_asked(blocks: Seq<(u32, u32)>, n: nat) -> nat
    decreases n,
{
    if n == 0 {
        0
    } else {
        bytes_asked(blocks, (n - 1) as nat) + blocks[n - 1].1 as nat
    }
}

/// How many bytes some blocks of memory are.
pub fn memory_asked(blocks: &Vec<(u32, u32)>) -> (r: u64)
    ensures
        r == (if bytes_asked(blocks@, blocks@.len()) > u64::MAX {
            u64::MAX as nat
        } else {
            bytes_asked(blocks@, blocks@.len())
        }),
{
    let mut total: u64 = 0;
    let mut i: usize = 0;
    while i < blocks.len()
        invariant
            i <= blocks@.len(),
            total == (if bytes_asked(blocks@, i as nat) > u64::MAX {
                u64::MAX as nat
            } else {
                bytes_asked(blocks@, i as nat)
            }),
        decreases blocks@.len() - i,
    {
        total = total.saturating_add(blocks[i].1 as u64);
        i = i + 1;
    }
    total
}

/// How far the work on it is.
#[derive(Copy, Clone, Debug, PartialEq, Eq, Structural)]
pub enum Phase {
    /// Nothing was done yet.
    Starting,
    /// The next picture (or the start of the sound) is to be reached.
    Positioning,
    /// On the way there.
    Walking,
    /// Listening.
    Hearing,
}

/// A request being worked on.
#[derive(Copy, Clone, Debug, PartialEq, Eq, Structural)]
pub struct Job {
    pub id: u32,
    pub task: Task,
    pub phase: Phase,
}

/// Only sound is listened to, and a run that is on its way somewhere has a picture left.
pub open spec fn job_wf(job: Job) -> bool {
    &&& job.phase == Phase::Hearing ==> is_audio(job.task)
    &&& job.phase == Phase::Walking ==> !run_is_over(job.task)
}

/// What the server answers, and what it works on.
pub struct Server<C, T> {
    pub source: Option<Source<C, T>>,
    /// Requests that arrived during work, still to be handled in arrival order.
    pub pending: VecDeque<Request>,
    pub job: Option<Job>,
}

/// Whether a request supersedes the work on `id`: newer pictures are wanted, it was cancelled, or
/// the server is to end.
pub open spec fn supersedes(r: protocol::RequestModel, id: u32) -> bool {
    match r {
        protocol::RequestModel::Frame { .. } => true,
        protocol::RequestModel::Run { .. } => true,
        protocol::RequestModel::Close => true,
        protocol::RequestModel::Cancel { id: cancelled } => cancelled == id,
        _ => false,
    }
}

/// The first picture a task needs: frames that must have been emulated.
pub open spec fn task_target(task: Task) -> u64 {
    match task {
        Task::Frame { index } => walk::picture(index),
        Task::Run { next, .. } => walk::picture(next),
        // The sound of a picture is what the run that produced it emitted, so the start is the
        // position just before it.
        Task::Audio { first_frame, .. } => (walk::picture(first_frame) - 1) as u64,
        Task::Memory { index, .. } => walk::picture(index),
    }
}

/// The frame that is walked to without drawing anything.
pub open spec fn hidden_target(task: Task) -> u64 {
    match task {
        Task::Audio { .. } => task_target(task),
        _ => (task_target(task) - 1) as u64,
    }
}

/// Whether a task needs no picture on the screens.
pub open spec fn is_audio(task: Task) -> bool {
    task is Audio
}

/// The message about a picture that is not there.
pub open spec fn past_the_end(index: u64, frames: u64) -> Seq<char> {
    "frame "@ + text::decimal(index as nat) + " is past the end ("@ + text::decimal(frames as nat)
        + " frames)"@
}

/// Why a task cannot be done with `frames` pictures.
pub open spec fn task_refused(task: Task, frames: u64) -> Option<Seq<char>> {
    match task {
        Task::Frame { index } => if index >= frames {
            Some(past_the_end(index, frames))
        } else {
            None
        },
        Task::Memory { index, bytes, limit } => if index >= frames {
            Some(past_the_end(index, frames))
        } else if bytes > limit {
            Some(
                "memory request of "@ + text::decimal(bytes as nat) + " bytes is more than "@
                    + text::decimal(limit as nat),
            )
        } else {
            None
        },
        Task::Run { next, to } => if to > frames || next > to {
            Some(
                "range "@ + text::decimal(next as nat) + ".."@ + text::decimal(to as nat)
                    + " is not inside the "@ + text::decimal(frames as nat) + " frames"@,
            )
        } else {
            None
        },
        Task::Audio { first_frame, frames: n } => if first_frame >= frames || n > frames
            - first_frame {
            Some(
                "audio range "@ + text::decimal(first_frame as nat) + "+"@ + text::decimal(n as nat)
                    + " is not inside the "@ + text::decimal(frames as nat) + " frames"@,
            )
        } else {
            None
        },
    }
}

fn past_end(index: u64, frames: u64) -> (r: String)
    ensures
        r@ == past_the_end(index, frames),
{
    let mut m: String = text::numbered("frame ", index, " is past the end (");
    text::push_decimal(&mut m, frames);
    m.append(" frames)");
    m
}

fn check_task(task: Task, frames: u64) -> (r: Result<(), String>)
    ensures
        match task_refused(task, frames) {
            Some(why) => r matches Err(e) && e@ == why,
            None => r is Ok,
        },
{
    match task {
        Task::Frame { index } => {
            if index >= frames {
                return Err(past_end(index, frames));
            }
        },
        Task::Memory { index, bytes, limit } => {
            if index >= frames {
                return Err(past_end(index, frames));
            }
            if bytes > limit {
                let mut m: String = text::numbered(
                    "memory request of ",
                    bytes,
                    " bytes is more than ",
                );
                text::push_decimal(&mut m, limit);
                return Err(m);
            }
        },
        Task::Run { next, to } => {
            if to > frames || next > to {
                let mut m: String = text::numbered("range ", next, "..");
                text::push_decimal(&mut m, to);
                m.append(" is not inside the ");
                text::push_decimal(&mut m, frames);
                m.append(" frames");
                return Err(m);
            }
        },
        Task::Audio { first_frame, frames: n } => {
            if first_frame >= frames || n as u64 > frames - first_frame {
                let mut m: String = text::numbered("audio range ", first_frame, "+");
                text::push_decimal(&mut m, n as u64);
                m.append(" is not inside the ");
                text::push_decimal(&mut m, frames);
                m.append(" frames");
                return Err(m);
            }
        },
    }
    Ok(())
}

fn target_of(task: Task) -> (r: u64)
    ensures
        r == task_target(task),
        !is_audio(task) ==> r >= 1,
{
    match task {
        Task::Frame { index } => walk::picture_of(index),
        Task::Run { next, .. } => walk::picture_of(next),
        Task::Audio { first_frame, .. } => walk::picture_of(first_frame) - 1,
        Task::Memory { index, .. } => walk::picture_of(index),
    }
}

/// A reply, if there is one, as the contracts see it.
pub open spec fn reply_model(r: Option<Reply>) -> Option<protocol::ReplyModel> {
    match r {
        Some(reply) => Some(reply@),
        None => None,
    }
}

impl<C: EmulatorCore, T: MonotonicTimestampProvider> Server<C, T> {
    /// What is open is valid, and only what can be served is worked on.
    pub open spec fn wf(self) -> bool {
        &&& self.source matches Some(Source::Open(session)) ==> session.wf()
        &&& self.job matches Some(job) ==> (self.source matches Some(Source::Open(_))) && job_wf(job)
    }

    /// A server with nothing open.
    pub fn new() -> (r: Self)
        ensures
            r.wf(),
            r.source is None,
            r.job is None,
            r.pending@ == Seq::<Request>::empty(),
    {
        let r = Server { source: None, pending: VecDeque::new(), job: None };
        assert(r.pending@ =~= Seq::<Request>::empty());
        r
    }

    /// A request arrived during work.
    pub fn arrived(&mut self, request: Request)
        ensures
            *final(self) == (Server { pending: final(self).pending, ..*old(self) }),
            final(self).pending@ == old(self).pending@.push(request),
            old(self).wf() ==> final(self).wf(),
    {
        self.pending.push_back(request);
    }

    /// There will be no more requests: like a `Close`, so that the work stops and the server ends.
    pub fn input_ended(&mut self)
        ensures
            *final(self) == (Server { pending: final(self).pending, ..*old(self) }),
            final(self).pending@ == old(self).pending@.push(Request::Close),
            old(self).wf() ==> final(self).wf(),
    {
        self.pending.push_back(Request::Close);
    }

    /// The oldest request that arrived during work, if any.
    pub fn next_pending(&mut self) -> (r: Option<Request>)
        ensures
            *final(self) == (Server { pending: final(self).pending, ..*old(self) }),
            if old(self).pending@.len() > 0 {
                &&& r == Some(old(self).pending@[0])
                &&& final(self).pending@ == old(self).pending@.skip(1)
            } else {
                &&& r is None
                &&& final(self).pending@ == old(self).pending@
            },
            old(self).wf() ==> final(self).wf(),
    {
        let ghost before = self.pending@;
        let r: Option<Request> = self.pending.pop_front();
        proof {
            if before.len() > 0 {
                assert(self.pending@ =~= before.skip(1));
            }
        }
        r
    }

    /// Whether any of what arrived supersedes the work on `id`.
    pub open spec fn is_superseded(self, id: u32) -> bool {
        exists|i: int| 0 <= i < self.pending@.len() && supersedes(#[trigger] self.pending@[i]@, id)
    }

    /// Whether any of what arrived supersedes the work on `id`.
    pub fn superseded(&self, id: u32) -> (r: bool)
        ensures
            r == self.is_superseded(id),
    {
        let mut i: usize = 0;
        while i < self.pending.len()
            invariant
                i <= self.pending@.len(),
                forall|k: int| 0 <= k < i ==> !supersedes(#[trigger] self.pending@[k]@, id),
            decreases self.pending@.len() - i,
        {
            let over: bool = match &self.pending[i] {
                Request::Frame { .. } => true,
                Request::Run { .. } => true,
                Request::Close => true,
                Request::Cancel { id: cancelled } => *cancelled == id,
                _ => false,
            };
            assert(over == supersedes(self.pending@[i as int]@, id));
            if over {
                return true;
            }
            i = i + 1;
        }
        false
    }

    /// Something was opened (in place of what was open before).
    pub fn set_source(&mut self, source: Option<Source<C, T>>)
        requires
            old(self).job is None,
            source matches Some(Source::Open(session)) ==> session.wf(),
        ensures
            *final(self) == (Server { source, ..*old(self) }),
            final(self).wf(),
    {
        self.source = source;
    }

    /// Why nothing can be served.
    pub open spec fn unusable(self) -> Option<Seq<char>> {
        match self.source {
            None => Some("no source is open (send Open first)"@),
            Some(Source::RomMismatch) => Some("the ROM does not match the recording"@),
            Some(Source::Open(_)) => None,
        }
    }

    /// Begin the work on a request, or refuse it.
    pub fn begin(&mut self, id: u32, task: Task) -> (r: Option<Reply>)
        requires
            old(self).wf(),
        ensures
            final(self).wf(),
            match old(self).unusable() {
                Some(message) => reply_model(r) == Some(
                    protocol::ReplyModel::Error { id, message },
                ) && *final(self) == *old(self),
                None => r is None && *final(self) == (Server {
                    job: Some(Job { id, task, phase: Phase::Starting }),
                    ..*old(self)
                }),
            },
    {
        match &self.source {
            None => Some(
                Reply::Error { id, message: "no source is open (send Open first)".to_owned() },
            ),
            Some(Source::RomMismatch) => Some(
                Reply::Error { id, message: "the ROM does not match the recording".to_owned() },
            ),
            Some(Source::Open(_)) => {
                self.job = Some(Job { id, task, phase: Phase::Starting });
                None
            },
        }
    }

    /// Read blocks of the console's memory as it is; `None` if nothing is open.
    pub fn read_memory(&self, blocks: &Vec<(u32, u32)>) -> (r: Option<Vec<u8>>)
        ensures
            match self.source {
                Some(Source::Open(session)) => r matches Some(data) && data@ == session.blocks_of(
                    blocks@,
                    blocks@.len(),
                ),
                _ => r is None,
            },
    {
        match &self.source {
            Some(Source::Open(session)) => Some(session.read_blocks(blocks)),
            _ => None,
        }
    }

    /// The session that is served.
    pub open spec fn session(self) -> FrameSession<C, T> {
        match self.source {
            Some(Source::Open(session)) => session,
            _ => arbitrary(),
        }
    }

    /// With that session, the work being that far.
    pub open spec fn with(self, session: FrameSession<C, T>, job: Option<Job>) -> Self {
        Server { source: Some(Source::Open(session)), job, ..self }
    }

    /// After one stretch of work.
    pub open spec fn worked(self, after: Self, r: Option<protocol::ReplyModel>) -> bool {
        let job = self.job->Some_0;
        let session = self.session();
        if self.is_superseded(job.id) {
            &&& after == (Server { job: None, ..self })
            &&& r == Some(protocol::ReplyModel::Cancelled { id: job.id })
        } else if job.phase == Phase::Starting && task_refused(job.task, session.frames) is Some {
            &&& after == (Server { job: None, ..self })
            &&& r == Some(
                protocol::ReplyModel::Error {
                    id: job.id,
                    message: task_refused(job.task, session.frames)->Some_0,
                },
            )
        } else {
            &&& after == self.with(after.session(), after.job)
            &&& match job.phase {
                Phase::Starting => positioned(session, after.session(), job, after.job, r),
                Phase::Positioning => positioned(session, after.session(), job, after.job, r),
                Phase::Walking => walked(session, after.session(), job, after.job, r),
                Phase::Hearing => heard(session, after.session(), job, after.job, r),
            }
        }
    }

    /// Work on the request for a stretch. Returns what is to be sent, if anything; the work is over
    /// when there is no [`job`](Self::job) left. Between two stretches, what has arrived is to be
    /// handed to [`arrived`](Self::arrived).
    pub fn work(&mut self) -> (r: Option<Reply>)
        requires
            old(self).wf(),
            old(self).job is Some,
        ensures
            final(self).wf(),
            old(self).worked(*final(self), reply_model(r)),
    {
        let job: Job = match self.job {
            Some(job) => job,
            None => return None,
        };
        if self.superseded(job.id) {
            self.job = None;
            return Some(Reply::Cancelled { id: job.id });
        }
        let mut session: FrameSession<C, T> = match self.source.take() {
            Some(Source::Open(session)) => session,
            _ => return None,
        };
        if job.phase == Phase::Starting {
            if let Err(message) = check_task(job.task, session.frames) {
                self.source = Some(Source::Open(session));
                self.job = None;
                return Some(Reply::Error { id: job.id, message });
            }
        }
        let (next, r): (Option<Job>, Option<Reply>) = match job.phase {
            Phase::Starting => position(&mut session, job),
            Phase::Positioning => position(&mut session, job),
            Phase::Walking => walk_on(&mut session, job),
            Phase::Hearing => hear_on(&mut session, job),
        };
        self.source = Some(Source::Open(session));
        self.job = next;
        r
    }
}

/// Work that a newer request supersedes ends at once, with that answer, and leaves what is open as
/// it is.
pub proof fn law_superseded_work_is_cancelled<C: EmulatorCore, T: MonotonicTimestampProvider>(
    server: Server<C, T>,
    after: Server<C, T>,
    job: Job,
    newer: int,
    r: Option<protocol::ReplyModel>,
)
    requires
        server.job == Some(job),
        0 <= newer < server.pending@.len(),
        supersedes(server.pending@[newer]@, job.id),
        server.worked(after, r),
    ensures
        r == Some(protocol::ReplyModel::Cancelled { id: job.id }),
        after.job is None,
        after.source == server.source,
{
}

/// A picture that is on the screens already is sent without running anything.
pub proof fn law_a_picture_on_the_screens_costs_nothing<
    C: EmulatorCore,
    T: MonotonicTimestampProvider,
>(
    session: FrameSession<C, T>,
    after: FrameSession<C, T>,
    job: Job,
    next: Option<Job>,
    r: Option<protocol::ReplyModel>,
)
    requires
        positioned(session, after, job, next, r),
        job.task is Frame,
        session.core.timer.frames == task_target(job.task),
        session.drawn == Some(task_target(job.task)),
    ensures
        after == session,
        next is None,
{
}

/// Memory is read at its picture: once the walk there is over without a complaint, that picture is
/// on the screens.
pub proof fn law_memory_is_read_at_its_picture<C: EmulatorCore, T: MonotonicTimestampProvider>(
    session: FrameSession<C, T>,
    after: FrameSession<C, T>,
    job: Job,
)
    requires
        job.task is Memory,
        positioned(session, after, job, None, None) || walked(session, after, job, None, None),
    ensures
        after.drawn == Some(task_target(job.task)),
{
    if positioned(session, after, job, None, None) {
        let (placed, began) = choose|placed: FrameSession<C, T>, began: Result<bool, String>|
            #[trigger] session.begun(placed, task_target(job.task), is_audio(job.task), began)
                && match began {
                Err(why) => after == placed && done(None, failure(job.id, why@), None),
                Ok(there) => if there {
                    arrived_at(placed, after, job, None, None)
                } else {
                    walked(placed, after, job, None, None)
                },
            };
        assert(session.begun(placed, task_target(job.task), is_audio(job.task), began));
    }
}

/// With the work done, and a reply.
pub open spec fn done(
    next: Option<Job>,
    reply: protocol::ReplyModel,
    r: Option<protocol::ReplyModel>,
) -> bool {
    next is None && r == Some(reply)
}

/// A refusal.
pub open spec fn failure(id: u32, message: Seq<char>) -> protocol::ReplyModel {
    protocol::ReplyModel::Error { id, message }
}

/// After the walk to the next picture began. A run without any more pictures is done.
pub open spec fn positioned<C: EmulatorCore, T: MonotonicTimestampProvider>(
    session: FrameSession<C, T>,
    after: FrameSession<C, T>,
    job: Job,
    next: Option<Job>,
    r: Option<protocol::ReplyModel>,
) -> bool {
    if run_is_over(job.task) {
        after == session && done(next, protocol::ReplyModel::Done { id: job.id }, r)
    } else {
        exists|placed: FrameSession<C, T>, began: Result<bool, String>| #[trigger]
            session.begun(placed, task_target(job.task), is_audio(job.task), began) && match began {
                Err(why) => after == placed && done(next, failure(job.id, why@), r),
                Ok(there) => if there {
                    arrived_at(placed, after, job, next, r)
                } else {
                    walked(placed, after, job, next, r)
                },
            }
    }
}

/// Whether a run has no more pictures.
pub open spec fn run_is_over(task: Task) -> bool {
    match task {
        Task::Run { next, to } => next >= to,
        _ => false,
    }
}

/// After some hidden frames of the walk.
pub open spec fn walked<C: EmulatorCore, T: MonotonicTimestampProvider>(
    session: FrameSession<C, T>,
    after: FrameSession<C, T>,
    job: Job,
    next: Option<Job>,
    r: Option<protocol::ReplyModel>,
) -> bool {
    exists|nearer: FrameSession<C, T>, went: Result<bool, String>| #[trigger]
        session.walked(nearer, hidden_target(job.task), false, went) && match went {
            Err(why) => after == nearer && done(next, failure(job.id, why@), r),
            Ok(there) => if !there {
                &&& after == nearer
                &&& next == Some(Job { phase: Phase::Walking, ..job })
                &&& r is None
            } else if is_audio(job.task) {
                arrived_at(nearer, after, job, next, r)
            } else {
                drawn(nearer, after, job, next, r)
            },
        }
}

/// After the last frame of the walk was drawn.
pub open spec fn drawn<C: EmulatorCore, T: MonotonicTimestampProvider>(
    session: FrameSession<C, T>,
    after: FrameSession<C, T>,
    job: Job,
    next: Option<Job>,
    r: Option<protocol::ReplyModel>,
) -> bool {
    exists|shown: FrameSession<C, T>, drew: Result<(), String>| #[trigger]
        session.drew(shown, task_target(job.task), drew) && match drew {
            Err(why) => after == shown && done(next, failure(job.id, why@), r),
            Ok(_) => arrived_at(shown, after, job, next, r),
        }
}

/// At the place: the picture goes out, or listening begins.
pub open spec fn arrived_at<C: EmulatorCore, T: MonotonicTimestampProvider>(
    session: FrameSession<C, T>,
    after: FrameSession<C, T>,
    job: Job,
    next: Option<Job>,
    r: Option<protocol::ReplyModel>,
) -> bool {
    match job.task {
        Task::Audio { frames, .. } => exists|listening: FrameSession<C, T>| #[trigger]
            session.listening(listening, frames) && heard(listening, after, job, next, r),
        Task::Frame { index } => {
            &&& after == session
            &&& match session.pixels() {
                Some(pixels) => done(
                    next,
                    protocol::ReplyModel::Frame { id: job.id, index, pixels },
                    r,
                ),
                None => done(next, failure(job.id, "the picture is too large"@), r),
            }
        },
        Task::Run { next: index, to } => {
            &&& after == session
            &&& match session.pixels() {
                Some(pixels) => {
                    &&& next == Some(
                        Job {
                            id: job.id,
                            task: Task::Run { next: (index + 1) as u64, to },
                            phase: Phase::Positioning,
                        },
                    )
                    &&& r == Some(protocol::ReplyModel::Frame { id: job.id, index, pixels })
                },
                None => done(next, failure(job.id, "the picture is too large"@), r),
            }
        },
        Task::Memory { .. } => {
            &&& after == session
            &&& next is None
            &&& r is None
        },
    }
}

/// After some audible frames.
pub open spec fn heard<C: EmulatorCore, T: MonotonicTimestampProvider>(
    session: FrameSession<C, T>,
    after: FrameSession<C, T>,
    job: Job,
    next: Option<Job>,
    r: Option<protocol::ReplyModel>,
) -> bool {
    exists|ran: FrameSession<C, T>, collected: FrameSession<C, T>, went: Result<bool, String>|
        #![trigger session.walked(ran, audio_end(job.task), true, went), ran.collected(collected)]
        session.walked(ran, audio_end(job.task), true, went) && ran.collected(collected)
            && match went {
            Err(why) => after == collected && done(next, failure(job.id, why@), r),
            Ok(there) => if !there {
                &&& after == collected
                &&& next == Some(Job { phase: Phase::Hearing, ..job })
                &&& r is None
            } else {
                &&& done(next, sound_reply(job, collected.sound()), r)
                &&& after == (FrameSession { audio: after.audio, ..collected })
                &&& after.sound() == Seq::<i16>::empty()
            },
        }
}

/// The reply that carries sound.
pub open spec fn sound_reply(job: Job, samples: Seq<i16>) -> protocol::ReplyModel {
    match job.task {
        Task::Audio { first_frame, frames } => protocol::ReplyModel::Audio {
            id: job.id,
            first_frame,
            frames,
            samples,
        },
        _ => arbitrary(),
    }
}

fn position<C: EmulatorCore, T: MonotonicTimestampProvider>(
    session: &mut FrameSession<C, T>,
    job: Job,
) -> (r: (Option<Job>, Option<Reply>))
    requires
        old(session).wf(),
    ensures
        final(session).wf(),
        r.0 matches Some(next) ==> job_wf(next),
        positioned(*old(session), *final(session), job, r.0, reply_model(r.1)),
{
    if let Task::Run { next, to } = job.task {
        if next >= to {
            return (None, Some(Reply::Done { id: job.id }));
        }
    }
    let ghost before = *session;
    let audio: bool = match job.task {
        Task::Audio { .. } => true,
        _ => false,
    };
    let began: Result<bool, String> = session.begin_walk(target_of(job.task), audio);
    let ghost placed = *session;
    assert(before.begun(placed, task_target(job.task), is_audio(job.task), began));
    match began {
        Err(message) => (None, Some(Reply::Error { id: job.id, message })),
        Ok(there) => if there {
            arrive(session, job)
        } else {
            walk_on(session, job)
        },
    }
}

fn walk_on<C: EmulatorCore, T: MonotonicTimestampProvider>(
    session: &mut FrameSession<C, T>,
    job: Job,
) -> (r: (Option<Job>, Option<Reply>))
    requires
        old(session).wf(),
        !run_is_over(job.task),
    ensures
        final(session).wf(),
        r.0 matches Some(next) ==> job_wf(next),
        walked(*old(session), *final(session), job, r.0, reply_model(r.1)),
{
    let ghost before = *session;
    let audio: bool = match job.task {
        Task::Audio { .. } => true,
        _ => false,
    };
    let target: u64 = target_of(job.task);
    let hidden: u64 = if audio {
        target
    } else {
        target - 1
    };
    let went: Result<bool, String> = session.walk(hidden, false);
    let ghost nearer = *session;
    assert(before.walked(nearer, hidden_target(job.task), false, went));
    match went {
        Err(message) => (None, Some(Reply::Error { id: job.id, message })),
        Ok(there) => {
            if !there {
                return (
                    Some(Job { id: job.id, task: job.task, phase: Phase::Walking }),
                    None,
                );
            }
            if audio {
                return arrive(session, job);
            }
            let drew: Result<(), String> = session.draw(target);
            let ghost shown = *session;
            assert(nearer.drew(shown, task_target(job.task), drew));
            match drew {
                Err(message) => {
                    let r: (Option<Job>, Option<Reply>) = (
                        None,
                        Some(Reply::Error { id: job.id, message }),
                    );
                    assert(drawn(nearer, *session, job, r.0, reply_model(r.1)));
                    r
                },
                Ok(_) => {
                    let r: (Option<Job>, Option<Reply>) = arrive(session, job);
                    assert(drawn(nearer, *session, job, r.0, reply_model(r.1)));
                    r
                },
            }
        },
    }
}

fn arrive<C: EmulatorCore, T: MonotonicTimestampProvider>(
    session: &mut FrameSession<C, T>,
    job: Job,
) -> (r: (Option<Job>, Option<Reply>))
    requires
        old(session).wf(),
        !run_is_over(job.task),
    ensures
        final(session).wf(),
        r.0 matches Some(next) ==> job_wf(next),
        arrived_at(*old(session), *final(session), job, r.0, reply_model(r.1)),
{
    match job.task {
        Task::Audio { frames, .. } => {
            let ghost before = *session;
            session.listen(frames);
            let ghost listening = *session;
            assert(before.listening(listening, frames));
            hear_on(session, job)
        },
        Task::Frame { index } => match session.frame_pixels() {
            Some(pixels) => (None, Some(Reply::Frame { id: job.id, index, pixels })),
            None => (
                None,
                Some(Reply::Error { id: job.id, message: "the picture is too large".to_owned() }),
            ),
        },
        Task::Run { next: index, to } => match session.frame_pixels() {
            Some(pixels) => (
                Some(
                    Job {
                        id: job.id,
                        task: Task::Run { next: index + 1, to },
                        phase: Phase::Positioning,
                    },
                ),
                Some(Reply::Frame { id: job.id, index, pixels }),
            ),
            None => (
                None,
                Some(Reply::Error { id: job.id, message: "the picture is too large".to_owned() }),
            ),
        },
        Task::Memory { .. } => (None, None),
    }
}

fn hear_on<C: EmulatorCore, T: MonotonicTimestampProvider>(
    session: &mut FrameSession<C, T>,
    job: Job,
) -> (r: (Option<Job>, Option<Reply>))
    requires
        old(session).wf(),
        is_audio(job.task),
    ensures
        final(session).wf(),
        r.0 matches Some(next) ==> job_wf(next),
        heard(*old(session), *final(session), job, r.0, reply_model(r.1)),
{
    let ghost before = *session;
    let (first_frame, frames): (u64, u32) = match job.task {
        Task::Audio { first_frame, frames } => (first_frame, frames),
        _ => (0, 0),
    };
    let end: u64 = target_of(job.task).saturating_add(frames as u64);
    let went: Result<bool, String> = session.walk(end, true);
    let ghost ran = *session;
    session.collect_sound();
    let ghost collected = *session;
    assert(before.walked(ran, audio_end(job.task), true, went));
    assert(ran.collected(collected));
    match went {
        Err(message) => (None, Some(Reply::Error { id: job.id, message })),
        Ok(there) => {
            if !there {
                return (
                    Some(Job { id: job.id, task: job.task, phase: Phase::Hearing }),
                    None,
                );
            }
            let samples: Vec<i16> = session.take_sound();
            (None, Some(Reply::Audio { id: job.id, first_frame, frames, samples }))
        },
    }
}

/// The last frame that is heard.
pub open spec fn audio_end(task: Task) -> u64 {
    match task {
        Task::Audio { frames, .. } => if task_target(task) + frames > u64::MAX {
            u64::MAX
        } else {
            (task_target(task) + frames) as u64
        },
        _ => 0,
    }
}

} // verus!
