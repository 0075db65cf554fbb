//! Getting an opened replay to the picture or the sound that was asked for.

use crate::audio;
use crate::audio::AudioOutput;
use crate::bytes;
use crate::emulator::console::EmulatorCore;
use crate::export;
use crate::export::ScreenLayout;
use crate::replay::packet::Speed;
use crate::session::effects;
use crate::session::effects::Effect;
use crate::session::following::POST_LOAD_FRAMES;
use crate::session::seeking;
use crate::session::state::{MonotonicTimestampProvider, SuperShuckieCore};
use crate::text;
use vstd::prelude::*;
use vstd::string::*;

verus! {

/// A picture this far ahead of the current position (or nearer) is reached by stepping rather than
/// by loading a keyframe: two keyframe intervals, so a walk that has just passed a keyframe does
/// not throw the frames it already emulated away.
pub const STEP_LIMIT: u64 = 240;

/// Newly arrived requests are looked at every this many runs during a walk.
pub const POLL_EVERY: u32 = 8;

/// How many frames must have been emulated for the screens to hold a picture.
pub open spec fn picture(index: u64) -> u64 {
    if index < 1 {
        1
    } else {
        index
    }
}

/// How many frames must have been emulated for the screens to hold picture `index`.
///
/// Picture 0 is the first frame ever drawn, which is the picture after one run: the same one an
/// export produces for a range starting at 0. Every later picture is the one after exactly that
/// many runs.
pub fn picture_of(index: u64) -> (r: u64)
    ensures
        r == picture(index),
        r >= 1,
{
    if index < 1 {
        1
    } else {
        index
    }
}

/// What an audio ring holds, as the contracts see it.
pub ghost struct RingModel {
    pub samples: Seq<i16>,
    pub speed: Speed,
    pub scales_pitch: bool,
}

/// What a ring holds.
pub open spec fn ring_model(ring: AudioOutput) -> RingModel {
    RingModel {
        samples: ring@,
        speed: ring.published_speed(),
        scales_pitch: ring.scales_pitch(),
    }
}

impl RingModel {
    /// After one thing a session asked for. Samples that are no whole stereo frames are not heard.
    pub open spec fn with(self, out: effects::Out, capacity: nat) -> RingModel {
        match out {
            effects::Out::PlayAudio { samples } => if samples.len() % 2 == 0 {
                RingModel {
                    samples: audio::newest_samples(self.samples + samples, 2 * capacity),
                    ..self
                }
            } else {
                self
            },
            effects::Out::ClearAudio => RingModel { samples: Seq::empty(), ..self },
            effects::Out::AudioSpeed { speed } => RingModel { speed, ..self },
            effects::Out::AudioPitch { scales } => RingModel { scales_pitch: scales, ..self },
            _ => self,
        }
    }

    /// After the first `n` things a session asked for.
    pub open spec fn with_all(self, outs: Seq<effects::Out>, capacity: nat, n: nat) -> RingModel
        decreases n,
    {
        if n == 0 {
            self
        } else {
            self.with_all(outs, capacity, (n - 1) as nat).with(outs[n - 1], capacity)
        }
    }
}

/// A replay that was opened together with its ROM.
pub struct FrameSession<C, T> {
    pub core: SuperShuckieCore<C, T>,
    pub layout: ScreenLayout,
    /// Pictures in the source.
    pub frames: u64,
    /// Pictures per second, as a fraction.
    pub fps: (u32, u32),
    /// The frame whose picture the screens currently hold, if they hold a drawn one.
    pub drawn: Option<u64>,
    pub audio: Option<AudioOutput>,
}

/// The message of a walk that the replay cannot support.
pub open spec fn ended_text(frame: u64) -> Seq<char> {
    "the replay ended at frame "@ + text::decimal(frame as nat)
}

fn ended_message(frame: u64) -> (r: String)
    ensures
        r@ == ended_text(frame),
{
    let r: String = text::numbered("the replay ended at frame ", frame, "");
    proof {
        reveal_strlit("");
        assert(r@ =~= ended_text(frame));
    }
    r
}

impl<C: EmulatorCore, T: MonotonicTimestampProvider> FrameSession<C, T> {
    /// The parts are valid.
    pub open spec fn wf(self) -> bool {
        &&& self.core.wf()
        &&& self.audio matches Some(ring) ==> ring.wf()
    }

    /// Whether the target is a short way ahead, so that it is reached by stepping.
    pub open spec fn near(self, target: u64) -> bool {
        self.core.timer.frames < target && target - self.core.timer.frames <= STEP_LIMIT
    }

    // -----------------------------------------------------------------------------------------
    // Positioning.

    /// After loading the keyframe that a seek to `target` loads.
    pub open spec fn keyframe_put(self, after: Self, target: u64, r: Result<(), String>) -> bool {
        exists|loaded: Result<(), String>| #[trigger]
            self.core.keyframe_loaded(
                after.core,
                seeking::less(target, POST_LOAD_FRAMES),
                loaded,
            ) && after == (FrameSession { core: after.core, drawn: None, ..self }) && match loaded {
                Ok(_) => r is Ok,
                Err(why) => r matches Err(e) && e@ == why@,
            }
    }

    /// Load the keyframe a seek to `target` would: at least
    /// [`POST_LOAD_FRAMES`](crate::session::following::POST_LOAD_FRAMES) before it so regenerated
    /// buffers are rebuilt before anything is shown.
    pub fn load_keyframe_before(&mut self, target: u64) -> (r: Result<(), String>)
        requires
            old(self).wf(),
        ensures
            final(self).wf(),
            old(self).keyframe_put(*final(self), target, r),
    {
        let ghost before = *self;
        self.drawn = None;
        let hint: u64 = target.saturating_sub(POST_LOAD_FRAMES);
        let went: Result<u64, String> = self.core.go_to_replay_keyframe(hint);
        let ghost outcome = went;
        let r: Result<(), String> = match went {
            Ok(_) => Ok(()),
            Err(e) => Err(e),
        };
        proof {
            let loaded = choose|loaded: Result<(), String>| #[trigger]
                before.core.keyframe_loaded(self.core, hint, loaded) && match loaded {
                    Ok(_) => outcome matches Ok(at) && at == self.core.timer.frames,
                    Err(why) => outcome matches Err(e) && e@ == why@,
                };
            assert(hint == seeking::less(target, POST_LOAD_FRAMES));
            assert(before.core.keyframe_loaded(
                self.core,
                seeking::less(target, POST_LOAD_FRAMES),
                loaded,
            ));
        }
        r
    }

    /// After a walk to the picture `target` (or, with `hidden`, to the frame `target`) began: it is
    /// over if the core is there already.
    pub open spec fn begun(
        self,
        after: Self,
        target: u64,
        hidden: bool,
        r: Result<bool, String>,
    ) -> bool {
        if self.core.timer.frames == target && (hidden || self.drawn == Some(target)) {
            &&& after == self
            &&& r matches Ok(there) && there
        } else if self.near(target) {
            &&& after == self
            &&& r matches Ok(there) && !there
        } else {
            exists|loaded: Result<(), String>| #[trigger]
                self.keyframe_put(after, target, loaded) && match loaded {
                    Ok(_) => r matches Ok(there) && !there,
                    Err(why) => r matches Err(e) && e@ == why@,
                }
        }
    }

    /// Begin a walk, doing as little as the seek policy allows: nothing if the core is there, no
    /// more than stepping when the target is a short way ahead, otherwise a keyframe load.
    pub fn begin_walk(&mut self, target: u64, hidden: bool) -> (r: Result<bool, String>)
        requires
            old(self).wf(),
        ensures
            final(self).wf(),
            old(self).begun(*final(self), target, hidden, r),
    {
        let now: u64 = self.core.total_frames();
        let drawn: bool = match self.drawn {
            Some(frame) => frame == target,
            None => false,
        };
        if now == target && (hidden || drawn) {
            return Ok(true);
        }
        if now < target && target - now <= STEP_LIMIT {
            return Ok(false);
        }
        let ghost before = *self;
        let loaded: Result<(), String> = self.load_keyframe_before(target);
        assert(before.keyframe_put(*self, target, loaded));
        match loaded {
            Ok(_) => Ok(false),
            Err(e) => Err(e),
        }
    }

    /// Whether one run leads from before `target` towards it: hidden or audible.
    pub open spec fn walks_on(self, after: Self, target: u64, audible: bool) -> bool {
        &&& self.core.timer.frames < target
        &&& !self.core.playback.stalled
        &&& self.core.ran_drawing(after.core, !audible, true, audible)
        &&& after == (FrameSession {
            core: after.core,
            drawn: if audible && after.core.runs.last.presented {
                Some(after.core.timer.frames)
            } else {
                None
            },
            ..self
        })
    }

    /// Whether the runs of `steps` lead towards `target`, and what came of them: the walk is over,
    /// new requests are to be looked at, or the replay has no more.
    pub open spec fn walked_in(
        self,
        after: Self,
        target: u64,
        audible: bool,
        r: Result<bool, String>,
        steps: Seq<Self>,
    ) -> bool {
        &&& 1 <= steps.len() <= POLL_EVERY + 1
        &&& steps[0] == self
        &&& steps.last() == after
        &&& forall|i: int, j: int|
            0 <= i && j == i + 1 && j < steps.len() ==> (#[trigger] steps[i]).walks_on(
                #[trigger] steps[j],
                target,
                audible,
            )
        &&& if steps.len() == POLL_EVERY + 1 {
            r matches Ok(there) && !there
        } else if after.core.timer.frames >= target {
            r matches Ok(there) && there
        } else {
            after.core.playback.stalled && (r matches Err(e) && e@ == ended_text(
                after.core.timer.frames,
            ))
        }
    }

    /// After some runs towards `target`.
    pub open spec fn walked(
        self,
        after: Self,
        target: u64,
        audible: bool,
        r: Result<bool, String>,
    ) -> bool {
        exists|steps: Seq<Self>| #[trigger] self.walked_in(after, target, audible, r, steps)
    }

    /// Run towards `target` emulated frames (none if already past it), until it is time to look at
    /// new requests.
    pub fn walk(&mut self, target: u64, audible: bool) -> (r: Result<bool, String>)
        requires
            old(self).wf(),
        ensures
            final(self).wf(),
            old(self).walked(*final(self), target, audible, r),
    {
        let ghost before = *self;
        let ghost mut steps: Seq<Self> = seq![*self];
        let mut runs: u32 = 0;
        while runs < POLL_EVERY
            invariant
                self.wf(),
                runs <= POLL_EVERY,
                steps.len() == runs + 1,
                steps[0] == before,
                before == *old(self),
                steps.last() == *self,
                forall|i: int, j: int|
                    0 <= i && j == i + 1 && j < steps.len() ==> (#[trigger] steps[i]).walks_on(
                        #[trigger] steps[j],
                        target,
                        audible,
                    ),
            decreases POLL_EVERY - runs,
        {
            let ghost at = *self;
            if self.core.total_frames() >= target {
                let r: Result<bool, String> = Ok(true);
                assert(before.walked_in(*self, target, audible, r, steps));
                return r;
            }
            if self.core.is_replay_stalled() {
                let r: Result<bool, String> = Err(ended_message(self.core.total_frames()));
                assert(before.walked_in(*self, target, audible, r, steps));
                return r;
            }
            if audible {
                self.core.run_unlocked_audible();
                self.drawn = if self.core.last_frame_presented() {
                    Some(self.core.total_frames())
                } else {
                    None
                };
            } else {
                self.drawn = None;
                self.core.run_unlocked_hidden();
            }
            runs = runs + 1;
            proof {
                let done = steps;
                assert(at.walks_on(*self, target, audible));
                steps = steps.push(*self);
                assert forall|i: int, j: int| 0 <= i && j == i + 1 && j < steps.len() implies (
                #[trigger] steps[i]).walks_on(#[trigger] steps[j], target, audible) by {
                    if j < done.len() {
                        assert(done[i].walks_on(done[j], target, audible));
                    } else {
                        assert(steps[i] == at);
                    }
                }
            }
        }
        let r: Result<bool, String> = Ok(false);
        assert(before.walked_in(*self, target, audible, r, steps));
        r
    }

    // -----------------------------------------------------------------------------------------
    // Pictures.

    /// After the frames up to `target` were run and drawn: the core may fail to draw it.
    pub open spec fn drew(self, after: Self, target: u64, r: Result<(), String>) -> bool {
        exists|shown: SuperShuckieCore<C, T>| #[trigger]
            self.core.reached(shown, target) && if shown.timer.frames < target {
                &&& after == (FrameSession { core: shown, drawn: None, ..self })
                &&& r matches Err(e) && e@ == ended_text(shown.timer.frames)
            } else if !shown.runs.last.presented {
                &&& after == (FrameSession { core: shown, drawn: None, ..self })
                &&& r matches Err(e) && e@ == "the core did not draw frame "@ + text::decimal(
                    target as nat,
                )
            } else {
                &&& after == (FrameSession { core: shown, drawn: Some(target), ..self })
                &&& r is Ok
            }
    }

    /// Run and draw the last frame before the picture `target` is on the screens.
    pub fn draw(&mut self, target: u64) -> (r: Result<(), String>)
        requires
            old(self).wf(),
        ensures
            final(self).wf(),
            old(self).drew(*final(self), target, r),
    {
        let ghost before = *self;
        self.drawn = None;
        self.core.run_to(target);
        assert(before.core.reached(self.core, target));
        if self.core.total_frames() < target {
            return Err(ended_message(self.core.total_frames()));
        }
        if !self.core.last_frame_presented() {
            let r: String = text::numbered("the core did not draw frame ", target, "");
            proof {
                reveal_strlit("");
                assert(r@ =~= "the core did not draw frame "@ + text::decimal(target as nat));
            }
            return Err(r);
        }
        self.drawn = Some(target);
        Ok(())
    }

    /// The picture on the screens, four bytes per pixel: blue, green, red, alpha.
    pub open spec fn pixels(self) -> Option<Seq<u8>> {
        let screens = self.core.core.pictures();
        if export::picture_fits(screens, self.layout) {
            Some(word_bytes(export::composited(screens, self.layout)))
        } else {
            None
        }
    }

    /// The picture on the screens, four bytes per pixel: blue, green, red, alpha; `None` if it is
    /// too large.
    pub fn frame_pixels(&self) -> (r: Option<Vec<u8>>)
        ensures
            match self.pixels() {
                Some(p) => r matches Some(v) && v@ == p,
                None => r is None,
            },
    {
        if !export::can_composite(self.core.get_core().get_screens(), self.layout) {
            return None;
        }
        let mut words: Vec<u32> = Vec::new();
        export::composite_screens(self.core.get_core().get_screens(), self.layout, &mut words);
        Some(words_to_bytes(&words))
    }

    // -----------------------------------------------------------------------------------------
    // Sound.

    /// How long that many pictures last in milliseconds, with a second of slack.
    pub open spec fn stretch_millis(self, frames: u32) -> u32 {
        let (num, den) = self.fps;
        let rate: int = if num < 1 {
            1
        } else {
            num as int
        };
        let millis = (frames * 1000 * den + rate - 1) / rate + 1000;
        if millis > u32::MAX {
            u32::MAX
        } else {
            millis as u32
        }
    }

    fn stretch(&self, frames: u32) -> (r: u32)
        ensures
            r == self.stretch_millis(frames),
    {
        let (num, den): (u32, u32) = self.fps;
        let rate: u128 = if num < 1 {
            1
        } else {
            num as u128
        };
        assert(frames * 1000 * den <= u32::MAX * 1000 * u32::MAX) by (nonlinear_arith)
            requires
                frames <= u32::MAX,
                den <= u32::MAX,
        ;
        assert(0 <= frames * 1000 * den) by (nonlinear_arith)
            requires
                0 <= frames,
                0 <= den,
        ;
        let scaled: u128 = frames as u128 * 1000 * den as u128;
        let millis: u128 = (scaled + rate - 1) / rate + 1000;
        if millis > u32::MAX as u128 {
            u32::MAX
        } else {
            millis as u32
        }
    }

    /// After listening began: sound is on and routed to the ring, which has room for the whole
    /// stretch plus a second of slack (it drops the oldest samples when it is full, which must
    /// never happen here) and holds nothing.
    pub open spec fn listening(self, after: Self, frames: u32) -> bool {
        &&& after == (FrameSession { core: after.core, audio: after.audio, ..self })
        &&& after.audio matches Some(ring) && ring.wf() && ring.capacity() == audio::frames_in(
            self.stretch_millis(frames),
        ) && ring@ == Seq::<i16>::empty()
        &&& exists|on: SuperShuckieCore<C, T>| #[trigger]
            self.core.sound_on(on) && if self.audio is Some {
                after.core == on
            } else {
                on.routed(after.core)
            }
    }

    /// Begin to listen to that many pictures.
    pub fn listen(&mut self, frames: u32)
        requires
            old(self).wf(),
        ensures
            final(self).wf(),
            old(self).listening(*final(self), frames),
    {
        let ghost before = *self;
        let millis: u32 = self.stretch(frames);
        self.core.set_audio_enabled(true);
        let ghost on = self.core;
        assert(before.core.sound_on(on));
        let mut ring: AudioOutput = match self.audio.take() {
            Some(ring) => ring,
            None => {
                self.core.set_audio_output(true);
                assert(self.core.outs() =~= on.outs() + seq![
                    effects::Out::AudioPitch {
                        scales: SuperShuckieCore::<C, T>::scales_pitch(
                            on.core.identity().console,
                        ),
                    },
                    effects::Out::AudioSpeed { speed: on.audio.speed },
                ]);
                AudioOutput::new(1000)
            },
        };
        ring.set_max_latency_ms(millis);
        ring.clear();
        self.audio = Some(ring);
    }

    /// After what the core has to play went into the ring.
    pub open spec fn collected(self, after: Self) -> bool {
        let outs = self.core.outs();
        &&& after == (FrameSession { core: after.core, audio: after.audio, ..self })
        &&& after.core == (SuperShuckieCore { effects: after.core.effects, ..self.core })
        &&& after.core.outs() == Seq::<effects::Out>::empty()
        &&& match self.audio {
            None => after.audio is None,
            Some(ring) => after.audio matches Some(filled) && filled.capacity() == ring.capacity()
                && ring_model(filled) == ring_model(ring).with_all(
                outs,
                ring.capacity(),
                outs.len(),
            ),
        }
    }

    /// Move what the core has to play into the ring.
    pub fn collect_sound(&mut self)
        requires
            old(self).wf(),
        ensures
            final(self).wf(),
            old(self).collected(*final(self)),
    {
        let ghost outs = self.core.outs();
        let asked: Vec<Effect> = self.core.take_effects();
        if let Some(mut ring) = self.audio.take() {
            let ghost first = ring_model(ring);
            let ghost capacity = ring.capacity();
            let mut i: usize = 0;
            while i < asked.len()
                invariant
                    i <= asked@.len(),
                    outs == effects::outs_of(asked@),
                    ring.wf(),
                    ring.capacity() == capacity,
                    ring_model(ring) == first.with_all(outs, capacity, i as nat),
                decreases asked@.len() - i,
            {
                assert(outs[i as int] == asked@[i as int]@);
                match &asked[i] {
                    Effect::PlayAudio { samples } => {
                        if samples.len() % 2 == 0 {
                            ring.push(samples.as_slice());
                        }
                    },
                    Effect::ClearAudio => ring.clear(),
                    Effect::AudioSpeed { speed } => ring.set_speed(*speed),
                    Effect::AudioPitch { scales } => ring.set_fast_forward_scales_pitch(*scales),
                    _ => {},
                }
                i = i + 1;
            }
            self.audio = Some(ring);
        }
    }

    /// What was heard.
    pub open spec fn sound(self) -> Seq<i16> {
        match self.audio {
            Some(ring) => ring@,
            None => Seq::empty(),
        }
    }

    /// Take what was heard.
    pub fn take_sound(&mut self) -> (r: Vec<i16>)
        requires
            old(self).wf(),
        ensures
            final(self).wf(),
            r@ == old(self).sound(),
            *final(self) == (FrameSession { audio: final(self).audio, ..*old(self) }),
            final(self).sound() == Seq::<i16>::empty(),
            (final(self).audio is Some) == (old(self).audio is Some),
    {
        let mut samples: Vec<i16> = Vec::new();
        assert(samples@ =~= Seq::<i16>::empty());
        if let Some(mut ring) = self.audio.take() {
            let ghost all = ring@;
            let n: usize = ring.queued_frames();
            samples.resize(n * 2, 0);
            let got: usize = ring.read(&mut samples);
            assert(samples@ =~= all);
            assert(ring@ =~= Seq::<i16>::empty());
            self.audio = Some(ring);
        }
        samples
    }

    // -----------------------------------------------------------------------------------------
    // Memory.

    /// The bytes of blocks of memory, one after another; zeros for what the core cannot read.
    pub open spec fn blocks_of(self, blocks: Seq<(u32, u32)>, n: nat) -> Seq<u8>
        decreases n,
    {
        if n == 0 {
            Seq::empty()
        } else {
            let (address, len) = blocks[n - 1];
            self.blocks_of(blocks, (n - 1) as nat) + (match self.core.core.decoded_ram(
                address,
                len as nat,
            ) {
                Some(bytes) => bytes,
                None => Seq::new(len as nat, |i: int| 0u8),
            })
        }
    }

    /// Blocks of the core's memory, in the order asked. A block the core cannot read is answered
    /// with zeros, since a tool's block list is written for the game and not for the emulator.
    pub fn read_blocks(&self, blocks: &Vec<(u32, u32)>) -> (r: Vec<u8>)
        ensures
            r@ == self.blocks_of(blocks@, blocks@.len()),
    {
        let mut data: Vec<u8> = Vec::new();
        let mut i: usize = 0;
        assert(data@ =~= self.blocks_of(blocks@, 0));
        while i < blocks.len()
            invariant
                i <= blocks@.len(),
                data@ == self.blocks_of(blocks@, i as nat),
            decreases blocks@.len() - i,
        {
            let (address, len): (u32, u32) = blocks[i];
            let mut block: Vec<u8> = Vec::new();
            block.resize(len as usize, 0);
            assert(block@ =~= Seq::new(len as nat, |k: int| 0u8));
            let _ = self.core.get_core().read_ram(address, &mut block);
            data.append(&mut block);
            i = i + 1;
        }
        data
    }
}

impl<C: EmulatorCore, T: MonotonicTimestampProvider> SuperShuckieCore<C, T> {
    /// With audio rendering on.
    pub open spec fn sound_on(self, after: Self) -> bool {
        if self.audio.enabled {
            after == self
        } else {
            &&& after.audio.enabled
            &&& after == (SuperShuckieCore {
                core: after.core,
                effects: after.effects,
                audio: crate::session::state::AudioState { enabled: true, ..self.audio },
                ..self
            })
            &&& self.asked(
                after,
                seq![crate::emulator::console::CoreCall::SetAudioEnabled { enabled: true }],
            )
            &&& after.outs() == self.outs() + effects::only_if(
                self.audio.listening,
                effects::Out::ClearAudio,
            )
        }
    }

    /// With samples routed to an output.
    pub open spec fn routed(self, after: Self) -> bool {
        &&& after == (SuperShuckieCore {
            effects: after.effects,
            audio: crate::session::state::AudioState { listening: true, ..self.audio },
            ..self
        })
        &&& after.outs() == self.outs() + seq![
            effects::Out::AudioPitch { scales: Self::scales_pitch(self.core.identity().console) },
            effects::Out::AudioSpeed { speed: self.audio.speed },
        ]
    }
}

// ---------------------------------------------------------------------------------------------
// Words.

/// Words as bytes, the lowest of each first.
pub open spec fn word_bytes(words: Seq<u32>) -> Seq<u8> {
    Seq::new(
        words.len() * 4,
        |i: int|
            {
                let w = words[i / 4];
                if i % 4 == 0 {
                    (w % 256) as u8
                } else if i % 4 == 1 {
                    (w / 0x100 % 256) as u8
                } else if i % 4 == 2 {
                    (w / 0x1_0000 % 256) as u8
                } else {
                    (w / 0x100_0000) as u8
                }
            },
    )
}

/// The bytes of pixel `k` stand at four times `k`, and read lowest byte first they are its word:
/// blue, green, red, then alpha.
pub proof fn law_pixels_are_sent_as_their_words(words: Seq<u32>, k: int)
    requires
        0 <= k < words.len(),
    ensures
        word_bytes(words).len() == 4 * words.len(),
        bytes::le_value(word_bytes(words).subrange(4 * k, 4 * k + 4)) == words[k],
        word_bytes(words)[4 * k] + 0x100 * word_bytes(words)[4 * k + 1] + 0x1_0000 * word_bytes(
            words,
        )[4 * k + 2] + 0x100_0000 * word_bytes(words)[4 * k + 3] == words[k],
{
    let four = word_bytes(words).subrange(4 * k, 4 * k + 4);
    bytes::law_what_bytes_are_worth(four);
    let w = words[k];
    assert(four[0] == w % 256);
    assert(four[1] == w / 0x100 % 256);
    assert(four[2] == w / 0x1_0000 % 256);
    assert(four[3] == w / 0x100_0000);
}

/// Different pictures are different bytes.
pub proof fn law_different_pictures_are_different_bytes(a: Seq<u32>, b: Seq<u32>)
    ensures
        word_bytes(a) == word_bytes(b) ==> a == b,
{
    if word_bytes(a) == word_bytes(b) {
        assert(word_bytes(a).len() == word_bytes(b).len());
        assert forall|k: int| 0 <= k < a.len() implies a[k] == b[k] by {
            law_pixels_are_sent_as_their_words(a, k);
            law_pixels_are_sent_as_their_words(b, k);
        }
        assert(a =~= b);
    }
}

fn words_to_bytes(words: &Vec<u32>) -> (r: Vec<u8>)
    ensures
        r@ == word_bytes(words@),
{
    let mut r: Vec<u8> = Vec::new();
    let mut i: usize = 0;
    assert(r@ =~= word_bytes(words@.take(0)));
    while i < words.len()
        invariant
            i <= words@.len(),
            r@ == word_bytes(words@.take(i as int)),
        decreases words@.len() - i,
    {
        let w: u32 = words[i];
        let ghost before = r@;
        r.push((w % 256) as u8);
        r.push((w / 0x100 % 256) as u8);
        r.push((w / 0x1_0000 % 256) as u8);
        r.push((w / 0x100_0000) as u8);
        i = i + 1;
        proof {
            let now = word_bytes(words@.take(i as int));
            assert forall|k: int| 0 <= k < now.len() implies #[trigger] r@[k] == now[k] by {
                if k < before.len() {
                    assert(before[k] == word_bytes(words@.take(i - 1))[k]);
                }
            }
            assert(r@ =~= now);
        }
    }
    assert(words@.take(i as int) =~= words@);
    r
}

} // verus!
