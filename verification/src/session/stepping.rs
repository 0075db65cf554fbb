//! Running the core.

use super::effects;
use super::effects::Effect;
use super::playback;
use super::state::{
    InputState, MonotonicTimestampProvider, RunState, SuperShuckieCore, TogetherState,
};
use crate::emulator::console;
use crate::emulator::console::{CoreCall, EmulatorCore, RunTime};
use crate::play_together::cable;
use crate::replay::packet;
use crate::replay::packet::Packet;
use vstd::prelude::*;

verus! {

impl<C: EmulatorCore, T: MonotonicTimestampProvider> SuperShuckieCore<C, T> {
    /// After reading whatever drives the emulator up to the next frame.
    pub open spec fn replay_handled(self, after: Self) -> bool {
        if self.reads_nothing() {
            after == self
        } else if self.together.follower is Some {
            self.live_handled(after)
        } else {
            self.file_handled(after)
        }
    }

    /// Read the replay played back (or the game followed) up to the next frame, unless that has
    /// been done already for the frame about to run.
    pub fn handle_replay(&mut self)
        requires
            old(self).wf(),
        ensures
            final(self).wf(),
            old(self).replay_handled(*final(self)),
    {
        if self.playback.stalled || self.playback.frame_pending || self.playback.stopped {
            return;
        }
        if self.core.is_mid_frame() {
            return;
        }
        if self.together.follower.is_some() {
            self.handle_live_replay();
        } else {
            self.handle_replay_file();
        }
    }

    /// After everything that goes before a run.
    pub open spec fn prepared(self, after: Self) -> bool {
        exists|read: Self, pressed: Self|
            #![trigger self.replay_handled(read), read.input_updated(pressed)]
            self.replay_handled(read) && read.input_updated(pressed) && pressed.writes_flushed(
                after,
            )
    }

    /// What goes before a run: the replay is read, the user's input applied, waiting writes let
    /// out.
    pub fn before_run(&mut self)
        requires
            old(self).wf(),
        ensures
            final(self).wf(),
            old(self).prepared(*final(self)),
    {
        let ghost before = *self;
        self.handle_replay();
        let ghost read = *self;
        self.update_input();
        let ghost pressed = *self;
        self.flush_writes();
        assert(before.replay_handled(read) && read.input_updated(pressed));
    }

    /// Whether the console does not run on its own: it is held for a link, or steps as one of a
    /// linked pair.
    pub open spec fn held(self) -> bool {
        self.together.holding || self.together.link is Some || self.together.partner is Some
    }

    /// After the core ran, with what was prepared before.
    pub open spec fn stepped(self, after: Self, unlocked: bool, audible: bool) -> bool {
        exists|core_ran: Self, timed: Self, time: RunTime|
            #![trigger self.core_ran(core_ran, unlocked, time), core_ran.after_ran(timed, time)]
            self.core_ran(core_ran, unlocked, time) && core_ran.after_ran(timed, time)
                && timed.audio_drained(after, audible)
    }

    /// After the core itself ran for `time`.
    pub open spec fn core_ran(self, after: Self, unlocked: bool, time: RunTime) -> bool {
        &&& after == (SuperShuckieCore { core: after.core, ..self })
        &&& self.asked(
            after,
            seq![
                if unlocked {
                    CoreCall::RunUnlocked { time }
                } else {
                    CoreCall::Run { time }
                },
            ],
        )
    }

    /// After a run: nothing happens while the console is held, and the core does not run if the
    /// replay has nothing for it.
    pub open spec fn ran(self, after: Self, unlocked: bool, audible: bool) -> bool {
        let start = SuperShuckieCore {
            runs: RunState { last: console::no_time(), ..self.runs },
            ..self
        };
        if self.held() {
            after == start
        } else {
            exists|ready: Self| #[trigger]
                start.readied(ready) && if ready.playback.stalled || ready.playback.waiting {
                    after == ready
                } else {
                    ready.stepped(after, unlocked, audible)
                }
        }
    }

    /// After preparing a run, unless the replay has stalled.
    pub open spec fn readied(self, after: Self) -> bool {
        if self.playback.stalled {
            after == self
        } else {
            self.prepared(after)
        }
    }

    /// Run the core. `audible` says whether the samples it produces should reach the audio output;
    /// they are always taken from the core either way so its buffers do not depend on who is
    /// listening.
    pub fn do_run_fn(&mut self, unlocked: bool, audible: bool)
        requires
            old(self).wf(),
        ensures
            final(self).wf(),
            old(self).ran(*final(self), unlocked, audible),
    {
        self.runs.last = RunTime::none();
        if self.together.holding || self.together.link.is_some()
            || self.together.partner.is_some() {
            return;
        }
        let ghost start = *self;
        if !self.playback.stalled {
            self.before_run();
        }
        let ghost ready = *self;
        assert(start.readied(ready));
        if self.playback.stalled || self.playback.waiting {
            return;
        }
        let time: RunTime = if unlocked {
            self.core.run_unlocked()
        } else {
            self.core.run()
        };
        let ghost core_ran = *self;
        proof {
            let call = if unlocked {
                CoreCall::RunUnlocked { time }
            } else {
                CoreCall::Run { time }
            };
            assert(core_ran.core.log() =~= ready.core.log() + seq![call]);
            assert(ready.core_ran(core_ran, unlocked, time));
        }
        self.after_run(time);
        let ghost timed = *self;
        assert(core_ran.after_ran(timed, time));
        self.drain_audio(audible);
        assert(ready.stepped(*self, unlocked, audible));
    }

    /// After being told whether to draw, and running.
    pub open spec fn ran_drawing(self, after: Self, skip: bool, unlocked: bool, audible: bool) -> bool {
        exists|told: Self| #[trigger]
            self.drawing_set(told, skip) && told.ran(after, unlocked, audible)
    }

    /// With the core told whether frames need to be drawn.
    pub open spec fn drawing_set(self, after: Self, skip: bool) -> bool {
        &&& after == (SuperShuckieCore { core: after.core, ..self })
        &&& self.asked(after, seq![CoreCall::SetSkipDrawing { skip }])
        &&& after.core.mid_frame() == self.core.mid_frame()
        &&& after.core.state() == self.core.state()
    }

    pub(crate) fn set_drawing(&mut self, skip: bool)
        ensures
            old(self).drawing_set(*final(self), skip),
            old(self).wf() ==> final(self).wf(),
    {
        let ghost before = *self;
        self.core.set_skip_drawing(skip);
        assert(self.core.log() =~= before.core.log() + seq![CoreCall::SetSkipDrawing { skip }]);
    }

    /// Whether the next paced frame is not drawn: at high speed only one in
    /// [`present_every`](Self::present_every) is.
    pub open spec fn skips_drawing(self) -> bool {
        self.audio.present_every > 1 && !self.core.mid_frame() && self.timer.frames
            % self.audio.present_every != 0
    }

    /// Run the emulator core for the shortest amount of time.
    pub fn run(&mut self)
        requires
            old(self).wf(),
        ensures
            final(self).wf(),
            old(self).ran_drawing(*final(self), old(self).skips_drawing(), false, true),
    {
        let skip: bool = self.audio.present_every > 1 && !self.core.is_mid_frame()
            && self.timer.frames % self.audio.present_every != 0;
        let ghost before = *self;
        self.set_drawing(skip);
        let ghost told = *self;
        assert(before.drawing_set(told, skip));
        self.do_run_fn(false, true);
    }

    /// Run the emulator core for the shortest amount of time without any timekeeping.
    ///
    /// Nobody is listening to unpaced runs (exports, finishing a frame), so their audio is dropped.
    pub fn run_unlocked(&mut self)
        requires
            old(self).wf(),
        ensures
            final(self).wf(),
            old(self).ran_drawing(*final(self), false, true, false),
    {
        let ghost before = *self;
        self.set_drawing(false);
        let ghost told = *self;
        assert(before.drawing_set(told, false));
        self.do_run_fn(true, false);
    }

    /// Like [`run_unlocked`](Self::run_unlocked), but the frame need not be drawn (used while
    /// catching up to a target frame nobody will look at).
    ///
    /// Emulation is unaffected: only the core's presentation is skipped.
    pub fn run_unlocked_hidden(&mut self)
        requires
            old(self).wf(),
        ensures
            final(self).wf(),
            old(self).ran_drawing(*final(self), true, true, false),
    {
        let ghost before = *self;
        self.set_drawing(true);
        let ghost told = *self;
        assert(before.drawing_set(told, true));
        self.do_run_fn(true, false);
    }

    /// Like [`run_unlocked`](Self::run_unlocked), but the samples the frame produces reach the
    /// audio output as they would from a paced [`run`](Self::run).
    pub fn run_unlocked_audible(&mut self)
        requires
            old(self).wf(),
        ensures
            final(self).wf(),
            old(self).ran_drawing(*final(self), false, true, true),
    {
        let ghost before = *self;
        self.set_drawing(false);
        let ghost told = *self;
        assert(before.drawing_set(told, false));
        self.do_run_fn(true, true);
    }

    /// Whether the frame the core is in the middle of is to be run on.
    pub open spec fn frame_unfinished(self) -> bool {
        self.core.mid_frame() && !self.playback.stalled
    }

    /// Whether one unlocked run leads from the middle of a frame to there.
    pub open spec fn runs_on(self, after: Self) -> bool {
        self.frame_unfinished() && self.ran_drawing(after, false, true, false)
    }

    /// Whether the runs of `steps` finish the current frame: unlocked ones, for as long as the core
    /// is in the middle of it (and no longer than there are numbers to count the runs).
    pub open spec fn frame_finished_in(self, after: Self, steps: Seq<Self>) -> bool {
        &&& steps.len() >= 1
        &&& steps[0] == self
        &&& steps.last() == after
        &&& forall|i: int, j: int|
            0 <= i && j == i + 1 && j < steps.len() ==> (#[trigger] steps[i]).runs_on(
                #[trigger] steps[j],
            )
        &&& after.frame_unfinished() ==> steps.len() == u64::MAX + 1
    }

    /// After running unlocked until the next frame.
    pub open spec fn frame_finished(self, after: Self) -> bool {
        exists|steps: Seq<Self>| #[trigger] self.frame_finished_in(after, steps)
    }

    /// Run unlocked until the next frame.
    pub fn finish_current_frame(&mut self)
        requires
            old(self).wf(),
        ensures
            final(self).wf(),
            old(self).frame_finished(*final(self)),
    {
        let ghost before = *self;
        let ghost mut steps: Seq<Self> = seq![*self];
        let mut left: u64 = u64::MAX;
        while left > 0 && self.core.is_mid_frame() && !self.playback.stalled
            invariant
                self.wf(),
                steps.len() == u64::MAX - left + 1,
                steps[0] == before,
                steps.last() == *self,
                forall|i: int, j: int|
                    0 <= i && j == i + 1 && j < steps.len() ==> (#[trigger] steps[i]).runs_on(
                        #[trigger] steps[j],
                    ),
            decreases left,
        {
            let ghost at = *self;
            self.run_unlocked();
            left = left - 1;
            proof {
                let done = steps;
                steps = steps.push(*self);
                assert forall|i: int, j: int|
                    0 <= i && j == i + 1 && j < steps.len() implies (#[trigger] steps[i]).runs_on(
                    #[trigger] steps[j],
                ) by {
                    if j < done.len() {
                        assert(done[i].runs_on(done[j]));
                    } else {
                        assert(done[i] == done.last());
                        assert(at.runs_on(*self));
                    }
                }
            }
        }
        assert(before.frame_finished_in(*self, steps));
    }

    // -----------------------------------------------------------------------------------------
    // Resets and save states.

    /// With the console reset, and everybody told.
    pub open spec fn console_reset(self, after: Self) -> bool {
        &&& after == (SuperShuckieCore {
            core: after.core,
            runs: RunState { epoch: self.runs.epoch.wrapping_add(1), ..self.runs },
            input: InputState { latched: false, ..self.input },
            effects: after.effects,
            ..self
        })
        &&& self.asked(after, seq![CoreCall::HardReset])
        &&& after.outs() == self.outs() + effects::only_if(
            self.audio.listening,
            effects::Out::ClearAudio,
        ) + effects::only_if(self.together.publishing, effects::Out::PublishReset)
            + effects::only_if(self.recorder.active, effects::Out::RecordReset)
    }

    /// With a reset scheduled on the cable.
    pub open spec fn reset_scheduled(self, after: Self) -> bool {
        &&& self.together.link is Some
        &&& after.together.link is Some
        &&& after == (SuperShuckieCore {
            together: TogetherState { link: after.together.link, ..self.together },
            ..self
        })
        &&& self.together.link->Some_0.with_scheduled(
            after.together.link->Some_0,
            packet::PacketModel::ResetConsole,
        )
    }

    /// Do a hard reset. Ignored while a replay is playing back (it owns the console); a stopped
    /// replay's resume seeks back to its resume point regardless of what was done live. The reset
    /// of a linked console happens on both machines at the same link frame.
    pub fn hard_reset(&mut self)
        requires
            old(self).wf(),
        ensures
            final(self).wf(),
            if old(self).playing_back() {
                *final(self) == *old(self)
            } else if old(self).together.link is Some {
                old(self).reset_scheduled(*final(self))
            } else {
                exists|finished: Self| #[trigger]
                    old(self).frame_finished(finished) && finished.console_reset(*final(self))
            },
    {
        if self.is_playing_back() {
            return;
        }
        if self.together.link.is_some() {
            if let Some(mut link) = self.together.link.take() {
                link.schedule(Packet::ResetConsole);
                self.together.link = Some(link);
            }
            return;
        }
        let ghost before = *self;
        self.finish_current_frame();
        let ghost finished = *self;
        assert(before.frame_finished(finished));
        self.core.hard_reset();
        self.bump_state_epoch();
        self.clear_audio();
        self.publish(Effect::PublishReset);
        self.record(Effect::RecordReset);
        // The console's own input state was just replaced; apply ours again on the next run.
        self.input.latched = false;
        assert(self.core.log() =~= finished.core.log() + seq![CoreCall::HardReset]);
    }

    /// Create a save state.
    pub fn create_save_state(&self) -> (r: Vec<u8>)
        ensures
            r@ == self.core.state(),
    {
        self.core.create_save_state()
    }

    /// Get the battery-backed memory.
    pub fn save_sram(&self) -> (r: Vec<u8>)
        ensures
            r@ == self.core.sram(),
    {
        self.core.save_sram()
    }

    /// With a state handed to the core, memory counted as replaced and stale sound dropped.
    pub open spec fn state_put(self, after: Self, state: Seq<u8>) -> bool {
        &&& after == (SuperShuckieCore {
            core: after.core,
            runs: RunState { epoch: self.runs.epoch.wrapping_add(1), ..self.runs },
            effects: after.effects,
            ..self
        })
        &&& self.loaded(after, state)
        &&& after.outs() == self.outs() + effects::only_if(
            self.audio.listening,
            effects::Out::ClearAudio,
        )
    }

    /// With everybody told of a state that was loaded.
    pub open spec fn state_told(self, after: Self, state: Seq<u8>) -> bool {
        (SuperShuckieCore { input: InputState { latched: false, ..self.input }, ..self }).told(
            after,
            effects::only_if(self.together.publishing, effects::Out::PublishState { state })
                + effects::only_if(self.recorder.active, effects::Out::RecordState { state }),
        )
    }

    /// After one frame was drawn from a state that was then loaded again: the screens show
    /// something, and the game does not appear to have run a frame it should not have.
    pub open spec fn peeked(self, after: Self, state: Seq<u8>) -> bool {
        exists|drawn: Self, finished: Self|
            #![trigger self.ran_drawing(drawn, false, true, false), drawn.frame_finished(finished)]
            self.ran_drawing(drawn, false, true, false) && drawn.frame_finished(finished)
                && finished.loaded(after, state) && after == (SuperShuckieCore {
                core: after.core,
                input: InputState { latched: false, ..finished.input },
                ..finished
            })
    }

    /// Load a save state. Ignored while a replay is playing back, and while the console is linked.
    pub fn load_save_state(&mut self, state: &Vec<u8>)
        requires
            old(self).wf(),
        ensures
            final(self).wf(),
            if old(self).playing_back() || old(self).linked() {
                *final(self) == *old(self)
            } else {
                exists|put: Self| #[trigger]
                    old(self).state_put(put, state@) && if put.recorder.active
                        || put.together.publishing {
                        put.state_told(*final(self), state@)
                    } else {
                        put.peeked(*final(self), state@)
                    }
            },
    {
        if self.is_playing_back() || self.is_linked() {
            return;
        }
        let ghost before = *self;
        let _ = self.core.load_save_state(state.as_slice());
        assert(self.core.log() =~= before.core.log() + seq![
            CoreCall::LoadSaveState {
                state: state@,
                error: match self.core.log().last() {
                    CoreCall::LoadSaveState { error, .. } => error,
                    _ => None,
                },
            },
        ]);
        self.bump_state_epoch();
        self.clear_audio();
        let ghost put = *self;
        assert(before.state_put(put, state@));
        if self.recorder.active || self.together.publishing {
            self.publish(Effect::PublishState { state: packet::copy_bytes(state) });
            self.record(Effect::RecordState { state: packet::copy_bytes(state) });
            self.input.latched = false;
            assert(self.outs() =~= put.outs() + (effects::only_if(
                put.together.publishing,
                effects::Out::PublishState { state: state@ },
            ) + effects::only_if(
                put.recorder.active,
                effects::Out::RecordState { state: state@ },
            )));
        } else {
            // Draw one frame from the loaded state (so the screens show something), then reload it
            // so the game does not appear to have run a frame it should not have.
            self.run_unlocked();
            let ghost drawn = *self;
            self.finish_current_frame();
            let ghost finished = *self;
            assert(put.ran_drawing(drawn, false, true, false) && drawn.frame_finished(finished));
            let _ = self.core.load_save_state(state.as_slice());
            assert(self.core.log() =~= finished.core.log() + seq![
                CoreCall::LoadSaveState {
                    state: state@,
                    error: match self.core.log().last() {
                        CoreCall::LoadSaveState { error, .. } => error,
                        _ => None,
                    },
                },
            ]);
            self.input.latched = false;
        }
    }
}

} // verus!
