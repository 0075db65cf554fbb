//! Rendering an attached replay to video.

use super::anchors;
use super::state::{MonotonicTimestampProvider, SuperShuckieCore};
use crate::emulator::console::EmulatorCore;
use crate::export;
use crate::export::{ExportRange, ScreenLayout, SinkCall, VideoExportError, VideoFrameSink};
use vstd::prelude::*;
use vstd::string::*;

verus! {

/// An export in its middle.
pub ghost struct ExportState<C, T> {
    pub session: SuperShuckieCore<C, T>,
    /// What was asked of the sink.
    pub calls: Seq<SinkCall>,
    /// Pictures pushed.
    pub done: u64,
}

/// The frames of a range that a replay of `total` frames has, as `[start, end)`.
pub open spec fn frames_of(range: ExportRange, total: u64) -> (u64, u64) {
    let end = match range.end_frame {
        Some(end) => end,
        None => total,
    };
    (
        if range.start_frame < total {
            range.start_frame
        } else {
            total
        },
        if end < total {
            end
        } else {
            total
        },
    )
}

/// The error of an export that the sink cannot be blamed for.
pub open spec fn no_picture(
    screens: Seq<crate::emulator::console::ScreenData>,
) -> export::ExportErrorModel {
    export::ExportErrorModel::Sink {
        explanation: if screens.len() == 0 {
            "core has no screens"@
        } else {
            "the screens are too large for a video"@
        },
    }
}

impl<C: EmulatorCore, T: MonotonicTimestampProvider> SuperShuckieCore<C, T> {
    /// Whether the next frame is still to be reached.
    pub open spec fn behind(self, target: u64) -> bool {
        self.timer.frames < target && !self.playback.stalled
    }

    /// Whether one unlocked run leads from before `target` to there.
    pub open spec fn nears(self, after: Self, target: u64) -> bool {
        self.behind(target) && self.ran_drawing(after, false, true, false)
    }

    /// Whether the runs of `steps` lead to the frame `target` (or as far as the replay goes, and no
    /// longer than there are numbers to count the runs).
    pub open spec fn reached_in(self, after: Self, target: u64, steps: Seq<Self>) -> bool {
        &&& steps.len() >= 1
        &&& steps[0] == self
        &&& steps.last() == after
        &&& forall|i: int, j: int|
            0 <= i && j == i + 1 && j < steps.len() ==> (#[trigger] steps[i]).nears(
                #[trigger] steps[j],
                target,
            )
        &&& after.behind(target) ==> steps.len() == u64::MAX + 1
    }

    /// After running until the frame `target`.
    pub open spec fn reached(self, after: Self, target: u64) -> bool {
        exists|steps: Seq<Self>| #[trigger] self.reached_in(after, target, steps)
    }

    /// After one more frame.
    pub open spec fn frame_on(self, after: Self) -> bool {
        self.reached(after, anchors::frames_after(self.timer.frames, 1))
    }

    /// Run and draw, unlocked, until the frame `target` (or as far as the replay goes).
    pub fn run_to(&mut self, target: u64)
        requires
            old(self).wf(),
        ensures
            final(self).wf(),
            old(self).reached(*final(self), target),
    {
        let ghost before = *self;
        let ghost mut steps: Seq<Self> = seq![*self];
        let mut left: u64 = u64::MAX;
        while left > 0 && self.timer.frames < target && !self.playback.stalled
            invariant
                self.wf(),
                steps.len() == u64::MAX - left + 1,
                steps[0] == before,
                steps.last() == *self,
                forall|i: int, j: int|
                    0 <= i && j == i + 1 && j < steps.len() ==> (#[trigger] steps[i]).nears(
                        #[trigger] steps[j],
                        target,
                    ),
            decreases left,
        {
            let ghost at = *self;
            self.run_unlocked();
            left = left - 1;
            proof {
                let done = steps;
                steps = steps.push(*self);
                assert forall|i: int, j: int| 0 <= i && j == i + 1 && j < steps.len() implies (
                #[trigger] steps[i]).nears(#[trigger] steps[j], target) by {
                    if j < done.len() {
                        assert(done[i].nears(done[j], target));
                    } else {
                        assert(done[i] == done.last());
                        assert(at.nears(*self, target));
                    }
                }
            }
        }
        assert(before.reached_in(*self, target, steps));
    }

    fn advance_frame(&mut self)
        requires
            old(self).wf(),
        ensures
            final(self).wf(),
            old(self).frame_on(*final(self)),
    {
        let target: u64 = self.timer.frames.saturating_add(1);
        self.run_to(target);
    }

    /// How an export begins: the sink is told the geometry and the rate, if there is a picture.
    pub open spec fn begun(
        self,
        layout: ScreenLayout,
        calls: Seq<SinkCall>,
        after: Seq<SinkCall>,
        error: Option<export::ExportErrorModel>,
    ) -> bool {
        let screens = self.core.pictures();
        let (fps_num, fps_den) = self.core.identity().frame_rate;
        if screens.len() > 0 && export::picture_fits(screens, layout) {
            export::geometry(screens, layout) matches Some((w, h)) && after == calls.push(
                SinkCall::Begin { width: w as u32, height: h as u32, fps_num, fps_den, error },
            )
        } else {
            after == calls && error == Some(no_picture(screens))
        }
    }

    fn begin_export<S: VideoFrameSink>(&self, layout: ScreenLayout, sink: &mut S) -> (r: Result<
        (),
        VideoExportError,
    >)
        ensures
            self.begun(layout, old(sink).calls(), final(sink).calls(), export::problem(r)),
    {
        let (fps_num, fps_den): (u32, u32) = self.core.frame_rate();
        if !export::can_composite(self.core.get_screens(), layout) {
            return Err(
                VideoExportError::Sink {
                    explanation: "the screens are too large for a video".to_owned(),
                },
            );
        }
        match export::output_geometry(self.core.get_screens(), layout) {
            Some((width, height)) => sink.begin(width, height, fps_num, fps_den),
            None => Err(
                VideoExportError::Sink { explanation: "core has no screens".to_owned() },
            ),
        }
    }

    /// Export `range` of the attached replay to `sink`, which is told of the progress after each
    /// picture and may cancel before it ([`VideoExportError::Cancelled`]). Requires a replay to be
    /// attached (else [`VideoExportError::NoReplayAttached`]).
    ///
    /// One emulated frame becomes exactly one video frame, as many as the range has; recorded
    /// timestamps and replay speed are ignored for timing. Stepping is unlocked, so there is no
    /// real-time throttle.
    pub fn export_frames<S: VideoFrameSink>(
        &mut self,
        range: ExportRange,
        layout: ScreenLayout,
        sink: &mut S,
    ) -> (r: Result<(), VideoExportError>)
        requires
            old(self).wf(),
        ensures
            final(self).wf(),
            match old(self).playback.player {
                None => export::problem(r) == Some(export::ExportErrorModel::NoReplayAttached)
                    && *final(self) == *old(self) && final(sink).calls() == old(sink).calls(),
                Some(p) => exported(
                    *old(self),
                    *final(self),
                    frames_of(range, p.total_frames).0,
                    frames_of(range, p.total_frames).1,
                    layout,
                    old(sink).calls(),
                    final(sink).calls(),
                    export::problem(r),
                ),
            },
    {
        let total: u64 = match &self.playback.player {
            Some(p) => p.get_total_frames(),
            None => return Err(VideoExportError::NoReplayAttached),
        };
        let start: u64 = if range.start_frame < total {
            range.start_frame
        } else {
            total
        };
        let end: u64 = match range.end_frame {
            Some(end) => if end < total {
                end
            } else {
                total
            },
            None => total,
        };
        assert(frames_of(range, total) == (start, end));
        let ghost before = *self;
        let ghost calls = sink.calls();
        // A replay that cannot be read at the start leaves the core stalled: no picture comes out.
        let went: Result<(), String> = self.go_to_replay_frame(start);
        let ghost placed = *self;
        assert(before.went_to_frame(placed, start, went));
        let began: Result<(), VideoExportError> = self.begin_export(layout, sink);
        let ghost begun = sink.calls();
        let ghost error = export::problem(began);
        assert(placed.begun(layout, calls, begun, error));
        if let Err(e) = began {
            sink.abort();
            return Err(e);
        }
        // Empty range: begin with the right geometry, push nothing, finish cleanly.
        if end <= start {
            sink.progress(0, 0);
            let r: Result<(), VideoExportError> = sink.finish();
            assert(sink.calls() =~= begun + seq![
                SinkCall::Progress { done: 0, total: 0 },
                SinkCall::Finish { error: export::problem(r) },
            ]);
            return r;
        }
        let r: Result<(), VideoExportError> = self.export_pictures(layout, end - start, sink);
        assert(pictures_out(
            placed,
            *self,
            (end - start) as u64,
            layout,
            begun,
            sink.calls(),
            export::problem(r),
        ));
        r
    }

    fn export_pictures<S: VideoFrameSink>(
        &mut self,
        layout: ScreenLayout,
        span: u64,
        sink: &mut S,
    ) -> (r: Result<(), VideoExportError>)
        requires
            old(self).wf(),
        ensures
            final(self).wf(),
            pictures_out(
                *old(self),
                *final(self),
                span,
                layout,
                old(sink).calls(),
                final(sink).calls(),
                export::problem(r),
            ),
    {
        let ghost start = ExportState { session: *self, calls: sink.calls(), done: 0 };
        let ghost mut steps: Seq<ExportState<C, T>> = seq![start];
        let mut done: u64 = 0;
        let mut picture: Vec<u32> = Vec::new();
        while done < span && !self.playback.stalled
            invariant
                self.wf(),
                done <= span,
                start == (ExportState {
                    session: *old(self),
                    calls: old(sink).calls(),
                    done: 0u64,
                }),
                steps.len() == done + 1,
                steps[0] == start,
                steps.last() == (ExportState { session: *self, calls: sink.calls(), done }),
                forall|i: int, j: int|
                    0 <= i && j == i + 1 && j < steps.len() ==> (#[trigger] steps[i]).goes_on(
                        #[trigger] steps[j],
                        span,
                        layout,
                    ),
            decreases span - done,
        {
            let ghost at = ExportState { session: *self, calls: sink.calls(), done };
            let ghost so_far = steps;
            if sink.is_cancelled() {
                sink.abort();
                let r: Result<(), VideoExportError> = Err(VideoExportError::Cancelled);
                proof {
                    let last = ExportState { session: *self, calls: sink.calls(), done };
                    assert(last.calls =~= at.calls + seq![
                        SinkCall::Cancelled { answer: true },
                        SinkCall::Abort,
                    ]);
                    assert(at.ends(last, span, layout, export::problem(r)));
                    assert(pictures_out_in(start, last, span, layout, export::problem(r), steps));
                }
                return r;
            }
            if self.core.get_screens().len() == 0 || !export::can_composite(
                self.core.get_screens(),
                layout,
            ) {
                let none: bool = self.core.get_screens().len() == 0;
                sink.abort();
                let r: Result<(), VideoExportError> = Err(
                    VideoExportError::Sink {
                        explanation: if none {
                            "core has no screens".to_owned()
                        } else {
                            "the screens are too large for a video".to_owned()
                        },
                    },
                );
                proof {
                    let last = ExportState { session: *self, calls: sink.calls(), done };
                    assert(last.calls =~= at.calls + seq![
                        SinkCall::Cancelled { answer: false },
                        SinkCall::Abort,
                    ]);
                    assert(at.ends(last, span, layout, export::problem(r)));
                    assert(pictures_out_in(start, last, span, layout, export::problem(r), steps));
                }
                return r;
            }
            export::composite_screens(self.core.get_screens(), layout, &mut picture);
            let pushed: Result<(), VideoExportError> = sink.push_frame(&picture);
            if let Err(e) = pushed {
                sink.abort();
                let r: Result<(), VideoExportError> = Err(e);
                proof {
                    let last = ExportState { session: *self, calls: sink.calls(), done };
                    assert(last.calls =~= at.calls + seq![
                        SinkCall::Cancelled { answer: false },
                        SinkCall::PushFrame { argb: picture@, error: Some(e@) },
                        SinkCall::Abort,
                    ]);
                    assert(at.ends(last, span, layout, export::problem(r)));
                    assert(pictures_out_in(start, last, span, layout, export::problem(r), steps));
                }
                return r;
            }
            done = done + 1;
            sink.progress(done, span);
            if done < span {
                self.advance_frame();
            }
            proof {
                let now = ExportState { session: *self, calls: sink.calls(), done };
                assert(now.calls =~= at.calls + seq![
                    SinkCall::Cancelled { answer: false },
                    SinkCall::PushFrame { argb: picture@, error: None },
                    SinkCall::Progress { done, total: span },
                ]);
                assert(at.goes_on(now, span, layout));
                steps = steps.push(now);
                assert forall|i: int, j: int| 0 <= i && j == i + 1 && j < steps.len() implies (
                #[trigger] steps[i]).goes_on(#[trigger] steps[j], span, layout) by {
                    if j < so_far.len() {
                        assert(so_far[i].goes_on(so_far[j], span, layout));
                    } else {
                        assert(steps[i] == at);
                    }
                }
            }
        }
        let ghost at = ExportState { session: *self, calls: sink.calls(), done };
        let r: Result<(), VideoExportError> = sink.finish();
        proof {
            let last = ExportState { session: *self, calls: sink.calls(), done };
            assert(last.calls =~= at.calls + seq![SinkCall::Finish { error: export::problem(r) }]);
            assert(at.ends(last, span, layout, export::problem(r)));
            assert(pictures_out_in(start, last, span, layout, export::problem(r), steps));
        }
        r
    }
}

impl<C: EmulatorCore, T: MonotonicTimestampProvider> ExportState<C, T> {
    /// Whether a picture is due.
    pub open spec fn due(self, span: u64) -> bool {
        self.done < span && !self.session.playback.stalled
    }

    /// Whether the screens make a picture.
    pub open spec fn has_picture(self, layout: ScreenLayout) -> bool {
        let screens = self.session.core.pictures();
        screens.len() > 0 && export::picture_fits(screens, layout)
    }

    /// After a picture went out: the next frame, unless that was the last.
    pub open spec fn goes_on(self, after: Self, span: u64, layout: ScreenLayout) -> bool {
        &&& self.due(span)
        &&& self.has_picture(layout)
        &&& after.done == self.done + 1
        &&& after.calls == self.calls + seq![
            SinkCall::Cancelled { answer: false },
            SinkCall::PushFrame {
                argb: export::composited(self.session.core.pictures(), layout),
                error: None,
            },
            SinkCall::Progress { done: after.done, total: span },
        ]
        &&& if after.done < span {
            self.session.frame_on(after.session)
        } else {
            after.session == self.session
        }
    }

    /// How the export ends: all pictures are out (or the replay has no more), it was cancelled, or
    /// a picture could not be made or pushed.
    pub open spec fn ends(
        self,
        after: Self,
        span: u64,
        layout: ScreenLayout,
        error: Option<export::ExportErrorModel>,
    ) -> bool {
        &&& after.session == self.session
        &&& after.done == self.done
        &&& if !self.due(span) {
            after.calls == self.calls + seq![SinkCall::Finish { error }]
        } else {
            ||| {
                &&& error == Some(export::ExportErrorModel::Cancelled)
                &&& after.calls == self.calls + seq![
                    SinkCall::Cancelled { answer: true },
                    SinkCall::Abort,
                ]
            }
            ||| {
                &&& !self.has_picture(layout)
                &&& error == Some(no_picture(self.session.core.pictures()))
                &&& after.calls == self.calls + seq![
                    SinkCall::Cancelled { answer: false },
                    SinkCall::Abort,
                ]
            }
            ||| {
                &&& self.has_picture(layout)
                &&& error is Some
                &&& after.calls == self.calls + seq![
                    SinkCall::Cancelled { answer: false },
                    SinkCall::PushFrame {
                        argb: export::composited(self.session.core.pictures(), layout),
                        error,
                    },
                    SinkCall::Abort,
                ]
            }
        }
    }
}

/// Whether each step puts one picture out, and the last one ends the export.
pub open spec fn pictures_out_in<C: EmulatorCore, T: MonotonicTimestampProvider>(
    start: ExportState<C, T>,
    after: ExportState<C, T>,
    span: u64,
    layout: ScreenLayout,
    error: Option<export::ExportErrorModel>,
    steps: Seq<ExportState<C, T>>,
) -> bool {
    &&& steps.len() >= 1
    &&& steps[0] == start
    &&& forall|i: int, j: int|
        0 <= i && j == i + 1 && j < steps.len() ==> (#[trigger] steps[i]).goes_on(
            #[trigger] steps[j],
            span,
            layout,
        )
    &&& steps.last().ends(after, span, layout, error)
}

/// After the pictures of an export that has begun.
pub open spec fn pictures_out<C: EmulatorCore, T: MonotonicTimestampProvider>(
    session: SuperShuckieCore<C, T>,
    after: SuperShuckieCore<C, T>,
    span: u64,
    layout: ScreenLayout,
    calls: Seq<SinkCall>,
    calls_after: Seq<SinkCall>,
    error: Option<export::ExportErrorModel>,
) -> bool {
    exists|start: ExportState<C, T>, last: ExportState<C, T>, steps: Seq<ExportState<C, T>>|
        #[trigger]
        pictures_out_in(start, last, span, layout, error, steps) && start == (ExportState {
            session,
            calls,
            done: 0u64,
        }) && last.session == after && last.calls == calls_after
}

/// After an export of the frames `[start, end)` of the attached replay.
pub open spec fn exported<C: EmulatorCore, T: MonotonicTimestampProvider>(
    session: SuperShuckieCore<C, T>,
    after: SuperShuckieCore<C, T>,
    start: u64,
    end: u64,
    layout: ScreenLayout,
    calls: Seq<SinkCall>,
    calls_after: Seq<SinkCall>,
    error: Option<export::ExportErrorModel>,
) -> bool {
    exists|
        placed: SuperShuckieCore<C, T>,
        went: Result<(), String>,
        begun: Seq<SinkCall>,
        began: Option<export::ExportErrorModel>,
    |
        #![trigger
            session.went_to_frame(placed, start, went),
            placed.begun(layout, calls, begun, began)]
        session.went_to_frame(placed, start, went) && placed.begun(layout, calls, begun, began)
            && match began {
            Some(e) => {
                &&& after == placed
                &&& error == Some(e)
                &&& calls_after == begun.push(SinkCall::Abort)
            },
            None => if end <= start {
                &&& after == placed
                &&& calls_after == begun + seq![
                    SinkCall::Progress { done: 0, total: 0 },
                    SinkCall::Finish { error },
                ]
            } else {
                pictures_out(
                    placed,
                    after,
                    (end - start) as u64,
                    layout,
                    begun,
                    calls_after,
                    error,
                )
            },
        }
}

/// The pictures pushed among what was asked of a sink.
pub open spec fn pushes(calls: Seq<SinkCall>) -> nat
    decreases calls.len(),
{
    if calls.len() == 0 {
        0
    } else {
        pushes(calls.drop_last()) + (if calls.last() is PushFrame {
            1nat
        } else {
            0
        })
    }
}

proof fn lemma_pushes(calls: Seq<SinkCall>, more: Seq<SinkCall>)
    ensures
        pushes(calls + more) == pushes(calls) + pushes(more),
    decreases more.len(),
{
    if more.len() == 0 {
        assert(calls + more =~= calls);
    } else {
        assert((calls + more).drop_last() =~= calls + more.drop_last());
        lemma_pushes(calls, more.drop_last());
    }
}

proof fn lemma_pictures_counted<C: EmulatorCore, T: MonotonicTimestampProvider>(
    steps: Seq<ExportState<C, T>>,
    span: u64,
    layout: ScreenLayout,
    n: int,
)
    requires
        0 <= n < steps.len(),
        steps[0].done == 0,
        forall|i: int, j: int|
            0 <= i && j == i + 1 && j < steps.len() ==> (#[trigger] steps[i]).goes_on(
                #[trigger] steps[j],
                span,
                layout,
            ),
    ensures
        steps[n].done == n,
        pushes(steps[n].calls) == pushes(steps[0].calls) + n,
        n > 0 ==> steps[n].calls.last() == (SinkCall::Progress {
            done: n as u64,
            total: span,
        }),
    decreases n,
{
    if n > 0 {
        lemma_pictures_counted(steps, span, layout, n - 1);
        assert(steps[n - 1].goes_on(steps[n], span, layout));
        let more = seq![
            SinkCall::Cancelled { answer: false },
            SinkCall::PushFrame {
                argb: export::composited(steps[n - 1].session.core.pictures(), layout),
                error: None,
            },
            SinkCall::Progress { done: steps[n].done, total: span },
        ];
        lemma_pushes(steps[n - 1].calls, more);
        assert(pushes(more) == 1) by {
            reveal_with_fuel(pushes, 4);
            assert(more.drop_last().drop_last().drop_last() =~= Seq::<SinkCall>::empty());
            assert(more.drop_last().last() is PushFrame);
            assert(more.drop_last().drop_last().last() is Cancelled);
        }
    }
}

/// An export that comes to its end pushes exactly one picture per frame of its range, and the last
/// progress it reports is `(span, span)`.
pub proof fn law_one_picture_per_frame<C: EmulatorCore, T: MonotonicTimestampProvider>(
    start: ExportState<C, T>,
    after: ExportState<C, T>,
    span: u64,
    layout: ScreenLayout,
    error: Option<export::ExportErrorModel>,
    steps: Seq<ExportState<C, T>>,
)
    requires
        pictures_out_in(start, after, span, layout, error, steps),
        start.done == 0,
        span > 0,
        after.calls.last() is Finish,
        !after.session.playback.stalled,
    ensures
        pushes(after.calls) == pushes(start.calls) + span,
        after.calls[after.calls.len() - 2] == (SinkCall::Progress { done: span, total: span }),
{
    let n = steps.len() - 1;
    lemma_pictures_counted(steps, span, layout, n);
    let last = steps[n];
    assert(last.ends(after, span, layout, error));
    if last.due(span) {
        assert(after.calls.last() is Abort);
    }
    if n > 0 {
        assert(steps[n - 1].goes_on(steps[n], span, layout));
    }
    let more = seq![SinkCall::Finish { error }];
    lemma_pushes(last.calls, more);
    assert(pushes(more) == 0) by {
        reveal_with_fuel(pushes, 2);
    }
}

/// The frames of a range are those the replay has of it: from its start (or the replay's end) up to
/// its end (or the replay's, if it has none or goes beyond).
pub proof fn law_a_range_is_cut_to_the_replay(range: ExportRange, total: u64)
    ensures
        ({
            let (start, end) = frames_of(range, total);
            &&& start <= total && end <= total
            &&& range.start_frame <= total ==> start == range.start_frame
            &&& range.end_frame is None ==> end == total
            &&& range.end_frame matches Some(e) ==> (e <= total ==> end == e) && (e > total ==> end
                == total)
        }),
{
}

/// A sink is told the size and the rate of the pictures before any comes, and every picture has that
/// size.
pub proof fn law_a_sink_is_told_what_comes<C: EmulatorCore, T: MonotonicTimestampProvider>(
    session: SuperShuckieCore<C, T>,
    layout: ScreenLayout,
    calls: Seq<SinkCall>,
    after: Seq<SinkCall>,
    error: Option<export::ExportErrorModel>,
)
    requires
        session.begun(layout, calls, after, error),
        session.core.pictures().len() > 0,
        export::picture_fits(session.core.pictures(), layout),
    ensures
        after.len() == calls.len() + 1,
        after.last() matches SinkCall::Begin { width, height, fps_num, fps_den, error: e } && e
            == error && (fps_num, fps_den) == session.core.identity().frame_rate
            && export::composited(session.core.pictures(), layout).len() == width * height,
{
    let (w, h) = export::geometry(session.core.pictures(), layout)->0;
    assert(w * h >= 0) by (nonlinear_arith)
        requires
            w >= 0,
            h >= 0,
    ;
}

/// Each step of an export asks whether to go on, hands out what the screens show and says how far
/// it is; and then moves on by a frame, but not after the last picture.
pub proof fn law_each_step_hands_out_the_screens<C: EmulatorCore, T: MonotonicTimestampProvider>(
    before: ExportState<C, T>,
    after: ExportState<C, T>,
    span: u64,
    layout: ScreenLayout,
)
    requires
        before.goes_on(after, span, layout),
    ensures
        after.calls.len() == before.calls.len() + 3,
        after.calls.take(before.calls.len() as int) == before.calls,
        after.calls[before.calls.len() as int] == (SinkCall::Cancelled { answer: false }),
        after.calls[before.calls.len() as int + 1] == (SinkCall::PushFrame {
            argb: export::composited(before.session.core.pictures(), layout),
            error: None,
        }),
        after.calls[before.calls.len() as int + 2] == (SinkCall::Progress {
            done: (before.done + 1) as u64,
            total: span,
        }),
        before.done + 1 == span ==> after.session == before.session,
        before.done + 1 < span && before.session.timer.frames < u64::MAX ==> exists|
            steps: Seq<SuperShuckieCore<C, T>>,
        | #[trigger]
            before.session.reached_in(
                after.session,
                (before.session.timer.frames + 1) as u64,
                steps,
            ),
{
    assert(after.calls.take(before.calls.len() as int) =~= before.calls);
}

/// An export that was cancelled, or whose sink failed, is aborted and not finished; one that is
/// over is finished and not aborted.
pub proof fn law_an_export_is_finished_or_aborted<C: EmulatorCore, T: MonotonicTimestampProvider>(
    before: ExportState<C, T>,
    after: ExportState<C, T>,
    span: u64,
    layout: ScreenLayout,
    error: Option<export::ExportErrorModel>,
)
    requires
        before.ends(after, span, layout, error),
    ensures
        before.done < span && !before.session.playback.stalled ==> after.calls.last()
            == SinkCall::Abort && error is Some,
        !(before.done < span && !before.session.playback.stalled) ==> after.calls.last() == (
        SinkCall::Finish { error }),
        after.calls[before.calls.len() as int] == (SinkCall::Cancelled { answer: true })
            ==> error == Some(export::ExportErrorModel::Cancelled),
{
}

/// An export goes to the first frame of its range, begins the sink there, and puts out as many
/// pictures as the range has; one without any is finished at once, and one that cannot begin is
/// aborted.
pub proof fn law_an_export_goes_through_its_range<C: EmulatorCore, T: MonotonicTimestampProvider>(
    session: SuperShuckieCore<C, T>,
    after: SuperShuckieCore<C, T>,
    start: u64,
    end: u64,
    layout: ScreenLayout,
    calls: Seq<SinkCall>,
    calls_after: Seq<SinkCall>,
    error: Option<export::ExportErrorModel>,
)
    requires
        exported(session, after, start, end, layout, calls, calls_after, error),
    ensures
        exists|placed: SuperShuckieCore<C, T>, went: Result<(), String>| #[trigger]
            session.went_to_frame(placed, start, went) && (end <= start ==> after == placed),
        calls_after.last() is Finish || calls_after.last() is Abort,
        calls_after.last() is Abort ==> error is Some,
        end <= start && calls_after.last() is Finish ==> calls_after.len() == calls.len() + 3
            && calls_after[calls.len() as int] is Begin,
{
    let (placed, went, begun, began) = choose|
        placed: SuperShuckieCore<C, T>,
        went: Result<(), String>,
        begun: Seq<SinkCall>,
        began: Option<export::ExportErrorModel>,
    |
        #![trigger
            session.went_to_frame(placed, start, went),
            placed.begun(layout, calls, begun, began)]
        session.went_to_frame(placed, start, went) && placed.begun(layout, calls, begun, began)
            && match began {
            Some(e) => {
                &&& after == placed
                &&& error == Some(e)
                &&& calls_after == begun.push(SinkCall::Abort)
            },
            None => if end <= start {
                &&& after == placed
                &&& calls_after == begun + seq![
                    SinkCall::Progress { done: 0, total: 0 },
                    SinkCall::Finish { error },
                ]
            } else {
                pictures_out(
                    placed,
                    after,
                    (end - start) as u64,
                    layout,
                    begun,
                    calls_after,
                    error,
                )
            },
        };
    assert(session.went_to_frame(placed, start, went));
    if began is None && end > start {
        let (first, last, steps) = choose|
            first: ExportState<C, T>,
            last: ExportState<C, T>,
            steps: Seq<ExportState<C, T>>,
        | #[trigger]
            pictures_out_in(first, last, (end - start) as u64, layout, error, steps) && first == (
            ExportState { session: placed, calls: begun, done: 0u64 }) && last.session == after
                && last.calls == calls_after;
        law_an_export_is_finished_or_aborted(
            steps.last(),
            last,
            (end - start) as u64,
            layout,
            error,
        );
    }
}

/// On the way to a picture every run is drawn, as fast as it goes and unheard, and none begins at
/// the picture or behind it.
pub proof fn law_the_way_to_a_picture_is_drawn<C: EmulatorCore, T: MonotonicTimestampProvider>(
    before: SuperShuckieCore<C, T>,
    after: SuperShuckieCore<C, T>,
    target: u64,
    steps: Seq<SuperShuckieCore<C, T>>,
    i: int,
)
    requires
        before.reached_in(after, target, steps),
        0 <= i < steps.len() - 1,
    ensures
        steps[i].timer.frames < target && !steps[i].playback.stalled,
        steps[i].ran_drawing(steps[i + 1], false, true, false),
{
    let j = i + 1;
    assert(steps[i].nears(steps[j], target));
}

} // verus!
