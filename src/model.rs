//! The mathematical model of the frame loop: its phases, the renderer calls
//! it has made, and how each event moves it.
use vstd::prelude::*;
use crate::clock::FrameClock;
use crate::renderer::RendererCall;

verus! {

/// The events the window delivers to the frame loop.
#[derive(PartialEq, Eq, Structural, Clone, Copy, Debug)]
pub enum LoopEvent {
    /// The event queue is drained: a frame-tick opportunity.
    MainEventsCleared,
    /// The window asked to be repainted.
    RedrawRequested,
    /// The user asked to close the window.
    CloseRequested,
    /// Any other event; the loop ignores it.
    Other,
}

/// What the event pump should do after an event.
#[derive(PartialEq, Eq, Structural, Clone, Copy, Debug)]
pub enum LoopControl {
    Continue,
    Exit,
}

/// Where a frame loop stands in the renderer's lifecycle.
#[derive(PartialEq, Eq, Structural, Clone, Copy, Debug)]
pub enum Phase {
    /// The renderer has not been initialized yet.
    Created,
    /// The renderer was initialized and draws frames.
    Running,
    /// The window was closed and the renderer cleaned up.
    Closed,
    /// A frame failed to render and the renderer was cleaned up.
    RenderFailed,
    /// The renderer failed to initialize; it is never cleaned up.
    InitFailed,
}

/// The loop's answer to one event that did not end in a render error.
#[derive(PartialEq, Eq, Structural, Clone, Copy, Debug)]
pub struct FrameStep {
    pub control: LoopControl,
    /// Whether the window should be asked to repaint.
    pub request_redraw: bool,
}

/// One call the frame loop made on its renderer, with the loop's notes on
/// a draw: whether the clock gated it, and the instant it was made at.
pub enum LoopCall {
    Initialize { succeeded: bool },
    DrawFrame { paced: bool, at: u64, succeeded: bool },
    Cleanup,
}

pub open spec fn is_initialize(c: LoopCall) -> bool {
    c is Initialize
}

pub open spec fn is_cleanup(c: LoopCall) -> bool {
    c is Cleanup
}

/// A draw gated by the frame clock (not one asked for by the window).
pub open spec fn is_paced_draw(c: LoopCall) -> bool {
    match c {
        LoopCall::DrawFrame { paced, .. } => paced,
        _ => false,
    }
}

/// The instant of a draw.
pub open spec fn draw_time(c: LoopCall) -> u64 {
    match c {
        LoopCall::DrawFrame { at, .. } => at,
        _ => 0,
    }
}

/// A call of the loop's record as the renderer sees it, without the
/// loop's own notes on it.
pub open spec fn as_renderer_call(c: LoopCall) -> RendererCall {
    match c {
        LoopCall::Initialize { succeeded } => RendererCall::Initialize { succeeded },
        LoopCall::DrawFrame { succeeded, .. } => RendererCall::DrawFrame { succeeded },
        LoopCall::Cleanup => RendererCall::Cleanup,
    }
}

/// The loop's record of calls as the renderer sees them.
pub open spec fn renderer_calls(calls: Seq<LoopCall>) -> Seq<RendererCall> {
    calls.map_values(|c: LoopCall| as_renderer_call(c))
}

/// One event with the instant it was handled at and, where it makes the
/// loop draw, whether the renderer's `draw_frame` fails.
pub struct TimedEvent {
    pub event: LoopEvent,
    pub at: u64,
    pub draw_fails: bool,
}

/// The abstract state of a frame loop.
pub struct LoopModel {
    pub phase: Phase,
    pub clock: FrameClock,
    /// Every renderer call made so far, in order.
    pub calls: Seq<LoopCall>,
}

/// A loop that has not called its renderer yet.
pub open spec fn created(clock: FrameClock) -> LoopModel {
    LoopModel { phase: Phase::Created, clock, calls: Seq::empty() }
}

/// The effect of initializing the renderer of a loop in `Created`.
pub open spec fn start_step(m: LoopModel, init_fails: bool) -> LoopModel {
    if m.phase != Phase::Created {
        m
    } else {
        LoopModel {
            phase: if init_fails { Phase::InitFailed } else { Phase::Running },
            calls: m.calls.push(LoopCall::Initialize { succeeded: !init_fails }),
            ..m
        }
    }
}

/// Whether handling `event` at `now` makes the loop call `draw_frame`.
pub open spec fn draws(m: LoopModel, event: LoopEvent, now: u64) -> bool {
    m.phase == Phase::Running && (event == LoopEvent::RedrawRequested || (event
        == LoopEvent::MainEventsCleared && m.clock.due_at(now)))
}

/// A draw of a running loop; on failure the renderer is cleaned up at once
/// and the loop ends.
pub open spec fn after_draw(m: LoopModel, paced: bool, now: u64, fails: bool) -> LoopModel {
    let calls = m.calls.push(LoopCall::DrawFrame { paced, at: now, succeeded: !fails });
    if fails {
        LoopModel { phase: Phase::RenderFailed, calls: calls.push(LoopCall::Cleanup), ..m }
    } else {
        LoopModel { calls, ..m }
    }
}

/// The effect of one event handled at `now`; `draw_fails` is the outcome of
/// `draw_frame` where the event makes the loop draw. A loop that is not
/// running ignores every event.
pub open spec fn step(m: LoopModel, event: LoopEvent, now: u64, draw_fails: bool) -> LoopModel {
    if m.phase != Phase::Running {
        m
    } else {
        match event {
            LoopEvent::MainEventsCleared => {
                if m.clock.due_at(now) {
                    after_draw(
                        LoopModel { clock: FrameClock { last_frame: now, ..m.clock }, ..m },
                        true,
                        now,
                        draw_fails,
                    )
                } else {
                    m
                }
            },
            LoopEvent::RedrawRequested => after_draw(m, false, now, draw_fails),
            LoopEvent::CloseRequested => LoopModel {
                phase: Phase::Closed,
                calls: m.calls.push(LoopCall::Cleanup),
                ..m
            },
            LoopEvent::Other => m,
        }
    }
}

/// What the pump is told after an event that did not end in a render error.
pub open spec fn step_answer(m: LoopModel, event: LoopEvent, now: u64) -> FrameStep {
    if m.phase != Phase::Running {
        FrameStep { control: LoopControl::Exit, request_redraw: false }
    } else {
        match event {
            LoopEvent::MainEventsCleared => FrameStep {
                control: LoopControl::Continue,
                request_redraw: m.clock.due_at(now),
            },
            LoopEvent::CloseRequested => FrameStep { control: LoopControl::Exit, request_redraw: false },
            _ => FrameStep { control: LoopControl::Continue, request_redraw: false },
        }
    }
}

/// The state after handling the events in order.
pub open spec fn run(m: LoopModel, events: Seq<TimedEvent>) -> LoopModel
    decreases events.len(),
{
    if events.len() == 0 {
        m
    } else {
        run(step(m, events[0].event, events[0].at, events[0].draw_fails), events.drop_first())
    }
}

/// A whole run: a loop made with `clock`, its renderer initialized, then
/// the events handled in order.
pub open spec fn run_loop(clock: FrameClock, init_fails: bool, events: Seq<TimedEvent>) -> LoopModel {
    run(start_step(created(clock), init_fails), events)
}

/// How many of the calls satisfy `p`.
pub open spec fn count_calls(calls: Seq<LoopCall>, p: spec_fn(LoopCall) -> bool) -> nat
    decreases calls.len(),
{
    if calls.len() == 0 {
        0
    } else {
        count_calls(calls.drop_last(), p) + if p(calls.last()) {
            1nat
        } else {
            0nat
        }
    }
}

/// The order of the renderer's lifecycle: `initialize` only as the first
/// call; `cleanup` only as the last call, after an `initialize` that
/// succeeded.
pub open spec fn call_discipline(calls: Seq<LoopCall>) -> bool {
    &&& forall|i: int| 0 <= i < calls.len() && #[trigger] is_initialize(calls[i]) ==> i == 0
    &&& forall|i: int|
        0 <= i < calls.len() && #[trigger] is_cleanup(calls[i]) ==> i == calls.len() - 1 && i > 0
            && calls[0] == (LoopCall::Initialize { succeeded: true })
}

/// Any two paced draws, in the order they were made, lie at least the
/// clock's target apart.
pub open spec fn paced_spacing(calls: Seq<LoopCall>, target: u64) -> bool {
    forall|i: int, j: int|
        0 <= i < j < calls.len() && #[trigger] is_paced_draw(calls[i]) && #[trigger] is_paced_draw(
            calls[j],
        ) ==> draw_time(calls[j]) >= draw_time(calls[i]) + target
}

impl LoopModel {
    /// The invariant of every reachable state.
    pub open spec fn well_formed(self) -> bool {
        &&& call_discipline(self.calls)
        &&& paced_spacing(self.calls, self.clock.target)
        &&& forall|i: int|
            0 <= i < self.calls.len() && #[trigger] is_paced_draw(self.calls[i]) ==> draw_time(
                self.calls[i],
            ) <= self.clock.last_frame
        &&& match self.phase {
            Phase::Created => self.calls.len() == 0,
            Phase::InitFailed => self.calls =~= seq![LoopCall::Initialize { succeeded: false }],
            Phase::Running => {
                &&& self.calls.len() >= 1
                &&& self.calls[0] == (LoopCall::Initialize { succeeded: true })
                &&& forall|i: int| 0 <= i < self.calls.len() ==> !#[trigger] is_cleanup(self.calls[i])
            },
            Phase::Closed => {
                &&& self.calls.len() >= 2
                &&& self.calls.last() == LoopCall::Cleanup
            },
            Phase::RenderFailed => {
                &&& self.calls.len() >= 3
                &&& self.calls.last() == LoopCall::Cleanup
                &&& self.calls[self.calls.len() - 2] is DrawFrame
                &&& !self.calls[self.calls.len() - 2]->DrawFrame_succeeded
            },
        }
    }
}

} // verus!

verus! {

/// Appending a call that is not a paced draw, or a paced draw at least the
/// target after every paced draw before it, keeps the spacing of paced
/// draws.
pub proof fn lemma_push_keeps_spacing(calls: Seq<LoopCall>, c: LoopCall, target: u64)
    requires
        paced_spacing(calls, target),
        is_paced_draw(c) ==> forall|i: int|
            0 <= i < calls.len() && #[trigger] is_paced_draw(calls[i]) ==> draw_time(c)
                >= draw_time(calls[i]) + target,
    ensures
        paced_spacing(calls.push(c), target),
{
    let s = calls.push(c);
    assert forall|i: int, j: int|
        0 <= i < j < s.len() && #[trigger] is_paced_draw(s[i]) && #[trigger] is_paced_draw(
            s[j],
        ) implies draw_time(s[j]) >= draw_time(s[i]) + target by {
        assert(s[i] == calls[i]);
        if j < calls.len() {
            assert(s[j] == calls[j]);
        }
    }
}

/// Every event keeps a state well formed.
pub proof fn lemma_step_well_formed(m: LoopModel, event: LoopEvent, now: u64, draw_fails: bool)
    requires
        m.well_formed(),
    ensures
        step(m, event, now, draw_fails).well_formed(),
{
    if m.phase == Phase::Running {
        let t = m.clock.target;
        let paced = event == LoopEvent::MainEventsCleared;
        let drawn = event == LoopEvent::RedrawRequested || (paced && m.clock.due_at(now));
        if drawn {
            let c = LoopCall::DrawFrame { paced, at: now, succeeded: !draw_fails };
            lemma_push_keeps_spacing(m.calls, c, t);
            let calls = m.calls.push(c);
            assert(calls[0] == m.calls[0]);
            if draw_fails {
                lemma_push_keeps_spacing(calls, LoopCall::Cleanup, t);
                let calls2 = calls.push(LoopCall::Cleanup);
                assert(calls2[calls2.len() - 2] == c);
                assert(calls2[0] == m.calls[0]);
            }
        } else if event == LoopEvent::CloseRequested {
            lemma_push_keeps_spacing(m.calls, LoopCall::Cleanup, t);
            assert(m.calls.push(LoopCall::Cleanup)[0] == m.calls[0]);
        }
    }
}

} // verus!
