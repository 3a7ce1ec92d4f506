//! The frame loop: it turns the window's events into paced renderer calls
//! and a clean shutdown. The event pump itself runs outside; it hands each
//! event here with the instant it was handled at and acts on the answer.
use vstd::prelude::*;
use crate::clock::FrameClock;
use crate::model::{
    after_draw, as_renderer_call, created, draws, renderer_calls, start_step, step, step_answer,
    FrameStep, LoopCall, LoopControl, LoopEvent, LoopModel, Phase,
};
use crate::renderer::{BackendError, Renderer, RendererCall};

verus! {

/// Why a frame loop ended on an error.
pub enum LoopError {
    /// The renderer failed to initialize; it was not cleaned up.
    Init(BackendError),
    /// A frame failed to render; the renderer was cleaned up.
    Render(BackendError),
}

/// The scheduler: it owns the renderer and the frame clock for the whole
/// life of the loop.
pub struct FrameLoop<R: Renderer> {
    renderer: R,
    clock: FrameClock,
    phase: Phase,
    /// The loop's record of its renderer calls, with its notes on each draw.
    calls: Ghost<Seq<LoopCall>>,
    /// The renderer's history from before the loop took it over.
    prior: Ghost<Seq<RendererCall>>,
}

impl<R: Renderer> View for FrameLoop<R> {
    type V = LoopModel;

    closed spec fn view(&self) -> LoopModel {
        LoopModel { phase: self.phase, clock: self.clock, calls: self.calls@ }
    }
}

/// Appending one call to the record appends it, as the renderer sees it, to
/// the renderer's view of the record.
proof fn lemma_renderer_calls_push(calls: Seq<LoopCall>, c: LoopCall)
    ensures
        renderer_calls(calls.push(c)) == renderer_calls(calls).push(as_renderer_call(c)),
{
    assert(renderer_calls(calls.push(c)) =~= renderer_calls(calls).push(as_renderer_call(c)));
}

impl<R: Renderer> FrameLoop<R> {
    /// The history of the renderer the loop owns.
    pub closed spec fn renderer_history(&self) -> Seq<RendererCall> {
        self.renderer.history()
    }

    /// The loop's invariant: its model is well formed, and the renderer's
    /// history is what it was when the loop took it over followed by the
    /// loop's record of calls.
    pub closed spec fn inv(&self) -> bool {
        &&& self@.well_formed()
        &&& self.renderer.history() == self.prior@ + renderer_calls(self.calls@)
    }

    /// A loop over `renderer`, paced by `clock`; the renderer is not
    /// initialized yet.
    pub fn with_clock(renderer: R, clock: FrameClock) -> (r: FrameLoop<R>)
        ensures
            r@ == created(clock),
            r@.well_formed(),
            r.inv(),
            r.renderer_history() == renderer.history(),
    {
        let ghost prior = renderer.history();
        let r = FrameLoop {
            renderer,
            clock,
            phase: Phase::Created,
            calls: Ghost(Seq::empty()),
            prior: Ghost(prior),
        };
        assert(renderer_calls(Seq::<LoopCall>::empty()) =~= Seq::<RendererCall>::empty());
        assert(prior + Seq::<RendererCall>::empty() =~= prior);
        r
    }

    /// A loop over `renderer` whose clock starts at `now`, paced at 60 Hz.
    pub fn new(renderer: R, now: u64) -> (r: FrameLoop<R>)
        ensures
            r@ == created(FrameClock { last_frame: now, target: crate::clock::DEFAULT_TARGET_FRAME_NANOS }),
            r@.well_formed(),
            r.inv(),
            r.renderer_history() == renderer.history(),
    {
        let clock = FrameClock::new(now);
        FrameLoop::with_clock(renderer, clock)
    }

    pub fn phase(&self) -> (r: Phase)
        ensures
            r == self@.phase,
    {
        self.phase
    }

    pub fn clock(&self) -> (r: FrameClock)
        ensures
            r == self@.clock,
    {
        self.clock
    }

    /// Initializes the renderer. On failure the loop ends without cleanup,
    /// since nothing was acquired.
    pub fn start(&mut self) -> (r: Result<(), LoopError>)
        requires
            old(self)@.phase == Phase::Created,
            old(self).inv(),
        ensures
            final(self)@ == start_step(old(self)@, r is Err),
            final(self)@.well_formed(),
            final(self).inv(),
            final(self).renderer_history() == old(self).renderer_history().push(
                RendererCall::Initialize { succeeded: r is Ok },
            ),
            r is Err ==> r->Err_0 is Init,
    {
        let res = self.renderer.initialize();
        let ghost c = LoopCall::Initialize { succeeded: res.is_ok() };
        proof {
            lemma_renderer_calls_push(self.calls@, c);
        }
        self.calls = Ghost(self.calls@.push(c));
        match res {
            Ok(()) => {
                self.phase = Phase::Running;
                Ok(())
            },
            Err(e) => {
                self.phase = Phase::InitFailed;
                assert(self.calls@ =~= seq![LoopCall::Initialize { succeeded: false }]);
                Err(LoopError::Init(e))
            },
        }
    }

    /// Calls `draw_frame`; on failure cleans the renderer up and ends the
    /// loop.
    fn draw(&mut self, paced: bool, now: u64) -> (r: Result<(), BackendError>)
        requires
            old(self)@.phase == Phase::Running,
            old(self).renderer.history() == old(self).prior@ + renderer_calls(old(self).calls@),
        ensures
            final(self)@ == after_draw(old(self)@, paced, now, r is Err),
            final(self).renderer.history() == final(self).prior@ + renderer_calls(
                final(self).calls@,
            ),
            final(self).prior@ == old(self).prior@,
    {
        let res = self.renderer.draw_frame();
        let ghost c = LoopCall::DrawFrame { paced, at: now, succeeded: res.is_ok() };
        proof {
            lemma_renderer_calls_push(self.calls@, c);
        }
        self.calls = Ghost(self.calls@.push(c));
        match res {
            Ok(()) => Ok(()),
            Err(e) => {
                self.renderer.cleanup();
                proof {
                    lemma_renderer_calls_push(self.calls@, LoopCall::Cleanup);
                }
                self.calls = Ghost(self.calls@.push(LoopCall::Cleanup));
                self.phase = Phase::RenderFailed;
                Err(e)
            },
        }
    }

    /// Handles one event delivered at `now`.
    ///
    /// A tick draws a paced frame when the clock says one is due, and then
    /// asks for a repaint; a repaint request draws a frame without touching
    /// the clock; a close request cleans the renderer up and ends the loop.
    /// A render error cleans the renderer up, ends the loop and comes back
    /// as `Err`. A loop that is not running calls nothing and asks to exit.
    /// The calls the renderer receives are exactly the ones the model adds
    /// to the record.
    pub fn handle_event(&mut self, event: LoopEvent, now: u64) -> (r: Result<FrameStep, LoopError>)
        requires
            old(self).inv(),
        ensures
            final(self)@ == step(old(self)@, event, now, r is Err),
            final(self)@.well_formed(),
            final(self).inv(),
            final(self).renderer_history() == old(self).renderer_history() + renderer_calls(
                final(self)@.calls.skip(old(self)@.calls.len() as int),
            ),
            r is Ok ==> r->Ok_0 == step_answer(old(self)@, event, now),
            r is Err ==> draws(old(self)@, event, now) && r->Err_0 is Render,
    {
        let ghost m0 = self@;
        let ghost prior = self.prior@;
        if self.phase != Phase::Running {
            assert(self@.calls.skip(m0.calls.len() as int) =~= Seq::<LoopCall>::empty());
            assert(renderer_calls(Seq::<LoopCall>::empty()) =~= Seq::<RendererCall>::empty());
            assert(self.renderer.history() + Seq::<RendererCall>::empty() =~= self.renderer.history());
            return Ok(FrameStep { control: LoopControl::Exit, request_redraw: false });
        }
        let r = match event {
            LoopEvent::MainEventsCleared => {
                if self.clock.is_due(now) {
                    self.clock.last_frame = now;
                    match self.draw(true, now) {
                        Ok(()) => Ok(FrameStep { control: LoopControl::Continue, request_redraw: true }),
                        Err(e) => Err(LoopError::Render(e)),
                    }
                } else {
                    Ok(FrameStep { control: LoopControl::Continue, request_redraw: false })
                }
            },
            LoopEvent::RedrawRequested => {
                match self.draw(false, now) {
                    Ok(()) => Ok(FrameStep { control: LoopControl::Continue, request_redraw: false }),
                    Err(e) => Err(LoopError::Render(e)),
                }
            },
            LoopEvent::CloseRequested => {
                self.renderer.cleanup();
                proof {
                    lemma_renderer_calls_push(self.calls@, LoopCall::Cleanup);
                }
                self.calls = Ghost(self.calls@.push(LoopCall::Cleanup));
                self.phase = Phase::Closed;
                Ok(FrameStep { control: LoopControl::Exit, request_redraw: false })
            },
            LoopEvent::Other => Ok(FrameStep { control: LoopControl::Continue, request_redraw: false }),
        };
        proof {
            crate::model::lemma_step_well_formed(m0, event, now, r is Err);
            let added = self@.calls.skip(m0.calls.len() as int);
            assert(self@.calls =~= m0.calls + added);
            assert(renderer_calls(m0.calls + added) =~= renderer_calls(m0.calls) + renderer_calls(added));
            assert(prior + (renderer_calls(m0.calls) + renderer_calls(added)) =~= (prior + renderer_calls(m0.calls)) + renderer_calls(added));
        }
        r
    }
}

} // verus!
