//! Properties of the frame loop over whole runs, proved from the model.
use vstd::prelude::*;
use crate::clock::FrameClock;
use crate::model::{
    call_discipline, count_calls, created, draw_time, draws, is_cleanup, is_initialize,
    is_paced_draw, lemma_step_well_formed,
    paced_spacing, run, run_loop, start_step, step, LoopEvent, LoopModel, Phase, LoopCall,
    TimedEvent,
};

verus! {

/// Every state reached by handling events from a well-formed one is well
/// formed, with the same frame spacing.
pub proof fn lemma_run_well_formed(m: LoopModel, events: Seq<TimedEvent>)
    requires
        m.well_formed(),
    ensures
        run(m, events).well_formed(),
        run(m, events).clock.target == m.clock.target,
    decreases events.len(),
{
    if events.len() > 0 {
        let e = events[0];
        lemma_step_well_formed(m, e.event, e.at, e.draw_fails);
        lemma_run_well_formed(step(m, e.event, e.at, e.draw_fails), events.drop_first());
    }
}

/// Every whole run is well formed.
pub proof fn lemma_run_loop_well_formed(clock: FrameClock, init_fails: bool, events: Seq<TimedEvent>)
    ensures
        run_loop(clock, init_fails, events).well_formed(),
        run_loop(clock, init_fails, events).clock.target == clock.target,
{
    let m = start_step(created(clock), init_fails);
    if init_fails {
        assert(m.calls =~= seq![LoopCall::Initialize { succeeded: false }]);
    }
    lemma_run_well_formed(m, events);
}

/// No call satisfies `p`: none is counted.
pub proof fn lemma_count_none(calls: Seq<LoopCall>, p: spec_fn(LoopCall) -> bool)
    requires
        forall|i: int| 0 <= i < calls.len() ==> !p(#[trigger] calls[i]),
    ensures
        count_calls(calls, p) == 0,
    decreases calls.len(),
{
    if calls.len() > 0 {
        assert forall|i: int| 0 <= i < calls.drop_last().len() implies !p(
            #[trigger] calls.drop_last()[i],
        ) by {
            assert(calls.drop_last()[i] == calls[i]);
        }
        lemma_count_none(calls.drop_last(), p);
    }
}

/// Where only the first call may satisfy `p`, at most one does.
pub proof fn lemma_count_only_first(calls: Seq<LoopCall>, p: spec_fn(LoopCall) -> bool)
    requires
        forall|i: int| 0 <= i < calls.len() && p(#[trigger] calls[i]) ==> i == 0,
    ensures
        count_calls(calls, p) <= 1,
        calls.len() > 0 && p(calls[0]) ==> count_calls(calls, p) == 1,
    decreases calls.len(),
{
    if calls.len() > 0 {
        let d = calls.drop_last();
        assert forall|i: int| 0 <= i < d.len() && p(#[trigger] d[i]) implies i == 0 by {
            assert(d[i] == calls[i]);
        }
        lemma_count_only_first(d, p);
        if calls.len() == 1 {
            assert(d.len() == 0);
        } else {
            assert(d[0] == calls[0]);
        }
    }
}

/// Where only the last call may satisfy `p`, at most one does.
pub proof fn lemma_count_only_last(calls: Seq<LoopCall>, p: spec_fn(LoopCall) -> bool)
    requires
        forall|i: int| 0 <= i < calls.len() && p(#[trigger] calls[i]) ==> i == calls.len() - 1,
    ensures
        count_calls(calls, p) <= 1,
        calls.len() > 0 && p(calls.last()) ==> count_calls(calls, p) == 1,
{
    if calls.len() > 0 {
        let d = calls.drop_last();
        assert forall|i: int| 0 <= i < d.len() implies !p(#[trigger] d[i]) by {
            assert(d[i] == calls[i]);
        }
        lemma_count_none(d, p);
    }
}

/// In every run, `initialize` is called at most once and `cleanup` at most
/// once; `initialize` only ever as the first call, and `cleanup` only as the
/// last call, after an `initialize` that succeeded.
pub proof fn lemma_lifecycle_order(clock: FrameClock, init_fails: bool, events: Seq<TimedEvent>)
    ensures
        ({
            let calls = run_loop(clock, init_fails, events).calls;
            &&& count_calls(calls, |c: LoopCall| is_initialize(c)) <= 1
            &&& count_calls(calls, |c: LoopCall| is_cleanup(c)) <= 1
            &&& call_discipline(calls)
        }),
{
    lemma_run_loop_well_formed(clock, init_fails, events);
    let calls = run_loop(clock, init_fails, events).calls;
    lemma_count_only_first(calls, |c: LoopCall| is_initialize(c));
    lemma_count_only_last(calls, |c: LoopCall| is_cleanup(c));
}

/// A run that ends on a close request called `initialize` exactly once, as
/// its first call, and `cleanup` exactly once, as its last.
pub proof fn lemma_normal_close_handshake(clock: FrameClock, init_fails: bool, events: Seq<TimedEvent>)
    requires
        run_loop(clock, init_fails, events).phase == Phase::Closed,
    ensures
        ({
            let calls = run_loop(clock, init_fails, events).calls;
            &&& count_calls(calls, |c: LoopCall| is_initialize(c)) == 1
            &&& count_calls(calls, |c: LoopCall| is_cleanup(c)) == 1
            &&& calls[0] == (LoopCall::Initialize { succeeded: true })
            &&& calls.last() == LoopCall::Cleanup
        }),
{
    lemma_run_loop_well_formed(clock, init_fails, events);
    let calls = run_loop(clock, init_fails, events).calls;
    assert(is_cleanup(calls[calls.len() - 1]));
    lemma_count_only_first(calls, |c: LoopCall| is_initialize(c));
    lemma_count_only_last(calls, |c: LoopCall| is_cleanup(c));
}

/// In every run, any two paced draws lie at least the target frame duration
/// apart, in the order they were made; so do adjacent ones.
pub proof fn lemma_paced_draws_spaced(clock: FrameClock, init_fails: bool, events: Seq<TimedEvent>)
    ensures
        paced_spacing(run_loop(clock, init_fails, events).calls, clock.target),
{
    lemma_run_loop_well_formed(clock, init_fails, events);
}

/// The draw made for a repaint request leaves the frame clock as it was.
pub proof fn lemma_redraw_keeps_clock(m: LoopModel, now: u64, draw_fails: bool)
    ensures
        step(m, LoopEvent::RedrawRequested, now, draw_fails).clock == m.clock,
{
}

/// The model with no calls recorded yet.
pub open spec fn without_calls(m: LoopModel) -> LoopModel {
    LoopModel { calls: Seq::empty(), ..m }
}

/// Handling events appends to the calls made before, and what it appends,
/// the phase and the clock it reaches depend on the starting phase and
/// clock alone.
pub proof fn lemma_run_appends(m: LoopModel, events: Seq<TimedEvent>)
    ensures
        run(m, events).phase == run(without_calls(m), events).phase,
        run(m, events).clock == run(without_calls(m), events).clock,
        run(m, events).calls =~= m.calls + run(without_calls(m), events).calls,
    decreases events.len(),
{
    if events.len() > 0 {
        let e = events[0];
        let s = step(m, e.event, e.at, e.draw_fails);
        let b = step(without_calls(m), e.event, e.at, e.draw_fails);
        assert(s.calls =~= m.calls + b.calls);
        assert(without_calls(s) == without_calls(b));
        lemma_run_appends(s, events.drop_first());
        lemma_run_appends(b, events.drop_first());
        assert(run(s, events.drop_first()).calls =~= m.calls + run(b, events.drop_first()).calls);
    } else {
        assert(without_calls(m).calls =~= Seq::<LoopCall>::empty());
    }
}

/// Replaying the same events, with the same clock readings and the same
/// renderer outcomes, on two loops in the same phase with the same clock
/// makes the same renderer calls and ends in the same phase and clock.
pub proof fn lemma_replay_same_calls(m1: LoopModel, m2: LoopModel, events: Seq<TimedEvent>)
    requires
        m1.phase == m2.phase,
        m1.clock == m2.clock,
    ensures
        run(m1, events).phase == run(m2, events).phase,
        run(m1, events).clock == run(m2, events).clock,
        run(m1, events).calls.subrange(m1.calls.len() as int, run(m1, events).calls.len() as int)
            == run(m2, events).calls.subrange(
            m2.calls.len() as int,
            run(m2, events).calls.len() as int,
        ),
{
    lemma_run_appends(m1, events);
    lemma_run_appends(m2, events);
    assert(without_calls(m1) == without_calls(m2));
    let added = run(without_calls(m1), events).calls;
    assert(run(m1, events).calls.subrange(m1.calls.len() as int, run(m1, events).calls.len() as int)
        =~= added);
    assert(run(m2, events).calls.subrange(m2.calls.len() as int, run(m2, events).calls.len() as int)
        =~= added);
}

/// A tick exactly one target duration after the last paced frame draws a
/// paced frame and moves the clock to it.
pub proof fn lemma_draws_at_exact_target(m: LoopModel, draw_fails: bool)
    requires
        m.phase == Phase::Running,
        m.clock.last_frame + m.clock.target <= u64::MAX,
    ensures
        ({
            let now = (m.clock.last_frame + m.clock.target) as u64;
            let s = step(m, LoopEvent::MainEventsCleared, now, draw_fails);
            &&& draws(m, LoopEvent::MainEventsCleared, now)
            &&& s.calls[m.calls.len() as int] == (LoopCall::DrawFrame {
                paced: true,
                at: now,
                succeeded: !draw_fails,
            })
            &&& s.clock.last_frame == now
        }),
{
}

/// A second close request right after a first one calls nothing: the
/// renderer is cleaned up once.
pub proof fn lemma_second_close_ignored(m: LoopModel, t1: u64, t2: u64, f1: bool, f2: bool)
    requires
        m.well_formed(),
    ensures
        ({
            let m1 = step(m, LoopEvent::CloseRequested, t1, f1);
            &&& step(m1, LoopEvent::CloseRequested, t2, f2) == m1
            &&& m.phase == Phase::Running ==> m1.calls == m.calls.push(LoopCall::Cleanup)
            &&& forall|i: int| 0 <= i < m1.calls.len() - 1 ==> !#[trigger] is_cleanup(m1.calls[i])
        }),
{
    lemma_step_well_formed(m, LoopEvent::CloseRequested, t1, f1);
}

/// The instants of the paced draws in a record, in order.
pub open spec fn paced_times(calls: Seq<LoopCall>) -> Seq<u64>
    decreases calls.len(),
{
    if calls.len() == 0 {
        Seq::empty()
    } else {
        let before = paced_times(calls.drop_last());
        if is_paced_draw(calls.last()) {
            before.push(draw_time(calls.last()))
        } else {
            before
        }
    }
}

/// The events with the repaint requests taken out.
pub open spec fn without_redraws(events: Seq<TimedEvent>) -> Seq<TimedEvent>
    decreases events.len(),
{
    if events.len() == 0 {
        events
    } else {
        let rest = without_redraws(events.drop_first());
        if events[0].event == LoopEvent::RedrawRequested {
            rest
        } else {
            seq![events[0]] + rest
        }
    }
}

/// Every repaint request among the events draws successfully.
pub open spec fn redraws_succeed(events: Seq<TimedEvent>) -> bool {
    forall|i: int|
        0 <= i < events.len() && (#[trigger] events[i]).event == LoopEvent::RedrawRequested
            ==> !events[i].draw_fails
}

proof fn lemma_paced_times_push(calls: Seq<LoopCall>, c: LoopCall)
    ensures
        paced_times(calls.push(c)) == if is_paced_draw(c) {
            paced_times(calls).push(draw_time(c))
        } else {
            paced_times(calls)
        },
{
    assert(calls.push(c).drop_last() =~= calls);
}

/// Two states with the same phase, clock and paced-draw instants stay so
/// after the same event.
proof fn lemma_step_same_pacing(
    m1: LoopModel,
    m2: LoopModel,
    event: LoopEvent,
    now: u64,
    draw_fails: bool,
)
    requires
        m1.phase == m2.phase,
        m1.clock == m2.clock,
        paced_times(m1.calls) == paced_times(m2.calls),
    ensures
        ({
            let s1 = step(m1, event, now, draw_fails);
            let s2 = step(m2, event, now, draw_fails);
            &&& s1.phase == s2.phase
            &&& s1.clock == s2.clock
            &&& paced_times(s1.calls) == paced_times(s2.calls)
        }),
{
    let c = LoopCall::DrawFrame {
        paced: event == LoopEvent::MainEventsCleared,
        at: now,
        succeeded: !draw_fails,
    };
    lemma_paced_times_push(m1.calls, c);
    lemma_paced_times_push(m2.calls, c);
    lemma_paced_times_push(m1.calls.push(c), LoopCall::Cleanup);
    lemma_paced_times_push(m2.calls.push(c), LoopCall::Cleanup);
    lemma_paced_times_push(m1.calls, LoopCall::Cleanup);
    lemma_paced_times_push(m2.calls, LoopCall::Cleanup);
}

proof fn lemma_redraws_keep_pacing_from(m1: LoopModel, m2: LoopModel, events: Seq<TimedEvent>)
    requires
        m1.phase == m2.phase,
        m1.clock == m2.clock,
        paced_times(m1.calls) == paced_times(m2.calls),
        redraws_succeed(events),
    ensures
        ({
            let a = run(m1, events);
            let b = run(m2, without_redraws(events));
            &&& a.phase == b.phase
            &&& a.clock == b.clock
            &&& paced_times(a.calls) == paced_times(b.calls)
        }),
    decreases events.len(),
{
    if events.len() > 0 {
        let e = events[0];
        let rest = events.drop_first();
        assert forall|i: int|
            0 <= i < rest.len() && (#[trigger] rest[i]).event
                == LoopEvent::RedrawRequested implies !rest[i].draw_fails by {
            assert(rest[i] == events[i + 1]);
        }
        let s1 = step(m1, e.event, e.at, e.draw_fails);
        if e.event == LoopEvent::RedrawRequested {
            assert(!e.draw_fails);
            lemma_paced_times_push(
                m1.calls,
                LoopCall::DrawFrame { paced: false, at: e.at, succeeded: true },
            );
            lemma_redraws_keep_pacing_from(s1, m2, rest);
        } else {
            let s2 = step(m2, e.event, e.at, e.draw_fails);
            lemma_step_same_pacing(m1, m2, e.event, e.at, e.draw_fails);
            lemma_redraws_keep_pacing_from(s1, s2, rest);
            let kept = seq![e] + without_redraws(rest);
            assert(kept[0] == e);
            assert(kept.drop_first() =~= without_redraws(rest));
        }
    }
}

/// Taking the repaint requests out of a run whose repaint draws all
/// succeed changes neither the instants of its paced draws nor the phase
/// and clock it ends in: a draw for a repaint never moves the frame clock.
pub proof fn lemma_redraws_do_not_move_paced_draws(
    clock: FrameClock,
    init_fails: bool,
    events: Seq<TimedEvent>,
)
    requires
        redraws_succeed(events),
    ensures
        ({
            let a = run_loop(clock, init_fails, events);
            let b = run_loop(clock, init_fails, without_redraws(events));
            &&& paced_times(a.calls) == paced_times(b.calls)
            &&& a.phase == b.phase
            &&& a.clock == b.clock
        }),
{
    let m = start_step(created(clock), init_fails);
    lemma_redraws_keep_pacing_from(m, m, events);
}

} // verus!
