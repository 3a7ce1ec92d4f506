use std::cell::{Cell, RefCell};
use std::rc::Rc;

use game_engine::{
    BackendError, FrameClock, FrameLoop, FrameStep, LoopControl, LoopError, LoopEvent, Phase,
    Renderer, DEFAULT_TARGET_FRAME_NANOS,
};

const MS: u64 = 1_000_000;

/// A renderer that records its calls and fails where it is told to.
struct Mock {
    log: Rc<RefCell<Vec<String>>>,
    fail_init: bool,
    fail_draw: Option<usize>,
    draws: Cell<usize>,
}

impl Mock {
    fn new(log: &Rc<RefCell<Vec<String>>>) -> Mock {
        Mock { log: log.clone(), fail_init: false, fail_draw: None, draws: Cell::new(0) }
    }
}

impl Renderer for Mock {
    fn initialize(&mut self) -> Result<(), BackendError> {
        if self.fail_init {
            self.log.borrow_mut().push("initialize(err)".to_string());
            Err(BackendError::new("no device".to_string()))
        } else {
            self.log.borrow_mut().push("initialize".to_string());
            Ok(())
        }
    }

    fn draw_frame(&mut self) -> Result<(), BackendError> {
        let n = self.draws.get() + 1;
        self.draws.set(n);
        if self.fail_draw == Some(n) {
            self.log.borrow_mut().push("draw_frame(err)".to_string());
            Err(BackendError::new("device lost".to_string()))
        } else {
            self.log.borrow_mut().push("draw_frame".to_string());
            Ok(())
        }
    }

    fn cleanup(&mut self) {
        self.log.borrow_mut().push("cleanup".to_string());
    }
}

fn trace(log: &Rc<RefCell<Vec<String>>>) -> Vec<String> {
    log.borrow().clone()
}

fn expect(names: &[&str]) -> Vec<String> {
    names.iter().map(|s| s.to_string()).collect()
}

/// Starts a loop at t = 0 and feeds it the events; returns how many ended
/// in a render error.
fn drive(mock: Mock, events: &[(LoopEvent, u64)]) -> (FrameLoop<Mock>, usize) {
    let mut l = FrameLoop::new(mock, 0);
    let mut errors = 0;
    if l.start().is_ok() {
        for (e, t) in events {
            if l.handle_event(*e, *t).is_err() {
                errors += 1;
            }
        }
    }
    (l, errors)
}

#[test]
fn clean_startup_and_shutdown() {
    let log = Rc::new(RefCell::new(Vec::new()));
    let (l, errors) =
        drive(Mock::new(&log), &[(LoopEvent::MainEventsCleared, 0), (LoopEvent::CloseRequested, 0)]);
    assert_eq!(trace(&log), expect(&["initialize", "cleanup"]));
    assert_eq!(errors, 0);
    assert_eq!(l.phase(), Phase::Closed);
}

#[test]
fn one_paced_frame() {
    let log = Rc::new(RefCell::new(Vec::new()));
    let (l, _) = drive(
        Mock::new(&log),
        &[(LoopEvent::MainEventsCleared, 17 * MS), (LoopEvent::CloseRequested, 18 * MS)],
    );
    assert_eq!(trace(&log), expect(&["initialize", "draw_frame", "cleanup"]));
    assert_eq!(l.clock().last_frame, 17 * MS);
}

#[test]
fn redraw_does_not_perturb_pacing() {
    let log = Rc::new(RefCell::new(Vec::new()));
    let (l, _) = drive(
        Mock::new(&log),
        &[
            (LoopEvent::MainEventsCleared, 17 * MS),
            (LoopEvent::RedrawRequested, 18 * MS),
            (LoopEvent::MainEventsCleared, 20 * MS),
            (LoopEvent::CloseRequested, 40 * MS),
        ],
    );
    assert_eq!(trace(&log), expect(&["initialize", "draw_frame", "draw_frame", "cleanup"]));
    assert_eq!(l.clock().last_frame, 17 * MS);
}

#[test]
fn paced_frames_at_sixty_hz() {
    let log = Rc::new(RefCell::new(Vec::new()));
    let mut events: Vec<(LoopEvent, u64)> =
        (1..=600u64).map(|k| (LoopEvent::MainEventsCleared, k * 16_667_000)).collect();
    events.push((LoopEvent::CloseRequested, 10_100 * MS));
    let (l, errors) = drive(Mock::new(&log), &events);
    let t = trace(&log);
    assert_eq!(t.iter().filter(|c| *c == "draw_frame").count(), 600);
    assert_eq!(t.iter().filter(|c| *c == "cleanup").count(), 1);
    assert_eq!(t.last().map(|s| s.as_str()), Some("cleanup"));
    assert_eq!(errors, 0);
    assert_eq!(l.phase(), Phase::Closed);
}

#[test]
fn render_error_exits_with_cleanup() {
    let log = Rc::new(RefCell::new(Vec::new()));
    let mut mock = Mock::new(&log);
    mock.fail_draw = Some(3);
    let mut events: Vec<(LoopEvent, u64)> =
        (1..=5u64).map(|k| (LoopEvent::MainEventsCleared, k * 17 * MS)).collect();
    events.push((LoopEvent::CloseRequested, 100 * MS));
    let (l, errors) = drive(mock, &events);
    assert_eq!(
        trace(&log),
        expect(&["initialize", "draw_frame", "draw_frame", "draw_frame(err)", "cleanup"])
    );
    assert_eq!(errors, 1);
    assert_eq!(l.phase(), Phase::RenderFailed);
}

#[test]
fn render_error_is_reported_as_render() {
    let log = Rc::new(RefCell::new(Vec::new()));
    let mut mock = Mock::new(&log);
    mock.fail_draw = Some(1);
    let mut l = FrameLoop::new(mock, 0);
    assert!(l.start().is_ok());
    match l.handle_event(LoopEvent::RedrawRequested, 1 * MS) {
        Err(LoopError::Render(e)) => assert_eq!(e.message, "device lost"),
        _ => panic!("expected a render error"),
    }
    assert_eq!(trace(&log), expect(&["initialize", "draw_frame(err)", "cleanup"]));
    // The loop has ended: later events call nothing and ask to exit.
    let after = l.handle_event(LoopEvent::CloseRequested, 2 * MS);
    assert!(matches!(
        after,
        Ok(FrameStep { control: LoopControl::Exit, request_redraw: false })
    ));
    assert_eq!(trace(&log).len(), 3);
}

#[test]
fn init_failure_no_cleanup() {
    let log = Rc::new(RefCell::new(Vec::new()));
    let mut mock = Mock::new(&log);
    mock.fail_init = true;
    let mut l = FrameLoop::new(mock, 0);
    match l.start() {
        Err(LoopError::Init(e)) => assert_eq!(e.message, "no device"),
        _ => panic!("expected an init error"),
    }
    assert_eq!(l.phase(), Phase::InitFailed);
    for (e, t) in [
        (LoopEvent::MainEventsCleared, 20 * MS),
        (LoopEvent::RedrawRequested, 21 * MS),
        (LoopEvent::CloseRequested, 22 * MS),
    ] {
        assert!(matches!(
            l.handle_event(e, t),
            Ok(FrameStep { control: LoopControl::Exit, request_redraw: false })
        ));
    }
    assert_eq!(trace(&log), expect(&["initialize(err)"]));
}

#[test]
fn lifecycle_order_holds_on_a_mixed_run() {
    let log = Rc::new(RefCell::new(Vec::new()));
    let (_, _) = drive(
        Mock::new(&log),
        &[
            (LoopEvent::Other, 1 * MS),
            (LoopEvent::RedrawRequested, 2 * MS),
            (LoopEvent::MainEventsCleared, 20 * MS),
            (LoopEvent::MainEventsCleared, 25 * MS),
            (LoopEvent::RedrawRequested, 26 * MS),
            (LoopEvent::CloseRequested, 30 * MS),
            (LoopEvent::MainEventsCleared, 60 * MS),
        ],
    );
    let t = trace(&log);
    assert_eq!(t.iter().filter(|c| *c == "initialize").count(), 1);
    assert_eq!(t.iter().filter(|c| *c == "cleanup").count(), 1);
    assert_eq!(t.first().map(|s| s.as_str()), Some("initialize"));
    assert_eq!(t.last().map(|s| s.as_str()), Some("cleanup"));
    assert_eq!(t.len(), 5);
}

#[test]
fn paced_draws_keep_their_spacing() {
    let log = Rc::new(RefCell::new(Vec::new()));
    let mut l = FrameLoop::new(Mock::new(&log), 0);
    assert!(l.start().is_ok());
    let mut drawn_at = Vec::new();
    for t in (0..200u64).map(|k| k * 5 * MS) {
        let step = l.handle_event(LoopEvent::MainEventsCleared, t).ok().unwrap();
        if step.request_redraw {
            drawn_at.push(t);
        }
    }
    assert!(drawn_at.len() > 1);
    for w in drawn_at.windows(2) {
        assert!(w[1] - w[0] >= DEFAULT_TARGET_FRAME_NANOS);
    }
    // Ticks every 5 ms draw every fourth tick: 20 ms apart.
    assert_eq!(drawn_at[0], 20 * MS);
    assert_eq!(drawn_at[1], 40 * MS);
}

#[test]
fn redraw_keeps_the_clock() {
    let log = Rc::new(RefCell::new(Vec::new()));
    let mut l = FrameLoop::new(Mock::new(&log), 5 * MS);
    assert!(l.start().is_ok());
    let before = l.clock();
    let step = l.handle_event(LoopEvent::RedrawRequested, 50 * MS).ok().unwrap();
    assert_eq!(step, FrameStep { control: LoopControl::Continue, request_redraw: false });
    assert_eq!(l.clock(), before);
    assert_eq!(l.clock().last_frame, 5 * MS);
}

#[test]
fn replay_gives_the_same_calls() {
    let events = [
        (LoopEvent::MainEventsCleared, 3 * MS),
        (LoopEvent::MainEventsCleared, 17 * MS),
        (LoopEvent::RedrawRequested, 18 * MS),
        (LoopEvent::MainEventsCleared, 30 * MS),
        (LoopEvent::MainEventsCleared, 34 * MS),
        (LoopEvent::CloseRequested, 35 * MS),
    ];
    let log1 = Rc::new(RefCell::new(Vec::new()));
    let log2 = Rc::new(RefCell::new(Vec::new()));
    let (l1, _) = drive(Mock::new(&log1), &events);
    let (l2, _) = drive(Mock::new(&log2), &events);
    assert_eq!(trace(&log1), trace(&log2));
    assert_eq!(
        trace(&log1),
        expect(&["initialize", "draw_frame", "draw_frame", "draw_frame", "cleanup"])
    );
    assert_eq!(l1.clock(), l2.clock());
    assert_eq!(l1.clock().last_frame, 34 * MS);
}

#[test]
fn draws_at_exactly_the_target() {
    let log = Rc::new(RefCell::new(Vec::new()));
    let mut l = FrameLoop::with_clock(Mock::new(&log), FrameClock::with_target(1_000, 500));
    assert!(l.start().is_ok());
    let early = l.handle_event(LoopEvent::MainEventsCleared, 1_499).ok().unwrap();
    assert!(!early.request_redraw);
    let exact = l.handle_event(LoopEvent::MainEventsCleared, 1_500).ok().unwrap();
    assert_eq!(exact, FrameStep { control: LoopControl::Continue, request_redraw: true });
    assert_eq!(l.clock().last_frame, 1_500);
    assert_eq!(trace(&log), expect(&["initialize", "draw_frame"]));
}

#[test]
fn second_close_does_not_clean_up_again() {
    let log = Rc::new(RefCell::new(Vec::new()));
    let mut l = FrameLoop::new(Mock::new(&log), 0);
    assert!(l.start().is_ok());
    let first = l.handle_event(LoopEvent::CloseRequested, 1 * MS).ok().unwrap();
    let second = l.handle_event(LoopEvent::CloseRequested, 2 * MS).ok().unwrap();
    assert_eq!(first.control, LoopControl::Exit);
    assert_eq!(second.control, LoopControl::Exit);
    assert_eq!(trace(&log), expect(&["initialize", "cleanup"]));
}

#[test]
fn other_events_are_ignored() {
    let log = Rc::new(RefCell::new(Vec::new()));
    let mut l = FrameLoop::new(Mock::new(&log), 0);
    assert!(l.start().is_ok());
    let step = l.handle_event(LoopEvent::Other, 100 * MS).ok().unwrap();
    assert_eq!(step, FrameStep { control: LoopControl::Continue, request_redraw: false });
    assert_eq!(l.phase(), Phase::Running);
    assert_eq!(l.clock().last_frame, 0);
    assert_eq!(trace(&log), expect(&["initialize"]));
}

#[test]
fn no_catch_up_after_a_long_pause() {
    let log = Rc::new(RefCell::new(Vec::new()));
    let mut l = FrameLoop::new(Mock::new(&log), 0);
    assert!(l.start().is_ok());
    assert!(l.handle_event(LoopEvent::MainEventsCleared, 5_000 * MS).ok().unwrap().request_redraw);
    assert!(!l.handle_event(LoopEvent::MainEventsCleared, 5_001 * MS).ok().unwrap().request_redraw);
    assert_eq!(l.clock().last_frame, 5_000 * MS);
    assert_eq!(trace(&log), expect(&["initialize", "draw_frame"]));
}

/// The instants at which ticks drew paced frames.
fn paced_instants(events: &[(LoopEvent, u64)]) -> Vec<u64> {
    let log = Rc::new(RefCell::new(Vec::new()));
    let mut l = FrameLoop::new(Mock::new(&log), 0);
    assert!(l.start().is_ok());
    let mut out = Vec::new();
    for (e, t) in events {
        let step = l.handle_event(*e, *t).ok().unwrap();
        if step.request_redraw {
            out.push(*t);
        }
    }
    out
}

#[test]
fn redraws_do_not_move_paced_draws() {
    let with: Vec<(LoopEvent, u64)> = (1..=40u64)
        .map(|k| {
            let e = if k % 3 == 0 { LoopEvent::RedrawRequested } else { LoopEvent::MainEventsCleared };
            (e, k * 7 * MS)
        })
        .collect();
    let without: Vec<(LoopEvent, u64)> =
        with.iter().copied().filter(|(e, _)| *e != LoopEvent::RedrawRequested).collect();
    let a = paced_instants(&with);
    let b = paced_instants(&without);
    assert_eq!(a, b);
    assert_eq!(&a[..3], &[28 * MS, 49 * MS, 70 * MS]);
}
