use layerscript::config::Modifiers;
use layerscript::config::Opts;
use layerscript::events::Capability;
use layerscript::events::Event;
use layerscript::events::EventQueue;
use layerscript::events::InputState;
use layerscript::events::PointerEventKind;
use layerscript::events::PointerSample;
use layerscript::events::route_pointer_event;
use layerscript::events::route_pointer_frame;
use layerscript::session::FALLBACK_SIZE;
use layerscript::session::LayerState;
use layerscript::session::Phase;
use layerscript::session::frame_rate;

fn fresh_state() -> LayerState {
    LayerState::new(&Opts::default())
}

#[test]
fn drain_is_fifo_and_exhaustive() {
    let mut s = fresh_state();
    let a = Event::PointerMoved { x: 1, y: 2 };
    let b = Event::KeyboardEntered;
    let c = Event::Resized { width: 3, height: 4 };
    s.push_event(a);
    s.push_event(b);
    s.push_event(c);
    let (handled, exit_now) = s.process_tick();
    assert_eq!(handled, vec![a, b, c]);
    assert!(!exit_now);
    let (handled2, _) = s.process_tick();
    assert!(handled2.is_empty());
}

#[test]
fn exit_event_stops_the_drain_and_the_loop() {
    let mut s = fresh_state();
    s.push_event(Event::KeyboardEntered);
    s.push_event(Event::Exit);
    s.push_event(Event::PointerLeft);
    let (handled, exit_now) = s.process_tick();
    assert_eq!(handled, vec![Event::KeyboardEntered, Event::Exit]);
    assert!(exit_now);
    assert_eq!(s.phase, Phase::Closing);
}

#[test]
fn compositor_close_is_observed_within_the_next_tick() {
    let mut s = fresh_state();
    s.closed();
    assert!(s.should_exit);
    assert_eq!(s.phase, Phase::Closing);
    let (handled, exit_now) = s.process_tick();
    assert!(exit_now);
    assert_eq!(handled, vec![Event::Exit]);
}

#[test]
fn exit_request_terminates_on_the_next_drain() {
    let mut s = fresh_state();
    s.exit();
    s.exit();
    let (_, exit_now) = s.process_tick();
    assert!(exit_now);
}

#[test]
fn configure_falls_back_and_draws_once() {
    let mut s = fresh_state();
    assert_eq!(s.phase, Phase::Configuring);
    let draw_now = s.configure(0, 0);
    assert!(draw_now);
    assert_eq!(s.width, FALLBACK_SIZE);
    assert_eq!(s.height, FALLBACK_SIZE);
    assert_eq!(s.phase, Phase::Running);
    let draw_again = s.configure(800, 24);
    assert!(!draw_again);
    assert_eq!(s.width, 800);
    assert_eq!(s.height, 24);
}

#[test]
fn unknown_capability_removal_is_a_noop() {
    let mut input = InputState::new();
    let released = input.remove_capability(Capability::Pointer);
    assert!(!released);
    assert_eq!(input, InputState::new());
}

#[test]
fn capability_transitions_happen_exactly_once() {
    let mut input = InputState::new();
    assert!(input.add_capability(Capability::Keyboard));
    assert!(!input.add_capability(Capability::Keyboard));
    assert!(input.keyboard);
    assert!(input.remove_capability(Capability::Keyboard));
    assert!(!input.remove_capability(Capability::Keyboard));
    assert!(!input.keyboard);
    assert!(!input.add_capability(Capability::Touch));
}

#[test]
fn keyboard_focus_follows_own_surface_only() {
    let mut input = InputState::new();
    input.keyboard_enter(false);
    assert!(!input.keyboard_focus);
    input.keyboard_enter(true);
    assert!(input.keyboard_focus);
    input.keyboard_leave(false);
    assert!(input.keyboard_focus);
    input.keyboard_leave(true);
    assert!(!input.keyboard_focus);
}

#[test]
fn pointer_events_for_other_surfaces_are_discarded() {
    let m = Modifiers::default();
    let foreign = PointerSample {
        own_surface: false,
        x: 5,
        y: 6,
        kind: PointerEventKind::Motion,
    };
    assert!(route_pointer_event(&foreign, &m).is_none());

    let own = PointerSample {
        own_surface: true,
        x: 5,
        y: 6,
        kind: PointerEventKind::Motion,
    };
    assert_eq!(
        route_pointer_event(&own, &m),
        Some(Event::PointerMoved { x: 5, y: 6 })
    );
}

#[test]
fn pointer_batches_keep_arrival_order() {
    let m = Modifiers::default();
    let mut queue = EventQueue::new();
    let samples = vec![
        PointerSample { own_surface: true, x: 0, y: 0, kind: PointerEventKind::Enter },
        PointerSample { own_surface: true, x: 0, y: 0, kind: PointerEventKind::Axis },
        PointerSample { own_surface: false, x: 1, y: 1, kind: PointerEventKind::Motion },
        PointerSample { own_surface: true, x: 2, y: 3, kind: PointerEventKind::Press { button: 272 } },
        PointerSample { own_surface: true, x: 2, y: 3, kind: PointerEventKind::Leave },
    ];
    route_pointer_frame(&mut queue, &samples, &m);
    let batch = queue.take_all();
    assert_eq!(
        batch,
        vec![
            Event::PointerEntered { x: 0, y: 0 },
            Event::PointerButtonPressed { button: 272, modifiers: m },
            Event::PointerLeft,
        ]
    );
    assert!(queue.is_empty());
}

#[test]
fn acquire_then_submit_is_strictly_sequential() {
    let mut s = fresh_state();
    s.configure(64, 64);
    let canvas = s.begin_frame().expect("first acquire must succeed");
    assert!(s.begin_frame().is_none());
    let (pixels, damage) = s.finish_frame(canvas);
    assert_eq!(pixels.len(), 64 * 64);
    assert_eq!(damage.x, 0);
    assert_eq!(damage.y, 0);
    assert_eq!(damage.width, 64);
    assert_eq!(damage.height, 64);
    assert!(s.begin_frame().is_some());
}

#[test]
fn begin_frame_clears_to_the_background() {
    let mut s = fresh_state();
    s.configure(32, 16);
    let canvas = s.begin_frame().unwrap();
    assert_eq!(canvas.width(), 32);
    assert_eq!(canvas.height(), 16);
    assert_eq!(canvas.pixel_at(0, 0), 0xFF707070);
    assert_eq!(canvas.pixel_at(31, 15), 0xFF707070);
}

#[test]
fn frame_rate_from_elapsed_time() {
    assert_eq!(frame_rate(16), 62);
    assert_eq!(frame_rate(1000), 1);
    assert_eq!(frame_rate(0), 1000);
}

#[test]
fn termination_ends_the_lifecycle() {
    let mut s = fresh_state();
    s.closed();
    let (_, exit_now) = s.process_tick();
    assert!(exit_now);
    s.terminate();
    assert_eq!(s.phase, Phase::Terminated);
}
