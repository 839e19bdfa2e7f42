use game_loop::counter::{CounterOp, SharedCounter};
use game_loop::eventhandler::{
    init_event_handler, CounterCallback, EventHandler, HandlerFns, KeyCallback, KeyEventInfo,
};
use game_loop::input::{route, Action, InputEvent};
use game_loop::simulation::SimulationLoop;
use game_loop::state::{AppState, StateCell};

struct Tag(u32);

impl KeyCallback for Tag {
    type State = Vec<(u32, u32)>;

    fn call(&self, event: KeyEventInfo, state: &mut Vec<(u32, u32)>) {
        state.push((self.0, event.timestamp));
    }
}

struct Seen;

impl KeyCallback for Seen {
    type State = Vec<KeyEventInfo>;

    fn call(&self, event: KeyEventInfo, state: &mut Vec<KeyEventInfo>) {
        state.push(event);
    }
}

fn counting_handler() -> EventHandler<CounterCallback> {
    let mut handler = EventHandler::new();
    init_event_handler(&mut handler);
    handler
}

#[test]
fn callbacks_run_in_registration_order() {
    let mut handler: EventHandler<Tag> = EventHandler::new();
    handler.register_handler_keydown(Tag(1));
    handler.register_handler_keydown(Tag(2));
    handler.register_handler_keydown(Tag(3));
    let mut log = Vec::new();
    handler.handle_key_down(10, 0, None, None, 0, false, &mut log);
    assert_eq!(log, vec![(1, 10), (2, 10), (3, 10)]);
}

#[test]
fn every_dispatch_keeps_the_registration_order() {
    let mut handler: EventHandler<Tag> = EventHandler::new();
    handler.register_handler_keyup(Tag(7));
    handler.register_handler_keyup(Tag(5));
    handler.register_handler_keyup(Tag(6));
    let mut log = Vec::new();
    handler.handle_key_up(1, 0, None, None, 0, false, &mut log);
    handler.handle_key_up(2, 0, None, None, 0, true, &mut log);
    assert_eq!(log, vec![(7, 1), (5, 1), (6, 1), (7, 2), (5, 2), (6, 2)]);
}

#[test]
fn the_two_kinds_have_separate_registries() {
    let mut handler: EventHandler<Tag> = EventHandler::new();
    handler.register_handler_keydown(Tag(1));
    handler.register_handler_keyup(Tag(2));
    handler.register_handler_keydown(Tag(3));
    let mut downs = Vec::new();
    handler.handle_key_down(0, 0, None, None, 0, false, &mut downs);
    assert_eq!(downs, vec![(1, 0), (3, 0)]);
    let mut ups = Vec::new();
    handler.handle_key_up(0, 0, None, None, 0, false, &mut ups);
    assert_eq!(ups, vec![(2, 0)]);
}

#[test]
fn an_empty_registry_leaves_the_state_alone() {
    let handler: EventHandler<Tag> = EventHandler::new();
    let mut log = vec![(9, 9)];
    handler.handle_key_down(0, 0, None, None, 0, false, &mut log);
    handler.handle_key_up(0, 0, None, None, 0, false, &mut log);
    assert_eq!(log, vec![(9, 9)]);
}

#[test]
fn default_registries_are_empty() {
    let fns: HandlerFns<Tag> = HandlerFns::default();
    assert!(fns.keydowns.is_empty());
    assert!(fns.keyups.is_empty());
    let handler: EventHandler<Tag> = EventHandler::default();
    let mut log = Vec::new();
    handler.handle_key_down(0, 0, None, None, 0, false, &mut log);
    assert!(log.is_empty());
}

#[test]
fn every_callback_gets_the_same_event() {
    let mut handler: EventHandler<Seen> = EventHandler::new();
    handler.register_handler_keydown(Seen);
    handler.register_handler_keydown(Seen);
    let mut seen = Vec::new();
    handler.handle_key_down(123, 4, Some(97), Some(4), 0x0041, true, &mut seen);
    assert_eq!(seen.len(), 2);
    for event in seen {
        assert_eq!(event.timestamp, 123);
        assert_eq!(event.window_id, 4);
        assert_eq!(event.keycode, Some(97));
        assert_eq!(event.scancode, Some(4));
        assert_eq!(event.keymod, 0x0041);
        assert!(event.repeat);
    }
}

#[test]
fn counting_callbacks_move_the_counter() {
    let handler = counting_handler();
    let mut counter = SharedCounter::new();
    handler.handle_key_down(0, 0, Some(97), None, 0, false, &mut counter);
    assert_eq!(counter.get(), 1);
    handler.handle_key_down(1, 0, Some(98), None, 0, false, &mut counter);
    assert_eq!(counter.get(), 2);
    handler.handle_key_up(2, 0, Some(97), None, 0, false, &mut counter);
    assert_eq!(counter.get(), 1);
}

#[test]
fn a_repeat_does_not_change_the_counter() {
    let handler = counting_handler();
    let mut counter = SharedCounter::new();
    handler.handle_key_down(0, 0, Some(97), None, 0, false, &mut counter);
    assert_eq!(counter.get(), 1);
    handler.handle_key_down(1, 0, Some(97), None, 0, true, &mut counter);
    assert_eq!(counter.get(), 1);
    handler.handle_key_up(2, 0, Some(97), None, 0, true, &mut counter);
    assert_eq!(counter.get(), 1);
}

#[test]
fn a_counting_callback_called_directly_skips_repeats() {
    let up = CounterCallback { op: CounterOp::Increment };
    let down = CounterCallback { op: CounterOp::Decrement };
    let plain = KeyEventInfo {
        timestamp: 0,
        window_id: 0,
        keycode: None,
        scancode: None,
        keymod: 0,
        repeat: false,
    };
    let repeated = KeyEventInfo { repeat: true, ..plain };
    let mut counter = SharedCounter::new();
    up.call(plain, &mut counter);
    up.call(plain, &mut counter);
    up.call(repeated, &mut counter);
    assert_eq!(counter.get(), 2);
    down.call(repeated, &mut counter);
    assert_eq!(counter.get(), 2);
    down.call(plain, &mut counter);
    assert_eq!(counter.get(), 1);
}

#[test]
fn registering_twice_counts_twice() {
    let mut handler = counting_handler();
    init_event_handler(&mut handler);
    let mut counter = SharedCounter::new();
    handler.handle_key_down(0, 0, None, None, 0, false, &mut counter);
    assert_eq!(counter.get(), 2);
    handler.handle_key_up(0, 0, None, None, 0, false, &mut counter);
    assert_eq!(counter.get(), 0);
}

#[test]
fn three_presses_and_one_release_read_two_after_the_next_tick() {
    let mut cell = StateCell::new(AppState::default());
    let mut sim = SimulationLoop::new();
    let handler = counting_handler();
    let mut counter = SharedCounter::new();
    assert_eq!(
        cell.read(),
        AppState { cross_thread_value: 0, shutdown_requested: false, tick_counter: 0 }
    );
    let events = [
        InputEvent::KeyDown {
            timestamp: 1,
            window_id: 1,
            keycode: Some(97),
            scancode: Some(4),
            keymod: 0,
            repeat: false,
        },
        InputEvent::KeyDown {
            timestamp: 2,
            window_id: 1,
            keycode: Some(98),
            scancode: Some(5),
            keymod: 0,
            repeat: false,
        },
        InputEvent::KeyDown {
            timestamp: 3,
            window_id: 1,
            keycode: Some(99),
            scancode: Some(6),
            keymod: 0,
            repeat: false,
        },
        InputEvent::KeyUp {
            timestamp: 4,
            window_id: 1,
            keycode: Some(97),
            scancode: Some(4),
            keymod: 0,
            repeat: false,
        },
    ];
    for event in events {
        match route(event) {
            Action::DispatchKeyDown(info) => handler.handle_key_down(
                info.timestamp,
                info.window_id,
                info.keycode,
                info.scancode,
                info.keymod,
                info.repeat,
                &mut counter,
            ),
            Action::DispatchKeyUp(info) => handler.handle_key_up(
                info.timestamp,
                info.window_id,
                info.keycode,
                info.scancode,
                info.keymod,
                info.repeat,
                &mut counter,
            ),
            _ => panic!("a plain key event was not dispatched"),
        }
    }
    assert!(sim.tick(&mut cell, counter.get()));
    assert_eq!(
        cell.read(),
        AppState { cross_thread_value: 2, shutdown_requested: false, tick_counter: 1 }
    );
}
