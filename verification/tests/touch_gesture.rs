use gpui_mobile::touch_gesture::{touch_step, TouchAction, TouchEvent, TouchState};

fn run(events: &[TouchEvent<(i32, i32)>]) -> (TouchState<(i32, i32)>, Vec<TouchAction<(i32, i32)>>) {
    let mut state = TouchState::Idle;
    let mut actions = Vec::new();
    for e in events {
        let (next, action) = touch_step(state, *e);
        state = next;
        actions.push(action);
    }
    (state, actions)
}

#[test]
fn lift_within_slop_is_a_tap_at_the_down_position() {
    let (state, actions) = run(&[
        TouchEvent::Down((10, 20)),
        TouchEvent::Move { at: (12, 21), beyond_slop: false },
        TouchEvent::Up((13, 22)),
    ]);
    assert!(matches!(state, TouchState::Idle));
    assert!(matches!(actions[0], TouchAction::Begin));
    assert!(matches!(actions[1], TouchAction::Track));
    assert!(matches!(actions[2], TouchAction::Tap { at: (10, 20) }));
}

#[test]
fn move_beyond_slop_scrolls_and_never_taps() {
    let (state, actions) = run(&[
        TouchEvent::Down((0, 0)),
        TouchEvent::Move { at: (0, 30), beyond_slop: true },
        TouchEvent::Move { at: (0, 45), beyond_slop: true },
        TouchEvent::Move { at: (0, 50), beyond_slop: false },
        TouchEvent::Up((0, 60)),
    ]);
    assert!(matches!(state, TouchState::Idle));
    assert!(matches!(actions[1], TouchAction::StartScroll { from: (0, 0), to: (0, 30) }));
    assert!(matches!(actions[2], TouchAction::ScrollBy { from: (0, 30), to: (0, 45) }));
    assert!(matches!(actions[3], TouchAction::ScrollBy { from: (0, 45), to: (0, 50) }));
    assert!(matches!(actions[4], TouchAction::EndScroll { from: (0, 50), to: (0, 60) }));
    assert!(!actions.iter().any(|a| matches!(a, TouchAction::Tap { .. })));
}

#[test]
fn moves_and_lifts_without_a_touch_are_ignored() {
    let (state, actions) = run(&[TouchEvent::Move { at: (1, 1), beyond_slop: true }, TouchEvent::Up((1, 1))]);
    assert!(matches!(state, TouchState::Idle));
    assert!(matches!(actions[0], TouchAction::Ignore));
    assert!(matches!(actions[1], TouchAction::Ignore));
}

#[test]
fn a_new_down_restarts_the_gesture() {
    let (state, actions) = run(&[
        TouchEvent::Down((0, 0)),
        TouchEvent::Move { at: (0, 30), beyond_slop: true },
        TouchEvent::Down((5, 5)),
        TouchEvent::Up((5, 6)),
    ]);
    assert!(matches!(state, TouchState::Idle));
    assert!(matches!(actions[2], TouchAction::Begin));
    assert!(matches!(actions[3], TouchAction::Tap { at: (5, 5) }));
}
