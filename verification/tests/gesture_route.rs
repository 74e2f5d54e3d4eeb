use gpui_mobile::gesture_route::GestureRoute;

#[test]
fn gpui_drag_cannot_be_stolen_when_it_crosses_a_platform_view() {
    let mut route = GestureRoute::default();
    assert!(!route.route(0, || false));
    assert!(route.owns_gpui_gesture());
    for action in [2, 5 | (1 << 8), 2, 6 | (1 << 8), 1] {
        assert!(!route.route(action, || panic!("continuations must not hit-test")));
    }
    // A new DOWN can choose a different owner.
    assert!(route.route(0, || true));
}

#[test]
fn java_receives_up_even_after_the_finger_leaves_its_view() {
    let mut route = GestureRoute::default();
    assert!(route.route(0, || true));
    for action in [2, 5, 6, 1] {
        assert!(route.route(action, || panic!("Java owns the original stream")));
    }
    assert!(!route.route(0, || false));
}

#[test]
fn cancel_is_delivered_to_the_owner_then_clears_it() {
    for platform_view in [false, true] {
        let mut route = GestureRoute::default();
        route.route(0, || platform_view);
        assert_eq!(route.route(3, || unreachable!()), platform_view);
        // An orphan MOVE never starts a GPUI mouse/scroll gesture.
        assert!(route.route(2, || unreachable!()));
        assert!(!route.route(0, || false));
    }
}

#[test]
fn lifecycle_reset_and_unrelated_motion_do_not_reassign_a_gesture() {
    let mut route = GestureRoute::default();
    route.route(0, || false);
    assert!(route.route(8, || unreachable!())); // wheel/hover is not this touch stream
    assert!(!route.route(2, || unreachable!()));
    route.reset();
    assert!(route.route(1, || unreachable!()));
    assert!(route.route(0, || true));
}

#[test]
fn new_route_has_no_owner_and_sends_everything_to_java() {
    let mut route = GestureRoute::new();
    assert!(!route.owns_gpui_gesture());
    for action in [1, 2, 3, 5, 6, 7] {
        assert!(route.route(action, || unreachable!()));
    }
    assert!(!route.owns_gpui_gesture());
}

#[test]
fn pointer_index_bits_do_not_change_the_action_kind() {
    let mut route = GestureRoute::new();
    // A DOWN with pointer-index bits set is still a DOWN.
    assert!(!route.route(0 | (2 << 8), || false));
    assert!(route.owns_gpui_gesture());
    // An UP with pointer-index bits ends the stream.
    assert!(!route.route(1 | (3 << 8), || unreachable!()));
    assert!(!route.owns_gpui_gesture());
}

#[test]
fn java_owned_stream_is_not_a_gpui_gesture() {
    let mut route = GestureRoute::new();
    assert!(route.route(0, || true));
    assert!(!route.owns_gpui_gesture());
    assert!(route.route(2, || unreachable!()));
}
