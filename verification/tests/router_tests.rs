use fnrow::emitter::{capability_codes, key_event, syn_report_event, Emission, EV_KEY, EV_SYN};
use fnrow::layout::default_layer;
use fnrow::router::{TouchInput, TouchRouter};

fn key(code: u16, value: i32) -> Emission {
    Emission { kind: EV_KEY, code, value }
}

fn syn() -> Emission {
    Emission { kind: EV_SYN, code: 0, value: 0 }
}

#[test]
fn event_records() {
    assert_eq!(key_event(59, true), key(59, 1));
    assert_eq!(key_event(59, false), key(59, 0));
    assert_eq!(syn_report_event(), syn());
}

#[test]
fn capability_set_is_the_action_set() {
    let layer = default_layer();
    assert_eq!(
        capability_codes(&layer),
        vec![59, 60, 61, 62, 63, 64, 65, 66, 67, 68, 87, 88]
    );
}

#[test]
fn fresh_router_owes_a_repaint_and_holds_nothing() {
    let layer = default_layer();
    let mut router = TouchRouter::new(&layer);
    for i in 0..12 {
        assert!(!router.is_active(i));
    }
    assert_eq!(router.tracked_button(0), None);
    assert!(router.take_redraw());
    assert!(!router.take_redraw());
}

#[test]
fn press_release_round_trip() {
    // Down inside button 0 emits key-down(F1); up on the same slot emits key-up.
    let layer = default_layer();
    let mut router = TouchRouter::new(&layer);
    router.take_redraw();
    let out = router.handle_event(&layer, TouchInput::Down { slot: 3, x: 50, y: 32 });
    assert_eq!(out, vec![key(59, 1), syn()]);
    assert!(router.is_active(0));
    assert_eq!(router.tracked_button(3), Some(0));
    assert!(router.take_redraw());
    let out = router.handle_event(&layer, TouchInput::Up { slot: 3 });
    assert_eq!(out, vec![key(59, 0), syn()]);
    assert!(!router.is_active(0));
    assert_eq!(router.tracked_button(3), None);
    assert!(router.take_redraw());
}

#[test]
fn missed_down_never_acts() {
    // x = 5 is in the leading gap: the down misses, and no later motion or up
    // for that slot ever emits.
    let layer = default_layer();
    let mut router = TouchRouter::new(&layer);
    router.take_redraw();
    let out = router.handle_event(&layer, TouchInput::Down { slot: 1, x: 5, y: 32 });
    assert!(out.is_empty());
    assert_eq!(router.tracked_button(1), None);
    assert!(!router.take_redraw());
    let out = router.handle_event(&layer, TouchInput::Motion { slot: 1, x: 50, y: 32 });
    assert!(out.is_empty());
    let out = router.handle_event(&layer, TouchInput::Up { slot: 1 });
    assert!(out.is_empty());
    assert!(!router.is_active(0));
    assert!(!router.take_redraw());
}

#[test]
fn repeated_identical_motion_is_debounced() {
    let layer = default_layer();
    let mut router = TouchRouter::new(&layer);
    let out = router.handle_event(&layer, TouchInput::Down { slot: 0, x: 50, y: 32 });
    assert_eq!(out.len(), 2);
    // Motion still inside: state unchanged, nothing emitted.
    let out = router.handle_event(&layer, TouchInput::Motion { slot: 0, x: 60, y: 32 });
    assert!(out.is_empty());
    // Drag off: exactly one release.
    let out = router.handle_event(&layer, TouchInput::Motion { slot: 0, x: 5, y: 32 });
    assert_eq!(out, vec![key(59, 0), syn()]);
    // The identical motion again: nothing more.
    let out = router.handle_event(&layer, TouchInput::Motion { slot: 0, x: 5, y: 32 });
    assert!(out.is_empty());
    // Drag back re-presses the same button, never rebinding the slot.
    let out = router.handle_event(&layer, TouchInput::Motion { slot: 0, x: 50, y: 32 });
    assert_eq!(out, vec![key(59, 1), syn()]);
    assert_eq!(router.tracked_button(0), Some(0));
}

#[test]
fn up_after_drag_off_is_silent() {
    // Motion drives the button inactive; the following up emits nothing and
    // only unbinds the slot.
    let layer = default_layer();
    let mut router = TouchRouter::new(&layer);
    router.handle_event(&layer, TouchInput::Down { slot: 2, x: 50, y: 32 });
    let out = router.handle_event(&layer, TouchInput::Motion { slot: 2, x: 50, y: 60 });
    assert_eq!(out, vec![key(59, 0), syn()]);
    assert!(!router.is_active(0));
    let out = router.handle_event(&layer, TouchInput::Up { slot: 2 });
    assert!(out.is_empty());
    assert_eq!(router.tracked_button(2), None);
}

#[test]
fn two_slots_press_two_buttons_independently() {
    let layer = default_layer();
    let mut router = TouchRouter::new(&layer);
    let out = router.handle_event(&layer, TouchInput::Down { slot: 0, x: 50, y: 32 });
    assert_eq!(out, vec![key(59, 1), syn()]);
    // x = 255 buckets to and hits button 1.
    let out = router.handle_event(&layer, TouchInput::Down { slot: 1, x: 255, y: 32 });
    assert_eq!(out, vec![key(60, 1), syn()]);
    assert!(router.is_active(0));
    assert!(router.is_active(1));
    let out = router.handle_event(&layer, TouchInput::Up { slot: 0 });
    assert_eq!(out, vec![key(59, 0), syn()]);
    assert!(!router.is_active(0));
    assert!(router.is_active(1));
    let out = router.handle_event(&layer, TouchInput::Up { slot: 1 });
    assert_eq!(out, vec![key(60, 0), syn()]);
    assert!(!router.is_active(1));
}

#[test]
fn down_at_the_far_edge_is_ignored() {
    // x = 2008 buckets to the phantom index 12, which is out of range.
    let layer = default_layer();
    let mut router = TouchRouter::new(&layer);
    router.take_redraw();
    let out = router.handle_event(&layer, TouchInput::Down { slot: 0, x: 2008, y: 32 });
    assert!(out.is_empty());
    assert_eq!(router.tracked_button(0), None);
    assert!(!router.take_redraw());
}

#[test]
fn batch_routing_preserves_delivery_order() {
    let layer = default_layer();
    let mut router = TouchRouter::new(&layer);
    let batch = vec![
        TouchInput::Down { slot: 0, x: 50, y: 32 },
        TouchInput::Down { slot: 1, x: 255, y: 32 },
        TouchInput::Motion { slot: 0, x: 5, y: 32 },
        TouchInput::Up { slot: 1 },
        TouchInput::Up { slot: 0 },
    ];
    let out = router.route_batch(&layer, &batch);
    assert_eq!(
        out,
        vec![
            key(59, 1),
            syn(),
            key(60, 1),
            syn(),
            key(59, 0),
            syn(),
            key(60, 0),
            syn(),
        ]
    );
    assert_eq!(router.tracked_button(0), None);
    assert_eq!(router.tracked_button(1), None);
    assert!(!router.is_active(0));
    assert!(!router.is_active(1));
}

#[test]
fn events_for_unknown_slots_are_dropped() {
    let layer = default_layer();
    let mut router = TouchRouter::new(&layer);
    let out = router.handle_event(&layer, TouchInput::Motion { slot: 9, x: 50, y: 32 });
    assert!(out.is_empty());
    let out = router.handle_event(&layer, TouchInput::Up { slot: 9 });
    assert!(out.is_empty());
}
