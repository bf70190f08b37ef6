use prism_engine::camera_motion::{fly_controls, mouse_look_enabled};
use prism_engine::input::{
    end_pointer_frame, handle_keyboard_input, handle_pointer_window_event, KeyInput, KeySet, KeyState, PhysicalKey,
    PointerEvent,
};

fn key(state: KeyState, physical_key: PhysicalKey, character: Option<&str>, repeat: bool) -> KeyInput {
    KeyInput { state, physical_key, character: character.map(|c| c.to_string()), repeat }
}

#[test]
fn key_set_inserts_and_removes_once() {
    let mut keys = KeySet::new();
    assert!(keys.insert("w".to_string()));
    assert!(!keys.insert("w".to_string()));
    assert!(keys.contains("w"));
    assert!(!keys.contains("W"));
    assert!(keys.remove("w"));
    assert!(!keys.remove("w"));
    assert!(!keys.contains("w"));
}

#[test]
fn character_keys_are_held_in_lower_case() {
    let mut keys = KeySet::new();
    let mut show = true;
    handle_keyboard_input(&key(KeyState::Pressed, PhysicalKey::Other, Some("W"), false), &mut show, &mut keys);
    assert!(keys.contains("w"));
    assert!(!keys.contains("W"));
    handle_keyboard_input(&key(KeyState::Released, PhysicalKey::Other, Some("W"), false), &mut show, &mut keys);
    assert!(!keys.contains("w"));
    assert!(show);
}

#[test]
fn named_keys_are_held_by_name() {
    let mut keys = KeySet::new();
    let mut show = false;
    for (physical, name) in [
        (PhysicalKey::Space, "Space"),
        (PhysicalKey::ShiftRight, "Shift"),
        (PhysicalKey::ControlLeft, "Control"),
        (PhysicalKey::ArrowUp, "ArrowUp"),
        (PhysicalKey::ArrowDown, "ArrowDown"),
        (PhysicalKey::ArrowLeft, "ArrowLeft"),
        (PhysicalKey::ArrowRight, "ArrowRight"),
    ] {
        handle_keyboard_input(&key(KeyState::Pressed, physical, None, false), &mut show, &mut keys);
        assert!(keys.contains(name));
        handle_keyboard_input(&key(KeyState::Released, physical, None, false), &mut show, &mut keys);
        assert!(!keys.contains(name));
    }
    handle_keyboard_input(&key(KeyState::Pressed, PhysicalKey::Other, None, false), &mut show, &mut keys);
    assert!(!keys.contains("Other"));
    assert!(!show);
}

#[test]
fn f1_toggles_editor_unless_repeated() {
    let mut keys = KeySet::new();
    let mut show = true;
    handle_keyboard_input(&key(KeyState::Pressed, PhysicalKey::F1, None, false), &mut show, &mut keys);
    assert!(!show);
    handle_keyboard_input(&key(KeyState::Pressed, PhysicalKey::F1, None, true), &mut show, &mut keys);
    assert!(!show);
    handle_keyboard_input(&key(KeyState::Pressed, PhysicalKey::F1, None, false), &mut show, &mut keys);
    assert!(show);
    handle_keyboard_input(&key(KeyState::Released, PhysicalKey::F1, None, false), &mut show, &mut keys);
    assert!(show);
}

#[test]
fn press_then_release_round_trip() {
    let mut keys = KeySet::new();
    keys.insert("a".to_string());
    let mut show = true;
    handle_keyboard_input(&key(KeyState::Pressed, PhysicalKey::ShiftLeft, None, false), &mut show, &mut keys);
    handle_keyboard_input(&key(KeyState::Released, PhysicalKey::ShiftLeft, None, false), &mut show, &mut keys);
    assert!(keys.contains("a"));
    assert!(!keys.contains("Shift"));
}

#[test]
fn pointer_events_track_clicks_and_drags() {
    let mut pos = [0.0f32, 0.0];
    let (mut down, mut clicked, mut dragging) = (false, false, false);
    handle_pointer_window_event(&PointerEvent::CursorMoved([3.0, 4.0]), &mut pos, &mut down, &mut clicked, &mut dragging);
    assert_eq!(pos, [3.0, 4.0]);
    assert!(!dragging);
    handle_pointer_window_event(&PointerEvent::LeftButton(KeyState::Pressed), &mut pos, &mut down, &mut clicked, &mut dragging);
    assert!(down && clicked && !dragging);
    handle_pointer_window_event(&PointerEvent::CursorMoved([5.0, 6.0]), &mut pos, &mut down, &mut clicked, &mut dragging);
    assert!(dragging);
    handle_pointer_window_event(&PointerEvent::LeftButton(KeyState::Released), &mut pos, &mut down, &mut clicked, &mut dragging);
    assert!(!down && clicked && dragging);
    handle_pointer_window_event(&PointerEvent::Other, &mut pos, &mut down, &mut clicked, &mut dragging);
    assert_eq!(pos, [5.0, 6.0]);
}

#[test]
fn fly_controls_follow_keys_unless_ui_has_keyboard() {
    let mut keys = KeySet::new();
    for k in ["w", "d", "Space", "ArrowLeft", "Shift"] {
        keys.insert(k.to_string());
    }
    let c = fly_controls(&keys, false);
    assert!(c.forward && c.right && c.up && c.turn_left && c.sprint);
    assert!(!c.backward && !c.left && !c.down && !c.pitch_up && !c.pitch_down && !c.turn_right);
    let c = fly_controls(&keys, true);
    assert!(c.sprint);
    assert!(!c.forward && !c.right && !c.up && !c.turn_left);
}

#[test]
fn mouse_look_needs_v_and_free_pointer() {
    let mut keys = KeySet::new();
    assert!(!mouse_look_enabled(false, &keys));
    keys.insert("v".to_string());
    assert!(mouse_look_enabled(false, &keys));
    assert!(!mouse_look_enabled(true, &keys));
}

#[test]
fn click_lasts_one_frame_and_drag_ends_on_release() {
    let mut clicked = true;
    let mut dragging = true;
    end_pointer_frame(true, &mut clicked, &mut dragging);
    assert!(!clicked);
    assert!(dragging);
    end_pointer_frame(false, &mut clicked, &mut dragging);
    assert!(!clicked);
    assert!(!dragging);
}
