use prism_engine::input::{KeyInput, KeySet, KeyState, PhysicalKey};
use prism_engine::scene_data::{Id, MainDatabase, ObjectData, Transform};
use prism_engine::session::{EditorFlags, PlaySession};

fn key(state: KeyState, physical_key: PhysicalKey, character: Option<&str>, repeat: bool) -> KeyInput {
    KeyInput { state, physical_key, character: character.map(|c| c.to_string()), repeat }
}

#[test]
fn editor_opens_shown_with_everything_to_build() {
    let flags = EditorFlags::new();
    assert!(flags.show_editor_ui);
    assert!(flags.shown_before_play);
    assert!(flags.accumulation_dirty);
    assert!(flags.geometry_dirty);
}

#[test]
fn leaving_play_shows_the_editor_as_before_play() {
    let mut flags = EditorFlags::new();
    flags.accumulation_dirty = false;
    flags.geometry_dirty = false;
    flags.enter_play();
    assert!(!flags.show_editor_ui);
    assert!(flags.shown_before_play);
    assert!(flags.accumulation_dirty);
    assert!(!flags.geometry_dirty);

    let mut keys = KeySet::new();
    let f1 = key(KeyState::Pressed, PhysicalKey::F1, None, false);
    assert!(!flags.on_key_event(&f1, true, &mut keys));
    assert!(flags.show_editor_ui);

    let escape = key(KeyState::Pressed, PhysicalKey::Escape, None, false);
    assert!(flags.on_key_event(&escape, true, &mut keys));
    assert!(flags.show_editor_ui);
    assert!(flags.geometry_dirty);
    assert!(flags.accumulation_dirty);
}

#[test]
fn editor_hidden_before_play_stays_hidden_after() {
    let mut flags = EditorFlags::new();
    flags.show_editor_ui = false;
    flags.enter_play();
    let mut keys = KeySet::new();
    let f1 = key(KeyState::Pressed, PhysicalKey::F1, None, false);
    assert!(!flags.on_key_event(&f1, true, &mut keys));
    assert!(flags.show_editor_ui);
    flags.leave_play();
    assert!(!flags.show_editor_ui);
}

#[test]
fn escape_outside_play_or_by_repeat_does_not_stop() {
    let mut flags = EditorFlags::new();
    let mut keys = KeySet::new();
    let escape = key(KeyState::Pressed, PhysicalKey::Escape, None, false);
    assert!(!flags.on_key_event(&escape, false, &mut keys));
    assert!(flags.show_editor_ui);
    assert!(!keys.contains("Escape"));
    let repeat = key(KeyState::Pressed, PhysicalKey::Escape, None, true);
    assert!(!flags.on_key_event(&repeat, true, &mut keys));
    let release = key(KeyState::Released, PhysicalKey::Escape, None, false);
    assert!(!flags.on_key_event(&release, true, &mut keys));
}

#[test]
fn keys_during_play_are_held() {
    let mut flags = EditorFlags::new();
    flags.enter_play();
    let mut keys = KeySet::new();
    assert!(!flags.on_key_event(&key(KeyState::Pressed, PhysicalKey::Other, Some("W"), false), true, &mut keys));
    assert!(keys.contains("w"));
    assert!(!flags.show_editor_ui);
}

#[test]
fn play_works_on_a_copy_of_the_editor_database() {
    let mut editor: MainDatabase<f32> = MainDatabase::new();
    let t = Transform { location: [1.0, 0.0, 0.0], rotation: [0.0, 0.0, 0.0, 1.0], scale: [1.0; 3] };
    editor.objects.insert(1, ObjectData { name: "Decanter".to_string(), transform: t, mesh_id: None });
    let mut session = PlaySession { editor_db: editor, play_db: None };
    assert!(!session.playing());
    session.start_play();
    assert!(session.playing());
    let moved = Transform { location: [9.0, 0.0, 0.0], ..t };
    session.play_db.as_mut().unwrap().set_object_transform(Id(1), moved);
    assert_eq!(session.play_db.as_ref().unwrap().objects[&1].transform.location, [9.0, 0.0, 0.0]);
    session.stop_play();
    assert!(!session.playing());
    assert_eq!(session.editor_db.objects[&1].transform.location, [1.0, 0.0, 0.0]);
}
