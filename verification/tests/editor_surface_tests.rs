use std::collections::HashMap;

use prism_engine::ecs::{Entity, World};
use prism_engine::editor_surface::{
    apply_panel_output, keep_target_in_scene, outliner_items, select_outliner_object,
    selected_light_intensity, set_light_intensity, PanelOutput, TargetObjects,
};
use prism_engine::scene_data::{Id, MainDatabase, ObjectData, SceneData, Transform};
use prism_engine::types::{GizmoTargetKind, LightObjectInstance, SceneKind};

fn object(name: &str) -> ObjectData<f32> {
    ObjectData {
        name: name.to_string(),
        transform: Transform { location: [0.0; 3], rotation: [0.0, 0.0, 0.0, 1.0], scale: [1.0; 3] },
        mesh_id: None,
    }
}

fn light(id: u64, intensity: f32) -> LightObjectInstance<f32> {
    LightObjectInstance {
        object_id: Id(id),
        position: [0.0; 3],
        rotation: [0.0, 0.0, 0.0, 1.0],
        scale: [1.0; 3],
        intensity,
    }
}

fn targets() -> HashMap<u64, GizmoTargetKind> {
    let mut targets = HashMap::new();
    targets.insert(1, GizmoTargetKind::Decanter);
    targets.insert(3, GizmoTargetKind::SunLamp);
    targets.insert(4, GizmoTargetKind::Sphere);
    targets
}

#[test]
fn outliner_lists_targeted_objects_by_name() {
    let mut objects = HashMap::new();
    objects.insert(1, object("Decanter"));
    objects.insert(2, object("Untargeted"));
    objects.insert(3, object("Sun Lamp 1"));
    let visible = [Id(4), Id(2), Id(1), Id(3)];
    let items = outliner_items(&visible, &targets(), &objects, SceneKind::Decanter, true, Some(Id(3)));
    let ids: Vec<Id> = items.iter().map(|i| i.object_id).collect();
    assert_eq!(ids, vec![Id(4), Id(1), Id(3)]);
    let labels: Vec<&str> = items.iter().map(|i| i.label.as_str()).collect();
    assert_eq!(labels, vec!["Object", "Decanter", "Sun Lamp 1"]);
    let selected: Vec<bool> = items.iter().map(|i| i.selected).collect();
    assert_eq!(selected, vec![false, false, true]);

    let none_selected = outliner_items(&visible, &targets(), &objects, SceneKind::Wine, false, Some(Id(3)));
    assert!(none_selected.iter().all(|i| !i.selected));
}

#[test]
fn clicking_a_targeted_object_selects_it() {
    let mut target = GizmoTargetKind::Decanter;
    let mut selected = None;
    let mut has_selection = false;
    select_outliner_object(Id(3), &targets(), &mut target, &mut selected, &mut has_selection);
    assert_eq!(target, GizmoTargetKind::SunLamp);
    assert_eq!(selected, Some(Id(3)));
    assert!(has_selection);

    select_outliner_object(Id(2), &targets(), &mut target, &mut selected, &mut has_selection);
    assert_eq!(target, GizmoTargetKind::SunLamp);
    assert_eq!(selected, Some(Id(3)));
    assert!(has_selection);
}

#[test]
fn every_target_stays_in_every_scene() {
    let objects = TargetObjects {
        sphere: Id(1),
        decanter: Id(2),
        wine_glass: Id(3),
        cornell_box: Id(4),
        sun_lamp: Id(5),
        spotlight: Id(6),
    };
    let mut target = GizmoTargetKind::WineGlass;
    let mut selected = Some(Id(3));
    keep_target_in_scene(SceneKind::CornellBox, objects, &mut target, &mut selected);
    assert_eq!(target, GizmoTargetKind::WineGlass);
    assert_eq!(selected, Some(Id(3)));
}

#[test]
fn the_first_light_of_the_selected_object_is_edited() {
    let mut lights = vec![light(7, 1.0), light(9, 2.0), light(9, 3.0)];
    assert_eq!(selected_light_intensity(Some(Id(9)), &lights), Some(2.0));
    assert_eq!(selected_light_intensity(Some(Id(8)), &lights), None);
    assert_eq!(selected_light_intensity(None, &lights), None);
    set_light_intensity(&mut lights, Id(9), 5.0);
    assert_eq!(lights[1].intensity, 5.0);
    assert_eq!(lights[2].intensity, 3.0);
    set_light_intensity(&mut lights, Id(8), 6.0);
    let intensities: Vec<f32> = lights.iter().map(|l| l.intensity).collect();
    assert_eq!(intensities, vec![1.0, 5.0, 3.0]);
}

#[test]
fn panel_edits_reach_lights_scenes_and_renderer() {
    let mut world: World<f32> = World::new();
    world.entities.push(Entity { id: Id(1), name: "a".to_string() });
    world.visibility.insert(1, false);
    let mut db: MainDatabase<f32> = MainDatabase::new();
    db.scenes.insert(
        10,
        SceneData { name: "scene".to_string(), master_collection_id: Id(0), base_visibility: HashMap::new() },
    );
    let mut lights = vec![light(7, 1.0)];
    let mut dirty = false;

    let quiet = PanelOutput { selected_light_intensity: None, visibility_changed: false, accumulation_dirty: false };
    apply_panel_output(&quiet, Some(Id(7)), &mut lights, &world, &mut db, &mut dirty);
    assert_eq!(lights[0].intensity, 1.0);
    assert_eq!(db.scenes[&10].base_visibility.get(&1), None);
    assert!(!dirty);

    let edits = PanelOutput { selected_light_intensity: Some(4.0), visibility_changed: true, accumulation_dirty: true };
    apply_panel_output(&edits, Some(Id(7)), &mut lights, &world, &mut db, &mut dirty);
    assert_eq!(lights[0].intensity, 4.0);
    assert_eq!(db.scenes[&10].base_visibility.get(&1), Some(&false));
    assert!(dirty);
}
