use std::collections::HashMap;

use prism_engine::editor_surface::TargetObjects;
use prism_engine::project_io::{
    adopt_loaded_project, LoadedObject, LoadedScene, ProjectSceneIds, link_target_for_name, material_target_for_name, pose_target_for_name, scene_kind_for_name,
};
use prism_engine::scene_data::{CollectionData, Id, MainDatabase, MeshRecord, ObjectData, SceneData, Transform};
use prism_engine::types::{GizmoTargetKind, SceneKind};

#[test]
fn scenes_are_matched_by_name_in_any_case() {
    assert_eq!(scene_kind_for_name("DecanterScene"), Some(SceneKind::Decanter));
    assert_eq!(scene_kind_for_name("Scene"), Some(SceneKind::Decanter));
    assert_eq!(scene_kind_for_name("Scene 2"), None);
    assert_eq!(scene_kind_for_name("WINE tasting"), Some(SceneKind::Wine));
    assert_eq!(scene_kind_for_name("Cornell Box"), Some(SceneKind::CornellBox));
    assert_eq!(scene_kind_for_name("Decanter and Wine"), Some(SceneKind::Decanter));
    assert_eq!(scene_kind_for_name(""), None);
}

#[test]
fn linked_objects_follow_the_first_matching_word() {
    assert_eq!(link_target_for_name("Decanter"), Some(GizmoTargetKind::Decanter));
    assert_eq!(link_target_for_name("WineGlass"), Some(GizmoTargetKind::WineGlass));
    assert_eq!(link_target_for_name("Spot Sun"), Some(GizmoTargetKind::WineSpotlight));
    assert_eq!(link_target_for_name("Sun Lamp"), Some(GizmoTargetKind::SunLamp));
    assert_eq!(link_target_for_name("cornell"), Some(GizmoTargetKind::CornellBox));
    assert_eq!(link_target_for_name("Cube.001"), Some(GizmoTargetKind::Sphere));
    assert_eq!(link_target_for_name("SPHERE"), Some(GizmoTargetKind::Sphere));
    assert_eq!(link_target_for_name("Camera"), None);
}

#[test]
fn posed_objects_put_sphere_first() {
    assert_eq!(pose_target_for_name("Cube Decanter"), Some(GizmoTargetKind::Sphere));
    assert_eq!(link_target_for_name("Cube Decanter"), Some(GizmoTargetKind::Decanter));
    assert_eq!(pose_target_for_name("Sun Spot"), Some(GizmoTargetKind::SunLamp));
    assert_eq!(pose_target_for_name("Spotlight"), Some(GizmoTargetKind::WineSpotlight));
    assert_eq!(pose_target_for_name("Cornell"), None);
}

#[test]
fn materials_go_to_the_glass_objects_and_the_box() {
    assert_eq!(material_target_for_name("Wine Glass"), Some(GizmoTargetKind::WineGlass));
    assert_eq!(material_target_for_name("cube"), Some(GizmoTargetKind::Sphere));
    assert_eq!(material_target_for_name("Cornell Box"), Some(GizmoTargetKind::CornellBox));
    assert_eq!(material_target_for_name("Sun"), None);
    assert_eq!(material_target_for_name("Old DECANTER"), Some(GizmoTargetKind::Decanter));
}

#[test]
fn a_name_and_its_lower_case_match_alike() {
    for name in ["Decanter Scene", "SCENE", "Wine Glass", "SpotLight", "SUN", "Cornell BOX", "Cube", "Camera"] {
        let lower = name.to_ascii_lowercase();
        assert_eq!(scene_kind_for_name(name), scene_kind_for_name(&lower));
        assert_eq!(link_target_for_name(name), link_target_for_name(&lower));
        assert_eq!(pose_target_for_name(name), pose_target_for_name(&lower));
        assert_eq!(material_target_for_name(name), material_target_for_name(&lower));
    }
}


fn roles() -> TargetObjects {
    TargetObjects { sphere: Id(1), decanter: Id(2), wine_glass: Id(3), cornell_box: Id(4), sun_lamp: Id(5), spotlight: Id(6) }
}

fn object(name: &str) -> ObjectData<f32> {
    ObjectData {
        name: name.to_string(),
        transform: Transform { location: [0.0; 3], rotation: [0.0, 0.0, 0.0, 1.0], scale: [1.0; 3] },
        mesh_id: None,
    }
}

fn scene(name: &str, objects: &[&str]) -> LoadedScene {
    LoadedScene { name: name.to_string(), object_names: objects.iter().map(|o| o.to_string()).collect() }
}

#[test]
fn an_opened_project_replaces_scenes_and_collections() {
    let mut db: MainDatabase<f32> = MainDatabase::new();
    for (id, name) in [(1, "Sphere"), (2, "Decanter"), (3, "Wine"), (4, "Cornell"), (5, "Sun"), (6, "Spot")] {
        db.objects.insert(id, object(name));
    }
    db.meshes.insert(9, MeshRecord { name: "m".to_string(), vertex_count: 3, user_count: 1 });
    db.collections.insert(50, CollectionData { name: "old".to_string(), object_ids: Vec::new(), child_collection_ids: Vec::new() });
    db.scenes.insert(51, SceneData { name: "old".to_string(), master_collection_id: Id(50), base_visibility: HashMap::new() });
    let scenes = vec![
        scene("Scene", &["Decanter.001", "Cube", "decanter", "Lamp"]),
        scene("Wine Tasting", &["WineGlass", "SpotLight"]),
        scene("Other", &[]),
    ];
    let objects = vec![
        LoadedObject { name: "Decanter".to_string(), material: Some("Crystal".to_string()) },
        LoadedObject { name: "Sun".to_string(), material: Some("Warm".to_string()) },
        LoadedObject { name: "Cube".to_string(), material: None },
    ];
    let mut materials = HashMap::new();
    materials.insert(77, "Stale".to_string());
    let mut dirty = false;
    let ids = adopt_loaded_project(&mut db, &scenes, &objects, roles(), &mut materials, &mut dirty);
    assert_eq!(
        ids,
        ProjectSceneIds {
            decanter_master: Id(10),
            decanter_scene: Id(11),
            wine_master: Id(12),
            wine_scene: Id(13),
            cornell_master: Id(0),
            cornell_scene: Id(0),
        }
    );
    assert_eq!(db.collections.len(), 3);
    assert_eq!(db.scenes.len(), 3);
    assert_eq!(db.collections[&10].name, "SceneMaster");
    assert_eq!(db.collections[&10].object_ids, vec![Id(2), Id(1)]);
    assert_eq!(db.collections[&12].object_ids, vec![Id(3), Id(6)]);
    assert!(db.collections[&14].object_ids.is_empty());
    assert_eq!(db.scenes[&11].master_collection_id, Id(10));
    assert_eq!(db.scenes[&13].name, "Wine Tasting");
    assert_eq!(db.scenes[&11].base_visibility.get(&2), Some(&true));
    assert_eq!(db.scenes[&11].base_visibility.len(), 2);
    assert_eq!(db.objects.len(), 6);
    let mut names: Vec<(u64, &str)> = materials.iter().map(|(k, v)| (*k, v.as_str())).collect();
    names.sort();
    assert_eq!(names, vec![(1, "Glass"), (2, "Crystal"), (3, "Glass"), (4, "Empty")]);
    assert!(dirty);
}
