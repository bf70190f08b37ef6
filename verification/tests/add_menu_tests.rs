use std::collections::HashMap;

use prism_engine::add_menu::{add_camera_object, add_empty_entity, add_mesh_object, add_object};
use prism_engine::geometry::ObjectPose;
use prism_engine::mesh::{MeshData, Vertex};
use prism_engine::text::numbered_name;
use prism_engine::ecs::World;
use prism_engine::scene_data::{CollectionData, Id, MainDatabase, MeshRecord, ObjectData, SceneData, Transform};
use prism_engine::types::GizmoTargetKind;

fn transform(x: f32) -> Transform<f32> {
    Transform { location: [x, 0.0, 0.0], rotation: [0.0, 0.0, 0.0, 1.0], scale: [1.0; 3] }
}

fn database() -> MainDatabase<f32> {
    let mut db: MainDatabase<f32> = MainDatabase::new();
    db.collections.insert(
        20,
        CollectionData { name: "DecanterMaster".to_string(), object_ids: vec![Id(3)], child_collection_ids: Vec::new() },
    );
    db.scenes.insert(
        30,
        SceneData { name: "Decanter".to_string(), master_collection_id: Id(20), base_visibility: HashMap::new() },
    );
    db.objects.insert(3, ObjectData { name: "Decanter".to_string(), transform: transform(0.0), mesh_id: Some(Id(1)) });
    db
}

#[test]
fn new_objects_take_the_next_unused_id() {
    let mut db = database();
    assert_eq!(db.create_object("Entity 1".to_string(), None, transform(1.0)), Some(Id(31)));
    assert_eq!(db.create_object("Entity 2".to_string(), None, transform(2.0)), Some(Id(32)));
    assert_eq!(db.objects[&31].name, "Entity 1");
    assert_eq!(db.objects[&32].transform.location, [2.0, 0.0, 0.0]);
    let mut empty: MainDatabase<f32> = MainDatabase::new();
    assert_eq!(empty.create_object("a".to_string(), None, transform(0.0)), Some(Id(1)));
    empty.collections.insert(
        u64::MAX,
        CollectionData { name: "full".to_string(), object_ids: Vec::new(), child_collection_ids: Vec::new() },
    );
    assert_eq!(empty.create_object("b".to_string(), None, transform(0.0)), None);
    assert_eq!(empty.objects.len(), 1);
}

#[test]
fn collections_list_an_object_once() {
    let mut db = database();
    db.collection_link_object(Id(20), Id(7));
    db.collection_link_object(Id(20), Id(7));
    db.collection_link_object(Id(21), Id(7));
    assert_eq!(db.collections[&20].object_ids, vec![Id(3), Id(7)]);
    assert_eq!(db.collections.len(), 1);
}

#[test]
fn an_added_object_is_listed_shown_registered_and_selected() {
    let mut db = database();
    let mut world: World<f32> = World::new();
    let mut targets = HashMap::new();
    let mut selected = Some(Id(3));
    let mut gizmo = GizmoTargetKind::Decanter;
    let mut has_selection = false;
    let mut suppress = false;
    let id = add_object(
        &mut db,
        &mut world,
        "Cube 1".to_string(),
        Some(Id(1)),
        transform(4.0),
        Id(20),
        Id(30),
        GizmoTargetKind::Sphere,
        &mut targets,
        &mut selected,
        &mut gizmo,
        &mut has_selection,
        &mut suppress,
    )
    .unwrap();
    assert!(suppress);
    assert_eq!(id, Id(31));
    assert_eq!(db.objects[&31].name, "Cube 1");
    assert_eq!(db.collections[&20].object_ids, vec![Id(3), Id(31)]);
    assert_eq!(db.scenes[&30].base_visibility.get(&31), Some(&true));
    assert_eq!(world.entities.len(), 1);
    assert_eq!(world.entities[0].id, Id(31));
    assert_eq!(world.transforms[&31].translation, [4.0, 0.0, 0.0]);
    assert_eq!(world.meshes.get(&31), Some(&0));
    assert_eq!(targets.get(&31), Some(&GizmoTargetKind::Sphere));
    assert_eq!(selected, Some(Id(31)));
    assert_eq!(gizmo, GizmoTargetKind::Sphere);
    assert!(has_selection);
}

#[test]
fn names_are_numbered_in_decimal() {
    assert_eq!(numbered_name("Entity", 1), "Entity 1");
    assert_eq!(numbered_name("Sun Lamp", 10), "Sun Lamp 10");
    assert_eq!(numbered_name("Cube", 907), "Cube 907");
    assert_eq!(numbered_name("", 0), " 0");
}

#[test]
fn the_menu_numbers_entities_and_cameras() {
    let mut db = database();
    let mut world: World<f32> = World::new();
    let mut targets = HashMap::new();
    let mut selected = None;
    let mut gizmo = GizmoTargetKind::SunLamp;
    let mut has_selection = false;
    let mut suppress = false;
    let first = add_empty_entity(
        &mut db, &mut world, transform(0.0), Id(20), Id(30), &mut targets, &mut selected, &mut gizmo,
        &mut has_selection, &mut suppress,
    )
    .unwrap();
    let second = add_empty_entity(
        &mut db, &mut world, transform(0.0), Id(20), Id(30), &mut targets, &mut selected, &mut gizmo,
        &mut has_selection, &mut suppress,
    )
    .unwrap();
    assert_eq!(db.objects[&first.0].name, "Entity 1");
    assert_eq!(db.objects[&second.0].name, "Entity 2");
    assert_eq!(gizmo, GizmoTargetKind::Decanter);
    assert_eq!(selected, Some(second));
    assert!(suppress && has_selection);
    let cam = add_camera_object(
        &mut db, &mut world, transform(5.0), Id(20), Id(30), &mut targets, &mut selected, &mut gizmo,
        &mut has_selection, &mut suppress,
    )
    .unwrap();
    assert_eq!(db.objects[&cam.0].name, "Camera 1");
    assert_eq!(db.objects[&cam.0].transform.location, [5.0, 0.0, 0.0]);
    assert_eq!(world.cameras[&cam.0].active, false);
    assert_eq!(world.cameras[&cam.0].attached_to, None);
    assert_eq!(db.collections[&20].object_ids, vec![Id(3), first, second, cam]);
}

fn triangle() -> MeshData<f32, u32> {
    let positions = vec![[0.0, 0.0, 0.0, 0.0], [1.0, 0.0, 0.0, 0.0], [0.0, 1.0, 0.0, 0.0]];
    MeshData {
        vertices: positions.iter().map(|p| Vertex { position: [p[0], p[1], p[2]] }).collect(),
        indices: vec![0, 1, 2],
        positions4: positions,
        normals4: vec![[0.0, 0.0, 1.0, 0.0]; 3],
        triangle_material_ids: vec![0],
        materials: vec![7],
    }
}

#[test]
fn a_cube_shares_its_mesh_and_joins_the_scene_mesh() {
    let mut db = database();
    db.meshes.insert(1, MeshRecord { name: "CubeMesh".to_string(), vertex_count: 3, user_count: 1 });
    let mut world: World<f32> = World::new();
    let mut combined = triangle();
    let mut targets = HashMap::new();
    let mut material_names = HashMap::new();
    let mut instances = Vec::new();
    let mut model_idx = Vec::new();
    let mut selected = None;
    let mut gizmo = GizmoTargetKind::SunLamp;
    let (mut has_selection, mut suppress, mut gpu, mut geometry, mut accumulation) = (false, false, false, false, false);
    let pose = ObjectPose { pivot: [0.5; 3], max_extent: 1.0, rotation: [0.0, 0.0, 0.0, 1.0], translation: [4.0, 0.0, 0.0], scale: [1.0; 3] };
    let id = add_mesh_object(
        &mut db, &mut world, &mut combined, triangle(), "Cube", Id(1), 0, pose, transform(0.0), Id(20), Id(30),
        "Glass", &mut targets, &mut material_names, &mut instances, &mut model_idx, &mut selected, &mut gizmo,
        &mut has_selection, &mut suppress, &mut gpu, &mut geometry, &mut accumulation,
    )
    .unwrap();
    assert_eq!(id, Id(31));
    assert_eq!(db.objects[&31].name, "Cube 1");
    assert_eq!(db.objects[&31].mesh_id, Some(Id(1)));
    assert_eq!(db.meshes[&1].user_count, 2);
    assert_eq!(combined.indices, vec![0, 1, 2, 3, 4, 5]);
    assert_eq!(combined.triangle_material_ids, vec![0, 1]);
    assert_eq!(model_idx, combined.indices);
    assert_eq!(instances.len(), 1);
    assert_eq!(instances[0].object_id, Id(31));
    assert_eq!(instances[0].vertex_start, 3);
    assert_eq!(instances[0].translation, [4.0, 0.0, 0.0]);
    assert_eq!(material_names.get(&31).map(|s: &String| s.as_str()), Some("Glass"));
    assert_eq!(targets.get(&31), Some(&GizmoTargetKind::Decanter));
    assert_eq!(world.meshes.get(&31), Some(&0));
    assert!(has_selection && suppress && gpu && geometry && accumulation);
}

#[test]
fn meshes_are_created_with_one_user() {
    let mut db = database();
    let id = db.create_mesh("PrismMesh1".to_string(), 6).unwrap();
    assert_eq!(id, Id(31));
    assert_eq!(db.meshes[&31].user_count, 1);
    assert_eq!(db.meshes[&31].vertex_count, 6);
    db.add_mesh_user(id);
    db.add_mesh_user(Id(99));
    assert_eq!(db.meshes[&31].user_count, 2);
    assert_eq!(db.meshes.len(), 1);
    assert_eq!(db.create_object("Prism 1".to_string(), Some(id), transform(0.0)), Some(Id(32)));
}
