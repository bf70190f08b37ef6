use std::collections::HashMap;

use prism_engine::camera_state::write_runtime_back_to_database;
use prism_engine::ecs::{CameraComponent, Entity, TransformComponent, World};
use prism_engine::ecs_sync::{
    db_transform_to_ecs, register_object_entity, sync_ecs_to_runtime, sync_ecs_visibility_to_main,
    sync_runtime_to_ecs,
};
use prism_engine::scene_data::{Id, MainDatabase, ObjectData, SceneData, Transform};
use prism_engine::types::{Camera, LightObjectInstance, MeshObjectInstance};

fn transform(x: f32) -> Transform<f32> {
    Transform { location: [x, 0.0, 0.0], rotation: [0.0, 0.0, 0.0, 1.0], scale: [1.0; 3] }
}

fn component(x: f32) -> TransformComponent<f32> {
    TransformComponent { translation: [x, 0.0, 0.0], rotation: [0.0, 0.0, 0.0, 1.0], scale: [1.0; 3] }
}

fn object(name: &str, x: f32, mesh: Option<Id>) -> ObjectData<f32> {
    ObjectData { name: name.to_string(), transform: transform(x), mesh_id: mesh }
}

fn scene(name: &str) -> SceneData {
    SceneData { name: name.to_string(), master_collection_id: Id(0), base_visibility: HashMap::new() }
}

fn camera() -> Camera<f32> {
    Camera { pos: [7.0, 8.0, 9.0], yaw: 0.5, pitch: -0.25 }
}

fn light(id: u64, x: f32) -> LightObjectInstance<f32> {
    LightObjectInstance {
        object_id: Id(id),
        position: [x, 0.0, 0.0],
        rotation: [0.0, 0.0, 0.0, 1.0],
        scale: [1.0; 3],
        intensity: 2.0,
    }
}

fn mesh_instance(id: u64) -> MeshObjectInstance<f32> {
    MeshObjectInstance {
        object_id: Id(id),
        mesh_asset_id: 0,
        vertex_start: 0,
        vertex_count: 0,
        index_start: 0,
        index_count: 0,
        material_start: 0,
        material_count: 0,
        base_positions: Vec::new(),
        base_normals: Vec::new(),
        pivot: [0.0; 3],
        max_extent: 1.0,
        rotation: [0.0, 1.0, 0.0, 0.0],
        translation: [0.0; 3],
        scale: [2.0; 3],
    }
}

#[test]
fn db_transform_to_ecs_copies_fields() {
    let t = Transform { location: [1.0, 2.0, 3.0], rotation: [0.0, 0.0, 1.0, 0.0], scale: [4.0; 3] };
    let c = db_transform_to_ecs(&t);
    assert_eq!(c.translation, [1.0, 2.0, 3.0]);
    assert_eq!(c.rotation, [0.0, 0.0, 1.0, 0.0]);
    assert_eq!(c.scale, [4.0; 3]);
}

#[test]
fn register_object_entity_adds_entity_with_mesh() {
    let mut world: World<f32> = World::new();
    let mut db: MainDatabase<f32> = MainDatabase::new();
    db.objects.insert(5, object("Decanter", 3.0, Some(Id(9))));
    register_object_entity(&mut world, &db, Id(5));
    assert_eq!(world.entities.len(), 1);
    assert_eq!(world.entities[0].id, Id(5));
    assert_eq!(world.entities[0].name, "Decanter");
    assert_eq!(world.transforms[&5].translation, [3.0, 0.0, 0.0]);
    assert_eq!(world.meshes.get(&5), Some(&0));
}

#[test]
fn register_object_entity_renames_existing_and_skips_missing() {
    let mut world: World<f32> = World::new();
    world.entities.push(Entity { id: Id(5), name: "Old".to_string() });
    let mut db: MainDatabase<f32> = MainDatabase::new();
    db.objects.insert(5, object("New", 1.0, None));
    register_object_entity(&mut world, &db, Id(5));
    assert_eq!(world.entities.len(), 1);
    assert_eq!(world.entities[0].name, "New");
    assert!(world.meshes.is_empty());
    register_object_entity(&mut world, &db, Id(6));
    assert_eq!(world.entities.len(), 1);
    assert!(!world.transforms.contains_key(&6));
}

#[test]
fn visibility_is_copied_into_every_scene() {
    let mut world: World<f32> = World::new();
    world.entities.push(Entity { id: Id(1), name: "a".to_string() });
    world.entities.push(Entity { id: Id(2), name: "b".to_string() });
    world.visibility.insert(2, false);
    let mut db: MainDatabase<f32> = MainDatabase::new();
    db.scenes.insert(10, scene("first"));
    let mut second = scene("second");
    second.base_visibility.insert(3, false);
    second.base_visibility.insert(1, false);
    db.scenes.insert(11, second);
    sync_ecs_visibility_to_main(&world, &mut db);
    for key in [10u64, 11] {
        let s = &db.scenes[&key];
        assert_eq!(s.base_visibility.get(&1), Some(&true));
        assert_eq!(s.base_visibility.get(&2), Some(&false));
    }
    assert_eq!(db.scenes[&11].base_visibility.get(&3), Some(&false));
    assert_eq!(db.scenes[&10].base_visibility.get(&3), None);
    assert_eq!(db.scenes[&11].name, "second");
}

#[test]
fn sync_runtime_to_ecs_layers_database_instances_lights_and_camera() {
    let mut world: World<f32> = World::new();
    world.entities.push(Entity { id: Id(1), name: "mesh".to_string() });
    world.entities.push(Entity { id: Id(2), name: "light".to_string() });
    world.entities.push(Entity { id: Id(3), name: "cam".to_string() });
    world.cameras.insert(3, CameraComponent { active: true, attached_to: None });
    let mut db: MainDatabase<f32> = MainDatabase::new();
    db.objects.insert(1, object("mesh", 1.0, None));
    db.objects.insert(2, object("light", 2.0, None));
    db.objects.insert(3, object("cam", 3.0, None));
    let instances = vec![mesh_instance(1), mesh_instance(4)];
    let centers = vec![[10.0, 11.0, 12.0], [0.0; 3]];
    let lights = vec![light(2, 20.0)];
    sync_runtime_to_ecs(&mut world, &db, &instances, &centers, &lights, &camera());
    assert_eq!(world.transforms[&1].translation, [10.0, 11.0, 12.0]);
    assert_eq!(world.transforms[&1].scale, [2.0; 3]);
    assert_eq!(world.transforms[&2].translation, [20.0, 0.0, 0.0]);
    assert_eq!(world.transforms[&3].translation, [7.0, 8.0, 9.0]);
    assert!(!world.transforms.contains_key(&4));
}

#[test]
fn sync_runtime_to_ecs_leaves_attached_camera() {
    let mut world: World<f32> = World::new();
    world.entities.push(Entity { id: Id(3), name: "cam".to_string() });
    world.cameras.insert(3, CameraComponent { active: true, attached_to: Some(Id(1)) });
    let mut db: MainDatabase<f32> = MainDatabase::new();
    db.objects.insert(3, object("cam", 3.0, None));
    sync_runtime_to_ecs(&mut world, &db, &[], &[], &[], &camera());
    assert_eq!(world.transforms[&3].translation, [3.0, 0.0, 0.0]);
}

#[test]
fn sync_ecs_to_runtime_writes_back_global_transforms() {
    let mut world: World<f32> = World::new();
    world.global_transforms.insert(1, component(10.0));
    world.global_transforms.insert(2, component(20.0));
    world.global_transforms.insert(3, component(30.0));
    world.cameras.insert(3, CameraComponent { active: true, attached_to: None });
    let mut db: MainDatabase<f32> = MainDatabase::new();
    db.objects.insert(1, object("one", 1.0, None));
    db.objects.insert(4, object("four", 4.0, None));
    let instances = vec![mesh_instance(5), mesh_instance(1), mesh_instance(1)];
    let mut lights = vec![light(2, 0.0), light(2, 0.5), light(6, 6.0)];
    let mut cam = camera();
    let moved = sync_ecs_to_runtime(&world, &mut db, &instances, &mut lights, &mut cam);
    assert_eq!(db.objects[&1].transform.location, [10.0, 0.0, 0.0]);
    assert_eq!(db.objects[&1].name, "one");
    assert_eq!(db.objects[&4].transform.location, [4.0, 0.0, 0.0]);
    assert_eq!(lights[0].position, [20.0, 0.0, 0.0]);
    assert_eq!(lights[0].intensity, 2.0);
    assert_eq!(lights[1].position, [0.5, 0.0, 0.0]);
    assert_eq!(lights[2].position, [6.0, 0.0, 0.0]);
    assert_eq!(moved.len(), 1);
    assert_eq!(moved[0].0, 1);
    assert_eq!(moved[0].1.translation, [10.0, 0.0, 0.0]);
    assert_eq!(cam.pos, [30.0, 0.0, 0.0]);
    assert_eq!(cam.yaw, 0.5);
}

#[test]
fn write_runtime_back_to_database_in_order() {
    let mut db: MainDatabase<f32> = MainDatabase::new();
    for id in 1..=8u64 {
        db.objects.insert(id, object("o", 0.0, None));
    }
    let instances = vec![mesh_instance(7)];
    let centers = vec![[70.0, 0.0, 0.0]];
    let lights = vec![light(8, 80.0), light(2, 21.0)];
    write_runtime_back_to_database(
        &mut db,
        (Id(1), transform(1.0)),
        (Id(2), transform(2.0)),
        (Id(3), transform(3.0)),
        0,
        &instances,
        &centers,
        (Id(4), transform(4.0)),
        &lights,
        (Id(5), transform(5.0)),
        (Id(6), transform(6.0)),
    );
    assert_eq!(db.objects[&1].transform.location, [1.0, 0.0, 0.0]);
    assert_eq!(db.objects[&2].transform.location, [21.0, 0.0, 0.0]);
    assert_eq!(db.objects[&7].transform.location, [70.0, 0.0, 0.0]);
    assert_eq!(db.objects[&8].transform.location, [80.0, 0.0, 0.0]);
    assert_eq!(db.objects[&6].transform.location, [6.0, 0.0, 0.0]);
    assert!(!db.objects.contains_key(&99));
}

#[test]
fn write_runtime_back_skips_instances_in_stress_scene() {
    let mut db: MainDatabase<f32> = MainDatabase::new();
    db.objects.insert(7, object("o", 0.0, None));
    let instances = vec![mesh_instance(7)];
    let centers = vec![[70.0, 0.0, 0.0]];
    write_runtime_back_to_database(
        &mut db,
        (Id(100), transform(1.0)),
        (Id(100), transform(2.0)),
        (Id(100), transform(3.0)),
        5,
        &instances,
        &centers,
        (Id(100), transform(4.0)),
        &[],
        (Id(100), transform(5.0)),
        (Id(100), transform(6.0)),
    );
    assert_eq!(db.objects[&7].transform.location, [0.0, 0.0, 0.0]);
    assert!(!db.objects.contains_key(&100));
}

#[test]
fn registering_twice_is_registering_once() {
    let mut db: MainDatabase<f32> = MainDatabase::new();
    db.objects.insert(5, object("Glass", 2.0, Some(Id(1))));
    let mut once: World<f32> = World::new();
    register_object_entity(&mut once, &db, Id(5));
    let mut twice: World<f32> = World::new();
    register_object_entity(&mut twice, &db, Id(5));
    register_object_entity(&mut twice, &db, Id(5));
    assert_eq!(once.entities.len(), twice.entities.len());
    assert_eq!(twice.entities[0].name, "Glass");
    assert_eq!(once.transforms[&5].translation, twice.transforms[&5].translation);
    assert_eq!(once.meshes, twice.meshes);
}

#[test]
fn syncing_twice_with_the_world_unchanged_is_syncing_once() {
    let mut world: World<f32> = World::new();
    world.global_transforms.insert(1, component(10.0));
    world.global_transforms.insert(2, component(20.0));
    world.global_transforms.insert(3, component(30.0));
    world.global_transforms.insert(8, component(80.0));
    world.cameras.insert(3, CameraComponent { active: true, attached_to: None });
    world.cameras.insert(8, CameraComponent { active: true, attached_to: None });
    let mut db: MainDatabase<f32> = MainDatabase::new();
    db.objects.insert(1, object("one", 1.0, None));
    db.objects.insert(4, object("four", 4.0, None));
    let instances = vec![mesh_instance(5), mesh_instance(1), mesh_instance(1)];
    let mut lights = vec![light(2, 0.0), light(2, 0.5), light(6, 6.0)];
    let mut cam = camera();
    let first = sync_ecs_to_runtime(&world, &mut db, &instances, &mut lights, &mut cam);
    let objects_once: Vec<(u64, [f32; 3])> = {
        let mut v: Vec<(u64, [f32; 3])> = db.objects.iter().map(|(k, o)| (*k, o.transform.location)).collect();
        v.sort_by_key(|(k, _)| *k);
        v
    };
    let lights_once: Vec<[f32; 3]> = lights.iter().map(|l| l.position).collect();
    let cam_once = cam.pos;
    let second = sync_ecs_to_runtime(&world, &mut db, &instances, &mut lights, &mut cam);
    let mut objects_twice: Vec<(u64, [f32; 3])> = db.objects.iter().map(|(k, o)| (*k, o.transform.location)).collect();
    objects_twice.sort_by_key(|(k, _)| *k);
    assert_eq!(objects_twice, objects_once);
    assert_eq!(lights.iter().map(|l| l.position).collect::<Vec<_>>(), lights_once);
    assert_eq!(cam.pos, cam_once);
    assert!(cam.pos == [30.0, 0.0, 0.0] || cam.pos == [80.0, 0.0, 0.0]);
    let key = |m: &Vec<(usize, TransformComponent<f32>)>| m.iter().map(|(i, t)| (*i, t.translation)).collect::<Vec<_>>();
    assert_eq!(key(&first), key(&second));
}
