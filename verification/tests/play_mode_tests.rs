use prism_engine::ecs::{CameraComponent, ColliderShape, PhysicsComponent, TransformComponent, World};
use prism_engine::input::KeySet;
use prism_engine::play_mode::{movement_keys, PlayMode, PlayerInputBindings};
use prism_engine::scene_data::{Id, MainDatabase, ObjectData, Transform};
use prism_engine::types::Camera;

fn pose(y: f32) -> TransformComponent<f32> {
    TransformComponent { translation: [0.0, y, 0.0], rotation: [0.0, 0.0, 0.0, 1.0], scale: [1.0; 3] }
}

fn body() -> PhysicsComponent<f32> {
    PhysicsComponent { velocity: [0.0; 3], mass: 1.0, dynamic: true }
}

fn start(mode: &mut PlayMode<f32>, world: &mut World<f32>, db: &mut MainDatabase<f32>, camera: &Camera<f32>) {
    mode.start(
        world,
        db,
        Id(1),
        Id(2),
        camera,
        pose(-0.6),
        pose(1.55),
        body(),
        ColliderShape::Box { half_extents: [0.35, 0.9, 0.35] },
        ColliderShape::Plane { normal: [0.0, 1.0, 0.0], offset: -1.5 },
    );
}

#[test]
fn default_bindings_are_wasd_and_shift() {
    let b = PlayerInputBindings::default();
    assert_eq!((b.move_forward, b.move_backward, b.move_left, b.move_right, b.sprint), ("w", "s", "a", "d", "Shift"));
}

#[test]
fn movement_keys_follow_bindings() {
    let mut keys = KeySet::new();
    keys.insert("w".to_string());
    keys.insert("Shift".to_string());
    let held = movement_keys(&PlayerInputBindings::default(), &keys);
    assert!(held.forward && held.sprint);
    assert!(!held.backward && !held.left && !held.right);
}

#[test]
fn start_sets_up_player_and_camera() {
    let mut mode: PlayMode<f32> = PlayMode::default();
    let mut world: World<f32> = World::new();
    world.cameras.insert(9, CameraComponent { active: true, attached_to: None });
    let mut db: MainDatabase<f32> = MainDatabase::new();
    db.objects.insert(1, ObjectData { name: "Player".to_string(), transform: Transform { location: [5.0; 3], rotation: [0.0, 0.0, 0.0, 1.0], scale: [1.0; 3] }, mesh_id: None });
    let cam = Camera { pos: [1.0, 2.0, 3.0], yaw: 0.3, pitch: 0.1 };
    start(&mut mode, &mut world, &mut db, &cam);
    assert!(mode.active);
    assert_eq!(mode.look_angles(), (0.3, 0.1));
    assert_eq!(db.objects[&1].transform.location, [0.0, -0.6, 0.0]);
    assert!(!db.objects.contains_key(&2));
    assert_eq!(world.transforms[&2].translation, [0.0, 1.55, 0.0]);
    assert_eq!(world.parents.get(&2), Some(&Id(1)));
    assert!(world.physics.contains_key(&1));
    assert!(world.colliders.contains_key(&1));
    assert!(world.colliders.contains_key(&0));
    assert_eq!(world.scripts[&1], "player_controller.lua");
    assert!(!world.cameras[&9].active);
    assert!(world.cameras[&2].active);
    assert_eq!(world.cameras[&2].attached_to, Some(Id(1)));
}

#[test]
fn stop_restores_the_camera_of_the_first_start() {
    let mut mode: PlayMode<f32> = PlayMode::default();
    let mut world: World<f32> = World::new();
    let mut db: MainDatabase<f32> = MainDatabase::new();
    let first = Camera { pos: [1.0, 2.0, 3.0], yaw: 0.3, pitch: 0.1 };
    let second = Camera { pos: [4.0, 5.0, 6.0], yaw: 0.9, pitch: 0.2 };
    start(&mut mode, &mut world, &mut db, &first);
    start(&mut mode, &mut world, &mut db, &second);
    let mut current = Camera { pos: [0.0; 3], yaw: 0.0, pitch: 0.0 };
    mode.stop(&mut world, Id(2), &mut current);
    assert_eq!(current.pos, [1.0, 2.0, 3.0]);
    assert_eq!(current.yaw, 0.3);
    assert!(!mode.active);
    assert!(!world.parents.contains_key(&2));
    assert!(!world.cameras[&2].active);
    assert_eq!(world.cameras[&2].attached_to, None);
    let mut again = Camera { pos: [8.0; 3], yaw: 1.0, pitch: 1.0 };
    mode.stop(&mut world, Id(2), &mut again);
    assert_eq!(again.pos, [8.0; 3]);
}

#[test]
fn turning_only_while_playing() {
    let mut mode: PlayMode<f32> = PlayMode::default();
    mode.turn_to(1.0, 0.5);
    assert_eq!(mode.look_angles(), (0.0, 0.0));
    let mut world: World<f32> = World::new();
    let mut db: MainDatabase<f32> = MainDatabase::new();
    start(&mut mode, &mut world, &mut db, &Camera { pos: [0.0; 3], yaw: 0.2, pitch: 0.0 });
    mode.turn_to(1.0, 0.5);
    assert_eq!(mode.look_angles(), (1.0, 0.5));
}
