//! Keeping the entity component world, the scene database and the runtime's
//! object instances in step with each other.

use vstd::prelude::*;
use crate::ecs::{entities_after_register, same_bodies, TransformComponent, World};
use crate::types::{collect_light_ids, light_ids, Camera, LightObjectInstance, MeshObjectInstance};
use crate::geometry::{collect_instance_ids, instance_ids};
use crate::scene_data::{
    collect_keys, find_first, is_first_position, Id, MainDatabase, ObjectData, SceneView, Transform,
};

verus! {

/// The world's transform for an object placed as `transform` in the
/// database: the same location, rotation and scale.
pub open spec fn spec_db_transform_to_ecs<S>(transform: Transform<S>) -> TransformComponent<S> {
    TransformComponent {
        translation: transform.location,
        rotation: transform.rotation,
        scale: transform.scale,
    }
}

/// The world's transform for an object placed as `transform` in the
/// database.
pub fn db_transform_to_ecs<S: Copy>(transform: &Transform<S>) -> (component: TransformComponent<S>)
    ensures
        component == spec_db_transform_to_ecs(*transform),
{
    TransformComponent {
        translation: transform.location,
        rotation: transform.rotation,
        scale: transform.scale,
    }
}

/// Registers the database object `object_id` as an entity of the world, with
/// its name and transform, and records that it shows mesh 0 when it has a
/// mesh. An id the database does not hold leaves the world unchanged.
pub fn register_object_entity<S: Copy>(world: &mut World<S>, main_db: &MainDatabase<S>, object_id: Id)
    ensures
        !main_db.objects@.contains_key(object_id.0) ==> final(world).entities_view() == old(world).entities_view() && final(world).transforms@ == old(world).transforms@ && final(world).meshes@ == old(world).meshes@,
        main_db.objects@.contains_key(object_id.0) ==> {
            let obj = main_db.objects@[object_id.0];
            &&& final(world).transforms@ == old(world).transforms@.insert(
                object_id.0,
                spec_db_transform_to_ecs(obj.transform),
            )
            &&& final(world).meshes@ == if obj.mesh_id is Some {
                old(world).meshes@.insert(object_id.0, 0)
            } else {
                old(world).meshes@
            }
            &&& final(world).entities_view() == entities_after_register(
                old(world).entities_view(),
                object_id,
                obj.name@,
            )
        },
        final(world).global_transforms@ == old(world).global_transforms@,
        final(world).visibility@ == old(world).visibility@,
        same_bodies(*final(world), *old(world)),
        final(world).cameras@ == old(world).cameras@,
{
    if let Some(obj) = main_db.objects.get(&object_id.0) {
        world.register_existing(object_id, obj.name.clone(), db_transform_to_ecs(&obj.transform));
        if obj.mesh_id.is_some() {
            world.attach_mesh(object_id, 0);
        }
    }
}

/// A scene whose base visibility of each entity of `world` has been set to
/// the entity's visibility in the world.
pub open spec fn scene_with_world_visibility<S>(scene: SceneView, world: &World<S>) -> SceneView {
    SceneView {
        base_visibility: scene.base_visibility.union_prefer_right(world.visibility_of_entities()),
        ..scene
    }
}

/// Copies the visibility of every entity of the world into the base
/// visibility of every scene of the database.
pub fn sync_ecs_visibility_to_main<S>(world: &World<S>, main_db: &mut MainDatabase<S>)
    ensures
        final(main_db).objects@ == old(main_db).objects@,
        final(main_db).collections@ == old(main_db).collections@,
        final(main_db).meshes@ == old(main_db).meshes@,
        final(main_db).scenes@.dom() == old(main_db).scenes@.dom(),
        forall|k: u64| #[trigger]
            old(main_db).scenes@.contains_key(k) ==> final(main_db).scenes_view()[k]
                == scene_with_world_visibility(old(main_db).scenes_view()[k], world),
{
    let scene_ids = main_db.scene_ids();
    let ghost start = main_db.scenes_view();
    let n = scene_ids.len();
    let mut i: usize = 0;
    while i < n
        invariant
            n == scene_ids@.len(),
            0 <= i <= n,
            scene_ids@.no_duplicates(),
            forall|k: u64| #[trigger]
                old(main_db).scenes@.contains_key(k) <==> scene_ids@.contains(Id(k)),
            start == old(main_db).scenes_view(),
            main_db.objects@ == old(main_db).objects@,
            main_db.collections@ == old(main_db).collections@,
            main_db.meshes@ == old(main_db).meshes@,
            main_db.scenes@.dom() == old(main_db).scenes@.dom(),
            forall|k: u64| #[trigger]
                old(main_db).scenes@.contains_key(k) ==> main_db.scenes_view()[k] == if scene_ids@.take(
                    i as int,
                ).contains(Id(k)) {
                    scene_with_world_visibility(start[k], world)
                } else {
                    start[k]
                },
        decreases n - i,
    {
        let scene_id = scene_ids[i];
        proof {
            assert(scene_ids@.contains(scene_id));
            assert(!scene_ids@.take(i as int).contains(scene_id));
        }
        sync_scene_visibility(world, main_db, scene_id);
        proof {
            assert forall|k: u64| #[trigger]
                old(main_db).scenes@.contains_key(k) implies main_db.scenes_view()[k] == if scene_ids@.take(
                    i + 1,
                ).contains(Id(k)) {
                    scene_with_world_visibility(start[k], world)
                } else {
                    start[k]
                } by {
                if k == scene_id.0 {
                    assert(scene_ids@.take(i + 1)[i as int] == scene_id);
                } else {
                    if scene_ids@.take(i + 1).contains(Id(k)) {
                        let j = choose|j: int| 0 <= j < i + 1 && #[trigger] scene_ids@.take(i + 1)[j] == Id(k);
                        assert(j != i);
                        assert(scene_ids@.take(i as int)[j] == Id(k));
                    }
                    if scene_ids@.take(i as int).contains(Id(k)) {
                        let j = choose|j: int| 0 <= j < i && #[trigger] scene_ids@.take(i as int)[j] == Id(k);
                        assert(scene_ids@.take(i + 1)[j] == Id(k));
                    }
                }
            }
        }
        i = i + 1;
    }
    proof {
        assert(scene_ids@.take(n as int) =~= scene_ids@);
    }
}

/// Copies the visibility of every entity of the world into the base
/// visibility of scene `scene_id`, which the database holds.
fn sync_scene_visibility<S>(world: &World<S>, main_db: &mut MainDatabase<S>, scene_id: Id)
    requires
        old(main_db).scenes@.contains_key(scene_id.0),
    ensures
        final(main_db).objects@ == old(main_db).objects@,
        final(main_db).collections@ == old(main_db).collections@,
        final(main_db).meshes@ == old(main_db).meshes@,
        final(main_db).scenes@.dom() == old(main_db).scenes@.dom(),
        final(main_db).scenes_view() == old(main_db).scenes_view().insert(
            scene_id.0,
            scene_with_world_visibility(old(main_db).scenes_view()[scene_id.0], world),
        ),
{
    let ghost start = main_db.scenes_view();
    let ghost scene = start[scene_id.0];
    let n = world.entities.len();
    let mut j: usize = 0;
    proof {
        let none = Map::new(
            |key: u64| exists|e: int| 0 <= e < 0 && #[trigger] world.entities@[e].id.0 == key,
            |key: u64| world.spec_is_visible(Id(key)),
        );
        assert(none =~= Map::<u64, bool>::empty());
        assert(scene.base_visibility.union_prefer_right(none) =~= scene.base_visibility);
        assert(start.insert(scene_id.0, SceneView { base_visibility: scene.base_visibility, ..scene })
            =~= start);
    }
    while j < n
        invariant
            n == world.entities@.len(),
            0 <= j <= n,
            main_db.objects@ == old(main_db).objects@,
            main_db.collections@ == old(main_db).collections@,
            main_db.meshes@ == old(main_db).meshes@,
            main_db.scenes@.dom() == old(main_db).scenes@.dom(),
            main_db.scenes@.contains_key(scene_id.0),
            start == old(main_db).scenes_view(),
            scene == start[scene_id.0],
            main_db.scenes_view() == start.insert(
                scene_id.0,
                SceneView {
                    base_visibility: scene.base_visibility.union_prefer_right(
                        Map::new(
                            |key: u64|
                                exists|e: int| 0 <= e < j && #[trigger] world.entities@[e].id.0 == key,
                            |key: u64| world.spec_is_visible(Id(key)),
                        ),
                    ),
                    ..scene
                },
            ),
        decreases n - j,
    {
        let id = world.entities[j].id;
        let visible = world.is_visible(id);
        main_db.set_scene_base_visibility(scene_id, id, visible);
        proof {
            let prev = Map::new(
                |key: u64| exists|e: int| 0 <= e < j && #[trigger] world.entities@[e].id.0 == key,
                |key: u64| world.spec_is_visible(Id(key)),
            );
            let next = Map::new(
                |key: u64| exists|e: int| 0 <= e < j + 1 && #[trigger] world.entities@[e].id.0 == key,
                |key: u64| world.spec_is_visible(Id(key)),
            );
            assert(world.entities@[j as int].id.0 == id.0);
            assert(scene.base_visibility.union_prefer_right(prev).insert(id.0, visible)
                =~= scene.base_visibility.union_prefer_right(next)) by {
                assert forall|key: u64| next.contains_key(key) && key != id.0 implies prev.contains_key(
                    key,
                ) by {
                    let e = choose|e: int| 0 <= e < j + 1 && #[trigger] world.entities@[e].id.0 == key;
                    assert(e != j);
                }
            }
        }
        j = j + 1;
    }
    proof {
        let all = Map::new(
            |key: u64| exists|e: int| 0 <= e < n && #[trigger] world.entities@[e].id.0 == key,
            |key: u64| world.spec_is_visible(Id(key)),
        );
        assert(all =~= world.visibility_of_entities());
        assert(main_db.scenes_view() =~= start.insert(
            scene_id.0,
            scene_with_world_visibility(scene, world),
        ));
    }
}

/// The local transforms after each registered entity that the database
/// holds takes its database transform.
pub open spec fn with_db_transforms<S>(
    transforms: Map<u64, TransformComponent<S>>,
    world: &World<S>,
    main_db: &MainDatabase<S>,
) -> Map<u64, TransformComponent<S>> {
    transforms.union_prefer_right(
        Map::new(
            |k: u64| world.has_entity_key(k) && main_db.objects@.contains_key(k),
            |k: u64| spec_db_transform_to_ecs(main_db.objects@[k].transform),
        ),
    )
}

/// The local transforms after each mesh instance, in order, whose object
/// has a transform sets it to its centre, rotation and scale.
pub open spec fn with_instance_poses<S>(
    transforms: Map<u64, TransformComponent<S>>,
    instances: Seq<MeshObjectInstance<S>>,
    centers: Seq<[S; 3]>,
) -> Map<u64, TransformComponent<S>>
    decreases instances.len(),
{
    if instances.len() == 0 {
        transforms
    } else {
        let prev = with_instance_poses(transforms, instances.drop_last(), centers.drop_last());
        let inst = instances.last();
        if prev.contains_key(inst.object_id.0) {
            prev.insert(
                inst.object_id.0,
                TransformComponent {
                    translation: centers.last(),
                    rotation: inst.rotation,
                    scale: inst.scale,
                },
            )
        } else {
            prev
        }
    }
}

/// The local transforms after each light, in order, whose object has a
/// transform sets it to its position, rotation and scale.
pub open spec fn with_light_poses<S>(
    transforms: Map<u64, TransformComponent<S>>,
    lights: Seq<LightObjectInstance<S>>,
) -> Map<u64, TransformComponent<S>>
    decreases lights.len(),
{
    if lights.len() == 0 {
        transforms
    } else {
        let prev = with_light_poses(transforms, lights.drop_last());
        let light = lights.last();
        if prev.contains_key(light.object_id.0) {
            prev.insert(
                light.object_id.0,
                TransformComponent {
                    translation: light.position,
                    rotation: light.rotation,
                    scale: light.scale,
                },
            )
        } else {
            prev
        }
    }
}

/// The local transforms after the active camera `camera_id` follows the
/// editor camera to `pos`: it does unless it rides on an entity or has no
/// transform.
pub open spec fn with_camera_position<S>(
    transforms: Map<u64, TransformComponent<S>>,
    world: &World<S>,
    camera_id: Id,
    pos: [S; 3],
) -> Map<u64, TransformComponent<S>> {
    if world.cameras@[camera_id.0].attached_to is Some || !transforms.contains_key(camera_id.0) {
        transforms
    } else {
        transforms.insert(
            camera_id.0,
            TransformComponent { translation: pos, ..transforms[camera_id.0] },
        )
    }
}

/// Sets the local transform of each mesh instance's object to the
/// instance's pose, in order.
fn apply_instance_poses<S: Copy>(
    world: &mut World<S>,
    mesh_instances: &[MeshObjectInstance<S>],
    mesh_centers: &[[S; 3]],
)
    requires
        mesh_centers@.len() == mesh_instances@.len(),
    ensures
        final(world).transforms@ == with_instance_poses(
            old(world).transforms@,
            mesh_instances@,
            mesh_centers@,
        ),
        final(world).entities@ == old(world).entities@,
        final(world).cameras@ == old(world).cameras@,
        final(world).global_transforms@ == old(world).global_transforms@,
        final(world).meshes@ == old(world).meshes@,
        final(world).visibility@ == old(world).visibility@,
        same_bodies(*final(world), *old(world)),
{
    let n = mesh_instances.len();
    let mut i: usize = 0;
    while i < n
        invariant
            n == mesh_instances@.len(),
            n == mesh_centers@.len(),
            0 <= i <= n,
            world.transforms@ == with_instance_poses(
                old(world).transforms@,
                mesh_instances@.take(i as int),
                mesh_centers@.take(i as int),
            ),
            world.entities@ == old(world).entities@,
            world.cameras@ == old(world).cameras@,
            world.global_transforms@ == old(world).global_transforms@,
            world.meshes@ == old(world).meshes@,
            world.visibility@ == old(world).visibility@,
            same_bodies(*world, *old(world)),
        decreases n - i,
    {
        proof {
            assert(mesh_instances@.take(i + 1).drop_last() =~= mesh_instances@.take(i as int));
            assert(mesh_centers@.take(i + 1).drop_last() =~= mesh_centers@.take(i as int));
        }
        let inst = &mesh_instances[i];
        if world.transforms.contains_key(&inst.object_id.0) {
            world.transforms.insert(
                inst.object_id.0,
                TransformComponent {
                    translation: mesh_centers[i],
                    rotation: inst.rotation,
                    scale: inst.scale,
                },
            );
        }
        i = i + 1;
    }
    assert(mesh_instances@.take(n as int) =~= mesh_instances@);
    assert(mesh_centers@.take(n as int) =~= mesh_centers@);
}

/// Sets the local transform of each light's object to the light's pose, in
/// order.
fn apply_light_poses<S: Copy>(world: &mut World<S>, light_instances: &[LightObjectInstance<S>])
    ensures
        final(world).transforms@ == with_light_poses(old(world).transforms@, light_instances@),
        final(world).entities@ == old(world).entities@,
        final(world).cameras@ == old(world).cameras@,
        final(world).global_transforms@ == old(world).global_transforms@,
        final(world).meshes@ == old(world).meshes@,
        final(world).visibility@ == old(world).visibility@,
        same_bodies(*final(world), *old(world)),
{
    let n = light_instances.len();
    let mut i: usize = 0;
    while i < n
        invariant
            n == light_instances@.len(),
            0 <= i <= n,
            world.transforms@ == with_light_poses(
                old(world).transforms@,
                light_instances@.take(i as int),
            ),
            world.entities@ == old(world).entities@,
            world.cameras@ == old(world).cameras@,
            world.global_transforms@ == old(world).global_transforms@,
            world.meshes@ == old(world).meshes@,
            world.visibility@ == old(world).visibility@,
            same_bodies(*world, *old(world)),
        decreases n - i,
    {
        proof {
            assert(light_instances@.take(i + 1).drop_last() =~= light_instances@.take(i as int));
        }
        let light = &light_instances[i];
        if world.transforms.contains_key(&light.object_id.0) {
            world.transforms.insert(
                light.object_id.0,
                TransformComponent {
                    translation: light.position,
                    rotation: light.rotation,
                    scale: light.scale,
                },
            );
        }
        i = i + 1;
    }
    assert(light_instances@.take(n as int) =~= light_instances@);
}

/// Copies the runtime's state into the world's local transforms: first each
/// registered entity that the database holds takes its database transform,
/// then each mesh instance's object takes the instance's pose (its centre
/// given in `mesh_centers`, one per instance), then each light's object the
/// light's pose; last, an active camera that rides on no entity follows the
/// editor camera's position. Only transforms are changed.
pub fn sync_runtime_to_ecs<S: Copy>(
    world: &mut World<S>,
    main_db: &MainDatabase<S>,
    mesh_instances: &[MeshObjectInstance<S>],
    mesh_centers: &[[S; 3]],
    light_instances: &[LightObjectInstance<S>],
    camera: &Camera<S>,
)
    requires
        mesh_centers@.len() == mesh_instances@.len(),
    ensures
        ({
            let posed = with_light_poses(
                with_instance_poses(
                    with_db_transforms(old(world).transforms@, old(world), main_db),
                    mesh_instances@,
                    mesh_centers@,
                ),
                light_instances@,
            );
            &&& !old(world).has_active_camera() ==> final(world).transforms@ == posed
            &&& old(world).has_active_camera() ==> exists|c: Id|
                #![trigger old(world).cameras@[c.0]]
                old(world).cameras@.contains_key(c.0) && old(world).cameras@[c.0].active
                    && final(world).transforms@ == with_camera_position(
                    posed,
                    old(world),
                    c,
                    camera.pos,
                )
        }),
        final(world).entities@ == old(world).entities@,
        final(world).cameras@ == old(world).cameras@,
        final(world).global_transforms@ == old(world).global_transforms@,
        final(world).meshes@ == old(world).meshes@,
        final(world).visibility@ == old(world).visibility@,
        same_bodies(*final(world), *old(world)),
{
    let ghost start = world.transforms@;
    let n = world.entities.len();
    let mut i: usize = 0;
    while i < n
        invariant
            n == world.entities@.len(),
            0 <= i <= n,
            world.entities@ == old(world).entities@,
            world.cameras@ == old(world).cameras@,
            world.global_transforms@ == old(world).global_transforms@,
            world.meshes@ == old(world).meshes@,
            world.visibility@ == old(world).visibility@,
            same_bodies(*world, *old(world)),
            start == old(world).transforms@,
            world.transforms@ == start.union_prefer_right(
                Map::new(
                    |k: u64|
                        (exists|e: int| 0 <= e < i && #[trigger] old(world).entities@[e].id.0 == k)
                            && main_db.objects@.contains_key(k),
                    |k: u64| spec_db_transform_to_ecs(main_db.objects@[k].transform),
                ),
            ),
        decreases n - i,
    {
        let id = world.entities[i].id;
        let ghost prev = world.transforms@;
        match main_db.objects.get(&id.0) {
            Some(obj) => {
                world.transforms.insert(id.0, db_transform_to_ecs(&obj.transform));
            },
            None => {},
        }
        proof {
            let next = Map::new(
                |k: u64|
                    (exists|e: int| 0 <= e < i + 1 && #[trigger] old(world).entities@[e].id.0 == k)
                        && main_db.objects@.contains_key(k),
                |k: u64| spec_db_transform_to_ecs(main_db.objects@[k].transform),
            );
            assert(old(world).entities@[i as int].id.0 == id.0);
            assert forall|k: u64| next.contains_key(k) && k != id.0 implies (exists|e: int|
                0 <= e < i && #[trigger] old(world).entities@[e].id.0 == k) by {
                let e = choose|e: int| 0 <= e < i + 1 && #[trigger] old(world).entities@[e].id.0 == k;
                assert(e != i);
            }
            assert(world.transforms@ =~= start.union_prefer_right(next));
        }
        i = i + 1;
    }
    proof {
        assert(world.transforms@ =~= with_db_transforms(start, old(world), main_db));
    }
    apply_instance_poses(world, mesh_instances, mesh_centers);
    apply_light_poses(world, light_instances);
    let ghost posed = world.transforms@;
    match world.active_camera() {
        Some(camera_id) => {
            let attached = match world.cameras.get(&camera_id.0) {
                Some(component) => component.attached_to.is_some(),
                None => false,
            };
            if attached {
                assert(world.transforms@ == with_camera_position(posed, old(world), camera_id, camera.pos));
                return;
            }
            match world.transforms.get(&camera_id.0) {
                Some(current) => {
                    let moved = TransformComponent { translation: camera.pos, ..*current };
                    world.transforms.insert(camera_id.0, moved);
                },
                None => {},
            }
            assert(world.transforms@ =~= with_camera_position(posed, old(world), camera_id, camera.pos));
        },
        None => {},
    }
}

/// The database transform for an entity placed as `component` in the world.
pub open spec fn db_transform_from_ecs<S>(component: TransformComponent<S>) -> Transform<S> {
    Transform {
        location: component.translation,
        rotation: component.rotation,
        scale: component.scale,
    }
}

/// The database objects after each object with a global transform in the
/// world takes that transform.
pub open spec fn objects_from_world<S>(
    objects: Map<u64, ObjectData<S>>,
    global: Map<u64, TransformComponent<S>>,
) -> Map<u64, ObjectData<S>> {
    Map::new(
        |k: u64| objects.contains_key(k),
        |k: u64|
            if global.contains_key(k) {
                ObjectData { transform: db_transform_from_ecs(global[k]), ..objects[k] }
            } else {
                objects[k]
            },
    )
}

/// A light moved to the pose `component`.
pub open spec fn light_from_world<S>(
    light: LightObjectInstance<S>,
    component: TransformComponent<S>,
) -> LightObjectInstance<S> {
    LightObjectInstance {
        position: component.translation,
        rotation: component.rotation,
        scale: component.scale,
        ..light
    }
}

/// The light at position `i` of `lights` after the first light of each
/// object with a global transform takes that transform.
pub open spec fn synced_light<S>(
    lights: Seq<LightObjectInstance<S>>,
    global: Map<u64, TransformComponent<S>>,
    i: int,
) -> LightObjectInstance<S> {
    let light = lights[i];
    if global.contains_key(light.object_id.0) && is_first_position(
        light_ids(lights),
        light.object_id,
        i,
    ) {
        light_from_world(light, global[light.object_id.0])
    } else {
        light
    }
}

/// The lights after the first light of each object with a global
/// transform takes that transform.
pub open spec fn synced_lights<S>(
    lights: Seq<LightObjectInstance<S>>,
    global: Map<u64, TransformComponent<S>>,
) -> Seq<LightObjectInstance<S>> {
    Seq::new(lights.len(), |i: int| synced_light(lights, global, i))
}

/// The editor camera after the world's chosen active camera, where it has
/// a global transform, lends the camera its position.
pub open spec fn camera_from_world<S>(world: &World<S>, camera: Camera<S>) -> Camera<S> {
    match world.chosen_camera() {
        Some(c) => if world.global_transforms@.contains_key(c.0) {
            Camera { pos: world.global_transforms@[c.0].translation, ..camera }
        } else {
            camera
        },
        None => camera,
    }
}

/// The mesh instance at position `i` is the first of its object, and the
/// object has the global transform `t` in the world.
pub open spec fn instance_follows<S>(
    instances: Seq<MeshObjectInstance<S>>,
    global: Map<u64, TransformComponent<S>>,
    i: int,
    t: TransformComponent<S>,
) -> bool {
    &&& 0 <= i < instances.len()
    &&& is_first_position(instance_ids(instances), instances[i].object_id, i)
    &&& global.contains_key(instances[i].object_id.0)
    &&& t == global[instances[i].object_id.0]
}

/// Copies the world's global transforms back into the runtime: every
/// database object and the first light of every object that has a global
/// transform take it, and an active camera's global position, if it has
/// one, becomes the editor camera's position. The first mesh instance of
/// each object with a global transform is returned with that transform,
/// each once, for the caller to re-pose it about its pivot.
pub fn sync_ecs_to_runtime<S: Copy>(
    world: &World<S>,
    main_db: &mut MainDatabase<S>,
    mesh_instances: &[MeshObjectInstance<S>],
    light_instances: &mut [LightObjectInstance<S>],
    camera: &mut Camera<S>,
) -> (moved: Vec<(usize, TransformComponent<S>)>)
    ensures
        final(main_db).objects@ == objects_from_world(old(main_db).objects@, world.global_transforms@),
        final(main_db).scenes@ == old(main_db).scenes@,
        final(main_db).collections@ == old(main_db).collections@,
        final(main_db).meshes@ == old(main_db).meshes@,
        final(light_instances)@ == synced_lights(old(light_instances)@, world.global_transforms@),
        moved@.no_duplicates(),
        forall|i: usize, t: TransformComponent<S>| #[trigger]
            moved@.contains((i, t)) <==> instance_follows(
                mesh_instances@,
                world.global_transforms@,
                i as int,
                t,
            ),
        *final(camera) == camera_from_world(world, *old(camera)),
        !world.has_active_camera() ==> *final(camera) == *old(camera),
        world.has_active_camera() ==> exists|c: Id|
            #![trigger world.cameras@[c.0]]
            world.cameras@.contains_key(c.0) && world.cameras@[c.0].active && *final(camera) == if world.global_transforms@.contains_key(c.0) {
                Camera { pos: world.global_transforms@[c.0].translation, ..*old(camera) }
            } else {
                *old(camera)
            },
{
    let keys = collect_keys(&world.global_transforms);
    let instance_keys = collect_instance_ids(mesh_instances);
    let light_keys = collect_light_ids(light_instances);
    let ghost old_lights = light_instances@;
    let ghost old_objects = main_db.objects@;
    let ghost g = world.global_transforms@;
    let mut moved: Vec<(usize, TransformComponent<S>)> = Vec::new();
    let n = keys.len();
    let mut i: usize = 0;
    while i < n
        invariant
            n == keys@.len(),
            0 <= i <= n,
            g == world.global_transforms@,
            keys@.no_duplicates(),
            forall|k: u64| #[trigger] g.contains_key(k) <==> keys@.contains(Id(k)),
            instance_keys@ == instance_ids(mesh_instances@),
            light_keys@ == light_ids(old_lights),
            old_lights == old(light_instances)@,
            old_objects == old(main_db).objects@,
            main_db.scenes@ == old(main_db).scenes@,
            main_db.collections@ == old(main_db).collections@,
            main_db.meshes@ == old(main_db).meshes@,
            main_db.objects@ == Map::new(
                |k: u64| old_objects.contains_key(k),
                |k: u64|
                    if keys@.take(i as int).contains(Id(k)) {
                        ObjectData { transform: db_transform_from_ecs(g[k]), ..old_objects[k] }
                    } else {
                        old_objects[k]
                    },
            ),
            light_instances@.len() == old_lights.len(),
            forall|j: int|
                0 <= j < old_lights.len() ==> #[trigger] light_instances@[j] == if keys@.take(
                    i as int,
                ).contains(old_lights[j].object_id) && is_first_position(
                    light_ids(old_lights),
                    old_lights[j].object_id,
                    j,
                ) {
                    light_from_world(old_lights[j], g[old_lights[j].object_id.0])
                } else {
                    old_lights[j]
                },
            moved@.no_duplicates(),
            forall|m: usize, t: TransformComponent<S>| #[trigger]
                moved@.contains((m, t)) <==> (instance_follows(mesh_instances@, g, m as int, t)
                    && keys@.take(i as int).contains(mesh_instances@[m as int].object_id)),
        decreases n - i,
    {
        let key = keys[i];
        proof {
            assert(keys@.contains(key));
            assert(!keys@.take(i as int).contains(key));
            assert forall|k: u64| keys@.take(i + 1).contains(Id(k)) <==> (keys@.take(i as int).contains(
                Id(k),
            ) || Id(k) == key) by {
                if keys@.take(i + 1).contains(Id(k)) && Id(k) != key {
                    let j = choose|j: int| 0 <= j < i + 1 && #[trigger] keys@.take(i + 1)[j] == Id(k);
                    assert(keys@.take(i as int)[j] == Id(k));
                }
                if keys@.take(i as int).contains(Id(k)) {
                    let j = choose|j: int| 0 <= j < i && #[trigger] keys@.take(i as int)[j] == Id(k);
                    assert(keys@.take(i + 1)[j] == Id(k));
                }
                if Id(k) == key {
                    assert(keys@.take(i + 1)[i as int] == key);
                }
            }
            assert forall|id: Id| keys@.take(i + 1).contains(id) <==> (keys@.take(i as int).contains(id)
                || id == key) by {
                assert(id == Id(id.0));
            }
        }
        match world.global_transforms.get(&key.0) {
            Some(found) => {
                let component: TransformComponent<S> = *found;
                let ghost pre_objects = main_db.objects@;
                if let Some(mut obj) = main_db.objects.remove(&key.0) {
                    obj.transform = Transform {
                        location: component.translation,
                        rotation: component.rotation,
                        scale: component.scale,
                    };
                    main_db.objects.insert(key.0, obj);
                    assert(main_db.objects@ == pre_objects.insert(
                        key.0,
                        ObjectData { transform: db_transform_from_ecs(g[key.0]), ..old_objects[key.0] },
                    ));
                } else {
                    assert(main_db.objects@ == pre_objects);
                }
                match find_first(instance_keys.as_slice(), key) {
                    Some(m) => {
                        let ghost prev_moved = moved@;
                        proof {
                            assert(instance_ids(mesh_instances@)[m as int] == mesh_instances@[m as int].object_id);
                            assert(instance_follows(mesh_instances@, g, m as int, component));
                            assert(!prev_moved.contains((m, component))) by {
                                if prev_moved.contains((m, component)) {
                                    assert(keys@.take(i as int).contains(mesh_instances@[m as int].object_id));
                                }
                            }
                        }
                        moved.push((m, component));
                        proof {
                            assert(moved@ == prev_moved.push((m, component)));
                            assert(moved@.no_duplicates()) by {
                                assert forall|a: int, b: int| 0 <= a < b < moved@.len() implies moved@[a] != moved@[b] by {
                                    if b == moved@.len() - 1 {
                                        assert(prev_moved.contains(moved@[a]));
                                    }
                                }
                            }
                            assert forall|m2: usize, t: TransformComponent<S>| #[trigger]
                                moved@.contains((m2, t)) <==> (instance_follows(
                                    mesh_instances@,
                                    g,
                                    m2 as int,
                                    t,
                                ) && keys@.take(i + 1).contains(mesh_instances@[m2 as int].object_id)) by {
                                if (m2, t) == (m, component) {
                                    assert(moved@[prev_moved.len() as int] == (m, component));
                                } else {
                                    if instance_follows(mesh_instances@, g, m2 as int, t)
                                        && mesh_instances@[m2 as int].object_id == key {
                                        assert(instance_ids(mesh_instances@)[m2 as int] == key);
                                        assert(m2 == m);
                                    }
                                    if moved@.contains((m2, t)) {
                                        let q = choose|q: int| 0 <= q < moved@.len() && moved@[q] == (m2, t);
                                        assert(q < prev_moved.len());
                                        assert(prev_moved[q] == (m2, t));
                                    }
                                    if prev_moved.contains((m2, t)) {
                                        let q = choose|q: int| 0 <= q < prev_moved.len() && prev_moved[q] == (m2, t);
                                        assert(moved@[q] == (m2, t));
                                    }
                                }
                            }
                        }
                    },
                    None => {
                        proof {
                            assert forall|m2: usize, t: TransformComponent<S>| #[trigger]
                                moved@.contains((m2, t)) <==> (instance_follows(
                                    mesh_instances@,
                                    g,
                                    m2 as int,
                                    t,
                                ) && keys@.take(i + 1).contains(mesh_instances@[m2 as int].object_id)) by {
                                if instance_follows(mesh_instances@, g, m2 as int, t)
                                    && mesh_instances@[m2 as int].object_id == key {
                                    assert(instance_ids(mesh_instances@)[m2 as int] == key);
                                    assert(instance_keys@.contains(key));
                                }
                            }
                        }
                    },
                }
                match find_first(light_keys.as_slice(), key) {
                    Some(l) => {
                        let light = light_instances[l];
                        light_instances[l] = LightObjectInstance {
                            position: component.translation,
                            rotation: component.rotation,
                            scale: component.scale,
                            ..light
                        };
                    },
                    None => {},
                }
            },
            None => {},
        }
        proof {
            assert(main_db.objects@ =~= Map::new(
                |k: u64| old_objects.contains_key(k),
                |k: u64|
                    if keys@.take(i + 1).contains(Id(k)) {
                        ObjectData { transform: db_transform_from_ecs(g[k]), ..old_objects[k] }
                    } else {
                        old_objects[k]
                    },
            ));
            assert forall|j: int| 0 <= j < old_lights.len() implies #[trigger] light_instances@[j] == if keys@.take(
                i + 1,
            ).contains(old_lights[j].object_id) && is_first_position(
                light_ids(old_lights),
                old_lights[j].object_id,
                j,
            ) {
                light_from_world(old_lights[j], g[old_lights[j].object_id.0])
            } else {
                old_lights[j]
            } by {
                assert(light_ids(old_lights)[j] == old_lights[j].object_id);
            }
        }
        i = i + 1;
    }
    proof {
        assert(keys@.take(n as int) =~= keys@);
        assert forall|id: Id| keys@.contains(id) <==> g.contains_key(id.0) by {
            assert(id == Id(id.0));
        }
        assert(main_db.objects@ =~= objects_from_world(old_objects, g));
    }
    match world.active_camera() {
        Some(camera_id) => {
            match world.global_transforms.get(&camera_id.0) {
                Some(component) => {
                    camera.pos = component.translation;
                },
                None => {},
            }
        },
        None => {},
    }
    moved
}

/// Syncing the world into the runtime a second time, with the world
/// unchanged, changes nothing: the database objects, the lights and the
/// editor camera stay as the first sync left them, and, while the mesh
/// instances belong to the same objects as before, the same instances come
/// back with the same transforms to be re-posed.
pub proof fn lemma_sync_twice_is_sync_once<S>(
    world: &World<S>,
    objects: Map<u64, ObjectData<S>>,
    lights: Seq<LightObjectInstance<S>>,
    camera: Camera<S>,
    first: Seq<MeshObjectInstance<S>>,
    second: Seq<MeshObjectInstance<S>>,
)
    requires
        instance_ids(first) == instance_ids(second),
    ensures
        objects_from_world(objects_from_world(objects, world.global_transforms@), world.global_transforms@)
            == objects_from_world(objects, world.global_transforms@),
        synced_lights(synced_lights(lights, world.global_transforms@), world.global_transforms@)
            == synced_lights(lights, world.global_transforms@),
        camera_from_world(world, camera_from_world(world, camera)) == camera_from_world(world, camera),
        forall|i: int, t: TransformComponent<S>|
            #[trigger] instance_follows(first, world.global_transforms@, i, t) == instance_follows(
                second,
                world.global_transforms@,
                i,
                t,
            ),
{
    let g = world.global_transforms@;
    let once = objects_from_world(objects, g);
    assert(objects_from_world(once, g) =~= once);
    let l1 = synced_lights(lights, g);
    assert(light_ids(l1) =~= light_ids(lights));
    assert(synced_lights(l1, g) =~= l1) by {
        assert forall|i: int| 0 <= i < l1.len() implies #[trigger] synced_light(l1, g, i) == l1[i] by {
            assert(l1[i].object_id == lights[i].object_id);
            assert(light_ids(l1)[i] == light_ids(lights)[i]);
        }
    }
    assert forall|i: int, t: TransformComponent<S>|
        #[trigger] instance_follows(first, g, i, t) == instance_follows(second, g, i, t) by {
        assert(instance_ids(first).len() == first.len());
        assert(instance_ids(second).len() == second.len());
        if 0 <= i < first.len() {
            assert(instance_ids(first)[i] == first[i].object_id);
            assert(instance_ids(second)[i] == second[i].object_id);
        }
    }
}

} // verus!
