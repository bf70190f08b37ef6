//! Adding an object from the editor's "Add" menu: the database gets the
//! object under a new id and a numbered name, the scene's top collection
//! lists it, the scene shows it, the world registers it, and the editor
//! selects it; the click that chose the item is kept from also picking in
//! the scene.

use crate::ecs::{entities_after_register, same_bodies, CameraComponent, World};
use crate::geometry::{append_object_mesh, point3_of, records_appended_ranges, ObjectPose};
use crate::mesh::{can_append, mesh_appended, MeshData};
use crate::types::MeshObjectInstance;
use crate::ecs_sync::{register_object_entity, spec_db_transform_to_ecs};
use crate::scene_data::{
    objects_named, with_base_visibility, with_mesh_user, with_linked_object, Id, MainDatabase, ObjectData,
    Transform,
};
use crate::text::{decimal, numbered_name};
use crate::types::GizmoTargetKind;
use std::collections::HashMap;
use vstd::prelude::*;

verus! {

/// The name of the next object of the kind `prefix`: `prefix`, a space,
/// and one more than the number of objects whose names begin with it.
pub open spec fn next_name<S>(objects: Map<u64, ObjectData<S>>, prefix: Seq<char>) -> Seq<char> {
    prefix + " "@ + decimal(objects_named(objects, prefix).len() + 1)
}

/// The database and the world after object `id`, named `name`, showing
/// `mesh_id` and placed at `transform`, is added: the database holds it
/// under the new id, collection `master` lists it, scene `scene` shows it,
/// and the world registers it as an entity with its transform (and mesh 0
/// when it has a mesh), its other parts unchanged.
pub open spec fn object_added<S>(
    old_db: MainDatabase<S>,
    new_db: MainDatabase<S>,
    old_world: World<S>,
    new_world: World<S>,
    id: Id,
    name: Seq<char>,
    mesh_id: Option<Id>,
    transform: Transform<S>,
    master: Id,
    scene: Id,
) -> bool {
    &&& id.0 > 0
    &&& old_db.is_unused(id.0)
    &&& forall|k: u64| !old_db.is_unused(k) ==> k < id.0
    &&& (id.0 == 1 || !old_db.is_unused((id.0 - 1) as u64))
    &&& new_db.objects@.dom() == old_db.objects@.dom().insert(id.0)
    &&& new_db.objects@.remove(id.0) == old_db.objects@
    &&& new_db.objects@[id.0].name@ == name
    &&& new_db.objects@[id.0].transform == transform
    &&& new_db.objects@[id.0].mesh_id == mesh_id
    &&& new_db.collections_view() == with_linked_object(old_db.collections_view(), master, id)
    &&& new_db.scenes_view() == with_base_visibility(old_db.scenes_view(), scene, id, true)
    &&& new_world.transforms@ == old_world.transforms@.insert(id.0, spec_db_transform_to_ecs(transform))
    &&& new_world.meshes@ == if mesh_id is Some {
        old_world.meshes@.insert(id.0, 0)
    } else {
        old_world.meshes@
    }
    &&& new_world.entities_view() == entities_after_register(old_world.entities_view(), id, name)
    &&& new_world.global_transforms@ == old_world.global_transforms@
    &&& new_world.visibility@ == old_world.visibility@
    &&& same_bodies(new_world, old_world)
}

/// Adds an object named `name` (showing `mesh_id`, placed at `transform`)
/// to the database under a new id (see [`MainDatabase::create_object`]),
/// lists it in collection `master`, shows it in scene `scene`, registers
/// it as an entity of the world, records `target` as its gizmo target,
/// selects it and keeps the click from picking in the scene. Where the
/// database has no id left, nothing changes and the result is `None`.
pub fn add_object<S: Copy>(
    main_db: &mut MainDatabase<S>,
    world: &mut World<S>,
    name: String,
    mesh_id: Option<Id>,
    transform: Transform<S>,
    master: Id,
    scene: Id,
    target: GizmoTargetKind,
    targets: &mut HashMap<u64, GizmoTargetKind>,
    selected_object_id: &mut Option<Id>,
    gizmo_target: &mut GizmoTargetKind,
    has_selection: &mut bool,
    suppress_scene_click: &mut bool,
) -> (id: Option<Id>)
    ensures
        id is None <==> !old(main_db).is_unused(u64::MAX),
        id is None ==> {
            &&& final(main_db).objects@ == old(main_db).objects@
            &&& final(main_db).scenes@ == old(main_db).scenes@
            &&& final(main_db).collections@ == old(main_db).collections@
            &&& final(main_db).meshes@ == old(main_db).meshes@
            &&& *final(world) == *old(world)
            &&& final(targets)@ == old(targets)@
            &&& *final(selected_object_id) == *old(selected_object_id)
            &&& *final(gizmo_target) == *old(gizmo_target)
            &&& *final(has_selection) == *old(has_selection)
            &&& *final(suppress_scene_click) == *old(suppress_scene_click)
        },
        id matches Some(i) ==> {
            &&& object_added(
                *old(main_db),
                *final(main_db),
                *old(world),
                *final(world),
                i,
                name@,
                mesh_id,
                transform,
                master,
                scene,
            )
            &&& final(main_db).meshes@ == old(main_db).meshes@
            &&& final(world).cameras@ == old(world).cameras@
            &&& final(targets)@ == old(targets)@.insert(i.0, target)
            &&& *final(selected_object_id) == Some(i)
            &&& *final(gizmo_target) == target
            &&& *final(has_selection)
            &&& *final(suppress_scene_click)
        },
{
    match main_db.create_object(name, mesh_id, transform) {
        None => None,
        Some(id) => {
            main_db.collection_link_object(master, id);
            main_db.set_scene_base_visibility(scene, id, true);
            register_object_entity(world, main_db, id);
            targets.insert(id.0, target);
            *selected_object_id = Some(id);
            *gizmo_target = target;
            *has_selection = true;
            *suppress_scene_click = true;
            proof {
                assert(main_db.objects@.remove(id.0) =~= old(main_db).objects@);
            }
            Some(id)
        },
    }
}

/// The menu's "Empty Entity": adds an object without a mesh, named
/// "Entity n" after the entities already in the database, with the
/// decanter as its gizmo target (see [`add_object`]).
pub fn add_empty_entity<S: Copy>(
    main_db: &mut MainDatabase<S>,
    world: &mut World<S>,
    transform: Transform<S>,
    master: Id,
    scene: Id,
    targets: &mut HashMap<u64, GizmoTargetKind>,
    selected_object_id: &mut Option<Id>,
    gizmo_target: &mut GizmoTargetKind,
    has_selection: &mut bool,
    suppress_scene_click: &mut bool,
) -> (id: Option<Id>)
    requires
        old(main_db).objects@.len() < usize::MAX,
    ensures
        id is None <==> !old(main_db).is_unused(u64::MAX),
        id is None ==> {
            &&& final(main_db).objects@ == old(main_db).objects@
            &&& final(main_db).scenes@ == old(main_db).scenes@
            &&& final(main_db).collections@ == old(main_db).collections@
            &&& final(main_db).meshes@ == old(main_db).meshes@
            &&& *final(world) == *old(world)
            &&& final(targets)@ == old(targets)@
            &&& *final(selected_object_id) == *old(selected_object_id)
            &&& *final(gizmo_target) == *old(gizmo_target)
            &&& *final(has_selection) == *old(has_selection)
            &&& *final(suppress_scene_click) == *old(suppress_scene_click)
        },
        id matches Some(i) ==> {
            &&& object_added(
                *old(main_db),
                *final(main_db),
                *old(world),
                *final(world),
                i,
                next_name(old(main_db).objects@, "Entity"@),
                None,
                transform,
                master,
                scene,
            )
            &&& final(main_db).meshes@ == old(main_db).meshes@
            &&& final(world).cameras@ == old(world).cameras@
            &&& final(targets)@ == old(targets)@.insert(i.0, GizmoTargetKind::Decanter)
            &&& *final(selected_object_id) == Some(i)
            &&& *final(gizmo_target) == GizmoTargetKind::Decanter
            &&& *final(has_selection)
            &&& *final(suppress_scene_click)
        },
{
    let number = main_db.next_object_number("Entity");
    let name = numbered_name("Entity", number);
    add_object(
        main_db,
        world,
        name,
        None,
        transform,
        master,
        scene,
        GizmoTargetKind::Decanter,
        targets,
        selected_object_id,
        gizmo_target,
        has_selection,
        suppress_scene_click,
    )
}

/// The menu's "Camera": adds an object without a mesh, named "Camera n"
/// after the cameras already in the database and placed at `transform`
/// (the editor camera's place), with the decanter as its gizmo target, and
/// gives its entity an inactive camera that rides on nothing.
pub fn add_camera_object<S: Copy>(
    main_db: &mut MainDatabase<S>,
    world: &mut World<S>,
    transform: Transform<S>,
    master: Id,
    scene: Id,
    targets: &mut HashMap<u64, GizmoTargetKind>,
    selected_object_id: &mut Option<Id>,
    gizmo_target: &mut GizmoTargetKind,
    has_selection: &mut bool,
    suppress_scene_click: &mut bool,
) -> (id: Option<Id>)
    requires
        old(main_db).objects@.len() < usize::MAX,
    ensures
        id is None <==> !old(main_db).is_unused(u64::MAX),
        id is None ==> {
            &&& final(main_db).objects@ == old(main_db).objects@
            &&& final(main_db).scenes@ == old(main_db).scenes@
            &&& final(main_db).collections@ == old(main_db).collections@
            &&& final(main_db).meshes@ == old(main_db).meshes@
            &&& *final(world) == *old(world)
            &&& final(targets)@ == old(targets)@
            &&& *final(selected_object_id) == *old(selected_object_id)
            &&& *final(gizmo_target) == *old(gizmo_target)
            &&& *final(has_selection) == *old(has_selection)
            &&& *final(suppress_scene_click) == *old(suppress_scene_click)
        },
        id matches Some(i) ==> {
            &&& object_added(
                *old(main_db),
                *final(main_db),
                *old(world),
                *final(world),
                i,
                next_name(old(main_db).objects@, "Camera"@),
                None,
                transform,
                master,
                scene,
            )
            &&& final(main_db).meshes@ == old(main_db).meshes@
            &&& final(world).cameras@ == old(world).cameras@.insert(
                i.0,
                CameraComponent { active: false, attached_to: None },
            )
            &&& final(targets)@ == old(targets)@.insert(i.0, GizmoTargetKind::Decanter)
            &&& *final(selected_object_id) == Some(i)
            &&& *final(gizmo_target) == GizmoTargetKind::Decanter
            &&& *final(has_selection)
            &&& *final(suppress_scene_click)
        },
{
    let number = main_db.next_object_number("Camera");
    let name = numbered_name("Camera", number);
    let added = add_object(
        main_db,
        world,
        name,
        None,
        transform,
        master,
        scene,
        GizmoTargetKind::Decanter,
        targets,
        selected_object_id,
        gizmo_target,
        has_selection,
        suppress_scene_click,
    );
    match added {
        Some(id) => {
            world.attach_camera(id, CameraComponent { active: false, attached_to: None });
            Some(id)
        },
        None => None,
    }
}

/// A menu item that shows a shared mesh (such as "Cube"): adds an object
/// named after `prefix` ("Cube n") that shows mesh `mesh_id`, counts one
/// more user of that mesh, appends `mesh` to the combined scene mesh and
/// records the new instance with `pose`, gives the object the material
/// named `material`, makes the combined mesh's indices the model indices,
/// and marks the GPU buffers, the geometry and the accumulation to be
/// redone; the rest is as [`add_object`] with the decanter as its gizmo
/// target. Where the database has no id left, nothing changes.
pub fn add_mesh_object<S: Copy, M>(
    main_db: &mut MainDatabase<S>,
    world: &mut World<S>,
    combined: &mut MeshData<S, M>,
    mesh: MeshData<S, M>,
    prefix: &str,
    mesh_id: Id,
    mesh_asset_id: u32,
    pose: ObjectPose<S>,
    transform: Transform<S>,
    master: Id,
    scene: Id,
    material: &str,
    targets: &mut HashMap<u64, GizmoTargetKind>,
    material_names: &mut HashMap<u64, String>,
    mesh_instances: &mut Vec<MeshObjectInstance<S>>,
    model_idx: &mut Vec<u32>,
    selected_object_id: &mut Option<Id>,
    gizmo_target: &mut GizmoTargetKind,
    has_selection: &mut bool,
    suppress_scene_click: &mut bool,
    gpu_mesh_dirty: &mut bool,
    geometry_dirty: &mut bool,
    accumulation_dirty: &mut bool,
) -> (id: Option<Id>)
    requires
        old(main_db).objects@.len() < usize::MAX,
        can_append(old(combined)@, mesh@),
    ensures
        id is None <==> !old(main_db).is_unused(u64::MAX),
        id is None ==> {
            &&& final(main_db).objects@ == old(main_db).objects@
            &&& final(main_db).scenes@ == old(main_db).scenes@
            &&& final(main_db).collections@ == old(main_db).collections@
            &&& final(main_db).meshes@ == old(main_db).meshes@
            &&& *final(world) == *old(world)
            &&& final(combined)@ == old(combined)@
            &&& final(targets)@ == old(targets)@
            &&& final(material_names)@ == old(material_names)@
            &&& final(mesh_instances)@ == old(mesh_instances)@
            &&& final(model_idx)@ == old(model_idx)@
            &&& *final(selected_object_id) == *old(selected_object_id)
            &&& *final(gizmo_target) == *old(gizmo_target)
            &&& *final(has_selection) == *old(has_selection)
            &&& *final(suppress_scene_click) == *old(suppress_scene_click)
            &&& *final(gpu_mesh_dirty) == *old(gpu_mesh_dirty)
            &&& *final(geometry_dirty) == *old(geometry_dirty)
            &&& *final(accumulation_dirty) == *old(accumulation_dirty)
        },
        id matches Some(i) ==> {
            &&& object_added(
                *old(main_db),
                *final(main_db),
                *old(world),
                *final(world),
                i,
                next_name(old(main_db).objects@, prefix@),
                Some(mesh_id),
                transform,
                master,
                scene,
            )
            &&& final(main_db).meshes_view() == with_mesh_user(old(main_db).meshes_view(), mesh_id)
            &&& final(world).cameras@ == old(world).cameras@
            &&& final(combined)@ == mesh_appended(old(combined)@, mesh@)
            &&& final(mesh_instances)@.len() == old(mesh_instances)@.len() + 1
            &&& final(mesh_instances)@.drop_last() == old(mesh_instances)@
            &&& records_appended_ranges(final(mesh_instances)@.last(), old(combined)@, mesh@)
            &&& final(mesh_instances)@.last().object_id == i
            &&& final(mesh_instances)@.last().mesh_asset_id == mesh_asset_id
            &&& final(mesh_instances)@.last().base_positions@ == mesh@.positions4.map_values(
                |p: [S; 4]| point3_of(p),
            )
            &&& final(mesh_instances)@.last().base_normals@ == mesh@.normals4.map_values(
                |p: [S; 4]| point3_of(p),
            )
            &&& final(mesh_instances)@.last().pivot == pose.pivot
            &&& final(mesh_instances)@.last().max_extent == pose.max_extent
            &&& final(mesh_instances)@.last().rotation == pose.rotation
            &&& final(mesh_instances)@.last().translation == pose.translation
            &&& final(mesh_instances)@.last().scale == pose.scale
            &&& final(model_idx)@ == final(combined)@.indices
            &&& final(material_names)@.dom() == old(material_names)@.dom().insert(i.0)
            &&& final(material_names)@[i.0]@ == material@
            &&& forall|k: u64|
                k != i.0 && #[trigger] old(material_names)@.contains_key(k)
                    ==> final(material_names)@[k] == old(material_names)@[k]
            &&& final(targets)@ == old(targets)@.insert(i.0, GizmoTargetKind::Decanter)
            &&& *final(selected_object_id) == Some(i)
            &&& *final(gizmo_target) == GizmoTargetKind::Decanter
            &&& *final(has_selection)
            &&& *final(suppress_scene_click)
            &&& *final(gpu_mesh_dirty)
            &&& *final(geometry_dirty)
            &&& *final(accumulation_dirty)
        },
{
    let number = main_db.next_object_number(prefix);
    let name = numbered_name(prefix, number);
    let added = add_object(
        main_db,
        world,
        name,
        Some(mesh_id),
        transform,
        master,
        scene,
        GizmoTargetKind::Decanter,
        targets,
        selected_object_id,
        gizmo_target,
        has_selection,
        suppress_scene_click,
    );
    match added {
        None => None,
        Some(id) => {
            let ghost mid = *main_db;
            main_db.add_mesh_user(mesh_id);
            proof {
                assert(main_db.objects@.remove(id.0) == mid.objects@.remove(id.0));
            }
            let inst = append_object_mesh(combined, mesh, id, mesh_asset_id, pose);
            material_names.insert(id.0, material.to_owned());
            mesh_instances.push(inst);
            *model_idx = copied_indices(&combined.indices);
            *gpu_mesh_dirty = true;
            *geometry_dirty = true;
            *accumulation_dirty = true;
            proof {
                assert(mesh_instances@.drop_last() =~= old(mesh_instances)@);
            }
            Some(id)
        },
    }
}

/// A copy of a run of indices.
fn copied_indices(v: &Vec<u32>) -> (out: Vec<u32>)
    ensures
        out@ == v@,
{
    let mut out: Vec<u32> = Vec::new();
    let n = v.len();
    let mut i: usize = 0;
    while i < n
        invariant
            n == v@.len(),
            0 <= i <= n,
            out@ == v@.take(i as int),
        decreases n - i,
    {
        out.push(v[i]);
        assert(v@.take(i + 1) =~= v@.take(i as int).push(v@[i as int]));
        i = i + 1;
    }
    assert(v@.take(n as int) =~= v@);
    out
}

} // verus!
