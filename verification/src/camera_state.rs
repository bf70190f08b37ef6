//! Writing the runtime's object poses back into the scene database.

use vstd::prelude::*;
use crate::scene_data::{with_transform, with_transforms, Id, MainDatabase, ObjectData, Transform};
use crate::types::{LightObjectInstance, MeshObjectInstance};

verus! {

/// One database write per mesh instance: its object placed at the
/// instance's centre (given in `centers`), rotation and scale.
pub open spec fn instance_writes<S>(
    instances: Seq<MeshObjectInstance<S>>,
    centers: Seq<[S; 3]>,
) -> Seq<(Id, Transform<S>)> {
    Seq::new(
        instances.len(),
        |i: int|
            (
                instances[i].object_id,
                Transform {
                    location: centers[i],
                    rotation: instances[i].rotation,
                    scale: instances[i].scale,
                },
            ),
    )
}

/// One database write per light: its object placed at the light's pose.
pub open spec fn light_writes<S>(lights: Seq<LightObjectInstance<S>>) -> Seq<(Id, Transform<S>)> {
    Seq::new(
        lights.len(),
        |i: int|
            (
                lights[i].object_id,
                Transform {
                    location: lights[i].position,
                    rotation: lights[i].rotation,
                    scale: lights[i].scale,
                },
            ),
    )
}

/// The writes of [`write_runtime_back_to_database`], in the order they are
/// made: the primitive, the decanter and the wine glass; the mesh instances
/// unless a stress scene replaced them; the sun; the lights; the spotlight
/// and the Cornell box.
pub open spec fn runtime_writes<S>(
    sphere: (Id, Transform<S>),
    decanter: (Id, Transform<S>),
    wine: (Id, Transform<S>),
    stress_instance_count: usize,
    instances: Seq<MeshObjectInstance<S>>,
    centers: Seq<[S; 3]>,
    sun: (Id, Transform<S>),
    lights: Seq<LightObjectInstance<S>>,
    spot: (Id, Transform<S>),
    cornell: (Id, Transform<S>),
) -> Seq<(Id, Transform<S>)> {
    seq![sphere, decanter, wine] + (if stress_instance_count == 0 {
        instance_writes(instances, centers)
    } else {
        Seq::empty()
    }) + seq![sun] + light_writes(lights) + seq![spot, cornell]
}

/// Appends one write per mesh instance to `writes`.
fn push_instance_writes<S: Copy>(
    writes: &mut Vec<(Id, Transform<S>)>,
    instances: &[MeshObjectInstance<S>],
    centers: &[[S; 3]],
)
    requires
        centers@.len() == instances@.len(),
    ensures
        final(writes)@ == old(writes)@ + instance_writes(instances@, centers@),
{
    let n = instances.len();
    let mut i: usize = 0;
    while i < n
        invariant
            n == instances@.len(),
            n == centers@.len(),
            0 <= i <= n,
            writes@ == old(writes)@ + instance_writes(instances@, centers@).take(i as int),
        decreases n - i,
    {
        let inst = &instances[i];
        writes.push(
            (inst.object_id, Transform { location: centers[i], rotation: inst.rotation, scale: inst.scale }),
        );
        assert(instance_writes(instances@, centers@).take(i + 1) =~= instance_writes(
            instances@,
            centers@,
        ).take(i as int).push(instance_writes(instances@, centers@)[i as int]));
        i = i + 1;
    }
    assert(instance_writes(instances@, centers@).take(n as int) =~= instance_writes(
        instances@,
        centers@,
    ));
}

/// Appends one write per light to `writes`.
fn push_light_writes<S: Copy>(writes: &mut Vec<(Id, Transform<S>)>, lights: &[LightObjectInstance<S>])
    ensures
        final(writes)@ == old(writes)@ + light_writes(lights@),
{
    let n = lights.len();
    let mut i: usize = 0;
    while i < n
        invariant
            n == lights@.len(),
            0 <= i <= n,
            writes@ == old(writes)@ + light_writes(lights@).take(i as int),
        decreases n - i,
    {
        let light = &lights[i];
        writes.push(
            (
                light.object_id,
                Transform { location: light.position, rotation: light.rotation, scale: light.scale },
            ),
        );
        assert(light_writes(lights@).take(i + 1) =~= light_writes(lights@).take(i as int).push(
            light_writes(lights@)[i as int],
        ));
        i = i + 1;
    }
    assert(light_writes(lights@).take(n as int) =~= light_writes(lights@));
}

/// Writes the poses of the runtime's objects back into the database: the
/// primitive, decanter, wine glass, sun, spotlight and Cornell box at the
/// transforms given for them, each mesh instance's object at the instance's
/// pose (its centre given in `mesh_centers`) unless a stress scene is loaded,
/// and each light's object at the light's pose. Writes are made in that
/// order, so a later write to the same object wins; objects the database
/// does not hold are skipped.
pub fn write_runtime_back_to_database<S: Copy>(
    main_db: &mut MainDatabase<S>,
    sphere: (Id, Transform<S>),
    decanter: (Id, Transform<S>),
    wine: (Id, Transform<S>),
    stress_instance_count: usize,
    mesh_instances: &[MeshObjectInstance<S>],
    mesh_centers: &[[S; 3]],
    sun: (Id, Transform<S>),
    light_instances: &[LightObjectInstance<S>],
    spot: (Id, Transform<S>),
    cornell: (Id, Transform<S>),
)
    requires
        mesh_centers@.len() == mesh_instances@.len(),
    ensures
        final(main_db).objects@ == with_transforms(
            old(main_db).objects@,
            runtime_writes(
                sphere,
                decanter,
                wine,
                stress_instance_count,
                mesh_instances@,
                mesh_centers@,
                sun,
                light_instances@,
                spot,
                cornell,
            ),
        ),
        final(main_db).scenes@ == old(main_db).scenes@,
        final(main_db).collections@ == old(main_db).collections@,
        final(main_db).meshes@ == old(main_db).meshes@,
{
    let mut writes: Vec<(Id, Transform<S>)> = Vec::new();
    writes.push(sphere);
    writes.push(decanter);
    writes.push(wine);
    if stress_instance_count == 0 {
        push_instance_writes(&mut writes, mesh_instances, mesh_centers);
    }
    writes.push(sun);
    push_light_writes(&mut writes, light_instances);
    writes.push(spot);
    writes.push(cornell);
    assert(writes@ =~= runtime_writes(
        sphere,
        decanter,
        wine,
        stress_instance_count,
        mesh_instances@,
        mesh_centers@,
        sun,
        light_instances@,
        spot,
        cornell,
    ));
    main_db.set_object_transforms(writes.as_slice());
}

/// Placing objects keeps the set of objects.
proof fn lemma_writes_keep_objects<S>(objects: Map<u64, ObjectData<S>>, writes: Seq<(Id, Transform<S>)>)
    ensures
        with_transforms(objects, writes).dom() == objects.dom(),
    decreases writes.len(),
{
    if writes.len() > 0 {
        lemma_writes_keep_objects(objects, writes.drop_last());
        let before = with_transforms(objects, writes.drop_last());
        if before.contains_key(writes.last().0.0) {
            assert(before.insert(writes.last().0.0, ObjectData { transform: writes.last().1, ..before[writes.last().0.0] }).dom() =~= before.dom());
        }
    }
}

/// The last write to an object decides where it ends up: where write `i`
/// names an object the database holds and no later write names it, the
/// object ends at write `i`'s transform.
pub proof fn lemma_last_write_wins<S>(objects: Map<u64, ObjectData<S>>, writes: Seq<(Id, Transform<S>)>, i: int)
    requires
        0 <= i < writes.len(),
        objects.contains_key(writes[i].0.0),
        forall|j: int| i < j < writes.len() ==> (#[trigger] writes[j]).0 != writes[i].0,
    ensures
        with_transforms(objects, writes).contains_key(writes[i].0.0),
        with_transforms(objects, writes)[writes[i].0.0].transform == writes[i].1,
    decreases writes.len(),
{
    let id = writes[i].0;
    lemma_writes_keep_objects(objects, writes.drop_last());
    let before = with_transforms(objects, writes.drop_last());
    if i == writes.len() - 1 {
        assert(before.contains_key(id.0));
    } else {
        assert(writes.drop_last()[i] == writes[i]);
        assert forall|j: int| i < j < writes.drop_last().len() implies (#[trigger] writes.drop_last()[j]).0
            != writes.drop_last()[i].0 by {
            assert(writes.drop_last()[j] == writes[j]);
        }
        lemma_last_write_wins(objects, writes.drop_last(), i);
        let last = writes.last();
        assert(writes[writes.len() - 1].0 != id);
        assert(last.0 != id);
        if last.0.0 == id.0 {
            assert(last.0 == Id(last.0.0));
            assert(id == Id(id.0));
        }
    }
}

/// Each object that the runtime writes back under its own name ends at the
/// transform given for it: the primitive, the decanter and the wine glass
/// where no later write (another named object, a mesh instance unless a
/// stress scene is loaded, a light) names the same object; the sun where no
/// light, the spotlight or the Cornell box does; the spotlight where the
/// Cornell box does not; and the Cornell box always.
pub proof fn lemma_written_poses_land<S>(
    objects: Map<u64, ObjectData<S>>,
    sphere: (Id, Transform<S>),
    decanter: (Id, Transform<S>),
    wine: (Id, Transform<S>),
    stress_instance_count: usize,
    instances: Seq<MeshObjectInstance<S>>,
    centers: Seq<[S; 3]>,
    sun: (Id, Transform<S>),
    lights: Seq<LightObjectInstance<S>>,
    spot: (Id, Transform<S>),
    cornell: (Id, Transform<S>),
)
    ensures
        ({
            let after = with_transforms(
                objects,
                runtime_writes(sphere, decanter, wine, stress_instance_count, instances, centers, sun, lights, spot, cornell),
            );
            let free_of_lights = |id: Id| forall|k: int| 0 <= k < lights.len() ==> (#[trigger] lights[k]).object_id != id;
            let free_of_instances = |id: Id| stress_instance_count == 0 ==> forall|k: int|
                0 <= k < instances.len() ==> (#[trigger] instances[k]).object_id != id;
            let free_of_tail = |id: Id| id != sun.0 && id != spot.0 && id != cornell.0 && free_of_lights(id)
                && free_of_instances(id);
            &&& objects.contains_key(cornell.0.0) ==> after[cornell.0.0].transform == cornell.1
            &&& objects.contains_key(spot.0.0) && spot.0 != cornell.0 ==> after[spot.0.0].transform == spot.1
            &&& objects.contains_key(sun.0.0) && sun.0 != spot.0 && sun.0 != cornell.0 && free_of_lights(sun.0)
                ==> after[sun.0.0].transform == sun.1
            &&& objects.contains_key(wine.0.0) && free_of_tail(wine.0) ==> after[wine.0.0].transform == wine.1
            &&& objects.contains_key(decanter.0.0) && decanter.0 != wine.0 && free_of_tail(decanter.0)
                ==> after[decanter.0.0].transform == decanter.1
            &&& objects.contains_key(sphere.0.0) && sphere.0 != decanter.0 && sphere.0 != wine.0 && free_of_tail(
                sphere.0,
            ) ==> after[sphere.0.0].transform == sphere.1
        }),
{
    let writes = runtime_writes(sphere, decanter, wine, stress_instance_count, instances, centers, sun, lights, spot, cornell);
    let middle: Seq<(Id, Transform<S>)> = if stress_instance_count == 0 {
        instance_writes(instances, centers)
    } else {
        Seq::empty()
    };
    let m = middle.len() as int;
    let l = lights.len() as int;
    assert(writes.len() == 3 + m + 1 + l + 2);
    assert(writes[0] == sphere);
    assert(writes[1] == decanter);
    assert(writes[2] == wine);
    assert(writes[3 + m] == sun);
    assert(writes[4 + m + l] == spot);
    assert(writes[5 + m + l] == cornell);
    assert forall|j: int| 3 <= j < 3 + m implies (#[trigger] writes[j]).0 == instances[j - 3].object_id by {
        assert(writes[j] == middle[j - 3]);
    }
    assert forall|j: int| 4 + m <= j < 4 + m + l implies (#[trigger] writes[j]).0 == lights[j - 4 - m].object_id by {
        assert(writes[j] == light_writes(lights)[j - 4 - m]);
    }
    if objects.contains_key(cornell.0.0) {
        lemma_last_write_wins(objects, writes, 5 + m + l);
    }
    if objects.contains_key(spot.0.0) && spot.0 != cornell.0 {
        lemma_last_write_wins(objects, writes, 4 + m + l);
    }
    if objects.contains_key(sun.0.0) && sun.0 != spot.0 && sun.0 != cornell.0 && (forall|k: int| 0 <= k < lights.len() ==> (#[trigger] lights[k]).object_id != sun.0) {
        assert forall|j: int| 3 + m < j < writes.len() implies (#[trigger] writes[j]).0 != writes[3 + m].0 by {
            if j < 4 + m + l {
                assert(lights[j - 4 - m].object_id != sun.0);
            }
        }
        lemma_last_write_wins(objects, writes, 3 + m);
    }
    assert forall|i: int|
        0 <= i < 3 && objects.contains_key((#[trigger] writes[i]).0.0) && writes[i].0 != sun.0 && writes[i].0
            != spot.0 && writes[i].0 != cornell.0 && (forall|k: int|
            0 <= k < lights.len() ==> (#[trigger] lights[k]).object_id != writes[i].0) && (
        stress_instance_count == 0 ==> forall|k: int|
            0 <= k < instances.len() ==> (#[trigger] instances[k]).object_id != writes[i].0) && (forall|j: int|
            i < j < 3 ==> (#[trigger] writes[j]).0 != writes[i].0) implies with_transforms(
        objects,
        writes,
    )[writes[i].0.0].transform == writes[i].1 by {
        assert forall|j: int| i < j < writes.len() implies (#[trigger] writes[j]).0 != writes[i].0 by {
            if 3 <= j < 3 + m {
                assert(instances[j - 3].object_id != writes[i].0);
            } else if 4 + m <= j < 4 + m + l {
                assert(lights[j - 4 - m].object_id != writes[i].0);
            }
        }
        lemma_last_write_wins(objects, writes, i);
    }
    assert(writes[1].0 == decanter.0);
    assert(writes[2].0 == wine.0);
}

} // verus!
