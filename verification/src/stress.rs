//! The stress scene: a large square grid of copies of one cube.

use vstd::prelude::*;
use crate::geometry::{point3_of, points3_of, ObjectPose};
use crate::mesh::MeshData;
use crate::scene_data::Id;
use crate::types::MeshObjectInstance;

verus! {

/// The number of cubes along each side of the stress grid.
pub const STRESS_SIDE: usize = 1000;

/// The number of cubes in the stress grid.
pub const STRESS_COUNT: usize = 1_000_000;

/// The id of the first stress cube; the others follow it.
pub const STRESS_FIRST_ID: u64 = 10_000_000;

/// The grid cell of stress cube `i`: its column and its row.
pub fn stress_grid_cell(i: usize) -> (cell: (usize, usize))
    ensures
        cell.0 == i % STRESS_SIDE,
        cell.1 == i / STRESS_SIDE,
{
    (i % STRESS_SIDE, i / STRESS_SIDE)
}

/// The stress cube at grid position `i`, offset by `translation`: an
/// instance of the whole of `mesh` with its own id.
pub open spec fn stress_instance_ok<S, M>(
    inst: MeshObjectInstance<S>,
    mesh: MeshData<S, M>,
    template: ObjectPose<S>,
    translation: [S; 3],
    i: int,
) -> bool {
    &&& inst.object_id == Id((STRESS_FIRST_ID + i) as u64)
    &&& inst.mesh_asset_id == 0
    &&& inst.vertex_start == 0
    &&& inst.vertex_count == mesh.positions4@.len()
    &&& inst.index_start == 0
    &&& inst.index_count == mesh.indices@.len()
    &&& inst.material_start == 0
    &&& inst.material_count == mesh.materials@.len()
    &&& inst.base_positions@ == mesh.positions4@.map_values(|p: [S; 4]| point3_of(p))
    &&& inst.base_normals@ == mesh.normals4@.map_values(|p: [S; 4]| point3_of(p))
    &&& inst.pivot == template.pivot
    &&& inst.max_extent == template.max_extent
    &&& inst.rotation == template.rotation
    &&& inst.translation == translation
    &&& inst.scale == template.scale
}

/// Arms the stress scene: the cube mesh replaces the scene mesh, its
/// indices become the model indices, and the mesh instances become one
/// cube per grid cell, cube `i` placed at `cell_translations[i]` with the
/// pose of `template` and the id following [`STRESS_FIRST_ID`] by `i`; the
/// instance count is recorded and the GPU mesh, the geometry and the
/// accumulation are marked for rebuilding.
pub fn build_stress_scene<S: Copy, M>(
    mesh: &mut MeshData<S, M>,
    cube_mesh: MeshData<S, M>,
    model_idx: &mut Vec<u32>,
    mesh_instances: &mut Vec<MeshObjectInstance<S>>,
    stress_instance_count: &mut usize,
    gpu_mesh_dirty: &mut bool,
    geometry_dirty: &mut bool,
    accumulation_dirty: &mut bool,
    template: ObjectPose<S>,
    cell_translations: &[[S; 3]],
)
    requires
        cell_translations@.len() == STRESS_COUNT,
    ensures
        *final(mesh) == cube_mesh,
        final(model_idx)@ == cube_mesh.indices@,
        final(mesh_instances)@.len() == STRESS_COUNT,
        forall|i: int|
            0 <= i < STRESS_COUNT ==> stress_instance_ok(
                #[trigger] final(mesh_instances)@[i],
                cube_mesh,
                template,
                cell_translations@[i],
                i,
            ),
        *final(stress_instance_count) == STRESS_COUNT,
        *final(gpu_mesh_dirty),
        *final(geometry_dirty),
        *final(accumulation_dirty),
{
    *mesh = cube_mesh;
    let mut indices: Vec<u32> = Vec::new();
    let n_indices = mesh.indices.len();
    let mut k: usize = 0;
    while k < n_indices
        invariant
            n_indices == mesh.indices@.len(),
            0 <= k <= n_indices,
            indices@ == mesh.indices@.take(k as int),
            *mesh == cube_mesh,
        decreases n_indices - k,
    {
        indices.push(mesh.indices[k]);
        assert(mesh.indices@.take(k + 1) =~= mesh.indices@.take(k as int).push(mesh.indices@[k as int]));
        k = k + 1;
    }
    assert(mesh.indices@.take(n_indices as int) =~= mesh.indices@);
    *model_idx = indices;
    mesh_instances.clear();
    let mut i: usize = 0;
    while i < STRESS_COUNT
        invariant
            0 <= i <= STRESS_COUNT,
            cell_translations@.len() == STRESS_COUNT,
            *mesh == cube_mesh,
            mesh_instances@.len() == i,
            forall|j: int|
                0 <= j < i ==> stress_instance_ok(
                    #[trigger] mesh_instances@[j],
                    cube_mesh,
                    template,
                    cell_translations@[j],
                    j,
                ),
        decreases STRESS_COUNT - i,
    {
        let base_positions = points3_of(&mesh.positions4);
        let base_normals = points3_of(&mesh.normals4);
        mesh_instances.push(
            MeshObjectInstance {
                object_id: Id(STRESS_FIRST_ID + i as u64),
                mesh_asset_id: 0,
                vertex_start: 0,
                vertex_count: mesh.positions4.len(),
                index_start: 0,
                index_count: mesh.indices.len(),
                material_start: 0,
                material_count: mesh.materials.len(),
                base_positions,
                base_normals,
                pivot: template.pivot,
                max_extent: template.max_extent,
                rotation: template.rotation,
                translation: cell_translations[i],
                scale: template.scale,
            },
        );
        i = i + 1;
    }
    *stress_instance_count = mesh_instances.len();
    *gpu_mesh_dirty = true;
    *geometry_dirty = true;
    *accumulation_dirty = true;
}

} // verus!
