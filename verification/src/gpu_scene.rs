//! Deciding, frame by frame, what the renderer must redo: restart the
//! accumulation of samples, rebuild the scene geometry, or reallocate the
//! GPU buffers that hold it.

use crate::geometry::{
    gather_visible, is_stand_in, visible_render, visible_render_geometry, RenderGeometry,
    RenderView,
};
use crate::mesh::{MeshData, MeshView};
use crate::scene_data::Id;
use crate::types::{MeshAsset, MeshObjectInstance, MAX_SUN_LIGHTS};
use vstd::prelude::*;

verus! {

/// Where the rebuilt scene geometry comes from.
#[derive(Clone, Copy, PartialEq, Eq, Structural, Debug)]
pub enum GeometrySource {
    /// The first mesh asset, drawn once per stress cube.
    StressAsset,
    /// The visible mesh instances of the scene mesh.
    VisibleInstances,
}

/// What the renderer does this frame: whether it restarts the accumulation,
/// whether it rebuilds the geometry and from where, the frame counter it
/// sets, and the dirty flags it leaves (a rebuild always leaves the GPU
/// buffers up to date).
#[derive(Clone, Copy, PartialEq, Eq, Structural, Debug)]
pub struct FramePlan {
    pub reset_accumulation: bool,
    pub rebuild_geometry: bool,
    pub source: GeometrySource,
    pub next_frame: u32,
    pub accumulation_dirty: bool,
    pub geometry_dirty: bool,
    pub gpu_mesh_dirty: bool,
}

/// The renderer's plan for a frame: when the accumulation is dirty or the
/// sun moved, it restarts the accumulation at frame 0 and, when the
/// geometry is dirty, rebuilds it (from the stress asset while a stress
/// scene is loaded, otherwise from the visible instances), clearing both
/// flags; otherwise it only counts the frame, saturating. A rebuild
/// reallocates the GPU buffers if they are marked dirty (or too small, see
/// [`needs_buffer_realloc`]) and so always leaves them clean; without a
/// rebuild their mark stays.
pub fn plan_frame(
    accumulation_dirty: bool,
    sun_changed: bool,
    geometry_dirty: bool,
    gpu_mesh_dirty: bool,
    stress_instance_count: usize,
    frame: u32,
) -> (plan: FramePlan)
    ensures
        plan.gpu_mesh_dirty == (gpu_mesh_dirty && !plan.rebuild_geometry),
        plan.reset_accumulation == (accumulation_dirty || sun_changed),
        plan.rebuild_geometry == ((accumulation_dirty || sun_changed) && geometry_dirty),
        plan.source == if stress_instance_count > 0 {
            GeometrySource::StressAsset
        } else {
            GeometrySource::VisibleInstances
        },
        plan.next_frame == if accumulation_dirty || sun_changed {
            0
        } else if frame < u32::MAX {
            (frame + 1) as u32
        } else {
            u32::MAX
        },
        plan.accumulation_dirty == (accumulation_dirty && !(accumulation_dirty || sun_changed)),
        plan.geometry_dirty == (geometry_dirty && !(accumulation_dirty || sun_changed)),
{
    let source = if stress_instance_count > 0 {
        GeometrySource::StressAsset
    } else {
        GeometrySource::VisibleInstances
    };
    if accumulation_dirty || sun_changed {
        FramePlan {
            reset_accumulation: true,
            rebuild_geometry: geometry_dirty,
            source,
            next_frame: 0,
            accumulation_dirty: false,
            geometry_dirty: false,
            gpu_mesh_dirty: gpu_mesh_dirty && !geometry_dirty,
        }
    } else {
        FramePlan {
            reset_accumulation: false,
            rebuild_geometry: false,
            source,
            next_frame: frame.saturating_add(1),
            accumulation_dirty,
            geometry_dirty,
            gpu_mesh_dirty,
        }
    }
}

/// The GPU buffers must be created anew: they are marked dirty, or some
/// buffer is too small for the bytes it must now hold.
pub fn needs_buffer_realloc(gpu_mesh_dirty: bool, needed: &[u64], capacity: &[u64]) -> (realloc:
    bool)
    requires
        needed@.len() == capacity@.len(),
    ensures
        realloc == (gpu_mesh_dirty || exists|i: int|
            0 <= i < needed@.len() && #[trigger] needed@[i] > capacity@[i]),
{
    let n = needed.len();
    let mut i: usize = 0;
    while i < n
        invariant
            n == needed@.len(),
            n == capacity@.len(),
            0 <= i <= n,
            forall|j: int| 0 <= j < i ==> #[trigger] needed@[j] <= capacity@[j],
        decreases n - i,
    {
        if needed[i] > capacity[i] {
            return true;
        }
        i = i + 1;
    }
    gpu_mesh_dirty
}

/// The number of instances the top-level acceleration structure holds: one
/// per stress cube (as a `u32`) while a stress scene is loaded, otherwise
/// one for the whole scene mesh.
pub fn tlas_instance_count(stress_instance_count: usize) -> (count: u32)
    ensures
        count == if stress_instance_count > 0 {
            stress_instance_count as u32
        } else {
            1
        },
{
    if stress_instance_count > 0 {
        stress_instance_count as u32
    } else {
        1
    }
}

/// The number of photons emitted in a frame: `photons_per_frame` for each
/// sun light (or once with none), capped at one million.
pub open spec fn photon_budget(photons_per_frame: u32, sun_light_count: u32) -> u32 {
    let lights: int = if sun_light_count > 0 {
        sun_light_count as int
    } else {
        1
    };
    let total: int = photons_per_frame * lights;
    if total > 1_000_000 {
        1_000_000
    } else {
        total as u32
    }
}

/// The sun light that emits this frame's photons: while there are sun
/// lights, the first [`MAX_SUN_LIGHTS`] of them take turns frame by frame;
/// with none, the primary light emits (`None`).
pub fn photon_light_slot(sun_light_count: u32, frame: u32) -> (slot: Option<usize>)
    ensures
        slot == if sun_light_count > 0 {
            Some(
                (frame as int % if sun_light_count < MAX_SUN_LIGHTS {
                    sun_light_count as int
                } else {
                    MAX_SUN_LIGHTS as int
                }) as usize,
            )
        } else {
            None::<usize>
        },
{
    if sun_light_count > 0 {
        let cap: u32 = MAX_SUN_LIGHTS as u32;
        let count: u32 = if sun_light_count < cap {
            sun_light_count
        } else {
            cap
        };
        Some((frame % count) as usize)
    } else {
        None
    }
}

/// The number of photons emitted this frame: `photons_per_frame` for each
/// sun light (or once with none), saturating, then capped at one million.
pub fn photon_frame_count(photons_per_frame: u32, sun_light_count: u32) -> (count: u32)
    ensures
        count == photon_budget(photons_per_frame, sun_light_count),
{
    let lights: u32 = if sun_light_count > 0 {
        sun_light_count
    } else {
        1
    };
    let total: u32 = match photons_per_frame.checked_mul(lights) {
        Some(t) => t,
        None => u32::MAX,
    };
    if total > 1_000_000 {
        1_000_000
    } else {
        total
    }
}

/// The instance count of the raster pass when its instance buffer must be
/// made anew: one per mesh instance (as a `u32`) while a stress scene is
/// loaded, otherwise one; `None` when the buffer already holds that many.
pub fn raster_instance_rebuild(current: u32, stress_instance_count: usize, mesh_instance_count: usize)
    -> (rebuild: Option<u32>)
    ensures
        rebuild == {
            let target: u32 = if stress_instance_count > 0 {
                mesh_instance_count as u32
            } else {
                1
            };
            if current != target {
                Some(target)
            } else {
                None::<u32>
            }
        },
{
    let target: u32 = if stress_instance_count > 0 {
        mesh_instance_count as u32
    } else {
        1
    };
    if current != target {
        Some(target)
    } else {
        None
    }
}

/// A mesh's geometry as the renderer uploads it, unchanged.
pub open spec fn mesh_render<S, M>(mesh: MeshView<S, M>) -> RenderView<S> {
    RenderView {
        vertices: mesh.vertices,
        indices: mesh.indices,
        positions: mesh.positions4,
        normals: mesh.normals4,
        triangle_material_ids: mesh.triangle_material_ids,
    }
}

/// A mesh uploads as it is: its vertices, indices, positions, normals and
/// triangle material ids each go to the same part of the uploaded geometry.
pub proof fn lemma_mesh_uploads_as_is<S, M>(mesh: MeshView<S, M>)
    ensures
        mesh_render(mesh).vertices == mesh.vertices,
        mesh_render(mesh).indices == mesh.indices,
        mesh_render(mesh).positions == mesh.positions4,
        mesh_render(mesh).normals == mesh.normals4,
        mesh_render(mesh).triangle_material_ids == mesh.triangle_material_ids,
{
}

/// A copy of `v`.
fn copied<T: Copy>(v: &Vec<T>) -> (out: Vec<T>)
    ensures
        out@ == v@,
{
    let mut out: Vec<T> = Vec::new();
    let n = v.len();
    let mut i: usize = 0;
    while i < n
        invariant
            n == v@.len(),
            0 <= i <= n,
            out@ == v@.take(i as int),
        decreases n - i,
    {
        out.push(v[i]);
        assert(v@.take(i + 1) =~= v@.take(i as int).push(v@[i as int]));
        i = i + 1;
    }
    assert(v@.take(n as int) =~= v@);
    out
}

/// The geometry that a rebuild uploads, whose indices become the model
/// indices: while a stress scene is loaded, the first mesh asset as it is;
/// otherwise the visible instances gathered from the scene mesh, or the
/// stand-in where nothing visible adds a vertex.
pub fn rebuild_geometry<S: Copy, M>(
    source: GeometrySource,
    mesh: &MeshData<S, M>,
    instances: &[MeshObjectInstance<S>],
    visible_ids: &[Id],
    mesh_assets: &[MeshAsset<S, M>],
    placeholder: RenderGeometry<S>,
    model_idx: &mut Vec<u32>,
) -> (geometry: RenderGeometry<S>)
    requires
        source == GeometrySource::StressAsset ==> mesh_assets@.len() > 0,
        source == GeometrySource::VisibleInstances ==> gather_visible(
            mesh@,
            instances@,
            visible_ids@,
        ) is Some,
        is_stand_in(placeholder@),
    ensures
        geometry@ == match source {
            GeometrySource::StressAsset => mesh_render(mesh_assets@[0].mesh@),
            GeometrySource::VisibleInstances => visible_render(
                mesh@,
                instances@,
                visible_ids@,
                placeholder@,
            ),
        },
        source == GeometrySource::StressAsset ==> {
            &&& geometry@.vertices == mesh_assets@[0].mesh@.vertices
            &&& geometry@.indices == mesh_assets@[0].mesh@.indices
            &&& geometry@.positions == mesh_assets@[0].mesh@.positions4
            &&& geometry@.normals == mesh_assets@[0].mesh@.normals4
            &&& geometry@.triangle_material_ids == mesh_assets@[0].mesh@.triangle_material_ids
        },
        final(model_idx)@ == geometry@.indices,
{
    let geometry = match source {
        GeometrySource::StressAsset => {
            let asset = &mesh_assets[0].mesh;
            RenderGeometry {
                vertices: copied(&asset.vertices),
                indices: copied(&asset.indices),
                positions: copied(&asset.positions4),
                normals: copied(&asset.normals4),
                triangle_material_ids: copied(&asset.triangle_material_ids),
            }
        },
        GeometrySource::VisibleInstances => visible_render_geometry(
            mesh,
            instances,
            visible_ids,
            placeholder,
        ),
    };
    *model_idx = copied(&geometry.indices);
    geometry
}

/// How the renderer draws a frame.
#[derive(Clone, Copy, PartialEq, Eq, Structural, Debug)]
pub enum RenderModeKind {
    Pathtraced,
    Raytraced,
    Rasterized,
}

/// The photons that a frame emits: from which sun light (`None` for the
/// primary light) and how many.
#[derive(Clone, Copy, PartialEq, Eq, Structural, Debug)]
pub struct PhotonEmission {
    pub light_slot: Option<usize>,
    pub count: u32,
}

/// The photons a frame emits: only a path-traced frame emits any, from
/// the sun light whose turn it is (see [`photon_light_slot`]) and as many
/// as [`photon_frame_count`] allows; other frames emit none.
pub fn photon_emission(
    render_mode: RenderModeKind,
    photons_per_frame: u32,
    sun_light_count: u32,
    frame: u32,
) -> (emission: Option<PhotonEmission>)
    ensures
        emission is Some <==> render_mode == RenderModeKind::Pathtraced,
        emission matches Some(e) ==> {
            &&& e.light_slot == if sun_light_count > 0 {
                Some(
                    (frame as int % if sun_light_count < MAX_SUN_LIGHTS {
                        sun_light_count as int
                    } else {
                        MAX_SUN_LIGHTS as int
                    }) as usize,
                )
            } else {
                None::<usize>
            }
            &&& e.count == photon_budget(photons_per_frame, sun_light_count)
        },
{
    match render_mode {
        RenderModeKind::Pathtraced => Some(
            PhotonEmission {
                light_slot: photon_light_slot(sun_light_count, frame),
                count: photon_frame_count(photons_per_frame, sun_light_count),
            },
        ),
        _ => None,
    }
}

} // verus!
