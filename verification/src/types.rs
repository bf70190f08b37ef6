//! The runtime's scene objects (mesh and light instances, mesh assets) and
//! the transform gizmo's targets.

use vstd::prelude::*;
use crate::mesh::MeshData;
use crate::scene_data::Id;

verus! {

/// The object ids of a sequence of lights.
pub open spec fn light_ids<S>(lights: Seq<LightObjectInstance<S>>) -> Seq<Id> {
    lights.map_values(|light: LightObjectInstance<S>| light.object_id)
}

/// The object ids of the lights, in order.
pub fn collect_light_ids<S>(lights: &[LightObjectInstance<S>]) -> (ids: Vec<Id>)
    ensures
        ids@ == light_ids(lights@),
{
    let mut ids: Vec<Id> = Vec::new();
    let n = lights.len();
    let mut i: usize = 0;
    while i < n
        invariant
            n == lights@.len(),
            0 <= i <= n,
            ids@ == light_ids(lights@.take(i as int)),
        decreases n - i,
    {
        ids.push(lights[i].object_id);
        assert(light_ids(lights@.take(i + 1)) =~= light_ids(lights@.take(i as int)).push(
            lights@[i as int].object_id,
        ));
        i = i + 1;
    }
    assert(lights@.take(n as int) =~= lights@);
    ids
}

/// The most sun lights the shader reads.
pub const MAX_SUN_LIGHTS: usize = 8;

/// The most photon targets the photon mapper aims at.
pub const MAX_PHOTON_TARGETS: usize = 4096;

/// A mesh object placed in the combined scene mesh: the ranges of the
/// combined mesh that hold its vertices, indices and materials, its vertices
/// and normals as loaded, and its pose (pivot, rotation as a quaternion
/// `[x, y, z, w]`, translation and per-axis scale).
#[derive(Clone)]
pub struct MeshObjectInstance<S> {
    pub object_id: Id,
    pub mesh_asset_id: u32,
    pub vertex_start: usize,
    pub vertex_count: usize,
    pub index_start: usize,
    pub index_count: usize,
    pub material_start: usize,
    pub material_count: usize,
    pub base_positions: Vec<[S; 3]>,
    pub base_normals: Vec<[S; 3]>,
    pub pivot: [S; 3],
    pub max_extent: S,
    pub rotation: [S; 4],
    pub translation: [S; 3],
    pub scale: [S; 3],
}

/// The editor's free camera: its position and its heading as yaw and pitch
/// angles.
#[derive(Clone, Copy)]
pub struct Camera<S> {
    pub pos: [S; 3],
    pub yaw: S,
    pub pitch: S,
}

/// A mesh loaded from a project file.
pub struct MeshAsset<S, M> {
    pub asset_id: u32,
    pub name: String,
    pub mesh: MeshData<S, M>,
}

/// A light object of the scene with its pose and intensity.
#[derive(Clone, Copy)]
pub struct LightObjectInstance<S> {
    pub object_id: Id,
    pub position: [S; 3],
    pub rotation: [S; 4],
    pub scale: [S; 3],
    pub intensity: S,
}

/// The kinds of built-in scene that the renderer knows.
#[derive(Clone, Copy, PartialEq, Eq, Structural, Debug)]
pub enum SceneKind {
    Decanter,
    Wine,
    CornellBox,
}

/// The objects that the transform gizmo can be attached to.
#[derive(Clone, Copy, PartialEq, Eq, Structural, Debug)]
pub enum GizmoTargetKind {
    Sphere,
    Decanter,
    WineGlass,
    CornellBox,
    SunLamp,
    WineSpotlight,
}

/// The label shown in the editor for each gizmo target.
pub open spec fn spec_target_label(target: GizmoTargetKind) -> Seq<char> {
    match target {
        GizmoTargetKind::Sphere => "Cube"@,
        GizmoTargetKind::Decanter => "Decanter"@,
        GizmoTargetKind::WineGlass => "Wine Glass"@,
        GizmoTargetKind::CornellBox => "Cornell Box"@,
        GizmoTargetKind::SunLamp => "Sun Lamp"@,
        GizmoTargetKind::WineSpotlight => "Spotlight"@,
    }
}

/// Every scene starts with the decanter selected.
pub fn default_target_for_scene(scene_kind: SceneKind) -> (target: GizmoTargetKind)
    ensures
        target == GizmoTargetKind::Decanter,
{
    GizmoTargetKind::Decanter
}

/// Every target may be selected in every scene.
pub fn target_allowed_in_scene(scene_kind: SceneKind, target: GizmoTargetKind) -> (allowed: bool)
    ensures
        allowed,
{
    true
}

/// The editor's label for a gizmo target.
pub fn target_label(target: GizmoTargetKind) -> (label: &'static str)
    ensures
        label@ == spec_target_label(target),
{
    match target {
        GizmoTargetKind::Sphere => "Cube",
        GizmoTargetKind::Decanter => "Decanter",
        GizmoTargetKind::WineGlass => "Wine Glass",
        GizmoTargetKind::CornellBox => "Cornell Box",
        GizmoTargetKind::SunLamp => "Sun Lamp",
        GizmoTargetKind::WineSpotlight => "Spotlight",
    }
}

} // verus!
