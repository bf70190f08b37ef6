//! Triangle meshes as the renderer uploads them, generic over the scalar
//! type `S` of their coordinates, and the operations that combine meshes.
//!
//! A mesh holds one vertex, one position and one normal per vertex, three
//! indices per triangle, one material id per triangle and a material table.
//! The functions here move these values and rebase indices and material
//! ids; they never compute with the coordinates themselves.

use vstd::prelude::*;

verus! {

/// A vertex as the rasteriser reads it: its position only.
#[derive(Clone, Copy)]
pub struct Vertex<S> {
    pub position: [S; 3],
}

/// A triangle mesh with per-vertex positions and normals (padded to four
/// components for the GPU), triangle indices, one material id per triangle
/// and the material table those ids index.
pub struct MeshData<S, M> {
    pub vertices: Vec<Vertex<S>>,
    pub indices: Vec<u32>,
    pub positions4: Vec<[S; 4]>,
    pub normals4: Vec<[S; 4]>,
    pub triangle_material_ids: Vec<u32>,
    pub materials: Vec<M>,
}

/// The mathematical content of a [`MeshData`].
pub struct MeshView<S, M> {
    pub vertices: Seq<Vertex<S>>,
    pub indices: Seq<u32>,
    pub positions4: Seq<[S; 4]>,
    pub normals4: Seq<[S; 4]>,
    pub triangle_material_ids: Seq<u32>,
    pub materials: Seq<M>,
}

impl<S, M> View for MeshData<S, M> {
    type V = MeshView<S, M>;

    open spec fn view(&self) -> MeshView<S, M> {
        MeshView {
            vertices: self.vertices@,
            indices: self.indices@,
            positions4: self.positions4@,
            normals4: self.normals4@,
            triangle_material_ids: self.triangle_material_ids@,
            materials: self.materials@,
        }
    }
}

/// Every element of `s` increased by `offset` (in `u32`).
pub open spec fn shift_ids(s: Seq<u32>, offset: u32) -> Seq<u32> {
    s.map_values(|x: u32| (x + offset) as u32)
}

/// Every element of `s` can be increased by `offset` without leaving `u32`.
pub open spec fn shift_fits(s: Seq<u32>, offset: u32) -> bool {
    forall|i: int| 0 <= i < s.len() ==> #[trigger] s[i] + offset <= u32::MAX
}

/// The vertex offset at which a mesh appended after `base` starts: the
/// number of positions of `base`, as a `u32`.
pub open spec fn vertex_offset<S, M>(base: MeshView<S, M>) -> u32 {
    base.positions4.len() as u32
}

/// The material offset at which a mesh appended after `base` starts.
pub open spec fn material_offset<S, M>(base: MeshView<S, M>) -> u32 {
    base.materials.len() as u32
}

/// `extra` can be appended to `base`: no rebased index or material id
/// leaves `u32`.
pub open spec fn can_append<S, M>(base: MeshView<S, M>, extra: MeshView<S, M>) -> bool {
    &&& shift_fits(extra.indices, vertex_offset(base))
    &&& shift_fits(extra.triangle_material_ids, material_offset(base))
}

/// The mesh made of `base` followed by `extra`, with the indices of
/// `extra` rebased past the vertices of `base` and its material ids past the
/// materials of `base`.
pub open spec fn mesh_appended<S, M>(base: MeshView<S, M>, extra: MeshView<S, M>) -> MeshView<S, M> {
    MeshView {
        vertices: base.vertices + extra.vertices,
        indices: base.indices + shift_ids(extra.indices, vertex_offset(base)),
        positions4: base.positions4 + extra.positions4,
        normals4: base.normals4 + extra.normals4,
        triangle_material_ids: base.triangle_material_ids + shift_ids(
            extra.triangle_material_ids,
            material_offset(base),
        ),
        materials: base.materials + extra.materials,
    }
}

impl<S, M> MeshView<S, M> {
    /// A well-formed mesh: the per-vertex arrays agree in length, the
    /// indices come in triangles and name vertices, and each triangle has
    /// one material id that names a material.
    pub open spec fn wf(self) -> bool {
        &&& self.vertices.len() == self.positions4.len()
        &&& self.normals4.len() == self.positions4.len()
        &&& self.indices.len() % 3 == 0
        &&& self.triangle_material_ids.len() == self.indices.len() / 3
        &&& forall|i: int|
            0 <= i < self.indices.len() ==> #[trigger] self.indices[i] < self.positions4.len()
        &&& forall|t: int|
            0 <= t < self.triangle_material_ids.len() ==> #[trigger] self.triangle_material_ids[t]
                < self.materials.len()
    }
}

} // verus!
