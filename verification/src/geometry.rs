//! Combining object meshes into the scene mesh and gathering the geometry
//! of the visible objects for the renderer.

use vstd::prelude::*;
use crate::mesh::{
    can_append, material_offset, mesh_appended, vertex_offset, shift_fits, shift_ids, MeshData, MeshView, Vertex,
};
use crate::scene_data::{
    capped, contains_id, first_included, included_positions, lemma_included_positions_valid, Id,
};
use crate::types::{MeshObjectInstance, MAX_PHOTON_TARGETS};

verus! {

/// Appends `extra` to `out`, adding `offset` to each element.
fn push_shifted(out: &mut Vec<u32>, extra: &Vec<u32>, offset: u32)
    requires
        shift_fits(extra@, offset),
    ensures
        final(out)@ == old(out)@ + shift_ids(extra@, offset),
{
    let n = extra.len();
    let mut i: usize = 0;
    while i < n
        invariant
            n == extra@.len(),
            0 <= i <= n,
            shift_fits(extra@, offset),
            out@ == old(out)@ + shift_ids(extra@.take(i as int), offset),
        decreases n - i,
    {
        let v = extra[i];
        assert(extra@[i as int] + offset <= u32::MAX);
        out.push(v + offset);
        proof {
            assert(extra@.take(i as int + 1) =~= extra@.take(i as int).push(v));
            assert(shift_ids(extra@.take(i as int + 1), offset) =~= shift_ids(
                extra@.take(i as int),
                offset,
            ).push((v + offset) as u32));
        }
        i = i + 1;
    }
    assert(extra@.take(n as int) =~= extra@);
}

/// Appends `extra` to `base`: its vertices, positions, normals and materials
/// follow those of `base`, its indices are rebased past the vertices of
/// `base` and its triangle material ids past the materials of `base`.
pub fn append_mesh<S, M>(base: &mut MeshData<S, M>, extra: MeshData<S, M>)
    requires
        can_append(old(base)@, extra@),
    ensures
        final(base)@ == mesh_appended(old(base)@, extra@),
{
    let vertex_offset = base.positions4.len() as u32;
    let material_offset = base.materials.len() as u32;
    let MeshData {
        vertices: mut extra_vertices,
        indices: extra_indices,
        positions4: mut extra_positions,
        normals4: mut extra_normals,
        triangle_material_ids: extra_material_ids,
        materials: mut extra_materials,
    } = extra;
    base.vertices.append(&mut extra_vertices);
    base.positions4.append(&mut extra_positions);
    base.normals4.append(&mut extra_normals);
    push_shifted(&mut base.indices, &extra_indices, vertex_offset);
    push_shifted(&mut base.triangle_material_ids, &extra_material_ids, material_offset);
    base.materials.append(&mut extra_materials);
}


/// The geometry handed to the renderer: vertices, triangle indices,
/// positions and normals, and one material id per triangle.
pub struct RenderGeometry<S> {
    pub vertices: Vec<Vertex<S>>,
    pub indices: Vec<u32>,
    pub positions: Vec<[S; 4]>,
    pub normals: Vec<[S; 4]>,
    pub triangle_material_ids: Vec<u32>,
}

/// The mathematical content of a [`RenderGeometry`].
pub struct RenderView<S> {
    pub vertices: Seq<Vertex<S>>,
    pub indices: Seq<u32>,
    pub positions: Seq<[S; 4]>,
    pub normals: Seq<[S; 4]>,
    pub triangle_material_ids: Seq<u32>,
}

impl<S> View for RenderGeometry<S> {
    type V = RenderView<S>;

    open spec fn view(&self) -> RenderView<S> {
        RenderView {
            vertices: self.vertices@,
            indices: self.indices@,
            positions: self.positions@,
            normals: self.normals@,
            triangle_material_ids: self.triangle_material_ids@,
        }
    }
}

/// Geometry with nothing in it.
pub open spec fn empty_render<S>() -> RenderView<S> {
    RenderView {
        vertices: Seq::empty(),
        indices: Seq::empty(),
        positions: Seq::empty(),
        normals: Seq::empty(),
        triangle_material_ids: Seq::empty(),
    }
}

/// The vertex at a (padded) position.
pub open spec fn vertex_of<S>(p: [S; 4]) -> Vertex<S> {
    Vertex { position: [p[0], p[1], p[2]] }
}

/// The vertices at a sequence of positions.
pub open spec fn vertices_of<S>(ps: Seq<[S; 4]>) -> Seq<Vertex<S>> {
    ps.map_values(|p: [S; 4]| vertex_of(p))
}

/// An index of the combined mesh rebased into geometry whose vertices of
/// this instance start at `vertex_base`.
pub open spec fn rebase_index(index: u32, vertex_start: usize, vertex_base: u32) -> u32 {
    ((index - (vertex_start as u32)) + vertex_base) as u32
}

/// The instance's ranges lie within `mesh`, and each of its indices can be
/// rebased to `vertex_base` within `u32`.
pub open spec fn instance_fits<S, M>(
    mesh: MeshView<S, M>,
    inst: MeshObjectInstance<S>,
    vertex_base: u32,
) -> bool {
    &&& inst.vertex_start + inst.vertex_count <= mesh.positions4.len()
    &&& inst.vertex_start + inst.vertex_count <= mesh.normals4.len()
    &&& inst.index_start + inst.index_count <= mesh.indices.len()
    &&& inst.index_start / 3 + inst.index_count / 3 <= mesh.triangle_material_ids.len()
    &&& forall|j: int|
        inst.index_start <= j < inst.index_start + inst.index_count ==> {
            &&& (inst.vertex_start as u32) <= #[trigger] mesh.indices[j]
            &&& mesh.indices[j] - (inst.vertex_start as u32) + vertex_base <= u32::MAX
        }
}

/// `acc` followed by the geometry of one instance taken from `mesh`.
pub open spec fn add_instance<S, M>(
    mesh: MeshView<S, M>,
    acc: RenderView<S>,
    inst: MeshObjectInstance<S>,
) -> RenderView<S> {
    let vs = inst.vertex_start as int;
    let ve = vs + inst.vertex_count;
    let is = inst.index_start as int;
    let ie = is + inst.index_count;
    let ts = inst.index_start as int / 3;
    let te = ts + inst.index_count as int / 3;
    let base = acc.vertices.len() as u32;
    RenderView {
        vertices: acc.vertices + vertices_of(mesh.positions4.subrange(vs, ve)),
        indices: acc.indices + mesh.indices.subrange(is, ie).map_values(
            |x: u32| rebase_index(x, inst.vertex_start, base),
        ),
        positions: acc.positions + mesh.positions4.subrange(vs, ve),
        normals: acc.normals + mesh.normals4.subrange(vs, ve),
        triangle_material_ids: acc.triangle_material_ids + mesh.triangle_material_ids.subrange(
            ts,
            te,
        ),
    }
}

/// The geometry of the instances whose objects are in `visible`, in the
/// order of `instances`, or `None` where an instance's ranges leave the
/// mesh or one of its indices cannot be rebased within `u32`.
pub open spec fn gather_visible<S, M>(
    mesh: MeshView<S, M>,
    instances: Seq<MeshObjectInstance<S>>,
    visible: Seq<Id>,
) -> Option<RenderView<S>>
    decreases instances.len(),
{
    if instances.len() == 0 {
        Some(empty_render())
    } else {
        match gather_visible(mesh, instances.drop_last(), visible) {
            None => None,
            Some(acc) => {
                let inst = instances.last();
                if !visible.contains(inst.object_id) {
                    Some(acc)
                } else if instance_fits(mesh, inst, acc.vertices.len() as u32) {
                    Some(add_instance(mesh, acc, inst))
                } else {
                    None
                }
            },
        }
    }
}

/// When the instances can be gathered, so can any prefix of them.
proof fn lemma_gather_prefix<S, M>(
    mesh: MeshView<S, M>,
    instances: Seq<MeshObjectInstance<S>>,
    visible: Seq<Id>,
    k: int,
)
    requires
        0 <= k <= instances.len(),
        gather_visible(mesh, instances, visible) is Some,
    ensures
        gather_visible(mesh, instances.take(k), visible) is Some,
    decreases instances.len(),
{
    if k < instances.len() {
        lemma_gather_prefix(mesh, instances.drop_last(), visible, k);
        assert(instances.drop_last().take(k) =~= instances.take(k));
    } else {
        assert(instances.take(k) =~= instances);
    }
}

/// Appends the geometry of one instance of `mesh` to `out`.
fn push_instance<S: Copy, M>(
    out: &mut RenderGeometry<S>,
    mesh: &MeshData<S, M>,
    inst: &MeshObjectInstance<S>,
)
    requires
        instance_fits(mesh@, *inst, old(out)@.vertices.len() as u32),
        old(out)@.vertices.len() == old(out)@.positions.len(),
    ensures
        final(out)@ == add_instance(mesh@, old(out)@, *inst),
{
    let ghost start = out@;
    let vertex_offset = out.vertices.len() as u32;
    assert(inst.vertex_start + inst.vertex_count <= mesh.positions4.len());
    let vertex_end = inst.vertex_start + inst.vertex_count;
    let mut j: usize = inst.vertex_start;
    while j < vertex_end
        invariant
            inst.vertex_start <= j <= vertex_end,
            vertex_end == inst.vertex_start + inst.vertex_count,
            vertex_end <= mesh.positions4@.len(),
            vertex_end <= mesh.normals4@.len(),
            out@.indices == start.indices,
            out@.triangle_material_ids == start.triangle_material_ids,
            out@.positions == start.positions + mesh@.positions4.subrange(
                inst.vertex_start as int,
                j as int,
            ),
            out@.normals == start.normals + mesh@.normals4.subrange(
                inst.vertex_start as int,
                j as int,
            ),
            out@.vertices == start.vertices + vertices_of(
                mesh@.positions4.subrange(inst.vertex_start as int, j as int),
            ),
        decreases vertex_end - j,
    {
        let p = mesh.positions4[j];
        let n = mesh.normals4[j];
        out.positions.push(p);
        out.normals.push(n);
        out.vertices.push(Vertex { position: [p[0], p[1], p[2]] });
        proof {
            let vs = inst.vertex_start as int;
            assert(mesh@.positions4.subrange(vs, j + 1) =~= mesh@.positions4.subrange(vs, j as int).push(p));
            assert(mesh@.normals4.subrange(vs, j + 1) =~= mesh@.normals4.subrange(vs, j as int).push(n));
            assert(vertices_of(mesh@.positions4.subrange(vs, j + 1)) =~= vertices_of(
                mesh@.positions4.subrange(vs, j as int),
            ).push(vertex_of(p)));
        }
        j = j + 1;
    }
    assert(inst.index_start + inst.index_count <= mesh.indices.len());
    let index_end = inst.index_start + inst.index_count;
    let ghost after_vertices = out@;
    let vertex_start32 = inst.vertex_start as u32;
    let ghost rebase = |x: u32| rebase_index(x, inst.vertex_start, vertex_offset);
    let mut k: usize = inst.index_start;
    while k < index_end
        invariant
            inst.index_start <= k <= index_end,
            index_end == inst.index_start + inst.index_count,
            index_end <= mesh.indices@.len(),
            vertex_start32 == inst.vertex_start as u32,
            vertex_offset == start.vertices.len() as u32,
            instance_fits(mesh@, *inst, vertex_offset),
            rebase == (|x: u32| rebase_index(x, inst.vertex_start, vertex_offset)),
            out@.vertices == after_vertices.vertices,
            out@.positions == after_vertices.positions,
            out@.normals == after_vertices.normals,
            out@.triangle_material_ids == start.triangle_material_ids,
            out@.indices == start.indices + mesh@.indices.subrange(
                inst.index_start as int,
                k as int,
            ).map_values(rebase),
        decreases index_end - k,
    {
        let index = mesh.indices[k];
        assert(vertex_start32 <= mesh@.indices[k as int]);
        out.indices.push(index - vertex_start32 + vertex_offset);
        proof {
            let is = inst.index_start as int;
            assert(mesh@.indices.subrange(is, k + 1).map_values(rebase) =~= mesh@.indices.subrange(
                is,
                k as int,
            ).map_values(rebase).push(rebase(index)));
        }
        k = k + 1;
    }
    let tri_start = inst.index_start / 3;
    let tri_count = inst.index_count / 3;
    let tri_end = tri_start + tri_count;
    let ghost after_indices = out@;
    let mut t: usize = tri_start;
    while t < tri_end
        invariant
            tri_start <= t <= tri_end,
            tri_end <= mesh.triangle_material_ids@.len(),
            out@.vertices == after_indices.vertices,
            out@.positions == after_indices.positions,
            out@.normals == after_indices.normals,
            out@.indices == after_indices.indices,
            out@.triangle_material_ids == start.triangle_material_ids
                + mesh@.triangle_material_ids.subrange(tri_start as int, t as int),
        decreases tri_end - t,
    {
        let m = mesh.triangle_material_ids[t];
        out.triangle_material_ids.push(m);
        assert(mesh@.triangle_material_ids.subrange(tri_start as int, t + 1)
            =~= mesh@.triangle_material_ids.subrange(tri_start as int, t as int).push(m));
        t = t + 1;
    }
    proof {
        let goal = add_instance(mesh@, start, *inst);
        let is = inst.index_start as int;
        assert(out@.indices =~= goal.indices);
        assert(out@.vertices =~= goal.vertices);
        assert(out@.positions =~= goal.positions);
        assert(out@.normals =~= goal.normals);
        assert(out@.triangle_material_ids =~= goal.triangle_material_ids);
    }
}

/// The stand-in geometry for a scene with nothing visible: one triangle
/// over three vertices (indices 0, 1, 2), each vertex at its position and
/// with a normal, and material id 0.
pub open spec fn is_stand_in<S>(geometry: RenderView<S>) -> bool {
    &&& geometry.vertices.len() == 3
    &&& geometry.vertices == vertices_of(geometry.positions)
    &&& geometry.normals.len() == 3
    &&& geometry.indices == seq![0u32, 1u32, 2u32]
    &&& geometry.triangle_material_ids == seq![0u32]
}

/// The geometry drawn for the visible instances: what they gather, or the
/// stand-in where they gather no vertex.
pub open spec fn visible_render<S, M>(
    mesh: MeshView<S, M>,
    instances: Seq<MeshObjectInstance<S>>,
    visible: Seq<Id>,
    stand_in: RenderView<S>,
) -> RenderView<S> {
    let gathered = gather_visible(mesh, instances, visible).unwrap();
    if gathered.vertices.len() == 0 {
        stand_in
    } else {
        gathered
    }
}

/// Each vertex of gathered geometry sits at its position and has a normal.
proof fn lemma_gather_shape<S, M>(
    mesh: MeshView<S, M>,
    instances: Seq<MeshObjectInstance<S>>,
    visible: Seq<Id>,
)
    requires
        gather_visible(mesh, instances, visible) is Some,
    ensures
        ({
            let g = gather_visible(mesh, instances, visible).unwrap();
            &&& g.vertices == vertices_of(g.positions)
            &&& g.normals.len() == g.vertices.len()
        }),
    decreases instances.len(),
{
    if instances.len() > 0 {
        let prefix = instances.drop_last();
        lemma_gather_shape(mesh, prefix, visible);
        let acc = gather_visible(mesh, prefix, visible).unwrap();
        let inst = instances.last();
        if visible.contains(inst.object_id) {
            let r = add_instance(mesh, acc, inst);
            let vs = inst.vertex_start as int;
            let ve = vs + inst.vertex_count;
            assert(r.vertices =~= vertices_of(r.positions)) by {
                assert(vertices_of(acc.positions + mesh.positions4.subrange(vs, ve)) =~= vertices_of(
                    acc.positions,
                ) + vertices_of(mesh.positions4.subrange(vs, ve)));
            }
        }
    }
}

/// The geometry of the instances whose objects are visible, gathered from
/// the combined mesh in the order of `instances`, with each instance's
/// indices rebased onto its gathered vertices; where nothing is visible
/// (no vertex gathered), the one-triangle `placeholder` stands in for it,
/// so that the renderer always has a triangle to build from. The result is
/// never empty, each of its vertices sits at its position and has a
/// normal, and where every visible instance's indices stay within its own
/// vertices, every index names a vertex.
pub fn visible_render_geometry<S: Copy, M>(
    mesh: &MeshData<S, M>,
    instances: &[MeshObjectInstance<S>],
    visible_ids: &[Id],
    placeholder: RenderGeometry<S>,
) -> (geometry: RenderGeometry<S>)
    requires
        gather_visible(mesh@, instances@, visible_ids@) is Some,
        is_stand_in(placeholder@),
    ensures
        geometry@ == visible_render(mesh@, instances@, visible_ids@, placeholder@),
        geometry@.vertices.len() > 0,
        geometry@.vertices == vertices_of(geometry@.positions),
        geometry@.normals.len() == geometry@.vertices.len(),
        (forall|k: int|
            0 <= k < instances@.len() && visible_ids@.contains(#[trigger] instances@[k].object_id)
                ==> indices_stay_in_instance(mesh@, instances@[k])) ==> render_wf(geometry@),
{
    proof {
        lemma_gather_shape(mesh@, instances@, visible_ids@);
        if forall|k: int|
            0 <= k < instances@.len() && visible_ids@.contains(#[trigger] instances@[k].object_id)
                ==> indices_stay_in_instance(mesh@, instances@[k]) {
            lemma_gather_wf(mesh@, instances@, visible_ids@);
        }
        assert(render_wf(placeholder@)) by {
            assert forall|i: int| 0 <= i < placeholder@.indices.len() implies #[trigger] placeholder@.indices[i]
                < placeholder@.vertices.len() by {
                assert(placeholder@.indices[i] == seq![0u32, 1u32, 2u32][i]);
            }
        }
    }
    let mut out = RenderGeometry {
        vertices: Vec::new(),
        indices: Vec::new(),
        positions: Vec::new(),
        normals: Vec::new(),
        triangle_material_ids: Vec::new(),
    };
    let n = instances.len();
    let mut i: usize = 0;
    while i < n
        invariant
            n == instances@.len(),
            0 <= i <= n,
            gather_visible(mesh@, instances@, visible_ids@) is Some,
            gather_visible(mesh@, instances@.take(i as int), visible_ids@) == Some(out@),
            out@.vertices.len() == out@.positions.len(),
        decreases n - i,
    {
        proof {
            lemma_gather_prefix(mesh@, instances@, visible_ids@, i + 1);
            assert(instances@.take(i + 1).drop_last() =~= instances@.take(i as int));
        }
        let inst = &instances[i];
        if contains_id(visible_ids, inst.object_id) {
            push_instance(&mut out, mesh, inst);
        }
        i = i + 1;
    }
    assert(instances@.take(n as int) =~= instances@);
    if out.vertices.len() == 0 {
        placeholder
    } else {
        out
    }
}


/// The pose of an object placed into the scene mesh: its pivot (the centre
/// of its bounds), its largest extent, and its rotation, translation and
/// scale.
#[derive(Clone, Copy)]
pub struct ObjectPose<S> {
    pub pivot: [S; 3],
    pub max_extent: S,
    pub rotation: [S; 4],
    pub translation: [S; 3],
    pub scale: [S; 3],
}

/// The first three components of a padded vector.
pub open spec fn point3_of<S>(p: [S; 4]) -> [S; 3] {
    [p[0], p[1], p[2]]
}

/// The ranges that `inst` records are those that `extra` occupies once
/// appended to `base`.
pub open spec fn records_appended_ranges<S, M>(
    inst: MeshObjectInstance<S>,
    base: MeshView<S, M>,
    extra: MeshView<S, M>,
) -> bool {
    &&& inst.vertex_start == base.positions4.len()
    &&& inst.vertex_count == extra.positions4.len()
    &&& inst.index_start == base.indices.len()
    &&& inst.index_count == extra.indices.len()
    &&& inst.material_start == base.materials.len()
    &&& inst.material_count == extra.materials.len()
}

/// The first three components of each of a sequence of padded vectors.
pub(crate) fn points3_of<S: Copy>(src: &Vec<[S; 4]>) -> (out: Vec<[S; 3]>)
    ensures
        out@ == src@.map_values(|p: [S; 4]| point3_of(p)),
{
    let mut out: Vec<[S; 3]> = Vec::new();
    let n = src.len();
    let mut i: usize = 0;
    while i < n
        invariant
            n == src@.len(),
            0 <= i <= n,
            out@ == src@.take(i as int).map_values(|p: [S; 4]| point3_of(p)),
        decreases n - i,
    {
        let p = src[i];
        out.push([p[0], p[1], p[2]]);
        assert(src@.take(i + 1).map_values(|p: [S; 4]| point3_of(p)) =~= src@.take(
            i as int,
        ).map_values(|p: [S; 4]| point3_of(p)).push(point3_of(p)));
        i = i + 1;
    }
    assert(src@.take(n as int) =~= src@);
    out
}

/// Appends an object's mesh to the combined scene mesh and returns the
/// instance that records where it went: its vertex, index and material
/// ranges in the combined mesh, its loaded positions and normals, and the
/// given pose.
pub fn append_object_mesh<S: Copy, M>(
    combined: &mut MeshData<S, M>,
    extra: MeshData<S, M>,
    object_id: Id,
    mesh_asset_id: u32,
    pose: ObjectPose<S>,
) -> (instance: MeshObjectInstance<S>)
    requires
        can_append(old(combined)@, extra@),
    ensures
        final(combined)@ == mesh_appended(old(combined)@, extra@),
        records_appended_ranges(instance, old(combined)@, extra@),
        instance.object_id == object_id,
        instance.mesh_asset_id == mesh_asset_id,
        instance.base_positions@ == extra@.positions4.map_values(|p: [S; 4]| point3_of(p)),
        instance.base_normals@ == extra@.normals4.map_values(|p: [S; 4]| point3_of(p)),
        instance.pivot == pose.pivot,
        instance.max_extent == pose.max_extent,
        instance.rotation == pose.rotation,
        instance.translation == pose.translation,
        instance.scale == pose.scale,
{
    let vertex_start = combined.positions4.len();
    let vertex_count = extra.positions4.len();
    let index_start = combined.indices.len();
    let index_count = extra.indices.len();
    let material_start = combined.materials.len();
    let material_count = extra.materials.len();
    let base_positions = points3_of(&extra.positions4);
    let base_normals = points3_of(&extra.normals4);
    append_mesh(combined, extra);
    MeshObjectInstance {
        object_id,
        mesh_asset_id,
        vertex_start,
        vertex_count,
        index_start,
        index_count,
        material_start,
        material_count,
        base_positions,
        base_normals,
        pivot: pose.pivot,
        max_extent: pose.max_extent,
        rotation: pose.rotation,
        translation: pose.translation,
        scale: pose.scale,
    }
}

/// The geometry of a mesh on its own, as the renderer takes it, with its
/// material ids counted from `material_base`.
pub open spec fn render_of<S, M>(mesh: MeshView<S, M>, material_base: u32) -> RenderView<S> {
    RenderView {
        vertices: vertices_of(mesh.positions4),
        indices: mesh.indices,
        positions: mesh.positions4,
        normals: mesh.normals4,
        triangle_material_ids: shift_ids(mesh.triangle_material_ids, material_base),
    }
}

/// Gathering from a combined mesh the object that was appended to it gives
/// back exactly that object's own geometry: appending an object's mesh and
/// then gathering it as the only visible object undo each other, the
/// rebasing of its indices included; its material ids still name its
/// materials in the combined material table.
pub proof fn lemma_gather_appended_object<S, M>(
    base: MeshView<S, M>,
    extra: MeshView<S, M>,
    inst: MeshObjectInstance<S>,
)
    requires
        base.wf(),
        extra.wf(),
        can_append(base, extra),
        base.positions4.len() <= u32::MAX,
        records_appended_ranges(inst, base, extra),
    ensures
        gather_visible(mesh_appended(base, extra), seq![inst], seq![inst.object_id]) == Some(
            render_of(extra, material_offset(base)),
        ),
{
    let m = mesh_appended(base, extra);
    let insts = seq![inst];
    let vis = seq![inst.object_id];
    let off = base.positions4.len() as u32;
    assert(off == base.positions4.len());
    assert(insts.drop_last() =~= Seq::<MeshObjectInstance<S>>::empty());
    assert(vis[0] == inst.object_id);
    assert(vis.contains(inst.object_id));
    assert forall|j: int|
        inst.index_start <= j < inst.index_start + inst.index_count implies {
            &&& (inst.vertex_start as u32) <= #[trigger] m.indices[j]
            &&& m.indices[j] - (inst.vertex_start as u32) + 0u32 <= u32::MAX
        } by {
        let k = j - base.indices.len();
        assert(m.indices[j] == shift_ids(extra.indices, off)[k]);
        assert(extra.indices[k] + off <= u32::MAX);
    }
    assert(instance_fits(m, inst, 0u32));
    let r = add_instance(m, empty_render(), inst);
    let vs = inst.vertex_start as int;
    let ve = vs + inst.vertex_count;
    let is = inst.index_start as int;
    let ie = is + inst.index_count;
    assert(m.positions4.subrange(vs, ve) =~= extra.positions4);
    assert(m.normals4.subrange(vs, ve) =~= extra.normals4);
    assert(base.indices.len() / 3 == base.triangle_material_ids.len());
    assert(m.triangle_material_ids.subrange(is / 3, is / 3 + inst.index_count as int / 3)
        =~= shift_ids(extra.triangle_material_ids, material_offset(base)));
    assert forall|k: int| 0 <= k < extra.indices.len() implies m.indices.subrange(is, ie).map_values(
        |x: u32| rebase_index(x, inst.vertex_start, 0u32),
    )[k] == extra.indices[k] by {
        assert(m.indices[is + k] == shift_ids(extra.indices, off)[k]);
        assert(extra.indices[k] + off <= u32::MAX);
    }
    assert(m.indices.subrange(is, ie).map_values(|x: u32| rebase_index(x, inst.vertex_start, 0u32))
        =~= extra.indices);
    assert(r.vertices =~= render_of(extra, material_offset(base)).vertices);
    assert(r.indices =~= render_of(extra, material_offset(base)).indices);
    assert(r.positions =~= render_of(extra, material_offset(base)).positions);
    assert(r.normals =~= render_of(extra, material_offset(base)).normals);
    assert(r.triangle_material_ids =~= render_of(extra, material_offset(base)).triangle_material_ids);
    assert(r == render_of(extra, material_offset(base)));
    assert(insts.last() == inst);
    assert(gather_visible(m, insts.drop_last(), vis) == Some(empty_render::<S>()));
    assert(empty_render::<S>().vertices.len() == 0);
}

/// Appending one well-formed mesh to another is always accepted by
/// [`append_mesh`] and gives a well-formed mesh, as long as the combined
/// vertex and material counts can be addressed by `u32` indices.
pub proof fn lemma_append_preserves_wf<S, M>(base: MeshView<S, M>, extra: MeshView<S, M>)
    requires
        base.wf(),
        extra.wf(),
        base.positions4.len() + extra.positions4.len() <= u32::MAX + 1,
        base.materials.len() + extra.materials.len() <= u32::MAX + 1,
    ensures
        can_append(base, extra),
        mesh_appended(base, extra).wf(),
{
    let m = mesh_appended(base, extra);
    let voff = vertex_offset(base);
    let moff = material_offset(base);
    assert forall|i: int| 0 <= i < m.indices.len() implies #[trigger] m.indices[i]
        < m.positions4.len() by {
        if i >= base.indices.len() {
            let k = i - base.indices.len();
            assert(extra.indices[k] < extra.positions4.len());
            assert(voff == base.positions4.len());
            assert(m.indices[i] == shift_ids(extra.indices, voff)[k]);
        }
    }
    assert forall|t: int| 0 <= t < m.triangle_material_ids.len() implies
        #[trigger] m.triangle_material_ids[t] < m.materials.len() by {
        if t >= base.triangle_material_ids.len() {
            let k = t - base.triangle_material_ids.len();
            assert(extra.triangle_material_ids[k] < extra.materials.len());
            assert(moff == base.materials.len());
            assert(m.triangle_material_ids[t] == shift_ids(extra.triangle_material_ids, moff)[k]);
        }
    }
    assert(shift_fits(extra.indices, voff)) by {
        assert forall|i: int| 0 <= i < extra.indices.len() implies #[trigger] extra.indices[i]
            + voff <= u32::MAX by {
            assert(extra.indices[i] < extra.positions4.len());
            assert(voff == base.positions4.len());
        }
    }
    assert(shift_fits(extra.triangle_material_ids, moff)) by {
        assert forall|i: int| 0 <= i < extra.triangle_material_ids.len() implies
            #[trigger] extra.triangle_material_ids[i] + moff <= u32::MAX by {
            assert(extra.triangle_material_ids[i] < extra.materials.len());
            assert(moff == base.materials.len());
        }
    }
}

/// The object ids of a sequence of instances.
pub open spec fn instance_ids<S>(instances: Seq<MeshObjectInstance<S>>) -> Seq<Id> {
    instances.map_values(|inst: MeshObjectInstance<S>| inst.object_id)
}

/// The object ids of the instances, in order.
pub fn collect_instance_ids<S>(instances: &[MeshObjectInstance<S>]) -> (ids: Vec<Id>)
    ensures
        ids@ == instance_ids(instances@),
{
    let mut ids: Vec<Id> = Vec::new();
    let n = instances.len();
    let mut i: usize = 0;
    while i < n
        invariant
            n == instances@.len(),
            0 <= i <= n,
            ids@ == instance_ids(instances@.take(i as int)),
        decreases n - i,
    {
        ids.push(instances[i].object_id);
        assert(instance_ids(instances@.take(i + 1)) =~= instance_ids(instances@.take(i as int)).push(
            instances@[i as int].object_id,
        ));
        i = i + 1;
    }
    assert(instances@.take(n as int) =~= instances@);
    ids
}

/// The instances that receive a photon target: those whose objects are
/// visible (every instance where `include_all` holds), in order, and no more
/// than [`MAX_PHOTON_TARGETS`] of them. The photon mapper then gives each a
/// target sphere around its centre and accumulates their areas.
pub fn photon_target_instances<S>(
    instances: &[MeshObjectInstance<S>],
    visible_ids: &[Id],
    include_all: bool,
) -> (picked: Vec<usize>)
    ensures
        picked@ == capped(
            included_positions(instance_ids(instances@), visible_ids@, include_all),
            MAX_PHOTON_TARGETS,
        ),
        picked@.len() <= MAX_PHOTON_TARGETS,
        forall|j: int|
            0 <= j < picked@.len() ==> #[trigger] picked@[j] < instances@.len() && (include_all
                || visible_ids@.contains(instances@[picked@[j] as int].object_id)),
{
    let ids = collect_instance_ids(instances);
    assert(ids@.len() == instances@.len());
    assert(instances@.len() == instances.len());
    proof {
        let all = included_positions(ids@, visible_ids@, include_all);
        lemma_included_positions_valid(ids@, visible_ids@, include_all);
        assert forall|j: int| 0 <= j < capped(all, MAX_PHOTON_TARGETS).len() implies #[trigger] capped(
            all,
            MAX_PHOTON_TARGETS,
        )[j] < instances@.len() && (include_all || visible_ids@.contains(
            instances@[capped(all, MAX_PHOTON_TARGETS)[j] as int].object_id,
        )) by {
            assert(capped(all, MAX_PHOTON_TARGETS)[j] == all[j]);
            assert(ids@[all[j] as int] == instances@[all[j] as int].object_id);
        }
    }
    first_included(ids.as_slice(), visible_ids, include_all, MAX_PHOTON_TARGETS)
}

/// Every index of the instance names one of the instance's own vertices.
pub open spec fn indices_stay_in_instance<S, M>(
    mesh: MeshView<S, M>,
    inst: MeshObjectInstance<S>,
) -> bool {
    forall|j: int|
        inst.index_start <= j < inst.index_start + inst.index_count ==> inst.vertex_start
            <= #[trigger] mesh.indices[j] < inst.vertex_start + inst.vertex_count
}

/// Geometry the renderer can draw: one position and one normal per vertex,
/// and every index names a vertex.
pub open spec fn render_wf<S>(geometry: RenderView<S>) -> bool {
    &&& geometry.positions.len() == geometry.vertices.len()
    &&& geometry.normals.len() == geometry.vertices.len()
    &&& forall|i: int|
        0 <= i < geometry.indices.len() ==> #[trigger] geometry.indices[i] < geometry.vertices.len()
}

/// The gathered geometry of the visible instances can always be drawn when
/// each visible instance's indices stay within its own vertices, as they do
/// for every instance that [`append_object_mesh`] places into a
/// well-formed mesh.
pub proof fn lemma_gather_wf<S, M>(
    mesh: MeshView<S, M>,
    instances: Seq<MeshObjectInstance<S>>,
    visible: Seq<Id>,
)
    requires
        gather_visible(mesh, instances, visible) is Some,
        forall|k: int|
            0 <= k < instances.len() && visible.contains(#[trigger] instances[k].object_id)
                ==> indices_stay_in_instance(mesh, instances[k]),
    ensures
        render_wf(gather_visible(mesh, instances, visible).unwrap()),
    decreases instances.len(),
{
    if instances.len() > 0 {
        let prefix = instances.drop_last();
        assert forall|k: int|
            0 <= k < prefix.len() && visible.contains(#[trigger] prefix[k].object_id)
                implies indices_stay_in_instance(mesh, prefix[k]) by {
            assert(prefix[k] == instances[k]);
        }
        lemma_gather_wf(mesh, prefix, visible);
        let acc = gather_visible(mesh, prefix, visible).unwrap();
        let inst = instances.last();
        if visible.contains(inst.object_id) {
            assert(indices_stay_in_instance(mesh, instances[instances.len() - 1]));
            let r = add_instance(mesh, acc, inst);
            let base = acc.vertices.len() as u32;
            let is = inst.index_start as int;
            let vs = inst.vertex_start as int;
            assert forall|i: int| 0 <= i < r.indices.len() implies #[trigger] r.indices[i]
                < r.vertices.len() by {
                if i >= acc.indices.len() {
                    let j = is + (i - acc.indices.len());
                    let x = mesh.indices[j];
                    assert(vs <= x < vs + inst.vertex_count);
                    assert((inst.vertex_start as u32) as int == vs);
                    assert(base <= acc.vertices.len());
                    assert(r.indices[i] == rebase_index(x, inst.vertex_start, base));
                }
            }
        }
    }
}

/// The instance that [`append_object_mesh`] places into a well-formed mesh
/// keeps its indices within its own vertices.
pub proof fn lemma_appended_instance_stays_local<S, M>(
    base: MeshView<S, M>,
    extra: MeshView<S, M>,
    inst: MeshObjectInstance<S>,
)
    requires
        extra.wf(),
        can_append(base, extra),
        base.positions4.len() <= u32::MAX,
        records_appended_ranges(inst, base, extra),
    ensures
        indices_stay_in_instance(mesh_appended(base, extra), inst),
{
    let m = mesh_appended(base, extra);
    let off = vertex_offset(base);
    assert(off == base.positions4.len());
    assert forall|j: int|
        inst.index_start <= j < inst.index_start + inst.index_count implies inst.vertex_start
            <= #[trigger] m.indices[j] < inst.vertex_start + inst.vertex_count by {
        let k = j - base.indices.len();
        assert(m.indices[j] == shift_ids(extra.indices, off)[k]);
        assert(extra.indices[k] < extra.positions4.len());
        assert(extra.indices[k] + off <= u32::MAX);
    }
}

} // verus!
