use prism_engine::geometry::{
    append_mesh, append_object_mesh, photon_target_instances, visible_render_geometry, ObjectPose,
    RenderGeometry,
};
use prism_engine::gpu_scene::{rebuild_geometry, GeometrySource};
use prism_engine::mesh::{MeshData, Vertex};
use prism_engine::scene_data::Id;
use prism_engine::types::{MeshAsset, MeshObjectInstance, MAX_PHOTON_TARGETS};

fn triangle(offset: f32, material: u32) -> MeshData<f32, u32> {
    let positions = vec![
        [offset, 0.0, 0.0, 0.0],
        [offset + 1.0, 0.0, 0.0, 0.0],
        [offset, 1.0, 0.0, 0.0],
    ];
    MeshData {
        vertices: positions
            .iter()
            .map(|p| Vertex { position: [p[0], p[1], p[2]] })
            .collect(),
        indices: vec![0, 1, 2],
        positions4: positions,
        normals4: vec![[0.0, 0.0, 1.0, 0.0]; 3],
        triangle_material_ids: vec![0],
        materials: vec![material],
    }
}

fn empty_mesh() -> MeshData<f32, u32> {
    MeshData {
        vertices: Vec::new(),
        indices: Vec::new(),
        positions4: Vec::new(),
        normals4: Vec::new(),
        triangle_material_ids: Vec::new(),
        materials: Vec::new(),
    }
}

fn pose() -> ObjectPose<f32> {
    ObjectPose {
        pivot: [0.5, 0.5, 0.0],
        max_extent: 1.0,
        rotation: [0.0, 0.0, 0.0, 1.0],
        translation: [0.0, 0.0, 0.0],
        scale: [1.0, 1.0, 1.0],
    }
}

fn placeholder() -> RenderGeometry<f32> {
    RenderGeometry {
        vertices: vec![Vertex { position: [9.0, 9.0, 9.0] }; 3],
        indices: vec![0, 1, 2],
        positions: vec![[9.0, 9.0, 9.0, 0.0]; 3],
        normals: vec![[0.0, 1.0, 0.0, 0.0]; 3],
        triangle_material_ids: vec![0],
    }
}

#[test]
fn append_mesh_rebases_indices_and_material_ids() {
    let mut base = triangle(0.0, 10);
    append_mesh(&mut base, triangle(5.0, 20));
    assert_eq!(base.indices, vec![0, 1, 2, 3, 4, 5]);
    assert_eq!(base.triangle_material_ids, vec![0, 1]);
    assert_eq!(base.materials, vec![10, 20]);
    assert_eq!(base.positions4.len(), 6);
    assert_eq!(base.normals4.len(), 6);
    assert_eq!(base.vertices.len(), 6);
    assert_eq!(base.positions4[3], [5.0, 0.0, 0.0, 0.0]);
}

#[test]
fn append_mesh_to_empty_keeps_the_mesh() {
    let mut base = empty_mesh();
    append_mesh(&mut base, triangle(2.0, 7));
    assert_eq!(base.indices, vec![0, 1, 2]);
    assert_eq!(base.triangle_material_ids, vec![0]);
    assert_eq!(base.materials, vec![7]);
}

#[test]
fn append_object_mesh_records_ranges() {
    let mut combined = triangle(0.0, 1);
    let inst = append_object_mesh(&mut combined, triangle(3.0, 2), Id(42), 5, pose());
    assert_eq!(inst.object_id, Id(42));
    assert_eq!(inst.mesh_asset_id, 5);
    assert_eq!(
        (inst.vertex_start, inst.vertex_count, inst.index_start, inst.index_count),
        (3, 3, 3, 3)
    );
    assert_eq!((inst.material_start, inst.material_count), (1, 1));
    assert_eq!(inst.base_positions[1], [4.0, 0.0, 0.0]);
    assert_eq!(inst.base_normals[0], [0.0, 0.0, 1.0]);
    assert_eq!(inst.pivot, [0.5, 0.5, 0.0]);
    assert_eq!(combined.indices, vec![0, 1, 2, 3, 4, 5]);
}

#[test]
fn gathering_an_appended_object_gives_back_its_mesh() {
    let mut combined = triangle(0.0, 1);
    let extra = triangle(3.0, 2);
    let inst = append_object_mesh(&mut combined, extra, Id(7), 0, pose());
    let out = visible_render_geometry(&combined, &[inst], &[Id(7)], placeholder());
    let original = triangle(3.0, 2);
    assert_eq!(out.indices, original.indices);
    assert_eq!(out.positions, original.positions4);
    assert_eq!(out.normals, original.normals4);
    assert_eq!(out.triangle_material_ids, vec![1]);
    assert_eq!(out.vertices.len(), 3);
    assert_eq!(out.vertices[2].position, [3.0, 1.0, 0.0]);
}

#[test]
fn visible_render_geometry_skips_hidden_objects() {
    let mut combined = empty_mesh();
    let a = append_object_mesh(&mut combined, triangle(0.0, 1), Id(1), 0, pose());
    let b = append_object_mesh(&mut combined, triangle(5.0, 2), Id(2), 0, pose());
    let c = append_object_mesh(&mut combined, triangle(9.0, 3), Id(3), 0, pose());
    let out = visible_render_geometry(&combined, &[a, b, c], &[Id(3), Id(1)], placeholder());
    assert_eq!(out.indices, vec![0, 1, 2, 3, 4, 5]);
    assert_eq!(out.positions.len(), 6);
    assert_eq!(out.positions[3], [9.0, 0.0, 0.0, 0.0]);
    assert_eq!(out.triangle_material_ids, vec![0, 2]);
}

#[test]
fn visible_render_geometry_without_visible_objects_uses_placeholder() {
    let mut combined = empty_mesh();
    let a = append_object_mesh(&mut combined, triangle(0.0, 1), Id(1), 0, pose());
    let out = visible_render_geometry(&combined, &[a], &[Id(99)], placeholder());
    assert_eq!(out.positions, vec![[9.0, 9.0, 9.0, 0.0]; 3]);
    assert_eq!(out.indices, vec![0, 1, 2]);
    assert_eq!(out.triangle_material_ids, vec![0]);
}

fn instance(id: u64) -> MeshObjectInstance<f32> {
    MeshObjectInstance {
        object_id: Id(id),
        mesh_asset_id: 0,
        vertex_start: 0,
        vertex_count: 0,
        index_start: 0,
        index_count: 0,
        material_start: 0,
        material_count: 0,
        base_positions: Vec::new(),
        base_normals: Vec::new(),
        pivot: [0.0; 3],
        max_extent: 1.0,
        rotation: [0.0, 0.0, 0.0, 1.0],
        translation: [0.0; 3],
        scale: [1.0; 3],
    }
}

#[test]
fn photon_targets_follow_visibility() {
    let instances = vec![instance(1), instance(2), instance(3)];
    assert_eq!(photon_target_instances(&instances, &[Id(3), Id(1)], false), vec![0, 2]);
    assert_eq!(photon_target_instances(&instances, &[], true), vec![0, 1, 2]);
    assert_eq!(photon_target_instances(&instances, &[], false), Vec::<usize>::new());
}

#[test]
fn photon_targets_are_capped() {
    let instances: Vec<MeshObjectInstance<f32>> =
        (0..(MAX_PHOTON_TARGETS as u64 + 5)).map(instance).collect();
    let picked = photon_target_instances(&instances, &[], true);
    assert_eq!(picked.len(), MAX_PHOTON_TARGETS);
    assert_eq!(picked[MAX_PHOTON_TARGETS - 1], MAX_PHOTON_TARGETS - 1);
}

#[test]
fn rebuild_takes_stress_asset_or_visible_instances() {
    let mut combined = empty_mesh();
    let a = append_object_mesh(&mut combined, triangle(0.0, 1), Id(1), 0, pose());
    let asset = MeshAsset { asset_id: 0, name: "cube".to_string(), mesh: triangle(5.0, 3) };
    let assets = vec![asset];
    let mut model_idx = vec![7, 7];

    let g = rebuild_geometry(
        GeometrySource::StressAsset,
        &combined,
        &[a.clone()],
        &[Id(1)],
        &assets,
        placeholder(),
        &mut model_idx,
    );
    assert_eq!(g.positions, assets[0].mesh.positions4);
    assert_eq!(g.triangle_material_ids, assets[0].mesh.triangle_material_ids);
    assert_eq!(model_idx, assets[0].mesh.indices);

    let g = rebuild_geometry(
        GeometrySource::VisibleInstances,
        &combined,
        &[a.clone()],
        &[Id(99)],
        &assets,
        placeholder(),
        &mut model_idx,
    );
    assert_eq!(g.indices, vec![0, 1, 2]);
    assert_eq!(model_idx, vec![0, 1, 2]);
    assert_eq!(g.positions, vec![[9.0, 9.0, 9.0, 0.0]; 3]);

    let g = rebuild_geometry(GeometrySource::VisibleInstances, &combined, &[a], &[Id(1)], &[], placeholder(), &mut model_idx);
    assert_eq!(g.positions, combined.positions4);
    assert_eq!(model_idx, combined.indices);
}
