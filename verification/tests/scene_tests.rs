use prism_engine::application::Application;
use prism_engine::geometry::ObjectPose;
use prism_engine::gpu_scene::{
    needs_buffer_realloc, photon_emission, photon_frame_count, photon_light_slot, plan_frame,
    raster_instance_rebuild, tlas_instance_count, GeometrySource, PhotonEmission, RenderModeKind,
};
use prism_engine::mesh::{MeshData, Vertex};
use prism_engine::scene_data::{Id, MainDatabase, ObjectData, Transform};
use prism_engine::stress::{build_stress_scene, stress_grid_cell, STRESS_COUNT, STRESS_SIDE};
use prism_engine::sun::{sun_light_sources, SunLightSource};
use prism_engine::types::{
    default_target_for_scene, target_allowed_in_scene, target_label, GizmoTargetKind,
    LightObjectInstance, MeshObjectInstance, SceneKind, MAX_SUN_LIGHTS,
};

#[test]
fn module_count_is_seven() {
    assert_eq!(Application::module_count(), 7);
}

#[test]
fn gizmo_tables() {
    assert_eq!(default_target_for_scene(SceneKind::Wine), GizmoTargetKind::Decanter);
    assert!(target_allowed_in_scene(SceneKind::CornellBox, GizmoTargetKind::WineSpotlight));
    assert_eq!(target_label(GizmoTargetKind::Sphere), "Cube");
    assert_eq!(target_label(GizmoTargetKind::WineGlass), "Wine Glass");
    assert_eq!(target_label(GizmoTargetKind::CornellBox), "Cornell Box");
    assert_eq!(target_label(GizmoTargetKind::SunLamp), "Sun Lamp");
    assert_eq!(target_label(GizmoTargetKind::WineSpotlight), "Spotlight");
    assert_eq!(target_label(GizmoTargetKind::Decanter), "Decanter");
}

fn light(id: u64) -> LightObjectInstance<f32> {
    LightObjectInstance { object_id: Id(id), position: [0.0; 3], rotation: [0.0, 0.0, 0.0, 1.0], scale: [1.0; 3], intensity: 1.0 }
}

#[test]
fn sun_lights_use_visible_lights_or_primary() {
    let lights = vec![light(1), light(2), light(3)];
    assert_eq!(sun_light_sources(&lights, &[Id(3), Id(1)], true), vec![SunLightSource::Light(0), SunLightSource::Light(2)]);
    assert_eq!(sun_light_sources(&lights, &[], true), vec![SunLightSource::Primary]);
    assert_eq!(sun_light_sources(&lights, &[Id(1)], false), Vec::<SunLightSource>::new());
}

#[test]
fn sun_lights_are_capped() {
    let lights: Vec<LightObjectInstance<f32>> = (0..20).map(light).collect();
    let visible: Vec<Id> = (0..20).map(Id).collect();
    let sources = sun_light_sources(&lights, &visible, true);
    assert_eq!(sources.len(), MAX_SUN_LIGHTS);
    assert_eq!(sources[7], SunLightSource::Light(7));
}

#[test]
fn frame_plan_resets_or_counts() {
    let p = plan_frame(true, false, true, true, 0, 41);
    assert!(p.reset_accumulation && p.rebuild_geometry);
    assert!(!p.gpu_mesh_dirty);
    assert_eq!(p.source, GeometrySource::VisibleInstances);
    assert_eq!(p.next_frame, 0);
    assert!(!p.accumulation_dirty && !p.geometry_dirty);
    let p = plan_frame(false, true, false, true, 3, 41);
    assert!(p.reset_accumulation && !p.rebuild_geometry);
    assert!(p.gpu_mesh_dirty);
    assert_eq!(p.source, GeometrySource::StressAsset);
    let p = plan_frame(false, false, true, false, 0, 41);
    assert!(!p.gpu_mesh_dirty);
    assert!(!p.reset_accumulation && !p.rebuild_geometry);
    assert_eq!(p.next_frame, 42);
    assert!(p.geometry_dirty);
    assert_eq!(plan_frame(false, false, false, false, 0, u32::MAX).next_frame, u32::MAX);
}

#[test]
fn buffers_reallocate_when_dirty_or_too_small() {
    assert!(!needs_buffer_realloc(false, &[10, 20], &[10, 30]));
    assert!(needs_buffer_realloc(false, &[10, 31], &[10, 30]));
    assert!(needs_buffer_realloc(true, &[], &[]));
    assert_eq!(tlas_instance_count(0), 1);
    assert_eq!(tlas_instance_count(12), 12);
}

#[test]
fn stress_grid_cells() {
    assert_eq!(stress_grid_cell(0), (0, 0));
    assert_eq!(stress_grid_cell(1001), (1, 1));
    assert_eq!(stress_grid_cell(STRESS_COUNT - 1), (STRESS_SIDE - 1, STRESS_SIDE - 1));
}

#[test]
fn stress_scene_builds_a_million_cubes() {
    let cube = MeshData {
        vertices: vec![Vertex { position: [1.0f32, 0.0, 0.0] }; 3],
        indices: vec![0u32, 1, 2],
        positions4: vec![[1.0, 0.0, 0.0, 0.0]; 3],
        normals4: vec![[0.0, 1.0, 0.0, 0.0]; 3],
        triangle_material_ids: vec![0],
        materials: vec![5u32],
    };
    let mut mesh = MeshData { vertices: Vec::new(), indices: Vec::new(), positions4: Vec::new(), normals4: Vec::new(), triangle_material_ids: Vec::new(), materials: Vec::new() };
    let mut model_idx = Vec::new();
    let mut instances: Vec<MeshObjectInstance<f32>> = Vec::new();
    let mut count = 0usize;
    let (mut gpu, mut geo, mut acc) = (false, false, false);
    let template = ObjectPose { pivot: [0.0; 3], max_extent: 3.0, rotation: [0.0, 0.0, 0.0, 1.0], translation: [0.0; 3], scale: [1.0; 3] };
    let translations: Vec<[f32; 3]> = (0..STRESS_COUNT).map(|i| [i as f32, 0.0, 0.0]).collect();
    build_stress_scene(&mut mesh, cube, &mut model_idx, &mut instances, &mut count, &mut gpu, &mut geo, &mut acc, template, &translations);
    assert_eq!(count, STRESS_COUNT);
    assert_eq!(instances.len(), STRESS_COUNT);
    assert_eq!(instances[0].object_id, Id(10_000_000));
    assert_eq!(instances[STRESS_COUNT - 1].object_id, Id(10_999_999));
    assert_eq!(instances[5].translation, [5.0, 0.0, 0.0]);
    assert_eq!(instances[5].index_count, 3);
    assert_eq!(model_idx, vec![0, 1, 2]);
    assert_eq!(mesh.materials, vec![5]);
    assert!(gpu && geo && acc);
}

fn named_object(name: &str) -> ObjectData<f32> {
    ObjectData {
        name: name.to_string(),
        transform: Transform { location: [0.0; 3], rotation: [0.0, 0.0, 0.0, 1.0], scale: [1.0; 3] },
        mesh_id: None,
    }
}

#[test]
fn objects_are_counted_by_name_prefix() {
    let mut db: MainDatabase<f32> = MainDatabase::new();
    db.objects.insert(1, named_object("Cube 1"));
    db.objects.insert(2, named_object("Cube 2"));
    db.objects.insert(3, named_object("Camera 1"));
    db.objects.insert(4, named_object("My Cube"));
    assert_eq!(db.count_objects_named("Cube"), 2);
    assert_eq!(db.count_objects_named("Camera"), 1);
    assert_eq!(db.count_objects_named("Sun Lamp"), 0);
    assert_eq!(db.next_object_number("Cube"), 3);
    assert_eq!(db.next_object_number("Entity"), 1);
}

#[test]
fn photon_light_takes_turns_among_first_sun_lights() {
    assert_eq!(photon_light_slot(3, 7), Some(1));
    assert_eq!(photon_light_slot(10, 9), Some(1));
    assert_eq!(photon_light_slot(10, 15), Some(7));
    assert_eq!(photon_light_slot(0, 9), None);
}

#[test]
fn photon_budget_is_per_light_and_capped() {
    assert_eq!(photon_frame_count(262_144, 0), 262_144);
    assert_eq!(photon_frame_count(262_144, 3), 786_432);
    assert_eq!(photon_frame_count(262_144, 4), 1_000_000);
    assert_eq!(photon_frame_count(u32::MAX, 3), 1_000_000);
    assert_eq!(photon_frame_count(0, 5), 0);
}

#[test]
fn raster_instances_follow_stress_scene() {
    assert_eq!(raster_instance_rebuild(1, 0, 5), None);
    assert_eq!(raster_instance_rebuild(5, 0, 5), Some(1));
    assert_eq!(raster_instance_rebuild(1, 4, 5), Some(5));
    assert_eq!(raster_instance_rebuild(5, 4, 5), None);
}

#[test]
fn only_path_traced_frames_emit_photons() {
    assert_eq!(
        photon_emission(RenderModeKind::Pathtraced, 262_144, 3, 7),
        Some(PhotonEmission { light_slot: Some(1), count: 786_432 })
    );
    assert_eq!(
        photon_emission(RenderModeKind::Pathtraced, 262_144, 0, 7),
        Some(PhotonEmission { light_slot: None, count: 262_144 })
    );
    assert_eq!(photon_emission(RenderModeKind::Raytraced, 262_144, 3, 7), None);
    assert_eq!(photon_emission(RenderModeKind::Rasterized, 262_144, 3, 7), None);
}
