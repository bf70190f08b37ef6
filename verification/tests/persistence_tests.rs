use std::collections::HashMap;

use prism_engine::persistence::{build_prism_database, NamedMaterial, PrismMesh};
use prism_engine::scene_data::{CollectionData, Id, MainDatabase, MeshRecord, ObjectData, SceneData, Transform};

fn object(name: &str, x: f32, mesh: Option<Id>) -> ObjectData<f32> {
    ObjectData {
        name: name.to_string(),
        transform: Transform { location: [x, 0.0, 0.0], rotation: [0.0, 0.0, 0.0, 1.0], scale: [1.0; 3] },
        mesh_id: mesh,
    }
}

#[test]
fn the_saved_form_links_by_position() {
    let mut db: MainDatabase<f32> = MainDatabase::new();
    db.meshes.insert(100, MeshRecord { name: "cube".to_string(), vertex_count: 8, user_count: 2 });
    db.objects.insert(1, object("Cube 1", 1.0, Some(Id(100))));
    db.objects.insert(2, object("Cube 2", 2.0, Some(Id(100))));
    db.objects.insert(3, object("Lamp", 3.0, Some(Id(999))));
    db.collections.insert(
        20,
        CollectionData { name: "Master".to_string(), object_ids: vec![Id(2), Id(77), Id(1)], child_collection_ids: vec![Id(21), Id(5)] },
    );
    db.collections.insert(21, CollectionData { name: "Child".to_string(), object_ids: vec![], child_collection_ids: vec![] });
    db.scenes.insert(30, SceneData { name: "Scene".to_string(), master_collection_id: Id(20), base_visibility: HashMap::new() });
    db.scenes.insert(31, SceneData { name: "Lost".to_string(), master_collection_id: Id(88), base_visibility: HashMap::new() });
    let mut names = HashMap::new();
    names.insert(1, "Glass".to_string());
    names.insert(3, "Missing".to_string());
    let library = vec![
        NamedMaterial { name: "White".to_string(), data: 0u32 },
        NamedMaterial { name: "Glass".to_string(), data: 1u32 },
    ];
    let out = build_prism_database(&db, [Id(30), Id(31), Id(0)], &names, &library);

    assert_eq!(out.meshes, vec![PrismMesh { vertex_count: 8, material_slot: Some(1) }]);
    assert_eq!(out.objects.len(), 3);
    let by_name = |n: &str| out.objects.iter().position(|o| o.name == n).unwrap();
    let cube1 = by_name("Cube 1");
    let cube2 = by_name("Cube 2");
    let lamp = by_name("Lamp");
    assert_eq!(out.objects[cube1].mesh, Some(0));
    assert_eq!(out.objects[cube1].material, Some(1));
    assert_eq!(out.objects[cube2].material, None);
    assert_eq!(out.objects[lamp].mesh, None);
    assert_eq!(out.objects[lamp].material, None);
    assert_eq!(out.objects[lamp].transform.location, [3.0, 0.0, 0.0]);
    assert_eq!(out.collections.len(), 2);
    let master = out.collections.iter().position(|c| c.name == "Master").unwrap();
    let child = out.collections.iter().position(|c| c.name == "Child").unwrap();
    assert_eq!(out.collections[master].objects, vec![cube2, cube1]);
    assert_eq!(out.collections[master].children, vec![child]);
    assert_eq!(out.scenes.len(), 1);
    assert_eq!(out.scenes[0].name, "Scene");
    assert_eq!(out.scenes[0].master_collection, master);
}
