//! The project file's form of the scene database, built before a save:
//! the database's meshes, objects, collections and the built-in scenes
//! become lists, each item found by its position, with every link between
//! them given as a position.

use crate::scene_data::{
    collect_keys, find_first, key_order, CollectionData, Id, MainDatabase, ObjectData, SceneData,
    Transform,
};
use std::collections::HashMap;
use vstd::prelude::*;

verus! {

/// A material of the library under its name.
pub struct NamedMaterial<M> {
    pub name: String,
    pub data: M,
}

/// A mesh of the project file: its number of vertices and the material of
/// its first slot, by position in the material list, if any.
#[derive(Clone, Copy, PartialEq, Eq, Structural, Debug)]
pub struct PrismMesh {
    pub vertex_count: usize,
    pub material_slot: Option<usize>,
}

/// An object of the project file: its name, its transform, and the mesh
/// and material linked to it, by position, if any.
pub struct PrismObject<S> {
    pub name: String,
    pub transform: Transform<S>,
    pub mesh: Option<usize>,
    pub material: Option<usize>,
}

/// The mathematical content of a [`PrismObject`].
pub struct PrismObjectView<S> {
    pub name: Seq<char>,
    pub transform: Transform<S>,
    pub mesh: Option<usize>,
    pub material: Option<usize>,
}

impl<S> View for PrismObject<S> {
    type V = PrismObjectView<S>;

    open spec fn view(&self) -> PrismObjectView<S> {
        PrismObjectView {
            name: self.name@,
            transform: self.transform,
            mesh: self.mesh,
            material: self.material,
        }
    }
}

/// A collection of the project file: its name and the objects and child
/// collections it lists, by position.
pub struct PrismCollection {
    pub name: String,
    pub objects: Vec<usize>,
    pub children: Vec<usize>,
}

/// The mathematical content of a [`PrismCollection`].
pub struct PrismCollectionView {
    pub name: Seq<char>,
    pub objects: Seq<usize>,
    pub children: Seq<usize>,
}

impl View for PrismCollection {
    type V = PrismCollectionView;

    open spec fn view(&self) -> PrismCollectionView {
        PrismCollectionView { name: self.name@, objects: self.objects@, children: self.children@ }
    }
}

/// A scene of the project file: its name and its top collection, by
/// position.
pub struct PrismScene {
    pub name: String,
    pub master_collection: usize,
}

/// The mathematical content of a [`PrismScene`].
pub struct PrismSceneView {
    pub name: Seq<char>,
    pub master_collection: usize,
}

impl View for PrismScene {
    type V = PrismSceneView;

    open spec fn view(&self) -> PrismSceneView {
        PrismSceneView { name: self.name@, master_collection: self.master_collection }
    }
}

/// The project file's form of a database.
pub struct PrismDatabase<S> {
    pub meshes: Vec<PrismMesh>,
    pub objects: Vec<PrismObject<S>>,
    pub collections: Vec<PrismCollection>,
    pub scenes: Vec<PrismScene>,
}

/// `i` is the first position of `x` in `s`.
pub open spec fn is_first_index<T>(s: Seq<T>, x: T, i: int) -> bool {
    &&& 0 <= i < s.len()
    &&& s[i] == x
    &&& forall|j: int| 0 <= j < i ==> s[j] != x
}

/// The first position of `x` in `s`, if any.
pub open spec fn first_index<T>(s: Seq<T>, x: T) -> Option<usize> {
    if s.contains(x) {
        Some((choose|i: int| is_first_index(s, x, i)) as usize)
    } else {
        None
    }
}

/// The first position of a value is the one `first_index` gives.
proof fn lemma_first_index<T>(s: Seq<T>, x: T, i: int)
    requires
        is_first_index(s, x, i),
    ensures
        first_index(s, x) == Some(i as usize),
{
    assert(s[i] == x);
    let c = choose|k: int| is_first_index(s, x, k);
    assert(is_first_index(s, x, c));
    if c < i {
        assert(s[c] != x);
    }
    if i < c {
        assert(s[i] != x);
    }
}

/// The names of the materials of a library.
pub open spec fn material_names_of<M>(library: Seq<NamedMaterial<M>>) -> Seq<Seq<char>> {
    library.map_values(|m: NamedMaterial<M>| m.name@)
}

/// The project file's form of the object `id` of the database: its name
/// and transform, the position of its mesh among the meshes, and the
/// position in the library of the material named for it.
pub open spec fn prism_object_of<S, M>(
    objects: Map<u64, ObjectData<S>>,
    mesh_order: Seq<Id>,
    names: Map<u64, String>,
    library: Seq<NamedMaterial<M>>,
    id: Id,
) -> PrismObjectView<S> {
    let obj = objects[id.0];
    PrismObjectView {
        name: obj.name@,
        transform: obj.transform,
        mesh: match obj.mesh_id {
            Some(m) => first_index(mesh_order, m),
            None => None,
        },
        material: if names.contains_key(id.0) {
            first_index(material_names_of(library), names[id.0]@)
        } else {
            None
        },
    }
}

/// The material of the first slot of mesh `q`: that of the last object of
/// `objects` that shows mesh `q` and has a material.
pub open spec fn mesh_slot<S>(objects: Seq<PrismObjectView<S>>, q: usize) -> Option<usize>
    decreases objects.len(),
{
    if objects.len() == 0 {
        None
    } else if objects.last().mesh == Some(q) && objects.last().material is Some {
        objects.last().material
    } else {
        mesh_slot(objects.drop_last(), q)
    }
}

/// The positions in `order` of the ids of `ids` that `order` holds, in
/// the order of `ids`.
pub open spec fn positions_in(ids: Seq<Id>, order: Seq<Id>) -> Seq<usize>
    decreases ids.len(),
{
    if ids.len() == 0 {
        Seq::empty()
    } else {
        let before = positions_in(ids.drop_last(), order);
        match first_index(order, ids.last()) {
            Some(p) => before.push(p),
            None => before,
        }
    }
}

/// The position of `id` in `ids`, found from the front.
fn position_of_id(ids: &Vec<Id>, id: Id) -> (found: Option<usize>)
    ensures
        found == first_index(ids@, id),
        found matches Some(i) ==> i < ids@.len(),
{
    match find_first(ids.as_slice(), id) {
        Some(i) => {
            proof {
                lemma_first_index(ids@, id, i as int);
            }
            Some(i)
        },
        None => None,
    }
}

/// The position in the library of the material named `name`.
fn material_position<M>(library: &Vec<NamedMaterial<M>>, name: &String) -> (found: Option<usize>)
    ensures
        found == first_index(material_names_of(library@), name@),
{
    let n = library.len();
    let mut i: usize = 0;
    while i < n
        invariant
            n == library@.len(),
            0 <= i <= n,
            forall|j: int| 0 <= j < i ==> material_names_of(library@)[j] != name@,
        decreases n - i,
    {
        if library[i].name.eq(name) {
            proof {
                assert(material_names_of(library@)[i as int] == name@);
                lemma_first_index(material_names_of(library@), name@, i as int);
            }
            return Some(i);
        }
        i = i + 1;
    }
    proof {
        assert(!material_names_of(library@).contains(name@)) by {
            if material_names_of(library@).contains(name@) {
                let j = choose|j: int| 0 <= j < n && material_names_of(library@)[j] == name@;
                assert(material_names_of(library@)[j] != name@);
            }
        }
    }
    None
}

/// The project file's forms of the objects, in the order of `order`.
pub open spec fn prism_objects_of<S, M>(
    objects: Map<u64, ObjectData<S>>,
    order: Seq<Id>,
    mesh_order: Seq<Id>,
    names: Map<u64, String>,
    library: Seq<NamedMaterial<M>>,
) -> Seq<PrismObjectView<S>> {
    Seq::new(order.len(), |p: int| prism_object_of(objects, mesh_order, names, library, order[p]))
}

/// The objects of the database in `order` and the meshes in `mesh_order`,
/// in the project file's form.
fn build_objects<S: Copy, M>(
    main_db: &MainDatabase<S>,
    order: &Vec<Id>,
    mesh_order: &Vec<Id>,
    names: &HashMap<u64, String>,
    library: &Vec<NamedMaterial<M>>,
) -> (out: (Vec<PrismObject<S>>, Vec<PrismMesh>))
    requires
        forall|k: u64| #[trigger] main_db.objects@.contains_key(k) <==> order@.contains(Id(k)),
        forall|k: u64| #[trigger] main_db.meshes@.contains_key(k) <==> mesh_order@.contains(Id(k)),
    ensures
        out.0@.len() == order@.len(),
        forall|p: int|
            0 <= p < order@.len() ==> (#[trigger] out.0@[p])@ == prism_object_of(
                main_db.objects@,
                mesh_order@,
                names@,
                library@,
                order@[p],
            ),
        out.1@.len() == mesh_order@.len(),
        forall|q: int|
            0 <= q < mesh_order@.len() ==> #[trigger] out.1@[q] == (PrismMesh {
                vertex_count: main_db.meshes@[mesh_order@[q].0].vertex_count,
                material_slot: mesh_slot(
                    prism_objects_of(main_db.objects@, order@, mesh_order@, names@, library@),
                    q as usize,
                ),
            }),
{
    let ghost all = prism_objects_of(main_db.objects@, order@, mesh_order@, names@, library@);
    let mut meshes: Vec<PrismMesh> = Vec::new();
    let m = mesh_order.len();
    let mut q: usize = 0;
    while q < m
        invariant
            m == mesh_order@.len(),
            0 <= q <= m,
            forall|k: u64| #[trigger] main_db.meshes@.contains_key(k) <==> mesh_order@.contains(Id(k)),
            meshes@.len() == q,
            forall|r: int|
                0 <= r < q ==> #[trigger] meshes@[r] == (PrismMesh {
                    vertex_count: main_db.meshes@[mesh_order@[r].0].vertex_count,
                    material_slot: None,
                }),
        decreases m - q,
    {
        let id = mesh_order[q];
        assert(mesh_order@.contains(id));
        assert(id == Id(id.0));
        let count = match main_db.meshes.get(&id.0) {
            Some(record) => record.vertex_count,
            None => 0,
        };
        meshes.push(PrismMesh { vertex_count: count, material_slot: None });
        q = q + 1;
    }
    let mut objects: Vec<PrismObject<S>> = Vec::new();
    let n = order.len();
    let mut p: usize = 0;
    while p < n
        invariant
            n == order@.len(),
            m == mesh_order@.len(),
            0 <= p <= n,
            all == prism_objects_of(main_db.objects@, order@, mesh_order@, names@, library@),
            forall|k: u64| #[trigger] main_db.objects@.contains_key(k) <==> order@.contains(Id(k)),
            objects@.len() == p,
            forall|r: int| 0 <= r < p ==> (#[trigger] objects@[r])@ == all[r],
            meshes@.len() == m,
            forall|r: int|
                0 <= r < m ==> #[trigger] meshes@[r] == (PrismMesh {
                    vertex_count: main_db.meshes@[mesh_order@[r].0].vertex_count,
                    material_slot: mesh_slot(all.take(p as int), r as usize),
                }),
        decreases n - p,
    {
        let id = order[p];
        assert(order@.contains(id));
        assert(id == Id(id.0));
        let obj = match main_db.objects.get(&id.0) {
            Some(o) => o,
            None => {
                assert(false);
                return (objects, meshes);
            },
        };
        let mesh = match obj.mesh_id {
            Some(mid) => position_of_id(mesh_order, mid),
            None => None,
        };
        let material = match names.get(&id.0) {
            Some(name) => material_position(library, name),
            None => None,
        };
        let item = PrismObject { name: obj.name.clone(), transform: obj.transform, mesh, material };
        assert(item@ == all[p as int]);
        let ghost before = meshes@;
        match (mesh, material) {
            (Some(q), Some(mat)) => {
                if q < meshes.len() {
                    let old_mesh = meshes[q];
                    meshes.set(q, PrismMesh { vertex_count: old_mesh.vertex_count, material_slot: Some(mat) });
                }
            },
            _ => {},
        }
        objects.push(item);
        proof {
            assert(all.take(p + 1).drop_last() =~= all.take(p as int));
            assert(all.take(p + 1).last() == all[p as int]);
            match mesh {
                Some(q) => {
                    assert(mesh_order@.contains(obj.mesh_id->0));
                    assert((q as int) < m);
                },
                None => {},
            }
        }
        p = p + 1;
    }
    proof {
        assert(all.take(n as int) =~= all);
    }
    (objects, meshes)
}

/// The positions in `order` of the ids of `ids` that `order` holds.
fn positions_of_ids(ids: &Vec<Id>, order: &Vec<Id>) -> (out: Vec<usize>)
    ensures
        out@ == positions_in(ids@, order@),
{
    let mut out: Vec<usize> = Vec::new();
    let n = ids.len();
    let mut i: usize = 0;
    while i < n
        invariant
            n == ids@.len(),
            0 <= i <= n,
            out@ == positions_in(ids@.take(i as int), order@),
        decreases n - i,
    {
        proof {
            assert(ids@.take(i + 1).drop_last() =~= ids@.take(i as int));
            assert(ids@.take(i + 1).last() == ids@[i as int]);
        }
        match position_of_id(order, ids[i]) {
            Some(p) => out.push(p),
            None => {},
        }
        i = i + 1;
    }
    proof {
        assert(ids@.take(n as int) =~= ids@);
    }
    out
}

/// The project file's form of collection `id` of the database.
pub open spec fn prism_collection_of(
    collections: Map<u64, CollectionData>,
    order: Seq<Id>,
    object_order: Seq<Id>,
    id: Id,
) -> PrismCollectionView {
    let col = collections[id.0];
    PrismCollectionView {
        name: col.name@,
        objects: positions_in(col.object_ids@, object_order),
        children: positions_in(col.child_collection_ids@, order),
    }
}

/// The collections of the database in `order`, in the project file's form.
fn build_collections<S>(main_db: &MainDatabase<S>, order: &Vec<Id>, object_order: &Vec<Id>) -> (out: Vec<
    PrismCollection,
>)
    requires
        forall|k: u64| #[trigger] main_db.collections@.contains_key(k) <==> order@.contains(Id(k)),
    ensures
        out@.len() == order@.len(),
        forall|c: int|
            0 <= c < order@.len() ==> (#[trigger] out@[c])@ == prism_collection_of(
                main_db.collections@,
                order@,
                object_order@,
                order@[c],
            ),
{
    let mut out: Vec<PrismCollection> = Vec::new();
    let n = order.len();
    let mut c: usize = 0;
    while c < n
        invariant
            n == order@.len(),
            0 <= c <= n,
            forall|k: u64| #[trigger] main_db.collections@.contains_key(k) <==> order@.contains(Id(k)),
            out@.len() == c,
            forall|r: int|
                0 <= r < c ==> (#[trigger] out@[r])@ == prism_collection_of(
                    main_db.collections@,
                    order@,
                    object_order@,
                    order@[r],
                ),
        decreases n - c,
    {
        let id = order[c];
        assert(order@.contains(id));
        assert(id == Id(id.0));
        let col = match main_db.collections.get(&id.0) {
            Some(col) => col,
            None => {
                assert(false);
                return out;
            },
        };
        let objects = positions_of_ids(&col.object_ids, object_order);
        let children = positions_of_ids(&col.child_collection_ids, order);
        out.push(PrismCollection { name: col.name.clone(), objects, children });
        c = c + 1;
    }
    out
}

/// The project file's scenes: each scene of `ids`, in order, that the
/// database holds and whose top collection it holds, with that collection
/// by position.
pub open spec fn prism_scenes_of(
    scenes: Map<u64, SceneData>,
    order: Seq<Id>,
    ids: Seq<Id>,
) -> Seq<PrismSceneView>
    decreases ids.len(),
{
    if ids.len() == 0 {
        Seq::empty()
    } else {
        let before = prism_scenes_of(scenes, order, ids.drop_last());
        let id = ids.last();
        if scenes.contains_key(id.0) {
            match first_index(order, scenes[id.0].master_collection_id) {
                Some(c) => before.push(PrismSceneView { name: scenes[id.0].name@, master_collection: c }),
                None => before,
            }
        } else {
            before
        }
    }
}

/// The project file's form of the scene database before a save: its
/// meshes, objects and collections in the order their maps hand out their
/// keys, with the mesh, the material (from the library, by the name
/// `material_names` gives each object) and the listed objects and child
/// collections of each given by position; each mesh's first slot takes the
/// material of the last object that shows it and has one; then the scenes
/// of `scene_ids` that the database holds, in that order.
pub fn build_prism_database<S: Copy, M>(
    main_db: &MainDatabase<S>,
    scene_ids: [Id; 3],
    material_names: &HashMap<u64, String>,
    library: &Vec<NamedMaterial<M>>,
) -> (out: PrismDatabase<S>)
    ensures
        out.objects@.len() == key_order(&main_db.objects).len(),
        forall|p: int|
            0 <= p < out.objects@.len() ==> (#[trigger] out.objects@[p])@ == prism_object_of(
                main_db.objects@,
                key_order(&main_db.meshes),
                material_names@,
                library@,
                key_order(&main_db.objects)[p],
            ),
        out.meshes@.len() == key_order(&main_db.meshes).len(),
        forall|q: int|
            0 <= q < out.meshes@.len() ==> #[trigger] out.meshes@[q] == (PrismMesh {
                vertex_count: main_db.meshes@[key_order(&main_db.meshes)[q].0].vertex_count,
                material_slot: mesh_slot(
                    prism_objects_of(
                        main_db.objects@,
                        key_order(&main_db.objects),
                        key_order(&main_db.meshes),
                        material_names@,
                        library@,
                    ),
                    q as usize,
                ),
            }),
        out.collections@.len() == key_order(&main_db.collections).len(),
        forall|c: int|
            0 <= c < out.collections@.len() ==> (#[trigger] out.collections@[c])@
                == prism_collection_of(
                main_db.collections@,
                key_order(&main_db.collections),
                key_order(&main_db.objects),
                key_order(&main_db.collections)[c],
            ),
        out.scenes@.map_values(|s: PrismScene| s@) == prism_scenes_of(
            main_db.scenes@,
            key_order(&main_db.collections),
            scene_ids@,
        ),
{
    let mesh_order = collect_keys(&main_db.meshes);
    let object_order = collect_keys(&main_db.objects);
    let collection_order = collect_keys(&main_db.collections);
    let (objects, meshes) = build_objects(main_db, &object_order, &mesh_order, material_names, library);
    let collections = build_collections(main_db, &collection_order, &object_order);
    let mut scenes: Vec<PrismScene> = Vec::new();
    let mut i: usize = 0;
    while i < 3
        invariant
            0 <= i <= 3,
            scene_ids@.len() == 3,
            collection_order@ == key_order(&main_db.collections),
            scenes@.map_values(|s: PrismScene| s@) == prism_scenes_of(
                main_db.scenes@,
                collection_order@,
                scene_ids@.take(i as int),
            ),
        decreases 3 - i,
    {
        proof {
            assert(scene_ids@.take(i + 1).drop_last() =~= scene_ids@.take(i as int));
            assert(scene_ids@.take(i + 1).last() == scene_ids@[i as int]);
        }
        let id = scene_ids[i];
        match main_db.scenes.get(&id.0) {
            Some(scene) => {
                match position_of_id(&collection_order, scene.master_collection_id) {
                    Some(c) => {
                        let ghost before = scenes@;
                        scenes.push(PrismScene { name: scene.name.clone(), master_collection: c });
                        proof {
                            assert(scenes@.map_values(|s: PrismScene| s@) =~= before.map_values(
                                |s: PrismScene| s@,
                            ).push(PrismSceneView { name: scene.name@, master_collection: c }));
                        }
                    },
                    None => {},
                }
            },
            None => {},
        }
        i = i + 1;
    }
    proof {
        assert(scene_ids@.take(3) =~= scene_ids@);
    }
    PrismDatabase { meshes, objects, collections, scenes }
}

} // verus!
