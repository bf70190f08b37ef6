//! The scene database: objects with their names, transforms and meshes, and
//! the scenes that show them.

use std::collections::HashMap;
use crate::text::{chars_of, occurs_at};
use vstd::prelude::*;
use vstd::std_specs::iter::IteratorSpec;

verus! {

/// The identity of an object, scene, mesh or collection in the database.
#[derive(Clone, Copy, PartialEq, Eq, Structural, Debug, Hash)]
pub struct Id(pub u64);

/// Where an object stands: its location, its rotation as a quaternion
/// `[x, y, z, w]`, and its scale along each axis.
#[derive(Clone, Copy)]
pub struct Transform<S> {
    pub location: [S; 3],
    pub rotation: [S; 4],
    pub scale: [S; 3],
}

/// An object of the database: its name, transform and the mesh it shows,
/// if any.
#[derive(Clone)]
pub struct ObjectData<S> {
    pub name: String,
    pub transform: Transform<S>,
    pub mesh_id: Option<Id>,
}

/// A scene: its name, its top collection and, per object, whether the
/// object is shown in it before any override.
#[derive(Clone)]
pub struct SceneData {
    pub name: String,
    pub master_collection_id: Id,
    pub base_visibility: HashMap<u64, bool>,
}

/// The mathematical content of a [`SceneData`].
pub struct SceneView {
    pub name: Seq<char>,
    pub master_collection_id: Id,
    pub base_visibility: Map<u64, bool>,
}

impl View for SceneData {
    type V = SceneView;

    open spec fn view(&self) -> SceneView {
        SceneView {
            name: self.name@,
            master_collection_id: self.master_collection_id,
            base_visibility: self.base_visibility@,
        }
    }
}

/// A collection: its name, the objects it lists and its child
/// collections.
#[derive(Clone)]
pub struct CollectionData {
    pub name: String,
    pub object_ids: Vec<Id>,
    pub child_collection_ids: Vec<Id>,
}

/// The mathematical content of a [`CollectionData`].
pub struct CollectionView {
    pub name: Seq<char>,
    pub object_ids: Seq<Id>,
    pub child_collection_ids: Seq<Id>,
}

impl View for CollectionData {
    type V = CollectionView;

    open spec fn view(&self) -> CollectionView {
        CollectionView {
            name: self.name@,
            object_ids: self.object_ids@,
            child_collection_ids: self.child_collection_ids@,
        }
    }
}

/// A mesh of the database: its name, its number of vertices and the number
/// of objects that show it.
#[derive(Clone)]
pub struct MeshRecord {
    pub name: String,
    pub vertex_count: usize,
    pub user_count: u32,
}

/// The mathematical content of a [`MeshRecord`].
pub struct MeshRecordView {
    pub name: Seq<char>,
    pub vertex_count: usize,
    pub user_count: u32,
}

impl View for MeshRecord {
    type V = MeshRecordView;

    open spec fn view(&self) -> MeshRecordView {
        MeshRecordView { name: self.name@, vertex_count: self.vertex_count, user_count: self.user_count }
    }
}

/// The scene database: objects, scenes, collections and meshes, each keyed
/// by the number of its [`Id`]; the four share one space of ids.
pub struct MainDatabase<S> {
    pub objects: HashMap<u64, ObjectData<S>>,
    pub scenes: HashMap<u64, SceneData>,
    pub collections: HashMap<u64, CollectionData>,
    pub meshes: HashMap<u64, MeshRecord>,
}

/// The objects after object `id`, if present, is placed at `transform`.
pub open spec fn with_transform<S>(
    objects: Map<u64, ObjectData<S>>,
    id: Id,
    transform: Transform<S>,
) -> Map<u64, ObjectData<S>> {
    if objects.contains_key(id.0) {
        objects.insert(id.0, ObjectData { transform, ..objects[id.0] })
    } else {
        objects
    }
}

/// The objects after each object of `writes`, in order, is placed at its
/// transform.
pub open spec fn with_transforms<S>(
    objects: Map<u64, ObjectData<S>>,
    writes: Seq<(Id, Transform<S>)>,
) -> Map<u64, ObjectData<S>>
    decreases writes.len(),
{
    if writes.len() == 0 {
        objects
    } else {
        with_transform(
            with_transforms(objects, writes.drop_last()),
            writes.last().0,
            writes.last().1,
        )
    }
}

/// The keys of the objects whose names begin with `prefix`.
pub open spec fn objects_named<S>(objects: Map<u64, ObjectData<S>>, prefix: Seq<char>) -> Set<u64> {
    objects.dom().filter(|k: u64| prefix.is_prefix_of(objects[k].name@))
}

/// Whether `s` begins with `prefix`, character by character.
fn starts_with(s: &str, prefix: &str) -> (found: bool)
    ensures
        found == prefix@.is_prefix_of(s@),
{
    let text = chars_of(s);
    let pattern = chars_of(prefix);
    if pattern.len() > text.len() {
        false
    } else {
        occurs_at(&text, &pattern, 0)
    }
}

/// The scenes after object `object` is recorded as shown (or not) in scene
/// `scene`, if that scene exists.
pub open spec fn with_base_visibility(
    scenes: Map<u64, SceneView>,
    scene: Id,
    object: Id,
    visible: bool,
) -> Map<u64, SceneView> {
    if scenes.contains_key(scene.0) {
        scenes.insert(
            scene.0,
            SceneView {
                base_visibility: scenes[scene.0].base_visibility.insert(object.0, visible),
                ..scenes[scene.0]
            },
        )
    } else {
        scenes
    }
}

/// The collections after collection `collection`, if it exists, lists
/// object `object` (once).
pub open spec fn with_linked_object(
    collections: Map<u64, CollectionView>,
    collection: Id,
    object: Id,
) -> Map<u64, CollectionView> {
    if collections.contains_key(collection.0) {
        let before = collections[collection.0];
        collections.insert(
            collection.0,
            CollectionView {
                object_ids: if before.object_ids.contains(object) {
                    before.object_ids
                } else {
                    before.object_ids.push(object)
                },
                ..before
            },
        )
    } else {
        collections
    }
}

/// The meshes after mesh `mesh_id`, if it exists, counts one more user
/// (saturating).
pub open spec fn with_mesh_user(meshes: Map<u64, MeshRecordView>, mesh_id: Id) -> Map<u64, MeshRecordView> {
    if meshes.contains_key(mesh_id.0) {
        let m = meshes[mesh_id.0];
        meshes.insert(
            mesh_id.0,
            MeshRecordView {
                user_count: if m.user_count < u32::MAX {
                    (m.user_count + 1) as u32
                } else {
                    u32::MAX
                },
                ..m
            },
        )
    } else {
        meshes
    }
}

impl<S> MainDatabase<S> {
    /// The scenes, each by its content.
    pub open spec fn scenes_view(&self) -> Map<u64, SceneView> {
        self.scenes@.map_values(|s: SceneData| s@)
    }

    /// The collections, each by its content.
    pub open spec fn collections_view(&self) -> Map<u64, CollectionView> {
        self.collections@.map_values(|c: CollectionData| c@)
    }

    /// The meshes, each by its content.
    pub open spec fn meshes_view(&self) -> Map<u64, MeshRecordView> {
        self.meshes@.map_values(|m: MeshRecord| m@)
    }

    /// Whether no object, scene, collection or mesh has the id numbered
    /// `key`.
    pub open spec fn is_unused(&self, key: u64) -> bool {
        &&& !self.objects@.contains_key(key)
        &&& !self.scenes@.contains_key(key)
        &&& !self.collections@.contains_key(key)
        &&& !self.meshes@.contains_key(key)
    }

    /// An empty database.
    pub fn new() -> (db: Self)
        ensures
            db.objects@ == Map::<u64, ObjectData<S>>::empty(),
            db.scenes@ == Map::<u64, SceneData>::empty(),
            db.collections@ == Map::<u64, CollectionData>::empty(),
            db.meshes@ == Map::<u64, MeshRecord>::empty(),
    {
        MainDatabase {
            objects: HashMap::new(),
            scenes: HashMap::new(),
            collections: HashMap::new(),
            meshes: HashMap::new(),
        }
    }

    /// A copy of the database.
    pub fn duplicate(&self) -> (copy: Self) where S: Clone
        ensures
            copy.objects@ == self.objects@,
            copy.scenes@ == self.scenes@,
            copy.collections@ == self.collections@,
            copy.meshes@ == self.meshes@,
    {
        MainDatabase {
            objects: self.objects.clone(),
            scenes: self.scenes.clone(),
            collections: self.collections.clone(),
            meshes: self.meshes.clone(),
        }
    }

    /// Records whether `object_id` is shown in scene `scene_id`; a scene
    /// that does not exist is left alone.
    pub fn set_scene_base_visibility(&mut self, scene_id: Id, object_id: Id, visible: bool)
        ensures
            final(self).objects@ == old(self).objects@,
            final(self).collections@ == old(self).collections@,
            final(self).meshes@ == old(self).meshes@,
            final(self).scenes@.dom() == old(self).scenes@.dom(),
            final(self).scenes_view() == if old(self).scenes@.contains_key(scene_id.0) {
                old(self).scenes_view().insert(
                    scene_id.0,
                    SceneView {
                        base_visibility: old(self).scenes_view()[scene_id.0].base_visibility.insert(
                            object_id.0,
                            visible,
                        ),
                        ..old(self).scenes_view()[scene_id.0]
                    },
                )
            } else {
                old(self).scenes_view()
            },
    {
        let ghost before = self.scenes_view();
        if let Some(mut scene) = self.scenes.remove(&scene_id.0) {
            scene.base_visibility.insert(object_id.0, visible);
            self.scenes.insert(scene_id.0, scene);
            proof {
                assert(self.scenes@.dom() =~= old(self).scenes@.dom());
                assert(self.scenes_view() =~= before.insert(
                    scene_id.0,
                    SceneView {
                        base_visibility: before[scene_id.0].base_visibility.insert(object_id.0, visible),
                        ..before[scene_id.0]
                    },
                ));
            }
        }
    }

    /// Places object `id` at `transform`; an id the database does not hold
    /// is left alone.
    pub fn set_object_transform(&mut self, id: Id, transform: Transform<S>)
        ensures
            final(self).objects@ == with_transform(old(self).objects@, id, transform),
            final(self).scenes@ == old(self).scenes@,
            final(self).collections@ == old(self).collections@,
            final(self).meshes@ == old(self).meshes@,
    {
        if let Some(mut obj) = self.objects.remove(&id.0) {
            obj.transform = transform;
            self.objects.insert(id.0, obj);
        }
    }

    /// Places each object of `writes` at its transform, in order; ids the
    /// database does not hold are left alone.
    pub fn set_object_transforms(&mut self, writes: &[(Id, Transform<S>)]) where S: Copy
        ensures
            final(self).objects@ == with_transforms(old(self).objects@, writes@),
            final(self).scenes@ == old(self).scenes@,
            final(self).collections@ == old(self).collections@,
            final(self).meshes@ == old(self).meshes@,
    {
        let n = writes.len();
        let mut i: usize = 0;
        while i < n
            invariant
                n == writes@.len(),
                0 <= i <= n,
                self.objects@ == with_transforms(old(self).objects@, writes@.take(i as int)),
                self.scenes@ == old(self).scenes@,
                self.collections@ == old(self).collections@,
                self.meshes@ == old(self).meshes@,
            decreases n - i,
        {
            let (id, transform) = writes[i];
            self.set_object_transform(id, transform);
            assert(writes@.take(i + 1).drop_last() =~= writes@.take(i as int));
            i = i + 1;
        }
        assert(writes@.take(n as int) =~= writes@);
    }

    /// Adds an object named `name`, showing `mesh_id` and placed at
    /// `transform`, under a new id: one past the largest id in use (1 where
    /// none is), so never 0 and used by no object, scene, collection or
    /// mesh. With the largest
    /// id `u64::MAX` in use there is no such id, and nothing changes.
    pub fn create_object(&mut self, name: String, mesh_id: Option<Id>, transform: Transform<S>) -> (id:
        Option<Id>)
        ensures
            id is None <==> !old(self).is_unused(u64::MAX),
            id matches Some(i) ==> {
                &&& i.0 > 0
                &&& old(self).is_unused(i.0)
                &&& forall|k: u64| !old(self).is_unused(k) ==> k < i.0
                &&& (i.0 == 1 || !old(self).is_unused((i.0 - 1) as u64))
                &&& final(self).objects@ == old(self).objects@.insert(
                    i.0,
                    ObjectData { name, transform, mesh_id },
                )
            },
            id is None ==> final(self).objects@ == old(self).objects@,
            final(self).scenes@ == old(self).scenes@,
            final(self).collections@ == old(self).collections@,
            final(self).meshes@ == old(self).meshes@,
    {
        let a = largest_key(&self.objects);
        let b = largest_key(&self.scenes);
        let top = self.largest_id();
        if top == u64::MAX {
            None
        } else {
            let key = top + 1;
            self.objects.insert(key, ObjectData { name, transform, mesh_id });
            Some(Id(key))
        }
    }

    /// The largest id in use, or 0 where none is.
    pub(crate) fn largest_id(&self) -> (top: u64)
        ensures
            forall|k: u64| !self.is_unused(k) ==> k <= top,
            top == 0 || !self.is_unused(top),
    {
        let a = largest_key(&self.objects);
        let b = largest_key(&self.scenes);
        let c = largest_key(&self.collections);
        let d = largest_key(&self.meshes);
        let top = if a < b {
            b
        } else {
            a
        };
        let top = if top < c {
            c
        } else {
            top
        };
        if top < d {
            d
        } else {
            top
        }
    }

    /// Adds a mesh named `name` with `vertex_count` vertices and one user
    /// (the object it is made for) under a new id, chosen as
    /// [`MainDatabase::create_object`] chooses one; with the largest id
    /// `u64::MAX` in use there is no such id, and nothing changes.
    pub fn create_mesh(&mut self, name: String, vertex_count: usize) -> (id: Option<Id>)
        ensures
            id is None <==> !old(self).is_unused(u64::MAX),
            id matches Some(i) ==> {
                &&& i.0 > 0
                &&& old(self).is_unused(i.0)
                &&& forall|k: u64| !old(self).is_unused(k) ==> k < i.0
                &&& (i.0 == 1 || !old(self).is_unused((i.0 - 1) as u64))
                &&& final(self).meshes_view() == old(self).meshes_view().insert(
                    i.0,
                    MeshRecordView { name: name@, vertex_count, user_count: 1 },
                )
            },
            id is None ==> final(self).meshes@ == old(self).meshes@,
            final(self).objects@ == old(self).objects@,
            final(self).scenes@ == old(self).scenes@,
            final(self).collections@ == old(self).collections@,
    {
        let top = self.largest_id();
        if top == u64::MAX {
            None
        } else {
            let key = top + 1;
            self.meshes.insert(key, MeshRecord { name, vertex_count, user_count: 1 });
            proof {
                assert(self.meshes_view() =~= old(self).meshes_view().insert(
                    key,
                    MeshRecordView { name: name@, vertex_count, user_count: 1 },
                ));
            }
            Some(Id(key))
        }
    }

    /// Whether `key` is the id that the next object, scene, collection or
    /// mesh gets: one past the largest id in use (1 where none is).
    pub open spec fn is_next_id(&self, key: u64) -> bool {
        &&& key > 0
        &&& self.is_unused(key)
        &&& forall|k: u64| !self.is_unused(k) ==> k < key
        &&& (key == 1 || !self.is_unused((key - 1) as u64))
    }

    /// Adds an empty collection named `name` under the next id (see
    /// [`MainDatabase::is_next_id`]); with the largest id `u64::MAX` in use
    /// there is no such id, and nothing changes.
    pub fn create_collection(&mut self, name: String) -> (id: Option<Id>)
        ensures
            id is None <==> !old(self).is_unused(u64::MAX),
            id matches Some(i) ==> old(self).is_next_id(i.0) && final(self).collections_view()
                == old(self).collections_view().insert(
                i.0,
                CollectionView { name: name@, object_ids: Seq::empty(), child_collection_ids: Seq::empty() },
            ),
            id matches Some(i) ==> final(self).collections@.dom() == old(self).collections@.dom().insert(i.0),
            id is None ==> final(self).collections@ == old(self).collections@,
            final(self).objects@ == old(self).objects@,
            final(self).scenes@ == old(self).scenes@,
            final(self).meshes@ == old(self).meshes@,
    {
        let top = self.largest_id();
        if top == u64::MAX {
            None
        } else {
            let key = top + 1;
            self.collections.insert(
                key,
                CollectionData { name, object_ids: Vec::new(), child_collection_ids: Vec::new() },
            );
            proof {
                assert(self.collections_view() =~= old(self).collections_view().insert(
                    key,
                    CollectionView {
                        name: name@,
                        object_ids: Seq::empty(),
                        child_collection_ids: Seq::empty(),
                    },
                ));
            }
            Some(Id(key))
        }
    }

    /// Adds a scene named `name` whose top collection is `master` and that
    /// shows nothing yet, under the next id (see
    /// [`MainDatabase::is_next_id`]); with the largest id `u64::MAX` in use
    /// there is no such id, and nothing changes.
    pub fn create_scene(&mut self, name: String, master: Id) -> (id: Option<Id>)
        ensures
            id is None <==> !old(self).is_unused(u64::MAX),
            id matches Some(i) ==> old(self).is_next_id(i.0) && final(self).scenes_view()
                == old(self).scenes_view().insert(
                i.0,
                SceneView { name: name@, master_collection_id: master, base_visibility: Map::empty() },
            ),
            id matches Some(i) ==> final(self).scenes@.dom() == old(self).scenes@.dom().insert(i.0),
            id is None ==> final(self).scenes@ == old(self).scenes@,
            final(self).objects@ == old(self).objects@,
            final(self).collections@ == old(self).collections@,
            final(self).meshes@ == old(self).meshes@,
    {
        let top = self.largest_id();
        if top == u64::MAX {
            None
        } else {
            let key = top + 1;
            self.scenes.insert(
                key,
                SceneData { name, master_collection_id: master, base_visibility: HashMap::new() },
            );
            proof {
                assert(self.scenes_view() =~= old(self).scenes_view().insert(
                    key,
                    SceneView { name: name@, master_collection_id: master, base_visibility: Map::empty() },
                ));
            }
            Some(Id(key))
        }
    }

    /// Counts one more object that shows mesh `mesh_id` (saturating); a
    /// mesh that does not exist is left alone.
    pub fn add_mesh_user(&mut self, mesh_id: Id)
        ensures
            final(self).meshes@.dom() == old(self).meshes@.dom(),
            final(self).meshes_view() == with_mesh_user(old(self).meshes_view(), mesh_id),
            final(self).objects@ == old(self).objects@,
            final(self).scenes@ == old(self).scenes@,
            final(self).collections@ == old(self).collections@,
    {
        let ghost before = self.meshes_view();
        if let Some(mut mesh) = self.meshes.remove(&mesh_id.0) {
            mesh.user_count = mesh.user_count.saturating_add(1);
            self.meshes.insert(mesh_id.0, mesh);
            proof {
                assert(self.meshes@.dom() =~= old(self).meshes@.dom());
                assert(self.meshes_view() =~= before.insert(
                    mesh_id.0,
                    MeshRecordView {
                        user_count: if before[mesh_id.0].user_count < u32::MAX {
                            (before[mesh_id.0].user_count + 1) as u32
                        } else {
                            u32::MAX
                        },
                        ..before[mesh_id.0]
                    },
                ));
            }
        }
    }

    /// Lists object `object` in collection `collection`, once; a collection
    /// that does not exist is left alone.
    pub fn collection_link_object(&mut self, collection: Id, object: Id)
        ensures
            final(self).objects@ == old(self).objects@,
            final(self).scenes@ == old(self).scenes@,
            final(self).meshes@ == old(self).meshes@,
            final(self).collections@.dom() == old(self).collections@.dom(),
            final(self).collections_view() == if old(self).collections@.contains_key(collection.0) {
                let before = old(self).collections_view()[collection.0];
                old(self).collections_view().insert(
                    collection.0,
                    CollectionView {
                        object_ids: if before.object_ids.contains(object) {
                            before.object_ids
                        } else {
                            before.object_ids.push(object)
                        },
                        ..before
                    },
                )
            } else {
                old(self).collections_view()
            },
    {
        let ghost before = self.collections_view();
        if let Some(mut col) = self.collections.remove(&collection.0) {
            if !contains_id(col.object_ids.as_slice(), object) {
                col.object_ids.push(object);
            }
            self.collections.insert(collection.0, col);
            proof {
                assert(self.collections@.dom() =~= old(self).collections@.dom());
                assert(self.collections_view() =~= before.insert(
                    collection.0,
                    CollectionView {
                        object_ids: if before[collection.0].object_ids.contains(object) {
                            before[collection.0].object_ids
                        } else {
                            before[collection.0].object_ids.push(object)
                        },
                        ..before[collection.0]
                    },
                ));
            }
        }
    }

    /// The number of objects whose names begin with `prefix`.
    pub fn count_objects_named(&self, prefix: &str) -> (count: usize)
        ensures
            count == objects_named(self.objects@, prefix@).len(),
    {
        let ids = collect_keys(&self.objects);
        let ghost named = objects_named(self.objects@, prefix@);
        let ghost mut counted: Set<u64> = Set::empty();
        let n = ids.len();
        let mut count: usize = 0;
        let mut i: usize = 0;
        while i < n
            invariant
                n == ids@.len(),
                0 <= i <= n,
                ids@.no_duplicates(),
                forall|k: u64| #[trigger] self.objects@.contains_key(k) <==> ids@.contains(Id(k)),
                named == objects_named(self.objects@, prefix@),
                counted.finite(),
                count == counted.len(),
                count <= i,
                forall|k: u64| #[trigger]
                    counted.contains(k) <==> (named.contains(k) && exists|j: int|
                        0 <= j < i && #[trigger] ids@[j] == Id(k)),
            decreases n - i,
        {
            let id = ids[i];
            proof {
                assert(ids@.contains(id));
            }
            let matches = match self.objects.get(&id.0) {
                Some(obj) => starts_with(obj.name.as_str(), prefix),
                None => false,
            };
            proof {
                assert(!counted.contains(id.0)) by {
                    if counted.contains(id.0) {
                        let j = choose|j: int| 0 <= j < i && #[trigger] ids@[j] == Id(id.0);
                        assert(ids@[j] == ids@[i as int]);
                    }
                }
                assert(matches == named.contains(id.0));
                let next = if matches { counted.insert(id.0) } else { counted };
                assert forall|k: u64| #[trigger] next.contains(k) <==> (named.contains(k) && exists|j: int|
                    0 <= j < i + 1 && #[trigger] ids@[j] == Id(k)) by {
                    if named.contains(k) && (exists|j: int| 0 <= j < i + 1 && #[trigger] ids@[j] == Id(k)) {
                        let j = choose|j: int| 0 <= j < i + 1 && #[trigger] ids@[j] == Id(k);
                        if j == i {
                            assert(k == id.0);
                        }
                    }
                }
                counted = next;
            }
            if matches {
                count = count + 1;
            }
            i = i + 1;
        }
        proof {
            assert(counted =~= named) by {
                assert forall|k: u64| named.contains(k) implies counted.contains(k) by {
                    assert(ids@.contains(Id(k)));
                    let j = choose|j: int| 0 <= j < ids@.len() && ids@[j] == Id(k);
                    assert(ids@[j] == Id(k));
                }
            }
        }
        count
    }

    /// The number that a new object named after `prefix` is given: one
    /// more than the number of objects whose names already begin with it.
    pub fn next_object_number(&self, prefix: &str) -> (number: usize)
        requires
            self.objects@.len() < usize::MAX,
        ensures
            number == objects_named(self.objects@, prefix@).len() + 1,
    {
        let count = self.count_objects_named(prefix);
        proof {
            vstd::set_lib::lemma_len_subset(
                objects_named(self.objects@, prefix@),
                self.objects@.dom(),
            );
        }
        count + 1
    }

    /// The ids of all scenes, each once.
    pub fn scene_ids(&self) -> (ids: Vec<Id>)
        ensures
            ids@.no_duplicates(),
            forall|k: u64| #[trigger] self.scenes@.contains_key(k) <==> ids@.contains(Id(k)),
    {
        collect_keys(&self.scenes)
    }
}

/// The largest key of a map, or 0 for an empty map.
fn largest_key<V>(map: &HashMap<u64, V>) -> (top: u64)
    ensures
        forall|k: u64| #[trigger] map@.contains_key(k) ==> k <= top,
        top == 0 || map@.contains_key(top),
{
    let ids = collect_keys(map);
    let n = ids.len();
    let mut top: u64 = 0;
    let mut i: usize = 0;
    while i < n
        invariant
            n == ids@.len(),
            0 <= i <= n,
            forall|k: u64| #[trigger] map@.contains_key(k) <==> ids@.contains(Id(k)),
            forall|j: int| 0 <= j < i ==> #[trigger] ids@[j].0 <= top,
            top == 0 || map@.contains_key(top),
        decreases n - i,
    {
        let id = ids[i];
        assert(ids@.contains(id));
        assert(id == Id(id.0));
        if top < id.0 {
            top = id.0;
        }
        i = i + 1;
    }
    proof {
        assert forall|k: u64| #[trigger] map@.contains_key(k) implies k <= top by {
            assert(ids@.contains(Id(k)));
            let j = choose|j: int| 0 <= j < n && ids@[j] == Id(k);
            assert(ids@[j].0 <= top);
        }
    }
    top
}

/// The keys of a map as ids, in the order in which the map hands them
/// out; the same map always hands them out in the same order.
pub closed spec fn key_order<V>(map: &HashMap<u64, V>) -> Seq<Id> {
    vstd::std_specs::hash::into_iter_keys(vstd::std_specs::hash::spec_keys_iter(map)).map_values(
        |key: u64| Id(key),
    )
}

/// The keys of a map, each once, as ids, in the map's order.
pub fn collect_keys<V>(map: &HashMap<u64, V>) -> (ids: Vec<Id>)
    ensures
        ids@ == key_order(map),
        ids@.no_duplicates(),
        forall|k: u64| #[trigger] map@.contains_key(k) <==> ids@.contains(Id(k)),
{
    let mut ids: Vec<Id> = Vec::new();
    for k in it: map.keys()
        invariant
            ids@ == it.seq().take(it.index() as int).map_values(|key: &u64| Id(*key)),
            it.seq() == vstd::std_specs::hash::spec_keys_iter(map).remaining(),
    {
        ids.push(Id(*k));
        assert(it.seq().take(it.index() + 1).map_values(|key: &u64| Id(*key)) =~= it.seq().take(
            it.index() as int,
        ).map_values(|key: &u64| Id(*key)).push(Id(*k)));
    }
    proof {
        let keys = vstd::std_specs::hash::spec_keys_iter(map).remaining();
        assert(ids@ == keys.map_values(|key: &u64| Id(*key))) by {
            assert(keys.take(keys.len() as int) =~= keys);
        }
        assert(ids@ =~= key_order(map));
        assert forall|k: u64| #[trigger] map@.contains_key(k) <==> ids@.contains(Id(k)) by {
            if map@.contains_key(k) {
                assert(keys.unref().to_set().contains(k));
                let j = choose|j: int| 0 <= j < keys.len() && keys.unref()[j] == k;
                assert(ids@[j] == Id(k));
            }
            if ids@.contains(Id(k)) {
                let j = choose|j: int| 0 <= j < ids@.len() && ids@[j] == Id(k);
                assert(keys.unref()[j] == k);
                assert(keys.unref().to_set().contains(k));
            }
        }
    }
    ids
}

/// `i` is the first position in `ids` that holds `id`.
pub open spec fn is_first_position(ids: Seq<Id>, id: Id, i: int) -> bool {
    &&& 0 <= i < ids.len()
    &&& ids[i] == id
    &&& forall|j: int| 0 <= j < i ==> ids[j] != id
}

/// The first position in `ids` that holds `id`, if any.
pub fn find_first(ids: &[Id], id: Id) -> (found: Option<usize>)
    ensures
        found is None <==> !ids@.contains(id),
        found matches Some(i) ==> is_first_position(ids@, id, i as int),
{
    let n = ids.len();
    let mut i: usize = 0;
    while i < n
        invariant
            n == ids@.len(),
            0 <= i <= n,
            forall|j: int| 0 <= j < i ==> ids@[j] != id,
        decreases n - i,
    {
        if ids[i] == id {
            return Some(i);
        }
        i = i + 1;
    }
    None
}

/// Whether `ids` holds `id`.
pub fn contains_id(ids: &[Id], id: Id) -> (found: bool)
    ensures
        found == ids@.contains(id),
{
    let n = ids.len();
    let mut i: usize = 0;
    while i < n
        invariant
            n == ids@.len(),
            0 <= i <= n,
            forall|j: int| 0 <= j < i ==> ids@[j] != id,
        decreases n - i,
    {
        if ids[i] == id {
            assert(ids@[i as int] == id);
            return true;
        }
        i = i + 1;
    }
    false
}

/// Whether the object `id` is taken: every object is when `include_all`
/// holds, otherwise only the visible ones.
pub open spec fn is_included(id: Id, visible: Seq<Id>, include_all: bool) -> bool {
    include_all || visible.contains(id)
}

/// The positions in `ids` of the included objects, in order.
pub open spec fn included_positions(ids: Seq<Id>, visible: Seq<Id>, include_all: bool) -> Seq<usize>
    decreases ids.len(),
{
    if ids.len() == 0 {
        Seq::empty()
    } else {
        let prev = included_positions(ids.drop_last(), visible, include_all);
        if is_included(ids.last(), visible, include_all) {
            prev.push((ids.len() - 1) as usize)
        } else {
            prev
        }
    }
}

/// The positions of the included objects never exceed the number of
/// objects in count.
pub proof fn lemma_included_positions_len(ids: Seq<Id>, visible: Seq<Id>, include_all: bool)
    ensures
        included_positions(ids, visible, include_all).len() <= ids.len(),
    decreases ids.len(),
{
    if ids.len() > 0 {
        lemma_included_positions_len(ids.drop_last(), visible, include_all);
    }
}

/// Each included position names an included object of `ids`, and the
/// positions increase.
pub proof fn lemma_included_positions_valid(ids: Seq<Id>, visible: Seq<Id>, include_all: bool)
    requires
        ids.len() <= usize::MAX,
    ensures
        forall|j: int|
            0 <= j < included_positions(ids, visible, include_all).len() ==> {
                let p = #[trigger] included_positions(ids, visible, include_all)[j];
                &&& p < ids.len()
                &&& is_included(ids[p as int], visible, include_all)
            },
        forall|a: int, b: int|
            0 <= a < b < included_positions(ids, visible, include_all).len() ==> included_positions(
                ids,
                visible,
                include_all,
            )[a] < included_positions(ids, visible, include_all)[b],
    decreases ids.len(),
{
    if ids.len() > 0 {
        lemma_included_positions_valid(ids.drop_last(), visible, include_all);
        lemma_included_positions_len(ids.drop_last(), visible, include_all);
        let prev = included_positions(ids.drop_last(), visible, include_all);
        let cur = included_positions(ids, visible, include_all);
        assert(cur == if is_included(ids.last(), visible, include_all) {
            prev.push((ids.len() - 1) as usize)
        } else {
            prev
        });
        assert forall|j: int| 0 <= j < prev.len() implies prev[j] < ids.len() - 1
            && ids[prev[j] as int] == ids.drop_last()[prev[j] as int] by {
            let p = prev[j];
            assert(p < ids.drop_last().len());
        }
        assert forall|j: int| 0 <= j < cur.len() implies {
            let p = #[trigger] cur[j];
            &&& p < ids.len()
            &&& is_included(ids[p as int], visible, include_all)
        } by {
            if j < prev.len() {
                assert(cur[j] == prev[j]);
            } else {
                assert(cur[j] == ids.len() - 1);
            }
        }
        assert forall|a: int, b: int| 0 <= a < b < cur.len() implies cur[a] < cur[b] by {
            if b < prev.len() {
                assert(cur[a] == prev[a] && cur[b] == prev[b]);
            } else {
                assert(cur[a] == prev[a]);
                assert(cur[b] == ids.len() - 1);
            }
        }
    }
}

/// The first `cap` elements of `s` (all of them where there are fewer).
pub open spec fn capped<T>(s: Seq<T>, cap: usize) -> Seq<T> {
    if s.len() <= cap {
        s
    } else {
        s.take(cap as int)
    }
}

/// The positions in `ids` of the first `cap` included objects (all of them
/// where there are fewer), in order.
pub fn first_included(ids: &[Id], visible_ids: &[Id], include_all: bool, cap: usize) -> (picked:
    Vec<usize>)
    ensures
        picked@ == capped(included_positions(ids@, visible_ids@, include_all), cap),
{
    let mut picked: Vec<usize> = Vec::new();
    let n = ids.len();
    let mut i: usize = 0;
    proof {
        if n == 0 {
            assert(ids@ =~= ids@.take(0));
        }
    }
    while i < n
        invariant_except_break
            n == ids@.len(),
            0 <= i <= n,
            picked@ == included_positions(ids@.take(i as int), visible_ids@, include_all),
            picked@.len() <= cap,
            i == n ==> picked@ == capped(included_positions(ids@, visible_ids@, include_all), cap),
        ensures
            picked@ == capped(included_positions(ids@, visible_ids@, include_all), cap),
        decreases n - i,
    {
        proof {
            assert(ids@.take(i + 1).drop_last() =~= ids@.take(i as int));
            lemma_included_positions_len(ids@.take(i as int), visible_ids@, include_all);
        }
        let id = ids[i];
        let included = include_all || contains_id(visible_ids, id);
        if included {
            if picked.len() >= cap {
                proof {
                    lemma_included_prefix(ids@, visible_ids@, include_all, i as int);
                    let c = included_positions(ids@, visible_ids@, include_all);
                    assert(c.take(c.len() as int) =~= c);
                }
                break;
            }
            picked.push(i);
        }
        i = i + 1;
        proof {
            if i == n {
                assert(ids@.take(n as int) =~= ids@);
                let c = included_positions(ids@, visible_ids@, include_all);
                assert(c.take(c.len() as int) =~= c);
            }
        }
    }
    picked
}

/// The included positions of a prefix of `ids` are a prefix of those of
/// `ids`, and the positions past it all lie beyond the prefix.
proof fn lemma_included_prefix(ids: Seq<Id>, visible: Seq<Id>, include_all: bool, k: int)
    requires
        0 <= k <= ids.len(),
    ensures
        included_positions(ids, visible, include_all).take(
            included_positions(ids.take(k), visible, include_all).len() as int,
        ) == included_positions(ids.take(k), visible, include_all),
        included_positions(ids.take(k), visible, include_all).len() <= included_positions(
            ids,
            visible,
            include_all,
        ).len(),
    decreases ids.len() - k,
{
    if k == ids.len() {
        assert(ids.take(k) =~= ids);
        assert(included_positions(ids, visible, include_all).take(
            included_positions(ids, visible, include_all).len() as int,
        ) =~= included_positions(ids, visible, include_all));
    } else {
        lemma_included_prefix(ids, visible, include_all, k + 1);
        assert(ids.take(k + 1).drop_last() =~= ids.take(k));
        let a = included_positions(ids.take(k), visible, include_all);
        let b = included_positions(ids.take(k + 1), visible, include_all);
        let c = included_positions(ids, visible, include_all);
        assert(c.take(b.len() as int) == b);
        assert(c.take(a.len() as int) =~= b.take(a.len() as int));
        assert(b.take(a.len() as int) =~= a);
    }
}

} // verus!
