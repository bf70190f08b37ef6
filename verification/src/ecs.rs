//! The entity component world that runs the scene while it plays: its
//! entities, their local and global transforms, the meshes they show, their
//! visibility and the cameras attached to them.

use std::collections::HashMap;
use vstd::prelude::*;
use crate::scene_data::{collect_keys, key_order, Id};

verus! {

/// The transform of an entity: translation, rotation as a quaternion
/// `[x, y, z, w]`, and scale along each axis.
#[derive(Clone, Copy)]
pub struct TransformComponent<S> {
    pub translation: [S; 3],
    pub rotation: [S; 4],
    pub scale: [S; 3],
}

/// An entity of the world: its id and its name.
pub struct Entity {
    pub id: Id,
    pub name: String,
}

/// The physical body of an entity: its velocity, its mass and whether it
/// moves under physics.
#[derive(Clone, Copy)]
pub struct PhysicsComponent<S> {
    pub velocity: [S; 3],
    pub mass: S,
    pub dynamic: bool,
}

/// The shape an entity collides with: a box of the given half extents
/// about its centre, or a plane of the given normal and offset.
#[derive(Clone, Copy)]
pub enum ColliderShape<S> {
    Box { half_extents: [S; 3] },
    Plane { normal: [S; 3], offset: S },
}

/// A camera attached to an entity: whether it is the one the view follows,
/// and the entity it rides on, if any.
#[derive(Clone, Copy)]
pub struct CameraComponent {
    pub active: bool,
    pub attached_to: Option<Id>,
}

/// The world: its entities in the order they were registered, and, keyed
/// by the number of the entity's [`Id`], the local transforms, the global
/// transforms last computed, the mesh each entity shows, the visibility last
/// computed (an entity not yet computed is visible), the cameras, the
/// parent each child entity follows, the physical bodies, the colliders and
/// the script each entity runs (by file name).
pub struct World<S> {
    pub entities: Vec<Entity>,
    pub transforms: HashMap<u64, TransformComponent<S>>,
    pub global_transforms: HashMap<u64, TransformComponent<S>>,
    pub meshes: HashMap<u64, u32>,
    pub visibility: HashMap<u64, bool>,
    pub cameras: HashMap<u64, CameraComponent>,
    pub parents: HashMap<u64, Id>,
    pub physics: HashMap<u64, PhysicsComponent<S>>,
    pub colliders: HashMap<u64, ColliderShape<S>>,
    pub scripts: HashMap<u64, String>,
}

/// The two worlds agree on their entities' parents, bodies, colliders and
/// scripts.
pub open spec fn same_bodies<S>(a: World<S>, b: World<S>) -> bool {
    &&& a.parents@ == b.parents@
    &&& a.physics@ == b.physics@
    &&& a.colliders@ == b.colliders@
    &&& a.scripts@ == b.scripts@
}

/// An entity as its id and the characters of its name.
pub open spec fn entity_view(e: Entity) -> (Id, Seq<char>) {
    (e.id, e.name@)
}

/// Whether some entity of the list has the id `id`.
pub open spec fn lists_id(entities: Seq<(Id, Seq<char>)>, id: Id) -> bool {
    exists|i: int| 0 <= i < entities.len() && #[trigger] entities[i].0 == id
}

/// The entity list after registering `id` under `name`: entities with
/// that id are renamed, or, if there are none, the entity is added last.
pub open spec fn entities_after_register(
    entities: Seq<(Id, Seq<char>)>,
    id: Id,
    name: Seq<char>,
) -> Seq<(Id, Seq<char>)> {
    if lists_id(entities, id) {
        entities.map_values(
            |e: (Id, Seq<char>)|
                if e.0 == id {
                    (id, name)
                } else {
                    e
                },
        )
    } else {
        entities.push((id, name))
    }
}

/// Registering the same object twice, under the same name and transform,
/// leaves the entities, local transforms and meshes as registering it once.
pub proof fn lemma_register_idempotent<T>(
    entities: Seq<(Id, Seq<char>)>,
    transforms: Map<u64, T>,
    meshes: Map<u64, u32>,
    id: Id,
    name: Seq<char>,
    transform: T,
)
    ensures
        entities_after_register(entities_after_register(entities, id, name), id, name)
            == entities_after_register(entities, id, name),
        transforms.insert(id.0, transform).insert(id.0, transform) == transforms.insert(
            id.0,
            transform,
        ),
        meshes.insert(id.0, 0).insert(id.0, 0) == meshes.insert(id.0, 0),
{
    let once = entities_after_register(entities, id, name);
    if lists_id(entities, id) {
        let i = choose|i: int| 0 <= i < entities.len() && #[trigger] entities[i].0 == id;
        assert(once[i].0 == id);
    } else {
        assert(once[entities.len() as int].0 == id);
    }
    assert(lists_id(once, id));
    assert(entities_after_register(once, id, name) =~= once);
    assert(transforms.insert(id.0, transform).insert(id.0, transform) =~= transforms.insert(
        id.0,
        transform,
    ));
    assert(meshes.insert(id.0, 0).insert(id.0, 0) =~= meshes.insert(id.0, 0));
}

/// The first id of `order` whose camera is active, if any.
pub open spec fn first_active(order: Seq<Id>, cameras: Map<u64, CameraComponent>) -> Option<Id>
    decreases order.len(),
{
    if order.len() == 0 {
        None
    } else if cameras[order[0].0].active {
        Some(order[0])
    } else {
        first_active(order.subrange(1, order.len() as int), cameras)
    }
}

impl<S> World<S> {
    /// An entity has the id numbered `id.0` exactly when the entity list
    /// lists `id`.
    pub proof fn lemma_has_entity_key_lists(&self, id: Id)
        ensures
            self.has_entity_key(id.0) == lists_id(self.entities_view(), id),
    {
        if self.has_entity_key(id.0) {
            let i = choose|i: int| 0 <= i < self.entities@.len() && #[trigger] self.entities@[i].id.0 == id.0;
            assert(self.entities_view()[i].0 == id);
        }
        if lists_id(self.entities_view(), id) {
            let i = choose|i: int| 0 <= i < self.entities_view().len() && #[trigger] self.entities_view()[i].0 == id;
            assert(self.entities@[i].id.0 == id.0);
        }
    }

    /// The entities, each as its id and name.
    pub open spec fn entities_view(&self) -> Seq<(Id, Seq<char>)> {
        self.entities@.map_values(|e: Entity| entity_view(e))
    }

    /// Whether some entity has the id numbered `key`.
    pub open spec fn has_entity_key(&self, key: u64) -> bool {
        exists|i: int| 0 <= i < self.entities@.len() && #[trigger] self.entities@[i].id.0 == key
    }

    /// Whether the entity `id` is visible.
    pub open spec fn spec_is_visible(&self, id: Id) -> bool {
        if self.visibility@.contains_key(id.0) {
            self.visibility@[id.0]
        } else {
            true
        }
    }

    /// The visibility of each entity, keyed by the number of its id.
    pub open spec fn visibility_of_entities(&self) -> Map<u64, bool> {
        Map::new(|key: u64| self.has_entity_key(key), |key: u64| self.spec_is_visible(Id(key)))
    }

    /// An empty world.
    pub fn new() -> (world: Self)
        ensures
            world.entities@.len() == 0,
            world.transforms@ == Map::<u64, TransformComponent<S>>::empty(),
            world.global_transforms@ == Map::<u64, TransformComponent<S>>::empty(),
            world.meshes@ == Map::<u64, u32>::empty(),
            world.visibility@ == Map::<u64, bool>::empty(),
            world.cameras@ == Map::<u64, CameraComponent>::empty(),
            world.parents@ == Map::<u64, Id>::empty(),
            world.physics@ == Map::<u64, PhysicsComponent<S>>::empty(),
            world.colliders@ == Map::<u64, ColliderShape<S>>::empty(),
            world.scripts@ == Map::<u64, String>::empty(),
    {
        World {
            entities: Vec::new(),
            transforms: HashMap::new(),
            global_transforms: HashMap::new(),
            meshes: HashMap::new(),
            visibility: HashMap::new(),
            cameras: HashMap::new(),
            parents: HashMap::new(),
            physics: HashMap::new(),
            colliders: HashMap::new(),
            scripts: HashMap::new(),
        }
    }

    /// Whether the entity `id` is visible.
    pub fn is_visible(&self, id: Id) -> (visible: bool)
        ensures
            visible == self.spec_is_visible(id),
    {
        match self.visibility.get(&id.0) {
            Some(v) => *v,
            None => true,
        }
    }

    /// Registers an entity of the scene database under its own id with the
    /// given name and local transform: an entity already registered under
    /// that id takes the new name, any other is added after the existing
    /// ones.
    pub fn register_existing(&mut self, id: Id, name: String, transform: TransformComponent<S>)
        ensures
            final(self).transforms@ == old(self).transforms@.insert(id.0, transform),
            final(self).global_transforms@ == old(self).global_transforms@,
            final(self).meshes@ == old(self).meshes@,
            final(self).visibility@ == old(self).visibility@,
            same_bodies(*final(self), *old(self)),
            final(self).cameras@ == old(self).cameras@,
            final(self).entities_view() == entities_after_register(
                old(self).entities_view(),
                id,
                name@,
            ),
    {
        proof {
            self.lemma_has_entity_key_lists(id);
        }
        let ghost before = self.entities_view();
        assert(forall|j: int| 0 <= j < before.len() ==> before[j] == entity_view(#[trigger] self.entities@[j]));
        let ghost renamed = before.map_values(
            |e: (Id, Seq<char>)|
                if e.0 == id {
                    (id, name@)
                } else {
                    e
                },
        );
        let n = self.entities.len();
        let mut found = false;
        let mut i: usize = 0;
        while i < n
            invariant
                n == self.entities@.len(),
                n == before.len(),
                0 <= i <= n,
                renamed == before.map_values(
                    |e: (Id, Seq<char>)|
                        if e.0 == id {
                            (id, name@)
                        } else {
                            e
                        },
                ),
                forall|j: int| 0 <= j < i ==> entity_view(#[trigger] self.entities@[j]) == renamed[j],
                forall|j: int| i <= j < n ==> entity_view(#[trigger] self.entities@[j]) == before[j],
                found <==> exists|j: int| 0 <= j < i && #[trigger] before[j].0 == id,
                self.transforms@ == old(self).transforms@,
                self.global_transforms@ == old(self).global_transforms@,
                self.meshes@ == old(self).meshes@,
                self.visibility@ == old(self).visibility@,
                same_bodies(*self, *old(self)),
                self.cameras@ == old(self).cameras@,
            decreases n - i,
        {
            assert(before[i as int] == entity_view(self.entities@[i as int]));
            if self.entities[i].id == id {
                let renamed_entity = Entity { id, name: name.clone() };
                self.entities.set(i, renamed_entity);
                found = true;
            }
            proof {
                if before[i as int].0 == id {
                    assert(exists|j: int| 0 <= j < i + 1 && #[trigger] before[j].0 == id);
                }
                if exists|j: int| 0 <= j < i + 1 && #[trigger] before[j].0 == id {
                    if !(before[i as int].0 == id) {
                        let j = choose|j: int| 0 <= j < i + 1 && #[trigger] before[j].0 == id;
                        assert(j < i);
                    }
                }
            }
            i = i + 1;
        }
        proof {
            assert(found <==> old(self).has_entity_key(id.0)) by {
                if old(self).has_entity_key(id.0) {
                    let j = choose|j: int|
                        0 <= j < old(self).entities@.len() && #[trigger] old(self).entities@[j].id.0 == key_of(id);
                    assert(before[j].0 == id);
                }
                if found {
                    let j = choose|j: int| 0 <= j < n && #[trigger] before[j].0 == id;
                    assert(old(self).entities@[j].id.0 == id.0);
                }
            }
        }
        if !found {
            self.entities.push(Entity { id, name });
            assert(self.entities_view() =~= before.push((id, name@))) by {
                assert forall|j: int| 0 <= j < n implies self.entities_view()[j] == before.push(
                    (id, name@),
                )[j] by {
                    assert(!(before[j].0 == id));
                }
            }
        } else {
            assert(self.entities_view() =~= renamed) by {
                assert forall|j: int| 0 <= j < n implies self.entities_view()[j] == renamed[j] by {
                    assert(entity_view(self.entities@[j]) == renamed[j]);
                }
            }
        }
        self.transforms.insert(id.0, transform);
    }

    /// Whether some camera is active.
    pub open spec fn has_active_camera(&self) -> bool {
        exists|k: u64| #[trigger] self.cameras@.contains_key(k) && self.cameras@[k].active
    }

    /// The active camera that the world uses: the first active one in the
    /// order in which its camera map hands out its keys.
    pub open spec fn chosen_camera(&self) -> Option<Id> {
        first_active(key_order(&self.cameras), self.cameras@)
    }

    /// The active camera that the world uses: the first active one in the
    /// camera map's own order (which of several active cameras that is
    /// follows the map's order; the same map always gives the same one).
    pub fn active_camera(&self) -> (found: Option<Id>)
        ensures
            found == self.chosen_camera(),
            found is None <==> !self.has_active_camera(),
            found matches Some(c) ==> self.cameras@.contains_key(c.0) && self.cameras@[c.0].active,
    {
        let ids = collect_keys(&self.cameras);
        let n = ids.len();
        let mut i: usize = 0;
        assert(ids@.subrange(0, n as int) =~= ids@);
        while i < n
            invariant
                n == ids@.len(),
                0 <= i <= n,
                ids@ == key_order(&self.cameras),
                forall|k: u64| #[trigger] self.cameras@.contains_key(k) <==> ids@.contains(Id(k)),
                forall|j: int| 0 <= j < i ==> !(#[trigger] self.cameras@[ids@[j].0]).active,
                first_active(ids@, self.cameras@) == first_active(ids@.subrange(i as int, n as int), self.cameras@),
            decreases n - i,
        {
            let id = ids[i];
            assert(ids@.contains(id));
            assert(self.cameras@.contains_key(id.0));
            assert(ids@.subrange(i as int, n as int)[0] == id);
            assert(ids@.subrange(i as int, n as int).subrange(1, n - i) =~= ids@.subrange(i + 1, n as int));
            match self.cameras.get(&id.0) {
                Some(camera) => {
                    if camera.active {
                        return Some(id);
                    }
                },
                None => {},
            }
            i = i + 1;
        }
        proof {
            assert forall|k: u64| #[trigger] self.cameras@.contains_key(k) implies !self.cameras@[k].active by {
                assert(ids@.contains(Id(k)));
                let j = choose|j: int| 0 <= j < n && ids@[j] == Id(k);
                assert(!self.cameras@[ids@[j].0].active);
            }
            assert(ids@.subrange(n as int, n as int).len() == 0);
        }
        None
    }

    /// Makes entity `child` follow entity `parent`.
    pub fn set_parent(&mut self, child: Id, parent: Id)
        ensures
            final(self).parents@ == old(self).parents@.insert(child.0, parent),
            final(self).entities@ == old(self).entities@,
            final(self).transforms@ == old(self).transforms@,
            final(self).global_transforms@ == old(self).global_transforms@,
            final(self).meshes@ == old(self).meshes@,
            final(self).visibility@ == old(self).visibility@,
            final(self).cameras@ == old(self).cameras@,
            final(self).physics@ == old(self).physics@,
            final(self).colliders@ == old(self).colliders@,
            final(self).scripts@ == old(self).scripts@,
    {
        self.parents.insert(child.0, parent);
    }

    /// Makes entity `child` follow no parent.
    pub fn clear_parent(&mut self, child: Id)
        ensures
            final(self).parents@ == old(self).parents@.remove(child.0),
            final(self).entities@ == old(self).entities@,
            final(self).transforms@ == old(self).transforms@,
            final(self).global_transforms@ == old(self).global_transforms@,
            final(self).meshes@ == old(self).meshes@,
            final(self).visibility@ == old(self).visibility@,
            final(self).cameras@ == old(self).cameras@,
            final(self).physics@ == old(self).physics@,
            final(self).colliders@ == old(self).colliders@,
            final(self).scripts@ == old(self).scripts@,
    {
        self.parents.remove(&child.0);
    }

    /// Gives entity `id` the physical body `body`.
    pub fn attach_physics(&mut self, id: Id, body: PhysicsComponent<S>)
        ensures
            final(self).physics@ == old(self).physics@.insert(id.0, body),
            final(self).entities@ == old(self).entities@,
            final(self).transforms@ == old(self).transforms@,
            final(self).global_transforms@ == old(self).global_transforms@,
            final(self).meshes@ == old(self).meshes@,
            final(self).visibility@ == old(self).visibility@,
            final(self).cameras@ == old(self).cameras@,
            final(self).parents@ == old(self).parents@,
            final(self).colliders@ == old(self).colliders@,
            final(self).scripts@ == old(self).scripts@,
    {
        self.physics.insert(id.0, body);
    }

    /// Gives entity `id` the collider `shape`.
    pub fn attach_collider(&mut self, id: Id, shape: ColliderShape<S>)
        ensures
            final(self).colliders@ == old(self).colliders@.insert(id.0, shape),
            final(self).entities@ == old(self).entities@,
            final(self).transforms@ == old(self).transforms@,
            final(self).global_transforms@ == old(self).global_transforms@,
            final(self).meshes@ == old(self).meshes@,
            final(self).visibility@ == old(self).visibility@,
            final(self).cameras@ == old(self).cameras@,
            final(self).parents@ == old(self).parents@,
            final(self).physics@ == old(self).physics@,
            final(self).scripts@ == old(self).scripts@,
    {
        self.colliders.insert(id.0, shape);
    }

    /// Makes entity `id` run the script in file `script`.
    pub fn attach_script(&mut self, id: Id, script: &str)
        ensures
            final(self).scripts@.dom() == old(self).scripts@.dom().insert(id.0),
            final(self).scripts@[id.0]@ == script@,
            forall|k: u64| k != id.0 && #[trigger] old(self).scripts@.contains_key(k) ==> final(self).scripts@[k] == old(self).scripts@[k],
            final(self).entities@ == old(self).entities@,
            final(self).transforms@ == old(self).transforms@,
            final(self).global_transforms@ == old(self).global_transforms@,
            final(self).meshes@ == old(self).meshes@,
            final(self).visibility@ == old(self).visibility@,
            final(self).cameras@ == old(self).cameras@,
            final(self).parents@ == old(self).parents@,
            final(self).physics@ == old(self).physics@,
            final(self).colliders@ == old(self).colliders@,
    {
        self.scripts.insert(id.0, script.to_owned());
    }

    /// Gives entity `id` the camera `camera`.
    pub fn attach_camera(&mut self, id: Id, camera: CameraComponent)
        ensures
            final(self).cameras@ == old(self).cameras@.insert(id.0, camera),
            final(self).entities@ == old(self).entities@,
            final(self).transforms@ == old(self).transforms@,
            final(self).global_transforms@ == old(self).global_transforms@,
            final(self).meshes@ == old(self).meshes@,
            final(self).visibility@ == old(self).visibility@,
            same_bodies(*final(self), *old(self)),
    {
        self.cameras.insert(id.0, camera);
    }

    /// Makes every camera inactive, keeping what each rides on.
    pub fn deactivate_cameras(&mut self)
        ensures
            final(self).cameras@ == old(self).cameras@.map_values(
                |c: CameraComponent| CameraComponent { active: false, ..c },
            ),
            final(self).entities@ == old(self).entities@,
            final(self).transforms@ == old(self).transforms@,
            final(self).global_transforms@ == old(self).global_transforms@,
            final(self).meshes@ == old(self).meshes@,
            final(self).visibility@ == old(self).visibility@,
            same_bodies(*final(self), *old(self)),
    {
        let ids = collect_keys(&self.cameras);
        let ghost start = self.cameras@;
        let n = ids.len();
        let mut i: usize = 0;
        while i < n
            invariant
                n == ids@.len(),
                0 <= i <= n,
                ids@.no_duplicates(),
                forall|k: u64| #[trigger] start.contains_key(k) <==> ids@.contains(Id(k)),
                start == old(self).cameras@,
                self.cameras@.dom() == start.dom(),
                forall|k: u64| #[trigger]
                    start.contains_key(k) ==> self.cameras@[k] == if ids@.take(i as int).contains(
                        Id(k),
                    ) {
                        CameraComponent { active: false, ..start[k] }
                    } else {
                        start[k]
                    },
                self.entities@ == old(self).entities@,
                self.transforms@ == old(self).transforms@,
                self.global_transforms@ == old(self).global_transforms@,
                self.meshes@ == old(self).meshes@,
                self.visibility@ == old(self).visibility@,
                same_bodies(*self, *old(self)),
            decreases n - i,
        {
            let id = ids[i];
            proof {
                assert(ids@.contains(id));
                assert(!ids@.take(i as int).contains(id));
                assert forall|k: u64| ids@.take(i + 1).contains(Id(k)) <==> (ids@.take(i as int).contains(
                    Id(k),
                ) || Id(k) == id) by {
                    if ids@.take(i + 1).contains(Id(k)) && Id(k) != id {
                        let j = choose|j: int| 0 <= j < i + 1 && #[trigger] ids@.take(i + 1)[j] == Id(k);
                        assert(ids@.take(i as int)[j] == Id(k));
                    }
                    if ids@.take(i as int).contains(Id(k)) {
                        let j = choose|j: int| 0 <= j < i && #[trigger] ids@.take(i as int)[j] == Id(k);
                        assert(ids@.take(i + 1)[j] == Id(k));
                    }
                    if Id(k) == id {
                        assert(ids@.take(i + 1)[i as int] == id);
                    }
                }
            }
            match self.cameras.remove(&id.0) {
                Some(camera) => {
                    self.cameras.insert(id.0, CameraComponent { active: false, ..camera });
                },
                None => {},
            }
            i = i + 1;
        }
        proof {
            assert(ids@.take(n as int) =~= ids@);
            assert(self.cameras@ =~= start.map_values(
                |c: CameraComponent| CameraComponent { active: false, ..c },
            ));
        }
    }

    /// Records that entity `id` shows mesh `mesh_index`.
    pub fn attach_mesh(&mut self, id: Id, mesh_index: u32)
        ensures
            final(self).meshes@ == old(self).meshes@.insert(id.0, mesh_index),
            final(self).entities@ == old(self).entities@,
            final(self).transforms@ == old(self).transforms@,
            final(self).global_transforms@ == old(self).global_transforms@,
            final(self).visibility@ == old(self).visibility@,
            same_bodies(*final(self), *old(self)),
            final(self).cameras@ == old(self).cameras@,
    {
        self.meshes.insert(id.0, mesh_index);
    }
}

/// The number of an id (the key it is filed under).
pub open spec fn key_of(id: Id) -> u64 {
    id.0
}

} // verus!
