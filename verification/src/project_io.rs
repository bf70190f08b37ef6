//! Matching the scenes and objects of an opened project file to the
//! editor's built-in scenes and objects by their names, letter case aside.

use crate::editor_surface::TargetObjects;
use crate::scene_data::{CollectionView, Id, MainDatabase, SceneView};
use crate::text::{chars_of, occurs_at};
use std::collections::HashMap;
use vstd::string::StringExecFns;
use crate::types::{GizmoTargetKind, SceneKind};
use crate::scene_data::with_linked_object;
use vstd::prelude::*;

verus! {

/// The ASCII lower-case form of a character: 'A' to 'Z' become 'a' to 'z',
/// every other character stays.
pub open spec fn ascii_lower_char(c: char) -> char {
    if 'A' <= c <= 'Z' {
        ((c as u32) + 32) as char
    } else {
        c
    }
}

/// The ASCII lower-case form of a text.
pub open spec fn ascii_lower(s: Seq<char>) -> Seq<char> {
    s.map_values(|c: char| ascii_lower_char(c))
}

/// Whether `pattern` occurs in `text` as a run of consecutive characters.
pub open spec fn has_text(text: Seq<char>, pattern: Seq<char>) -> bool {
    exists|i: int|
        0 <= i && i + pattern.len() <= text.len() && #[trigger] text.subrange(i, i + pattern.len())
            == pattern
}

/// The ASCII lower-case form of `s`, character by character.
fn ascii_lower_char_vec(s: &str) -> (lower: Vec<char>)
    ensures
        lower@ == ascii_lower(s@),
{
    let chars = chars_of(s);
    let mut lower: Vec<char> = Vec::new();
    let n = chars.len();
    let mut i: usize = 0;
    while i < n
        invariant
            n == chars@.len(),
            chars@ == s@,
            0 <= i <= n,
            lower@ == ascii_lower(chars@.take(i as int)),
        decreases n - i,
    {
        let c = chars[i];
        let l: char = if 'A' <= c && c <= 'Z' {
            ((c as u8) + 32) as char
        } else {
            c
        };
        assert(l == ascii_lower_char(c));
        lower.push(l);
        assert(ascii_lower(chars@.take(i + 1)) =~= ascii_lower(chars@.take(i as int)).push(
            ascii_lower_char(c),
        ));
        i = i + 1;
    }
    assert(chars@.take(n as int) =~= chars@);
    lower
}

/// Whether `pattern` occurs in `text`.
fn find_text(text: &Vec<char>, pattern: &Vec<char>) -> (found: bool)
    ensures
        found == has_text(text@, pattern@),
{
    if pattern.len() > text.len() {
        return false;
    }
    let last = text.len() - pattern.len();
    let mut i: usize = 0;
    while i < last
        invariant
            last + pattern@.len() == text@.len(),
            0 <= i <= last,
            forall|k: int|
                0 <= k < i ==> #[trigger] text@.subrange(k, k + pattern@.len()) != pattern@,
        decreases last - i,
    {
        if occurs_at(text, pattern, i) {
            return true;
        }
        i = i + 1;
    }
    occurs_at(text, pattern, last)
}

/// Whether `name`, lower-cased, contains `pattern`.
fn name_has(lower: &Vec<char>, pattern: &str) -> (found: bool)
    ensures
        found == has_text(lower@, pattern@),
{
    let pattern_chars = chars_of(pattern);
    find_text(lower, &pattern_chars)
}

/// The built-in scene that a scene of the project stands for: one whose
/// name holds "decanter", or is "scene", is the decanter scene; then "wine"
/// and "cornell" name the wine and Cornell-box scenes (letter case aside).
pub open spec fn named_scene_kind(name: Seq<char>) -> Option<SceneKind> {
    let lower = ascii_lower(name);
    if has_text(lower, "decanter"@) || lower == "scene"@ {
        Some(SceneKind::Decanter)
    } else if has_text(lower, "wine"@) {
        Some(SceneKind::Wine)
    } else if has_text(lower, "cornell"@) {
        Some(SceneKind::CornellBox)
    } else {
        None
    }
}

/// The built-in object that an object of a scene's top collection is linked
/// as: by the first of "decanter", "wine", "spot", "sun", "cornell", and
/// "sphere" or "cube" that its name holds (letter case aside).
pub open spec fn named_link_target(name: Seq<char>) -> Option<GizmoTargetKind> {
    let lower = ascii_lower(name);
    if has_text(lower, "decanter"@) {
        Some(GizmoTargetKind::Decanter)
    } else if has_text(lower, "wine"@) {
        Some(GizmoTargetKind::WineGlass)
    } else if has_text(lower, "spot"@) {
        Some(GizmoTargetKind::WineSpotlight)
    } else if has_text(lower, "sun"@) {
        Some(GizmoTargetKind::SunLamp)
    } else if has_text(lower, "cornell"@) {
        Some(GizmoTargetKind::CornellBox)
    } else if has_text(lower, "sphere"@) || has_text(lower, "cube"@) {
        Some(GizmoTargetKind::Sphere)
    } else {
        None
    }
}

/// The built-in object whose pose an object of the project sets: by the
/// first of "sphere" or "cube", "decanter", "wine", "sun" and "spot" that
/// its name holds (letter case aside).
pub open spec fn named_pose_target(name: Seq<char>) -> Option<GizmoTargetKind> {
    let lower = ascii_lower(name);
    if has_text(lower, "sphere"@) || has_text(lower, "cube"@) {
        Some(GizmoTargetKind::Sphere)
    } else if has_text(lower, "decanter"@) {
        Some(GizmoTargetKind::Decanter)
    } else if has_text(lower, "wine"@) {
        Some(GizmoTargetKind::WineGlass)
    } else if has_text(lower, "sun"@) {
        Some(GizmoTargetKind::SunLamp)
    } else if has_text(lower, "spot"@) {
        Some(GizmoTargetKind::WineSpotlight)
    } else {
        None
    }
}

/// The built-in object that takes the material linked to an object of the
/// project: by the first of "decanter", "wine", "sphere" or "cube", and
/// "cornell" that its name holds (letter case aside).
pub open spec fn named_material_target(name: Seq<char>) -> Option<GizmoTargetKind> {
    let lower = ascii_lower(name);
    if has_text(lower, "decanter"@) {
        Some(GizmoTargetKind::Decanter)
    } else if has_text(lower, "wine"@) {
        Some(GizmoTargetKind::WineGlass)
    } else if has_text(lower, "sphere"@) || has_text(lower, "cube"@) {
        Some(GizmoTargetKind::Sphere)
    } else if has_text(lower, "cornell"@) {
        Some(GizmoTargetKind::CornellBox)
    } else {
        None
    }
}

/// The built-in scene that a scene of the project named `name` stands for.
pub fn scene_kind_for_name(name: &str) -> (kind: Option<SceneKind>)
    ensures
        kind == named_scene_kind(name@),
{
    let lower = ascii_lower_char_vec(name);
    if name_has(&lower, "decanter") {
        Some(SceneKind::Decanter)
    } else {
        let scene = chars_of("scene");
        if same_chars(&lower, &scene) {
            Some(SceneKind::Decanter)
        } else if name_has(&lower, "wine") {
            Some(SceneKind::Wine)
        } else if name_has(&lower, "cornell") {
            Some(SceneKind::CornellBox)
        } else {
            None
        }
    }
}

/// The built-in object that an object named `name` is linked as.
pub fn link_target_for_name(name: &str) -> (target: Option<GizmoTargetKind>)
    ensures
        target == named_link_target(name@),
{
    let lower = ascii_lower_char_vec(name);
    if name_has(&lower, "decanter") {
        Some(GizmoTargetKind::Decanter)
    } else if name_has(&lower, "wine") {
        Some(GizmoTargetKind::WineGlass)
    } else if name_has(&lower, "spot") {
        Some(GizmoTargetKind::WineSpotlight)
    } else if name_has(&lower, "sun") {
        Some(GizmoTargetKind::SunLamp)
    } else if name_has(&lower, "cornell") {
        Some(GizmoTargetKind::CornellBox)
    } else if name_has(&lower, "sphere") || name_has(&lower, "cube") {
        Some(GizmoTargetKind::Sphere)
    } else {
        None
    }
}

/// The built-in object whose pose an object named `name` sets.
pub fn pose_target_for_name(name: &str) -> (target: Option<GizmoTargetKind>)
    ensures
        target == named_pose_target(name@),
{
    let lower = ascii_lower_char_vec(name);
    if name_has(&lower, "sphere") || name_has(&lower, "cube") {
        Some(GizmoTargetKind::Sphere)
    } else if name_has(&lower, "decanter") {
        Some(GizmoTargetKind::Decanter)
    } else if name_has(&lower, "wine") {
        Some(GizmoTargetKind::WineGlass)
    } else if name_has(&lower, "sun") {
        Some(GizmoTargetKind::SunLamp)
    } else if name_has(&lower, "spot") {
        Some(GizmoTargetKind::WineSpotlight)
    } else {
        None
    }
}

/// The built-in object that takes the material linked to an object named
/// `name`.
pub fn material_target_for_name(name: &str) -> (target: Option<GizmoTargetKind>)
    ensures
        target == named_material_target(name@),
{
    let lower = ascii_lower_char_vec(name);
    if name_has(&lower, "decanter") {
        Some(GizmoTargetKind::Decanter)
    } else if name_has(&lower, "wine") {
        Some(GizmoTargetKind::WineGlass)
    } else if name_has(&lower, "sphere") || name_has(&lower, "cube") {
        Some(GizmoTargetKind::Sphere)
    } else if name_has(&lower, "cornell") {
        Some(GizmoTargetKind::CornellBox)
    } else {
        None
    }
}

/// Whether two runs of characters are the same.
fn same_chars(a: &Vec<char>, b: &Vec<char>) -> (same: bool)
    ensures
        same == (a@ == b@),
{
    if a.len() != b.len() {
        return false;
    }
    let n = a.len();
    let mut i: usize = 0;
    while i < n
        invariant
            n == a@.len(),
            n == b@.len(),
            0 <= i <= n,
            forall|k: int| 0 <= k < i ==> a@[k] == b@[k],
        decreases n - i,
    {
        if a[i] != b[i] {
            return false;
        }
        i = i + 1;
    }
    assert(a@ =~= b@);
    true
}

/// Lower-casing twice is lower-casing once.
proof fn lemma_ascii_lower_idempotent(s: Seq<char>)
    ensures
        ascii_lower(ascii_lower(s)) == ascii_lower(s),
{
    assert forall|i: int| 0 <= i < s.len() implies #[trigger] ascii_lower_char(ascii_lower_char(s[i]))
        == ascii_lower_char(s[i]) by {
        let c = s[i];
        if 'A' <= c <= 'Z' {
            assert('a' <= ascii_lower_char(c) <= 'z');
        }
    }
    assert(ascii_lower(ascii_lower(s)) =~= ascii_lower(s));
}

/// Names are matched with letter case aside: a name and its lower-case
/// form stand for the same scene and the same objects.
pub proof fn lemma_matching_ignores_case(name: Seq<char>)
    ensures
        named_scene_kind(ascii_lower(name)) == named_scene_kind(name),
        named_link_target(ascii_lower(name)) == named_link_target(name),
        named_pose_target(ascii_lower(name)) == named_pose_target(name),
        named_material_target(ascii_lower(name)) == named_material_target(name),
{
    lemma_ascii_lower_idempotent(name);
}

/// A scene of an opened project: its name and the names of the objects in
/// its top collection, in order.
pub struct LoadedScene {
    pub name: String,
    pub object_names: Vec<String>,
}

/// An object of an opened project: its name and the name of the material
/// linked to it, if any.
pub struct LoadedObject {
    pub name: String,
    pub material: Option<String>,
}

/// The top collection and the scene that stand for each built-in scene
/// (`Id(0)` where the project has none).
#[derive(Clone, Copy, PartialEq, Eq, Structural, Debug)]
pub struct ProjectSceneIds {
    pub decanter_master: Id,
    pub wine_master: Id,
    pub cornell_master: Id,
    pub decanter_scene: Id,
    pub wine_scene: Id,
    pub cornell_scene: Id,
}

/// The built-in object that stands for gizmo target `target`.
pub open spec fn role_object(roles: TargetObjects, target: GizmoTargetKind) -> Id {
    match target {
        GizmoTargetKind::Sphere => roles.sphere,
        GizmoTargetKind::Decanter => roles.decanter,
        GizmoTargetKind::WineGlass => roles.wine_glass,
        GizmoTargetKind::CornellBox => roles.cornell_box,
        GizmoTargetKind::SunLamp => roles.sun_lamp,
        GizmoTargetKind::WineSpotlight => roles.spotlight,
    }
}

/// Each gizmo target kind stands for the built-in object of that same
/// kind: the sphere for the sphere, the decanter for the decanter, and so
/// on, so that distinct roles are never confused.
pub proof fn lemma_role_object_by_kind(roles: TargetObjects)
    ensures
        role_object(roles, GizmoTargetKind::Sphere) == roles.sphere,
        role_object(roles, GizmoTargetKind::Decanter) == roles.decanter,
        role_object(roles, GizmoTargetKind::WineGlass) == roles.wine_glass,
        role_object(roles, GizmoTargetKind::CornellBox) == roles.cornell_box,
        role_object(roles, GizmoTargetKind::SunLamp) == roles.sun_lamp,
        role_object(roles, GizmoTargetKind::WineSpotlight) == roles.spotlight,
{
}

/// Every name of a scene's top collection that stands for a built-in
/// object gets that object listed (and so shown) in the scene.
pub proof fn lemma_named_object_listed(names: Seq<String>, roles: TargetObjects, i: int)
    requires
        0 <= i < names.len(),
        named_link_target(names[i]@) is Some,
    ensures
        linked_objects(names, roles).contains(role_object(roles, named_link_target(names[i]@)->0)),
        all_shown(linked_objects(names, roles))[role_object(roles, named_link_target(names[i]@)->0).0],
    decreases names.len(),
{
    let id = role_object(roles, named_link_target(names[i]@)->0);
    let before = linked_objects(names.drop_last(), roles);
    if i < names.len() - 1 {
        assert(names.drop_last()[i] == names[i]);
        lemma_named_object_listed(names.drop_last(), roles, i);
    }
    let after = linked_objects(names, roles);
    assert(after.contains(id)) by {
        if i < names.len() - 1 {
            let q = choose|q: int| 0 <= q < before.len() && before[q] == id;
            match named_link_target(names.last()@) {
                Some(t) => if !before.contains(role_object(roles, t)) {
                    assert(after[q] == id);
                },
                None => {},
            }
        } else {
            assert(names.last() == names[i]);
            if !before.contains(id) {
                assert(after[before.len() as int] == id);
            }
        }
    }
    assert(id == Id(id.0));
}

/// A project object whose name, letter case aside, holds "cornell" and
/// none of "decanter", "wine", "spot" and "sun" is listed and shown in its
/// scene as the Cornell box.
pub proof fn lemma_cornell_named_object_is_the_box(names: Seq<String>, roles: TargetObjects, i: int)
    requires
        0 <= i < names.len(),
        has_text(ascii_lower(names[i]@), "cornell"@),
        !has_text(ascii_lower(names[i]@), "decanter"@),
        !has_text(ascii_lower(names[i]@), "wine"@),
        !has_text(ascii_lower(names[i]@), "spot"@),
        !has_text(ascii_lower(names[i]@), "sun"@),
    ensures
        linked_objects(names, roles).contains(roles.cornell_box),
        all_shown(linked_objects(names, roles))[roles.cornell_box.0],
{
    assert(named_link_target(names[i]@) == Some(GizmoTargetKind::CornellBox));
    lemma_named_object_listed(names, roles, i);
    lemma_role_object_by_kind(roles);
}

/// The built-in object that stands for gizmo target `target`.
fn role_object_of(roles: TargetObjects, target: GizmoTargetKind) -> (id: Id)
    ensures
        id == role_object(roles, target),
{
    match target {
        GizmoTargetKind::Sphere => roles.sphere,
        GizmoTargetKind::Decanter => roles.decanter,
        GizmoTargetKind::WineGlass => roles.wine_glass,
        GizmoTargetKind::CornellBox => roles.cornell_box,
        GizmoTargetKind::SunLamp => roles.sun_lamp,
        GizmoTargetKind::WineSpotlight => roles.spotlight,
    }
}

/// The built-in objects that a scene's object names stand for (see
/// [`named_link_target`]), each once, in the order of their first name.
pub open spec fn linked_objects(names: Seq<String>, roles: TargetObjects) -> Seq<Id>
    decreases names.len(),
{
    if names.len() == 0 {
        Seq::empty()
    } else {
        let before = linked_objects(names.drop_last(), roles);
        match named_link_target(names.last()@) {
            Some(target) => if before.contains(role_object(roles, target)) {
                before
            } else {
                before.push(role_object(roles, target))
            },
            None => before,
        }
    }
}

/// Every object of `ids` shown, and nothing else recorded.
pub open spec fn all_shown(ids: Seq<Id>) -> Map<u64, bool> {
    Map::new(|k: u64| ids.contains(Id(k)), |k: u64| true)
}

/// The collections after the scenes of a project are taken in, the top
/// collection of scene `k` under id `base + 2k + 1`: named after the scene
/// with "Master" added, listing the objects its names stand for.
pub open spec fn adopted_collections(
    base: u64,
    scenes: Seq<LoadedScene>,
    roles: TargetObjects,
) -> Map<u64, CollectionView>
    decreases scenes.len(),
{
    if scenes.len() == 0 {
        Map::empty()
    } else {
        let k = scenes.len() - 1;
        adopted_collections(base, scenes.drop_last(), roles).insert(
            (base + 2 * k + 1) as u64,
            CollectionView {
                name: scenes.last().name@ + "Master"@,
                object_ids: linked_objects(scenes.last().object_names@, roles),
                child_collection_ids: Seq::empty(),
            },
        )
    }
}

/// The scenes after the scenes of a project are taken in, scene `k` under
/// id `base + 2k + 2` with its top collection, showing the objects its
/// names stand for.
pub open spec fn adopted_scenes(
    base: u64,
    scenes: Seq<LoadedScene>,
    roles: TargetObjects,
) -> Map<u64, SceneView>
    decreases scenes.len(),
{
    if scenes.len() == 0 {
        Map::empty()
    } else {
        let k = scenes.len() - 1;
        adopted_scenes(base, scenes.drop_last(), roles).insert(
            (base + 2 * k + 2) as u64,
            SceneView {
                name: scenes.last().name@,
                master_collection_id: Id((base + 2 * k + 1) as u64),
                base_visibility: all_shown(linked_objects(scenes.last().object_names@, roles)),
            },
        )
    }
}

/// The built-in scenes' ids after the scenes of a project are taken in:
/// each built-in scene takes the last project scene whose name stands for
/// it (see [`named_scene_kind`]).
pub open spec fn adopted_scene_ids(base: u64, scenes: Seq<LoadedScene>) -> ProjectSceneIds
    decreases scenes.len(),
{
    if scenes.len() == 0 {
        ProjectSceneIds {
            decanter_master: Id(0),
            wine_master: Id(0),
            cornell_master: Id(0),
            decanter_scene: Id(0),
            wine_scene: Id(0),
            cornell_scene: Id(0),
        }
    } else {
        let before = adopted_scene_ids(base, scenes.drop_last());
        let k = scenes.len() - 1;
        let master = Id((base + 2 * k + 1) as u64);
        let scene = Id((base + 2 * k + 2) as u64);
        match named_scene_kind(scenes.last().name@) {
            Some(SceneKind::Decanter) => ProjectSceneIds {
                decanter_master: master,
                decanter_scene: scene,
                ..before
            },
            Some(SceneKind::Wine) => ProjectSceneIds { wine_master: master, wine_scene: scene, ..before },
            Some(SceneKind::CornellBox) => ProjectSceneIds {
                cornell_master: master,
                cornell_scene: scene,
                ..before
            },
            None => before,
        }
    }
}

/// The material of each built-in object after a project is opened: glass
/// for the sphere, the decanter and the wine glass, "Empty" for the Cornell
/// box, then each project object's linked material for the built-in object
/// its name stands for (see [`named_material_target`]).
pub open spec fn adopted_materials(objects: Seq<LoadedObject>, roles: TargetObjects) -> Map<u64, Seq<char>>
    decreases objects.len(),
{
    if objects.len() == 0 {
        Map::empty().insert(roles.sphere.0, "Glass"@).insert(roles.decanter.0, "Glass"@).insert(
            roles.wine_glass.0,
            "Glass"@,
        ).insert(roles.cornell_box.0, "Empty"@)
    } else {
        let before = adopted_materials(objects.drop_last(), roles);
        match (objects.last().material, named_material_target(objects.last().name@)) {
            (Some(m), Some(target)) => before.insert(role_object(roles, target).0, m@),
            _ => before,
        }
    }
}

/// The id that a database gives next is one past its largest id in use.
proof fn lemma_next_id_follows<S>(db: MainDatabase<S>, key: u64, top: u64)
    requires
        db.is_next_id(key),
        forall|k: u64| !db.is_unused(k) ==> k <= top,
        top == 0 || !db.is_unused(top),
    ensures
        key == top + 1,
{
    if key > 1 {
        assert(!db.is_unused((key - 1) as u64));
    }
}

/// Takes one scene of a project in: a top collection named after it with
/// "Master" added under id `top + 1`, the scene under id `top + 2`, and
/// each built-in object its names stand for listed in the collection and
/// shown in the scene.
fn adopt_scene<S>(main_db: &mut MainDatabase<S>, scene: &LoadedScene, roles: TargetObjects, Ghost(top): Ghost<u64>) -> (ids: (Id, Id))
    requires
        forall|k: u64| !old(main_db).is_unused(k) ==> k <= top,
        top == 0 || !old(main_db).is_unused(top),
        top + 2 <= u64::MAX,
    ensures
        ids.0 == Id((top + 1) as u64),
        ids.1 == Id((top + 2) as u64),
        final(main_db).collections_view() == old(main_db).collections_view().insert(
            (top + 1) as u64,
            CollectionView {
                name: scene.name@ + "Master"@,
                object_ids: linked_objects(scene.object_names@, roles),
                child_collection_ids: Seq::empty(),
            },
        ),
        final(main_db).scenes_view() == old(main_db).scenes_view().insert(
            (top + 2) as u64,
            SceneView {
                name: scene.name@,
                master_collection_id: Id((top + 1) as u64),
                base_visibility: all_shown(linked_objects(scene.object_names@, roles)),
            },
        ),
        final(main_db).objects@ == old(main_db).objects@,
        final(main_db).meshes@ == old(main_db).meshes@,
{
    proof {
        reveal_strlit("Master");
    }
    let mut master_name = String::from_str(scene.name.as_str());
    master_name.append("Master");
    let ghost name_view = master_name@;
    let master = match main_db.create_collection(master_name) {
        Some(c) => c,
        None => {
            assert(false);
            Id(0)
        },
    };
    proof {
        lemma_next_id_follows(*old(main_db), master.0, top);
    }
    let ghost mid = *main_db;
    let scene_id = match main_db.create_scene(scene.name.clone(), master) {
        Some(s) => s,
        None => {
            assert(!mid.is_unused(u64::MAX));
            assert(false);
            Id(0)
        },
    };
    proof {
        assert forall|k: u64| !mid.is_unused(k) implies k <= top + 1 by {
            if k != master.0 {
                assert(!old(main_db).is_unused(k));
            }
        }
        lemma_next_id_follows(mid, scene_id.0, (top + 1) as u64);
    }
    let ghost c0 = old(main_db).collections_view();
    let ghost s0 = old(main_db).scenes_view();
    let names = &scene.object_names;
    let n = names.len();
    let mut j: usize = 0;
    proof {
        assert(names@.take(0) =~= Seq::<String>::empty());
        assert(all_shown(Seq::<Id>::empty()) =~= Map::<u64, bool>::empty());
    }
    while j < n
        invariant
            n == names@.len(),
            names@ == scene.object_names@,
            0 <= j <= n,
            top + 2 <= u64::MAX,
            master == Id((top + 1) as u64),
            scene_id == Id((top + 2) as u64),
            main_db.collections@.contains_key(master.0),
            main_db.scenes@.contains_key(scene_id.0),
            main_db.collections_view() == c0.insert(
                master.0,
                CollectionView {
                    name: name_view,
                    object_ids: linked_objects(names@.take(j as int), roles),
                    child_collection_ids: Seq::empty(),
                },
            ),
            main_db.scenes_view() == s0.insert(
                scene_id.0,
                SceneView {
                    name: scene.name@,
                    master_collection_id: master,
                    base_visibility: all_shown(linked_objects(names@.take(j as int), roles)),
                },
            ),
            main_db.objects@ == old(main_db).objects@,
            main_db.meshes@ == old(main_db).meshes@,
        decreases n - j,
    {
        proof {
            assert(names@.take(j + 1).drop_last() =~= names@.take(j as int));
            assert(names@.take(j + 1).last() == names@[j as int]);
        }
        match link_target_for_name(names[j].as_str()) {
            Some(target) => {
                let id = role_object_of(roles, target);
                let ghost before = linked_objects(names@.take(j as int), roles);
                main_db.collection_link_object(master, id);
                main_db.set_scene_base_visibility(scene_id, id, true);
                proof {
                    let after = linked_objects(names@.take(j + 1), roles);
                    assert(all_shown(before).insert(id.0, true) =~= all_shown(after)) by {
                        assert forall|k: u64| after.contains(Id(k)) <==> (before.contains(Id(k)) || Id(k) == id) by {
                            if !before.contains(id) {
                                assert(after == before.push(id));
                                if after.contains(Id(k)) {
                                    let q = choose|q: int| 0 <= q < after.len() && after[q] == Id(k);
                                    if q < before.len() {
                                        assert(before[q] == Id(k));
                                    }
                                }
                                if before.contains(Id(k)) {
                                    let q = choose|q: int| 0 <= q < before.len() && before[q] == Id(k);
                                    assert(after[q] == Id(k));
                                }
                                if Id(k) == id {
                                    assert(after[before.len() as int] == id);
                                }
                            }
                        }
                    }
                    assert(main_db.collections@.dom() =~= main_db.collections@.dom());
                }
            },
            None => {},
        }
        j = j + 1;
    }
    proof {
        assert(names@.take(n as int) =~= names@);
    }
    (master, scene_id)
}

/// The database `after` is `before` with a project's scenes taken in
/// under the ids after `base`, the largest id of `before`'s objects and
/// meshes (0 where there is none), and `ids` are the built-in scenes' ids.
pub open spec fn project_adopted<S>(
    before: MainDatabase<S>,
    after: MainDatabase<S>,
    ids: ProjectSceneIds,
    base: u64,
    scenes: Seq<LoadedScene>,
    roles: TargetObjects,
) -> bool {
    &&& forall|k: u64| #[trigger] before.objects@.contains_key(k) ==> k <= base
    &&& forall|k: u64| #[trigger] before.meshes@.contains_key(k) ==> k <= base
    &&& (base == 0 || before.objects@.contains_key(base) || before.meshes@.contains_key(base))
    &&& after.collections_view() == adopted_collections(base, scenes, roles)
    &&& after.scenes_view() == adopted_scenes(base, scenes, roles)
    &&& ids == adopted_scene_ids(base, scenes)
}

/// Takes an opened project in: the database's collections and scenes give
/// way to one top collection and one scene per project scene (in order,
/// under the ids after the largest id of the objects and meshes, see
/// [`adopted_collections`] and [`adopted_scenes`]), each listing and
/// showing the built-in objects its object names stand for; the built-in
/// scenes take the project scenes their names stand for; the built-in
/// objects' materials are set anew from the project's objects; and the
/// accumulation is marked to be redone. The objects and meshes stay.
pub fn adopt_loaded_project<S>(
    main_db: &mut MainDatabase<S>,
    scenes: &Vec<LoadedScene>,
    objects: &Vec<LoadedObject>,
    roles: TargetObjects,
    material_names: &mut HashMap<u64, String>,
    accumulation_dirty: &mut bool,
) -> (ids: ProjectSceneIds)
    requires
        2 * scenes@.len() <= u64::MAX,
        forall|k: u64| #[trigger]
            old(main_db).objects@.contains_key(k) ==> k + 2 * scenes@.len() <= u64::MAX,
        forall|k: u64| #[trigger]
            old(main_db).meshes@.contains_key(k) ==> k + 2 * scenes@.len() <= u64::MAX,
    ensures
        exists|base: u64|
            #[trigger] project_adopted(*old(main_db), *final(main_db), ids, base, scenes@, roles),
        final(main_db).objects@ == old(main_db).objects@,
        final(main_db).meshes@ == old(main_db).meshes@,
        final(material_names)@.map_values(|m: String| m@) == adopted_materials(objects@, roles),
        *final(accumulation_dirty),
{
    main_db.collections.clear();
    main_db.scenes.clear();
    let ghost cleared = *main_db;
    let top = main_db.largest_id();
    let ghost base = top;
    proof {
        assert(main_db.collections_view() =~= adopted_collections(base, scenes@.take(0), roles));
        assert(main_db.scenes_view() =~= adopted_scenes(base, scenes@.take(0), roles));
        assert(cleared.collections@ == Map::<u64, crate::scene_data::CollectionData>::empty());
        assert(cleared.scenes@ == Map::<u64, crate::scene_data::SceneData>::empty());
        assert(cleared.objects@ == old(main_db).objects@);
        assert(cleared.meshes@ == old(main_db).meshes@);
        if top != 0 {
            assert(!cleared.is_unused(top));
            assert(old(main_db).objects@.contains_key(top) || old(main_db).meshes@.contains_key(top));
            if old(main_db).objects@.contains_key(top) {
                assert(top + 2 * scenes@.len() <= u64::MAX);
            } else {
                assert(old(main_db).meshes@.contains_key(top));
                assert(top + 2 * scenes@.len() <= u64::MAX);
            }
        }
        assert(base + 2 * scenes@.len() <= u64::MAX);
    }
    let mut ids = ProjectSceneIds {
        decanter_master: Id(0),
        wine_master: Id(0),
        cornell_master: Id(0),
        decanter_scene: Id(0),
        wine_scene: Id(0),
        cornell_scene: Id(0),
    };
    let n = scenes.len();
    let mut i: usize = 0;
    while i < n
        invariant
            n == scenes@.len(),
            0 <= i <= n,
            base + 2 * n <= u64::MAX,
            forall|k: u64| !main_db.is_unused(k) ==> k <= base + 2 * i,
            base + 2 * i == 0 || !main_db.is_unused((base + 2 * i) as u64),
            main_db.collections_view() == adopted_collections(base, scenes@.take(i as int), roles),
            main_db.scenes_view() == adopted_scenes(base, scenes@.take(i as int), roles),
            ids == adopted_scene_ids(base, scenes@.take(i as int)),
            main_db.objects@ == old(main_db).objects@,
            main_db.meshes@ == old(main_db).meshes@,
        decreases n - i,
    {
        let ghost before = *main_db;
        let scene = &scenes[i];
        let (master, scene_id) = adopt_scene(main_db, scene, roles, Ghost((base + 2 * i) as u64));
        proof {
            assert(scenes@.take(i + 1).drop_last() =~= scenes@.take(i as int));
            assert(scenes@.take(i + 1).last() == scenes@[i as int]);
            assert(main_db.collections@.dom() == main_db.collections_view().dom());
            assert(main_db.scenes@.dom() == main_db.scenes_view().dom());
            assert(before.collections@.dom() == before.collections_view().dom());
            assert(before.scenes@.dom() == before.scenes_view().dom());
            assert forall|k: u64| !main_db.is_unused(k) implies k <= base + 2 * (i + 1) by {
                if k != master.0 && k != scene_id.0 {
                    assert(!before.is_unused(k));
                }
            }
            assert(main_db.scenes_view().contains_key(scene_id.0));
        }
        match scene_kind_for_name(scene.name.as_str()) {
            Some(SceneKind::Decanter) => {
                ids.decanter_master = master;
                ids.decanter_scene = scene_id;
            },
            Some(SceneKind::Wine) => {
                ids.wine_master = master;
                ids.wine_scene = scene_id;
            },
            Some(SceneKind::CornellBox) => {
                ids.cornell_master = master;
                ids.cornell_scene = scene_id;
            },
            None => {},
        }
        i = i + 1;
    }
    proof {
        assert(scenes@.take(n as int) =~= scenes@);
        assert forall|k: u64|
            old(main_db).objects@.contains_key(k) || old(main_db).meshes@.contains_key(k) implies k
            <= base by {
            assert(!cleared.is_unused(k));
        }
    }
    adopt_materials(objects, roles, material_names);
    *accumulation_dirty = true;
    proof {
        assert(base == 0 || old(main_db).objects@.contains_key(base) || old(
            main_db,
        ).meshes@.contains_key(base));
        assert(main_db.collections_view() == adopted_collections(base, scenes@, roles));
        assert(main_db.scenes_view() == adopted_scenes(base, scenes@, roles));
        assert(ids == adopted_scene_ids(base, scenes@));
        let before = *old(main_db);
        assert forall|k: u64|
            before.objects@.contains_key(k) || before.meshes@.contains_key(k) implies k <= base by {
            assert(!cleared.is_unused(k));
        }
        assert(base == 0 || before.objects@.contains_key(base) || before.meshes@.contains_key(base));
        let after = *main_db;
        assert(after.collections_view() == adopted_collections(base, scenes@, roles));
        assert(after.scenes_view() == adopted_scenes(base, scenes@, roles));
        assert(project_adopted(before, after, ids, base, scenes@, roles)) by {
            assert forall|k: u64| #[trigger] before.objects@.contains_key(k) implies k <= base by {
                assert(!cleared.is_unused(k));
            }
            assert forall|k: u64| #[trigger] before.meshes@.contains_key(k) implies k <= base by {
                assert(!cleared.is_unused(k));
            }
        }
    }
    ids
}

/// Sets the built-in objects' materials anew from a project's objects (see
/// [`adopted_materials`]).
fn adopt_materials(objects: &Vec<LoadedObject>, roles: TargetObjects, material_names: &mut HashMap<u64, String>)
    ensures
        final(material_names)@.map_values(|m: String| m@) == adopted_materials(objects@, roles),
{
    proof {
        reveal_strlit("Glass");
        reveal_strlit("Empty");
    }
    material_names.clear();
    material_names.insert(roles.sphere.0, String::from_str("Glass"));
    material_names.insert(roles.decanter.0, String::from_str("Glass"));
    material_names.insert(roles.wine_glass.0, String::from_str("Glass"));
    material_names.insert(roles.cornell_box.0, String::from_str("Empty"));
    proof {
        assert(material_names@.map_values(|m: String| m@) =~= adopted_materials(objects@.take(0), roles));
    }
    let n = objects.len();
    let mut i: usize = 0;
    while i < n
        invariant
            n == objects@.len(),
            0 <= i <= n,
            material_names@.map_values(|m: String| m@) == adopted_materials(objects@.take(i as int), roles),
        decreases n - i,
    {
        let object = &objects[i];
        proof {
            assert(objects@.take(i + 1).drop_last() =~= objects@.take(i as int));
            assert(objects@.take(i + 1).last() == objects@[i as int]);
        }
        match &object.material {
            Some(material) => {
                match material_target_for_name(object.name.as_str()) {
                    Some(target) => {
                        let ghost before = material_names@;
                        let id = role_object_of(roles, target);
                        material_names.insert(id.0, material.clone());
                        proof {
                            assert(material_names@.map_values(|m: String| m@) =~= before.map_values(
                                |m: String| m@,
                            ).insert(id.0, material@));
                        }
                    },
                    None => {},
                }
            },
            None => {},
        }
        i = i + 1;
    }
    proof {
        assert(objects@.take(n as int) =~= objects@);
    }
}

} // verus!
