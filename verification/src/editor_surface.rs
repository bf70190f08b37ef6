//! The editor surface's bookkeeping: which objects the outliner lists and
//! how, what a click in it selects, and how the properties panel's edits
//! reach the lights, the database and the renderer.

use crate::ecs::World;
use crate::ecs_sync::{scene_with_world_visibility, sync_ecs_visibility_to_main};
use crate::scene_data::{find_first, is_first_position, Id, MainDatabase, ObjectData};
use crate::types::{
    collect_light_ids, default_target_for_scene, light_ids, target_allowed_in_scene,
    GizmoTargetKind, LightObjectInstance, SceneKind,
};
use std::collections::HashMap;
use vstd::prelude::*;

verus! {

/// An entry of the outliner: an object, the label it is shown with, and
/// whether it is the selected object.
pub struct OutlinerItem {
    pub object_id: Id,
    pub label: String,
    pub selected: bool,
}

/// The objects the outliner lists, in the order given: those of `visible`
/// that have a gizmo target (every target is allowed in every scene).
pub open spec fn outliner_ids(visible: Seq<Id>, targets: Map<u64, GizmoTargetKind>) -> Seq<Id> {
    visible.filter(|id: Id| targets.contains_key(id.0))
}

/// The label of an object in the outliner: its name, or "Object" for an id
/// that the database does not hold.
pub open spec fn outliner_label<S>(objects: Map<u64, ObjectData<S>>, id: Id) -> Seq<char> {
    if objects.contains_key(id.0) {
        objects[id.0].name@
    } else {
        "Object"@
    }
}

/// Whether `item` lists object `id` as the outliner shows it.
pub open spec fn lists_object<S>(
    item: OutlinerItem,
    id: Id,
    objects: Map<u64, ObjectData<S>>,
    has_selection: bool,
    selected: Option<Id>,
) -> bool {
    &&& item.object_id == id
    &&& item.label@ == outliner_label(objects, id)
    &&& item.selected == (has_selection && selected == Some(id))
}

/// The outliner's entries: each object of `visible` that has a gizmo
/// target, in order, labelled by its name and marked when it is the
/// selected object.
pub fn outliner_items<S>(
    visible: &[Id],
    targets: &HashMap<u64, GizmoTargetKind>,
    objects: &HashMap<u64, ObjectData<S>>,
    scene_kind: SceneKind,
    has_selection: bool,
    selected: Option<Id>,
) -> (items: Vec<OutlinerItem>)
    ensures
        items@.len() == outliner_ids(visible@, targets@).len(),
        forall|j: int|
            0 <= j < items@.len() ==> lists_object(
                #[trigger] items@[j],
                outliner_ids(visible@, targets@)[j],
                objects@,
                has_selection,
                selected,
            ),
{
    let ghost pred = |id: Id| targets@.contains_key(id.0);
    let mut items: Vec<OutlinerItem> = Vec::new();
    let n = visible.len();
    let mut i: usize = 0;
    while i < n
        invariant
            n == visible@.len(),
            0 <= i <= n,
            pred == (|id: Id| targets@.contains_key(id.0)),
            items@.len() == visible@.take(i as int).filter(pred).len(),
            forall|j: int|
                0 <= j < items@.len() ==> lists_object(
                    #[trigger] items@[j],
                    visible@.take(i as int).filter(pred)[j],
                    objects@,
                    has_selection,
                    selected,
                ),
        decreases n - i,
    {
        let id = visible[i];
        let ghost prev = visible@.take(i as int).filter(pred);
        proof {
            let next = visible@.take(i + 1);
            assert(next.drop_last() =~= visible@.take(i as int));
            assert(next.last() == id);
            assert(next.len() > 0);
            reveal_with_fuel(Seq::filter, 2);
            assert(next.filter(pred) == if pred(id) {
                prev.push(id)
            } else {
                prev
            });
        }
        match targets.get(&id.0) {
            Some(target) => {
                if target_allowed_in_scene(scene_kind, *target) {
                    let label = match objects.get(&id.0) {
                        Some(obj) => obj.name.clone(),
                        None => "Object".to_owned(),
                    };
                    let is_selected = has_selection && match selected {
                        Some(s) => s == id,
                        None => false,
                    };
                    items.push(OutlinerItem { object_id: id, label, selected: is_selected });
                }
            },
            None => {},
        }
        i = i + 1;
    }
    assert(visible@.take(n as int) =~= visible@);
    items
}

/// Selects the object clicked in the outliner, with its gizmo target; an
/// object without a target leaves the selection as it was.
pub fn select_outliner_object(
    clicked: Id,
    targets: &HashMap<u64, GizmoTargetKind>,
    gizmo_target: &mut GizmoTargetKind,
    selected_object_id: &mut Option<Id>,
    has_selection: &mut bool,
)
    ensures
        targets@.contains_key(clicked.0) ==> {
            &&& *final(gizmo_target) == targets@[clicked.0]
            &&& *final(selected_object_id) == Some(clicked)
            &&& *final(has_selection)
        },
        !targets@.contains_key(clicked.0) ==> {
            &&& *final(gizmo_target) == *old(gizmo_target)
            &&& *final(selected_object_id) == *old(selected_object_id)
            &&& *final(has_selection) == *old(has_selection)
        },
{
    match targets.get(&clicked.0) {
        Some(target) => {
            *gizmo_target = *target;
            *selected_object_id = Some(clicked);
            *has_selection = true;
        },
        None => {},
    }
}

/// The objects that stand for the gizmo targets of the built-in scenes.
#[derive(Clone, Copy, PartialEq, Eq, Structural, Debug)]
pub struct TargetObjects {
    pub sphere: Id,
    pub decanter: Id,
    pub wine_glass: Id,
    pub cornell_box: Id,
    pub sun_lamp: Id,
    pub spotlight: Id,
}

/// Keeps the gizmo on a target that the scene allows: a target the scene
/// does not allow gives way to the scene's default target and its object.
/// Every target is allowed in every scene, so the selection stays.
pub fn keep_target_in_scene(
    scene_kind: SceneKind,
    objects: TargetObjects,
    gizmo_target: &mut GizmoTargetKind,
    selected_object_id: &mut Option<Id>,
)
    ensures
        *final(gizmo_target) == *old(gizmo_target),
        *final(selected_object_id) == *old(selected_object_id),
{
    if !target_allowed_in_scene(scene_kind, *gizmo_target) {
        let target = default_target_for_scene(scene_kind);
        *gizmo_target = target;
        *selected_object_id = Some(
            match target {
                GizmoTargetKind::Sphere => objects.sphere,
                GizmoTargetKind::Decanter => objects.decanter,
                GizmoTargetKind::WineGlass => objects.wine_glass,
                GizmoTargetKind::CornellBox => objects.cornell_box,
                GizmoTargetKind::SunLamp => objects.sun_lamp,
                GizmoTargetKind::WineSpotlight => objects.spotlight,
            },
        );
    }
}

/// The intensity of the first light that belongs to the selected object;
/// `None` when nothing is selected or the selected object is no light.
pub fn selected_light_intensity<S: Copy>(
    selected_object_id: Option<Id>,
    lights: &[LightObjectInstance<S>],
) -> (intensity: Option<S>)
    ensures
        intensity is None <==> match selected_object_id {
            Some(id) => !light_ids(lights@).contains(id),
            None => true,
        },
        intensity matches Some(v) ==> exists|i: int|
            #[trigger] is_first_position(light_ids(lights@), selected_object_id->0, i)
                && v == lights@[i].intensity,
{
    match selected_object_id {
        Some(id) => {
            let ids = collect_light_ids(lights);
            match find_first(&ids, id) {
                Some(i) => {
                    assert(is_first_position(light_ids(lights@), id, i as int));
                    Some(lights[i].intensity)
                },
                None => None,
            }
        },
        None => None,
    }
}

/// Sets the intensity of the first light that belongs to object `id`; with
/// no such light the lights stay as they are.
pub fn set_light_intensity<S: Copy>(lights: &mut Vec<LightObjectInstance<S>>, id: Id, intensity: S)
    ensures
        !light_ids(old(lights)@).contains(id) ==> final(lights)@ == old(lights)@,
        light_ids(old(lights)@).contains(id) ==> exists|i: int|
            #[trigger] is_first_position(light_ids(old(lights)@), id, i) && final(lights)@
                == old(lights)@.update(i, LightObjectInstance { intensity, ..old(lights)@[i] }),
{
    let ids = collect_light_ids(lights);
    match find_first(&ids, id) {
        Some(i) => {
            let mut light = lights[i];
            light.intensity = intensity;
            lights.set(i, light);
            assert(is_first_position(light_ids(old(lights)@), id, i as int));
        },
        None => {},
    }
}

/// What the properties panel reports after a frame: the intensity it set
/// for the selected light, if any, and whether it changed an object's
/// visibility or anything that the renderer must draw anew.
pub struct PanelOutput<S> {
    pub selected_light_intensity: Option<S>,
    pub visibility_changed: bool,
    pub accumulation_dirty: bool,
}

/// Carries the properties panel's edits out: the selected light takes the
/// intensity it was given, a change of visibility is copied from the world
/// into every scene of the database, and a change the renderer must draw
/// marks the accumulation dirty.
pub fn apply_panel_output<S: Copy>(
    output: &PanelOutput<S>,
    selected_object_id: Option<Id>,
    lights: &mut Vec<LightObjectInstance<S>>,
    world: &World<S>,
    main_db: &mut MainDatabase<S>,
    accumulation_dirty: &mut bool,
)
    ensures
        match (selected_object_id, output.selected_light_intensity) {
            (Some(id), Some(v)) => {
                &&& !light_ids(old(lights)@).contains(id) ==> final(lights)@ == old(lights)@
                &&& light_ids(old(lights)@).contains(id) ==> exists|i: int|
                    #[trigger] is_first_position(light_ids(old(lights)@), id, i) && final(lights)@
                        == old(lights)@.update(
                        i,
                        LightObjectInstance { intensity: v, ..old(lights)@[i] },
                    )
            },
            _ => final(lights)@ == old(lights)@,
        },
        final(main_db).objects@ == old(main_db).objects@,
        final(main_db).collections@ == old(main_db).collections@,
        final(main_db).meshes@ == old(main_db).meshes@,
        final(main_db).scenes@.dom() == old(main_db).scenes@.dom(),
        forall|k: u64| #[trigger]
            old(main_db).scenes@.contains_key(k) ==> final(main_db).scenes_view()[k] == if output.visibility_changed {
                scene_with_world_visibility(old(main_db).scenes_view()[k], world)
            } else {
                old(main_db).scenes_view()[k]
            },
        *final(accumulation_dirty) == (*old(accumulation_dirty) || output.accumulation_dirty),
{
    match (selected_object_id, output.selected_light_intensity) {
        (Some(id), Some(v)) => set_light_intensity(lights, id, v),
        _ => {},
    }
    if output.visibility_changed {
        sync_ecs_visibility_to_main(world, main_db);
    }
    if output.accumulation_dirty {
        *accumulation_dirty = true;
    }
}

} // verus!
