//! Choosing the sun lights the shader receives.

use vstd::prelude::*;
use crate::scene_data::{
    capped, first_included, included_positions, lemma_included_positions_valid, Id,
};
use crate::types::{collect_light_ids, light_ids, LightObjectInstance, MAX_SUN_LIGHTS};

verus! {

/// Where a sun light slot of the shader takes its direction from.
#[derive(Clone, Copy, PartialEq, Eq, Structural, Debug)]
pub enum SunLightSource {
    /// The light object at this position of the light list.
    Light(usize),
    /// The primary sun lamp.
    Primary,
}

/// The sources of the shader's sun light slots: none without a current
/// scene; otherwise the visible lights, in order, up to [`MAX_SUN_LIGHTS`],
/// or the primary sun lamp alone when no light is visible.
pub open spec fn spec_sun_light_sources<S>(
    lights: Seq<LightObjectInstance<S>>,
    visible: Seq<Id>,
    current_scene_exists: bool,
) -> Seq<SunLightSource> {
    let picked = capped(included_positions(light_ids(lights), visible, false), MAX_SUN_LIGHTS);
    if !current_scene_exists {
        Seq::empty()
    } else if picked.len() == 0 {
        seq![SunLightSource::Primary]
    } else {
        picked.map_values(|i: usize| SunLightSource::Light(i))
    }
}

/// The shader never receives more sun lights than it has slots for, and
/// every light it receives is a light of a visible object.
pub proof fn lemma_sun_light_sources_bounded<S>(
    lights: Seq<LightObjectInstance<S>>,
    visible: Seq<Id>,
    current_scene_exists: bool,
)
    requires
        lights.len() <= usize::MAX,
    ensures
        spec_sun_light_sources(lights, visible, current_scene_exists).len() <= MAX_SUN_LIGHTS,
        forall|j: int|
            0 <= j < spec_sun_light_sources(lights, visible, current_scene_exists).len() ==> (
            #[trigger] spec_sun_light_sources(lights, visible, current_scene_exists)[j] matches SunLightSource::Light(
                i,
            ) ==> i < lights.len() && visible.contains(lights[i as int].object_id)),
{
    let all = included_positions(light_ids(lights), visible, false);
    let picked = capped(all, MAX_SUN_LIGHTS);
    lemma_included_positions_valid(light_ids(lights), visible, false);
    assert forall|j: int| 0 <= j < picked.len() implies picked[j] < lights.len()
        && visible.contains(lights[picked[j] as int].object_id) by {
        assert(picked[j] == all[j]);
        assert(light_ids(lights)[all[j] as int] == lights[all[j] as int].object_id);
    }
}

/// The sources of the shader's sun light slots, one per slot in use: the
/// lights of the current scene's visible objects, in order and at most
/// [`MAX_SUN_LIGHTS`] of them, or the primary sun lamp when none is
/// visible; no slot is used when there is no current scene.
pub fn sun_light_sources<S>(
    light_instances: &[LightObjectInstance<S>],
    visible_ids: &[Id],
    current_scene_exists: bool,
) -> (sources: Vec<SunLightSource>)
    ensures
        sources@ == spec_sun_light_sources(light_instances@, visible_ids@, current_scene_exists),
        sources@.len() <= MAX_SUN_LIGHTS,
        forall|j: int|
            0 <= j < sources@.len() ==> (#[trigger] sources@[j] matches SunLightSource::Light(i) ==> i
                < light_instances@.len() && visible_ids@.contains(light_instances@[i as int].object_id)),
{
    assert(light_instances@.len() == light_instances.len());
    proof {
        lemma_sun_light_sources_bounded(light_instances@, visible_ids@, current_scene_exists);
    }
    let mut sources: Vec<SunLightSource> = Vec::new();
    if !current_scene_exists {
        assert(sources@ =~= Seq::<SunLightSource>::empty());
        return sources;
    }
    let ids = collect_light_ids(light_instances);
    let picked = first_included(ids.as_slice(), visible_ids, false, MAX_SUN_LIGHTS);
    if picked.len() == 0 {
        sources.push(SunLightSource::Primary);
        assert(sources@ =~= seq![SunLightSource::Primary]);
        return sources;
    }
    let n = picked.len();
    let mut i: usize = 0;
    while i < n
        invariant
            n == picked@.len(),
            0 <= i <= n,
            sources@ == picked@.take(i as int).map_values(|p: usize| SunLightSource::Light(p)),
        decreases n - i,
    {
        sources.push(SunLightSource::Light(picked[i]));
        assert(picked@.take(i + 1).map_values(|p: usize| SunLightSource::Light(p)) =~= picked@.take(
            i as int,
        ).map_values(|p: usize| SunLightSource::Light(p)).push(SunLightSource::Light(picked@[i as int])));
        i = i + 1;
    }
    assert(picked@.take(n as int) =~= picked@);
    sources
}

} // verus!
