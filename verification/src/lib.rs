//! Verified core of a ray-tracing scene editor: mesh assembly, the entity
//! component world and scene database kept in step with the runtime, input
//! state machines and the editor's selection tables.

use vstd::prelude::*;

pub mod add_menu;
pub mod application;
pub mod camera_motion;
pub mod camera_state;
pub mod ecs;
pub mod ecs_sync;
pub mod editor_surface;
pub mod geometry;
pub mod gpu_scene;
pub mod input;
pub mod mesh;
pub mod persistence;
pub mod play_mode;
pub mod project_io;
pub mod scene_data;
pub mod session;
pub mod stress;
pub mod sun;
pub mod text;
pub mod types;

verus! {

} // verus!
