//! Play mode: the player entity that walks the scene with the camera on its
//! shoulders, entered from and left back to the editor camera.

use vstd::prelude::*;
use crate::ecs::{
    same_bodies, CameraComponent, ColliderShape, PhysicsComponent, TransformComponent, World,
};
use crate::ecs_sync::db_transform_from_ecs;
use crate::input::KeySet;
use crate::scene_data::{with_transform, Id, MainDatabase, Transform};
use crate::types::Camera;

verus! {

/// The names of the keys that move the player.
pub struct PlayerInputBindings {
    pub move_forward: &'static str,
    pub move_backward: &'static str,
    pub move_left: &'static str,
    pub move_right: &'static str,
    pub sprint: &'static str,
}

impl Default for PlayerInputBindings {
    /// W, S, A and D move the player; Shift makes it run.
    fn default() -> (bindings: Self)
        ensures
            bindings.move_forward@ == "w"@,
            bindings.move_backward@ == "s"@,
            bindings.move_left@ == "a"@,
            bindings.move_right@ == "d"@,
            bindings.sprint@ == "Shift"@,
    {
        PlayerInputBindings {
            move_forward: "w",
            move_backward: "s",
            move_left: "a",
            move_right: "d",
            sprint: "Shift",
        }
    }
}

/// Which movement keys are held: the sprint key and each of the four
/// direction keys.
#[derive(Clone, Copy, PartialEq, Eq, Structural, Debug)]
pub struct MovementKeys {
    pub sprint: bool,
    pub forward: bool,
    pub backward: bool,
    pub right: bool,
    pub left: bool,
}

/// Which of the player's movement keys are held.
pub fn movement_keys(bindings: &PlayerInputBindings, keys_pressed: &KeySet) -> (held: MovementKeys)
    ensures
        held.sprint == keys_pressed@.contains(bindings.sprint@),
        held.forward == keys_pressed@.contains(bindings.move_forward@),
        held.backward == keys_pressed@.contains(bindings.move_backward@),
        held.right == keys_pressed@.contains(bindings.move_right@),
        held.left == keys_pressed@.contains(bindings.move_left@),
{
    MovementKeys {
        sprint: keys_pressed.contains(bindings.sprint),
        forward: keys_pressed.contains(bindings.move_forward),
        backward: keys_pressed.contains(bindings.move_backward),
        right: keys_pressed.contains(bindings.move_right),
        left: keys_pressed.contains(bindings.move_left),
    }
}

/// The state of play mode: whether it is on, the editor camera to restore
/// when it ends, the player's heading, and the movement key bindings.
pub struct PlayMode<S> {
    pub active: bool,
    saved_camera: Option<Camera<S>>,
    yaw: S,
    pitch: S,
    input: PlayerInputBindings,
}

/// The state of play mode apart from its key bindings.
pub struct PlayModeView<S> {
    pub active: bool,
    pub saved_camera: Option<Camera<S>>,
    pub yaw: S,
    pub pitch: S,
}

/// Play mode after starting from the editor camera `camera`: on, heading
/// as the camera does, and keeping the camera to restore; a start while
/// already playing keeps the camera saved at the first start.
pub open spec fn started<S>(mode: PlayModeView<S>, camera: Camera<S>) -> PlayModeView<S> {
    PlayModeView {
        active: true,
        saved_camera: if mode.active {
            mode.saved_camera
        } else {
            Some(camera)
        },
        yaw: camera.yaw,
        pitch: camera.pitch,
    }
}

/// Play mode after stopping: off, with no camera to restore.
pub open spec fn stopped<S>(mode: PlayModeView<S>) -> PlayModeView<S> {
    PlayModeView { active: false, saved_camera: None, ..mode }
}

/// The editor camera after stopping play mode: the saved camera if there
/// is one, otherwise the camera as it was.
pub open spec fn camera_after_stop<S>(mode: PlayModeView<S>, camera: Camera<S>) -> Camera<S> {
    match mode.saved_camera {
        Some(saved) => saved,
        None => camera,
    }
}

/// The script the player entity runs.
pub open spec fn player_script() -> Seq<char> {
    "player_controller.lua"@
}

impl<S: Default> Default for PlayMode<S> {
    /// Play mode off, with no saved camera and the default key bindings.
    fn default() -> (mode: Self)
        ensures
            !mode@.active,
            mode@.saved_camera is None,
            mode.bindings().move_forward@ == "w"@,
            mode.bindings().move_backward@ == "s"@,
            mode.bindings().move_left@ == "a"@,
            mode.bindings().move_right@ == "d"@,
            mode.bindings().sprint@ == "Shift"@,
    {
        PlayMode {
            active: false,
            saved_camera: None,
            yaw: S::default(),
            pitch: S::default(),
            input: PlayerInputBindings::default(),
        }
    }
}

impl<S> PlayMode<S> {
    /// The state of play mode apart from its key bindings.
    pub closed spec fn view(&self) -> PlayModeView<S> {
        PlayModeView {
            active: self.active,
            saved_camera: self.saved_camera,
            yaw: self.yaw,
            pitch: self.pitch,
        }
    }

    /// The movement key bindings.
    pub closed spec fn bindings(&self) -> PlayerInputBindings {
        self.input
    }
}

impl<S: Copy> PlayMode<S> {
    /// The player's heading as yaw and pitch.
    pub fn look_angles(&self) -> (angles: (S, S))
        ensures
            angles == (self@.yaw, self@.pitch),
    {
        (self.yaw, self.pitch)
    }

    /// Turns the player to the heading `yaw` and `pitch` while playing;
    /// does nothing otherwise.
    pub fn turn_to(&mut self, yaw: S, pitch: S)
        ensures
            final(self)@ == if old(self)@.active {
                PlayModeView { yaw, pitch, ..old(self)@ }
            } else {
                old(self)@
            },
            final(self).bindings() == old(self).bindings(),
    {
        if !self.active {
            return;
        }
        self.yaw = yaw;
        self.pitch = pitch;
    }

    /// Which of the player's movement keys are held.
    pub fn held_movement_keys(&self, keys_pressed: &KeySet) -> (held: MovementKeys)
        ensures
            held.sprint == keys_pressed@.contains(self.bindings().sprint@),
            held.forward == keys_pressed@.contains(self.bindings().move_forward@),
            held.backward == keys_pressed@.contains(self.bindings().move_backward@),
            held.right == keys_pressed@.contains(self.bindings().move_right@),
            held.left == keys_pressed@.contains(self.bindings().move_left@),
    {
        movement_keys(&self.input, keys_pressed)
    }

    /// Enters play mode from the editor camera `camera`: saves the camera
    /// (unless already playing), takes its heading, places the player
    /// object at `player_pose` and the camera object at `eye_pose` relative
    /// to it, in the database and the world, makes the camera follow the
    /// player, gives the player its body, its collider and the player
    /// script, gives entity 0 the ground collider, and makes the camera
    /// the only active one, riding on the player. The world's global
    /// transforms are left for the caller to recompute.
    pub fn start(
        &mut self,
        world: &mut World<S>,
        main_db: &mut MainDatabase<S>,
        player_id: Id,
        camera_id: Id,
        camera: &Camera<S>,
        player_pose: TransformComponent<S>,
        eye_pose: TransformComponent<S>,
        player_body: PhysicsComponent<S>,
        player_collider: ColliderShape<S>,
        ground_collider: ColliderShape<S>,
    )
        ensures
            final(self)@ == started(old(self)@, *camera),
            final(self).bindings() == old(self).bindings(),
            final(main_db).objects@ == with_transform(
                with_transform(old(main_db).objects@, player_id, db_transform_from_ecs(player_pose)),
                camera_id,
                db_transform_from_ecs(eye_pose),
            ),
            final(main_db).scenes@ == old(main_db).scenes@,
            final(main_db).collections@ == old(main_db).collections@,
            final(main_db).meshes@ == old(main_db).meshes@,
            final(world).transforms@ == old(world).transforms@.insert(player_id.0, player_pose).insert(
                camera_id.0,
                eye_pose,
            ),
            final(world).parents@ == old(world).parents@.insert(camera_id.0, player_id),
            final(world).physics@ == old(world).physics@.insert(player_id.0, player_body),
            final(world).colliders@ == old(world).colliders@.insert(player_id.0, player_collider).insert(
                0,
                ground_collider,
            ),
            final(world).scripts@.dom() == old(world).scripts@.dom().insert(player_id.0),
            final(world).scripts@[player_id.0]@ == player_script(),
            forall|k: u64|
                k != player_id.0 && #[trigger] old(world).scripts@.contains_key(k) ==> final(world).scripts@[k]
                    == old(world).scripts@[k],
            final(world).cameras@ == old(world).cameras@.map_values(
                |c: CameraComponent| CameraComponent { active: false, ..c },
            ).insert(camera_id.0, CameraComponent { active: true, attached_to: Some(player_id) }),
            final(world).entities@ == old(world).entities@,
            final(world).global_transforms@ == old(world).global_transforms@,
            final(world).meshes@ == old(world).meshes@,
            final(world).visibility@ == old(world).visibility@,
    {
        if !self.active {
            self.saved_camera = Some(*camera);
        }
        self.active = true;
        self.yaw = camera.yaw;
        self.pitch = camera.pitch;

        main_db.set_object_transform(
            player_id,
            Transform {
                location: player_pose.translation,
                rotation: player_pose.rotation,
                scale: player_pose.scale,
            },
        );
        main_db.set_object_transform(
            camera_id,
            Transform {
                location: eye_pose.translation,
                rotation: eye_pose.rotation,
                scale: eye_pose.scale,
            },
        );

        world.transforms.insert(player_id.0, player_pose);
        world.transforms.insert(camera_id.0, eye_pose);
        world.set_parent(camera_id, player_id);
        world.attach_physics(player_id, player_body);
        world.attach_collider(player_id, player_collider);
        world.attach_collider(Id(0), ground_collider);
        world.attach_script(player_id, "player_controller.lua");
        world.deactivate_cameras();
        world.cameras.insert(camera_id.0, CameraComponent { active: true, attached_to: Some(player_id) });
    }

    /// Leaves play mode: restores the saved editor camera, if any, detaches
    /// the camera from the player and makes it inactive and free.
    pub fn stop(&mut self, world: &mut World<S>, camera_id: Id, camera: &mut Camera<S>)
        ensures
            final(self)@ == stopped(old(self)@),
            final(self).bindings() == old(self).bindings(),
            *final(camera) == camera_after_stop(old(self)@, *old(camera)),
            final(world).parents@ == old(world).parents@.remove(camera_id.0),
            final(world).cameras@ == if old(world).cameras@.contains_key(camera_id.0) {
                old(world).cameras@.insert(
                    camera_id.0,
                    CameraComponent { active: false, attached_to: None },
                )
            } else {
                old(world).cameras@
            },
            final(world).entities@ == old(world).entities@,
            final(world).transforms@ == old(world).transforms@,
            final(world).global_transforms@ == old(world).global_transforms@,
            final(world).meshes@ == old(world).meshes@,
            final(world).visibility@ == old(world).visibility@,
            final(world).physics@ == old(world).physics@,
            final(world).colliders@ == old(world).colliders@,
            final(world).scripts@ == old(world).scripts@,
    {
        match self.saved_camera {
            Some(saved) => {
                *camera = saved;
            },
            None => {},
        }
        self.saved_camera = None;
        self.active = false;
        world.clear_parent(camera_id);
        if world.cameras.contains_key(&camera_id.0) {
            world.cameras.insert(camera_id.0, CameraComponent { active: false, attached_to: None });
        }
    }
}

/// Starting play mode from the editor (once, or again while playing) and
/// then stopping it gives back the editor camera as it was at the first
/// start, and leaves play mode off with nothing saved.
pub proof fn lemma_stop_restores_camera<S>(
    mode: PlayModeView<S>,
    first: Camera<S>,
    again: Option<Camera<S>>,
    current: Camera<S>,
)
    requires
        !mode.active,
    ensures
        ({
            let playing = match again {
                Some(c) => started(started(mode, first), c),
                None => started(mode, first),
            };
            &&& camera_after_stop(playing, current) == first
            &&& !stopped(playing).active
            &&& stopped(playing).saved_camera is None
        }),
{
}

} // verus!
