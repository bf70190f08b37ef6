//! Flying the editor camera with the keyboard.

use vstd::prelude::*;
use crate::input::KeySet;

verus! {

/// The fly-camera motions the held keys ask for: whether to sprint, to move
/// forward, backward, left, right, up or down, and to pitch or turn.
#[derive(Clone, Copy, PartialEq, Eq, Structural, Debug)]
pub struct FlyControls {
    pub sprint: bool,
    pub forward: bool,
    pub backward: bool,
    pub left: bool,
    pub right: bool,
    pub up: bool,
    pub down: bool,
    pub pitch_up: bool,
    pub pitch_down: bool,
    pub turn_left: bool,
    pub turn_right: bool,
}

/// Whether the key named `name` drives the camera: it is held and the user
/// interface does not want the keyboard.
pub open spec fn drives(keys: Set<Seq<char>>, wants_keyboard: bool, name: Seq<char>) -> bool {
    !wants_keyboard && keys.contains(name)
}

/// The motions of the fly camera for the held keys: Shift sprints; unless
/// the user interface wants the keyboard, W, S, A and D move forward,
/// backward, left and right, Space and Control move up and down, the up and
/// down arrows pitch and the left and right arrows turn.
pub fn fly_controls(keys_pressed: &KeySet, wants_keyboard: bool) -> (controls: FlyControls)
    ensures
        controls.sprint == keys_pressed@.contains("Shift"@),
        controls.forward == drives(keys_pressed@, wants_keyboard, "w"@),
        controls.backward == drives(keys_pressed@, wants_keyboard, "s"@),
        controls.left == drives(keys_pressed@, wants_keyboard, "a"@),
        controls.right == drives(keys_pressed@, wants_keyboard, "d"@),
        controls.up == drives(keys_pressed@, wants_keyboard, "Space"@),
        controls.down == drives(keys_pressed@, wants_keyboard, "Control"@),
        controls.pitch_up == drives(keys_pressed@, wants_keyboard, "ArrowUp"@),
        controls.pitch_down == drives(keys_pressed@, wants_keyboard, "ArrowDown"@),
        controls.turn_left == drives(keys_pressed@, wants_keyboard, "ArrowLeft"@),
        controls.turn_right == drives(keys_pressed@, wants_keyboard, "ArrowRight"@),
{
    FlyControls {
        sprint: keys_pressed.contains("Shift"),
        forward: !wants_keyboard && keys_pressed.contains("w"),
        backward: !wants_keyboard && keys_pressed.contains("s"),
        left: !wants_keyboard && keys_pressed.contains("a"),
        right: !wants_keyboard && keys_pressed.contains("d"),
        up: !wants_keyboard && keys_pressed.contains("Space"),
        down: !wants_keyboard && keys_pressed.contains("Control"),
        pitch_up: !wants_keyboard && keys_pressed.contains("ArrowUp"),
        pitch_down: !wants_keyboard && keys_pressed.contains("ArrowDown"),
        turn_left: !wants_keyboard && keys_pressed.contains("ArrowLeft"),
        turn_right: !wants_keyboard && keys_pressed.contains("ArrowRight"),
    }
}

/// Mouse motion turns the camera only while V is held and the pointer is
/// not over the user interface.
pub fn mouse_look_enabled(pointer_over_ui: bool, keys_pressed: &KeySet) -> (enabled: bool)
    ensures
        enabled == (!pointer_over_ui && keys_pressed@.contains("v"@)),
{
    !pointer_over_ui && keys_pressed.contains("v")
}

} // verus!
