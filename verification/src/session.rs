//! The editor's view flags around a play session: starting play hides the
//! editor and remembers whether it was shown; Escape during play ends the
//! session and shows the editor again as it was before.

use crate::input::{
    editor_shown_after, handle_keyboard_input, keys_held_after, KeyInput, KeySet, KeyState,
    PhysicalKey,
};
use crate::scene_data::MainDatabase;
use vstd::prelude::*;

verus! {

/// Whether the editor is shown, whether it was shown when play last
/// started, and which of the renderer's work the last change left to redo.
#[derive(Clone, Copy, PartialEq, Eq, Structural, Debug)]
pub struct EditorFlags {
    pub show_editor_ui: bool,
    pub shown_before_play: bool,
    pub accumulation_dirty: bool,
    pub geometry_dirty: bool,
}

/// The flags once play has started: the editor is hidden, whether it was
/// shown is remembered, and the accumulation restarts.
pub open spec fn entered_play(flags: EditorFlags) -> EditorFlags {
    EditorFlags {
        show_editor_ui: false,
        shown_before_play: flags.show_editor_ui,
        accumulation_dirty: true,
        ..flags
    }
}

/// The flags once play has ended: the editor is shown as it was before
/// play, and both the geometry and the accumulation are redone.
pub open spec fn left_play(flags: EditorFlags) -> EditorFlags {
    EditorFlags {
        show_editor_ui: flags.shown_before_play,
        accumulation_dirty: true,
        geometry_dirty: true,
        ..flags
    }
}

/// Whether `event` is a press of Escape that is not an automatic repeat.
pub open spec fn is_escape_press(event: KeyInput) -> bool {
    &&& event.state == KeyState::Pressed
    &&& !event.repeat
    &&& event.physical_key == PhysicalKey::Escape
}

/// Whether `event` ends play, when play is `playing`.
pub open spec fn ends_play(event: KeyInput, playing: bool) -> bool {
    playing && is_escape_press(event)
}

/// The flags after each of `events` in turn, none of which ends play, has
/// shown or hidden the editor.
pub open spec fn after_key_events(flags: EditorFlags, events: Seq<KeyInput>) -> EditorFlags
    decreases events.len(),
{
    if events.len() == 0 {
        flags
    } else {
        let before = after_key_events(flags, events.drop_last());
        EditorFlags {
            show_editor_ui: editor_shown_after(before.show_editor_ui, events.last()),
            ..before
        }
    }
}

impl EditorFlags {
    /// The flags when the editor opens: shown, with the geometry and the
    /// accumulation still to build.
    pub fn new() -> (flags: Self)
        ensures
            flags == (EditorFlags {
                show_editor_ui: true,
                shown_before_play: true,
                accumulation_dirty: true,
                geometry_dirty: true,
            }),
    {
        EditorFlags {
            show_editor_ui: true,
            shown_before_play: true,
            accumulation_dirty: true,
            geometry_dirty: true,
        }
    }

    /// Starts play: hides the editor and remembers whether it was shown.
    pub fn enter_play(&mut self)
        ensures
            *final(self) == entered_play(*old(self)),
    {
        self.shown_before_play = self.show_editor_ui;
        self.show_editor_ui = false;
        self.accumulation_dirty = true;
    }

    /// Ends play: shows the editor as it was before play.
    pub fn leave_play(&mut self)
        ensures
            *final(self) == left_play(*old(self)),
    {
        self.show_editor_ui = self.shown_before_play;
        self.accumulation_dirty = true;
        self.geometry_dirty = true;
    }

    /// Takes a keyboard event: during play, a press of Escape ends play
    /// and the result says so, for the caller to stop the play session;
    /// any other event goes to the editor toggle and the held keys.
    pub fn on_key_event(&mut self, event: &KeyInput, playing: bool, keys_pressed: &mut KeySet) -> (stop_play: bool)
        ensures
            stop_play == ends_play(*event, playing),
            stop_play ==> *final(self) == left_play(*old(self)) && final(keys_pressed)@ == old(
                keys_pressed,
            )@,
            !stop_play ==> *final(self) == (EditorFlags {
                show_editor_ui: editor_shown_after(old(self).show_editor_ui, *event),
                ..*old(self)
            }) && final(keys_pressed)@ == keys_held_after(old(keys_pressed)@, *event),
    {
        let escape = match event.state {
            KeyState::Pressed => !event.repeat && event.physical_key == PhysicalKey::Escape,
            KeyState::Released => false,
        };
        if playing && escape {
            self.leave_play();
            true
        } else {
            let mut shown = self.show_editor_ui;
            handle_keyboard_input(event, &mut shown, keys_pressed);
            self.show_editor_ui = shown;
            false
        }
    }
}

/// Whatever key events come during play, ending play shows the editor
/// exactly as it was shown or hidden before play started.
pub proof fn lemma_leaving_play_restores_editor(flags: EditorFlags, events: Seq<KeyInput>)
    ensures
        left_play(after_key_events(entered_play(flags), events)).show_editor_ui
            == flags.show_editor_ui,
        after_key_events(entered_play(flags), events).shown_before_play == flags.show_editor_ui,
    decreases events.len(),
{
    if events.len() > 0 {
        lemma_leaving_play_restores_editor(flags, events.drop_last());
    }
}

/// The editor's scene database and, while play runs, the copy of it that
/// play works on, so that what play does never reaches the editor's.
pub struct PlaySession<S> {
    pub editor_db: MainDatabase<S>,
    pub play_db: Option<MainDatabase<S>>,
}

/// Whether `a` and `b` hold the same objects, scenes, collections and
/// meshes.
pub open spec fn same_database<S>(a: MainDatabase<S>, b: MainDatabase<S>) -> bool {
    &&& a.objects@ == b.objects@
    &&& a.scenes@ == b.scenes@
    &&& a.collections@ == b.collections@
    &&& a.meshes@ == b.meshes@
}

impl<S: Clone> PlaySession<S> {
    /// Starts play on a copy of the editor's database.
    pub fn start_play(&mut self)
        ensures
            final(self).play_db matches Some(db) && same_database(db, old(self).editor_db),
            same_database(final(self).editor_db, old(self).editor_db),
    {
        let copy = self.editor_db.duplicate();
        self.play_db = Some(copy);
    }

    /// Ends play: the copy play worked on is dropped, and the editor's
    /// database is as it was when play started.
    pub fn stop_play(&mut self)
        ensures
            final(self).play_db is None,
            same_database(final(self).editor_db, old(self).editor_db),
    {
        self.play_db = None;
    }

    /// Whether play is running.
    pub fn playing(&self) -> (playing: bool)
        ensures
            playing == self.play_db is Some,
    {
        self.play_db.is_some()
    }
}

} // verus!
