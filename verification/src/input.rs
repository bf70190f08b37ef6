//! Keyboard and pointer input: the set of held keys and the state of the
//! left mouse button, as key and pointer events change them.

use vstd::prelude::*;

verus! {

/// The lower-case form of a string, as Rust's standard library computes it
/// (Unicode case mapping).
pub uninterp spec fn lowercase(s: Seq<char>) -> Seq<char>;

/// The lower-case form of `s`: calls `str::to_lowercase`, whose result is
/// taken to depend on the characters of `s` alone.
#[verifier::external_body]
fn to_lowercase(s: &str) -> (lower: String)
    ensures
        lower@ == lowercase(s@),
{
    s.to_lowercase()
}

/// The keys currently held, by name, each once. The names are kept in a
/// vector with no name twice rather than in a `HashSet<String>`: vstd
/// specifies `HashSet` only for keys that obey its hashing model, which it
/// grants to primitive types but not to `String`, so no lookup in such a
/// set could be proved; here every lookup is proved by the characters of
/// the names.
pub struct KeySet {
    keys: Vec<String>,
}

/// The characters of each name of a sequence of names.
pub open spec fn names_of(keys: Seq<String>) -> Seq<Seq<char>> {
    keys.map_values(|k: String| k@)
}

impl KeySet {
    #[verifier::type_invariant]
    spec fn no_repeats(self) -> bool {
        names_of(self.keys@).no_duplicates()
    }

    /// The names of the held keys.
    pub closed spec fn view(&self) -> Set<Seq<char>> {
        names_of(self.keys@).to_set()
    }

    /// No key held.
    pub fn new() -> (set: Self)
        ensures
            set@ == Set::<Seq<char>>::empty(),
    {
        let set = KeySet { keys: Vec::new() };
        assert(names_of(set.keys@).to_set() =~= Set::<Seq<char>>::empty());
        set
    }

    /// Where the key named `key` stands among the held keys, if held.
    fn position(&self, key: &String) -> (found: Option<usize>)
        ensures
            found is None <==> !self@.contains(key@),
            found matches Some(i) ==> i < self.keys@.len() && self.keys@[i as int]@ == key@,
    {
        let n = self.keys.len();
        let mut i: usize = 0;
        while i < n
            invariant
                n == self.keys@.len(),
                0 <= i <= n,
                forall|j: int| 0 <= j < i ==> self.keys@[j]@ != key@,
            decreases n - i,
        {
            if self.keys[i] == *key {
                assert(names_of(self.keys@)[i as int] == key@);
                return Some(i);
            }
            i = i + 1;
        }
        proof {
            if names_of(self.keys@).to_set().contains(key@) {
                let j = choose|j: int| 0 <= j < n && names_of(self.keys@)[j] == key@;
                assert(self.keys@[j]@ == key@);
            }
        }
        None
    }

    /// Whether the key named `key` is held.
    pub fn contains(&self, key: &str) -> (held: bool)
        ensures
            held == self@.contains(key@),
    {
        let name = key.to_owned();
        self.position(&name).is_some()
    }

    /// Marks the key named `key` held; returns whether it was not held
    /// before.
    pub fn insert(&mut self, key: String) -> (added: bool)
        ensures
            final(self)@ == old(self)@.insert(key@),
            added == !old(self)@.contains(key@),
    {
        proof {
            use_type_invariant(&*self);
        }
        match self.position(&key) {
            Some(_) => {
                assert(self@ =~= old(self)@.insert(key@));
                false
            },
            None => {
                let ghost before = self.keys@;
                let mut keys: Vec<String> = Vec::new();
                std::mem::swap(&mut keys, &mut self.keys);
                keys.push(key);
                proof {
                    assert(names_of(keys@) =~= names_of(before).push(key@));
                    assert(!names_of(before).contains(key@));
                }
                std::mem::swap(&mut keys, &mut self.keys);
                proof {
                    assert(names_of(self.keys@) =~= names_of(before).push(key@));
                    assert(!names_of(before).contains(key@));
                    assert forall|x: Seq<char>| names_of(self.keys@).contains(x) <==> (names_of(
                        before,
                    ).contains(x) || x == key@) by {
                        let now = names_of(self.keys@);
                        if now.contains(x) && x != key@ {
                            let j = choose|j: int| 0 <= j < now.len() && now[j] == x;
                            assert(j < before.len());
                            assert(names_of(before)[j] == x);
                        }
                        if names_of(before).contains(x) {
                            let j = choose|j: int| 0 <= j < before.len() && names_of(before)[j] == x;
                            assert(now[j] == x);
                        }
                        if x == key@ {
                            assert(now[before.len() as int] == x);
                        }
                    }
                    assert(names_of(self.keys@).to_set() =~= names_of(before).to_set().insert(key@));
                }
                true
            },
        }
    }

    /// Marks the key named `key` released; returns whether it was held.
    pub fn remove(&mut self, key: &str) -> (removed: bool)
        ensures
            final(self)@ == old(self)@.remove(key@),
            removed == old(self)@.contains(key@),
    {
        proof {
            use_type_invariant(&*self);
        }
        let name = key.to_owned();
        match self.position(&name) {
            Some(i) => {
                let ghost before = self.keys@;
                let mut keys: Vec<String> = Vec::new();
                std::mem::swap(&mut keys, &mut self.keys);
                keys.remove(i);
                proof {
                    assert(names_of(keys@) =~= names_of(before).remove(i as int));
                }
                std::mem::swap(&mut keys, &mut self.keys);
                proof {
                    let names = names_of(before);
                    assert(names[i as int] == key@);
                    assert(names.no_duplicates());
                    assert(names_of(self.keys@) =~= names.remove(i as int));
                    assert forall|x: Seq<char>| names.remove(i as int).contains(x) <==> (
                    names.contains(x) && x != key@) by {
                        if names.remove(i as int).contains(x) {
                            let j = choose|j: int| 0 <= j < names.len() - 1 && names.remove(i as int)[j] == x;
                            if j < i {
                                assert(names[j] == x);
                                assert(x != key@);
                            } else {
                                assert(names[j + 1] == x);
                                assert(x != key@);
                            }
                        }
                        if names.contains(x) && x != key@ {
                            let j = choose|j: int| 0 <= j < names.len() && names[j] == x;
                            assert(j != i);
                            if j < i {
                                assert(names.remove(i as int)[j] == x);
                            } else {
                                assert(names.remove(i as int)[j - 1] == x);
                            }
                        }
                    }
                    assert(names_of(self.keys@).to_set() =~= names.to_set().remove(key@));
                }
                true
            },
            None => {
                assert(self@ =~= old(self)@.remove(key@));
                false
            },
        }
    }
}

/// Whether a key went down or up.
#[derive(Clone, Copy, PartialEq, Eq, Structural, Debug)]
pub enum KeyState {
    Pressed,
    Released,
}

/// The physical keys that the editor treats specially; `Other` stands for
/// every other key.
#[derive(Clone, Copy, PartialEq, Eq, Structural, Debug)]
pub enum PhysicalKey {
    F1,
    Escape,
    Space,
    ShiftLeft,
    ShiftRight,
    ControlLeft,
    ControlRight,
    ArrowUp,
    ArrowDown,
    ArrowLeft,
    ArrowRight,
    Other,
}

/// A keyboard event: whether the key went down or up, which physical key
/// it was, the text it types if it is a character key, and whether it is an
/// automatic repeat.
pub struct KeyInput {
    pub state: KeyState,
    pub physical_key: PhysicalKey,
    pub character: Option<String>,
    pub repeat: bool,
}

/// The name under which a non-character key is held, if the editor tracks
/// it.
pub open spec fn named_key(key: PhysicalKey) -> Option<Seq<char>> {
    match key {
        PhysicalKey::Space => Some("Space"@),
        PhysicalKey::ShiftLeft | PhysicalKey::ShiftRight => Some("Shift"@),
        PhysicalKey::ControlLeft | PhysicalKey::ControlRight => Some("Control"@),
        PhysicalKey::ArrowUp => Some("ArrowUp"@),
        PhysicalKey::ArrowDown => Some("ArrowDown"@),
        PhysicalKey::ArrowLeft => Some("ArrowLeft"@),
        PhysicalKey::ArrowRight => Some("ArrowRight"@),
        _ => None,
    }
}

/// The name under which the key of `event` is held: the lower-case text of
/// a character key, or the name of a tracked non-character key.
pub open spec fn event_key_name(event: KeyInput) -> Option<Seq<char>> {
    match event.character {
        Some(c) => Some(lowercase(c@)),
        None => named_key(event.physical_key),
    }
}

/// Whether the editor is shown after `event`: a press of F1 that is not a
/// repeat flips it.
pub open spec fn editor_shown_after(shown: bool, event: KeyInput) -> bool {
    if event.state == KeyState::Pressed && event.physical_key == PhysicalKey::F1 && !event.repeat {
        !shown
    } else {
        shown
    }
}

/// The held keys after `event`: a press (other than of F1) holds the key
/// under its name, a release lets it go; keys without a name change
/// nothing.
pub open spec fn keys_held_after(keys: Set<Seq<char>>, event: KeyInput) -> Set<Seq<char>> {
    if event.state == KeyState::Pressed && event.physical_key == PhysicalKey::F1 {
        keys
    } else {
        match event_key_name(event) {
            Some(name) => if event.state == KeyState::Pressed {
                keys.insert(name)
            } else {
                keys.remove(name)
            },
            None => keys,
        }
    }
}

/// The name under which a non-character key is held, if the editor tracks
/// it.
fn named_key_string(key: PhysicalKey) -> (name: Option<String>)
    ensures
        name is None <==> named_key(key) is None,
        name matches Some(n) ==> named_key(key) == Some(n@),
{
    match key {
        PhysicalKey::Space => Some("Space".to_owned()),
        PhysicalKey::ShiftLeft | PhysicalKey::ShiftRight => Some("Shift".to_owned()),
        PhysicalKey::ControlLeft | PhysicalKey::ControlRight => Some("Control".to_owned()),
        PhysicalKey::ArrowUp => Some("ArrowUp".to_owned()),
        PhysicalKey::ArrowDown => Some("ArrowDown".to_owned()),
        PhysicalKey::ArrowLeft => Some("ArrowLeft".to_owned()),
        PhysicalKey::ArrowRight => Some("ArrowRight".to_owned()),
        _ => None,
    }
}

/// Applies a keyboard event: pressing F1 (not by repeat) shows or hides
/// the editor; pressing any other key holds it under its name, releasing a
/// key lets it go; keys that are neither characters nor tracked are
/// ignored.
pub fn handle_keyboard_input(event: &KeyInput, show_editor_ui: &mut bool, keys_pressed: &mut KeySet)
    ensures
        *final(show_editor_ui) == editor_shown_after(*old(show_editor_ui), *event),
        final(keys_pressed)@ == keys_held_after(old(keys_pressed)@, *event),
{
    match event.state {
        KeyState::Pressed => {
            if event.physical_key == PhysicalKey::F1 {
                if !event.repeat {
                    *show_editor_ui = !*show_editor_ui;
                }
            } else {
                match &event.character {
                    Some(c) => {
                        keys_pressed.insert(to_lowercase(c.as_str()));
                    },
                    None => match named_key_string(event.physical_key) {
                        Some(name) => {
                            keys_pressed.insert(name);
                        },
                        None => {},
                    },
                }
            }
        },
        KeyState::Released => {
            match &event.character {
                Some(c) => {
                    let lower = to_lowercase(c.as_str());
                    keys_pressed.remove(lower.as_str());
                },
                None => match named_key_string(event.physical_key) {
                    Some(name) => {
                        keys_pressed.remove(name.as_str());
                    },
                    None => {},
                },
            }
        },
    }
}

/// Pressing a key other than F1 that was not held and then releasing it
/// leaves the held keys as they were and the editor shown or hidden as it
/// was.
pub proof fn lemma_press_release_round_trip(keys: Set<Seq<char>>, shown: bool, press: KeyInput, release: KeyInput)
    requires
        press.state == KeyState::Pressed,
        release.state == KeyState::Released,
        press.physical_key == release.physical_key,
        press.character == release.character,
        press.physical_key != PhysicalKey::F1,
        event_key_name(press) matches Some(name) ==> !keys.contains(name),
    ensures
        keys_held_after(keys_held_after(keys, press), release) == keys,
        editor_shown_after(editor_shown_after(shown, press), release) == shown,
{
    match event_key_name(press) {
        Some(name) => {
            assert(event_key_name(release) == Some(name));
            assert(keys.insert(name).remove(name) =~= keys);
        },
        None => {},
    }
}

/// The key pressed or released on either side, with no text.
pub open spec fn side_key(state: KeyState, key: PhysicalKey, repeat: bool) -> KeyInput {
    KeyInput { state, physical_key: key, character: None, repeat }
}

/// Shift and Control are one key each to the editor, whichever side is
/// used: pressing either side holds the key under one name ("Shift",
/// "Control"), releasing either side lets it go, and both sides change the
/// held keys alike.
pub proof fn lemma_sides_held_alike(keys: Set<Seq<char>>, state: KeyState, repeat: bool)
    ensures
        keys_held_after(keys, side_key(state, PhysicalKey::ControlRight, repeat)) == keys_held_after(
            keys,
            side_key(state, PhysicalKey::ControlLeft, repeat),
        ),
        keys_held_after(keys, side_key(state, PhysicalKey::ShiftRight, repeat)) == keys_held_after(
            keys,
            side_key(state, PhysicalKey::ShiftLeft, repeat),
        ),
        state == KeyState::Pressed ==> {
            &&& keys_held_after(keys, side_key(state, PhysicalKey::ControlLeft, repeat)) == keys.insert("Control"@)
            &&& keys_held_after(keys, side_key(state, PhysicalKey::ControlRight, repeat)) == keys.insert("Control"@)
            &&& keys_held_after(keys, side_key(state, PhysicalKey::ShiftLeft, repeat)) == keys.insert("Shift"@)
            &&& keys_held_after(keys, side_key(state, PhysicalKey::ShiftRight, repeat)) == keys.insert("Shift"@)
        },
        state == KeyState::Released ==> {
            &&& keys_held_after(keys, side_key(state, PhysicalKey::ControlRight, repeat)) == keys.remove("Control"@)
            &&& keys_held_after(keys, side_key(state, PhysicalKey::ShiftRight, repeat)) == keys.remove("Shift"@)
        },
{
}

/// Keys that do different things are held under different names: Space,
/// Shift, Control and the four arrows each have a name of their own, so
/// holding one never reads as holding another; F1 and every other key
/// without text are held under no name.
pub proof fn lemma_named_keys_distinct()
    ensures
        forall|a: PhysicalKey, b: PhysicalKey|
            #![trigger named_key(a), named_key(b)]
            named_key(a) is Some && named_key(a) == named_key(b) ==> a == b || (a
                == PhysicalKey::ShiftLeft || a == PhysicalKey::ShiftRight) && (b == PhysicalKey::ShiftLeft
                || b == PhysicalKey::ShiftRight) || (a == PhysicalKey::ControlLeft || a
                == PhysicalKey::ControlRight) && (b == PhysicalKey::ControlLeft || b
                == PhysicalKey::ControlRight),
        named_key(PhysicalKey::F1) is None,
        named_key(PhysicalKey::Escape) is None,
        named_key(PhysicalKey::Other) is None,
{
    reveal_strlit("Space");
    reveal_strlit("Shift");
    reveal_strlit("Control");
    reveal_strlit("ArrowUp");
    reveal_strlit("ArrowDown");
    reveal_strlit("ArrowLeft");
    reveal_strlit("ArrowRight");
    let names = seq!["Space"@, "Shift"@, "Control"@, "ArrowUp"@, "ArrowDown"@, "ArrowLeft"@, "ArrowRight"@];
    assert("Space"@[1] != "Shift"@[1]);
    assert("Control"@[0] != "ArrowUp"@[0]);
    assert("ArrowDown"@[5] != "ArrowLeft"@[5]);
    assert forall|i: int, j: int| 0 <= i < j < 7 implies names[i] != names[j] by {
        if names[i] == names[j] {
            assert(names[i].len() == names[j].len());
            assert(names[i][0] == names[j][0]);
            assert(names[i][1] == names[j][1]);
            assert(names[i][5] == names[j][5]);
        }
    }
    assert forall|a: PhysicalKey, b: PhysicalKey|
        named_key(a) is Some && named_key(a) == named_key(b) implies a == b || (a == PhysicalKey::ShiftLeft
            || a == PhysicalKey::ShiftRight) && (b == PhysicalKey::ShiftLeft || b == PhysicalKey::ShiftRight)
            || (a == PhysicalKey::ControlLeft || a == PhysicalKey::ControlRight) && (b
            == PhysicalKey::ControlLeft || b == PhysicalKey::ControlRight) by {
        assert(names[0] != names[1] && names[0] != names[2] && names[0] != names[3] && names[0] != names[4]
            && names[0] != names[5] && names[0] != names[6]);
        assert(names[1] != names[2] && names[1] != names[3] && names[1] != names[4] && names[1] != names[5]
            && names[1] != names[6]);
        assert(names[2] != names[3] && names[2] != names[4] && names[2] != names[5] && names[2] != names[6]);
        assert(names[3] != names[4] && names[3] != names[5] && names[3] != names[6]);
        assert(names[4] != names[5] && names[4] != names[6]);
        assert(names[5] != names[6]);
    }
}

/// Pressing F1 twice, not by repeat, leaves the editor shown or hidden as it
/// was, and the held keys as they were.
pub proof fn lemma_f1_twice(keys: Set<Seq<char>>, shown: bool, press: KeyInput)
    requires
        press.state == KeyState::Pressed,
        press.physical_key == PhysicalKey::F1,
        !press.repeat,
    ensures
        editor_shown_after(editor_shown_after(shown, press), press) == shown,
        keys_held_after(keys_held_after(keys, press), press) == keys,
{
}

/// A pointer event of the window: the cursor moved to a position, the left
/// button went down or up, or anything else.
pub enum PointerEvent<S> {
    CursorMoved([S; 2]),
    LeftButton(KeyState),
    Other,
}

/// Applies a pointer event: a cursor move records the position and, while
/// the left button is down, starts a drag; pressing the left button records
/// a click and ends any drag; releasing it only lifts the button.
pub fn handle_pointer_window_event<S: Copy>(
    event: &PointerEvent<S>,
    mouse_pos: &mut [S; 2],
    mouse_left_down: &mut bool,
    mouse_left_clicked: &mut bool,
    mouse_left_dragging: &mut bool,
)
    ensures
        match *event {
            PointerEvent::CursorMoved(position) => {
                &&& *final(mouse_pos) == position
                &&& *final(mouse_left_down) == *old(mouse_left_down)
                &&& *final(mouse_left_clicked) == *old(mouse_left_clicked)
                &&& *final(mouse_left_dragging) == (*old(mouse_left_down) || *old(mouse_left_dragging))
            },
            PointerEvent::LeftButton(state) => {
                &&& *final(mouse_pos) == *old(mouse_pos)
                &&& *final(mouse_left_down) == (state == KeyState::Pressed)
                &&& *final(mouse_left_clicked) == (state == KeyState::Pressed || *old(mouse_left_clicked))
                &&& *final(mouse_left_dragging) == (state != KeyState::Pressed && *old(mouse_left_dragging))
            },
            PointerEvent::Other => {
                &&& *final(mouse_pos) == *old(mouse_pos)
                &&& *final(mouse_left_down) == *old(mouse_left_down)
                &&& *final(mouse_left_clicked) == *old(mouse_left_clicked)
                &&& *final(mouse_left_dragging) == *old(mouse_left_dragging)
            },
        },
{
    match event {
        PointerEvent::CursorMoved(position) => {
            *mouse_pos = *position;
            if *mouse_left_down {
                *mouse_left_dragging = true;
            }
        },
        PointerEvent::LeftButton(state) => {
            *mouse_left_down = *state == KeyState::Pressed;
            if *state == KeyState::Pressed {
                *mouse_left_clicked = true;
                *mouse_left_dragging = false;
            }
        },
        PointerEvent::Other => {},
    }
}

/// Ends a frame for the pointer: a click lasts one frame, and a drag ends
/// once the left button is up.
pub fn end_pointer_frame(mouse_left_down: bool, mouse_left_clicked: &mut bool, mouse_left_dragging: &mut bool)
    ensures
        !*final(mouse_left_clicked),
        *final(mouse_left_dragging) == (*old(mouse_left_dragging) && mouse_left_down),
{
    *mouse_left_clicked = false;
    if !mouse_left_down {
        *mouse_left_dragging = false;
    }
}

} // verus!
