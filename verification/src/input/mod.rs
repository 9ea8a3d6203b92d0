//! Keyboard and mouse state for moving the camera: which movement keys are
//! held, whether the mouse is captured, and whether the window has focus.
//!
//! Mouse motion is measured in floating point and is tracked by the caller;
//! this state holds everything the decisions read.

use vstd::prelude::*;

verus! {

/// A key, as the window reports it.
pub enum Key {
    Escape,
    Space,
    Shift,
    /// A key that types text; the text it types.
    Character(String),
    /// Any other key.
    Other,
}

/// A mouse button.
#[derive(Debug, Clone, Copy, PartialEq, Eq, Structural)]
pub enum MouseButton {
    Left,
    Right,
    Middle,
    Other,
}

/// The window events the input state reacts to.
pub enum InputEvent {
    /// The window gained (`true`) or lost (`false`) focus.
    Focused(bool),
    /// A key was pressed (`pressed`) or released.
    Keyboard { key: Key, pressed: bool },
    /// A mouse button was pressed (`pressed`) or released.
    MouseInput { button: MouseButton, pressed: bool },
    /// Any other event.
    Other,
}

/// Input state tracking.
#[derive(Debug, Clone, Copy, PartialEq, Eq, Structural)]
pub struct InputState {
    pub move_forward: bool,
    pub move_backward: bool,
    pub move_left: bool,
    pub move_right: bool,
    pub move_up: bool,
    pub move_down: bool,
    pub mouse_captured: bool,
    pub window_focused: bool,
    /// Set when the mouse capture was taken or released since the last reset.
    pub capture_changed: bool,
}

/// No key held, the mouse free and the window unfocused.
pub open spec fn idle_input() -> InputState {
    InputState {
        move_forward: false,
        move_backward: false,
        move_left: false,
        move_right: false,
        move_up: false,
        move_down: false,
        mouse_captured: false,
        window_focused: false,
        capture_changed: false,
    }
}

/// The state with the mouse released, noting the change if it was captured.
pub open spec fn released(s: InputState) -> InputState {
    if s.mouse_captured {
        InputState { mouse_captured: false, capture_changed: true, ..s }
    } else {
        s
    }
}

/// The state after a key event, and whether the key is one the state
/// handles. W, S, A and D (either case) drive forward, backward, left and
/// right, Space up and Shift down; pressing Escape releases the mouse.
pub open spec fn after_key(s: InputState, key: Key, pressed: bool) -> (InputState, bool) {
    match key {
        Key::Escape => (if pressed { released(s) } else { s }, true),
        Key::Space => (InputState { move_up: pressed, ..s }, true),
        Key::Shift => (InputState { move_down: pressed, ..s }, true),
        Key::Character(text) => {
            let t = text@;
            if t == "w"@ || t == "W"@ {
                (InputState { move_forward: pressed, ..s }, true)
            } else if t == "s"@ || t == "S"@ {
                (InputState { move_backward: pressed, ..s }, true)
            } else if t == "a"@ || t == "A"@ {
                (InputState { move_left: pressed, ..s }, true)
            } else if t == "d"@ || t == "D"@ {
                (InputState { move_right: pressed, ..s }, true)
            } else {
                (s, false)
            }
        },
        Key::Other => (s, false),
    }
}

/// The state after a mouse button event, and whether it was handled:
/// pressing the left button captures the mouse.
pub open spec fn after_mouse_button(s: InputState, button: MouseButton, pressed: bool) -> (
    InputState,
    bool,
) {
    if button == MouseButton::Left && pressed {
        (
            if s.mouse_captured {
                s
            } else {
                InputState { mouse_captured: true, capture_changed: true, ..s }
            },
            true,
        )
    } else {
        (s, false)
    }
}

/// The state after a focus change: losing focus releases the mouse. Focus
/// events are never reported as handled.
pub open spec fn after_focus(s: InputState, focused: bool) -> (InputState, bool) {
    let f = InputState { window_focused: focused, ..s };
    (if focused { f } else { released(f) }, false)
}

/// The state after any event, and whether it was handled.
pub open spec fn after_event(s: InputState, event: InputEvent) -> (InputState, bool) {
    match event {
        InputEvent::Focused(focused) => after_focus(s, focused),
        InputEvent::Keyboard { key, pressed } => after_key(s, key, pressed),
        InputEvent::MouseInput { button, pressed } => after_mouse_button(s, button, pressed),
        InputEvent::Other => (s, false),
    }
}

/// Pressing Escape always leaves the mouse free, and notes the change
/// exactly when the mouse was captured.
pub proof fn law_escape_releases_mouse(s: InputState)
    ensures
        !after_key(s, Key::Escape, true).0.mouse_captured,
        after_key(s, Key::Escape, true).0.capture_changed == (s.mouse_captured || s.capture_changed),
{
}

/// Pressing the left mouse button always captures the mouse.
pub proof fn law_left_click_captures_mouse(s: InputState)
    ensures
        after_mouse_button(s, MouseButton::Left, true).0.mouse_captured,
        after_mouse_button(s, MouseButton::Left, true).1,
{
}

/// Losing focus always frees the mouse.
pub proof fn law_focus_loss_releases_mouse(s: InputState)
    ensures
        !after_focus(s, false).0.mouse_captured,
        !after_focus(s, false).0.window_focused,
{
}

/// For every key but Escape, the state depends only on the key's last
/// event: a second event on the same key overrides the first. In
/// particular, pressing and then releasing a movement key leaves it
/// released.
pub proof fn law_last_key_event_wins(s: InputState, key: Key, first: bool, second: bool)
    requires
        !(key is Escape),
    ensures
        after_key(after_key(s, key, first).0, key, second) == after_key(s, key, second),
{
}

/// Each movement letter, in either case, drives its own direction and
/// nothing else: W forward, S backward, A left, D right.
pub proof fn law_letter_keys_drive_their_direction(s: InputState, text: String, pressed: bool)
    ensures
        (text@ == "w"@ || text@ == "W"@) ==> after_key(s, Key::Character(text), pressed) == (
        InputState { move_forward: pressed, ..s }, true),
        (text@ == "s"@ || text@ == "S"@) ==> after_key(s, Key::Character(text), pressed) == (
        InputState { move_backward: pressed, ..s }, true),
        (text@ == "a"@ || text@ == "A"@) ==> after_key(s, Key::Character(text), pressed) == (
        InputState { move_left: pressed, ..s }, true),
        (text@ == "d"@ || text@ == "D"@) ==> after_key(s, Key::Character(text), pressed) == (
        InputState { move_right: pressed, ..s }, true),
{
    reveal_strlit("w");
    reveal_strlit("W");
    reveal_strlit("s");
    reveal_strlit("S");
    reveal_strlit("a");
    reveal_strlit("A");
    reveal_strlit("d");
    reveal_strlit("D");
    let letters = seq!["w"@, "W"@, "s"@, "S"@, "a"@, "A"@, "d"@, "D"@];
    let firsts = seq!['w', 'W', 's', 'S', 'a', 'A', 'd', 'D'];
    assert forall|i: int, j: int| 0 <= i < 8 && 0 <= j < 8 && firsts[i] != firsts[j] implies letters[i]
        != letters[j] by {
        assert(letters[i][0] == firsts[i]);
        assert(letters[j][0] == firsts[j]);
    }
    assert(letters[0] != letters[2] && letters[1] != letters[2] && letters[0] != letters[3]
        && letters[1] != letters[3]);
    assert(letters[4] != letters[0] && letters[4] != letters[1] && letters[4] != letters[2]
        && letters[4] != letters[3] && letters[5] != letters[0] && letters[5] != letters[1]
        && letters[5] != letters[2] && letters[5] != letters[3]);
    assert(letters[6] != letters[0] && letters[6] != letters[1] && letters[6] != letters[2]
        && letters[6] != letters[3] && letters[6] != letters[4] && letters[6] != letters[5]);
    assert(letters[7] != letters[0] && letters[7] != letters[1] && letters[7] != letters[2]
        && letters[7] != letters[3] && letters[7] != letters[4] && letters[7] != letters[5]);
}

/// Whether a string is one letter, in lower or upper case.
fn is_letter(text: &String, lower: &str, upper: &str) -> (r: bool)
    ensures
        r == (text@ == lower@ || text@ == upper@),
{
    let l = lower.to_owned();
    let u = upper.to_owned();
    *text == l || *text == u
}

impl InputState {
    /// A state with no key held, the mouse free and the window unfocused.
    pub fn new() -> (r: Self)
        ensures
            r == idle_input(),
    {
        InputState {
            move_forward: false,
            move_backward: false,
            move_left: false,
            move_right: false,
            move_up: false,
            move_down: false,
            mouse_captured: false,
            window_focused: false,
            capture_changed: false,
        }
    }

    /// Releases the mouse if it is captured.
    fn release_mouse(&mut self)
        ensures
            *final(self) == released(*old(self)),
    {
        if self.mouse_captured {
            self.mouse_captured = false;
            self.capture_changed = true;
        }
    }

    /// Processes a window event; returns whether it was handled.
    pub fn process_event(&mut self, event: &InputEvent) -> (handled: bool)
        ensures
            (*final(self), handled) == after_event(*old(self), *event),
    {
        match event {
            InputEvent::Focused(focused) => {
                self.window_focused = *focused;
                if !*focused {
                    self.release_mouse();
                }
                false
            },
            InputEvent::Keyboard { key, pressed } => self.process_keyboard_input(key, *pressed),
            InputEvent::MouseInput { button, pressed } => self.process_mouse_input(*pressed, *button),
            InputEvent::Other => false,
        }
    }

    /// Processes a key press (`pressed`) or release; returns whether the key
    /// is one the state handles.
    pub fn process_keyboard_input(&mut self, key: &Key, pressed: bool) -> (handled: bool)
        ensures
            (*final(self), handled) == after_key(*old(self), *key, pressed),
    {
        match key {
            Key::Escape => {
                if pressed {
                    self.release_mouse();
                }
                true
            },
            Key::Space => {
                self.move_up = pressed;
                true
            },
            Key::Shift => {
                self.move_down = pressed;
                true
            },
            Key::Character(text) => {
                if is_letter(text, "w", "W") {
                    self.move_forward = pressed;
                    true
                } else if is_letter(text, "s", "S") {
                    self.move_backward = pressed;
                    true
                } else if is_letter(text, "a", "A") {
                    self.move_left = pressed;
                    true
                } else if is_letter(text, "d", "D") {
                    self.move_right = pressed;
                    true
                } else {
                    false
                }
            },
            Key::Other => false,
        }
    }

    /// Processes a mouse button press (`pressed`) or release; returns
    /// whether it was handled.
    pub fn process_mouse_input(&mut self, pressed: bool, button: MouseButton) -> (handled: bool)
        ensures
            (*final(self), handled) == after_mouse_button(*old(self), button, pressed),
    {
        if button == MouseButton::Left && pressed {
            if !self.mouse_captured {
                self.mouse_captured = true;
                self.capture_changed = true;
            }
            true
        } else {
            false
        }
    }

    /// Clears the capture-changed flag after the frame has seen it.
    pub fn reset_mouse_delta(&mut self)
        ensures
            *final(self) == (InputState { capture_changed: false, ..*old(self) }),
    {
        self.capture_changed = false;
    }

    /// Whether any movement key is held.
    pub fn is_moving(&self) -> (r: bool)
        ensures
            r == (self.move_forward || self.move_backward || self.move_left || self.move_right
                || self.move_up || self.move_down),
    {
        self.move_forward || self.move_backward || self.move_left || self.move_right
            || self.move_up || self.move_down
    }
}

impl Default for InputState {
    fn default() -> (r: Self)
        ensures
            r == idle_input(),
    {
        InputState::new()
    }
}

} // verus!
