//! Which keys and buttons are held, and where the pointer is.
//!
//! The window system reports changes; the manager remembers the state that
//! they add up to, so that the scene can ask at any time whether a key is
//! down.

use vstd::prelude::*;
use std::collections::HashMap;
use crate::vector::Vec2;

verus! {

broadcast use vstd::std_specs::hash::group_hash_axioms;

/// Whether a key or a button went down or came up.
#[derive(Clone, Copy, Debug, PartialEq, Eq, Structural)]
pub enum ElementState {
    Pressed,
    Released,
}

/// A key by its meaning. The keys that steer the camera have a name of
/// their own; any other key goes by the number that the window system
/// gives it.
#[derive(Clone, Copy, Debug, PartialEq, Eq, Structural)]
pub enum VirtualKeyCode {
    W,
    A,
    S,
    D,
    Escape,
    LControl,
    Space,
    Other(u32),
}

/// A key by its place on the keyboard.
pub type ScanCode = u32;

/// A button of the mouse.
#[derive(Clone, Copy, Debug, PartialEq, Eq, Structural)]
pub enum MouseButton {
    Left,
    Right,
    Middle,
    Other(u16),
}

/// How the pointer is tied to the window.
#[derive(Clone, Copy, Debug, PartialEq, Eq, Structural)]
pub enum CursorGrabMode {
    /// The pointer may leave the window.
    Free,
    /// The pointer stays within the window.
    Confined,
    /// The pointer stays where it is.
    Locked,
}

/// A change of one key, as the window system reports it. A key without a
/// known meaning has no `virtual_keycode` and is told by its scan code.
#[derive(Clone, Copy, Debug, PartialEq, Eq, Structural)]
pub struct KeyboardInput {
    pub scancode: ScanCode,
    pub state: ElementState,
    pub virtual_keycode: Option<VirtualKeyCode>,
}

/// What an [`InputManager`] remembers.
pub struct InputState {
    /// The keys with a meaning that are held.
    pub keycodes: Set<VirtualKeyCode>,
    /// The keys without a meaning that are held.
    pub scancodes: Set<ScanCode>,
    /// The mouse buttons that are held.
    pub mouse_buttons: Set<MouseButton>,
    /// Where the pointer was last seen.
    pub cursor_pos: Vec2,
    /// How far the mouse moved in its last report that was not yet used.
    pub mouse_delta: Vec2,
    pub cursor_mode: CursorGrabMode,
    pub cursor_visible: bool,
}

/// The number that a key is filed under.
pub open spec fn key_index(code: VirtualKeyCode) -> u64 {
    match code {
        VirtualKeyCode::W => 0,
        VirtualKeyCode::A => 1,
        VirtualKeyCode::S => 2,
        VirtualKeyCode::D => 3,
        VirtualKeyCode::Escape => 4,
        VirtualKeyCode::LControl => 5,
        VirtualKeyCode::Space => 6,
        VirtualKeyCode::Other(n) => (7 + n) as u64,
    }
}

/// The number that a mouse button is filed under.
pub open spec fn button_index(button: MouseButton) -> u64 {
    match button {
        MouseButton::Left => 0,
        MouseButton::Right => 1,
        MouseButton::Middle => 2,
        MouseButton::Other(n) => (3 + n) as u64,
    }
}

/// Whether `held` files the number `index` as held.
pub open spec fn filed_as_held(held: Map<u64, bool>, index: u64) -> bool {
    held.contains_key(index) && held[index]
}

fn index_of_key(code: VirtualKeyCode) -> (r: u64)
    ensures
        r == key_index(code),
{
    match code {
        VirtualKeyCode::W => 0,
        VirtualKeyCode::A => 1,
        VirtualKeyCode::S => 2,
        VirtualKeyCode::D => 3,
        VirtualKeyCode::Escape => 4,
        VirtualKeyCode::LControl => 5,
        VirtualKeyCode::Space => 6,
        VirtualKeyCode::Other(n) => 7 + (n as u64),
    }
}

fn index_of_button(button: MouseButton) -> (r: u64)
    ensures
        r == button_index(button),
{
    match button {
        MouseButton::Left => 0,
        MouseButton::Right => 1,
        MouseButton::Middle => 2,
        MouseButton::Other(n) => 3 + (n as u64),
    }
}

fn is_held(held: &HashMap<u64, bool>, index: u64) -> (r: bool)
    ensures
        r == filed_as_held(held@, index),
{
    match held.get(&index) {
        Some(held) => *held,
        None => false,
    }
}

/// The record of held keys and buttons and of the pointer.
pub struct InputManager {
    held_keycodes: HashMap<u64, bool>,
    held_scancodes: HashMap<u64, bool>,
    held_mouse_buttons: HashMap<u64, bool>,
    cursor_pos: Vec2,
    mouse_delta: Vec2,
    cursor_mode: CursorGrabMode,
    cursor_visible: bool,
}

impl View for InputManager {
    type V = InputState;

    closed spec fn view(&self) -> InputState {
        InputState {
            keycodes: Set::new(
                |code: VirtualKeyCode| filed_as_held(self.held_keycodes@, key_index(code)),
            ),
            scancodes: Set::new(
                |code: ScanCode| filed_as_held(self.held_scancodes@, code as u64),
            ),
            mouse_buttons: Set::new(
                |button: MouseButton|
                    filed_as_held(self.held_mouse_buttons@, button_index(button)),
            ),
            cursor_pos: self.cursor_pos,
            mouse_delta: self.mouse_delta,
            cursor_mode: self.cursor_mode,
            cursor_visible: self.cursor_visible,
        }
    }
}

impl InputManager {
    /// What a manager remembers that has seen nothing yet.
    pub open spec fn initial() -> InputState {
        InputState {
            keycodes: Set::empty(),
            scancodes: Set::empty(),
            mouse_buttons: Set::empty(),
            cursor_pos: Vec2 { x: 0, y: 0 },
            mouse_delta: Vec2 { x: 0, y: 0 },
            cursor_mode: CursorGrabMode::Free,
            cursor_visible: true,
        }
    }

    /// A manager that has seen nothing yet: no key or button is held, the
    /// pointer is free and visible.
    pub fn new() -> (r: Self)
        ensures
            r@ == Self::initial(),
    {
        let r = InputManager {
            held_keycodes: HashMap::new(),
            held_scancodes: HashMap::new(),
            held_mouse_buttons: HashMap::new(),
            cursor_pos: Vec2::zero(),
            mouse_delta: Vec2::zero(),
            cursor_mode: CursorGrabMode::Free,
            cursor_visible: true,
        };
        proof {
            assert(r@.keycodes =~= Set::empty());
            assert(r@.scancodes =~= Set::empty());
            assert(r@.mouse_buttons =~= Set::empty());
        }
        r
    }

    /// Takes note of a key that went down or came up. A key with a meaning
    /// is filed under it, any other under its scan code.
    pub fn handle_keyboard_input(&mut self, input: KeyboardInput)
        ensures
            final(self)@ == match input.virtual_keycode {
                Some(code) => InputState {
                    keycodes: if input.state == ElementState::Pressed {
                        old(self)@.keycodes.insert(code)
                    } else {
                        old(self)@.keycodes.remove(code)
                    },
                    ..old(self)@
                },
                None => InputState {
                    scancodes: if input.state == ElementState::Pressed {
                        old(self)@.scancodes.insert(input.scancode)
                    } else {
                        old(self)@.scancodes.remove(input.scancode)
                    },
                    ..old(self)@
                },
            },
    {
        if let Some(keycode) = input.virtual_keycode {
            match input.state {
                ElementState::Pressed => {
                    self.held_keycodes.insert(index_of_key(keycode), true);
                    proof {
                        assert(self@.keycodes =~= old(self)@.keycodes.insert(keycode));
                    }
                },
                ElementState::Released => {
                    self.held_keycodes.insert(index_of_key(keycode), false);
                    proof {
                        assert(self@.keycodes =~= old(self)@.keycodes.remove(keycode));
                    }
                },
            }
            proof {
                assert(self@.scancodes =~= old(self)@.scancodes);
                assert(self@.mouse_buttons =~= old(self)@.mouse_buttons);
            }
        } else {
            match input.state {
                ElementState::Pressed => {
                    self.held_scancodes.insert(input.scancode as u64, true);
                    proof {
                        assert(self@.scancodes =~= old(self)@.scancodes.insert(input.scancode));
                    }
                },
                ElementState::Released => {
                    self.held_scancodes.insert(input.scancode as u64, false);
                    proof {
                        assert(self@.scancodes =~= old(self)@.scancodes.remove(input.scancode));
                    }
                },
            }
            proof {
                assert(self@.keycodes =~= old(self)@.keycodes);
                assert(self@.mouse_buttons =~= old(self)@.mouse_buttons);
            }
        }
    }

    /// Takes note of a mouse button that went down or came up.
    pub fn handle_mouse_button(&mut self, button: MouseButton, state: ElementState)
        ensures
            final(self)@ == (InputState {
                mouse_buttons: if state == ElementState::Pressed {
                    old(self)@.mouse_buttons.insert(button)
                } else {
                    old(self)@.mouse_buttons.remove(button)
                },
                ..old(self)@
            }),
    {
        match state {
            ElementState::Pressed => {
                self.held_mouse_buttons.insert(index_of_button(button), true);
                proof {
                    assert(self@.mouse_buttons =~= old(self)@.mouse_buttons.insert(button));
                }
            },
            ElementState::Released => {
                self.held_mouse_buttons.insert(index_of_button(button), false);
                proof {
                    assert(self@.mouse_buttons =~= old(self)@.mouse_buttons.remove(button));
                }
            },
        }
        proof {
            assert(self@.keycodes =~= old(self)@.keycodes);
            assert(self@.scancodes =~= old(self)@.scancodes);
        }
    }

    /// Takes note of where the pointer is.
    pub fn handle_cursor_movement(&mut self, position: Vec2)
        ensures
            final(self)@ == (InputState { cursor_pos: position, ..old(self)@ }),
    {
        self.cursor_pos = position;
        proof {
            assert(self@.keycodes =~= old(self)@.keycodes);
            assert(self@.scancodes =~= old(self)@.scancodes);
            assert(self@.mouse_buttons =~= old(self)@.mouse_buttons);
        }
    }

    /// Takes note of how far the mouse moved. A movement that was not used
    /// is replaced, not added to.
    pub fn handle_mouse_movement(&mut self, delta: (i64, i64))
        ensures
            final(self)@ == (InputState {
                mouse_delta: Vec2 { x: delta.0, y: delta.1 },
                ..old(self)@
            }),
    {
        self.mouse_delta = Vec2::new(delta.0, delta.1);
        proof {
            assert(self@.keycodes =~= old(self)@.keycodes);
            assert(self@.scancodes =~= old(self)@.scancodes);
            assert(self@.mouse_buttons =~= old(self)@.mouse_buttons);
        }
    }

    /// How the pointer is tied to the window.
    pub fn cursor_mode(&self) -> (r: CursorGrabMode)
        ensures
            r == self@.cursor_mode,
    {
        self.cursor_mode
    }

    /// Whether the pointer is shown.
    pub fn cursor_visible(&self) -> (r: bool)
        ensures
            r == self@.cursor_visible,
    {
        self.cursor_visible
    }

    /// Where the pointer was last seen.
    pub fn cursor_pos(&self) -> (r: Vec2)
        ensures
            r == self@.cursor_pos,
    {
        self.cursor_pos
    }

    /// Sets how the pointer is tied to the window and whether it is shown.
    pub fn set_cursor(&mut self, mode: CursorGrabMode, visible: bool)
        ensures
            final(self)@ == (InputState {
                cursor_mode: mode,
                cursor_visible: visible,
                ..old(self)@
            }),
    {
        self.cursor_mode = mode;
        self.cursor_visible = visible;
        proof {
            assert(self@.keycodes =~= old(self)@.keycodes);
            assert(self@.scancodes =~= old(self)@.scancodes);
            assert(self@.mouse_buttons =~= old(self)@.mouse_buttons);
        }
    }

    /// Whether the key with the meaning `code` is held.
    pub fn is_keycode_held(&self, code: VirtualKeyCode) -> (r: bool)
        ensures
            r == self@.keycodes.contains(code),
    {
        is_held(&self.held_keycodes, index_of_key(code))
    }

    /// Whether the key at the place `code` is held.
    pub fn is_scancode_held(&self, code: ScanCode) -> (r: bool)
        ensures
            r == self@.scancodes.contains(code),
    {
        is_held(&self.held_scancodes, code as u64)
    }

    /// Whether the mouse button `button` is held.
    pub fn is_mouse_button_held(&self, button: MouseButton) -> (r: bool)
        ensures
            r == self@.mouse_buttons.contains(button),
    {
        is_held(&self.held_mouse_buttons, index_of_button(button))
    }

    /// Hands out the movement of the mouse that was last reported and
    /// forgets it: asked again at once, the answer is no movement.
    pub fn use_mouse_delta(&mut self) -> (r: Vec2)
        ensures
            r == old(self)@.mouse_delta,
            final(self)@ == (InputState { mouse_delta: Vec2 { x: 0, y: 0 }, ..old(self)@ }),
    {
        let r = self.mouse_delta;
        self.mouse_delta = Vec2::zero();
        proof {
            assert(self@.keycodes =~= old(self)@.keycodes);
            assert(self@.scancodes =~= old(self)@.scancodes);
            assert(self@.mouse_buttons =~= old(self)@.mouse_buttons);
        }
        r
    }
}

} // verus!
