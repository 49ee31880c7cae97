//! Reading the keys of a frame from the engine's record of the keyboard.

use vstd::prelude::*;
use bevy::input::ButtonInput;
use bevy::input::keyboard::KeyCode;
use crate::input::KeyState;

verus! {

/// The engine's record of which buttons are down.
#[verifier::external_type_specification]
#[verifier::external_body]
#[verifier::reject_recursive_types(T)]
pub struct ExButtonInput<T: Copy + Eq + std::hash::Hash + Send + Sync + 'static>(
    bevy::input::ButtonInput<T>,
);

/// The engine's name for a key, by its place on the keyboard.
#[verifier::external_type_specification]
#[verifier::external_body]
pub struct ExKeyCode(bevy::input::keyboard::KeyCode);

/// The keys that the controls are bound to, each under the engine's name
/// for it.
#[derive(Clone, Copy, Debug, PartialEq, Eq, Structural)]
pub enum Key {
    ArrowUp,
    ArrowDown,
    ArrowLeft,
    ArrowRight,
    Space,
}

/// Those of the bound keys that the record holds as down.
pub uninterp spec fn held_keys(input: ButtonInput<KeyCode>) -> Set<Key>;

/// `ButtonInput::pressed` for the key code of the same name as `key`: it
/// says whether the record holds that key as down. Nothing but the record
/// decides the answer.
#[verifier::external_body]
fn is_held(input: &ButtonInput<KeyCode>, key: Key) -> (held: bool)
    ensures
        held == held_keys(*input).contains(key),
{
    input.pressed(
        match key {
            Key::ArrowUp => KeyCode::ArrowUp,
            Key::ArrowDown => KeyCode::ArrowDown,
            Key::ArrowLeft => KeyCode::ArrowLeft,
            Key::ArrowRight => KeyCode::ArrowRight,
            Key::Space => KeyCode::Space,
        },
    )
}

/// The key state that a set of held keys stands for: the arrows steer and
/// the space bar jumps.
pub open spec fn key_state_of(held: Set<Key>) -> KeyState {
    KeyState {
        up: held.contains(Key::ArrowUp),
        down: held.contains(Key::ArrowDown),
        left: held.contains(Key::ArrowLeft),
        right: held.contains(Key::ArrowRight),
        jump: held.contains(Key::Space),
    }
}

/// The level of each bound key in this frame.
pub fn read_keys(input: &ButtonInput<KeyCode>) -> (keys: KeyState)
    ensures
        keys == key_state_of(held_keys(*input)),
{
    KeyState {
        up: is_held(input, Key::ArrowUp),
        down: is_held(input, Key::ArrowDown),
        left: is_held(input, Key::ArrowLeft),
        right: is_held(input, Key::ArrowRight),
        jump: is_held(input, Key::Space),
    }
}

} // verus!
