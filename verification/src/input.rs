use vstd::prelude::*;

verus! {

/// A key that moves the camera.
#[derive(Debug, Clone, Copy, PartialEq, Eq, Structural)]
pub enum MoveKey {
    W,
    A,
    S,
    D,
    Space,
}

/// A direction in which the camera moves, relative to where it looks.
#[derive(Debug, Clone, Copy, PartialEq, Eq, Structural)]
pub enum Movement {
    Forward,
    Backward,
    Left,
    Right,
    Up,
    Down,
}

/// The movement that a key asks for. The space bar lifts the camera, and
/// lowers it while the left shift key alone is held.
pub fn movement_for_key(key: MoveKey, left_shift_only: bool) -> (m: Movement)
    ensures
        m == match key {
            MoveKey::W => Movement::Forward,
            MoveKey::S => Movement::Backward,
            MoveKey::A => Movement::Left,
            MoveKey::D => Movement::Right,
            MoveKey::Space => if left_shift_only {
                Movement::Down
            } else {
                Movement::Up
            },
        },
{
    match key {
        MoveKey::W => Movement::Forward,
        MoveKey::S => Movement::Backward,
        MoveKey::A => Movement::Left,
        MoveKey::D => Movement::Right,
        MoveKey::Space => if left_shift_only {
            Movement::Down
        } else {
            Movement::Up
        },
    }
}

/// A button of the mouse.
#[derive(Debug, Clone, Copy, PartialEq, Eq, Structural)]
pub enum Button {
    Left,
    Middle,
    Right,
    Other,
}

/// Whether the camera follows the mouse after a button went down
/// (`pressed`) or up: the right button switches it on and off, any other
/// button leaves it as it is.
pub fn drag_after(dragging: bool, button: Button, pressed: bool) -> (now: bool)
    ensures
        now == if button == Button::Right {
            pressed
        } else {
            dragging
        },
{
    match button {
        Button::Right => pressed,
        _ => dragging,
    }
}

} // verus!
