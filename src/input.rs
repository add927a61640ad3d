use vstd::prelude::*;

verus! {

/// A key as the game sees it, after the terminal's own key codes are mapped.
#[derive(Clone, Copy, PartialEq, Eq, Structural, Debug)]
pub enum KeyCode {
    Up,
    Down,
    Left,
    Right,
    ToggleAim,
    Wait,
    Escape,
}

} // verus!
