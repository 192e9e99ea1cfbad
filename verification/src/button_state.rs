//! Per-button press state with an age in ticks, for edge detection.

use vstd::prelude::*;

verus! {

/// How long a button has been in its current position, in ticks: 0
/// means it changed this tick.
#[derive(Clone, Copy, Debug, Hash, PartialEq, Eq, Structural)]
pub enum ButtonState {
    Pressed(u32),
    Released(u32),
}

impl ButtonState {
    /// Whether the button is currently down.
    pub fn pressed(&self) -> (r: bool)
        ensures
            r == (self is Pressed),
    {
        match self {
            ButtonState::Pressed(_) => true,
            _ => false,
        }
    }

    /// Whether the button went down this very tick.
    pub fn just_pressed(&self) -> (r: bool)
        ensures
            r == (*self == ButtonState::Pressed(0)),
    {
        matches!(*self, ButtonState::Pressed(0))
    }

    /// Whether the button came up this very tick.
    pub fn just_released(&self) -> (r: bool)
        ensures
            r == (*self == ButtonState::Released(0)),
    {
        matches!(*self, ButtonState::Released(0))
    }

    /// Whether the button has been down for at most the given number
    /// of ticks.
    pub fn pressed_within(&self, ticks: u32) -> (r: bool)
        ensures
            r == (self matches ButtonState::Pressed(t) && t <= ticks),
    {
        match self {
            ButtonState::Pressed(t) => *t <= ticks,
            _ => false,
        }
    }

    /// The state one tick later, given whether the button is down now:
    /// the age grows while the position holds and resets to 0 when it
    /// changes.
    pub fn next_state(&self, pressed: bool) -> (r: Self)
        requires
            self matches ButtonState::Pressed(t) ==> (pressed ==> t < u32::MAX),
            self matches ButtonState::Released(t) ==> (!pressed ==> t < u32::MAX),
        ensures
            self matches ButtonState::Pressed(t) ==> (if pressed {
                r == ButtonState::Pressed((t + 1) as u32)
            } else {
                r == ButtonState::Released(0)
            }),
            self matches ButtonState::Released(t) ==> (if !pressed {
                r == ButtonState::Released((t + 1) as u32)
            } else {
                r == ButtonState::Pressed(0)
            }),
    {
        match (self, pressed) {
            (ButtonState::Pressed(ticks), true) => ButtonState::Pressed(*ticks + 1),
            (ButtonState::Released(ticks), false) => ButtonState::Released(*ticks + 1),
            (ButtonState::Pressed(_), false) => ButtonState::Released(0),
            (ButtonState::Released(_), true) => ButtonState::Pressed(0),
        }
    }

    /// Replace this state with the state one tick later.
    pub fn next_state_mut(&mut self, pressed: bool)
        requires
            *old(self) matches ButtonState::Pressed(t) ==> (pressed ==> t < u32::MAX),
            *old(self) matches ButtonState::Released(t) ==> (!pressed ==> t < u32::MAX),
        ensures
            *old(self) matches ButtonState::Pressed(t) ==> (if pressed {
                *final(self) == ButtonState::Pressed((t + 1) as u32)
            } else {
                *final(self) == ButtonState::Released(0)
            }),
            *old(self) matches ButtonState::Released(t) ==> (if !pressed {
                *final(self) == ButtonState::Released((t + 1) as u32)
            } else {
                *final(self) == ButtonState::Pressed(0)
            }),
    {
        *self = self.next_state(pressed);
    }
}

impl Default for ButtonState {
    /// A button starts released, freshly.
    fn default() -> (r: Self)
        ensures
            r == ButtonState::Released(0),
    {
        ButtonState::Released(0)
    }
}

} // verus!
