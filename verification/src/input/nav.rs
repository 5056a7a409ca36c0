//! Menu navigation from the held d-pad directions.

use vstd::prelude::*;

verus! {

/// A menu focus movement.
#[derive(Clone, Copy, Debug, PartialEq, Eq, Structural)]
pub enum NavDirection {
    Up,
    Down,
    Left,
    Right,
}

/// Held d-pad directions, in `[up, down, left, right]` order.
pub type DpadHeld = [bool; 4];

/// The direction of d-pad slot `i` in `[up, down, left, right]` order.
pub open spec fn slot_direction(i: int) -> NavDirection {
    if i == 0 {
        NavDirection::Up
    } else if i == 1 {
        NavDirection::Down
    } else if i == 2 {
        NavDirection::Left
    } else {
        NavDirection::Right
    }
}

/// The held d-pad direction, or `None`. With several held, the first in
/// `[up, down, left, right]` order wins.
pub fn dpad_direction(dpad: DpadHeld) -> (r: Option<NavDirection>)
    ensures
        match r {
            Some(d) => exists|i: int|
                0 <= i < 4 && dpad@[i] && d == slot_direction(i) && forall|j: int|
                    0 <= j < i ==> !#[trigger] dpad@[j],
            None => forall|i: int| 0 <= i < 4 ==> !#[trigger] dpad@[i],
        },
{
    if dpad[0] {
        assert(dpad@[0] && slot_direction(0) == NavDirection::Up);
        Some(NavDirection::Up)
    } else if dpad[1] {
        assert(dpad@[1] && slot_direction(1) == NavDirection::Down && !dpad@[0]);
        Some(NavDirection::Down)
    } else if dpad[2] {
        assert(dpad@[2] && slot_direction(2) == NavDirection::Left && !dpad@[0] && !dpad@[1]);
        Some(NavDirection::Left)
    } else if dpad[3] {
        assert(dpad@[3] && slot_direction(3) == NavDirection::Right && !dpad@[0] && !dpad@[1]
            && !dpad@[2]);
        Some(NavDirection::Right)
    } else {
        None
    }
}

} // verus!
