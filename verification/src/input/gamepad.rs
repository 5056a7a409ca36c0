//! The gamepad button and active-pad fold. One gamepad is active at a time:
//! the most recently used pad wins, and a disconnect clears the state so no
//! input sticks. Stick deflections are real numbers and are stored by the
//! caller; this fold decides, per event, whether the stored deflections are
//! dropped and which axis takes the new value.

use vstd::prelude::*;

verus! {

/// A gamepad button, in declaration order (which is also bit order).
#[derive(Clone, Copy, Debug, PartialEq, Eq, Structural)]
pub enum GamepadButton {
    South,
    East,
    West,
    North,
    LeftShoulder,
    LeftTrigger,
    RightShoulder,
    RightTrigger,
    LeftStick,
    RightStick,
    DpadUp,
    DpadDown,
    DpadLeft,
    DpadRight,
    Start,
    Select,
}

/// How many buttons there are.
pub const BUTTON_COUNT: u32 = 16;

/// A button's position in declaration order.
pub open spec fn button_index(button: GamepadButton) -> u32 {
    match button {
        GamepadButton::South => 0,
        GamepadButton::East => 1,
        GamepadButton::West => 2,
        GamepadButton::North => 3,
        GamepadButton::LeftShoulder => 4,
        GamepadButton::LeftTrigger => 5,
        GamepadButton::RightShoulder => 6,
        GamepadButton::RightTrigger => 7,
        GamepadButton::LeftStick => 8,
        GamepadButton::RightStick => 9,
        GamepadButton::DpadUp => 10,
        GamepadButton::DpadDown => 11,
        GamepadButton::DpadLeft => 12,
        GamepadButton::DpadRight => 13,
        GamepadButton::Start => 14,
        GamepadButton::Select => 15,
    }
}

/// The button at a position in declaration order.
pub open spec fn button_at(i: u32) -> GamepadButton {
    if i == 0 {
        GamepadButton::South
    } else if i == 1 {
        GamepadButton::East
    } else if i == 2 {
        GamepadButton::West
    } else if i == 3 {
        GamepadButton::North
    } else if i == 4 {
        GamepadButton::LeftShoulder
    } else if i == 5 {
        GamepadButton::LeftTrigger
    } else if i == 6 {
        GamepadButton::RightShoulder
    } else if i == 7 {
        GamepadButton::RightTrigger
    } else if i == 8 {
        GamepadButton::LeftStick
    } else if i == 9 {
        GamepadButton::RightStick
    } else if i == 10 {
        GamepadButton::DpadUp
    } else if i == 11 {
        GamepadButton::DpadDown
    } else if i == 12 {
        GamepadButton::DpadLeft
    } else if i == 13 {
        GamepadButton::DpadRight
    } else if i == 14 {
        GamepadButton::Start
    } else {
        GamepadButton::Select
    }
}

/// Bit `i` of `x` is set.
pub open spec fn has_bit(x: u32, i: u32) -> bool {
    (x >> i) & 1u32 == 1u32
}

/// A button's bit in a held or pressed mask.
pub open spec fn button_bit(button: GamepadButton) -> u32 {
    1u32 << button_index(button)
}

impl GamepadButton {
    /// The button's position in declaration order.
    pub fn index(self) -> (r: u32)
        ensures
            r == button_index(self),
            r < BUTTON_COUNT,
    {
        match self {
            GamepadButton::South => 0,
            GamepadButton::East => 1,
            GamepadButton::West => 2,
            GamepadButton::North => 3,
            GamepadButton::LeftShoulder => 4,
            GamepadButton::LeftTrigger => 5,
            GamepadButton::RightShoulder => 6,
            GamepadButton::RightTrigger => 7,
            GamepadButton::LeftStick => 8,
            GamepadButton::RightStick => 9,
            GamepadButton::DpadUp => 10,
            GamepadButton::DpadDown => 11,
            GamepadButton::DpadLeft => 12,
            GamepadButton::DpadRight => 13,
            GamepadButton::Start => 14,
            GamepadButton::Select => 15,
        }
    }

    /// The button at a position in declaration order.
    pub fn from_index(i: u32) -> (r: GamepadButton)
        requires
            i < BUTTON_COUNT,
        ensures
            r == button_at(i),
            button_index(r) == i,
    {
        match i {
            0 => GamepadButton::South,
            1 => GamepadButton::East,
            2 => GamepadButton::West,
            3 => GamepadButton::North,
            4 => GamepadButton::LeftShoulder,
            5 => GamepadButton::LeftTrigger,
            6 => GamepadButton::RightShoulder,
            7 => GamepadButton::RightTrigger,
            8 => GamepadButton::LeftStick,
            9 => GamepadButton::RightStick,
            10 => GamepadButton::DpadUp,
            11 => GamepadButton::DpadDown,
            12 => GamepadButton::DpadLeft,
            13 => GamepadButton::DpadRight,
            14 => GamepadButton::Start,
            _ => GamepadButton::Select,
        }
    }
}

/// A button's bit in a held or pressed mask.
pub fn bit(button: GamepadButton) -> (r: u32)
    ensures
        r == button_bit(button),
{
    1u32 << button.index()
}

proof fn lemma_button_bit(button: GamepadButton, i: u32)
    requires
        i < 32,
    ensures
        has_bit(button_bit(button), i) == (i == button_index(button)),
{
    let b = button_index(button);
    assert(b < 16);
    assert((((1u32 << b) >> i) & 1u32 == 1u32) <==> (i == b)) by (bit_vector)
        requires
            b < 16,
            i < 32,
    ;
}

proof fn lemma_bits_or_and(x: u32, y: u32, i: u32)
    requires
        i < 32,
    ensures
        has_bit(x | y, i) == (has_bit(x, i) || has_bit(y, i)),
        has_bit(x & !y, i) == (has_bit(x, i) && !has_bit(y, i)),
{
    assert((((x | y) >> i) & 1u32 == 1u32) <==> (((x >> i) & 1u32 == 1u32) || ((y >> i) & 1u32
        == 1u32))) by (bit_vector)
        requires
            i < 32,
    ;
    assert((((x & !y) >> i) & 1u32 == 1u32) <==> (((x >> i) & 1u32 == 1u32) && !((y >> i) & 1u32
        == 1u32))) by (bit_vector)
        requires
            i < 32,
    ;
}

proof fn lemma_no_bits(i: u32)
    requires
        i < 32,
    ensures
        !has_bit(0u32, i),
{
    assert(!((0u32 >> i) & 1u32 == 1u32)) by (bit_vector);
}

/// A stick axis in the raw gamepad convention.
#[derive(Clone, Copy, Debug, PartialEq, Eq, Structural)]
pub enum PadAxis {
    LeftX,
    LeftY,
    RightX,
    RightY,
}

/// A backend-agnostic gamepad event. An axis event carries whether its
/// deflection is deliberate (past the activation threshold), which is all the
/// fold reads of it.
#[derive(Clone, Copy, Debug, PartialEq, Eq, Structural)]
pub enum PadEvent {
    Connected { pad: u32 },
    Disconnected { pad: u32 },
    Button { pad: u32, button: GamepadButton, pressed: bool },
    Axis { pad: u32, axis: PadAxis, deliberate: bool },
}

/// What the caller does with its stored stick deflections after an event:
/// zero them all (`reset`), then store the event's value on `store`.
#[derive(Clone, Copy, Debug, PartialEq, Eq, Structural)]
pub struct PadUpdate {
    pub reset: bool,
    pub store: Option<PadAxis>,
}

/// The active pad, its held buttons, and its press edges since the last
/// snapshot.
#[derive(Clone, Copy, Debug, PartialEq, Eq, Structural)]
pub struct PadState {
    pub active: Option<u32>,
    pub held: u32,
    pub pressed: u32,
}

/// The state with no active pad and nothing held or pressed.
pub open spec fn cleared() -> PadState {
    PadState { active: None, held: 0, pressed: 0 }
}

/// The state just after `pad` claims the active slot.
pub open spec fn claimed(pad: u32) -> PadState {
    PadState { active: Some(pad), held: 0, pressed: 0 }
}

/// The state after a button event on the active pad.
pub open spec fn with_button(s: PadState, button: GamepadButton, pressed: bool) -> PadState {
    if pressed {
        PadState {
            held: s.held | button_bit(button),
            pressed: s.pressed | button_bit(button),
            ..s
        }
    } else {
        PadState { held: s.held & !button_bit(button), ..s }
    }
}

/// The state and the caller's update after folding one event into `s`.
pub open spec fn fold(s: PadState, e: PadEvent) -> (PadState, PadUpdate) {
    let nothing = PadUpdate { reset: false, store: None };
    match e {
        PadEvent::Connected { pad } => if s.active is None {
            (PadState { active: Some(pad), ..s }, nothing)
        } else {
            (s, nothing)
        },
        PadEvent::Disconnected { pad } => if s.active == Some(pad) {
            (cleared(), PadUpdate { reset: true, store: None })
        } else {
            (s, nothing)
        },
        PadEvent::Button { pad, button, pressed } => if s.active == Some(pad) {
            (with_button(s, button, pressed), nothing)
        } else if !pressed {
            (s, nothing)
        } else {
            (with_button(claimed(pad), button, true), PadUpdate { reset: true, store: None })
        },
        PadEvent::Axis { pad, axis, deliberate } => if s.active == Some(pad) {
            (s, PadUpdate { reset: false, store: Some(axis) })
        } else if !deliberate {
            (s, nothing)
        } else {
            (claimed(pad), PadUpdate { reset: true, store: Some(axis) })
        },
    }
}

/// One frame's button input: buttons held, and press edges since the last
/// snapshot.
#[derive(Clone, Copy, Debug, PartialEq, Eq, Structural)]
pub struct PadSnapshot {
    pub held: u32,
    pub pressed: u32,
}

impl PadState {
    /// No active pad; nothing held or pressed.
    pub fn new() -> (r: Self)
        ensures
            r == cleared(),
    {
        PadState { active: None, held: 0, pressed: 0 }
    }

    /// Fold one event: a connect fills an empty slot, a disconnect of the
    /// active pad clears everything, a press (or a deliberate deflection) on
    /// another pad claims the slot and drops the old pad's state, and a stray
    /// release or idle drift on another pad is ignored.
    pub fn ingest(&mut self, event: PadEvent) -> (r: PadUpdate)
        ensures
            (*final(self), r) == fold(*old(self), event),
    {
        match event {
            PadEvent::Connected { pad } => {
                if self.active.is_none() {
                    self.active = Some(pad);
                }
                PadUpdate { reset: false, store: None }
            },
            PadEvent::Disconnected { pad } => {
                if self.active == Some(pad) {
                    *self = PadState::new();
                    PadUpdate { reset: true, store: None }
                } else {
                    PadUpdate { reset: false, store: None }
                }
            },
            PadEvent::Button { pad, button, pressed } => {
                let mut reset = false;
                if self.active != Some(pad) {
                    if !pressed {
                        return PadUpdate { reset: false, store: None };
                    }
                    self.switch_to(pad);
                    reset = true;
                }
                if pressed {
                    self.held = self.held | bit(button);
                    self.pressed = self.pressed | bit(button);
                } else {
                    self.held = self.held & !bit(button);
                }
                PadUpdate { reset, store: None }
            },
            PadEvent::Axis { pad, axis, deliberate } => {
                let mut reset = false;
                if self.active != Some(pad) {
                    if !deliberate {
                        return PadUpdate { reset: false, store: None };
                    }
                    self.switch_to(pad);
                    reset = true;
                }
                PadUpdate { reset, store: Some(axis) }
            },
        }
    }

    // Make `pad` the active gamepad, dropping the previous pad's state.
    fn switch_to(&mut self, pad: u32)
        ensures
            *final(self) == claimed(pad),
    {
        *self = PadState { active: Some(pad), held: 0, pressed: 0 };
    }

    /// This frame's button snapshot, draining the press edges.
    pub fn snapshot(&mut self) -> (r: PadSnapshot)
        ensures
            r == (PadSnapshot { held: old(self).held, pressed: old(self).pressed }),
            *final(self) == (PadState { pressed: 0, ..*old(self) }),
    {
        let pressed = self.pressed;
        self.pressed = 0;
        PadSnapshot { held: self.held, pressed }
    }
}

impl Default for PadState {
    /// No active pad; nothing held or pressed.
    fn default() -> (r: Self)
        ensures
            r == cleared(),
    {
        PadState::new()
    }
}

/// The first button, in declaration order, whose bit is set in `mask`.
pub open spec fn first_set(mask: u32) -> Option<GamepadButton> {
    if exists|i: u32| i < BUTTON_COUNT && has_bit(mask, i) {
        let i = choose|i: u32|
            i < BUTTON_COUNT && has_bit(mask, i) && forall|j: u32| j < i ==> !#[trigger] has_bit(mask, j);
        Some(button_at(i))
    } else {
        None
    }
}

impl PadSnapshot {
    /// Whether `button` is held.
    pub fn held(&self, button: GamepadButton) -> (r: bool)
        ensures
            r == has_bit(self.held, button_index(button)),
    {
        let b = bit(button);
        let h = self.held;
        let i = button.index();
        assert(((h & b) != 0u32) == (((h >> i) & 1u32) == 1u32)) by (bit_vector)
            requires
                b == 1u32 << i,
                i < 16,
        ;
        self.held & b != 0
    }

    /// Whether `button` was pressed since the last snapshot.
    pub fn pressed(&self, button: GamepadButton) -> (r: bool)
        ensures
            r == has_bit(self.pressed, button_index(button)),
    {
        let b = bit(button);
        let p = self.pressed;
        let i = button.index();
        assert(((p & b) != 0u32) == (((p >> i) & 1u32) == 1u32)) by (bit_vector)
            requires
                b == 1u32 << i,
                i < 16,
        ;
        self.pressed & b != 0
    }

    /// The button pressed this frame, or `None`; with several, the first in
    /// declaration order.
    pub fn first_pressed(&self) -> (r: Option<GamepadButton>)
        ensures
            match r {
                Some(b) => has_bit(self.pressed, button_index(b)) && forall|j: u32|
                    j < button_index(b) ==> !#[trigger] has_bit(self.pressed, j),
                None => forall|j: u32| j < BUTTON_COUNT ==> !#[trigger] has_bit(self.pressed, j),
            },
    {
        let mut i: u32 = 0;
        while i < BUTTON_COUNT
            invariant
                i <= BUTTON_COUNT,
                forall|j: u32| j < i ==> !#[trigger] has_bit(self.pressed, j),
            decreases BUTTON_COUNT - i,
        {
            let b = GamepadButton::from_index(i);
            if self.pressed(b) {
                return Some(b);
            }
            i += 1;
        }
        None
    }
}

/// Folding an event never leaves input on a missing pad: with no active pad,
/// nothing is held or pressed.
pub proof fn lemma_fold_keeps_idle_clear(s: PadState, e: PadEvent)
    requires
        s.active is None ==> s.held == 0 && s.pressed == 0,
    ensures
        fold(s, e).0.active is None ==> fold(s, e).0.held == 0 && fold(s, e).0.pressed == 0,
{
}

/// A press on the active pad holds the button and records its edge; a
/// release on the active pad lets it go but keeps the edge, so a press and
/// release inside one frame still surfaces. Other buttons are untouched.
pub proof fn lemma_press_and_release(s: PadState, pad: u32, button: GamepadButton, other: u32)
    requires
        s.active == Some(pad),
        other < 32,
        other != button_index(button),
    ensures
        ({
            let pressed = fold(s, PadEvent::Button { pad, button, pressed: true }).0;
            &&& has_bit(pressed.held, button_index(button))
            &&& has_bit(pressed.pressed, button_index(button))
            &&& has_bit(pressed.held, other) == has_bit(s.held, other)
        }),
        ({
            let released = fold(s, PadEvent::Button { pad, button, pressed: false }).0;
            &&& !has_bit(released.held, button_index(button))
            &&& released.pressed == s.pressed
            &&& has_bit(released.held, other) == has_bit(s.held, other)
        }),
{
    let b = button_index(button);
    lemma_button_bit(button, b as u32);
    lemma_button_bit(button, other);
    lemma_bits_or_and(s.held, button_bit(button), b as u32);
    lemma_bits_or_and(s.pressed, button_bit(button), b as u32);
    lemma_bits_or_and(s.held, button_bit(button), other);
}

/// A press on another pad claims the slot: only the pressed button is held.
pub proof fn lemma_switch_drops_old_pad(s: PadState, pad: u32, button: GamepadButton, other: u32)
    requires
        s.active != Some(pad),
        other < 32,
        other != button_index(button),
    ensures
        fold(s, PadEvent::Button { pad, button, pressed: true }).0.active == Some(pad),
        has_bit(fold(s, PadEvent::Button { pad, button, pressed: true }).0.held, button_index(button)),
        !has_bit(fold(s, PadEvent::Button { pad, button, pressed: true }).0.held, other),
{
    let b = button_index(button);
    lemma_button_bit(button, b as u32);
    lemma_button_bit(button, other);
    lemma_bits_or_and(0u32, button_bit(button), b as u32);
    lemma_bits_or_and(0u32, button_bit(button), other);
    lemma_no_bits(b as u32);
    lemma_no_bits(other);
}

/// A connect event only fills an empty slot: while a pad is active, another
/// pad connecting changes nothing and asks for no update; with none active,
/// the connecting pad becomes active with nothing held or pressed carried
/// away.
pub proof fn lemma_connect_fills_only_an_empty_slot(s: PadState, pad: u32)
    ensures
        s.active is Some ==> fold(s, PadEvent::Connected { pad }) == (
            s,
            PadUpdate { reset: false, store: None },
        ),
        s.active is None ==> fold(s, PadEvent::Connected { pad }).0.active == Some(pad),
        fold(s, PadEvent::Connected { pad }).0.held == s.held,
        fold(s, PadEvent::Connected { pad }).0.pressed == s.pressed,
        !fold(s, PadEvent::Connected { pad }).1.reset,
{
}

/// A second pad connecting does not take over: the active pad's release
/// still lets its button go afterwards.
pub proof fn lemma_release_after_other_connects(s: PadState, pad: u32, other: u32, button: GamepadButton)
    requires
        s.active == Some(pad),
    ensures
        fold(fold(s, PadEvent::Connected { pad: other }).0, PadEvent::Button { pad, button, pressed: false }).0.active
            == Some(pad),
        !has_bit(
            fold(fold(s, PadEvent::Connected { pad: other }).0, PadEvent::Button { pad, button, pressed: false }).0.held,
            button_index(button),
        ),
{
    lemma_connect_fills_only_an_empty_slot(s, other);
    let b = button_index(button);
    lemma_button_bit(button, b as u32);
    lemma_bits_or_and(s.held, button_bit(button), b as u32);
}

/// Only the active pad's disconnect clears the state (and zeroes the
/// sticks); any other pad's disconnect changes nothing.
pub proof fn lemma_disconnect_clears_only_the_active_pad(s: PadState, pad: u32)
    ensures
        s.active == Some(pad) ==> fold(s, PadEvent::Disconnected { pad }).0.active is None
            && fold(s, PadEvent::Disconnected { pad }).0.held == 0 && fold(s, PadEvent::Disconnected { pad }).0.pressed
            == 0 && fold(s, PadEvent::Disconnected { pad }).1.reset,
        s.active != Some(pad) ==> fold(s, PadEvent::Disconnected { pad }).0 == s && !fold(
            s,
            PadEvent::Disconnected { pad },
        ).1.reset,
{
}

/// A release from a pad that is not active is a stray and changes nothing.
pub proof fn lemma_stray_release_ignored(s: PadState, pad: u32, button: GamepadButton)
    requires
        s.active != Some(pad),
    ensures
        fold(s, PadEvent::Button { pad, button, pressed: false }).0 == s,
        !fold(s, PadEvent::Button { pad, button, pressed: false }).1.reset,
{
}

} // verus!
