//! Input shaping that needs no OS access: the gamepad button and active-pad
//! fold, and the d-pad's navigation direction.

pub mod gamepad;
pub mod nav;
