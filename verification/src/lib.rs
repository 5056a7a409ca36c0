//! Engine-side logic of a small game engine: transform hierarchy ordering,
//! HUD chip text, settings option mapping, and related bookkeeping.

pub mod count;
pub mod text;
pub mod gfx;
pub mod hud;
pub mod settings;
pub mod logic;
pub mod shutdown;
pub mod physics;
pub mod input;
pub mod resource;
pub mod platform;
