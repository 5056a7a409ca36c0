//! Text for the HUD chips: the stats HUD's memory readouts and the debug HUD's
//! per-pass timing and system-budget lines.

pub mod debug_hud;
pub mod millis;
pub mod stat_hud;
pub mod loading_overlay;
