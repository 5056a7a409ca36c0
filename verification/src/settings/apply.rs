//! One settings command applied to the live graphics settings and the saved
//! choices: it reaches its row's handler, and a change to a row the quality
//! preset governs opts the preset out to Custom.

use vstd::prelude::*;
use crate::settings::graphics::{
    apply_bool_row, apply_display_row, apply_frames_row, apply_shadow_row, apply_texture_row,
    apply_upscaler_row, bit, bool_value, display_option, display_options, first_offered,
    offered_at, shadow_option, shadow_options, with_bool, with_bool_choice, with_display,
    with_display_choice, with_shadow, with_shadow_choice, DisplayRow, GraphicsOverrides,
    GraphicsRows, PresetChoice, SystemRow,
};
use crate::settings::levels::{level_or, nearest_index, FRAME_BUFFERING_COUNTS, TEXTURE_QUALITY_BUDGETS, TEXTURE_QUALITY_CAPS};
use crate::settings::options::{
    cycled, upscale_backend_at, upscale_backend_available, upscale_backend_of, upscale_backend_rank,
    GpuVendor, SettingOp,
};
use crate::settings::route::{route_of, route_setting_command, Route, SettingKey};

verus! {

/// What a command did.
#[derive(Clone, Copy, Debug, PartialEq, Eq, Structural)]
pub enum Applied {
    /// A graphics row moved to this option.
    Row(usize),
    /// The command belongs to another handler: a rebind, a slider, a volume,
    /// the preset row, a quality feature or knob, or the resolution.
    Elsewhere(Route),
    /// A dropdown pick of an upscaler the GPU vendor does not offer; nothing
    /// changed.
    Ignored,
    /// The request does not fit the row; nothing changed.
    Misrouted,
}

/// The live settings with the preset opted out to Custom.
pub open spec fn opted_out(rows: GraphicsRows) -> GraphicsRows {
    GraphicsRows { quality_preset: PresetChoice::Custom, ..rows }
}

/// The saved choices with Custom recorded as the preset.
pub open spec fn opted_out_choice(user: GraphicsOverrides) -> GraphicsOverrides {
    GraphicsOverrides { quality_preset: Some(PresetChoice::Custom), ..user }
}

/// What a command returns, and the live settings and saved choices it leaves.
/// Off/On, display, upscaler and system rows take the option their handler
/// selects and save it; a shadow, anisotropy or render-scale change also opts
/// the preset out to Custom; every other command changes nothing here.
pub open spec fn setting_outcome(
    rows: GraphicsRows,
    user: GraphicsOverrides,
    vendor: GpuVendor,
    key: SettingKey,
    op: SettingOp,
) -> (Applied, GraphicsRows, GraphicsOverrides) {
    match route_of(key, op) {
        Route::Bool(row) => {
            let i = cycled(bit(bool_value(rows, row)), 2, op);
            (Applied::Row(i as usize), with_bool(rows, row, i == 1), with_bool_choice(user, row, i == 1))
        },
        Route::Shadow(row) => {
            let i = cycled(shadow_option(rows, row), shadow_options(row), op);
            let next = with_shadow(rows, row, i);
            (Applied::Row(i as usize), opted_out(next), opted_out_choice(with_shadow_choice(user, row, next)))
        },
        Route::Display(row) => {
            let i = cycled(display_option(rows, row), display_options(row), op);
            let next = with_display(rows, row, i);
            let saved = with_display_choice(user, row, next);
            if row == DisplayRow::RenderScale {
                (Applied::Row(i as usize), opted_out(next), opted_out_choice(saved))
            } else {
                (Applied::Row(i as usize), next, saved)
            }
        },
        Route::Upscaler => if op is SetIndex && !offered_at(cycled(0, 4, op), vendor) {
            (Applied::Ignored, rows, user)
        } else {
            let i = first_offered(cycled(upscale_backend_rank(rows.upscale_backend), 4, op), op, vendor);
            (
                Applied::Row(i as usize),
                GraphicsRows { upscale_backend: upscale_backend_of(i), ..rows },
                GraphicsOverrides { upscale_backend: Some(upscale_backend_of(i)), ..user },
            )
        },
        Route::System(SystemRow::FramesInFlight) => {
            let i = cycled(nearest_index(FRAME_BUFFERING_COUNTS@, rows.frames_in_flight), 3, op);
            let depth = level_or(FRAME_BUFFERING_COUNTS@, i, 1);
            (
                Applied::Row(i as usize),
                GraphicsRows { frames_in_flight: depth, ..rows },
                GraphicsOverrides { frames_in_flight: Some(depth), ..user },
            )
        },
        Route::System(SystemRow::TextureQuality) => {
            let i = cycled(nearest_index(TEXTURE_QUALITY_CAPS@, rows.texture_cap), 4, op);
            (
                Applied::Row(i as usize),
                GraphicsRows {
                    texture_cap: TEXTURE_QUALITY_CAPS@[i],
                    texture_budget: TEXTURE_QUALITY_BUDGETS@[i],
                    ..rows
                },
                GraphicsOverrides {
                    texture_cap: Some(TEXTURE_QUALITY_CAPS@[i]),
                    texture_budget: Some(TEXTURE_QUALITY_BUDGETS@[i]),
                    ..user
                },
            )
        },
        Route::Misrouted => (Applied::Misrouted, rows, user),
        other => (Applied::Elsewhere(other), rows, user),
    }
}

fn opt_out(rows: &mut GraphicsRows, user: &mut GraphicsOverrides)
    ensures
        *final(rows) == opted_out(*old(rows)),
        *final(user) == opted_out_choice(*old(user)),
{
    rows.quality_preset = PresetChoice::Custom;
    user.quality_preset = Some(PresetChoice::Custom);
}

/// Apply one settings command to the live graphics settings and the saved
/// choices (see `setting_outcome`).
pub fn apply_setting_command(
    rows: &mut GraphicsRows,
    user: &mut GraphicsOverrides,
    vendor: GpuVendor,
    key: SettingKey,
    op: SettingOp,
) -> (r: Applied)
    ensures
        (r, *final(rows), *final(user)) == setting_outcome(*old(rows), *old(user), vendor, key, op),
{
    match route_setting_command(key, op) {
        Route::Bool(row) => Applied::Row(apply_bool_row(rows, user, row, op)),
        Route::Shadow(row) => {
            let i = apply_shadow_row(rows, user, row, op);
            opt_out(rows, user);
            Applied::Row(i)
        },
        Route::Display(row) => {
            let i = apply_display_row(rows, user, row, op);
            if row == DisplayRow::RenderScale {
                opt_out(rows, user);
            }
            Applied::Row(i)
        },
        Route::Upscaler => {
            if let SettingOp::SetIndex(pick) = op {
                let clamped = if pick < 3 { pick } else { 3 };
                if !upscale_backend_available(upscale_backend_at(clamped), vendor) {
                    return Applied::Ignored;
                }
            }
            Applied::Row(apply_upscaler_row(rows, user, vendor, op))
        },
        Route::System(SystemRow::FramesInFlight) => Applied::Row(apply_frames_row(rows, user, op)),
        Route::System(SystemRow::TextureQuality) => Applied::Row(apply_texture_row(rows, user, op)),
        Route::Misrouted => Applied::Misrouted,
        other => Applied::Elsewhere(other),
    }
}

} // verus!
