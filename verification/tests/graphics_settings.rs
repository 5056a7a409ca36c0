use concinnity_engine::input::gamepad::GamepadButton;
use concinnity_engine::settings::graphics::{
    apply_bool_row, apply_display_row, apply_frames_row, apply_quality_ceiling, apply_shadow_row,
    apply_texture_row, apply_upscaler_row, resolve_render_settings, AuthoredGraphics, BoolRow, DisplayMode,
    DisplayRow, GraphicsOverrides, GraphicsRows, PresetChoice, QualityCeiling, ShadowRow, StreamingPool,
};
use concinnity_engine::settings::options::{
    GpuVendor, SettingOp, ShadowUpdate, UpscaleQuality, UpscalerBackend, WindowMode,
};
use concinnity_engine::settings::route::{route_setting_command, Route, SettingKey, VolumeRow};

fn authored() -> AuthoredGraphics {
    AuthoredGraphics {
        vsync: true,
        perf_stats: true,
        show_fps: true,
        show_vram: true,
        occlusion_two_pass: false,
        temporal_upscaling: false,
        hdr_display: false,
        hdr_pq: false,
        fps_cap: 0,
        window_mode: WindowMode::Windowed,
        render_scale: UpscaleQuality::Quality,
        upscale_backend: UpscalerBackend::Auto,
        shadow_map_size: 4096,
        anisotropy: 16,
        shadow_update: ShadowUpdate::EveryFrame,
        shadow_distance: 320,
        shadow_cascades: 4,
        frames_in_flight: 2,
        streaming: None,
    }
}

fn no_choices() -> GraphicsOverrides {
    GraphicsOverrides {
        vsync: None,
        perf_stats: None,
        show_fps: None,
        show_vram: None,
        occlusion_two_pass: None,
        temporal_upscaling: None,
        hdr_display: None,
        hdr_pq: None,
        fps_cap: None,
        window_mode: None,
        render_scale: None,
        upscale_backend: None,
        shadow_map_size: None,
        anisotropy: None,
        shadow_update: None,
        shadow_distance: None,
        shadow_cascades: None,
        frames_in_flight: None,
        texture_cap: None,
        texture_budget: None,
        resolution: None,
        quality_preset: None,
    }
}

fn low_ceiling() -> QualityCeiling {
    QualityCeiling {
        shadow_map_size: 1024,
        shadow_update: ShadowUpdate::Hybrid,
        shadow_distance: 80,
        shadow_cascades: 2,
        anisotropy: 4,
        min_upscale: UpscaleQuality::Performance,
    }
}

fn open_ceiling() -> QualityCeiling {
    QualityCeiling {
        shadow_map_size: u32::MAX,
        shadow_update: ShadowUpdate::EveryFrame,
        shadow_distance: u32::MAX,
        shadow_cascades: u32::MAX,
        anisotropy: u32::MAX,
        min_upscale: UpscaleQuality::Quality,
    }
}

fn resolved_rows() -> GraphicsRows {
    resolve_render_settings(&authored(), &no_choices(), &open_ceiling(), None)
}

#[test]
fn authored_values_stand_without_choices_or_ceiling() {
    let r = resolved_rows();
    assert!(r.vsync);
    assert_eq!(r.shadow_map_size, 4096);
    assert_eq!(r.anisotropy, 16);
    assert_eq!(r.frames_in_flight, 2);
    assert_eq!(r.render_scale, UpscaleQuality::Quality);
    assert_eq!((r.texture_cap, r.texture_budget), (96, 4));
    assert_eq!(r.resolution, None);
}

#[test]
fn the_ceiling_clamps_governed_knobs_only() {
    let r = resolve_render_settings(&authored(), &no_choices(), &low_ceiling(), None);
    assert_eq!(r.shadow_map_size, 1024);
    assert_eq!(r.anisotropy, 4);
    assert_eq!(r.shadow_distance, 80);
    assert_eq!(r.shadow_cascades, 2);
    assert_eq!(r.shadow_update, ShadowUpdate::Hybrid);
    assert_eq!(r.render_scale, UpscaleQuality::Performance);
    assert!(r.vsync);
    assert_eq!(r.fps_cap, 0);
}

#[test]
fn saved_choices_win_over_world_and_ceiling() {
    let user = GraphicsOverrides {
        vsync: Some(false),
        fps_cap: Some(60),
        window_mode: Some(WindowMode::Fullscreen),
        shadow_map_size: Some(4096),
        render_scale: Some(UpscaleQuality::Quality),
        hdr_display: Some(true),
        resolution: Some(DisplayMode { width: 2560, height: 1440, refresh_hz: 144 }),
        ..no_choices()
    };
    let r = resolve_render_settings(&authored(), &user, &low_ceiling(), None);
    assert!(!r.vsync);
    assert_eq!(r.fps_cap, 60);
    assert_eq!(r.window_mode, WindowMode::Fullscreen);
    assert_eq!(r.shadow_map_size, 4096);
    assert_eq!(r.render_scale, UpscaleQuality::Quality);
    assert!(r.hdr_display);
    assert_eq!(r.anisotropy, 4);
    assert_eq!(r.resolution, Some(DisplayMode { width: 2560, height: 1440, refresh_hz: 144 }));
}

#[test]
fn saved_frames_in_flight_is_held_to_one_through_three() {
    for (saved, expected) in [(0, 1), (1, 1), (3, 3), (9, 3)] {
        let user = GraphicsOverrides { frames_in_flight: Some(saved), ..no_choices() };
        assert_eq!(resolve_render_settings(&authored(), &user, &open_ceiling(), None).frames_in_flight, expected);
    }
}

#[test]
fn saved_texture_pool_applies_only_where_the_world_streams() {
    let user = GraphicsOverrides { texture_cap: Some(384), texture_budget: Some(12), ..no_choices() };
    let r = resolve_render_settings(&authored(), &user, &open_ceiling(), None);
    assert_eq!((r.texture_cap, r.texture_budget), (96, 4));
    let streaming = AuthoredGraphics { streaming: Some(StreamingPool { cap: 48, budget: 2 }), ..authored() };
    let r = resolve_render_settings(&streaming, &user, &open_ceiling(), None);
    assert_eq!((r.texture_cap, r.texture_budget), (384, 12));
    let r = resolve_render_settings(&streaming, &no_choices(), &open_ceiling(), None);
    assert_eq!((r.texture_cap, r.texture_budget), (48, 2));
}

#[test]
fn a_preset_change_reclamps_and_forgets_governed_choices() {
    let mut rows = resolved_rows();
    let mut user = GraphicsOverrides { shadow_map_size: Some(2048), vsync: Some(false), ..no_choices() };
    apply_quality_ceiling(&mut rows, &mut user, &authored(), &low_ceiling(), PresetChoice::Tier(1));
    assert_eq!(rows.quality_preset, PresetChoice::Tier(1));
    assert_eq!(user.quality_preset, Some(PresetChoice::Tier(1)));
    assert_eq!(user.shadow_map_size, None);
    assert_eq!(user.vsync, Some(false));
    assert_eq!(rows.shadow_map_size, 1024);
    assert_eq!(rows.render_scale, UpscaleQuality::Performance);
}

#[test]
fn bool_row_flips_and_saves() {
    let mut rows = resolved_rows();
    let mut user = no_choices();
    assert_eq!(apply_bool_row(&mut rows, &mut user, BoolRow::Vsync, SettingOp::Next), 0);
    assert!(!rows.vsync);
    assert_eq!(user.vsync, Some(false));
    assert_eq!(apply_bool_row(&mut rows, &mut user, BoolRow::HdrPq, SettingOp::SetIndex(5)), 1);
    assert!(rows.hdr_pq);
    assert_eq!(user.hdr_pq, Some(true));
}

#[test]
fn shadow_rows_step_from_the_nearest_level() {
    let mut rows = resolved_rows();
    let mut user = no_choices();
    assert_eq!(apply_shadow_row(&mut rows, &mut user, ShadowRow::MapSize, SettingOp::Next), 0);
    assert_eq!(rows.shadow_map_size, 0);
    assert_eq!(user.shadow_map_size, Some(0));
    rows.anisotropy = 5;
    assert_eq!(apply_shadow_row(&mut rows, &mut user, ShadowRow::Anisotropy, SettingOp::Prev), 1);
    assert_eq!(rows.anisotropy, 2);
    assert_eq!(apply_shadow_row(&mut rows, &mut user, ShadowRow::Update, SettingOp::Next), 1);
    assert_eq!(rows.shadow_update, ShadowUpdate::Hybrid);
    assert_eq!(apply_shadow_row(&mut rows, &mut user, ShadowRow::Cascades, SettingOp::Next), 0);
    assert_eq!(rows.shadow_cascades, 2);
    assert_eq!(apply_shadow_row(&mut rows, &mut user, ShadowRow::Distance, SettingOp::SetIndex(1)), 1);
    assert_eq!(user.shadow_distance, Some(80));
}

#[test]
fn display_rows_cycle_and_save() {
    let mut rows = resolved_rows();
    let mut user = no_choices();
    assert_eq!(apply_display_row(&mut rows, &mut user, DisplayRow::FpsCap, SettingOp::Prev), 5);
    assert_eq!(rows.fps_cap, 240);
    assert_eq!(apply_display_row(&mut rows, &mut user, DisplayRow::WindowMode, SettingOp::Next), 1);
    assert_eq!(user.window_mode, Some(WindowMode::Borderless));
    assert_eq!(apply_display_row(&mut rows, &mut user, DisplayRow::RenderScale, SettingOp::SetIndex(3)), 3);
    assert_eq!(rows.render_scale, UpscaleQuality::UltraPerformance);
}

#[test]
fn upscaler_row_skips_vendor_locked_upscalers() {
    let mut rows = resolved_rows();
    let mut user = no_choices();
    rows.upscale_backend = UpscalerBackend::Fsr3;
    assert_eq!(apply_upscaler_row(&mut rows, &mut user, GpuVendor::Amd, SettingOp::Next), 0);
    assert_eq!(rows.upscale_backend, UpscalerBackend::Auto);
    assert_eq!(apply_upscaler_row(&mut rows, &mut user, GpuVendor::Amd, SettingOp::Prev), 1);
    assert_eq!(apply_upscaler_row(&mut rows, &mut user, GpuVendor::Nvidia, SettingOp::Next), 2);
    assert_eq!(user.upscale_backend, Some(UpscalerBackend::Dlss));
    rows.upscale_backend = UpscalerBackend::Fsr3;
    assert_eq!(apply_upscaler_row(&mut rows, &mut user, GpuVendor::Intel, SettingOp::Next), 3);
}

#[test]
fn system_rows_set_depth_and_texture_pool() {
    let mut rows = resolved_rows();
    let mut user = no_choices();
    assert_eq!(apply_frames_row(&mut rows, &mut user, SettingOp::Next), 2);
    assert_eq!(rows.frames_in_flight, 3);
    assert_eq!(user.frames_in_flight, Some(3));
    assert_eq!(apply_texture_row(&mut rows, &mut user, SettingOp::Next), 2);
    assert_eq!((rows.texture_cap, rows.texture_budget), (192, 8));
    assert_eq!((user.texture_cap, user.texture_budget), (Some(192), Some(8)));
}

#[test]
fn rebind_rows_take_only_rebinds() {
    assert_eq!(route_setting_command(SettingKey::KeyRebind(2), SettingOp::Rebind), Route::KeyRebind(2));
    assert_eq!(route_setting_command(SettingKey::KeyRebind(2), SettingOp::Next), Route::Misrouted);
    assert_eq!(
        route_setting_command(SettingKey::PadRebind(1), SettingOp::RebindButton(GamepadButton::South)),
        Route::PadRebind(1, GamepadButton::South)
    );
    assert_eq!(route_setting_command(SettingKey::PadRebind(1), SettingOp::Rebind), Route::Misrouted);
}

#[test]
fn sliders_take_only_fractions() {
    assert_eq!(route_setting_command(SettingKey::Fov, SettingOp::SetFraction), Route::Slider);
    assert_eq!(route_setting_command(SettingKey::Exposure, SettingOp::Next), Route::Misrouted);
}

#[test]
fn stepper_rows_take_only_steps() {
    assert_eq!(route_setting_command(SettingKey::Vsync, SettingOp::Next), Route::Bool(BoolRow::Vsync));
    assert_eq!(route_setting_command(SettingKey::Vsync, SettingOp::SetFraction), Route::Misrouted);
    assert_eq!(route_setting_command(SettingKey::SfxVolume, SettingOp::Prev), Route::Volume(VolumeRow::Sfx));
    assert_eq!(route_setting_command(SettingKey::Anisotropy, SettingOp::SetIndex(0)), Route::Shadow(ShadowRow::Anisotropy));
    assert_eq!(route_setting_command(SettingKey::GraphicsQuality, SettingOp::Next), Route::QualityPreset);
    assert_eq!(route_setting_command(SettingKey::Ssgi, SettingOp::Next), Route::QualityToggle);
    assert_eq!(route_setting_command(SettingKey::UpscaleBackend, SettingOp::Rebind), Route::Misrouted);
}

use concinnity_engine::settings::quality_rows::{
    is_quality_toggle, option_count, quality_cycle, quality_toggle, QUALITY_CYCLE_ROWS, QUALITY_TOGGLE_ROWS,
};

#[test]
fn toggle_rows_follow_the_core_toggle_order() {
    let keys: Vec<SettingKey> = QUALITY_TOGGLE_ROWS.to_vec();
    assert_eq!(
        keys,
        vec![
            SettingKey::Ssao,
            SettingKey::Ssr,
            SettingKey::RayTracedReflections,
            SettingKey::Ssgi,
            SettingKey::AutoExposure,
        ]
    );
}

#[test]
fn cycle_rows_are_unique_static_option_rows() {
    let mut seen = Vec::new();
    for key in QUALITY_CYCLE_ROWS {
        assert!(!seen.contains(&key), "{:?} is listed twice", key);
        seen.push(key);
        assert!(!is_quality_toggle(key), "{:?}", key);
        assert!(option_count(key).is_some(), "{:?}", key);
    }
}

#[test]
fn lookups_find_their_own_rows_only() {
    for (i, key) in QUALITY_TOGGLE_ROWS.into_iter().enumerate() {
        assert_eq!(quality_toggle(key), Some(i));
        assert_eq!(quality_cycle(key), None);
    }
    for (i, key) in QUALITY_CYCLE_ROWS.into_iter().enumerate() {
        assert_eq!(quality_cycle(key), Some(i));
        assert_eq!(quality_toggle(key), None);
    }
    assert_eq!(quality_toggle(SettingKey::Vsync), None);
    assert_eq!(quality_cycle(SettingKey::Vsync), None);
    assert_eq!(option_count(SettingKey::Anisotropy), Some(5));
    assert_eq!(option_count(SettingKey::Fov), None);
}

use concinnity_engine::settings::apply::{apply_setting_command, Applied};

#[test]
fn launch_preset_wins_over_the_saved_one() {
    let user = GraphicsOverrides { quality_preset: Some(PresetChoice::Tier(2)), ..no_choices() };
    assert_eq!(resolve_render_settings(&authored(), &user, &open_ceiling(), None).quality_preset, PresetChoice::Tier(2));
    assert_eq!(
        resolve_render_settings(&authored(), &user, &open_ceiling(), Some(PresetChoice::Custom)).quality_preset,
        PresetChoice::Custom
    );
    assert_eq!(resolved_rows().quality_preset, PresetChoice::Auto);
}

#[test]
fn governed_rows_opt_the_preset_out_to_custom() {
    let mut rows = resolved_rows();
    let mut user = no_choices();
    let r = apply_setting_command(&mut rows, &mut user, GpuVendor::Amd, SettingKey::ShadowCascades, SettingOp::Next);
    assert_eq!(r, Applied::Row(0));
    assert_eq!(rows.shadow_cascades, 2);
    assert_eq!(rows.quality_preset, PresetChoice::Custom);
    assert_eq!(user.quality_preset, Some(PresetChoice::Custom));

    let mut rows = resolved_rows();
    let mut user = no_choices();
    let r = apply_setting_command(&mut rows, &mut user, GpuVendor::Amd, SettingKey::RenderScale, SettingOp::Next);
    assert_eq!(r, Applied::Row(1));
    assert_eq!(rows.quality_preset, PresetChoice::Custom);

    let mut rows = resolved_rows();
    let mut user = no_choices();
    let r = apply_setting_command(&mut rows, &mut user, GpuVendor::Amd, SettingKey::FpsCap, SettingOp::Next);
    assert_eq!(r, Applied::Row(1));
    assert_eq!(rows.fps_cap, 30);
    assert_eq!(rows.quality_preset, PresetChoice::Auto);
    assert_eq!(user.quality_preset, None);
}

#[test]
fn a_vendor_locked_upscaler_pick_is_ignored() {
    let mut rows = resolved_rows();
    let mut user = no_choices();
    let before = rows;
    let r = apply_setting_command(&mut rows, &mut user, GpuVendor::Amd, SettingKey::UpscaleBackend, SettingOp::SetIndex(2));
    assert_eq!(r, Applied::Ignored);
    assert_eq!(rows, before);
    assert_eq!(user, no_choices());
    let r = apply_setting_command(&mut rows, &mut user, GpuVendor::Nvidia, SettingKey::UpscaleBackend, SettingOp::SetIndex(2));
    assert_eq!(r, Applied::Row(2));
    assert_eq!(rows.upscale_backend, UpscalerBackend::Dlss);
}

#[test]
fn other_commands_change_no_graphics_setting() {
    let mut rows = resolved_rows();
    let mut user = no_choices();
    let before = rows;
    assert_eq!(
        apply_setting_command(&mut rows, &mut user, GpuVendor::Amd, SettingKey::Vsync, SettingOp::SetFraction),
        Applied::Misrouted
    );
    assert_eq!(
        apply_setting_command(&mut rows, &mut user, GpuVendor::Amd, SettingKey::MasterVolume, SettingOp::Next),
        Applied::Elsewhere(Route::Volume(VolumeRow::Master))
    );
    assert_eq!(rows, before);
    assert_eq!(user, no_choices());
}
