use concinnity_engine::input::gamepad::GamepadButton;
use concinnity_engine::platform::{native_platform, Platform};
use concinnity_engine::settings::rows::expand_dim_set;
use std::collections::HashSet;
use concinnity_engine::settings::levels::{
    anisotropy_at, anisotropy_index, fps_cap_at, fps_cap_index, frames_in_flight_at,
    frames_in_flight_index, nearest_count_index, shadow_cascades_at, shadow_cascades_index,
    shadow_distance_at, shadow_distance_index, shadow_resolution_at, shadow_resolution_index,
    ssgi_rays_at, ssgi_rays_index, ssgi_steps_at, ssgi_steps_index, texture_quality_at,
    texture_quality_index, ANISOTROPY_LEVELS, FPS_CAP_VALUES, FRAME_BUFFERING_COUNTS,
    SHADOW_CASCADES_VALUES, SHADOW_DISTANCE_VALUES, SHADOW_RESOLUTION_SIZES, SSGI_RAYS_COUNTS,
    SSGI_STEPS_COUNTS, TEXTURE_QUALITY_BUDGETS, TEXTURE_QUALITY_CAPS,
};
use concinnity_engine::settings::options::{
    aa_mode_at, aa_mode_index, cycle, reflection_blur_at, reflection_blur_index, render_scale_at,
    render_scale_index, setting_available, shadow_update_at, shadow_update_index,
    ssgi_resolution_at, ssgi_resolution_index, upscale_backend_at, upscale_backend_available,
    upscale_backend_index, window_mode_at, window_mode_index, AaMode, DeviceCapabilities,
    GpuVendor, ReflectionBlurResolution, SettingOp, ShadowUpdate, SsgiResolution, UpscaleQuality,
    UpscalerBackend, WindowMode, QUALITY_CYCLE_KEYS,
};

#[test]
fn stats_hud_toggles_are_off_then_on() {
    for key in ["perf_stats", "show_fps", "show_vram"] {
        let caps = DeviceCapabilities { ray_tracing: false, ..DeviceCapabilities::all() };
        assert!(setting_available(key, &caps), "{key}");
    }
}

#[test]
fn rt_toggle_gated_on_ray_tracing_capability() {
    let capable = DeviceCapabilities { ray_tracing: true, ..DeviceCapabilities::all() };
    let incapable = DeviceCapabilities { ray_tracing: false, ..DeviceCapabilities::all() };
    assert!(setting_available("ray_traced_reflections", &capable));
    assert!(!setting_available("ray_traced_reflections", &incapable));
    for key in ["vsync", "aa_mode", "ssao", "ssr", "ssgi", "auto_exposure"] {
        assert!(setting_available(key, &incapable), "{key} should be available");
    }
    assert!(setting_available("ray_traced_reflections", &DeviceCapabilities::default()));
}

#[test]
fn aa_mode_round_trips_and_orders_by_cost() {
    for (i, mode) in [AaMode::Off, AaMode::Fxaa, AaMode::Taa].into_iter().enumerate() {
        assert_eq!(aa_mode_index(mode), i);
        assert_eq!(aa_mode_at(i), mode);
    }
    assert_eq!(aa_mode_at(9), AaMode::Fxaa);
}

#[test]
fn fps_cap_round_trips_and_snaps() {
    for (i, &cap) in FPS_CAP_VALUES.iter().enumerate() {
        assert_eq!(fps_cap_index(cap), i);
        assert_eq!(fps_cap_at(i), cap);
    }
    assert_eq!(fps_cap_at(0), 0);
    assert_eq!(fps_cap_at(99), 0);
    assert_eq!(fps_cap_index(58), fps_cap_index(60));
    assert_eq!(fps_cap_index(1000), FPS_CAP_VALUES.len() - 1);
}

#[test]
fn cycle_next_wraps() {
    assert_eq!(cycle(0, 2, SettingOp::Next), 1);
    assert_eq!(cycle(1, 2, SettingOp::Next), 0);
}

#[test]
fn cycle_prev_wraps() {
    assert_eq!(cycle(0, 2, SettingOp::Prev), 1);
    assert_eq!(cycle(1, 2, SettingOp::Prev), 0);
}

#[test]
fn cycle_three_options() {
    assert_eq!(cycle(2, 3, SettingOp::Next), 0);
    assert_eq!(cycle(0, 3, SettingOp::Prev), 2);
}

#[test]
fn cycle_set_index_jumps_and_clamps() {
    assert_eq!(cycle(0, 4, SettingOp::SetIndex(2)), 2);
    assert_eq!(cycle(3, 4, SettingOp::SetIndex(0)), 0);
    assert_eq!(cycle(1, 4, SettingOp::SetIndex(9)), 3);
}

#[test]
fn cycle_treats_slider_and_rebind_ops_as_next() {
    for op in [SettingOp::SetFraction, SettingOp::Rebind, SettingOp::RebindButton(GamepadButton::North)] {
        assert_eq!(cycle(3, 4, op), 0);
        assert_eq!(cycle(1, 4, op), 2);
    }
    // One step forward then back lands where it started.
    for i in 0..5 {
        assert_eq!(cycle(cycle(i, 5, SettingOp::Next), 5, SettingOp::Prev), i);
    }
}

#[test]
fn window_mode_index_and_at_round_trip() {
    for m in [WindowMode::Windowed, WindowMode::Borderless, WindowMode::Fullscreen] {
        assert_eq!(window_mode_at(window_mode_index(m)), m);
    }
}

#[test]
fn ssgi_sub_quality_round_trips_and_snaps() {
    for r in [SsgiResolution::Full, SsgiResolution::Half, SsgiResolution::Quarter] {
        assert_eq!(ssgi_resolution_at(ssgi_resolution_index(r)), r);
    }
    for i in 0..SSGI_RAYS_COUNTS.len() {
        assert_eq!(ssgi_rays_index(ssgi_rays_at(i)), i);
    }
    for i in 0..SSGI_STEPS_COUNTS.len() {
        assert_eq!(ssgi_steps_index(ssgi_steps_at(i)), i);
    }
    assert_eq!(ssgi_rays_index(7), 1);
    assert_eq!(ssgi_rays_index(20), 2);
    assert_eq!(ssgi_steps_index(40), 3);
}

#[test]
fn reflection_blur_round_trips() {
    for r in [
        ReflectionBlurResolution::Full,
        ReflectionBlurResolution::Half,
        ReflectionBlurResolution::Quarter,
    ] {
        assert_eq!(reflection_blur_at(reflection_blur_index(r)), r);
    }
    assert!(QUALITY_CYCLE_KEYS.contains(&"reflection_blur_resolution"));
}

#[test]
fn display_toggles_are_off_on_cycle_rows() {
    for key in ["temporal_upscaling", "hdr_display", "hdr_pq"] {
        assert!(!QUALITY_CYCLE_KEYS.contains(&key), "{key} is not a quality cycle knob");
    }
}

#[test]
fn shadow_resolution_round_trips_and_snaps() {
    for i in 0..SHADOW_RESOLUTION_SIZES.len() {
        assert_eq!(shadow_resolution_index(shadow_resolution_at(i)), i);
    }
    assert_eq!(shadow_resolution_at(0), 0);
    assert_eq!(shadow_resolution_index(2048), 2);
    assert_eq!(shadow_resolution_index(1500), 1);
    assert_eq!(shadow_resolution_index(8192), 3);
}

#[test]
fn anisotropy_round_trips_and_snaps() {
    for i in 0..ANISOTROPY_LEVELS.len() {
        assert_eq!(anisotropy_index(anisotropy_at(i)), i);
    }
    assert_eq!(anisotropy_at(0), 1);
    assert_eq!(anisotropy_index(8), 3);
    assert_eq!(anisotropy_index(3), 1);
    assert_eq!(anisotropy_index(32), 4);
}

#[test]
fn shadow_distance_round_trips_and_snaps() {
    for i in 0..SHADOW_DISTANCE_VALUES.len() {
        assert_eq!(shadow_distance_index(shadow_distance_at(i)), i);
    }
    assert_eq!(shadow_distance_at(1), 80);
    assert_eq!(shadow_distance_index(80), 1);
    assert_eq!(shadow_distance_index(50), 0);
    assert_eq!(shadow_distance_index(1000), 3);
}

#[test]
fn shadow_cascades_round_trips_and_snaps() {
    for i in 0..SHADOW_CASCADES_VALUES.len() {
        assert_eq!(shadow_cascades_index(shadow_cascades_at(i)), i);
    }
    assert_eq!(shadow_cascades_at(2), 4);
    assert_eq!(shadow_cascades_index(4), 2);
    assert_eq!(shadow_cascades_at(9), 4);
    assert_eq!(shadow_cascades_index(1), 0);
}

#[test]
fn shadow_update_round_trips() {
    for u in [ShadowUpdate::EveryFrame, ShadowUpdate::Hybrid] {
        assert_eq!(shadow_update_at(shadow_update_index(u)), u);
    }
    assert_eq!(shadow_update_at(0), ShadowUpdate::EveryFrame);
}

#[test]
fn frame_buffering_round_trips_and_snaps() {
    for i in 0..FRAME_BUFFERING_COUNTS.len() {
        assert_eq!(frames_in_flight_index(frames_in_flight_at(i)), i);
    }
    assert_eq!(frames_in_flight_at(0), 1);
    assert_eq!(frames_in_flight_index(4), 2);
}

#[test]
fn texture_quality_pairs_cap_and_budget() {
    for i in 0..TEXTURE_QUALITY_CAPS.len() {
        let (cap, budget) = texture_quality_at(i);
        assert_eq!(texture_quality_index(cap), i);
        assert_eq!(cap, TEXTURE_QUALITY_CAPS[i]);
        assert_eq!(budget, TEXTURE_QUALITY_BUDGETS[i]);
    }
    assert_eq!(texture_quality_index(96), 1);
    assert_eq!(texture_quality_index(300), 3);
    assert_eq!(texture_quality_at(17), (384, 12));
}

#[test]
fn render_scale_index_and_at_round_trip() {
    for q in [
        UpscaleQuality::Quality,
        UpscaleQuality::Balanced,
        UpscaleQuality::Performance,
        UpscaleQuality::UltraPerformance,
    ] {
        assert_eq!(render_scale_at(render_scale_index(q)), q);
    }
}

#[test]
fn upscale_backend_round_trips_and_vendor_gates() {
    for b in [
        UpscalerBackend::Auto,
        UpscalerBackend::Fsr3,
        UpscalerBackend::Dlss,
        UpscalerBackend::Xess,
    ] {
        assert_eq!(upscale_backend_at(upscale_backend_index(b)), b);
    }
    for vendor in [GpuVendor::Apple, GpuVendor::Nvidia, GpuVendor::Amd, GpuVendor::Intel, GpuVendor::Other] {
        assert!(upscale_backend_available(UpscalerBackend::Auto, vendor));
        assert!(upscale_backend_available(UpscalerBackend::Fsr3, vendor));
    }
    assert!(upscale_backend_available(UpscalerBackend::Dlss, GpuVendor::Nvidia));
    assert!(!upscale_backend_available(UpscalerBackend::Dlss, GpuVendor::Amd));
    assert!(upscale_backend_available(UpscalerBackend::Xess, GpuVendor::Intel));
    assert!(!upscale_backend_available(UpscalerBackend::Xess, GpuVendor::Nvidia));
    assert!(setting_available("upscale_backend", &DeviceCapabilities::all()));
    assert!(!setting_available(
        "upscale_backend",
        &DeviceCapabilities { selectable_upscaler: false, ..DeviceCapabilities::all() }
    ));
}

#[test]
fn nearest_level_ties_pick_the_lower_level() {
    // 6 is as far from 4 as from 8: the lower level wins.
    assert_eq!(nearest_count_index(&[4, 8, 16], 6), 0);
    assert_eq!(nearest_count_index(&[4, 8, 16], 12), 1);
    assert_eq!(nearest_count_index(&[], 12), 0);
    assert_eq!(nearest_count_index(&[0, u32::MAX], u32::MAX - 1), 1);
}

#[test]
fn dim_set_expands_a_gated_value_label_to_its_whole_row() {
    let value = 3u32;
    let gated: HashSet<u32> = [value].into_iter().collect();
    let rows = vec![vec![1, 2, value, 4, 5], vec![10, 11]];
    let dim = expand_dim_set(&gated, &rows);
    for id in [1, 2, 3, 4, 5] {
        assert!(dim.contains(&id), "row A element {id} should dim");
    }
    assert!(!dim.contains(&10), "an unrelated row stays lit");
    assert!(!dim.contains(&11), "an unrelated row stays lit");
}

#[test]
fn dim_set_without_rows_falls_back_to_the_value_label() {
    let gated: HashSet<u32> = [7].into_iter().collect();
    assert_eq!(expand_dim_set(&gated, &[]), gated);
}

#[test]
fn every_target_has_a_native_platform() {
    assert_eq!(native_platform("macos"), Platform::Metal);
    assert_eq!(native_platform("windows"), Platform::DirectX);
    assert_eq!(native_platform("linux"), Platform::Vulkan);
    assert_eq!(native_platform("ios"), Platform::Metal);
    assert_eq!(native_platform("android"), Platform::Vulkan);
    assert_eq!(native_platform(""), Platform::Vulkan);
}
