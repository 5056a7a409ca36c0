//! Which handler a settings command reaches: a (setting, request) pair goes
//! to its row family, or is rejected as misrouted when the request does not
//! fit the row (a slider fraction sent to a stepper row, a step sent to a
//! rebind row).

use vstd::prelude::*;
use crate::input::gamepad::GamepadButton;
use crate::settings::graphics::{BoolRow, DisplayRow, ShadowRow, SystemRow};
use crate::settings::options::SettingOp;

verus! {

/// Every setting the menu carries. A rebind row names the bindable action it
/// rebinds by its index.
#[derive(Clone, Copy, Debug, PartialEq, Eq, Structural)]
pub enum SettingKey {
    KeyRebind(u32),
    PadRebind(u32),
    Exposure,
    BloomIntensity,
    BloomThreshold,
    BloomKnee,
    Vignette,
    LutStrength,
    AmbientIntensity,
    SsaoRadius,
    SsaoIntensity,
    SsrIntensity,
    SsrMaxDistance,
    SsgiIntensity,
    SsgiMaxDistance,
    AutoExposureMinEv,
    AutoExposureMaxEv,
    AutoExposureSpeed,
    MouseSensitivity,
    GamepadLookSensitivity,
    GamepadDeadzone,
    Fov,
    GraphicsQuality,
    Resolution,
    Vsync,
    PerfStats,
    ShowFps,
    ShowVram,
    OcclusionTwoPass,
    TemporalUpscaling,
    HdrDisplay,
    HdrPq,
    MasterVolume,
    MusicVolume,
    SfxVolume,
    VoiceVolume,
    FpsCap,
    WindowMode,
    RenderScale,
    UpscaleBackend,
    Ssao,
    Ssr,
    RayTracedReflections,
    Ssgi,
    AutoExposure,
    AaMode,
    SsgiResolution,
    SsgiRays,
    SsgiSteps,
    ReflectionBlurResolution,
    ShadowMapSize,
    Anisotropy,
    ShadowUpdate,
    ShadowDistance,
    ShadowCascades,
    FramesInFlight,
    TextureQuality,
}

/// Which audio bus a volume row sets.
#[derive(Clone, Copy, Debug, PartialEq, Eq, Structural)]
pub enum VolumeRow {
    Master,
    Music,
    Sfx,
    Voice,
}

/// The handler a command reaches.
#[derive(Clone, Copy, Debug, PartialEq, Eq, Structural)]
pub enum Route {
    /// Rebind a keyboard action to the key the command carries.
    KeyRebind(u32),
    /// Rebind a gamepad action to a button.
    PadRebind(u32, GamepadButton),
    /// Move a slider to the fraction the command carries.
    Slider,
    /// Cycle the master quality preset.
    QualityPreset,
    /// Cycle the fullscreen display mode.
    Resolution,
    Bool(BoolRow),
    Volume(VolumeRow),
    Display(DisplayRow),
    Upscaler,
    /// Toggle a quality feature (SSAO, SSR, RT reflections, SSGI, auto-exposure).
    QualityToggle,
    /// Cycle a quality knob (AA mode, SSGI resolution, rays, steps, reflection blur).
    QualityCycle,
    Shadow(ShadowRow),
    System(SystemRow),
    /// The request does not fit the row: the command is dropped and logged.
    Misrouted,
}

/// Whether a setting is a slider row.
pub open spec fn is_slider(key: SettingKey) -> bool {
    match key {
        SettingKey::Exposure | SettingKey::BloomIntensity | SettingKey::BloomThreshold
        | SettingKey::BloomKnee | SettingKey::Vignette | SettingKey::LutStrength
        | SettingKey::AmbientIntensity | SettingKey::SsaoRadius | SettingKey::SsaoIntensity
        | SettingKey::SsrIntensity | SettingKey::SsrMaxDistance | SettingKey::SsgiIntensity
        | SettingKey::SsgiMaxDistance | SettingKey::AutoExposureMinEv
        | SettingKey::AutoExposureMaxEv | SettingKey::AutoExposureSpeed
        | SettingKey::MouseSensitivity | SettingKey::GamepadLookSensitivity
        | SettingKey::GamepadDeadzone | SettingKey::Fov => true,
        _ => false,
    }
}

/// Whether a request steps an option row: back, forward or a dropdown pick.
pub open spec fn is_stepper(op: SettingOp) -> bool {
    op is Prev || op is Next || op is SetIndex
}

/// The row a stepper key belongs to.
pub open spec fn stepper_route(key: SettingKey) -> Route {
    match key {
        SettingKey::GraphicsQuality => Route::QualityPreset,
        SettingKey::Resolution => Route::Resolution,
        SettingKey::Vsync => Route::Bool(BoolRow::Vsync),
        SettingKey::PerfStats => Route::Bool(BoolRow::PerfStats),
        SettingKey::ShowFps => Route::Bool(BoolRow::ShowFps),
        SettingKey::ShowVram => Route::Bool(BoolRow::ShowVram),
        SettingKey::OcclusionTwoPass => Route::Bool(BoolRow::OcclusionTwoPass),
        SettingKey::TemporalUpscaling => Route::Bool(BoolRow::TemporalUpscaling),
        SettingKey::HdrDisplay => Route::Bool(BoolRow::HdrDisplay),
        SettingKey::HdrPq => Route::Bool(BoolRow::HdrPq),
        SettingKey::MasterVolume => Route::Volume(VolumeRow::Master),
        SettingKey::MusicVolume => Route::Volume(VolumeRow::Music),
        SettingKey::SfxVolume => Route::Volume(VolumeRow::Sfx),
        SettingKey::VoiceVolume => Route::Volume(VolumeRow::Voice),
        SettingKey::FpsCap => Route::Display(DisplayRow::FpsCap),
        SettingKey::WindowMode => Route::Display(DisplayRow::WindowMode),
        SettingKey::RenderScale => Route::Display(DisplayRow::RenderScale),
        SettingKey::UpscaleBackend => Route::Upscaler,
        SettingKey::Ssao | SettingKey::Ssr | SettingKey::RayTracedReflections | SettingKey::Ssgi
        | SettingKey::AutoExposure => Route::QualityToggle,
        SettingKey::AaMode | SettingKey::SsgiResolution | SettingKey::SsgiRays
        | SettingKey::SsgiSteps | SettingKey::ReflectionBlurResolution => Route::QualityCycle,
        SettingKey::ShadowMapSize => Route::Shadow(ShadowRow::MapSize),
        SettingKey::Anisotropy => Route::Shadow(ShadowRow::Anisotropy),
        SettingKey::ShadowUpdate => Route::Shadow(ShadowRow::Update),
        SettingKey::ShadowDistance => Route::Shadow(ShadowRow::Distance),
        SettingKey::ShadowCascades => Route::Shadow(ShadowRow::Cascades),
        SettingKey::FramesInFlight => Route::System(SystemRow::FramesInFlight),
        SettingKey::TextureQuality => Route::System(SystemRow::TextureQuality),
        _ => Route::Misrouted,
    }
}

/// Where a command goes: a keyboard rebind row takes only a key rebind, a
/// gamepad rebind row only a button rebind, a slider only a fraction, and
/// every other row only a step; anything else is misrouted.
pub open spec fn route_of(key: SettingKey, op: SettingOp) -> Route {
    match key {
        SettingKey::KeyRebind(action) => match op {
            SettingOp::Rebind => Route::KeyRebind(action),
            _ => Route::Misrouted,
        },
        SettingKey::PadRebind(action) => match op {
            SettingOp::RebindButton(button) => Route::PadRebind(action, button),
            _ => Route::Misrouted,
        },
        _ => if is_slider(key) {
            if op is SetFraction {
                Route::Slider
            } else {
                Route::Misrouted
            }
        } else if !is_stepper(op) {
            Route::Misrouted
        } else {
            stepper_route(key)
        },
    }
}

/// Route one settings command to its row family's handler.
pub fn route_setting_command(key: SettingKey, op: SettingOp) -> (r: Route)
    ensures
        r == route_of(key, op),
{
    let stepper = match op {
        SettingOp::Prev | SettingOp::Next | SettingOp::SetIndex(_) => true,
        _ => false,
    };
    match key {
        SettingKey::KeyRebind(action) => match op {
            SettingOp::Rebind => Route::KeyRebind(action),
            _ => Route::Misrouted,
        },
        SettingKey::PadRebind(action) => match op {
            SettingOp::RebindButton(button) => Route::PadRebind(action, button),
            _ => Route::Misrouted,
        },
        SettingKey::Exposure | SettingKey::BloomIntensity | SettingKey::BloomThreshold
        | SettingKey::BloomKnee | SettingKey::Vignette | SettingKey::LutStrength
        | SettingKey::AmbientIntensity | SettingKey::SsaoRadius | SettingKey::SsaoIntensity
        | SettingKey::SsrIntensity | SettingKey::SsrMaxDistance | SettingKey::SsgiIntensity
        | SettingKey::SsgiMaxDistance | SettingKey::AutoExposureMinEv
        | SettingKey::AutoExposureMaxEv | SettingKey::AutoExposureSpeed
        | SettingKey::MouseSensitivity | SettingKey::GamepadLookSensitivity
        | SettingKey::GamepadDeadzone | SettingKey::Fov => match op {
            SettingOp::SetFraction => Route::Slider,
            _ => Route::Misrouted,
        },
        _ if !stepper => Route::Misrouted,
        SettingKey::GraphicsQuality => Route::QualityPreset,
        SettingKey::Resolution => Route::Resolution,
        SettingKey::Vsync => Route::Bool(BoolRow::Vsync),
        SettingKey::PerfStats => Route::Bool(BoolRow::PerfStats),
        SettingKey::ShowFps => Route::Bool(BoolRow::ShowFps),
        SettingKey::ShowVram => Route::Bool(BoolRow::ShowVram),
        SettingKey::OcclusionTwoPass => Route::Bool(BoolRow::OcclusionTwoPass),
        SettingKey::TemporalUpscaling => Route::Bool(BoolRow::TemporalUpscaling),
        SettingKey::HdrDisplay => Route::Bool(BoolRow::HdrDisplay),
        SettingKey::HdrPq => Route::Bool(BoolRow::HdrPq),
        SettingKey::MasterVolume => Route::Volume(VolumeRow::Master),
        SettingKey::MusicVolume => Route::Volume(VolumeRow::Music),
        SettingKey::SfxVolume => Route::Volume(VolumeRow::Sfx),
        SettingKey::VoiceVolume => Route::Volume(VolumeRow::Voice),
        SettingKey::FpsCap => Route::Display(DisplayRow::FpsCap),
        SettingKey::WindowMode => Route::Display(DisplayRow::WindowMode),
        SettingKey::RenderScale => Route::Display(DisplayRow::RenderScale),
        SettingKey::UpscaleBackend => Route::Upscaler,
        SettingKey::Ssao | SettingKey::Ssr | SettingKey::RayTracedReflections | SettingKey::Ssgi
        | SettingKey::AutoExposure => Route::QualityToggle,
        SettingKey::AaMode | SettingKey::SsgiResolution | SettingKey::SsgiRays
        | SettingKey::SsgiSteps | SettingKey::ReflectionBlurResolution => Route::QualityCycle,
        SettingKey::ShadowMapSize => Route::Shadow(ShadowRow::MapSize),
        SettingKey::Anisotropy => Route::Shadow(ShadowRow::Anisotropy),
        SettingKey::ShadowUpdate => Route::Shadow(ShadowRow::Update),
        SettingKey::ShadowDistance => Route::Shadow(ShadowRow::Distance),
        SettingKey::ShadowCascades => Route::Shadow(ShadowRow::Cascades),
        SettingKey::FramesInFlight => Route::System(SystemRow::FramesInFlight),
        SettingKey::TextureQuality => Route::System(SystemRow::TextureQuality),
    }
}

/// A misrouted command is exactly one whose request does not fit its row:
/// every well-formed pair reaches a handler.
pub proof fn lemma_misrouted_iff_mismatched(key: SettingKey, op: SettingOp)
    ensures
        route_of(key, op) == Route::Misrouted <==> match key {
            SettingKey::KeyRebind(_) => !(op is Rebind),
            SettingKey::PadRebind(_) => !(op is RebindButton),
            _ => if is_slider(key) {
                !(op is SetFraction)
            } else {
                !is_stepper(op)
            },
        },
{
}

/// Each volume row steps its own channel's volume, on every step request.
pub proof fn lemma_volume_keys_reach_their_channel(op: SettingOp)
    requires
        is_stepper(op),
    ensures
        route_of(SettingKey::MasterVolume, op) == Route::Volume(VolumeRow::Master),
        route_of(SettingKey::MusicVolume, op) == Route::Volume(VolumeRow::Music),
        route_of(SettingKey::SfxVolume, op) == Route::Volume(VolumeRow::Sfx),
        route_of(SettingKey::VoiceVolume, op) == Route::Volume(VolumeRow::Voice),
{
}

/// Two settings never share a row handler: a step request on two different
/// keys reaches two different routes, except that every quality feature
/// shares the toggle handler and every quality knob the cycle handler (each
/// looks its row up by key).
pub proof fn lemma_stepper_routes_distinct(k1: SettingKey, k2: SettingKey, op: SettingOp)
    requires
        is_stepper(op),
        route_of(k1, op) == route_of(k2, op),
        !(route_of(k1, op) is QualityToggle),
        !(route_of(k1, op) is QualityCycle),
        !(route_of(k1, op) is Misrouted),
    ensures
        k1 == k2,
{
}

} // verus!
