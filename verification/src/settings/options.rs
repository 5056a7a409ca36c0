//! Enumerated settings and their option indices, option cycling, and which
//! settings a device can change.

use vstd::prelude::*;
use crate::text::str_eq;
use crate::input::gamepad::GamepadButton;

verus! {

/// How the game window is presented.
#[derive(Clone, Copy, Debug, PartialEq, Eq, Structural)]
pub enum WindowMode {
    Windowed,
    Borderless,
    Fullscreen,
}

/// The upscaler's quality mode (render scale).
#[derive(Clone, Copy, Debug, PartialEq, Eq, Structural)]
pub enum UpscaleQuality {
    Quality,
    Balanced,
    Performance,
    UltraPerformance,
}

/// Which upscaler drives temporal upscaling.
#[derive(Clone, Copy, Debug, PartialEq, Eq, Structural)]
pub enum UpscalerBackend {
    Auto,
    Fsr3,
    Dlss,
    Xess,
}

/// The GPU's vendor.
#[derive(Clone, Copy, Debug, PartialEq, Eq, Structural)]
pub enum GpuVendor {
    Apple,
    Nvidia,
    Amd,
    Intel,
    Other,
}

/// Anti-aliasing mode, in ascending cost.
#[derive(Clone, Copy, Debug, PartialEq, Eq, Structural)]
pub enum AaMode {
    Off,
    Fxaa,
    Taa,
}

/// Screen-space GI gather resolution, finest first.
#[derive(Clone, Copy, Debug, PartialEq, Eq, Structural)]
pub enum SsgiResolution {
    Full,
    Half,
    Quarter,
}

/// Reflection blur resolution, finest first.
#[derive(Clone, Copy, Debug, PartialEq, Eq, Structural)]
pub enum ReflectionBlurResolution {
    Full,
    Half,
    Quarter,
}

/// How often shadow maps are re-rendered.
#[derive(Clone, Copy, Debug, PartialEq, Eq, Structural)]
pub enum ShadowUpdate {
    EveryFrame,
    Hybrid,
}

/// A change requested on a setting row. A slider's fraction and a rebound
/// key travel with their requests elsewhere; option cycling reads neither.
#[derive(Clone, Copy, Debug, PartialEq, Eq, Structural)]
pub enum SettingOp {
    Prev,
    Next,
    SetIndex(usize),
    SetFraction,
    Rebind,
    RebindButton(GamepadButton),
}

/// What a device can do that some settings depend on.
#[derive(Clone, Copy, Debug, PartialEq, Eq, Structural)]
pub struct DeviceCapabilities {
    /// Hardware ray tracing.
    pub ray_tracing: bool,
    /// The upscaler can be chosen rather than being fixed.
    pub selectable_upscaler: bool,
}

impl DeviceCapabilities {
    /// Every capability present.
    pub fn all() -> (r: Self)
        ensures
            r.ray_tracing,
            r.selectable_upscaler,
    {
        DeviceCapabilities { ray_tracing: true, selectable_upscaler: true }
    }
}

impl Default for DeviceCapabilities {
    /// An unwired backend reports every capability, keeping every row live.
    fn default() -> (r: Self)
        ensures
            r.ray_tracing,
            r.selectable_upscaler,
    {
        Self::all()
    }
}

pub open spec fn window_mode_of(index: int) -> WindowMode {
    if index == 1 {
        WindowMode::Borderless
    } else if index == 2 {
        WindowMode::Fullscreen
    } else {
        WindowMode::Windowed
    }
}

pub open spec fn window_mode_rank(mode: WindowMode) -> int {
    match mode {
        WindowMode::Windowed => 0,
        WindowMode::Borderless => 1,
        WindowMode::Fullscreen => 2,
    }
}

/// The window mode for an option index (Windowed, Borderless, Fullscreen);
/// anything else is Windowed.
pub fn window_mode_at(index: usize) -> (r: WindowMode)
    ensures
        r == window_mode_of(index as int),
{
    match index {
        1 => WindowMode::Borderless,
        2 => WindowMode::Fullscreen,
        _ => WindowMode::Windowed,
    }
}

/// The option index of a window mode.
pub fn window_mode_index(mode: WindowMode) -> (r: usize)
    ensures
        r == window_mode_rank(mode),
{
    match mode {
        WindowMode::Windowed => 0,
        WindowMode::Borderless => 1,
        WindowMode::Fullscreen => 2,
    }
}

pub open spec fn render_scale_of(index: int) -> UpscaleQuality {
    if index == 1 {
        UpscaleQuality::Balanced
    } else if index == 2 {
        UpscaleQuality::Performance
    } else if index == 3 {
        UpscaleQuality::UltraPerformance
    } else {
        UpscaleQuality::Quality
    }
}

pub open spec fn render_scale_rank(quality: UpscaleQuality) -> int {
    match quality {
        UpscaleQuality::Quality => 0,
        UpscaleQuality::Balanced => 1,
        UpscaleQuality::Performance => 2,
        UpscaleQuality::UltraPerformance => 3,
    }
}

/// The upscale quality for an option index; anything else is Quality.
pub fn render_scale_at(index: usize) -> (r: UpscaleQuality)
    ensures
        r == render_scale_of(index as int),
{
    match index {
        1 => UpscaleQuality::Balanced,
        2 => UpscaleQuality::Performance,
        3 => UpscaleQuality::UltraPerformance,
        _ => UpscaleQuality::Quality,
    }
}

/// The option index of an upscale quality.
pub fn render_scale_index(quality: UpscaleQuality) -> (r: usize)
    ensures
        r == render_scale_rank(quality),
{
    match quality {
        UpscaleQuality::Quality => 0,
        UpscaleQuality::Balanced => 1,
        UpscaleQuality::Performance => 2,
        UpscaleQuality::UltraPerformance => 3,
    }
}

pub open spec fn upscale_backend_of(index: int) -> UpscalerBackend {
    if index == 1 {
        UpscalerBackend::Fsr3
    } else if index == 2 {
        UpscalerBackend::Dlss
    } else if index == 3 {
        UpscalerBackend::Xess
    } else {
        UpscalerBackend::Auto
    }
}

pub open spec fn upscale_backend_rank(backend: UpscalerBackend) -> int {
    match backend {
        UpscalerBackend::Auto => 0,
        UpscalerBackend::Fsr3 => 1,
        UpscalerBackend::Dlss => 2,
        UpscalerBackend::Xess => 3,
    }
}

/// The upscaler for an option index (Auto, FSR3, DLSS, XeSS); anything else
/// is Auto.
pub fn upscale_backend_at(index: usize) -> (r: UpscalerBackend)
    ensures
        r == upscale_backend_of(index as int),
{
    match index {
        1 => UpscalerBackend::Fsr3,
        2 => UpscalerBackend::Dlss,
        3 => UpscalerBackend::Xess,
        _ => UpscalerBackend::Auto,
    }
}

/// The option index of an upscaler.
pub fn upscale_backend_index(backend: UpscalerBackend) -> (r: usize)
    ensures
        r == upscale_backend_rank(backend),
{
    match backend {
        UpscalerBackend::Auto => 0,
        UpscalerBackend::Fsr3 => 1,
        UpscalerBackend::Dlss => 2,
        UpscalerBackend::Xess => 3,
    }
}

/// Whether an upscaler is offered on a GPU vendor: Auto and FSR3 everywhere,
/// DLSS on NVIDIA only, XeSS on Intel only.
pub open spec fn upscaler_offered(backend: UpscalerBackend, vendor: GpuVendor) -> bool {
    match backend {
        UpscalerBackend::Auto | UpscalerBackend::Fsr3 => true,
        UpscalerBackend::Dlss => vendor == GpuVendor::Nvidia,
        UpscalerBackend::Xess => vendor == GpuVendor::Intel,
    }
}

/// Whether the settings cycle offers an upscaler on the given GPU vendor.
pub fn upscale_backend_available(backend: UpscalerBackend, vendor: GpuVendor) -> (r: bool)
    ensures
        r == upscaler_offered(backend, vendor),
{
    match backend {
        UpscalerBackend::Auto | UpscalerBackend::Fsr3 => true,
        UpscalerBackend::Dlss => vendor == GpuVendor::Nvidia,
        UpscalerBackend::Xess => vendor == GpuVendor::Intel,
    }
}

pub open spec fn aa_mode_of(index: int) -> AaMode {
    if index == 0 {
        AaMode::Off
    } else if index == 2 {
        AaMode::Taa
    } else {
        AaMode::Fxaa
    }
}

pub open spec fn aa_mode_rank(mode: AaMode) -> int {
    match mode {
        AaMode::Off => 0,
        AaMode::Fxaa => 1,
        AaMode::Taa => 2,
    }
}

/// The anti-aliasing mode for an option index (Off, FXAA, TAA); anything else
/// is the FXAA default.
pub fn aa_mode_at(index: usize) -> (r: AaMode)
    ensures
        r == aa_mode_of(index as int),
{
    match index {
        0 => AaMode::Off,
        2 => AaMode::Taa,
        _ => AaMode::Fxaa,
    }
}

/// The option index of an anti-aliasing mode, which is also its cost rank.
pub fn aa_mode_index(mode: AaMode) -> (r: usize)
    ensures
        r == aa_mode_rank(mode),
{
    match mode {
        AaMode::Off => 0,
        AaMode::Fxaa => 1,
        AaMode::Taa => 2,
    }
}

pub open spec fn ssgi_resolution_of(index: int) -> SsgiResolution {
    if index == 0 {
        SsgiResolution::Full
    } else if index == 2 {
        SsgiResolution::Quarter
    } else {
        SsgiResolution::Half
    }
}

pub open spec fn ssgi_resolution_rank(res: SsgiResolution) -> int {
    match res {
        SsgiResolution::Full => 0,
        SsgiResolution::Half => 1,
        SsgiResolution::Quarter => 2,
    }
}

/// The SSGI resolution for an option index; anything else is Half.
pub fn ssgi_resolution_at(index: usize) -> (r: SsgiResolution)
    ensures
        r == ssgi_resolution_of(index as int),
{
    match index {
        0 => SsgiResolution::Full,
        2 => SsgiResolution::Quarter,
        _ => SsgiResolution::Half,
    }
}

/// The option index of an SSGI resolution.
pub fn ssgi_resolution_index(res: SsgiResolution) -> (r: usize)
    ensures
        r == ssgi_resolution_rank(res),
{
    match res {
        SsgiResolution::Full => 0,
        SsgiResolution::Half => 1,
        SsgiResolution::Quarter => 2,
    }
}

pub open spec fn reflection_blur_of(index: int) -> ReflectionBlurResolution {
    if index == 0 {
        ReflectionBlurResolution::Full
    } else if index == 2 {
        ReflectionBlurResolution::Quarter
    } else {
        ReflectionBlurResolution::Half
    }
}

pub open spec fn reflection_blur_rank(res: ReflectionBlurResolution) -> int {
    match res {
        ReflectionBlurResolution::Full => 0,
        ReflectionBlurResolution::Half => 1,
        ReflectionBlurResolution::Quarter => 2,
    }
}

/// The reflection blur resolution for an option index; anything else is Half.
pub fn reflection_blur_at(index: usize) -> (r: ReflectionBlurResolution)
    ensures
        r == reflection_blur_of(index as int),
{
    match index {
        0 => ReflectionBlurResolution::Full,
        2 => ReflectionBlurResolution::Quarter,
        _ => ReflectionBlurResolution::Half,
    }
}

/// The option index of a reflection blur resolution.
pub fn reflection_blur_index(res: ReflectionBlurResolution) -> (r: usize)
    ensures
        r == reflection_blur_rank(res),
{
    match res {
        ReflectionBlurResolution::Full => 0,
        ReflectionBlurResolution::Half => 1,
        ReflectionBlurResolution::Quarter => 2,
    }
}

pub open spec fn shadow_update_of(index: int) -> ShadowUpdate {
    if index == 0 {
        ShadowUpdate::EveryFrame
    } else {
        ShadowUpdate::Hybrid
    }
}

pub open spec fn shadow_update_rank(update: ShadowUpdate) -> int {
    match update {
        ShadowUpdate::EveryFrame => 0,
        ShadowUpdate::Hybrid => 1,
    }
}

/// The shadow cadence for an option index; anything past EveryFrame is
/// Hybrid.
pub fn shadow_update_at(index: usize) -> (r: ShadowUpdate)
    ensures
        r == shadow_update_of(index as int),
{
    match index {
        0 => ShadowUpdate::EveryFrame,
        _ => ShadowUpdate::Hybrid,
    }
}

/// The option index of a shadow cadence.
pub fn shadow_update_index(update: ShadowUpdate) -> (r: usize)
    ensures
        r == shadow_update_rank(update),
{
    match update {
        ShadowUpdate::EveryFrame => 0,
        ShadowUpdate::Hybrid => 1,
    }
}

/// Every enumerated setting round-trips through its option index, and every
/// option index in range round-trips through its value.
pub proof fn lemma_enum_options_round_trip(i: int)
    ensures
        forall|m: WindowMode| window_mode_of(#[trigger] window_mode_rank(m)) == m,
        forall|q: UpscaleQuality| render_scale_of(#[trigger] render_scale_rank(q)) == q,
        forall|b: UpscalerBackend| upscale_backend_of(#[trigger] upscale_backend_rank(b)) == b,
        forall|m: AaMode| aa_mode_of(#[trigger] aa_mode_rank(m)) == m,
        forall|s: SsgiResolution| ssgi_resolution_of(#[trigger] ssgi_resolution_rank(s)) == s,
        forall|s: ReflectionBlurResolution|
            reflection_blur_of(#[trigger] reflection_blur_rank(s)) == s,
        forall|u: ShadowUpdate| shadow_update_of(#[trigger] shadow_update_rank(u)) == u,
        0 <= i < 3 ==> window_mode_rank(window_mode_of(i)) == i,
        0 <= i < 4 ==> render_scale_rank(render_scale_of(i)) == i,
        0 <= i < 4 ==> upscale_backend_rank(upscale_backend_of(i)) == i,
        0 <= i < 3 ==> aa_mode_rank(aa_mode_of(i)) == i,
        0 <= i < 3 ==> ssgi_resolution_rank(ssgi_resolution_of(i)) == i,
        0 <= i < 3 ==> reflection_blur_rank(reflection_blur_of(i)) == i,
        0 <= i < 2 ==> shadow_update_rank(shadow_update_of(i)) == i,
{
}

/// The cycle quality knobs the quality preset governs.
pub const QUALITY_CYCLE_KEYS: [&'static str; 5] = [
    "aa_mode",
    "ssgi_resolution",
    "ssgi_rays",
    "ssgi_steps",
    "reflection_blur_resolution",
];

/// Whether a setting can be changed on a device: ray-traced reflections need
/// hardware ray tracing, the upscaler selector needs a selectable upscaler,
/// and every other setting is always available.
pub open spec fn available_on(key: Seq<char>, caps: DeviceCapabilities) -> bool {
    if key == "ray_traced_reflections"@ {
        caps.ray_tracing
    } else if key == "upscale_backend"@ {
        caps.selectable_upscaler
    } else {
        true
    }
}

/// Whether setting `key` can be changed on a device with these capabilities.
pub fn setting_available(key: &str, caps: &DeviceCapabilities) -> (r: bool)
    ensures
        r == available_on(key@, *caps),
{
    if str_eq(key, "ray_traced_reflections") {
        caps.ray_tracing
    } else if str_eq(key, "upscale_backend") {
        caps.selectable_upscaler
    } else {
        true
    }
}

/// The option index a request moves to among `len` options: one step back or
/// forward with wrap-around, or a dropdown pick clamped to the last option.
pub open spec fn cycled(index: int, len: int, op: SettingOp) -> int {
    match op {
        SettingOp::Prev => (index + len - 1) % len,
        SettingOp::SetIndex(i) => if i < len - 1 { i as int } else { len - 1 },
        _ => (index + 1) % len,
    }
}

/// Advance an option index one step (wrapping at the ends), or jump to a
/// dropdown pick. Slider and rebind requests never reach a cycle row and step
/// forward like Next.
pub fn cycle(index: usize, len: usize, op: SettingOp) -> (r: usize)
    requires
        len > 0,
        op is Prev ==> index + len <= usize::MAX,
        !(op is Prev) && !(op is SetIndex) ==> index + 1 <= usize::MAX,
    ensures
        r == cycled(index as int, len as int, op),
        r < len,
{
    match op {
        SettingOp::Prev => (index + len - 1) % len,
        SettingOp::SetIndex(i) => if i < len - 1 {
            i
        } else {
            len - 1
        },
        _ => (index + 1) % len,
    }
}

/// Stepping forward then back (or back then forward) returns to the same
/// option.
pub proof fn lemma_cycle_steps_undo(index: int, len: int)
    requires
        0 <= index < len,
    ensures
        cycled(cycled(index, len, SettingOp::Next), len, SettingOp::Prev) == index,
        cycled(cycled(index, len, SettingOp::Prev), len, SettingOp::Next) == index,
        0 <= cycled(index, len, SettingOp::Next) < len,
        0 <= cycled(index, len, SettingOp::Prev) < len,
{
    if index + 1 == len {
        assert((index + 1) % len == 0) by (nonlinear_arith)
            requires
                index + 1 == len,
                len > 0,
        ;
    } else {
        assert((index + 1) % len == index + 1) by (nonlinear_arith)
            requires
                0 <= index + 1 < len,
        ;
    }
    if index == 0 {
        assert((index + len - 1) % len == len - 1) by (nonlinear_arith)
            requires
                index == 0,
                len > 0,
        ;
    } else {
        assert((index + len - 1) % len == index - 1) by (nonlinear_arith)
            requires
                0 < index < len,
        ;
    }
    let n = cycled(index, len, SettingOp::Next);
    let p = cycled(index, len, SettingOp::Prev);
    if n == 0 {
        assert((n + len - 1) % len == len - 1) by (nonlinear_arith)
            requires
                n == 0,
                len > 0,
        ;
    } else {
        assert((n + len - 1) % len == n - 1) by (nonlinear_arith)
            requires
                0 < n < len,
        ;
    }
    if p + 1 == len {
        assert((p + 1) % len == 0) by (nonlinear_arith)
            requires
                p + 1 == len,
                len > 0,
        ;
    } else {
        assert((p + 1) % len == p + 1) by (nonlinear_arith)
            requires
                0 <= p + 1 < len,
        ;
    }
}

} // verus!
