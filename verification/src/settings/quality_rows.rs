//! The settings rows the quality preset governs: the Off/On feature toggles
//! and the cycle knobs, and how many options each cycling row offers.

use vstd::prelude::*;
use crate::settings::route::SettingKey;

verus! {

/// The Off/On quality features, in the toggle order the settings menu uses.
pub const QUALITY_TOGGLE_ROWS: [SettingKey; 5] = [
    SettingKey::Ssao,
    SettingKey::Ssr,
    SettingKey::RayTracedReflections,
    SettingKey::Ssgi,
    SettingKey::AutoExposure,
];

/// The quality knobs that cycle through options.
pub const QUALITY_CYCLE_ROWS: [SettingKey; 5] = [
    SettingKey::AaMode,
    SettingKey::SsgiResolution,
    SettingKey::SsgiRays,
    SettingKey::SsgiSteps,
    SettingKey::ReflectionBlurResolution,
];

/// How many options a cycling row offers, for the rows whose option lists
/// this library holds; `None` for sliders, rebinds, volumes, the preset and
/// the resolution, whose options live with their owners.
pub open spec fn options_of(key: SettingKey) -> Option<int> {
    match key {
        SettingKey::Vsync | SettingKey::PerfStats | SettingKey::ShowFps | SettingKey::ShowVram
        | SettingKey::OcclusionTwoPass | SettingKey::TemporalUpscaling | SettingKey::HdrDisplay
        | SettingKey::HdrPq | SettingKey::Ssao | SettingKey::Ssr | SettingKey::RayTracedReflections
        | SettingKey::Ssgi | SettingKey::AutoExposure | SettingKey::ShadowUpdate => Some(2),
        SettingKey::WindowMode | SettingKey::AaMode | SettingKey::SsgiResolution
        | SettingKey::ReflectionBlurResolution | SettingKey::ShadowCascades
        | SettingKey::FramesInFlight => Some(3),
        SettingKey::RenderScale | SettingKey::UpscaleBackend | SettingKey::SsgiRays
        | SettingKey::SsgiSteps | SettingKey::ShadowMapSize | SettingKey::ShadowDistance
        | SettingKey::TextureQuality => Some(4),
        SettingKey::Anisotropy => Some(5),
        SettingKey::FpsCap => Some(6),
        _ => None,
    }
}

/// How many options a cycling row offers (see `options_of`).
pub fn option_count(key: SettingKey) -> (r: Option<usize>)
    ensures
        match r {
            Some(n) => options_of(key) == Some(n as int),
            None => options_of(key) is None,
        },
{
    match key {
        SettingKey::Vsync | SettingKey::PerfStats | SettingKey::ShowFps | SettingKey::ShowVram
        | SettingKey::OcclusionTwoPass | SettingKey::TemporalUpscaling | SettingKey::HdrDisplay
        | SettingKey::HdrPq | SettingKey::Ssao | SettingKey::Ssr | SettingKey::RayTracedReflections
        | SettingKey::Ssgi | SettingKey::AutoExposure | SettingKey::ShadowUpdate => Some(2),
        SettingKey::WindowMode | SettingKey::AaMode | SettingKey::SsgiResolution
        | SettingKey::ReflectionBlurResolution | SettingKey::ShadowCascades
        | SettingKey::FramesInFlight => Some(3),
        SettingKey::RenderScale | SettingKey::UpscaleBackend | SettingKey::SsgiRays
        | SettingKey::SsgiSteps | SettingKey::ShadowMapSize | SettingKey::ShadowDistance
        | SettingKey::TextureQuality => Some(4),
        SettingKey::Anisotropy => Some(5),
        SettingKey::FpsCap => Some(6),
        _ => None,
    }
}

/// The row of `key` in a five-row table, if it has one.
fn row_of(table: &[SettingKey; 5], key: SettingKey) -> (r: Option<usize>)
    ensures
        match r {
            Some(i) => i < 5 && table@[i as int] == key && forall|j: int| 0 <= j < i ==> table@[j] != key,
            None => !table@.contains(key),
        },
{
    let mut i: usize = 0;
    while i < 5
        invariant
            i <= 5,
            table@.len() == 5,
            forall|j: int| 0 <= j < i ==> table@[j] != key,
        decreases 5 - i,
    {
        if table[i] == key {
            return Some(i);
        }
        i += 1;
    }
    None
}

/// The quality toggle row of `key`, or `None` when it is not a quality toggle.
pub fn quality_toggle(key: SettingKey) -> (r: Option<usize>)
    ensures
        match r {
            Some(i) => i < 5 && QUALITY_TOGGLE_ROWS@[i as int] == key,
            None => !QUALITY_TOGGLE_ROWS@.contains(key),
        },
{
    row_of(&QUALITY_TOGGLE_ROWS, key)
}

/// The quality cycle row of `key`, or `None` when it is not a quality knob.
pub fn quality_cycle(key: SettingKey) -> (r: Option<usize>)
    ensures
        match r {
            Some(i) => i < 5 && QUALITY_CYCLE_ROWS@[i as int] == key,
            None => !QUALITY_CYCLE_ROWS@.contains(key),
        },
{
    row_of(&QUALITY_CYCLE_ROWS, key)
}

/// Whether `key` is one of the Off/On quality features.
pub fn is_quality_toggle(key: SettingKey) -> (r: bool)
    ensures
        r == QUALITY_TOGGLE_ROWS@.contains(key),
{
    quality_toggle(key).is_some()
}

/// No key is both a quality toggle and a quality knob, no table lists a key
/// twice, and every knob cycles through a known option list.
pub proof fn lemma_quality_tables()
    ensures
        forall|i: int, j: int| 0 <= i < j < 5 ==> QUALITY_TOGGLE_ROWS@[i] != QUALITY_TOGGLE_ROWS@[j],
        forall|i: int, j: int| 0 <= i < j < 5 ==> QUALITY_CYCLE_ROWS@[i] != QUALITY_CYCLE_ROWS@[j],
        forall|i: int| 0 <= i < 5 ==> !QUALITY_TOGGLE_ROWS@.contains(#[trigger] QUALITY_CYCLE_ROWS@[i]),
        forall|i: int| 0 <= i < 5 ==> options_of(#[trigger] QUALITY_CYCLE_ROWS@[i]) is Some,
        forall|i: int| 0 <= i < 5 ==> options_of(#[trigger] QUALITY_TOGGLE_ROWS@[i]) == Some(2int),
{
    assert forall|i: int| 0 <= i < 5 implies !QUALITY_TOGGLE_ROWS@.contains(#[trigger] QUALITY_CYCLE_ROWS@[i]) by {
        if QUALITY_TOGGLE_ROWS@.contains(QUALITY_CYCLE_ROWS@[i]) {
            let j = choose|j: int| 0 <= j < 5 && QUALITY_TOGGLE_ROWS@[j] == QUALITY_CYCLE_ROWS@[i];
        }
    }
}

} // verus!
