//! The live graphics settings and the persisted choices that override them:
//! how a launch resolves them from the world's authored values, the user's
//! saved choices and the quality preset's ceiling, and how each settings row
//! steps its value and records the choice.

use vstd::prelude::*;
use crate::settings::levels::{
    anisotropy_at, anisotropy_index, fps_cap_at, fps_cap_index, frames_in_flight_at,
    frames_in_flight_index, level_or, lemma_level_tables, nearest_index, shadow_cascades_at,
    shadow_cascades_index, shadow_distance_at, shadow_distance_index, shadow_resolution_at,
    shadow_resolution_index, texture_quality_at, texture_quality_index, ANISOTROPY_LEVELS,
    FPS_CAP_VALUES, FRAME_BUFFERING_COUNTS, SHADOW_CASCADES_VALUES, SHADOW_DISTANCE_VALUES,
    SHADOW_RESOLUTION_SIZES, TEXTURE_QUALITY_BUDGETS, TEXTURE_QUALITY_CAPS,
};
use crate::settings::options::{
    cycle, cycled, render_scale_at, render_scale_index, render_scale_of, render_scale_rank,
    shadow_update_at, shadow_update_index, shadow_update_of, shadow_update_rank,
    upscale_backend_at, upscale_backend_available, upscale_backend_index, upscale_backend_of,
    upscale_backend_rank, upscaler_offered, window_mode_at, window_mode_index, window_mode_of,
    window_mode_rank, GpuVendor, SettingOp, ShadowUpdate, UpscaleQuality, UpscalerBackend,
    WindowMode,
};

verus! {

/// The master quality preset: `Auto` re-resolves from the detected GPU tier
/// each launch, `Tier(i)` is the fixed preset at option `i` of the preset row,
/// and `Custom` imposes no ceiling (the user chose rows of their own).
#[derive(Clone, Copy, Debug, PartialEq, Eq, Structural)]
pub enum PresetChoice {
    Auto,
    Tier(u32),
    Custom,
}

/// A fullscreen display mode.
#[derive(Clone, Copy, Debug, PartialEq, Eq, Structural)]
pub struct DisplayMode {
    pub width: u32,
    pub height: u32,
    pub refresh_hz: u32,
}

/// The live value of every graphics setting a row or the backend reads.
#[derive(Clone, Copy, Debug, PartialEq, Eq, Structural)]
pub struct GraphicsRows {
    pub vsync: bool,
    pub perf_stats: bool,
    pub show_fps: bool,
    pub show_vram: bool,
    pub occlusion_two_pass: bool,
    pub temporal_upscaling: bool,
    pub hdr_display: bool,
    pub hdr_pq: bool,
    pub fps_cap: u32,
    pub window_mode: WindowMode,
    pub render_scale: UpscaleQuality,
    pub upscale_backend: UpscalerBackend,
    pub shadow_map_size: u32,
    pub anisotropy: u32,
    pub shadow_update: ShadowUpdate,
    pub shadow_distance: u32,
    pub shadow_cascades: u32,
    pub frames_in_flight: u32,
    pub texture_cap: u32,
    pub texture_budget: u32,
    /// The chosen fullscreen display mode; `None` keeps the display's own.
    pub resolution: Option<DisplayMode>,
    /// The live quality preset.
    pub quality_preset: PresetChoice,
}

/// The user's saved choices: `None` where the user never changed a setting.
#[derive(Clone, Copy, Debug, PartialEq, Eq, Structural)]
pub struct GraphicsOverrides {
    pub vsync: Option<bool>,
    pub perf_stats: Option<bool>,
    pub show_fps: Option<bool>,
    pub show_vram: Option<bool>,
    pub occlusion_two_pass: Option<bool>,
    pub temporal_upscaling: Option<bool>,
    pub hdr_display: Option<bool>,
    pub hdr_pq: Option<bool>,
    pub fps_cap: Option<u32>,
    pub window_mode: Option<WindowMode>,
    pub render_scale: Option<UpscaleQuality>,
    pub upscale_backend: Option<UpscalerBackend>,
    pub shadow_map_size: Option<u32>,
    pub anisotropy: Option<u32>,
    pub shadow_update: Option<ShadowUpdate>,
    pub shadow_distance: Option<u32>,
    pub shadow_cascades: Option<u32>,
    pub frames_in_flight: Option<u32>,
    pub texture_cap: Option<u32>,
    pub texture_budget: Option<u32>,
    pub resolution: Option<DisplayMode>,
    pub quality_preset: Option<PresetChoice>,
}

/// What the world authors, with the engine defaults standing in for anything
/// it leaves out. `streaming` is the declared texture pool cap and upload
/// budget, `None` when the world declares no streaming.
#[derive(Clone, Copy, Debug, PartialEq, Eq, Structural)]
pub struct AuthoredGraphics {
    pub vsync: bool,
    pub perf_stats: bool,
    pub show_fps: bool,
    pub show_vram: bool,
    pub occlusion_two_pass: bool,
    pub temporal_upscaling: bool,
    pub hdr_display: bool,
    pub hdr_pq: bool,
    pub fps_cap: u32,
    pub window_mode: WindowMode,
    pub render_scale: UpscaleQuality,
    pub upscale_backend: UpscalerBackend,
    pub shadow_map_size: u32,
    pub anisotropy: u32,
    pub shadow_update: ShadowUpdate,
    pub shadow_distance: u32,
    pub shadow_cascades: u32,
    pub frames_in_flight: u32,
    pub streaming: Option<StreamingPool>,
}

/// A declared texture streaming pool: its cap and per-frame upload budget.
#[derive(Clone, Copy, Debug, PartialEq, Eq, Structural)]
pub struct StreamingPool {
    pub cap: u32,
    pub budget: u32,
}

/// The quality preset's performance ceiling over the knobs it governs: the
/// largest shadow map, distance, cascade count and filtering degree, the most
/// frequent shadow cadence, and the least upscaling it allows.
#[derive(Clone, Copy, Debug, PartialEq, Eq, Structural)]
pub struct QualityCeiling {
    pub shadow_map_size: u32,
    pub shadow_update: ShadowUpdate,
    pub shadow_distance: u32,
    pub shadow_cascades: u32,
    pub anisotropy: u32,
    pub min_upscale: UpscaleQuality,
}

/// The pool cap and upload budget the engine uses when the world declares no
/// streaming.
pub const DEFAULT_TEXTURE_CAP: u32 = 96;

pub const DEFAULT_TEXTURE_BUDGET: u32 = 4;

/// A saved choice, or the fallback.
pub open spec fn or_else<T>(choice: Option<T>, fallback: T) -> T {
    match choice {
        Some(v) => v,
        None => fallback,
    }
}

pub open spec fn min_u32(a: u32, b: u32) -> u32 {
    if a <= b {
        a
    } else {
        b
    }
}

/// `v` held to `lo..=hi`.
pub open spec fn clamp_u32(v: u32, lo: u32, hi: u32) -> u32 {
    if v < lo {
        lo
    } else if v > hi {
        hi
    } else {
        v
    }
}

/// The authored cadence held under the ceiling's: the less frequent of the two.
pub open spec fn capped_update(authored: ShadowUpdate, ceiling: ShadowUpdate) -> ShadowUpdate {
    if shadow_update_rank(ceiling) > shadow_update_rank(authored) {
        ceiling
    } else {
        authored
    }
}

/// The authored render scale held under the ceiling's: the more aggressive
/// upscaling of the two, so a weak tier forces more upscaling but never less.
pub open spec fn capped_scale(authored: UpscaleQuality, ceiling: UpscaleQuality) -> UpscaleQuality {
    if render_scale_rank(ceiling) > render_scale_rank(authored) {
        ceiling
    } else {
        authored
    }
}

/// The live settings a launch starts from: each saved choice wins; the knobs
/// the preset governs otherwise take the authored value under the ceiling; the
/// rest take the authored value; a saved fullscreen mode is the only one
/// there is. A saved frames-in-flight count is held to the
/// 1..3 the backends support, and a saved texture pool applies only where the
/// world streams textures. The preset a launch forces wins over the saved one;
/// with neither, the preset is `Auto`.
pub open spec fn resolved(
    authored: AuthoredGraphics,
    user: GraphicsOverrides,
    ceiling: QualityCeiling,
    launch: Option<PresetChoice>,
) -> GraphicsRows {
    GraphicsRows {
        vsync: or_else(user.vsync, authored.vsync),
        perf_stats: or_else(user.perf_stats, authored.perf_stats),
        show_fps: or_else(user.show_fps, authored.show_fps),
        show_vram: or_else(user.show_vram, authored.show_vram),
        occlusion_two_pass: or_else(user.occlusion_two_pass, authored.occlusion_two_pass),
        temporal_upscaling: or_else(user.temporal_upscaling, authored.temporal_upscaling),
        hdr_display: or_else(user.hdr_display, authored.hdr_display),
        hdr_pq: or_else(user.hdr_pq, authored.hdr_pq),
        fps_cap: or_else(user.fps_cap, authored.fps_cap),
        window_mode: or_else(user.window_mode, authored.window_mode),
        render_scale: or_else(
            user.render_scale,
            capped_scale(authored.render_scale, ceiling.min_upscale),
        ),
        upscale_backend: or_else(user.upscale_backend, authored.upscale_backend),
        shadow_map_size: or_else(
            user.shadow_map_size,
            min_u32(authored.shadow_map_size, ceiling.shadow_map_size),
        ),
        anisotropy: or_else(user.anisotropy, min_u32(authored.anisotropy, ceiling.anisotropy)),
        shadow_update: or_else(
            user.shadow_update,
            capped_update(authored.shadow_update, ceiling.shadow_update),
        ),
        shadow_distance: or_else(
            user.shadow_distance,
            min_u32(authored.shadow_distance, ceiling.shadow_distance),
        ),
        shadow_cascades: or_else(
            user.shadow_cascades,
            min_u32(authored.shadow_cascades, ceiling.shadow_cascades),
        ),
        frames_in_flight: match user.frames_in_flight {
            Some(f) => clamp_u32(f, 1, 3),
            None => authored.frames_in_flight,
        },
        texture_cap: match authored.streaming {
            Some(s) => or_else(user.texture_cap, s.cap),
            None => DEFAULT_TEXTURE_CAP,
        },
        texture_budget: match authored.streaming {
            Some(s) => or_else(user.texture_budget, s.budget),
            None => DEFAULT_TEXTURE_BUDGET,
        },
        resolution: user.resolution,
        quality_preset: match launch {
            Some(p) => p,
            None => or_else(user.quality_preset, PresetChoice::Auto),
        },
    }
}

fn pick<T: Copy>(choice: Option<T>, fallback: T) -> (r: T)
    ensures
        r == or_else(choice, fallback),
{
    match choice {
        Some(v) => v,
        None => fallback,
    }
}

fn min_of(a: u32, b: u32) -> (r: u32)
    ensures
        r == min_u32(a, b),
{
    if a <= b {
        a
    } else {
        b
    }
}

fn cap_update(authored: ShadowUpdate, ceiling: ShadowUpdate) -> (r: ShadowUpdate)
    ensures
        r == capped_update(authored, ceiling),
{
    if shadow_update_index(ceiling) > shadow_update_index(authored) {
        ceiling
    } else {
        authored
    }
}

fn cap_scale(authored: UpscaleQuality, ceiling: UpscaleQuality) -> (r: UpscaleQuality)
    ensures
        r == capped_scale(authored, ceiling),
{
    if render_scale_index(ceiling) > render_scale_index(authored) {
        ceiling
    } else {
        authored
    }
}

/// Resolve the launch's live graphics settings from the world's authored
/// values, the user's saved choices and the preset's ceiling.
pub fn resolve_render_settings(
    authored: &AuthoredGraphics,
    user: &GraphicsOverrides,
    ceiling: &QualityCeiling,
    launch: Option<PresetChoice>,
) -> (r: GraphicsRows)
    ensures
        r == resolved(*authored, *user, *ceiling, launch),
{
    let frames_in_flight = match user.frames_in_flight {
        Some(f) => if f < 1 {
            1
        } else if f > 3 {
            3
        } else {
            f
        },
        None => authored.frames_in_flight,
    };
    let (texture_cap, texture_budget) = match authored.streaming {
        Some(s) => (pick(user.texture_cap, s.cap), pick(user.texture_budget, s.budget)),
        None => (DEFAULT_TEXTURE_CAP, DEFAULT_TEXTURE_BUDGET),
    };
    GraphicsRows {
        vsync: pick(user.vsync, authored.vsync),
        perf_stats: pick(user.perf_stats, authored.perf_stats),
        show_fps: pick(user.show_fps, authored.show_fps),
        show_vram: pick(user.show_vram, authored.show_vram),
        occlusion_two_pass: pick(user.occlusion_two_pass, authored.occlusion_two_pass),
        temporal_upscaling: pick(user.temporal_upscaling, authored.temporal_upscaling),
        hdr_display: pick(user.hdr_display, authored.hdr_display),
        hdr_pq: pick(user.hdr_pq, authored.hdr_pq),
        fps_cap: pick(user.fps_cap, authored.fps_cap),
        window_mode: pick(user.window_mode, authored.window_mode),
        render_scale: pick(user.render_scale, cap_scale(authored.render_scale, ceiling.min_upscale)),
        upscale_backend: pick(user.upscale_backend, authored.upscale_backend),
        shadow_map_size: pick(
            user.shadow_map_size,
            min_of(authored.shadow_map_size, ceiling.shadow_map_size),
        ),
        anisotropy: pick(user.anisotropy, min_of(authored.anisotropy, ceiling.anisotropy)),
        shadow_update: pick(
            user.shadow_update,
            cap_update(authored.shadow_update, ceiling.shadow_update),
        ),
        shadow_distance: pick(
            user.shadow_distance,
            min_of(authored.shadow_distance, ceiling.shadow_distance),
        ),
        shadow_cascades: pick(
            user.shadow_cascades,
            min_of(authored.shadow_cascades, ceiling.shadow_cascades),
        ),
        frames_in_flight,
        texture_cap,
        texture_budget,
        resolution: user.resolution,
        quality_preset: match launch {
            Some(p) => p,
            None => pick(user.quality_preset, PresetChoice::Auto),
        },
    }
}

/// Every saved choice wins at launch, whatever the world authors and
/// whatever the ceiling allows; a saved frames-in-flight count is held to
/// 1..3, and a saved texture pool applies where the world streams.
pub proof fn lemma_saved_choices_win(
    authored: AuthoredGraphics,
    user: GraphicsOverrides,
    ceiling: QualityCeiling,
    launch: Option<PresetChoice>,
)
    ensures
        ({
            let r = resolved(authored, user, ceiling, launch);
            &&& user.vsync matches Some(v) ==> r.vsync == v
            &&& user.perf_stats matches Some(v) ==> r.perf_stats == v
            &&& user.show_fps matches Some(v) ==> r.show_fps == v
            &&& user.show_vram matches Some(v) ==> r.show_vram == v
            &&& user.occlusion_two_pass matches Some(v) ==> r.occlusion_two_pass == v
            &&& user.temporal_upscaling matches Some(v) ==> r.temporal_upscaling == v
            &&& user.hdr_display matches Some(v) ==> r.hdr_display == v
            &&& user.hdr_pq matches Some(v) ==> r.hdr_pq == v
            &&& user.fps_cap matches Some(v) ==> r.fps_cap == v
            &&& user.window_mode matches Some(v) ==> r.window_mode == v
            &&& user.render_scale matches Some(v) ==> r.render_scale == v
            &&& user.upscale_backend matches Some(v) ==> r.upscale_backend == v
            &&& user.shadow_map_size matches Some(v) ==> r.shadow_map_size == v
            &&& user.anisotropy matches Some(v) ==> r.anisotropy == v
            &&& user.shadow_update matches Some(v) ==> r.shadow_update == v
            &&& user.shadow_distance matches Some(v) ==> r.shadow_distance == v
            &&& user.shadow_cascades matches Some(v) ==> r.shadow_cascades == v
            &&& user.frames_in_flight matches Some(v) ==> 1 <= r.frames_in_flight <= 3 && (1 <= v <= 3
                ==> r.frames_in_flight == v)
            &&& authored.streaming is Some ==> (user.texture_cap matches Some(v) ==> r.texture_cap == v)
            &&& authored.streaming is Some ==> (user.texture_budget matches Some(v) ==> r.texture_budget == v)
            &&& r.resolution == user.resolution
            &&& launch is None ==> (user.quality_preset matches Some(v) ==> r.quality_preset == v)
            &&& launch matches Some(v) ==> r.quality_preset == v
        }),
{
}

/// Without a saved choice, a knob the preset governs takes the authored value
/// or the ceiling's, whichever is lower: never above either.
pub proof fn lemma_governed_knobs_take_the_lower(
    authored: AuthoredGraphics,
    user: GraphicsOverrides,
    ceiling: QualityCeiling,
    launch: Option<PresetChoice>,
)
    ensures
        ({
            let r = resolved(authored, user, ceiling, launch);
            &&& user.shadow_map_size is None ==> r.shadow_map_size <= authored.shadow_map_size
                && r.shadow_map_size <= ceiling.shadow_map_size && (r.shadow_map_size == authored.shadow_map_size
                || r.shadow_map_size == ceiling.shadow_map_size)
            &&& user.anisotropy is None ==> r.anisotropy <= authored.anisotropy && r.anisotropy
                <= ceiling.anisotropy && (r.anisotropy == authored.anisotropy || r.anisotropy == ceiling.anisotropy)
            &&& user.shadow_distance is None ==> r.shadow_distance <= authored.shadow_distance
                && r.shadow_distance <= ceiling.shadow_distance && (r.shadow_distance == authored.shadow_distance
                || r.shadow_distance == ceiling.shadow_distance)
            &&& user.shadow_cascades is None ==> r.shadow_cascades <= authored.shadow_cascades
                && r.shadow_cascades <= ceiling.shadow_cascades && (r.shadow_cascades == authored.shadow_cascades
                || r.shadow_cascades == ceiling.shadow_cascades)
            &&& user.render_scale is None ==> render_scale_rank(r.render_scale) >= render_scale_rank(
                authored.render_scale,
            ) && (r.render_scale == authored.render_scale || r.render_scale == ceiling.min_upscale)
            &&& user.shadow_update is None ==> shadow_update_rank(r.shadow_update) >= shadow_update_rank(
                authored.shadow_update,
            ) && (r.shadow_update == authored.shadow_update || r.shadow_update == ceiling.shadow_update)
        }),
{
}

/// Without a saved choice, a setting the preset does not govern takes the
/// world's authored value.
pub proof fn lemma_authored_values_stand(
    authored: AuthoredGraphics,
    user: GraphicsOverrides,
    ceiling: QualityCeiling,
    launch: Option<PresetChoice>,
)
    ensures
        ({
            let r = resolved(authored, user, ceiling, launch);
            &&& user.vsync is None ==> r.vsync == authored.vsync
            &&& user.perf_stats is None ==> r.perf_stats == authored.perf_stats
            &&& user.show_fps is None ==> r.show_fps == authored.show_fps
            &&& user.show_vram is None ==> r.show_vram == authored.show_vram
            &&& user.occlusion_two_pass is None ==> r.occlusion_two_pass == authored.occlusion_two_pass
            &&& user.temporal_upscaling is None ==> r.temporal_upscaling == authored.temporal_upscaling
            &&& user.hdr_display is None ==> r.hdr_display == authored.hdr_display
            &&& user.hdr_pq is None ==> r.hdr_pq == authored.hdr_pq
            &&& user.fps_cap is None ==> r.fps_cap == authored.fps_cap
            &&& user.window_mode is None ==> r.window_mode == authored.window_mode
            &&& user.upscale_backend is None ==> r.upscale_backend == authored.upscale_backend
            &&& user.frames_in_flight is None ==> r.frames_in_flight == authored.frames_in_flight
        }),
{
}

/// Without saved choices for the governed knobs, a launch never exceeds the
/// ceiling: each is at most the ceiling's value.
pub proof fn lemma_resolved_under_ceiling(
    authored: AuthoredGraphics,
    user: GraphicsOverrides,
    ceiling: QualityCeiling,
)
    requires
        user.shadow_map_size is None,
        user.anisotropy is None,
        user.shadow_distance is None,
        user.shadow_cascades is None,
        user.shadow_update is None,
        user.render_scale is None,
    ensures
        resolved(authored, user, ceiling, None).shadow_map_size <= ceiling.shadow_map_size,
        resolved(authored, user, ceiling, None).anisotropy <= ceiling.anisotropy,
        resolved(authored, user, ceiling, None).shadow_distance <= ceiling.shadow_distance,
        resolved(authored, user, ceiling, None).shadow_cascades <= ceiling.shadow_cascades,
        shadow_update_rank(resolved(authored, user, ceiling, None).shadow_update) >= shadow_update_rank(
            ceiling.shadow_update,
        ),
        render_scale_rank(resolved(authored, user, ceiling, None).render_scale) >= render_scale_rank(
            ceiling.min_upscale,
        ),
{
}

/// A changed quality preset becomes the live and saved preset, re-derives the
/// governed knobs from the authored values under its ceiling and forgets the
/// saved choices for them, so the next launch resolves them the same way.
pub fn apply_quality_ceiling(
    rows: &mut GraphicsRows,
    user: &mut GraphicsOverrides,
    authored: &AuthoredGraphics,
    ceiling: &QualityCeiling,
    preset: PresetChoice,
)
    ensures
        *final(user) == (GraphicsOverrides {
            quality_preset: Some(preset),
            render_scale: None,
            shadow_map_size: None,
            anisotropy: None,
            shadow_update: None,
            shadow_distance: None,
            shadow_cascades: None,
            ..*old(user)
        }),
        *final(rows) == (GraphicsRows {
            quality_preset: preset,
            render_scale: resolved(*authored, *final(user), *ceiling, None).render_scale,
            shadow_map_size: resolved(*authored, *final(user), *ceiling, None).shadow_map_size,
            anisotropy: resolved(*authored, *final(user), *ceiling, None).anisotropy,
            shadow_update: resolved(*authored, *final(user), *ceiling, None).shadow_update,
            shadow_distance: resolved(*authored, *final(user), *ceiling, None).shadow_distance,
            shadow_cascades: resolved(*authored, *final(user), *ceiling, None).shadow_cascades,
            ..*old(rows)
        }),
{
    user.quality_preset = Some(preset);
    rows.quality_preset = preset;
    user.render_scale = None;
    user.shadow_map_size = None;
    user.anisotropy = None;
    user.shadow_update = None;
    user.shadow_distance = None;
    user.shadow_cascades = None;
    rows.render_scale = cap_scale(authored.render_scale, ceiling.min_upscale);
    rows.shadow_map_size = min_of(authored.shadow_map_size, ceiling.shadow_map_size);
    rows.anisotropy = min_of(authored.anisotropy, ceiling.anisotropy);
    rows.shadow_update = cap_update(authored.shadow_update, ceiling.shadow_update);
    rows.shadow_distance = min_of(authored.shadow_distance, ceiling.shadow_distance);
    rows.shadow_cascades = min_of(authored.shadow_cascades, ceiling.shadow_cascades);
}

/// The Off/On rows.
#[derive(Clone, Copy, Debug, PartialEq, Eq, Structural)]
pub enum BoolRow {
    Vsync,
    PerfStats,
    ShowFps,
    ShowVram,
    OcclusionTwoPass,
    TemporalUpscaling,
    HdrDisplay,
    HdrPq,
}

/// A switch's option index: Off is 0, On is 1.
pub open spec fn bit(b: bool) -> int {
    if b {
        1
    } else {
        0
    }
}

pub open spec fn bool_value(rows: GraphicsRows, row: BoolRow) -> bool {
    match row {
        BoolRow::Vsync => rows.vsync,
        BoolRow::PerfStats => rows.perf_stats,
        BoolRow::ShowFps => rows.show_fps,
        BoolRow::ShowVram => rows.show_vram,
        BoolRow::OcclusionTwoPass => rows.occlusion_two_pass,
        BoolRow::TemporalUpscaling => rows.temporal_upscaling,
        BoolRow::HdrDisplay => rows.hdr_display,
        BoolRow::HdrPq => rows.hdr_pq,
    }
}

/// The rows with one switch set to `on`.
pub open spec fn with_bool(rows: GraphicsRows, row: BoolRow, on: bool) -> GraphicsRows {
    match row {
        BoolRow::Vsync => GraphicsRows { vsync: on, ..rows },
        BoolRow::PerfStats => GraphicsRows { perf_stats: on, ..rows },
        BoolRow::ShowFps => GraphicsRows { show_fps: on, ..rows },
        BoolRow::ShowVram => GraphicsRows { show_vram: on, ..rows },
        BoolRow::OcclusionTwoPass => GraphicsRows { occlusion_two_pass: on, ..rows },
        BoolRow::TemporalUpscaling => GraphicsRows { temporal_upscaling: on, ..rows },
        BoolRow::HdrDisplay => GraphicsRows { hdr_display: on, ..rows },
        BoolRow::HdrPq => GraphicsRows { hdr_pq: on, ..rows },
    }
}

/// The saved choices with one switch recorded as `on`.
pub open spec fn with_bool_choice(user: GraphicsOverrides, row: BoolRow, on: bool) -> GraphicsOverrides {
    match row {
        BoolRow::Vsync => GraphicsOverrides { vsync: Some(on), ..user },
        BoolRow::PerfStats => GraphicsOverrides { perf_stats: Some(on), ..user },
        BoolRow::ShowFps => GraphicsOverrides { show_fps: Some(on), ..user },
        BoolRow::ShowVram => GraphicsOverrides { show_vram: Some(on), ..user },
        BoolRow::OcclusionTwoPass => GraphicsOverrides { occlusion_two_pass: Some(on), ..user },
        BoolRow::TemporalUpscaling => GraphicsOverrides { temporal_upscaling: Some(on), ..user },
        BoolRow::HdrDisplay => GraphicsOverrides { hdr_display: Some(on), ..user },
        BoolRow::HdrPq => GraphicsOverrides { hdr_pq: Some(on), ..user },
    }
}

/// Step an Off/On row: the switch takes the option `cycled` selects among its
/// two, and that choice is saved. Returns the option index.
pub fn apply_bool_row(rows: &mut GraphicsRows, user: &mut GraphicsOverrides, row: BoolRow, op: SettingOp) -> (r: usize)
    ensures
        r == cycled(bit(bool_value(*old(rows), row)), 2, op),
        r < 2,
        *final(rows) == with_bool(*old(rows), row, r == 1),
        *final(user) == with_bool_choice(*old(user), row, r == 1),
{
    let cur = match row {
        BoolRow::Vsync => rows.vsync,
        BoolRow::PerfStats => rows.perf_stats,
        BoolRow::ShowFps => rows.show_fps,
        BoolRow::ShowVram => rows.show_vram,
        BoolRow::OcclusionTwoPass => rows.occlusion_two_pass,
        BoolRow::TemporalUpscaling => rows.temporal_upscaling,
        BoolRow::HdrDisplay => rows.hdr_display,
        BoolRow::HdrPq => rows.hdr_pq,
    };
    let next = cycle(if cur { 1 } else { 0 }, 2, op);
    let on = next == 1;
    match row {
        BoolRow::Vsync => {
            rows.vsync = on;
            user.vsync = Some(on);
        },
        BoolRow::PerfStats => {
            rows.perf_stats = on;
            user.perf_stats = Some(on);
        },
        BoolRow::ShowFps => {
            rows.show_fps = on;
            user.show_fps = Some(on);
        },
        BoolRow::ShowVram => {
            rows.show_vram = on;
            user.show_vram = Some(on);
        },
        BoolRow::OcclusionTwoPass => {
            rows.occlusion_two_pass = on;
            user.occlusion_two_pass = Some(on);
        },
        BoolRow::TemporalUpscaling => {
            rows.temporal_upscaling = on;
            user.temporal_upscaling = Some(on);
        },
        BoolRow::HdrDisplay => {
            rows.hdr_display = on;
            user.hdr_display = Some(on);
        },
        BoolRow::HdrPq => {
            rows.hdr_pq = on;
            user.hdr_pq = Some(on);
        },
    }
    next
}

/// The saved choice of an Off/On row.
pub open spec fn bool_choice(user: GraphicsOverrides, row: BoolRow) -> Option<bool> {
    match row {
        BoolRow::Vsync => user.vsync,
        BoolRow::PerfStats => user.perf_stats,
        BoolRow::ShowFps => user.show_fps,
        BoolRow::ShowVram => user.show_vram,
        BoolRow::OcclusionTwoPass => user.occlusion_two_pass,
        BoolRow::TemporalUpscaling => user.temporal_upscaling,
        BoolRow::HdrDisplay => user.hdr_display,
        BoolRow::HdrPq => user.hdr_pq,
    }
}

/// Setting an Off/On row changes that row's live value and saved choice to
/// what was set, and no other row's.
pub proof fn lemma_bool_row_saves_what_it_sets(
    rows: GraphicsRows,
    user: GraphicsOverrides,
    row: BoolRow,
    other: BoolRow,
    on: bool,
)
    ensures
        bool_value(with_bool(rows, row, on), row) == on,
        bool_choice(with_bool_choice(user, row, on), row) == Some(on),
        other != row ==> bool_value(with_bool(rows, row, on), other) == bool_value(rows, other),
        other != row ==> bool_choice(with_bool_choice(user, row, on), other) == bool_choice(user, other),
        with_bool(rows, row, on).quality_preset == rows.quality_preset,
        with_bool_choice(user, row, on).quality_preset == user.quality_preset,
{
}

/// After stepping an Off/On row, the row's saved choice is its new live
/// value, and the row flips on a single step forward or back.
pub proof fn lemma_bool_step(rows: GraphicsRows, user: GraphicsOverrides, row: BoolRow, op: SettingOp)
    ensures
        ({
            let i = cycled(bit(bool_value(rows, row)), 2, op);
            &&& bool_choice(with_bool_choice(user, row, i == 1), row) == Some(
                bool_value(with_bool(rows, row, i == 1), row),
            )
            &&& (op is Next || op is Prev) ==> bool_value(with_bool(rows, row, i == 1), row) == !bool_value(rows, row)
        }),
{
}

/// The shadow rows and the anisotropy row, which the quality preset governs.
#[derive(Clone, Copy, Debug, PartialEq, Eq, Structural)]
pub enum ShadowRow {
    MapSize,
    Anisotropy,
    Update,
    Distance,
    Cascades,
}

/// How many options a shadow row offers.
pub open spec fn shadow_options(row: ShadowRow) -> int {
    match row {
        ShadowRow::MapSize => 4,
        ShadowRow::Anisotropy => 5,
        ShadowRow::Update => 2,
        ShadowRow::Distance => 4,
        ShadowRow::Cascades => 3,
    }
}

/// The option a shadow row shows for the live value.
pub open spec fn shadow_option(rows: GraphicsRows, row: ShadowRow) -> int {
    match row {
        ShadowRow::MapSize => nearest_index(SHADOW_RESOLUTION_SIZES@, rows.shadow_map_size),
        ShadowRow::Anisotropy => nearest_index(ANISOTROPY_LEVELS@, rows.anisotropy),
        ShadowRow::Update => shadow_update_rank(rows.shadow_update),
        ShadowRow::Distance => nearest_index(SHADOW_DISTANCE_VALUES@, rows.shadow_distance),
        ShadowRow::Cascades => nearest_index(SHADOW_CASCADES_VALUES@, rows.shadow_cascades),
    }
}

/// The rows with a shadow knob set to option `i`'s value.
pub open spec fn with_shadow(rows: GraphicsRows, row: ShadowRow, i: int) -> GraphicsRows {
    match row {
        ShadowRow::MapSize => GraphicsRows {
            shadow_map_size: level_or(SHADOW_RESOLUTION_SIZES@, i, 2),
            ..rows
        },
        ShadowRow::Anisotropy => GraphicsRows { anisotropy: level_or(ANISOTROPY_LEVELS@, i, 3), ..rows },
        ShadowRow::Update => GraphicsRows { shadow_update: shadow_update_of(i), ..rows },
        ShadowRow::Distance => GraphicsRows {
            shadow_distance: level_or(SHADOW_DISTANCE_VALUES@, i, 1),
            ..rows
        },
        ShadowRow::Cascades => GraphicsRows {
            shadow_cascades: level_or(SHADOW_CASCADES_VALUES@, i, 2),
            ..rows
        },
    }
}

/// The saved choices with a shadow knob recorded at its live value in `rows`.
pub open spec fn with_shadow_choice(user: GraphicsOverrides, row: ShadowRow, rows: GraphicsRows) -> GraphicsOverrides {
    match row {
        ShadowRow::MapSize => GraphicsOverrides { shadow_map_size: Some(rows.shadow_map_size), ..user },
        ShadowRow::Anisotropy => GraphicsOverrides { anisotropy: Some(rows.anisotropy), ..user },
        ShadowRow::Update => GraphicsOverrides { shadow_update: Some(rows.shadow_update), ..user },
        ShadowRow::Distance => GraphicsOverrides { shadow_distance: Some(rows.shadow_distance), ..user },
        ShadowRow::Cascades => GraphicsOverrides { shadow_cascades: Some(rows.shadow_cascades), ..user },
    }
}

/// The saved choice of a shadow row records the live value in `rows`.
pub open spec fn shadow_saved_as(user: GraphicsOverrides, rows: GraphicsRows, row: ShadowRow) -> bool {
    match row {
        ShadowRow::MapSize => user.shadow_map_size == Some(rows.shadow_map_size),
        ShadowRow::Anisotropy => user.anisotropy == Some(rows.anisotropy),
        ShadowRow::Update => user.shadow_update == Some(rows.shadow_update),
        ShadowRow::Distance => user.shadow_distance == Some(rows.shadow_distance),
        ShadowRow::Cascades => user.shadow_cascades == Some(rows.shadow_cascades),
    }
}

/// Stepping a shadow row saves the value it set, and leaves every other row's
/// saved choice and live value alone.
pub proof fn lemma_shadow_row_saves_what_it_sets(
    rows: GraphicsRows,
    user: GraphicsOverrides,
    row: ShadowRow,
    other: ShadowRow,
    i: int,
)
    ensures
        shadow_saved_as(with_shadow_choice(user, row, with_shadow(rows, row, i)), with_shadow(rows, row, i), row),
        other != row ==> (shadow_saved_as(user, rows, other) ==> shadow_saved_as(
            with_shadow_choice(user, row, with_shadow(rows, row, i)),
            with_shadow(rows, row, i),
            other,
        )),
        with_shadow(rows, row, i).vsync == rows.vsync,
        with_shadow(rows, row, i).quality_preset == rows.quality_preset,
{
}

/// Step a shadow or anisotropy row from the option nearest its live value:
/// the knob takes the selected option's value, which is saved. Every such
/// change opts the preset out to Custom, which the caller records. Returns
/// the option index.
pub fn apply_shadow_row(rows: &mut GraphicsRows, user: &mut GraphicsOverrides, row: ShadowRow, op: SettingOp) -> (r: usize)
    ensures
        r == cycled(shadow_option(*old(rows), row), shadow_options(row), op),
        r < shadow_options(row),
        *final(rows) == with_shadow(*old(rows), row, r as int),
        *final(user) == with_shadow_choice(*old(user), row, *final(rows)),
{
    proof {
        lemma_level_tables();
    }
    match row {
        ShadowRow::MapSize => {
            let next = cycle(shadow_resolution_index(rows.shadow_map_size), 4, op);
            rows.shadow_map_size = shadow_resolution_at(next);
            user.shadow_map_size = Some(rows.shadow_map_size);
            next
        },
        ShadowRow::Anisotropy => {
            let next = cycle(anisotropy_index(rows.anisotropy), 5, op);
            rows.anisotropy = anisotropy_at(next);
            user.anisotropy = Some(rows.anisotropy);
            next
        },
        ShadowRow::Update => {
            let next = cycle(shadow_update_index(rows.shadow_update), 2, op);
            rows.shadow_update = shadow_update_at(next);
            user.shadow_update = Some(rows.shadow_update);
            next
        },
        ShadowRow::Distance => {
            let next = cycle(shadow_distance_index(rows.shadow_distance), 4, op);
            rows.shadow_distance = shadow_distance_at(next);
            user.shadow_distance = Some(rows.shadow_distance);
            next
        },
        ShadowRow::Cascades => {
            let next = cycle(shadow_cascades_index(rows.shadow_cascades), 3, op);
            rows.shadow_cascades = shadow_cascades_at(next);
            user.shadow_cascades = Some(rows.shadow_cascades);
            next
        },
    }
}

/// The display rows. The render scale is governed by the quality preset; the
/// upscaler has a row of its own, `apply_upscaler_row`.
#[derive(Clone, Copy, Debug, PartialEq, Eq, Structural)]
pub enum DisplayRow {
    FpsCap,
    WindowMode,
    RenderScale,
}

pub open spec fn display_options(row: DisplayRow) -> int {
    match row {
        DisplayRow::FpsCap => 6,
        DisplayRow::WindowMode => 3,
        DisplayRow::RenderScale => 4,
    }
}

pub open spec fn display_option(rows: GraphicsRows, row: DisplayRow) -> int {
    match row {
        DisplayRow::FpsCap => nearest_index(FPS_CAP_VALUES@, rows.fps_cap),
        DisplayRow::WindowMode => window_mode_rank(rows.window_mode),
        DisplayRow::RenderScale => render_scale_rank(rows.render_scale),
    }
}

pub open spec fn with_display(rows: GraphicsRows, row: DisplayRow, i: int) -> GraphicsRows {
    match row {
        DisplayRow::FpsCap => GraphicsRows { fps_cap: level_or(FPS_CAP_VALUES@, i, 0), ..rows },
        DisplayRow::WindowMode => GraphicsRows { window_mode: window_mode_of(i), ..rows },
        DisplayRow::RenderScale => GraphicsRows { render_scale: render_scale_of(i), ..rows },
    }
}

pub open spec fn with_display_choice(user: GraphicsOverrides, row: DisplayRow, rows: GraphicsRows) -> GraphicsOverrides {
    match row {
        DisplayRow::FpsCap => GraphicsOverrides { fps_cap: Some(rows.fps_cap), ..user },
        DisplayRow::WindowMode => GraphicsOverrides { window_mode: Some(rows.window_mode), ..user },
        DisplayRow::RenderScale => GraphicsOverrides { render_scale: Some(rows.render_scale), ..user },
    }
}

/// The saved choice of a display row records the live value in `rows`.
pub open spec fn display_saved_as(user: GraphicsOverrides, rows: GraphicsRows, row: DisplayRow) -> bool {
    match row {
        DisplayRow::FpsCap => user.fps_cap == Some(rows.fps_cap),
        DisplayRow::WindowMode => user.window_mode == Some(rows.window_mode),
        DisplayRow::RenderScale => user.render_scale == Some(rows.render_scale),
    }
}

/// Stepping a display row saves the value it set, and leaves every other
/// display row's saved choice and live value alone.
pub proof fn lemma_display_row_saves_what_it_sets(
    rows: GraphicsRows,
    user: GraphicsOverrides,
    row: DisplayRow,
    other: DisplayRow,
    i: int,
)
    ensures
        display_saved_as(with_display_choice(user, row, with_display(rows, row, i)), with_display(rows, row, i), row),
        other != row ==> (display_saved_as(user, rows, other) ==> display_saved_as(
            with_display_choice(user, row, with_display(rows, row, i)),
            with_display(rows, row, i),
            other,
        )),
{
}

/// Step a display row: the setting takes the selected option's value, which
/// is saved. A render-scale change opts the preset out to Custom, which the
/// caller records. Returns the option index.
pub fn apply_display_row(rows: &mut GraphicsRows, user: &mut GraphicsOverrides, row: DisplayRow, op: SettingOp) -> (r: usize)
    ensures
        r == cycled(display_option(*old(rows), row), display_options(row), op),
        r < display_options(row),
        *final(rows) == with_display(*old(rows), row, r as int),
        *final(user) == with_display_choice(*old(user), row, *final(rows)),
{
    proof {
        lemma_level_tables();
    }
    match row {
        DisplayRow::FpsCap => {
            let next = cycle(fps_cap_index(rows.fps_cap), 6, op);
            rows.fps_cap = fps_cap_at(next);
            user.fps_cap = Some(rows.fps_cap);
            next
        },
        DisplayRow::WindowMode => {
            let next = cycle(window_mode_index(rows.window_mode), 3, op);
            rows.window_mode = window_mode_at(next);
            user.window_mode = Some(rows.window_mode);
            next
        },
        DisplayRow::RenderScale => {
            let next = cycle(render_scale_index(rows.render_scale), 4, op);
            rows.render_scale = render_scale_at(next);
            user.render_scale = Some(rows.render_scale);
            next
        },
    }
}

/// Whether the upscaler at option `i` is offered on the vendor.
pub open spec fn offered_at(i: int, vendor: GpuVendor) -> bool {
    upscaler_offered(upscale_backend_of(i), vendor)
}

/// The first option offered on the vendor, starting at `start` and stepping
/// as `op` does. Auto and FSR3 are offered everywhere, so three steps always
/// reach one.
pub open spec fn first_offered(start: int, op: SettingOp, vendor: GpuVendor) -> int {
    let b = cycled(start, 4, op);
    let c = cycled(b, 4, op);
    if offered_at(start, vendor) {
        start
    } else if offered_at(b, vendor) {
        b
    } else if offered_at(c, vendor) {
        c
    } else {
        cycled(c, 4, op)
    }
}

/// Step the upscaler row, skipping upscalers the GPU vendor does not offer
/// (DLSS is NVIDIA-only, XeSS Intel-only); the choice is saved. A dropdown
/// pick must name an offered upscaler. Returns the option index.
pub fn apply_upscaler_row(
    rows: &mut GraphicsRows,
    user: &mut GraphicsOverrides,
    vendor: GpuVendor,
    op: SettingOp,
) -> (r: usize)
    requires
        op is SetIndex ==> offered_at(cycled(0, 4, op), vendor),
    ensures
        r == first_offered(cycled(upscale_backend_rank(old(rows).upscale_backend), 4, op), op, vendor),
        r < 4,
        offered_at(r as int, vendor),
        *final(rows) == (GraphicsRows { upscale_backend: upscale_backend_of(r as int), ..*old(rows) }),
        *final(user) == (GraphicsOverrides { upscale_backend: Some(upscale_backend_of(r as int)), ..*old(user) }),
{
    let ghost target = first_offered(cycled(upscale_backend_rank(rows.upscale_backend), 4, op), op, vendor);
    let mut next = cycle(upscale_backend_index(rows.upscale_backend), 4, op);
    while !upscale_backend_available(upscale_backend_at(next), vendor)
        invariant
            next < 4,
            first_offered(next as int, op, vendor) == target,
            op is SetIndex ==> offered_at(next as int, vendor),
        decreases if op is Prev { next as int } else { (4 - next) % 4 },
    {
        next = cycle(next, 4, op);
    }
    rows.upscale_backend = upscale_backend_at(next);
    user.upscale_backend = Some(rows.upscale_backend);
    next
}

/// The restart-required system rows.
#[derive(Clone, Copy, Debug, PartialEq, Eq, Structural)]
pub enum SystemRow {
    FramesInFlight,
    TextureQuality,
}

/// Step the frames-in-flight row: the depth takes the selected option's
/// value, which is saved. Returns the option index.
pub fn apply_frames_row(rows: &mut GraphicsRows, user: &mut GraphicsOverrides, op: SettingOp) -> (r: usize)
    ensures
        r == cycled(nearest_index(FRAME_BUFFERING_COUNTS@, old(rows).frames_in_flight), 3, op),
        r < 3,
        *final(rows) == (GraphicsRows {
            frames_in_flight: level_or(FRAME_BUFFERING_COUNTS@, r as int, 1),
            ..*old(rows)
        }),
        *final(user) == (GraphicsOverrides { frames_in_flight: Some(final(rows).frames_in_flight), ..*old(user) }),
{
    proof {
        lemma_level_tables();
    }
    let next = cycle(frames_in_flight_index(rows.frames_in_flight), 3, op);
    rows.frames_in_flight = frames_in_flight_at(next);
    user.frames_in_flight = Some(rows.frames_in_flight);
    next
}

/// Step the texture-quality row, which drives both the streaming pool cap and
/// the per-frame upload budget; both are saved. Returns the option index.
pub fn apply_texture_row(rows: &mut GraphicsRows, user: &mut GraphicsOverrides, op: SettingOp) -> (r: usize)
    ensures
        r == cycled(nearest_index(TEXTURE_QUALITY_CAPS@, old(rows).texture_cap), 4, op),
        r < 4,
        *final(rows) == (GraphicsRows {
            texture_cap: TEXTURE_QUALITY_CAPS@[r as int],
            texture_budget: TEXTURE_QUALITY_BUDGETS@[r as int],
            ..*old(rows)
        }),
        *final(user) == (GraphicsOverrides {
            texture_cap: Some(TEXTURE_QUALITY_CAPS@[r as int]),
            texture_budget: Some(TEXTURE_QUALITY_BUDGETS@[r as int]),
            ..*old(user)
        }),
{
    proof {
        lemma_level_tables();
    }
    let next = cycle(texture_quality_index(rows.texture_cap), 4, op);
    let (cap, budget) = texture_quality_at(next);
    rows.texture_cap = cap;
    rows.texture_budget = budget;
    user.texture_cap = Some(cap);
    user.texture_budget = Some(budget);
    next
}

/// Reading a row's option back after choosing it gives the same option, for
/// every shadow row.
pub proof fn lemma_shadow_row_round_trip(rows: GraphicsRows, row: ShadowRow, i: int)
    requires
        0 <= i < shadow_options(row),
    ensures
        shadow_option(with_shadow(rows, row, i), row) == i,
{
    crate::settings::levels::lemma_option_levels_round_trip(i);
}
} // verus!
