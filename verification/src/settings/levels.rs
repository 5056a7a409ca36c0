//! Discrete numeric setting levels: the value an option index selects, and the
//! option index nearest an authored value.

use vstd::prelude::*;

verus! {

/// Frame-rate caps (0 is "Unlimited").
pub const FPS_CAP_VALUES: [u32; 6] = [0, 30, 60, 120, 144, 240];

/// SSGI rays per pixel.
pub const SSGI_RAYS_COUNTS: [u32; 4] = [4, 8, 16, 32];

/// SSGI march steps.
pub const SSGI_STEPS_COUNTS: [u32; 4] = [8, 12, 24, 48];

/// Shadow-map sizes in texels (0 is "Off").
pub const SHADOW_RESOLUTION_SIZES: [u32; 4] = [0, 1024, 2048, 4096];

/// Shadow distances in world units.
pub const SHADOW_DISTANCE_VALUES: [u32; 4] = [40, 80, 160, 320];

/// Shadow cascade counts.
pub const SHADOW_CASCADES_VALUES: [u32; 3] = [2, 3, 4];

/// Anisotropic-filtering degrees.
pub const ANISOTROPY_LEVELS: [u32; 5] = [1, 2, 4, 8, 16];

/// Frames in flight.
pub const FRAME_BUFFERING_COUNTS: [u32; 3] = [1, 2, 3];

/// Texture streaming pool caps, one per texture-quality option.
pub const TEXTURE_QUALITY_CAPS: [u32; 4] = [48, 96, 192, 384];

/// Per-frame texture upload budgets, paired with the pool caps.
pub const TEXTURE_QUALITY_BUDGETS: [u32; 4] = [2, 4, 8, 12];

} // verus!

verus! {

/// How far `count` lies from `level`.
pub open spec fn gap(level: u32, count: u32) -> int {
    if level >= count {
        level - count
    } else {
        count - level
    }
}

/// `r` is the first index of `levels` at the least distance from `count`
/// (index 0 when there are no levels).
pub open spec fn is_nearest(levels: Seq<u32>, count: u32, r: int) -> bool {
    if levels.len() == 0 {
        r == 0
    } else {
        &&& 0 <= r < levels.len()
        &&& forall|j: int| 0 <= j < levels.len() ==> gap(levels[r], count) <= gap(levels[j], count)
        &&& forall|j: int| 0 <= j < r ==> gap(levels[r], count) < gap(levels[j], count)
    }
}

/// The index of the level closest to `count`, ties going to the lower level.
pub open spec fn nearest_index(levels: Seq<u32>, count: u32) -> int {
    choose|r: int| is_nearest(levels, count, r)
}

/// Each level list is strictly increasing.
pub open spec fn strictly_increasing(levels: Seq<u32>) -> bool {
    forall|i: int, j: int| 0 <= i < j < levels.len() ==> levels[i] < levels[j]
}

/// The level at `index`, or the level at `fallback` past the end.
pub open spec fn level_or(levels: Seq<u32>, index: int, fallback: int) -> u32 {
    if 0 <= index < levels.len() {
        levels[index]
    } else {
        levels[fallback]
    }
}

/// At most one index is the nearest.
pub proof fn lemma_nearest_unique(levels: Seq<u32>, count: u32, r1: int, r2: int)
    requires
        is_nearest(levels, count, r1),
        is_nearest(levels, count, r2),
    ensures
        r1 == r2,
{
    if levels.len() > 0 {
        if r1 < r2 {
            assert(gap(levels[r2], count) < gap(levels[r1], count));
        } else if r2 < r1 {
            assert(gap(levels[r1], count) < gap(levels[r2], count));
        }
    }
}

/// A nearest index always exists, so `nearest_index` names it.
pub proof fn lemma_nearest_is_choice(levels: Seq<u32>, count: u32, r: int)
    requires
        is_nearest(levels, count, r),
    ensures
        nearest_index(levels, count) == r,
{
    lemma_nearest_unique(levels, count, r, nearest_index(levels, count));
}

/// Each level of a strictly increasing list is its own nearest level, so a
/// value read back from an option index recovers that index.
pub proof fn lemma_level_round_trip(levels: Seq<u32>, i: int)
    requires
        strictly_increasing(levels),
        0 <= i < levels.len(),
    ensures
        nearest_index(levels, levels[i]) == i,
{
    assert forall|j: int| 0 <= j < i implies gap(levels[i], levels[i]) < gap(
        levels[j],
        levels[i],
    ) by {
        assert(levels[j] < levels[i]);
    }
    lemma_nearest_is_choice(levels, levels[i], i);
}

fn level_gap(level: u32, count: u32) -> (r: u32)
    ensures
        r == gap(level, count),
{
    if level >= count {
        level - count
    } else {
        count - level
    }
}

/// The index of the level closest to `count` (ties pick the lower level; an
/// empty list gives 0).
pub fn nearest_count_index(levels: &[u32], count: u32) -> (r: usize)
    ensures
        r == nearest_index(levels@, count),
        levels@.len() > 0 ==> r < levels@.len(),
{
    let mut best: usize = 0;
    let mut i: usize = 1;
    if levels.len() == 0 {
        proof {
            lemma_nearest_is_choice(levels@, count, 0);
        }
        return 0;
    }
    let mut best_gap: u32 = level_gap(levels[0], count);
    while i < levels.len()
        invariant
            levels@.len() > 0,
            1 <= i <= levels@.len(),
            best < i,
            best_gap == gap(levels@[best as int], count),
            forall|j: int| 0 <= j < i ==> gap(levels@[best as int], count) <= gap(levels@[j], count),
            forall|j: int| 0 <= j < best ==> gap(levels@[best as int], count) < gap(levels@[j], count),
        decreases levels@.len() - i,
    {
        let g = level_gap(levels[i], count);
        if g < best_gap {
            best = i;
            best_gap = g;
        }
        i += 1;
    }
    proof {
        lemma_nearest_is_choice(levels@, count, best as int);
    }
    best
}

} // verus!

verus! {

/// Every level table is strictly increasing, with the lengths the option
/// lists give.
pub proof fn lemma_level_tables()
    ensures
        FPS_CAP_VALUES@.len() == 6,
        SSGI_RAYS_COUNTS@.len() == 4,
        SSGI_STEPS_COUNTS@.len() == 4,
        SHADOW_RESOLUTION_SIZES@.len() == 4,
        SHADOW_DISTANCE_VALUES@.len() == 4,
        SHADOW_CASCADES_VALUES@.len() == 3,
        ANISOTROPY_LEVELS@.len() == 5,
        FRAME_BUFFERING_COUNTS@.len() == 3,
        TEXTURE_QUALITY_CAPS@.len() == 4,
        TEXTURE_QUALITY_BUDGETS@.len() == 4,
        strictly_increasing(FPS_CAP_VALUES@),
        strictly_increasing(SSGI_RAYS_COUNTS@),
        strictly_increasing(SSGI_STEPS_COUNTS@),
        strictly_increasing(SHADOW_RESOLUTION_SIZES@),
        strictly_increasing(SHADOW_DISTANCE_VALUES@),
        strictly_increasing(SHADOW_CASCADES_VALUES@),
        strictly_increasing(ANISOTROPY_LEVELS@),
        strictly_increasing(FRAME_BUFFERING_COUNTS@),
        strictly_increasing(TEXTURE_QUALITY_CAPS@),
{
}

/// SSGI rays for an option index; past the end, the default level.
pub fn ssgi_rays_at(index: usize) -> (r: u32)
    ensures
        r == level_or(SSGI_RAYS_COUNTS@, index as int, 1),
{
    if index < SSGI_RAYS_COUNTS.len() {
        SSGI_RAYS_COUNTS[index]
    } else {
        SSGI_RAYS_COUNTS[1]
    }
}

/// The option index nearest an authored ray count.
pub fn ssgi_rays_index(count: u32) -> (r: usize)
    ensures
        r == nearest_index(SSGI_RAYS_COUNTS@, count),
        r < SSGI_RAYS_COUNTS@.len(),
{
    proof {
        lemma_level_tables();
    }
    nearest_count_index(&SSGI_RAYS_COUNTS, count)
}

} // verus!

verus! {

/// SSGI march steps for an option index; past the end, the default level.
pub fn ssgi_steps_at(index: usize) -> (r: u32)
    ensures
        r == level_or(SSGI_STEPS_COUNTS@, index as int, 1),
{
    if index < SSGI_STEPS_COUNTS.len() {
        SSGI_STEPS_COUNTS[index]
    } else {
        SSGI_STEPS_COUNTS[1]
    }
}

/// The option index nearest an authored step count.
pub fn ssgi_steps_index(count: u32) -> (r: usize)
    ensures
        r == nearest_index(SSGI_STEPS_COUNTS@, count),
        r < SSGI_STEPS_COUNTS@.len(),
{
    proof {
        lemma_level_tables();
    }
    nearest_count_index(&SSGI_STEPS_COUNTS, count)
}

/// Shadow-map size for an option index; past the end, the world default (2048).
pub fn shadow_resolution_at(index: usize) -> (r: u32)
    ensures
        r == level_or(SHADOW_RESOLUTION_SIZES@, index as int, 2),
{
    if index < SHADOW_RESOLUTION_SIZES.len() {
        SHADOW_RESOLUTION_SIZES[index]
    } else {
        SHADOW_RESOLUTION_SIZES[2]
    }
}

/// The option index nearest an authored shadow-map size.
pub fn shadow_resolution_index(size: u32) -> (r: usize)
    ensures
        r == nearest_index(SHADOW_RESOLUTION_SIZES@, size),
        r < SHADOW_RESOLUTION_SIZES@.len(),
{
    proof {
        lemma_level_tables();
    }
    nearest_count_index(&SHADOW_RESOLUTION_SIZES, size)
}

/// Shadow distance for an option index; past the end, the world default (80).
pub fn shadow_distance_at(index: usize) -> (r: u32)
    ensures
        r == level_or(SHADOW_DISTANCE_VALUES@, index as int, 1),
{
    if index < SHADOW_DISTANCE_VALUES.len() {
        SHADOW_DISTANCE_VALUES[index]
    } else {
        SHADOW_DISTANCE_VALUES[1]
    }
}

/// The option index nearest an authored shadow distance.
pub fn shadow_distance_index(distance: u32) -> (r: usize)
    ensures
        r == nearest_index(SHADOW_DISTANCE_VALUES@, distance),
        r < SHADOW_DISTANCE_VALUES@.len(),
{
    proof {
        lemma_level_tables();
    }
    nearest_count_index(&SHADOW_DISTANCE_VALUES, distance)
}

/// Shadow cascade count for an option index; past the end, the world default (4).
pub fn shadow_cascades_at(index: usize) -> (r: u32)
    ensures
        r == level_or(SHADOW_CASCADES_VALUES@, index as int, 2),
{
    if index < SHADOW_CASCADES_VALUES.len() {
        SHADOW_CASCADES_VALUES[index]
    } else {
        SHADOW_CASCADES_VALUES[2]
    }
}

/// The option index nearest an authored cascade count.
pub fn shadow_cascades_index(count: u32) -> (r: usize)
    ensures
        r == nearest_index(SHADOW_CASCADES_VALUES@, count),
        r < SHADOW_CASCADES_VALUES@.len(),
{
    proof {
        lemma_level_tables();
    }
    nearest_count_index(&SHADOW_CASCADES_VALUES, count)
}

/// Anisotropic-filtering degree for an option index; past the end, the world default (8x).
pub fn anisotropy_at(index: usize) -> (r: u32)
    ensures
        r == level_or(ANISOTROPY_LEVELS@, index as int, 3),
{
    if index < ANISOTROPY_LEVELS.len() {
        ANISOTROPY_LEVELS[index]
    } else {
        ANISOTROPY_LEVELS[3]
    }
}

/// The option index nearest an authored filtering degree.
pub fn anisotropy_index(level: u32) -> (r: usize)
    ensures
        r == nearest_index(ANISOTROPY_LEVELS@, level),
        r < ANISOTROPY_LEVELS@.len(),
{
    proof {
        lemma_level_tables();
    }
    nearest_count_index(&ANISOTROPY_LEVELS, level)
}

/// Frame-rate cap for an option index; past the end, "Unlimited" (0).
pub fn fps_cap_at(index: usize) -> (r: u32)
    ensures
        r == level_or(FPS_CAP_VALUES@, index as int, 0),
{
    if index < FPS_CAP_VALUES.len() {
        FPS_CAP_VALUES[index]
    } else {
        FPS_CAP_VALUES[0]
    }
}

/// The option index nearest an authored frame-rate cap.
pub fn fps_cap_index(cap: u32) -> (r: usize)
    ensures
        r == nearest_index(FPS_CAP_VALUES@, cap),
        r < FPS_CAP_VALUES@.len(),
{
    proof {
        lemma_level_tables();
    }
    nearest_count_index(&FPS_CAP_VALUES, cap)
}

/// Frames in flight for an option index; past the end, the default depth.
pub fn frames_in_flight_at(index: usize) -> (r: u32)
    ensures
        r == level_or(FRAME_BUFFERING_COUNTS@, index as int, 1),
{
    if index < FRAME_BUFFERING_COUNTS.len() {
        FRAME_BUFFERING_COUNTS[index]
    } else {
        FRAME_BUFFERING_COUNTS[1]
    }
}

/// The option index nearest an authored frames-in-flight count.
pub fn frames_in_flight_index(count: u32) -> (r: usize)
    ensures
        r == nearest_index(FRAME_BUFFERING_COUNTS@, count),
        r < FRAME_BUFFERING_COUNTS@.len(),
{
    proof {
        lemma_level_tables();
    }
    nearest_count_index(&FRAME_BUFFERING_COUNTS, count)
}

/// The (pool cap, per-frame upload budget) pair for a texture-quality option
/// index; past the end, the highest level.
pub fn texture_quality_at(index: usize) -> (r: (u32, u32))
    ensures
        r.0 == TEXTURE_QUALITY_CAPS@[if index < 4 { index as int } else { 3 }],
        r.1 == TEXTURE_QUALITY_BUDGETS@[if index < 4 { index as int } else { 3 }],
{
    let i = if index < TEXTURE_QUALITY_CAPS.len() - 1 { index } else { TEXTURE_QUALITY_CAPS.len() - 1 };
    (TEXTURE_QUALITY_CAPS[i], TEXTURE_QUALITY_BUDGETS[i])
}

/// The texture-quality option index recovered from a pool cap (the nearest
/// level).
pub fn texture_quality_index(cap: u32) -> (r: usize)
    ensures
        r == nearest_index(TEXTURE_QUALITY_CAPS@, cap),
        r < TEXTURE_QUALITY_CAPS@.len(),
{
    proof {
        lemma_level_tables();
    }
    nearest_count_index(&TEXTURE_QUALITY_CAPS, cap)
}

/// Reading a level back recovers its option index, for every level table.
pub proof fn lemma_option_levels_round_trip(i: int)
    requires
        0 <= i,
    ensures
        i < 6 ==> nearest_index(FPS_CAP_VALUES@, level_or(FPS_CAP_VALUES@, i, 0)) == i,
        i < 4 ==> nearest_index(SSGI_RAYS_COUNTS@, level_or(SSGI_RAYS_COUNTS@, i, 1)) == i,
        i < 4 ==> nearest_index(SSGI_STEPS_COUNTS@, level_or(SSGI_STEPS_COUNTS@, i, 1)) == i,
        i < 4 ==> nearest_index(SHADOW_RESOLUTION_SIZES@, level_or(SHADOW_RESOLUTION_SIZES@, i, 2))
            == i,
        i < 4 ==> nearest_index(SHADOW_DISTANCE_VALUES@, level_or(SHADOW_DISTANCE_VALUES@, i, 1))
            == i,
        i < 3 ==> nearest_index(SHADOW_CASCADES_VALUES@, level_or(SHADOW_CASCADES_VALUES@, i, 2))
            == i,
        i < 5 ==> nearest_index(ANISOTROPY_LEVELS@, level_or(ANISOTROPY_LEVELS@, i, 3)) == i,
        i < 3 ==> nearest_index(FRAME_BUFFERING_COUNTS@, level_or(FRAME_BUFFERING_COUNTS@, i, 1))
            == i,
        i < 4 ==> nearest_index(TEXTURE_QUALITY_CAPS@, TEXTURE_QUALITY_CAPS@[i]) == i,
{
    lemma_level_tables();
    if i < 6 {
        lemma_level_round_trip(FPS_CAP_VALUES@, i);
    }
    if i < 4 {
        lemma_level_round_trip(SSGI_RAYS_COUNTS@, i);
        lemma_level_round_trip(SSGI_STEPS_COUNTS@, i);
        lemma_level_round_trip(SHADOW_RESOLUTION_SIZES@, i);
        lemma_level_round_trip(SHADOW_DISTANCE_VALUES@, i);
        lemma_level_round_trip(TEXTURE_QUALITY_CAPS@, i);
    }
    if i < 3 {
        lemma_level_round_trip(SHADOW_CASCADES_VALUES@, i);
        lemma_level_round_trip(FRAME_BUFFERING_COUNTS@, i);
    }
    if i < 5 {
        lemma_level_round_trip(ANISOTROPY_LEVELS@, i);
    }
}

/// The nearest option index always names a level of the table, and its level
/// is at least as close to the authored value as any other level.
pub proof fn lemma_nearest_is_closest(levels: Seq<u32>, count: u32)
    requires
        levels.len() > 0,
    ensures
        0 <= nearest_index(levels, count) < levels.len(),
        forall|j: int|
            0 <= j < levels.len() ==> gap(levels[nearest_index(levels, count)], count) <= gap(
                #[trigger] levels[j],
                count,
            ),
        forall|j: int|
            0 <= j < nearest_index(levels, count) ==> gap(levels[nearest_index(levels, count)], count)
                < gap(#[trigger] levels[j], count),
{
    let r = nearest_witness(levels, count, 1, 0);
    lemma_nearest_is_choice(levels, count, r);
}

proof fn nearest_witness(levels: Seq<u32>, count: u32, i: int, best: int) -> (r: int)
    requires
        levels.len() > 0,
        1 <= i <= levels.len(),
        0 <= best < i,
        forall|j: int| 0 <= j < i ==> gap(levels[best], count) <= gap(levels[j], count),
        forall|j: int| 0 <= j < best ==> gap(levels[best], count) < gap(levels[j], count),
    ensures
        is_nearest(levels, count, r),
    decreases levels.len() - i,
{
    if i == levels.len() {
        best
    } else if gap(levels[i], count) < gap(levels[best], count) {
        nearest_witness(levels, count, i + 1, i)
    } else {
        nearest_witness(levels, count, i + 1, best)
    }
}

} // verus!
