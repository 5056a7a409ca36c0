use std::collections::{BTreeSet, HashMap, HashSet};

use concinnity_engine::gfx::blob_release::blobs_to_release;
use concinnity_engine::gfx::hot_reload_sources::{
    watch_dirs_of, ColorLutSource, ShaderStage, ShaderStageSourceEntry, ShaderStageSourceMap,
    SkinnedMeshSourceEntry, SkinnedMeshSourceMap, TextureSourceMap,
};
use concinnity_engine::gfx::mesh_stream_inputs::{deferred_draws, draw_to_handle};
use concinnity_engine::gfx::transform_propagation::{TransformCache, CYCLIC, NO_SLOT};

#[test]
fn a_duplicate_blob_is_released_once_in_first_seen_order() {
    let released = blobs_to_release(vec![3, 1, 3, 2, 1], &BTreeSet::new());
    assert_eq!(released, vec![3, 1, 2]);
}

#[test]
fn a_retained_blob_is_never_released() {
    let retained = BTreeSet::from([1, 4]);
    let released = blobs_to_release(vec![1, 2, 4, 2, 5], &retained);
    assert_eq!(released, vec![2, 5]);
}

#[test]
fn nothing_consumed_releases_nothing() {
    assert!(blobs_to_release(Vec::new(), &BTreeSet::from([7])).is_empty());
    assert!(blobs_to_release(vec![7, 7], &BTreeSet::from([7])).is_empty());
}

fn skinned_entry(source: &str) -> SkinnedMeshSourceEntry {
    SkinnedMeshSourceEntry {
        source: source.to_string(),
        skin_index: 0,
        skinned_index: 0,
        vertex_base: 0,
        vertex_count: 0,
        index_count: 0,
        joint_count: 0,
    }
}

#[test]
fn texture_map_starts_empty_and_counts_pushed_entries() {
    let mut map = TextureSourceMap::new();
    assert!(map.is_empty());
    assert_eq!(map.len(), 0);

    map.push_texture("assets/wall.png".to_string(), 0, 4);
    map.push_texture("assets/scene.glb".to_string(), 2, 7);

    assert!(!map.is_empty());
    assert_eq!(map.len(), 2);
    assert_eq!(map.entries[0].slot, 4);
    assert_eq!(map.entries[0].image_index, 0);
    assert_eq!(map.entries[1].slot, 7);
    assert_eq!(map.entries[1].image_index, 2);
}

#[test]
fn texture_watch_dirs_dedups_shared_parents() {
    let mut map = TextureSourceMap::new();
    map.push_texture("assets/textures/wall.png".to_string(), 0, 0);
    map.push_texture("assets/textures/floor.png".to_string(), 0, 1);
    map.push_texture("assets/models/scene.glb".to_string(), 0, 2);

    assert_eq!(
        map.watch_dirs(),
        ["assets/models", "assets/textures"],
        "one entry per unique parent, sorted"
    );
}

#[test]
fn texture_watch_dirs_skips_bare_filenames() {
    let mut map = TextureSourceMap::new();
    map.push_texture("wall.png".to_string(), 0, 0);
    assert!(map.watch_dirs().is_empty());

    map.push_texture("assets/floor.png".to_string(), 0, 1);
    assert_eq!(map.watch_dirs(), ["assets"]);
}

#[test]
fn skinned_mesh_map_watches_parents() {
    let mut map = SkinnedMeshSourceMap::new();
    assert!(map.is_empty());
    map.entries.push(skinned_entry("assets/chars/fox.glb"));
    map.entries.push(skinned_entry("assets/chars/wolf.glb"));
    map.entries.push(skinned_entry("fox.glb"));

    assert_eq!(map.len(), 3);
    assert_eq!(map.watch_dirs(), ["assets/chars"]);
}

#[test]
fn watch_dirs_order_by_path_components_and_merge_equal_paths() {
    // Paths compare component by component, so "a/b" sorts before "a-b"
    // although '/' follows '-' as a character; "a//b" and "a/b" are one
    // directory, kept as first seen.
    let dirs = watch_dirs_of(&["a-b/x.png", "a//b/y.png", "a/b/z.png", "/root.png", ""]);
    assert_eq!(dirs, ["/", "a//b", "a-b"]);
}

#[test]
fn color_lut_source_keeps_its_resolved_path() {
    let lut = ColorLutSource { resolved_path: "assets/grade.cube".to_string() };
    assert_eq!(lut.clone().resolved_path, "assets/grade.cube");
}

#[test]
fn draw_to_handle_maps_every_draw_of_a_handle_back_to_it() {
    let by_handle = HashMap::from([(7, vec![0, 3, 5]), (2, vec![1])]);
    let inverted = draw_to_handle(&by_handle);
    assert_eq!(inverted.len(), 4);
    for draw in [0, 3, 5] {
        assert_eq!(inverted[&draw], 7);
    }
    assert_eq!(inverted[&1], 2);
}

#[test]
fn deferred_draws_collects_the_draws_of_deferred_handles_only() {
    let by_handle = HashMap::from([(7, vec![0, 3]), (2, vec![1]), (9, vec![4])]);
    let seeds = HashMap::from([(7, ()), (8, ())]);
    assert_eq!(deferred_draws(&seeds, &by_handle), HashSet::from([0, 3]));
}

#[test]
fn resolve_orders_parents_before_children_and_indexes_children() {
    // 0 <- 1 <- 2, 3 is a root, 4 and 5 form a loop, 6 hangs below the loop.
    let mut cache = TransformCache::new();
    cache.resolve(vec![NO_SLOT, 0, 1, NO_SLOT, 5, 4, 4]);
    assert_eq!(cache.depth, vec![0, 1, 2, 0, CYCLIC, CYCLIC, CYCLIC]);
    assert_eq!(cache.order, vec![0, 3, 1, 2, 4, 5, 6]);
    // Children rows: slot 0 -> [1], slot 1 -> [2], slot 4 -> [5, 6], slot 5 -> [4].
    assert_eq!(cache.child_start, vec![0, 1, 2, 2, 2, 4, 5, 5]);
    assert_eq!(cache.child_list, vec![1, 2, 5, 6, 4]);
}

#[test]
fn resolve_of_nothing_is_empty() {
    let mut cache = TransformCache::new();
    cache.resolve(Vec::new());
    assert!(cache.depth.is_empty());
    assert!(cache.order.is_empty());
    assert_eq!(cache.child_start, vec![0]);
}

#[test]
fn shader_stage_map_watches_resolved_parents() {
    let mut map = ShaderStageSourceMap::new();
    assert!(map.is_empty());
    for (stage, path) in [
        (ShaderStage::Vertex, "shaders/sway.slang"),
        (ShaderStage::Fragment, "shaders/surface/scene.slang"),
    ] {
        map.entries.push(ShaderStageSourceEntry { stage, resolved_path: path.to_string() });
    }

    assert_eq!(map.len(), 2);
    assert_eq!(map.watch_dirs(), ["shaders", "shaders/surface"]);
}

#[test]
fn shader_stage_map_skips_an_empty_resolved_path() {
    let mut map = ShaderStageSourceMap::new();
    map.entries.push(ShaderStageSourceEntry {
        stage: ShaderStage::Fragment,
        resolved_path: String::new(),
    });
    assert!(map.watch_dirs().is_empty());
}
