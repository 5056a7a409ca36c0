use std::collections::HashMap;

use concinnity_engine::gfx::hot_reload_sources::{
    ColorLutSource, HotReloadSources, MeshSourceEntry, MeshSourceMap, ProceduralMeshSourceEntry,
    ProceduralMeshSourceMap, ShaderStageSourceMap, SkinnedMeshSourceMap, TextureSourceMap,
};
use concinnity_engine::gfx::mesh_seed_plan::{mesh_seed_sizes, plan_seed_headroom, streamed_flags};
use concinnity_engine::logic::rules::{rule_due, AssetId, CmpOp, Condition, RuleGate, RuleSource, VolumeEvent};
use concinnity_engine::logic::save::state_file;
use concinnity_engine::logic::vars::Variables;

fn fresh_gate() -> RuleGate {
    RuleGate { started: false, fired_once: false, last_value: 0 }
}

#[test]
fn start_rule_fires_once_on_the_first_tick() {
    let vars = Variables::default();
    let mut gate = fresh_gate();
    assert!(rule_due(&mut gate, &RuleSource::Start, false, false, &[], &vars, false, &[], &[]));
    assert!(!rule_due(&mut gate, &RuleSource::Start, false, false, &[], &vars, false, &[], &[]));
    assert!(gate.started && gate.fired_once);
}

#[test]
fn once_rule_never_fires_again() {
    let vars = Variables::default();
    let mut gate = fresh_gate();
    assert!(rule_due(&mut gate, &RuleSource::Timer, true, false, &[], &vars, true, &[], &[]));
    assert!(!rule_due(&mut gate, &RuleSource::Timer, true, false, &[], &vars, true, &[], &[]));
}

#[test]
fn a_suppressed_event_is_dropped_not_queued() {
    let mut vars = Variables::default();
    let mut gate = fresh_gate();
    let source = RuleSource::Variable("lever".to_string());
    vars.apply("lever", 1, false);
    // The change arrives while the cooldown runs: dropped.
    assert!(!rule_due(&mut gate, &source, false, true, &[], &vars, false, &[], &[]));
    assert_eq!(gate.last_value, 1);
    // Once the cooldown ends there is no change left to fire on.
    assert!(!rule_due(&mut gate, &source, false, false, &[], &vars, false, &[], &[]));
    vars.apply("lever", 1, true);
    assert!(rule_due(&mut gate, &source, false, false, &[], &vars, false, &[], &[]));
}

#[test]
fn conditions_gate_a_volume_entry() {
    let mut vars = Variables::default();
    let mut gate = fresh_gate();
    let source = RuleSource::Enter(Some(AssetId(3)));
    let conditions = vec![Condition { name: "keys".to_string(), op: CmpOp::Ge, value: 1 }];
    let crossing = [VolumeEvent { volume: AssetId(3), entered: true }];
    assert!(!rule_due(&mut gate, &source, false, false, &conditions, &vars, false, &crossing, &[]));
    vars.apply("keys", 1, false);
    assert!(rule_due(&mut gate, &source, false, false, &conditions, &vars, false, &crossing, &[]));
    let exit = [VolumeEvent { volume: AssetId(3), entered: false }];
    assert!(!rule_due(&mut gate, &source, false, false, &conditions, &vars, false, &exit, &[]));
}

#[test]
fn interact_rule_fires_on_a_press_of_its_target() {
    let vars = Variables::default();
    let mut gate = fresh_gate();
    let source = RuleSource::Interact(Some(AssetId(9)));
    assert!(!rule_due(&mut gate, &source, false, false, &[], &vars, false, &[], &[AssetId(8)]));
    assert!(rule_due(&mut gate, &source, false, false, &[], &vars, false, &[], &[AssetId(8), AssetId(9)]));
    let untargeted = RuleSource::Interact(None);
    assert!(!rule_due(&mut gate, &untargeted, false, false, &[], &vars, false, &[], &[AssetId(9)]));
}

#[test]
fn state_file_sits_in_the_save_directory() {
    assert_eq!(state_file("saves/logic"), "saves/logic/state");
}

#[test]
fn seed_sizes_use_payloads_or_baked_counts() {
    let mut d2h = HashMap::new();
    d2h.insert(5usize, 2usize);
    let mut counts = HashMap::new();
    counts.insert(2u32, (10u32, 30u32));
    let sizes = mesh_seed_sizes(&[(4, 6), (0, 0), (0, 0)], &[1, 5, 7], &d2h, &counts, 32, 4);
    assert_eq!(sizes, vec![(128, 24), (320, 120), (0, 0)]);
}

#[test]
fn seed_headroom_takes_the_plan_or_the_whole_set_when_deferred() {
    let sizes = [(128u64, 24u64), (320, 120)];
    assert_eq!(plan_seed_headroom(Some((64, 8)), &sizes, true), Some((64, 8)));
    assert_eq!(plan_seed_headroom(None, &sizes, true), Some((448, 144)));
    assert_eq!(plan_seed_headroom(None, &sizes, false), None);
}

#[test]
fn streamed_flags_ignore_out_of_range_draws() {
    assert_eq!(streamed_flags(4, &[2, 9, 0, 2]), vec![true, false, true, false]);
}

#[test]
fn mesh_source_map_watches_parents_and_counts() {
    let mut map = MeshSourceMap::new();
    assert!(map.is_empty());
    map.entries.push(MeshSourceEntry {
        source: "assets/props/crate.glb".to_string(),
        primitive_index: 0,
        lod_levels: 1,
        draw_indices: vec![3, 4],
    });
    map.entries.push(MeshSourceEntry {
        source: "assets/props/barrel.glb".to_string(),
        primitive_index: 1,
        lod_levels: 2,
        draw_indices: vec![5],
    });
    assert_eq!(map.len(), 2);
    assert_eq!(map.watch_dirs(), vec!["assets/props".to_string()]);
}

#[test]
fn hot_reload_sources_are_empty_until_something_is_captured() {
    let mut sources = HotReloadSources {
        map: TextureSourceMap::new(),
        color_lut: None,
        environment_map: None,
        meshes: MeshSourceMap::new(),
        skinned_meshes: SkinnedMeshSourceMap::new(),
        procedural_meshes: ProceduralMeshSourceMap::new(),
        shader_stages: ShaderStageSourceMap::new(),
        world_jsonl_path: None,
    };
    assert!(sources.is_empty());
    sources.procedural_meshes.entries.push(ProceduralMeshSourceEntry { name: "rock".to_string(), draw_indices: vec![1] });
    assert!(!sources.is_empty());
    sources.procedural_meshes.entries.clear();
    sources.color_lut = Some(ColorLutSource { resolved_path: "grade.cube".to_string() });
    assert!(!sources.is_empty());
}

#[test]
fn watch_dirs_keep_the_first_spelling_of_a_directory() {
    let mut map = TextureSourceMap::new();
    map.push_texture("a//b/one.png".to_string(), 0, 0);
    map.push_texture("a/b/two.png".to_string(), 0, 1);
    map.push_texture("a/c/three.png".to_string(), 0, 2);
    assert_eq!(map.watch_dirs(), vec!["a//b".to_string(), "a/c".to_string()]);
}

use concinnity_engine::gfx::dirty_plan::plan_dirty;
use concinnity_engine::gfx::transform_propagation::{TransformCache, NO_SLOT};

#[test]
fn subtree_walk_covers_each_moved_subtree_once() {
    // 0 <- 1 <- 2, 3 is a root, 4 and 5 form a loop, 6 hangs below the loop.
    let mut cache = TransformCache::new();
    cache.resolve(vec![NO_SLOT, 0, 1, NO_SLOT, 5, 4, 4]);
    assert_eq!(cache.walk_subtrees(&[1, 2]), vec![1, 2]);
    assert_eq!(cache.walk_subtrees(&[0, 3]), vec![0, 1, 2, 3]);
    let looped = cache.walk_subtrees(&[4]);
    assert_eq!(looped, vec![4, 6, 5]);
    assert!(cache.walk_subtrees(&[]).is_empty());
}

#[test]
fn dirty_plan_orders_shallowest_first_within_budget() {
    let depth = [0u32, 1, 2, 0, 1, 3, 2, 0, 1, 2, 0, 1, 2, 0, 1, 2];
    assert_eq!(plan_dirty(&depth, &[Some(2), Some(4)], 16), Some(vec![4, 2]));
    // 16 slots allow two dirty rows; a third falls back.
    assert_eq!(plan_dirty(&depth, &[Some(2), Some(4), Some(0)], 16), None);
    // A changed row without a slot falls back.
    assert_eq!(plan_dirty(&depth, &[None], 16), None);
    // At least one dirty row is always allowed.
    assert_eq!(plan_dirty(&depth[..3], &[Some(1)], 3), Some(vec![1]));
}

use concinnity_engine::gfx::atlas_slots::{sprite_slots, sprite_texture_ids};

#[test]
fn sprite_textures_are_sorted_and_deduplicated() {
    assert_eq!(sprite_texture_ids(&[7, 2, 7, 5, 2, 0]), vec![0, 2, 5, 7]);
    assert!(sprite_texture_ids(&[]).is_empty());
}

#[test]
fn sprite_slots_follow_the_font_atlases_and_skip_failed_decodes() {
    assert_eq!(
        sprite_slots(3, &[0, 2, 5, 7], &[true, false, true, true]),
        vec![(0, 3), (5, 4), (7, 5)]
    );
}
