use concinnity_engine::gfx::mesh_stream_data::{mesh_stream_data, StreamDraw};
use concinnity_engine::hud::loading_overlay::{overlay_step, OverlayAction, OverlayPhase};
use concinnity_engine::logic::actions::{reaction_requests, ReactionAction, ReactionRequest, StoryPlayback};
use concinnity_engine::logic::rules::{rule_due, AssetId, CmpOp, Condition, RuleGate, RuleSource, VolumeEvent};
use concinnity_engine::logic::vars::Variables;
use std::collections::HashSet;

struct Rule {
    gate: RuleGate,
    on: RuleSource,
    once: bool,
    conditions: Vec<Condition>,
    actions: Vec<ReactionAction>,
}

fn rule(on: RuleSource, actions: Vec<ReactionAction>) -> Rule {
    Rule { gate: RuleGate { started: false, fired_once: false, last_value: 0 }, on, once: false, conditions: Vec::new(), actions }
}

// One tick of one rule: decide, then dispatch.
fn tick(
    rule: &mut Rule,
    vars: &mut Variables,
    timer_due: bool,
    crossings: &[VolumeEvent],
    presses: &[AssetId],
) -> Vec<ReactionRequest> {
    if rule_due(&mut rule.gate, &rule.on, rule.once, false, &rule.conditions, vars, timer_due, crossings, presses) {
        reaction_requests(vars, &rule.actions)
    } else {
        Vec::new()
    }
}

fn despawn(target: u32) -> ReactionAction {
    ReactionAction::Despawn { target: Some(AssetId(target)) }
}

fn set(name: &str, value: i32, add: bool) -> ReactionAction {
    ReactionAction::SetVar { name: name.to_string(), value, add }
}

fn despawns(requests: &[ReactionRequest]) -> usize {
    requests.iter().filter(|r| matches!(r, ReactionRequest::Despawn { .. })).count()
}

#[test]
fn start_fires_once() {
    let mut vars = Variables::default();
    let mut r = rule(RuleSource::Start, vec![despawn(7)]);
    assert_eq!(despawns(&tick(&mut r, &mut vars, false, &[], &[])), 1);
    assert_eq!(despawns(&tick(&mut r, &mut vars, false, &[], &[])), 0);
}

#[test]
fn failing_condition_suppresses_firing() {
    let mut vars = Variables::default();
    let mut r = rule(RuleSource::Start, vec![despawn(7)]);
    r.conditions = vec![Condition { name: "has_key".into(), op: CmpOp::Ne, value: 0 }];
    assert_eq!(despawns(&tick(&mut r, &mut vars, false, &[], &[])), 0);
}

#[test]
fn passing_condition_fires() {
    let mut vars = Variables::default();
    let mut r = rule(RuleSource::Start, vec![despawn(7)]);
    r.conditions = vec![Condition { name: "score".into(), op: CmpOp::Ge, value: 3 }];
    vars.apply("score", 3, false);
    assert_eq!(despawns(&tick(&mut r, &mut vars, false, &[], &[])), 1);
}

#[test]
fn variable_source_fires_on_change_only() {
    let mut vars = Variables::default();
    let mut r = rule(RuleSource::Variable("v".into()), vec![set("w", 1, true)]);
    tick(&mut r, &mut vars, false, &[], &[]);
    vars.apply("v", 1, false);
    tick(&mut r, &mut vars, false, &[], &[]);
    tick(&mut r, &mut vars, false, &[], &[]);
    assert_eq!(vars.get("w"), 1, "one change, one firing");
}

#[test]
fn once_limits_a_repeat_source() {
    let mut vars = Variables::default();
    let mut r = rule(RuleSource::Timer, vec![despawn(7)]);
    r.once = true;
    let mut fired = 0;
    for _ in 0..3 {
        // A zero-interval repeating timer is due every tick.
        fired += despawns(&tick(&mut r, &mut vars, true, &[], &[]));
    }
    assert_eq!(fired, 1);
}

#[test]
fn set_actions_apply_in_order() {
    let mut vars = Variables::default();
    let mut r = rule(RuleSource::Start, vec![set("v", 2, false), set("v", 3, true)]);
    tick(&mut r, &mut vars, false, &[], &[]);
    assert_eq!(vars.get("v"), 5);
}

#[test]
fn story_action_sends_the_playback_command() {
    let mut vars = Variables::default();
    let mut r = rule(RuleSource::Start, vec![ReactionAction::Story(StoryPlayback::Start)]);
    let cmds = tick(&mut r, &mut vars, false, &[], &[]);
    assert_eq!(cmds.len(), 1);
    assert!(matches!(cmds[0], ReactionRequest::Story(StoryPlayback::Start)));
}

#[test]
fn enter_source_fires_on_matching_crossings_only() {
    let mut vars = Variables::default();
    let mut r = rule(RuleSource::Enter(Some(AssetId(5))), vec![despawn(7)]);
    assert_eq!(despawns(&tick(&mut r, &mut vars, false, &[], &[])), 0);
    let enter = [VolumeEvent { volume: AssetId(5), entered: true }];
    assert_eq!(despawns(&tick(&mut r, &mut vars, false, &enter, &[])), 1);
    let others = [
        VolumeEvent { volume: AssetId(5), entered: false },
        VolumeEvent { volume: AssetId(6), entered: true },
    ];
    assert_eq!(despawns(&tick(&mut r, &mut vars, false, &others, &[])), 0);
}

#[test]
fn exit_source_fires_on_the_way_out() {
    let mut vars = Variables::default();
    let mut r = rule(RuleSource::Exit(Some(AssetId(5))), vec![despawn(7)]);
    let exit = [VolumeEvent { volume: AssetId(5), entered: false }];
    assert_eq!(despawns(&tick(&mut r, &mut vars, false, &exit, &[])), 1);
}

#[test]
fn interact_source_fires_on_matching_press_only() {
    let mut vars = Variables::default();
    let mut r = rule(RuleSource::Interact(Some(AssetId(4))), vec![despawn(7)]);
    assert_eq!(despawns(&tick(&mut r, &mut vars, false, &[], &[AssetId(9)])), 0);
    assert_eq!(despawns(&tick(&mut r, &mut vars, false, &[], &[AssetId(4)])), 1);
}

#[test]
fn show_and_hide_actions_send_visibility_requests() {
    let mut vars = Variables::default();
    let mut r = rule(
        RuleSource::Start,
        vec![
            ReactionAction::Hide { target: Some(AssetId(3)) },
            ReactionAction::Show { target: Some(AssetId(4)) },
        ],
    );
    let reqs = tick(&mut r, &mut vars, false, &[], &[]);
    assert_eq!(reqs.len(), 2);
    assert_eq!(reqs[0], ReactionRequest::Visibility { name: AssetId(3), visible: false });
    assert_eq!(reqs[1], ReactionRequest::Visibility { name: AssetId(4), visible: true });
}

#[test]
fn loading_scene_shows_the_overlay_and_drives_the_bar() {
    let (phase, action) = overlay_step(OverlayPhase::Hidden, true, false, true, None, false);
    assert_eq!(phase, OverlayPhase::Shown, "overlay screen should be on the stack");
    assert_eq!(action, OverlayAction::PushAndShow);
    // The next tick, still loading with the screen on top, drives the bar.
    assert_eq!(overlay_step(phase, true, false, true, Some(true), false).1, OverlayAction::UpdateBar);
}

#[test]
fn resident_scene_never_shows_the_overlay() {
    assert_eq!(overlay_step(OverlayPhase::Hidden, false, false, true, None, false).0, OverlayPhase::Hidden);
}

#[test]
fn missing_residency_status_never_shows_the_overlay() {
    // No residency status reads as not loading.
    assert_eq!(overlay_step(OverlayPhase::Hidden, false, false, true, None, false).0, OverlayPhase::Hidden);
}

#[test]
fn an_open_pausing_screen_defers_the_overlay() {
    let mut phase = OverlayPhase::Hidden;
    for _ in 0..2 {
        phase = overlay_step(phase, true, true, true, None, false).0;
    }
    assert_eq!(phase, OverlayPhase::Hidden, "overlay must not cover an open menu");
}

const VERTEX_SIZE: usize = 48;

fn draw(vertex_offset: usize, vertex_count: usize, index_offset: usize, index_count: usize, cullable: bool) -> StreamDraw {
    StreamDraw { cullable, vertex_offset, vertex_count, index_offset, index_count }
}

#[test]
fn mesh_stream_data_includes_cullable_and_narrows_indices_to_u16() {
    // Global indices into a mesh whose vertex region starts at vertex 2.
    let indices: Vec<u32> = vec![2, 3, 2];
    // vertex_offset is a byte offset: vertex 2 is 2 * the vertex size.
    let objs = vec![draw(2 * VERTEX_SIZE, 2, 0, 3, true)];
    let data = mesh_stream_data(&objs, 4, &indices, &HashSet::new(), VERTEX_SIZE);
    let draws: Vec<usize> = data.iter().map(|m| m.draw).collect();
    assert_eq!(draws, vec![0]);
    assert_eq!(data.len(), 1);
    assert_eq!(data[0].vertex_end - data[0].vertex_start, 2);
    // Global indices 2,3,2 rebased mesh-relative (minus the base 2): 0,1,0.
    assert_eq!(data[0].indices, vec![0u16, 1, 0]);
}

#[test]
fn mesh_stream_data_skips_non_cullable_and_out_of_range() {
    let indices: Vec<u32> = vec![0, 1];
    let objs = vec![
        // Non-cullable: skybox / dynamic, stays resident.
        draw(0, 2, 0, 2, false),
        // Cullable but vertex_count overruns the 2-vertex buffer: skipped.
        draw(0, 5, 0, 2, true),
    ];
    let data = mesh_stream_data(&objs, 2, &indices, &HashSet::new(), VERTEX_SIZE);
    assert!(data.is_empty());
}

#[test]
fn deferred_draw_streams_with_an_empty_payload() {
    let objs = vec![draw(0, 9, 4, 9, true)];
    let deferred = HashSet::from([0usize]);
    let data = mesh_stream_data(&objs, 0, &[], &deferred, VERTEX_SIZE);
    assert_eq!(data.len(), 1);
    assert!(data[0].deferred && data[0].indices.is_empty());
}
