use concinnity_engine::gfx::skinned_layout::{skinned_layout, IndexRange, Reservation, SkinnedShape};
use concinnity_engine::hud::loading_overlay::{overlay_step, OverlayAction, OverlayPhase};
use concinnity_engine::logic::actions::{
    reaction_requests, ReactionAction, ReactionRequest, StoryPlayback,
};
use concinnity_engine::logic::rules::AssetId;
use concinnity_engine::logic::vars::Variables;
use concinnity_engine::platform::{backend_platform, Platform};

#[test]
fn loading_scene_pushes_the_overlay() {
    let (phase, action) = overlay_step(OverlayPhase::Hidden, true, false, true, None, false);
    assert_eq!(phase, OverlayPhase::Shown);
    assert_eq!(action, OverlayAction::PushAndShow);
}

#[test]
fn resident_scene_leaves_the_overlay_hidden() {
    assert_eq!(
        overlay_step(OverlayPhase::Hidden, false, false, true, None, false),
        (OverlayPhase::Hidden, OverlayAction::Idle)
    );
}

#[test]
fn open_menu_defers_the_overlay() {
    assert_eq!(
        overlay_step(OverlayPhase::Hidden, true, true, true, None, false),
        (OverlayPhase::Hidden, OverlayAction::Idle)
    );
}

#[test]
fn overlay_without_a_screen_never_shows() {
    assert_eq!(
        overlay_step(OverlayPhase::Hidden, true, false, false, None, false),
        (OverlayPhase::Hidden, OverlayAction::Idle)
    );
}

#[test]
fn shown_overlay_tracks_progress_and_reopens_after_a_jump() {
    assert_eq!(
        overlay_step(OverlayPhase::Shown, true, false, true, Some(true), false),
        (OverlayPhase::Shown, OverlayAction::UpdateBar)
    );
    assert_eq!(
        overlay_step(OverlayPhase::Shown, true, false, true, None, false),
        (OverlayPhase::Shown, OverlayAction::RepushAndUpdateBar)
    );
}

#[test]
fn finished_load_fades_then_hides_the_overlay() {
    assert_eq!(
        overlay_step(OverlayPhase::Shown, false, false, true, Some(true), false),
        (OverlayPhase::FadingOut, OverlayAction::HideBarAndFade)
    );
    assert_eq!(
        overlay_step(OverlayPhase::FadingOut, false, false, true, Some(true), false),
        (OverlayPhase::FadingOut, OverlayAction::FadeBackdrop)
    );
    assert_eq!(
        overlay_step(OverlayPhase::FadingOut, false, false, true, Some(false), true),
        (OverlayPhase::FadingOut, OverlayAction::ClearBackdrop)
    );
    assert_eq!(
        overlay_step(OverlayPhase::FadingOut, false, false, true, Some(true), true),
        (OverlayPhase::Hidden, OverlayAction::HideScreen)
    );
    assert_eq!(
        overlay_step(OverlayPhase::FadingOut, false, false, true, None, true),
        (OverlayPhase::Hidden, OverlayAction::Idle)
    );
}

#[test]
fn new_load_mid_fade_shows_the_overlay_again() {
    assert_eq!(
        overlay_step(OverlayPhase::FadingOut, true, false, true, Some(true), true),
        (OverlayPhase::Shown, OverlayAction::Show)
    );
}

#[test]
fn reaction_actions_dispatch_in_order_and_skip_unresolved_targets() {
    let mut vars = Variables::default();
    let actions = vec![
        ReactionAction::SetVar { name: "doors".to_string(), value: 2, add: false },
        ReactionAction::Spawn { template: Some(AssetId(7)) },
        ReactionAction::Despawn { target: None },
        ReactionAction::SetVar { name: "doors".to_string(), value: 3, add: true },
        ReactionAction::Reparent { child: Some(AssetId(4)), parent: None },
        ReactionAction::Sound { clip: Some(AssetId(9)) },
        ReactionAction::Scene { scene: None },
        ReactionAction::Screen { screen: Some(AssetId(11)) },
        ReactionAction::Story(StoryPlayback::Continue),
        ReactionAction::Show { target: Some(AssetId(5)) },
        ReactionAction::Hide { target: Some(AssetId(6)) },
    ];
    let requests = reaction_requests(&mut vars, &actions);
    assert_eq!(vars.get("doors"), 5);
    assert_eq!(
        requests,
        vec![
            ReactionRequest::Spawn { action: 1, template: AssetId(7) },
            ReactionRequest::Reparent { child: AssetId(4), parent: None },
            ReactionRequest::PlayCue { action: 5, clip: AssetId(9) },
            ReactionRequest::ShowScreen { screen: AssetId(11) },
            ReactionRequest::Story(StoryPlayback::Continue),
            ReactionRequest::Visibility { name: AssetId(5), visible: true },
            ReactionRequest::Visibility { name: AssetId(6), visible: false },
        ]
    );
}

#[test]
fn reaction_add_saturates() {
    let mut vars = Variables::default();
    let actions = vec![
        ReactionAction::SetVar { name: "n".to_string(), value: i32::MAX, add: false },
        ReactionAction::SetVar { name: "n".to_string(), value: 1, add: true },
    ];
    assert!(reaction_requests(&mut vars, &actions).is_empty());
    assert_eq!(vars.get("n"), i32::MAX);
}

#[test]
fn compiled_backend_wins_over_the_host() {
    assert_eq!(backend_platform(Some(Platform::Vulkan), "windows"), Platform::Vulkan);
    assert_eq!(backend_platform(None, "windows"), Platform::DirectX);
    assert_eq!(backend_platform(None, "macos"), Platform::Metal);
}

#[test]
fn skinned_layout_gives_each_copy_its_own_region() {
    let shapes = vec![
        SkinnedShape { vertex_count: 3, lists: vec![vec![0, 1, 2], vec![0, 2]], max_instances: 2, has_source: true },
        SkinnedShape { vertex_count: 4, lists: vec![vec![3, 2, 1, 0]], max_instances: 0, has_source: false },
    ];
    let layout = skinned_layout(&shapes, true);
    assert_eq!(layout.slots.len(), 4);
    let bases: Vec<u32> = layout.slots.iter().map(|s| s.vertex_base).collect();
    assert_eq!(bases, vec![0, 3, 6, 9]);
    let kinds: Vec<(usize, bool)> = layout.slots.iter().map(|s| (s.shape, s.template)).collect();
    assert_eq!(kinds, vec![(0, true), (0, false), (0, false), (1, true)]);
    assert_eq!(layout.vertex_total, 13);
    assert_eq!(
        layout.indices,
        vec![0, 1, 2, 0, 2, 3, 4, 5, 3, 5, 6, 7, 8, 6, 8, 12, 11, 10, 9]
    );
    assert_eq!(
        layout.slots[1].ranges,
        vec![IndexRange { offset: 5, count: 3 }, IndexRange { offset: 8, count: 2 }]
    );
    assert_eq!(layout.slots[3].ranges, vec![IndexRange { offset: 15, count: 4 }]);
    assert_eq!(
        layout.reservations,
        vec![Reservation { template: 0, copy: 1 }, Reservation { template: 0, copy: 2 }]
    );
    assert_eq!(layout.sources, vec![0]);
}

#[test]
fn skinned_layout_without_capture_records_no_sources() {
    let shapes = vec![SkinnedShape { vertex_count: 1, lists: vec![vec![0]], max_instances: 1, has_source: true }];
    let layout = skinned_layout(&shapes, false);
    assert!(layout.sources.is_empty());
    assert_eq!(layout.indices, vec![0, 1]);
}
