//! The scene-loading overlay's phase machine: when its screen is pushed over a
//! streaming scene, when the bar hides and the backdrop fades, and when the
//! screen is popped again. The fade clock and the sprite edits are the
//! caller's; this decides which of them happens each tick.

use vstd::prelude::*;

verus! {

/// Where the overlay stands between ticks.
#[derive(Clone, Copy, Debug, PartialEq, Eq, Structural)]
pub enum OverlayPhase {
    /// Not on screen.
    Hidden,
    /// Fronting a load, the bar tracking its progress.
    Shown,
    /// The load finished; the backdrop is fading out over the scene.
    FadingOut,
}

/// What the caller does this tick.
#[derive(Clone, Copy, Debug, PartialEq, Eq, Structural)]
pub enum OverlayAction {
    /// Nothing.
    Idle,
    /// Push the overlay's screen and show the backdrop, bar and label.
    PushAndShow,
    /// Refresh the bar and label from the load's progress.
    UpdateBar,
    /// Push the screen again (a jump dismissed it) and refresh the bar.
    RepushAndUpdateBar,
    /// Hide the bar and label and start the fade clock.
    HideBarAndFade,
    /// A new load began mid-fade: show the backdrop, bar and label again.
    Show,
    /// Dim the backdrop by the fade clock.
    FadeBackdrop,
    /// Fully faded and on top: hide the screen.
    HideScreen,
    /// Fully faded beneath a later screen: keep the backdrop transparent.
    ClearBackdrop,
}

/// The overlay's next phase and this tick's action.
///
/// `loading`: the scene being headed to is still streaming. `menu_up`: an
/// open screen pauses the world. `has_screen`: the overlay names a screen.
/// `on_top`: whether that screen draws on top of the stack, `None` when it
/// is not in the stack. `fade_done`: the fade clock has run out.
pub open spec fn overlay_next(
    phase: OverlayPhase,
    loading: bool,
    menu_up: bool,
    has_screen: bool,
    on_top: Option<bool>,
    fade_done: bool,
) -> (OverlayPhase, OverlayAction) {
    match phase {
        OverlayPhase::Hidden => if loading && !menu_up && has_screen {
            (OverlayPhase::Shown, OverlayAction::PushAndShow)
        } else {
            (OverlayPhase::Hidden, OverlayAction::Idle)
        },
        OverlayPhase::Shown => if loading {
            if on_top is None && has_screen {
                (OverlayPhase::Shown, OverlayAction::RepushAndUpdateBar)
            } else {
                (OverlayPhase::Shown, OverlayAction::UpdateBar)
            }
        } else {
            (OverlayPhase::FadingOut, OverlayAction::HideBarAndFade)
        },
        OverlayPhase::FadingOut => if loading {
            (OverlayPhase::Shown, OverlayAction::Show)
        } else if !fade_done {
            (OverlayPhase::FadingOut, OverlayAction::FadeBackdrop)
        } else {
            match on_top {
                Some(true) => (OverlayPhase::Hidden, OverlayAction::HideScreen),
                Some(false) => (OverlayPhase::FadingOut, OverlayAction::ClearBackdrop),
                None => (OverlayPhase::Hidden, OverlayAction::Idle),
            }
        },
    }
}

/// One tick of the overlay: its next phase and what to do now. It fronts a
/// load only when nothing else covers the world, re-opens itself if a jump
/// cleared it mid-load, and pops its screen only once it is on top.
pub fn overlay_step(
    phase: OverlayPhase,
    loading: bool,
    menu_up: bool,
    has_screen: bool,
    on_top: Option<bool>,
    fade_done: bool,
) -> (r: (OverlayPhase, OverlayAction))
    ensures
        r == overlay_next(phase, loading, menu_up, has_screen, on_top, fade_done),
{
    match phase {
        OverlayPhase::Hidden => {
            if loading && !menu_up && has_screen {
                (OverlayPhase::Shown, OverlayAction::PushAndShow)
            } else {
                (OverlayPhase::Hidden, OverlayAction::Idle)
            }
        },
        OverlayPhase::Shown => {
            if loading {
                if on_top.is_none() && has_screen {
                    (OverlayPhase::Shown, OverlayAction::RepushAndUpdateBar)
                } else {
                    (OverlayPhase::Shown, OverlayAction::UpdateBar)
                }
            } else {
                (OverlayPhase::FadingOut, OverlayAction::HideBarAndFade)
            }
        },
        OverlayPhase::FadingOut => {
            if loading {
                (OverlayPhase::Shown, OverlayAction::Show)
            } else if !fade_done {
                (OverlayPhase::FadingOut, OverlayAction::FadeBackdrop)
            } else {
                match on_top {
                    Some(true) => (OverlayPhase::Hidden, OverlayAction::HideScreen),
                    Some(false) => (OverlayPhase::FadingOut, OverlayAction::ClearBackdrop),
                    None => (OverlayPhase::Hidden, OverlayAction::Idle),
                }
            }
        },
    }
}

/// An open pausing screen keeps a hidden overlay hidden, whatever is loading.
pub proof fn lemma_menu_defers_overlay(loading: bool, has_screen: bool, on_top: Option<bool>, fade_done: bool)
    ensures
        overlay_next(OverlayPhase::Hidden, loading, true, has_screen, on_top, fade_done) == (
            OverlayPhase::Hidden,
            OverlayAction::Idle,
        ),
{
}

/// While the scene streams, a shown overlay stays shown, and a fading one is
/// shown again.
pub proof fn lemma_loading_keeps_overlay(
    phase: OverlayPhase,
    menu_up: bool,
    has_screen: bool,
    on_top: Option<bool>,
    fade_done: bool,
)
    requires
        phase != OverlayPhase::Hidden,
    ensures
        overlay_next(phase, true, menu_up, has_screen, on_top, fade_done).0 == OverlayPhase::Shown,
{
}

/// The overlay leaves the screen stack only once it has fully faded, and a
/// screen of its own that is on top is then hidden rather than left behind.
pub proof fn lemma_hidden_only_after_fade(
    phase: OverlayPhase,
    loading: bool,
    menu_up: bool,
    has_screen: bool,
    on_top: Option<bool>,
    fade_done: bool,
)
    requires
        phase != OverlayPhase::Hidden,
        overlay_next(phase, loading, menu_up, has_screen, on_top, fade_done).0 == OverlayPhase::Hidden,
    ensures
        phase == OverlayPhase::FadingOut,
        !loading,
        fade_done,
        on_top == Some(true) <==> overlay_next(phase, loading, menu_up, has_screen, on_top, fade_done).1
            == OverlayAction::HideScreen,
{
}

} // verus!
