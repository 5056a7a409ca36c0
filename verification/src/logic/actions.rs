//! Action dispatch: each firing rule's actions become requests on the
//! runtime's queues (spawn, despawn, reparent, audio, scene, screen, story,
//! visibility), or writes to the shared variable store. The transforms,
//! volumes and transitions an action carries travel with it, keyed by the
//! action's position; the dispatch decides which requests go out, in what
//! order, and what the variables become.

use vstd::prelude::*;
use crate::logic::rules::AssetId;
use crate::logic::vars::{applied, read_var, saturating_sum, Variables};

verus! {

/// How a reaction drives story playback.
#[derive(Clone, Copy, Debug, PartialEq, Eq, Structural)]
pub enum StoryPlayback {
    Start,
    Continue,
}

/// What a reaction does when it fires. A reference left unresolved (`None`)
/// makes the action a no-op.
#[derive(Debug)]
pub enum ReactionAction {
    /// Assign `value` to a variable, or add it when `add` is set.
    SetVar { name: String, value: i32, add: bool },
    /// Spawn a copy of a template.
    Spawn { template: Option<AssetId> },
    /// Despawn a named entity.
    Despawn { target: Option<AssetId> },
    /// Move a named entity under another one, or to the root.
    Reparent { child: Option<AssetId>, parent: Option<AssetId> },
    /// Play an audio clip.
    Sound { clip: Option<AssetId> },
    /// Jump to a scene.
    Scene { scene: Option<AssetId> },
    /// Show a UI screen.
    Screen { screen: Option<AssetId> },
    /// Start or continue the story.
    Story(StoryPlayback),
    /// Make a named entity visible.
    Show { target: Option<AssetId> },
    /// Make a named entity invisible.
    Hide { target: Option<AssetId> },
}

/// A request the dispatch sends. `action` is the position of the action it
/// came from, whose transform, volume or transition it carries.
#[derive(Clone, Copy, Debug, PartialEq, Eq, Structural)]
pub enum ReactionRequest {
    Spawn { action: usize, template: AssetId },
    Despawn { name: AssetId },
    Reparent { child: AssetId, parent: Option<AssetId> },
    PlayCue { action: usize, clip: AssetId },
    Scene { action: usize, scene: AssetId },
    ShowScreen { screen: AssetId },
    Story(StoryPlayback),
    Visibility { name: AssetId, visible: bool },
}

/// The request the action at position `i` sends, if any.
pub open spec fn request_of(action: ReactionAction, i: int) -> Option<ReactionRequest> {
    match action {
        ReactionAction::SetVar { .. } => None,
        ReactionAction::Spawn { template } => match template {
            Some(t) => Some(ReactionRequest::Spawn { action: i as usize, template: t }),
            None => None,
        },
        ReactionAction::Despawn { target } => match target {
            Some(n) => Some(ReactionRequest::Despawn { name: n }),
            None => None,
        },
        ReactionAction::Reparent { child, parent } => match child {
            Some(c) => Some(ReactionRequest::Reparent { child: c, parent }),
            None => None,
        },
        ReactionAction::Sound { clip } => match clip {
            Some(c) => Some(ReactionRequest::PlayCue { action: i as usize, clip: c }),
            None => None,
        },
        ReactionAction::Scene { scene } => match scene {
            Some(s) => Some(ReactionRequest::Scene { action: i as usize, scene: s }),
            None => None,
        },
        ReactionAction::Screen { screen } => match screen {
            Some(s) => Some(ReactionRequest::ShowScreen { screen: s }),
            None => None,
        },
        ReactionAction::Story(p) => Some(ReactionRequest::Story(p)),
        ReactionAction::Show { target } => match target {
            Some(n) => Some(ReactionRequest::Visibility { name: n, visible: true }),
            None => None,
        },
        ReactionAction::Hide { target } => match target {
            Some(n) => Some(ReactionRequest::Visibility { name: n, visible: false }),
            None => None,
        },
    }
}

/// The requests a list of actions sends, in action order.
pub open spec fn requests_of(actions: Seq<ReactionAction>) -> Seq<ReactionRequest>
    decreases actions.len(),
{
    if actions.len() == 0 {
        Seq::empty()
    } else {
        let before = requests_of(actions.drop_last());
        match request_of(actions.last(), actions.len() - 1) {
            Some(r) => before.push(r),
            None => before,
        }
    }
}

/// The variables after every `SetVar` among the actions, in order.
pub open spec fn sets_applied(vars: Map<Seq<char>, i32>, actions: Seq<ReactionAction>) -> Map<
    Seq<char>,
    i32,
>
    decreases actions.len(),
{
    if actions.len() == 0 {
        vars
    } else {
        let before = sets_applied(vars, actions.drop_last());
        match actions.last() {
            ReactionAction::SetVar { name, value, add } => applied(before, name@, value, add),
            _ => before,
        }
    }
}

/// Run a firing rule's actions in order: apply each `SetVar` to the variables
/// and collect one request for every other action whose reference resolved.
pub fn reaction_requests(vars: &mut Variables, actions: &[ReactionAction]) -> (r: Vec<
    ReactionRequest,
>)
    ensures
        final(vars)@ == sets_applied(old(vars)@, actions@),
        r@ == requests_of(actions@),
{
    let ghost start = vars@;
    let mut out: Vec<ReactionRequest> = Vec::new();
    let mut i: usize = 0;
    while i < actions.len()
        invariant
            i <= actions@.len(),
            vars@ == sets_applied(start, actions@.take(i as int)),
            out@ == requests_of(actions@.take(i as int)),
        decreases actions@.len() - i,
    {
        proof {
            assert(actions@.take(i + 1).drop_last() =~= actions@.take(i as int));
            assert(actions@.take(i + 1).last() == actions@[i as int]);
        }
        match &actions[i] {
            ReactionAction::SetVar { name, value, add } => {
                vars.apply(name.as_str(), *value, *add);
            },
            ReactionAction::Spawn { template } => {
                if let Some(t) = template {
                    out.push(ReactionRequest::Spawn { action: i, template: *t });
                }
            },
            ReactionAction::Despawn { target } => {
                if let Some(n) = target {
                    out.push(ReactionRequest::Despawn { name: *n });
                }
            },
            ReactionAction::Reparent { child, parent } => {
                if let Some(c) = child {
                    out.push(ReactionRequest::Reparent { child: *c, parent: *parent });
                }
            },
            ReactionAction::Sound { clip } => {
                if let Some(c) = clip {
                    out.push(ReactionRequest::PlayCue { action: i, clip: *c });
                }
            },
            ReactionAction::Scene { scene } => {
                if let Some(s) = scene {
                    out.push(ReactionRequest::Scene { action: i, scene: *s });
                }
            },
            ReactionAction::Screen { screen } => {
                if let Some(s) = screen {
                    out.push(ReactionRequest::ShowScreen { screen: *s });
                }
            },
            ReactionAction::Story(p) => {
                out.push(ReactionRequest::Story(*p));
            },
            ReactionAction::Show { target } => {
                if let Some(n) = target {
                    out.push(ReactionRequest::Visibility { name: *n, visible: true });
                }
            },
            ReactionAction::Hide { target } => {
                if let Some(n) = target {
                    out.push(ReactionRequest::Visibility { name: *n, visible: false });
                }
            },
        }
        i += 1;
    }
    proof {
        assert(actions@.take(actions@.len() as int) =~= actions@);
    }
    out
}

/// Actions that write no variable leave the store as it was.
pub proof fn lemma_no_sets_keep_vars(vars: Map<Seq<char>, i32>, actions: Seq<ReactionAction>)
    requires
        forall|i: int| 0 <= i < actions.len() ==> !(#[trigger] actions[i] is SetVar),
    ensures
        sets_applied(vars, actions) == vars,
    decreases actions.len(),
{
    if actions.len() > 0 {
        lemma_no_sets_keep_vars(vars, actions.drop_last());
        assert(!(actions[actions.len() - 1] is SetVar));
    }
}

/// No action sends more than one request, and a `SetVar` sends none.
pub proof fn lemma_requests_bounded(actions: Seq<ReactionAction>)
    ensures
        requests_of(actions).len() <= actions.len(),
    decreases actions.len(),
{
    if actions.len() > 0 {
        lemma_requests_bounded(actions.drop_last());
    }
}

/// Whether an action sends a request: every action but a variable write,
/// once its reference resolved (story playback has none to resolve).
pub open spec fn resolves(action: ReactionAction) -> bool {
    match action {
        ReactionAction::SetVar { .. } => false,
        ReactionAction::Spawn { template } => template is Some,
        ReactionAction::Despawn { target } => target is Some,
        ReactionAction::Reparent { child, .. } => child is Some,
        ReactionAction::Sound { clip } => clip is Some,
        ReactionAction::Scene { scene } => scene is Some,
        ReactionAction::Screen { screen } => screen is Some,
        ReactionAction::Story(_) => true,
        ReactionAction::Show { target } => target is Some,
        ReactionAction::Hide { target } => target is Some,
    }
}

/// Request `r` carries out the action at position `i`: the same kind of
/// request, on the action's own reference.
pub open spec fn answers(r: ReactionRequest, action: ReactionAction, i: int) -> bool {
    match r {
        ReactionRequest::Spawn { action: at, template } => at == i && (action matches ReactionAction::Spawn {
            template: t,
        } && t == Some(template)),
        ReactionRequest::Despawn { name } => action matches ReactionAction::Despawn { target: t } && t == Some(name),
        ReactionRequest::Reparent { child, parent } => action matches ReactionAction::Reparent {
            child: c,
            parent: p,
        } && c == Some(child) && p == parent,
        ReactionRequest::PlayCue { action: at, clip } => at == i && (action matches ReactionAction::Sound {
            clip: c,
        } && c == Some(clip)),
        ReactionRequest::Scene { action: at, scene } => at == i && (action matches ReactionAction::Scene {
            scene: c,
        } && c == Some(scene)),
        ReactionRequest::ShowScreen { screen } => action matches ReactionAction::Screen { screen: c } && c == Some(
            screen,
        ),
        ReactionRequest::Story(p) => action matches ReactionAction::Story(q) && p == q,
        ReactionRequest::Visibility { name, visible } => if visible {
            action matches ReactionAction::Show { target: t } && t == Some(name)
        } else {
            action matches ReactionAction::Hide { target: t } && t == Some(name)
        },
    }
}

/// How many of the actions send a request.
pub open spec fn resolving(actions: Seq<ReactionAction>) -> nat
    decreases actions.len(),
{
    if actions.len() == 0 {
        0
    } else {
        resolving(actions.drop_last()) + if resolves(actions.last()) { 1nat } else { 0nat }
    }
}

/// Every action whose reference resolved sends exactly one request, which
/// carries out that action; a variable write or an unresolved action sends
/// none.
pub proof fn lemma_each_resolved_action_sends_its_request(action: ReactionAction, i: int)
    requires
        0 <= i <= usize::MAX,
    ensures
        request_of(action, i) is Some <==> resolves(action),
        request_of(action, i) matches Some(r) ==> answers(r, action, i),
{
}

/// A dispatch sends one request per resolved action, no more and no fewer,
/// and its last request, if the last action resolved, carries out that
/// action.
pub proof fn lemma_dispatch_sends_one_request_per_resolved_action(actions: Seq<ReactionAction>)
    requires
        actions.len() <= usize::MAX + 1,
    ensures
        requests_of(actions).len() == resolving(actions),
        actions.len() > 0 && resolves(actions.last()) ==> answers(
            requests_of(actions).last(),
            actions.last(),
            actions.len() - 1,
        ),
    decreases actions.len(),
{
    if actions.len() > 0 {
        lemma_dispatch_sends_one_request_per_resolved_action(actions.drop_last());
        lemma_each_resolved_action_sends_its_request(actions.last(), actions.len() - 1);
    }
}

/// A single variable write leaves the variable reading what it wrote (or the
/// saturated sum for an add) and every other variable as it was.
pub proof fn lemma_set_writes_its_variable(
    vars: Map<Seq<char>, i32>,
    name: String,
    value: i32,
    add: bool,
    other: Seq<char>,
)
    ensures
        ({
            let after = sets_applied(vars, seq![ReactionAction::SetVar { name, value, add }]);
            &&& read_var(after, name@) == if add {
                saturating_sum(read_var(vars, name@), value)
            } else {
                value
            }
            &&& other != name@ ==> read_var(after, other) == read_var(vars, other)
        }),
{
    let s = seq![ReactionAction::SetVar { name, value, add }];
    assert(s.drop_last() =~= Seq::<ReactionAction>::empty());
    assert(sets_applied(vars, s.drop_last()) == vars);
    assert(s.last() == ReactionAction::SetVar { name, value, add });
    assert(sets_applied(vars, s) == applied(vars, name@, value, add));
    crate::logic::vars::lemma_read_after_apply(vars, name@, value, add, other);
}

} // verus!
