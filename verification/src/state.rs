//! Ownership of the application's state.
//!
//! The engine owns the state, and a reducer is the only way to change it. What a
//! view has to do about a change, such as dropping what it cached, comes back as
//! a [`ViewEffect`].

use vstd::prelude::*;

use crate::changes::{
    batch_topics, collect_changed_topics, ChangeSet, CommitContext, CommitError, CommitSource,
    TransactionRevision,
};
use crate::domain::{
    is_initial, Action, ActionView, AppState, Project, ProjectId, ProjectView, ProviderProfile,
    ProviderView, SearchEngineProfile, SearchEngineView,
};
use crate::views::{copy_list, opt_view, views};

verus! {

/// Something that a view may have to do about a change that was applied.
#[derive(Clone, Debug, PartialEq)]
pub enum ViewEffect {
    /// Providers were replaced; reseed any draft of one.
    ProvidersReloaded(Vec<ProviderProfile>),
    /// Search engines were replaced; reseed any draft of one.
    SearchEnginesReloaded(Vec<SearchEngineProfile>),
    /// Projects were loaded; expand them on first load.
    ProjectsLoaded(Vec<Project>),
    /// The conversation was cleared; drop what was cached per message.
    ConversationCleared,
}

/// What a view effect holds.
#[verifier::ext_equal]
pub enum ViewEffectView {
    ProvidersReloaded(Seq<ProviderView>),
    SearchEnginesReloaded(Seq<SearchEngineView>),
    ProjectsLoaded(Seq<ProjectView>),
    ConversationCleared,
}

impl View for ViewEffect {
    type V = ViewEffectView;

    open spec fn view(&self) -> ViewEffectView {
        match *self {
            ViewEffect::ProvidersReloaded(v) => ViewEffectView::ProvidersReloaded(views(v@)),
            ViewEffect::SearchEnginesReloaded(v) => ViewEffectView::SearchEnginesReloaded(
                views(v@),
            ),
            ViewEffect::ProjectsLoaded(v) => ViewEffectView::ProjectsLoaded(views(v@)),
            ViewEffect::ConversationCleared => ViewEffectView::ConversationCleared,
        }
    }
}

/// What a view has to do about an action.
pub open spec fn effect_of(action: ActionView) -> Option<ViewEffectView> {
    match action {
        ActionView::ProviderProfilesLoaded(v) => Some(ViewEffectView::ProvidersReloaded(v)),
        ActionView::SearchEngineProfilesLoaded(v) => Some(ViewEffectView::SearchEnginesReloaded(v)),
        ActionView::ProjectsLoaded(v) => Some(ViewEffectView::ProjectsLoaded(v)),
        ActionView::ClearConversation => Some(ViewEffectView::ConversationCleared),
        _ => None,
    }
}

/// What a view has to do about an action.
pub fn view_effect(action: &Action) -> (r: Option<ViewEffect>)
    ensures
        opt_view(r) == effect_of(action@),
{
    match action {
        Action::ProviderProfilesLoaded(v) => Some(ViewEffect::ProvidersReloaded(copy_list(v))),
        Action::SearchEngineProfilesLoaded(v) => Some(
            ViewEffect::SearchEnginesReloaded(copy_list(v)),
        ),
        Action::ProjectsLoaded(v) => Some(ViewEffect::ProjectsLoaded(copy_list(v))),
        Action::ClearConversation => Some(ViewEffect::ConversationCleared),
        _ => None,
    }
}

/// Whether handing the actions to `dispatch` one after the other leads from one
/// state to another.
pub open spec fn leads_to<F: Fn(AppState, &Action) -> AppState>(
    dispatch: F,
    from: AppState,
    actions: Seq<Action>,
    to: AppState,
) -> bool
    decreases actions.len(),
{
    if actions.len() == 0 {
        to == from
    } else {
        exists|mid: AppState|
            leads_to(dispatch, from, actions.drop_last(), mid) && #[trigger] call_ensures(
                dispatch,
                (mid, &actions.last()),
                to,
            )
    }
}

/// The application's state and the revision that it is at.
#[derive(Debug)]
pub struct EngineState {
    state: AppState,
    revision: TransactionRevision,
}

/// Whether a change set describes a batch that was committed at `revision`.
pub open spec fn describes(
    change: ChangeSet,
    actions: Seq<ActionView>,
    context: CommitContext,
    revision: u64,
) -> bool {
    &&& change.revision@ == revision
    &&& change.scope == context.scope
    &&& change.source == context.source
    &&& change.changed_topics@ == batch_topics(actions)
    &&& change.action_count == actions.len()
    &&& change.coalesced == context.coalesced
}

impl EngineState {
    /// The state.
    pub closed spec fn state(&self) -> AppState {
        self.state
    }

    /// The number of the last revision.
    pub closed spec fn at(&self) -> u64 {
        self.revision@
    }

    /// An empty state at the first revision.
    pub fn new() -> (r: EngineState)
        ensures
            r.at() == 0,
            is_initial(r.state()),
    {
        EngineState { state: AppState::default(), revision: TransactionRevision::new(0) }
    }

    /// A state that was filled before any action.
    pub fn from_state(state: AppState) -> (r: EngineState)
        ensures
            r.at() == 0,
            r.state() == state,
    {
        EngineState { state, revision: TransactionRevision::new(0) }
    }

    /// A state that was filled before any action, at a given revision.
    pub fn from_state_at(state: AppState, revision: TransactionRevision) -> (r: EngineState)
        ensures
            r.at() == revision@,
            r.state() == state,
    {
        EngineState { state, revision }
    }

    /// The state, for rendering.
    pub fn get(&self) -> (r: &AppState)
        ensures
            *r == self.state(),
    {
        &self.state
    }

    /// The revision of the last batch.
    pub fn revision(&self) -> (r: TransactionRevision)
        ensures
            r@ == self.at(),
    {
        self.revision
    }

    /// Applies a batch of actions through the reducer and describes it. The next
    /// revision is worked out first: where there is none, nothing is applied. An
    /// empty batch keeps the revision.
    pub fn apply_batch<F: Fn(AppState, &Action) -> AppState>(
        &mut self,
        actions: &Vec<Action>,
        context: CommitContext,
        dispatch: F,
    ) -> (r: Result<ChangeSet, CommitError>)
        requires
            forall|s: AppState, a: &Action| #[trigger] call_requires(dispatch, (s, a)),
        ensures
            match r {
                Ok(change) => {
                    &&& actions@.len() > 0 ==> old(self).at() < u64::MAX
                    &&& final(self).at() == if actions@.len() == 0 {
                        old(self).at()
                    } else {
                        (old(self).at() + 1) as u64
                    }
                    &&& leads_to(dispatch, old(self).state(), actions@, final(self).state())
                    &&& describes(change, views(actions@), context, final(self).at())
                },
                Err(error) => {
                    &&& actions@.len() > 0 && old(self).at() == u64::MAX
                    &&& error->RevisionOverflow_current@ == u64::MAX
                    &&& final(self).at() == old(self).at()
                    &&& final(self).state() == old(self).state()
                },
            },
    {
        let changed_topics = collect_changed_topics(actions);
        let next = if actions.len() == 0 {
            self.revision
        } else {
            match self.revision.checked_next() {
                Ok(next) => next,
                Err(error) => {
                    return Err(error);
                },
            }
        };
        let ghost from = self.state;
        let mut state = AppState::default();
        core::mem::swap(&mut self.state, &mut state);
        let mut i: usize = 0;
        proof {
            assert(actions@.take(0) =~= Seq::empty());
        }
        while i < actions.len()
            invariant
                i <= actions@.len(),
                forall|s: AppState, a: &Action| #[trigger] call_requires(dispatch, (s, a)),
                leads_to(dispatch, from, actions@.take(i as int), state),
            decreases actions@.len() - i,
        {
            let ghost mid = state;
            state = dispatch(state, &actions[i]);
            proof {
                let upto = actions@.take(i + 1);
                assert(upto.drop_last() =~= actions@.take(i as int));
                assert(upto.last() == actions@[i as int]);
                assert(call_ensures(dispatch, (mid, &upto.last()), state));
            }
            i = i + 1;
        }
        proof {
            assert(actions@.take(i as int) =~= actions@);
        }
        self.state = state;
        self.revision = next;
        Ok(
            ChangeSet {
                revision: next,
                scope: context.scope,
                source: context.source,
                changed_topics,
                action_count: actions.len(),
                coalesced: context.coalesced,
            },
        )
    }

    /// Applies one action as a batch of its own and returns what a view has to do
    /// about it. Where the batch cannot be committed, nothing is.
    pub fn apply<F: Fn(AppState, &Action) -> AppState>(&mut self, action: Action, dispatch: F) -> (r:
        Option<ViewEffect>)
        requires
            forall|s: AppState, a: &Action| #[trigger] call_requires(dispatch, (s, a)),
        ensures
            if old(self).at() == u64::MAX {
                &&& r is None
                &&& final(self).at() == old(self).at()
                &&& final(self).state() == old(self).state()
            } else {
                &&& opt_view(r) == effect_of(action@)
                &&& final(self).at() == old(self).at() + 1
                &&& call_ensures(dispatch, (old(self).state(), &action), final(self).state())
            },
    {
        let effect = view_effect(&action);
        let ghost before = self.state;
        let mut actions: Vec<Action> = Vec::new();
        actions.push(action);
        let result = self.apply_batch(
            &actions,
            CommitContext::global(CommitSource::InternalEffect),
            dispatch,
        );
        match result {
            Ok(_) => {
                proof {
                    let all = actions@;
                    let after = self.state;
                    assert(leads_to(dispatch, before, all, after));
                    let mid = choose|mid: AppState|
                        leads_to(dispatch, before, all.drop_last(), mid) && #[trigger] call_ensures(
                            dispatch,
                            (mid, &all.last()),
                            after,
                        );
                    assert(all.drop_last() =~= Seq::empty());
                    assert(mid == before);
                    assert(all.last() == action);
                }
                effect
            },
            Err(_) => None,
        }
    }

    /// The project whose sessions are shown.
    pub fn selected_project(&self) -> (r: Option<ProjectId>)
        ensures
            r == self.state().selected_project,
    {
        self.state.selected_project
    }
}

} // verus!
