//! Ownership of the application's state.

use pi_whim::changes::{
    CommitContext, CommitError, CommitScope, CommitSource, SessionIdentity, StateTopic,
    TransactionRevision,
};
use pi_whim::domain::{
    Action, AppState, ConversationItem, ConversationRole, Project, ProviderProfile,
    ProviderProtocol, SessionStatus, SessionSummary,
};
use pi_whim::mailbox::{SessionToken, TokenCounter};
use pi_whim::state::{EngineState, ViewEffect};

/// What the actions of these tests do to the state.
fn dispatch(mut state: AppState, action: &Action) -> AppState {
    match action {
        Action::ProjectsLoaded(projects) => state.projects = projects.clone(),
        Action::SelectProject(id) => state.selected_project = Some(*id),
        Action::ProviderProfilesLoaded(profiles) => state.provider_profiles = profiles.clone(),
        Action::SetSessionStatus(status) => state.session_status = status.clone(),
        Action::UpsertConversation(item) => state.conversation.push(item.clone()),
        Action::QueueUpdated { steering, follow_up } => {
            state.pending_steering = steering.clone();
            state.pending_follow_up = follow_up.clone();
        }
        Action::ClearConversation => state.conversation.clear(),
        _ => {}
    }
    state
}

fn project(name: &str) -> Project {
    Project {
        id: 11,
        name: name.into(),
        path: format!("/tmp/{name}"),
        pinned: false,
        last_opened_ms: 1,
    }
}

fn provider(name: &str) -> ProviderProfile {
    ProviderProfile {
        id: 12,
        name: name.into(),
        base_url: "https://example.test".into(),
        protocol: ProviderProtocol::default(),
        models: Vec::new(),
        updated_at_ms: 1,
        has_api_key: false,
    }
}

fn message(id: &str) -> ConversationItem {
    ConversationItem {
        id: id.into(),
        role: ConversationRole::Assistant,
        full_text: "hello".into(),
        streaming: false,
        tool_name: None,
        tool_report: None,
        tool_details: None,
        is_error: false,
        model: None,
        attachments: Vec::new(),
    }
}

#[test]
fn actions_reach_the_reducer() {
    let mut engine = EngineState::new();
    engine.apply(Action::SetSessionStatus(SessionStatus::Ready), dispatch);
    assert_eq!(engine.get().session_status, SessionStatus::Ready);
}

#[test]
fn most_actions_need_no_view_follow_up() {
    let mut engine = EngineState::new();
    assert_eq!(
        engine.apply(Action::SetSessionStatus(SessionStatus::Ready), dispatch),
        None
    );
    assert_eq!(
        engine.apply(Action::UpsertConversation(message("a")), dispatch),
        None
    );
}

#[test]
fn reloading_providers_asks_the_view_to_reseed_its_draft() {
    let mut engine = EngineState::new();
    let profile = provider("Example");
    let effect = engine.apply(Action::ProviderProfilesLoaded(vec![profile.clone()]), dispatch);

    assert_eq!(engine.get().provider_profiles.len(), 1);
    assert_eq!(effect, Some(ViewEffect::ProvidersReloaded(vec![profile])));
}

#[test]
fn clearing_the_conversation_asks_the_view_to_drop_caches() {
    let mut engine = EngineState::new();
    engine.apply(Action::UpsertConversation(message("a")), dispatch);
    assert!(!engine.get().conversation.is_empty());

    let effect = engine.apply(Action::ClearConversation, dispatch);

    assert!(engine.get().conversation.is_empty());
    assert_eq!(effect, Some(ViewEffect::ConversationCleared));
}

#[test]
fn loading_projects_reports_them_for_first_time_expansion() {
    let mut engine = EngineState::new();
    let project = project("example");
    let effect = engine.apply(Action::ProjectsLoaded(vec![project.clone()]), dispatch);

    assert_eq!(engine.get().projects.len(), 1);
    assert_eq!(effect, Some(ViewEffect::ProjectsLoaded(vec![project])));
}

#[test]
fn selected_project_reads_through_to_state() {
    let mut engine = EngineState::new();
    let project = project("example");
    let project_id = project.id;
    engine.apply(Action::ProjectsLoaded(vec![project]), dispatch);
    engine.apply(Action::SelectProject(project_id), dispatch);

    assert_eq!(engine.selected_project(), Some(project_id));
}

#[test]
fn sessions_loaded_needs_no_view_follow_up() {
    let mut engine = EngineState::new();
    let project = project("example");
    let project_id = project.id;
    engine.apply(Action::ProjectsLoaded(vec![project]), dispatch);

    let summary = SessionSummary {
        id: 21,
        project_id,
        pi_path: "/tmp/example/session.jsonl".into(),
        title: "Example".into(),
        preview: String::new(),
        updated_at_ms: 0,
    };
    assert_eq!(
        engine.apply(
            Action::SessionsLoaded { project_id, sessions: vec![summary] },
            dispatch
        ),
        None
    );
}

#[test]
fn a_batch_applies_every_action_and_allocates_one_revision() {
    let mut engine = EngineState::new();
    let change_set = engine
        .apply_batch(
            &vec![
                Action::SetSessionStatus(SessionStatus::Starting),
                Action::SetSessionStatus(SessionStatus::Ready),
                Action::QueueUpdated {
                    steering: vec!["steer".into()],
                    follow_up: vec!["follow".into()],
                },
            ],
            CommitContext::global_coalesced(CommitSource::RuntimeEvent),
            dispatch,
        )
        .expect("a normal revision should commit");

    assert_eq!(change_set.revision, TransactionRevision::new(1));
    assert_eq!(engine.revision(), TransactionRevision::new(1));
    assert_eq!(change_set.action_count, 3);
    assert_eq!(
        change_set.changed_topics,
        vec![StateTopic::SessionRuntime, StateTopic::Queue,]
    );
    assert!(change_set.coalesced);
    assert_eq!(engine.get().session_status, SessionStatus::Ready);
    assert_eq!(engine.get().pending_steering, vec!["steer"]);
    assert_eq!(engine.get().pending_follow_up, vec!["follow"]);
}

#[test]
fn an_empty_batch_is_an_explicit_noop_without_revision_change() {
    let mut engine = EngineState::new();
    let context = CommitContext::global(CommitSource::Test);
    let change_set = engine
        .apply_batch(&Vec::<Action>::new(), context, dispatch)
        .expect("an empty batch cannot overflow");

    assert!(change_set.is_noop());
    assert_eq!(change_set.revision, TransactionRevision::zero());
    assert_eq!(engine.revision(), TransactionRevision::zero());
    assert_eq!(change_set.scope, CommitScope::Global);
    assert_eq!(change_set.source, CommitSource::Test);
    assert!(change_set.changed_topics.is_empty());
}

#[test]
fn a_session_context_is_preserved_in_the_change_set() {
    let mut engine = EngineState::new();
    let identity = SessionIdentity::with_ids(
        SessionToken::next(&mut TokenCounter::new()),
        3,
        Some(0),
        Some(1),
    );
    let change_set = engine
        .apply_batch(
            &vec![Action::SetSessionStatus(SessionStatus::Streaming)],
            CommitContext::session(identity, CommitSource::UserCommand),
            dispatch,
        )
        .expect("a normal revision should commit");

    assert_eq!(change_set.scope, CommitScope::Session(identity));
    assert_eq!(change_set.source, CommitSource::UserCommand);
}

#[test]
fn revision_overflow_returns_an_error_without_applying_actions() {
    let mut engine =
        EngineState::from_state_at(AppState::default(), TransactionRevision::highest());

    let result = engine.apply_batch(
        &vec![Action::SetSessionStatus(SessionStatus::Ready)],
        CommitContext::global(CommitSource::Test),
        dispatch,
    );

    assert_eq!(
        result,
        Err(CommitError::RevisionOverflow { current: TransactionRevision::highest() })
    );
    assert_eq!(engine.revision(), TransactionRevision::highest());
    assert_eq!(engine.get().session_status, SessionStatus::Offline);
}

#[test]
fn legacy_apply_swallows_commit_error_without_applying_or_effect() {
    let mut engine =
        EngineState::from_state_at(AppState::default(), TransactionRevision::highest());
    let profile = provider("Overflow");

    let effect = engine.apply(Action::ProviderProfilesLoaded(vec![profile]), dispatch);

    assert_eq!(effect, None);
    assert_eq!(engine.revision(), TransactionRevision::highest());
    assert!(engine.get().provider_profiles.is_empty());
}

#[test]
fn legacy_apply_still_runs_the_reducer_and_returns_view_effects() {
    let mut engine = EngineState::new();
    let profile = provider("Legacy");

    let effect = engine.apply(Action::ProviderProfilesLoaded(vec![profile.clone()]), dispatch);

    assert_eq!(effect, Some(ViewEffect::ProvidersReloaded(vec![profile])));
    assert_eq!(engine.revision(), TransactionRevision::new(1));
    assert_eq!(engine.get().provider_profiles.len(), 1);
}
