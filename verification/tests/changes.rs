//! Revisions, topics and change sets.

use pi_whim::changes::{
    collect_changed_topics, topics_for_action, CommitContext, CommitError, CommitScope,
    CommitSource, SessionIdentity, StateTopic, TransactionRevision,
};
use pi_whim::domain::{
    Action, AgentTeamConfig, BashPolicy, ConversationItem, ConversationRole, Language, QueueMode,
    SessionMetrics, SessionStatus, ThinkingLevel,
};
use pi_whim::json::Json;
use pi_whim::mailbox::{SessionToken, TokenCounter};

fn conversation_item() -> ConversationItem {
    ConversationItem {
        id: "message".into(),
        role: ConversationRole::Assistant,
        full_text: String::new(),
        streaming: false,
        tool_name: None,
        tool_report: None,
        tool_details: None,
        is_error: false,
        model: None,
        attachments: Vec::new(),
    }
}

fn all_actions() -> Vec<Action> {
    let project_id: u128 = 0;
    let session_id: u128 = 1;
    vec![
        Action::ProjectsLoaded(Vec::new()),
        Action::SessionsLoaded { project_id, sessions: Vec::new() },
        Action::SelectProject(project_id),
        Action::SelectSession(session_id),
        Action::SessionRunning { path: String::new(), running: false },
        Action::SetLanguage(Language::default()),
        Action::SetBashPolicy(BashPolicy::default()),
        Action::SetBashBlockedPatterns(Vec::new()),
        Action::SetAgentTeamConfig(AgentTeamConfig::default()),
        Action::SetOneShotAiConfig(Json::Null),
        Action::SetProjectHookStatus(Json::Null),
        Action::SetHookAudit(Vec::new()),
        Action::AgentsMdFilesLoaded(Json::Null),
        Action::ProviderProfilesLoaded(Vec::new()),
        Action::ProviderKeyStatusLoaded(Vec::new()),
        Action::SearchEngineProfilesLoaded(Vec::new()),
        Action::SearchEngineKeyStatusLoaded(Vec::new()),
        Action::RuntimeControlsUpdated {
            current_model: None,
            available_models: Vec::new(),
            thinking_level: ThinkingLevel::default(),
            available_thinking_levels: Vec::new(),
            auto_compaction_enabled: false,
            steering_mode: QueueMode::default(),
            follow_up_mode: QueueMode::default(),
        },
        Action::RuntimeCommandsUpdated(Vec::new()),
        Action::SetPendingModel(None),
        Action::SessionMetricsUpdated(SessionMetrics::default()),
        Action::SetSessionStatus(SessionStatus::default()),
        Action::UpsertConversation(conversation_item()),
        Action::RekeyConversation { from: "from".into(), to: "to".into() },
        Action::AppendAssistantText { id: "message".into(), text: "text".into() },
        Action::FinishMessage("message".into()),
        Action::QueueUpdated { steering: Vec::new(), follow_up: Vec::new() },
        Action::ClearConversation,
    ]
}

#[test]
fn every_action_maps_to_at_least_one_topic() {
    for action in all_actions() {
        assert!(!topics_for_action(&action).is_empty());
    }
}

#[test]
fn mappings_cover_multiple_topics_when_selection_can_clear_conversation() {
    let topics = topics_for_action(&Action::SelectProject(0));
    assert_eq!(topics, &[StateTopic::Selection, StateTopic::Conversation]);
}

#[test]
fn checked_revision_increment_reports_overflow() {
    assert_eq!(
        TransactionRevision::new(41).checked_next(),
        Ok(TransactionRevision::new(42))
    );
    assert_eq!(
        TransactionRevision::highest().checked_next(),
        Err(CommitError::RevisionOverflow { current: TransactionRevision::highest() })
    );
}

#[test]
fn context_constructors_preserve_scope_source_and_coalesced_flag() {
    let token = SessionToken::next(&mut TokenCounter::new());
    let identity = SessionIdentity::with_ids(token, 7, Some(0), Some(1));
    let session = CommitContext::session_coalesced(identity, CommitSource::RuntimeEvent);
    assert_eq!(session.scope, CommitScope::Session(identity));
    assert_eq!(session.source, CommitSource::RuntimeEvent);
    assert!(session.coalesced);
    assert_eq!(identity.session_token(), token);

    let global = CommitContext::global(CommitSource::PersistenceLoad);
    assert_eq!(global.scope, CommitScope::Global);
    assert_eq!(global.source, CommitSource::PersistenceLoad);
    assert!(!global.coalesced);
    assert!(global.with_coalesced(true).coalesced);
}

#[test]
fn all_topics_are_fixed_and_unique() {
    let topics = StateTopic::ALL;
    for (index, topic) in topics.iter().enumerate() {
        assert!(!topics[..index].contains(topic));
    }
    assert_eq!(topics.len(), 12);
}

#[test]
fn every_state_topic_has_a_stable_snake_case_name_and_display() {
    let expected = [
        (StateTopic::Projects, "projects"),
        (StateTopic::Sessions, "sessions"),
        (StateTopic::Selection, "selection"),
        (StateTopic::Conversation, "conversation"),
        (StateTopic::SessionRuntime, "session_runtime"),
        (StateTopic::RuntimeControls, "runtime_controls"),
        (StateTopic::Queue, "queue"),
        (StateTopic::Preferences, "preferences"),
        (StateTopic::Providers, "providers"),
        (StateTopic::SearchEngines, "search_engines"),
        (StateTopic::Hooks, "hooks"),
        (StateTopic::AgentsMd, "agents_md"),
    ];

    assert_eq!(expected.len(), StateTopic::ALL.len());
    for (topic, name) in expected {
        assert_eq!(topic.as_str(), name);
    }
}

#[test]
fn topics_of_a_batch_come_once_in_first_seen_order() {
    let topics = collect_changed_topics(&vec![
        Action::ClearConversation,
        Action::SelectProject(1),
        Action::ClearConversation,
    ]);
    assert_eq!(topics, vec![StateTopic::Conversation, StateTopic::Selection]);
}

#[test]
fn an_overflow_says_which_revision_it_was_at() {
    let error = TransactionRevision::highest().checked_next().unwrap_err();
    assert!(error.message().contains("18446744073709551615"));
    assert_eq!(TransactionRevision::zero().to_text(), "0");
}
