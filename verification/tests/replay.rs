//! Selections that follow the state.

use std::cell::Cell;

use pi_whim::changes::{ChangeSet, CommitScope, CommitSource, StateTopic, TransactionRevision};
use pi_whim::domain::{AppState, ConversationItem, ConversationRole};
use pi_whim::replay::{ReplaySelection, StateSelector, StateSelectorError};

fn change_set(topics: Vec<StateTopic>, action_count: usize) -> ChangeSet {
    ChangeSet {
        revision: TransactionRevision::new(1),
        scope: CommitScope::Global,
        source: CommitSource::Test,
        changed_topics: topics,
        action_count,
        coalesced: false,
    }
}

fn conversation_item(id: &str) -> ConversationItem {
    ConversationItem {
        id: id.into(),
        role: ConversationRole::Assistant,
        full_text: String::new(),
        streaming: false,
        tool_name: None,
        tool_report: None,
        tool_details: None,
        is_error: false,
        model: None,
        attachments: Vec::new(),
    }
}

#[test]
fn initial_replay_is_available_to_the_first_subscriber() {
    let mut state = AppState::default();
    state.conversation.push(conversation_item("initial"));
    let selector = StateSelector::new(&vec![StateTopic::Conversation], |state: &AppState| {
        state.conversation.len()
    })
    .unwrap();
    let selection = ReplaySelection::new(selector, &state);

    assert_eq!(*selection.current(), 1);
}

#[test]
fn unrelated_and_noop_changes_do_not_recompute_or_emit() {
    let count = Cell::new(0);
    let selector = StateSelector::new(&vec![StateTopic::Conversation], |state: &AppState| {
        count.set(count.get() + 1);
        state.conversation.len()
    })
    .unwrap();
    let state = AppState::default();
    let mut selection = ReplaySelection::new(selector, &state);
    assert_eq!(*selection.current(), 0);
    assert_eq!(count.get(), 1);

    assert!(!selection.publish(&change_set(vec![StateTopic::Queue], 1), &state));
    assert!(!selection.publish(&change_set(vec![StateTopic::Conversation], 0), &state));
    assert_eq!(count.get(), 1);
}

#[test]
fn related_equal_projection_does_not_emit() {
    let state = AppState::default();
    let selector = StateSelector::new(&vec![StateTopic::Conversation], |state: &AppState| {
        state.conversation.len()
    })
    .unwrap();
    let mut selection = ReplaySelection::new(selector, &state);

    assert!(!selection.publish(&change_set(vec![StateTopic::Conversation], 1), &state));
    assert_eq!(*selection.current(), 0);
}

#[test]
fn related_changed_projection_emits() {
    let selector = StateSelector::new(&vec![StateTopic::Conversation], |state: &AppState| {
        state.conversation.len()
    })
    .unwrap();
    let mut selection = ReplaySelection::new(selector, &AppState::default());

    let mut changed_state = AppState::default();
    changed_state.conversation.push(conversation_item("initial"));
    assert!(selection.publish(&change_set(vec![StateTopic::Conversation], 1), &changed_state));
    assert_eq!(*selection.current(), 1);
}

#[test]
fn one_selector_can_match_and_project_multiple_topics() {
    let selector = StateSelector::new(
        &vec![StateTopic::Conversation, StateTopic::Queue],
        |state: &AppState| {
            (
                state.conversation.len(),
                state.pending_steering.len() + state.pending_follow_up.len(),
            )
        },
    )
    .unwrap();
    let mut selection = ReplaySelection::new(selector, &AppState::default());
    assert_eq!(selection.topics(), &[StateTopic::Conversation, StateTopic::Queue]);
    assert!(selection.matches(&change_set(vec![StateTopic::Queue], 1)));

    let mut changed_state = AppState::default();
    changed_state.pending_steering.push(String::from("steer"));
    assert!(selection.publish(&change_set(vec![StateTopic::Queue], 1), &changed_state));
    assert_eq!(*selection.current(), (0, 1));
}

#[test]
fn topics_are_deduplicated_in_first_seen_order() {
    let selector = StateSelector::new(
        &vec![
            StateTopic::Queue,
            StateTopic::Conversation,
            StateTopic::Queue,
            StateTopic::Selection,
            StateTopic::Conversation,
        ],
        |_: &AppState| (),
    )
    .unwrap();

    assert_eq!(
        selector.topics(),
        &[StateTopic::Queue, StateTopic::Conversation, StateTopic::Selection]
    );
}

#[test]
fn empty_topics_return_a_structured_displayable_error() {
    let result = StateSelector::new(&Vec::new(), |_: &AppState| 0usize);
    let Err(error) = result else {
        panic!("a selector without topics");
    };
    assert_eq!(error, StateSelectorError::EmptyTopics);
    assert_eq!(error.message(), "state selector must observe at least one topic");
}
