//! Session tokens and the labels of events.

use pi_whim::mailbox::{SessionToken, TokenCounter};
use pi_whim::shell::pump::{is_active, resolve, BATCH};

#[derive(Debug, PartialEq)]
enum RuntimeEvent {
    Stderr(String),
    Exited,
}

fn stderr(message: &str) -> RuntimeEvent {
    RuntimeEvent::Stderr(message.to_owned())
}

#[test]
fn tokens_are_unique() {
    let mut tokens = TokenCounter::new();
    let first = SessionToken::next(&mut tokens);
    let second = SessionToken::next(&mut tokens);
    assert_ne!(first, second);
}

#[test]
fn events_are_labelled_with_the_key_their_session_has_now() {
    let token = SessionToken::next(&mut TokenCounter::new());
    let batch = vec![(token, stderr("output"))];

    let resolved = resolve(batch, |_| Some("/tmp/renamed.jsonl".to_owned()));

    assert_eq!(resolved.len(), 1);
    assert_eq!(resolved[0].0, "/tmp/renamed.jsonl");
}

#[test]
fn events_from_a_session_that_has_gone_are_dropped() {
    let mut tokens = TokenCounter::new();
    let live = SessionToken::next(&mut tokens);
    let gone = SessionToken::next(&mut tokens);
    let batch = vec![(gone, stderr("late")), (live, stderr("current")), (gone, RuntimeEvent::Exited)];

    let resolved = resolve(batch, |token| (token == live).then_some("/tmp/s.jsonl".to_owned()));

    let messages: Vec<_> = resolved
        .into_iter()
        .map(|(_, event)| match event {
            RuntimeEvent::Stderr(message) => message,
            other => panic!("unexpected event: {other:?}"),
        })
        .collect();
    assert_eq!(messages, vec!["current".to_owned()]);
}

#[test]
fn only_the_visible_sessions_events_reach_the_conversation() {
    assert!(is_active(Some("/tmp/a.jsonl"), "/tmp/a.jsonl"));
    assert!(!is_active(Some("/tmp/a.jsonl"), "/tmp/b.jsonl"));
    assert!(!is_active(None, "/tmp/a.jsonl"));
}

#[test]
fn a_batch_is_bounded() {
    assert_eq!(BATCH, 64);
}
