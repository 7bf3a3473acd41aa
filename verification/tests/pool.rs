//! The pool of live sessions.

use pi_whim::mailbox::TokenCounter;
use pi_whim::pool::{is_draft, SessionPool, SessionRuntime};
use pi_whim::shell::pump::resolve;

fn session(tokens: &mut TokenCounter, project_id: u128, now_ms: i64) -> SessionRuntime<()> {
    SessionRuntime::new((), tokens, project_id, now_ms)
}

#[test]
fn draft_keys_are_recognized() {
    assert!(is_draft("draft://abc"));
    assert!(!is_draft("/tmp/session.jsonl"));
}

#[test]
fn activating_a_missing_session_leaves_the_selection_alone() {
    let mut tokens = TokenCounter::new();
    let mut pool = SessionPool::new();
    pool.insert("a".to_owned(), session(&mut tokens, 7, 1));
    pool.activate("a", 2);

    assert!(pool.activate("missing", 3).is_none());
    assert_eq!(pool.active_key(), Some("a"));
}

#[test]
fn activating_touches_the_recently_used_stamp() {
    let mut tokens = TokenCounter::new();
    let mut pool = SessionPool::new();
    pool.insert("a".to_owned(), session(&mut tokens, 7, 1));
    pool.insert("b".to_owned(), session(&mut tokens, 7, 2));

    pool.activate("a", 99);

    assert_eq!(pool.most_recent_in(7), Some("a"));
}

#[test]
fn rekeying_carries_the_session_and_reports_whether_it_was_visible() {
    let mut tokens = TokenCounter::new();
    let mut pool = SessionPool::new();
    pool.insert("draft://x".to_owned(), session(&mut tokens, 7, 1));
    pool.activate("draft://x", 2);

    let outcome = pool.rekey("draft://x", "/tmp/s.jsonl", 3).unwrap();

    assert!(outcome.was_active);
    assert_eq!(pool.active_key(), Some("/tmp/s.jsonl"));
    assert!(!pool.contains("draft://x"));
    assert!(pool.contains("/tmp/s.jsonl"));
}

#[test]
fn rekeying_a_background_session_does_not_change_the_selection() {
    let mut tokens = TokenCounter::new();
    let mut pool = SessionPool::new();
    pool.insert("visible".to_owned(), session(&mut tokens, 7, 1));
    pool.insert("draft://x".to_owned(), session(&mut tokens, 7, 1));
    pool.activate("visible", 2);

    let outcome = pool.rekey("draft://x", "/tmp/s.jsonl", 3).unwrap();

    assert!(!outcome.was_active);
    assert_eq!(pool.active_key(), Some("visible"));
}

#[test]
fn rekeying_an_unchanged_or_absent_key_reports_nothing() {
    let mut tokens = TokenCounter::new();
    let mut pool = SessionPool::new();
    pool.insert("a".to_owned(), session(&mut tokens, 7, 1));

    assert!(pool.rekey("a", "a", 2).is_none());
    assert!(pool.rekey("missing", "b", 2).is_none());
    assert!(pool.contains("a"));
}

#[test]
fn removing_the_visible_session_clears_the_selection() {
    let mut tokens = TokenCounter::new();
    let mut pool = SessionPool::new();
    pool.insert("a".to_owned(), session(&mut tokens, 7, 1));
    pool.activate("a", 2);

    pool.remove("a");

    assert_eq!(pool.active_key(), None);
    assert!(pool.is_empty());
}

#[test]
fn removing_a_background_session_keeps_the_selection() {
    let mut tokens = TokenCounter::new();
    let mut pool = SessionPool::new();
    pool.insert("visible".to_owned(), session(&mut tokens, 7, 1));
    pool.insert("other".to_owned(), session(&mut tokens, 7, 1));
    pool.activate("visible", 2);

    pool.remove("other");

    assert_eq!(pool.active_key(), Some("visible"));
}

#[test]
fn removing_a_project_takes_only_its_sessions() {
    let mut tokens = TokenCounter::new();
    let mut pool = SessionPool::new();
    let kept: u128 = 1;
    let removed: u128 = 2;
    pool.insert("keep".to_owned(), session(&mut tokens, kept, 1));
    pool.insert("drop-1".to_owned(), session(&mut tokens, removed, 1));
    pool.insert("drop-2".to_owned(), session(&mut tokens, removed, 1));

    let mut keys = pool.remove_project(removed);
    keys.sort();

    assert_eq!(keys, vec!["drop-1".to_owned(), "drop-2".to_owned()]);
    assert!(pool.contains("keep"));
    assert_eq!(pool.most_recent_in(removed), None);
}

#[test]
fn removing_a_project_clears_the_selection_when_it_owned_it() {
    let mut tokens = TokenCounter::new();
    let mut pool = SessionPool::new();
    pool.insert("a".to_owned(), session(&mut tokens, 7, 1));
    pool.activate("a", 2);

    pool.remove_project(7);

    assert_eq!(pool.active_key(), None);
}

#[test]
fn running_state_is_visible_across_the_pool() {
    let mut tokens = TokenCounter::new();
    let mut pool = SessionPool::new();
    pool.insert("a".to_owned(), session(&mut tokens, 7, 1));
    pool.insert("b".to_owned(), session(&mut tokens, 7, 1));

    assert!(!pool.any_running());

    pool.get_mut("b").unwrap().turn.running = true;
    pool.activate("a", 2);

    assert!(pool.any_running());
}

#[test]
fn most_recent_ignores_other_projects() {
    let mut tokens = TokenCounter::new();
    let mut pool = SessionPool::new();
    pool.insert("mine".to_owned(), session(&mut tokens, 1, 1));
    pool.insert("theirs".to_owned(), session(&mut tokens, 2, 100));

    assert_eq!(pool.most_recent_in(1), Some("mine"));
}

#[test]
fn a_token_follows_its_session_through_a_rekey() {
    let mut tokens = TokenCounter::new();
    let mut pool = SessionPool::new();
    pool.insert("draft://x".to_owned(), session(&mut tokens, 7, 1));
    let token = pool.token_for("draft://x").expect("the pooled session");

    pool.rekey("draft://x", "/tmp/s.jsonl", 2);

    assert_eq!(pool.key_for(token), Some("/tmp/s.jsonl"));
}

#[test]
fn each_pooled_session_gets_its_own_token() {
    let mut tokens = TokenCounter::new();
    let mut pool = SessionPool::new();
    pool.insert("a".to_owned(), session(&mut tokens, 7, 1));
    pool.insert("b".to_owned(), session(&mut tokens, 7, 1));

    assert_ne!(pool.token_for("a"), pool.token_for("b"));
}

#[test]
fn every_pooled_sessions_events_arrive_on_one_stream() {
    let mut tokens = TokenCounter::new();
    let mut pool = SessionPool::new();
    pool.insert("a".to_owned(), session(&mut tokens, 7, 1));
    pool.insert("b".to_owned(), session(&mut tokens, 7, 1));
    let (sender, events) = crossbeam_channel::unbounded();
    let first = pool.token_for("a").expect("the first session");
    let second = pool.token_for("b").expect("the second session");

    sender.send((first, "a")).unwrap();
    sender.send((second, "b")).unwrap();

    let batch: Vec<_> = events.try_iter().collect();
    let mut keys: Vec<String> = resolve(batch, |token| pool.key_for(token).map(str::to_owned))
        .into_iter()
        .map(|(key, _)| key)
        .collect();
    keys.sort();
    assert_eq!(keys, vec!["a".to_owned(), "b".to_owned()]);
}

#[test]
fn an_event_sent_before_a_rekey_resolves_to_the_new_key() {
    let mut tokens = TokenCounter::new();
    let mut pool = SessionPool::new();
    pool.insert("draft://x".to_owned(), session(&mut tokens, 7, 1));
    let (sender, events) = crossbeam_channel::unbounded();

    sender.send((pool.token_for("draft://x").unwrap(), "early")).unwrap();
    let (token, _) = events.recv().expect("the event");
    pool.rekey("draft://x", "/tmp/s.jsonl", 2);

    assert_eq!(pool.key_for(token), Some("/tmp/s.jsonl"));
}

#[test]
fn a_removed_sessions_token_resolves_to_nothing() {
    let mut tokens = TokenCounter::new();
    let mut pool = SessionPool::new();
    pool.insert("a".to_owned(), session(&mut tokens, 7, 1));
    let token = pool.token_for("a").expect("the pooled session");

    pool.remove("a");

    assert_eq!(pool.key_for(token), None);
}

#[test]
fn every_pooled_session_is_listed_with_its_key() {
    let mut pool: SessionPool<()> = SessionPool::new();
    let mut tokens = TokenCounter::new();
    for key in ["a", "b", "c"] {
        let session = SessionRuntime::new((), &mut tokens, 1, 0);
        pool.insert(key.into(), session);
    }
    let mut listed: Vec<&str> = pool.iter().into_iter().map(|(key, _)| key).collect();
    listed.sort();
    assert_eq!(listed, vec!["a", "b", "c"]);
    for (key, session) in pool.iter() {
        assert_eq!(pool.token_for(key), Some(session.token));
    }
}
