//! Messages for the user.

use pi_whim::notice::{autohide, Level, Notice, Outbox, CAPACITY};
use pi_whim::shell::notices::{notification, notification_type, show, NotificationType};

#[test]
fn messages_come_back_in_the_order_they_were_reported() {
    let mut outbox = Outbox::new();
    outbox.error("first");
    outbox.info("second");

    assert_eq!(outbox.take(), Some(Notice::error("first")));
    assert_eq!(outbox.take(), Some(Notice::info("second")));
    assert_eq!(outbox.take(), None);
}

#[test]
fn several_failures_all_survive() {
    let mut outbox = Outbox::new();
    outbox.error("project is missing");
    outbox.error("provider has no key");

    assert_eq!(outbox.len(), 2);
}

#[test]
fn an_immediate_repeat_is_not_queued_twice() {
    let mut outbox = Outbox::new();
    outbox.error("Pi is unavailable");
    outbox.error("Pi is unavailable");

    assert_eq!(outbox.len(), 1);
}

#[test]
fn a_repeat_after_something_else_is_kept() {
    let mut outbox = Outbox::new();
    outbox.error("a");
    outbox.error("b");
    outbox.error("a");

    assert_eq!(outbox.len(), 3);
}

#[test]
fn the_same_text_at_different_levels_is_two_messages() {
    let mut outbox = Outbox::new();
    outbox.error("done");
    outbox.info("done");

    assert_eq!(outbox.len(), 2);
}

#[test]
fn the_queue_is_bounded_and_keeps_the_newest() {
    let mut outbox = Outbox::new();
    for index in 0..CAPACITY + 10 {
        outbox.error(&format!("failure {index}"));
    }

    assert_eq!(outbox.len(), CAPACITY);
    let first = outbox.take().expect("a message");
    assert_eq!(first, Notice::error("failure 10"));
}

#[test]
fn draining_empties_the_queue() {
    let mut outbox = Outbox::new();
    outbox.error("a");
    outbox.info("b");

    let drained = outbox.drain();

    assert_eq!(drained.len(), 2);
    assert!(outbox.is_empty());
    assert_eq!(outbox.take(), None);
}

#[test]
fn levels_are_distinguishable_without_reading_the_text() {
    assert!(Notice::error("x").is_error());
    assert!(!Notice::info("x").is_error());
}

#[test]
fn a_failure_waits_to_be_read() {
    assert!(!autohide(Level::Error));
    assert!(autohide(Level::Info));
}

#[test]
fn levels_map_onto_distinct_notification_types() {
    assert!(matches!(notification_type(Level::Error), NotificationType::Error));
    assert!(matches!(notification_type(Level::Info), NotificationType::Info));
}

#[test]
fn everything_queued_is_shown() {
    let mut outbox = Outbox::new();
    outbox.error("project is missing");
    outbox.info("share URL ready");

    assert_eq!(outbox.drain().len(), 2);
    assert!(outbox.is_empty());
}

#[test]
fn showing_drains_oldest_first() {
    let mut outbox = Outbox::new();
    outbox.error("project is missing");
    outbox.info("share URL ready");

    let shown = show(&mut outbox);

    assert_eq!(shown.len(), 2);
    assert_eq!(shown[0], notification(&Notice::error("project is missing")));
    assert_eq!(shown[1].message, "share URL ready");
    assert!(!shown[0].autohide);
    assert!(shown[1].autohide);
    assert!(outbox.is_empty());
}

#[test]
fn no_message_stands_behind_a_repeat_of_itself() {
    let mut outbox = Outbox::new();
    for text in ["a", "a", "b", "b", "a", "a"] {
        outbox.error(text);
    }
    outbox.info("a");
    for number in 0..40 {
        outbox.info(&format!("{}", number / 2));
    }
    let pending = outbox.drain();
    assert!(pending.windows(2).all(|pair| pair[0] != pair[1]));
}
