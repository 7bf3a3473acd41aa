//! Revealing text as it streams.

use pi_whim::domain::{ConversationItem, ConversationRole};
use pi_whim::typewriter::{
    catches_up, grapheme_prefix, prefix_of_clusters, Progress, Step, Typewriter, CATCH_UP_BACKLOG,
};

/// What a span of time is worth: a resting speed that grows with the backlog, and a
/// faster one once the reveal has fallen behind. Fractions are carried by their
/// bits.
fn pace(elapsed_seconds: f32) -> impl Fn(u32, usize) -> Step {
    move |credit, backlog| {
        let speed = if catches_up(backlog) {
            240.0
        } else {
            45.0 + (backlog as f32 * 0.45).min(95.0)
        };
        let credit = f32::from_bits(credit) + elapsed_seconds * speed;
        let clusters = credit.floor() as usize;
        Step { clusters, credit: (credit - clusters as f32).to_bits() }
    }
}

fn streaming(id: &str, text: &str) -> ConversationItem {
    ConversationItem {
        id: id.into(),
        role: ConversationRole::Assistant,
        full_text: text.into(),
        streaming: true,
        tool_name: None,
        tool_report: None,
        tool_details: None,
        is_error: false,
        model: None,
        attachments: Vec::new(),
    }
}

#[test]
fn finished_messages_render_in_full_without_any_progress_recorded() {
    let mut message = streaming("a", "hello");
    message.streaming = false;

    let typewriter = Typewriter::new();
    assert_eq!(typewriter.visible_text(&message), "hello");
}

#[test]
fn streaming_text_starts_hidden_and_is_revealed_over_time() {
    let message = streaming("a", "hello");
    let mut typewriter = Typewriter::new();

    assert_eq!(typewriter.visible_text(&message), "");

    assert!(typewriter.advance(std::slice::from_ref(&message), &pace(0.1)));
    assert!(!typewriter.visible_text(&message).is_empty());
    assert_eq!(typewriter.visible_text(&message), "hell");
}

#[test]
fn a_long_backlog_reveals_faster_than_a_short_one() {
    let short = streaming("short", "hello");
    let long = streaming("long", &"x".repeat(500));

    let mut typewriter = Typewriter::new();
    typewriter.advance(&[short.clone(), long.clone()], &pace(0.1));

    assert!(
        typewriter.visible_text(&long).len() > typewriter.visible_text(&short).len(),
        "catch-up speed should apply once the backlog is large"
    );
}

#[test]
fn revealing_never_runs_past_the_available_text() {
    let message = streaming("a", "hi");
    let mut typewriter = Typewriter::new();

    typewriter.advance(std::slice::from_ref(&message), &pace(10.0));

    assert_eq!(typewriter.visible_text(&message), "hi");
    assert!(!typewriter.advance(std::slice::from_ref(&message), &pace(10.0)));
}

#[test]
fn fractional_progress_carries_between_frames() {
    let message = streaming("a", "hello world");
    let mut typewriter = Typewriter::new();

    for _ in 0..40 {
        typewriter.advance(std::slice::from_ref(&message), &pace(0.001));
    }

    assert!(!typewriter.visible_text(&message).is_empty());
}

#[test]
fn what_is_carried_follows_the_message() {
    let message = streaming("draft", "hello world");
    let mut typewriter = Typewriter::new();
    let fixed = |credit: u32, backlog: usize| Step {
        clusters: 2,
        credit: credit + backlog as u32,
    };
    assert!(typewriter.advance(std::slice::from_ref(&message), &fixed));
    assert_eq!(typewriter.progress("draft"), Progress { revealed: 2, credit: 11 });
    assert!(typewriter.advance(std::slice::from_ref(&message), &fixed));
    assert_eq!(typewriter.progress("draft"), Progress { revealed: 4, credit: 20 });
    typewriter.rekey("draft", "real");
    assert_eq!(typewriter.progress("real"), Progress { revealed: 4, credit: 20 });
    assert_eq!(typewriter.progress("draft"), Progress { revealed: 0, credit: 0 });
    typewriter.reveal_all(&streaming("real", "hello world"));
    assert_eq!(typewriter.progress("real"), Progress { revealed: 11, credit: 0 });
}

#[test]
fn skipping_ahead_reveals_everything() {
    let message = streaming("a", "hello");
    let mut typewriter = Typewriter::new();

    typewriter.reveal_all(&message);

    assert_eq!(typewriter.visible_text(&message), "hello");
}

#[test]
fn progress_survives_a_rekey() {
    let draft = streaming("draft", "hello");
    let mut typewriter = Typewriter::new();
    typewriter.reveal_all(&draft);

    typewriter.rekey("draft", "real");

    let renamed = streaming("real", "hello");
    assert_eq!(typewriter.visible_text(&renamed), "hello");
}

#[test]
fn shrinking_text_clamps_revealed_progress() {
    let long = streaming("a", "hello world");
    let mut typewriter = Typewriter::new();
    typewriter.reveal_all(&long);

    let short = streaming("a", "hi");
    typewriter.advance(std::slice::from_ref(&short), &pace(0.0));

    assert_eq!(typewriter.visible_text(&short), "hi");
    assert_eq!(typewriter.progress("a").revealed, 2);
}

#[test]
fn forgetting_and_clearing_drop_progress() {
    let message = streaming("a", "hello");
    let mut typewriter = Typewriter::new();

    typewriter.reveal_all(&message);
    typewriter.forget("a");
    assert_eq!(typewriter.visible_text(&message), "");

    typewriter.reveal_all(&message);
    typewriter.clear();
    assert_eq!(typewriter.visible_text(&message), "");
}

#[test]
fn advancing_with_no_streaming_messages_reports_no_change() {
    let mut finished = streaming("a", "hello");
    finished.streaming = false;

    let mut typewriter = Typewriter::new();
    assert!(!typewriter.advance(std::slice::from_ref(&finished), &pace(0.1)));
}

#[test]
fn thinking_tags_appear_atomically_while_streaming() {
    let message = streaming("a", "<thinking>reason</thinking>answer");
    let mut typewriter = Typewriter::new();

    typewriter.set_revealed("a", 4);
    assert_eq!(typewriter.visible_text(&message), "");

    typewriter.set_revealed("a", 10);
    assert_eq!(typewriter.visible_text(&message), "<thinking>");

    typewriter.set_revealed("a", 22);
    assert_eq!(typewriter.visible_text(&message), "<thinking>reason");
}

#[test]
fn a_cluster_is_never_cut() {
    // A family of four is one cluster of seven characters, and an accent belongs
    // to its letter.
    let family = "👨‍👩‍👧‍👦e\u{301}x";
    assert_eq!(grapheme_prefix(family, 1), "👨‍👩‍👧‍👦");
    assert_eq!(grapheme_prefix(family, 2), "👨‍👩‍👧‍👦e\u{301}");
    assert_eq!(grapheme_prefix(family, 3), family);
    assert_eq!(grapheme_prefix(family, 9), family);
    assert_eq!(grapheme_prefix(family, 0), "");
    assert_eq!(grapheme_prefix("a\r\nb", 2), "a\r\n");
}

#[test]
fn a_prefix_follows_the_cluster_lengths() {
    assert_eq!(prefix_of_clusters("abcdef", &vec![2, 3, 1], 2), "abcde");
}

#[test]
fn a_large_backlog_catches_up() {
    assert!(!catches_up(CATCH_UP_BACKLOG));
    assert!(catches_up(CATCH_UP_BACKLOG + 1));
    let message = streaming("long", &"x".repeat(500));
    let mut typewriter = Typewriter::new();
    assert!(catches_up(typewriter.backlog(&message)));
    typewriter.reveal_all(&message);
    assert_eq!(typewriter.backlog(&message), 0);
}
