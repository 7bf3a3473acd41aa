//! The conversation and its cards.

use pi_whim::chat::conversation::{
    changed_message_indices, event_label, visible_messages, Canvas, CanvasWords, Conversation,
    ConversationEvent, ListChange,
};
use pi_whim::chat::cross_task_message::CrossTaskMessage;
use pi_whim::chat::message_card::{card_action, Card, MessageCard, MessageExpansion};
use pi_whim::chat::queue_status::QueueStatus;
use pi_whim::chat::tool_card::{header_summary, tool_card};
use pi_whim::chrome::icons::IconName;
use pi_whim::chrome::status_pill::Hue;
use pi_whim::domain::{
    AppState, Attachment, AttachmentKind, ConversationItem, ConversationRole, Language,
};
use pi_whim::typewriter::Step;

fn message(id: &str, role: ConversationRole, text: &str) -> ConversationItem {
    ConversationItem {
        id: id.into(),
        role,
        full_text: text.into(),
        streaming: false,
        tool_name: None,
        tool_report: None,
        tool_details: None,
        is_error: false,
        model: None,
        attachments: Vec::new(),
    }
}

/// A pace of a fixed number of clusters.
fn clusters(clusters: usize) -> impl Fn(u32, usize) -> Step {
    move |_, _| Step { clusters, credit: 0 }
}

/// A string table.
fn table(key: &'static str, language: Language) -> &'static str {
    let chinese = language == Language::SimplifiedChinese;
    match (key, chinese) {
        ("thinking-process", false) => "Thinking",
        ("fork-here", false) => "Fork here",
        ("fork-here", true) => "从这里分叉",
        ("show-all", false) => "Show all",
        ("copy-report", false) => "Copy",
        ("raw-tool-details", false) => "Raw details",
        ("empty-heading", false) => "What next?",
        ("empty-detail", false) => "Add a project first",
        ("generating", false) => "Working",
        ("queued", false) => "Queued",
        ("follow-ups", false) => "Follow-ups",
        ("clear-queue", false) => "Clear",
        _ => "?",
    }
}

fn with_conversation(items: Vec<ConversationItem>) -> AppState {
    AppState { conversation: items, ..AppState::default() }
}

#[test]
fn blank_entries_are_not_rendered_as_rows() {
    let state = with_conversation(vec![
        message("a", ConversationRole::Assistant, "an answer"),
        message("b", ConversationRole::Assistant, "   "),
    ]);

    let visible = visible_messages(&state);
    assert_eq!(visible.len(), 1);
    assert_eq!(visible[0].id, "a");
}

#[test]
fn a_tool_entry_shows_even_before_it_has_text() {
    let state = with_conversation(vec![message("t", ConversationRole::Tool, "")]);

    assert_eq!(visible_messages(&state).len(), 1);
}

#[test]
fn an_entry_carrying_only_a_report_still_shows() {
    let mut item = message("r", ConversationRole::Assistant, "");
    item.tool_report = Some("ran ls -la".into());

    assert_eq!(visible_messages(&with_conversation(vec![item])).len(), 1);
}

#[test]
fn an_attachment_only_prompt_still_shows() {
    let mut item = message("a", ConversationRole::User, "");
    item.attachments.push(Attachment {
        name: "notes.txt".into(),
        path: "/tmp/notes.txt".into(),
        kind: AttachmentKind::File,
        generated_by_app: false,
    });

    assert_eq!(visible_messages(&with_conversation(vec![item])).len(), 1);
}

#[test]
fn a_changed_non_tail_entry_is_remeasured() {
    let before = vec![
        message("tool-a", ConversationRole::Tool, "running"),
        message("tool-b", ConversationRole::Tool, "running"),
    ];
    let mut after = before.clone();
    after[0].tool_report = Some("a much taller report".into());
    after.push(message("tail", ConversationRole::Assistant, "answer"));

    assert_eq!(changed_message_indices(&before, &after), vec![0]);
}

#[test]
fn streaming_text_is_advanced_without_a_window_frame_loop() {
    let mut conversation = Conversation::new();
    let mut item = message("stream", ConversationRole::Assistant, "hello");
    item.streaming = true;
    conversation.set_messages(vec![item]);

    assert!(conversation.visible_text(0).is_empty());
    assert!(conversation.has_unrevealed_streaming());

    assert!(conversation.advance_typewriter(&clusters(2)));

    assert!(!conversation.visible_text(0).is_empty());
    assert!(conversation.advance_typewriter(&clusters(9)));
    assert!(!conversation.has_unrevealed_streaming());
    assert!(!conversation.advance_typewriter(&clusters(9)));
}

#[test]
fn a_stream_rekey_keeps_the_visible_prefix() {
    let mut conversation = Conversation::new();
    let mut draft = message("draft", ConversationRole::Assistant, "hello");
    draft.streaming = true;
    conversation.set_messages(vec![draft]);
    conversation.reveal_all("draft");
    conversation.toggle_tool_report("draft");
    conversation.toggle_tool_details("draft");
    conversation.toggle_thinking("draft", 1);

    let mut persisted = message("entry-1", ConversationRole::Assistant, "hello world");
    persisted.streaming = true;
    conversation.set_messages(vec![persisted]);
    assert_eq!(conversation.visible_text(0), "hello");
    assert!(conversation.is_tool_report_expanded("entry-1"));
    assert!(conversation.is_tool_details_expanded("entry-1"));
    assert!(conversation.is_thinking_expanded("entry-1", 1));
    assert!(!conversation.is_expanded("draft"));
}

#[test]
fn disclosures_default_closed_and_toggle_independently() {
    let mut conversation = Conversation::new();
    let mut tool = message("tool", ConversationRole::Tool, "running");
    tool.tool_report = Some("report".into());
    tool.tool_details = Some("{\"raw\":true}".into());

    conversation.set_messages(vec![tool]);
    assert!(!conversation.is_tool_report_expanded("tool"));
    assert!(!conversation.is_tool_details_expanded("tool"));
    assert!(!conversation.is_thinking_expanded("tool", 2));

    conversation.toggle_tool_report("tool");
    assert!(conversation.is_tool_report_expanded("tool"));
    assert!(!conversation.is_tool_details_expanded("tool"));

    conversation.toggle_tool_details("tool");
    conversation.toggle_thinking("tool", 2);
    assert!(conversation.is_tool_report_expanded("tool"));
    assert!(conversation.is_tool_details_expanded("tool"));
    assert!(conversation.is_thinking_expanded("tool", 2));

    conversation.toggle_tool_report("tool");
    assert!(!conversation.is_tool_report_expanded("tool"));
    assert!(conversation.is_tool_details_expanded("tool"));
    assert!(conversation.is_thinking_expanded("tool", 2));

    conversation.toggle_tool_details("tool");
    conversation.toggle_thinking("tool", 2);
    assert!(!conversation.is_expanded("tool"));
}

#[test]
fn removing_a_message_drops_its_disclosure_state() {
    let mut conversation = Conversation::new();
    conversation.set_messages(vec![message("gone", ConversationRole::Assistant, "answer")]);
    conversation.toggle_thinking("gone", 0);
    assert!(conversation.is_expanded("gone"));

    conversation.set_messages(Vec::new());
    assert!(!conversation.is_expanded("gone"));
}

#[test]
fn a_list_is_told_what_changed() {
    let mut conversation = Conversation::new();
    let first = message("a", ConversationRole::User, "question");
    let mut second = message("b", ConversationRole::Assistant, "answer");
    assert_eq!(
        conversation.set_messages(vec![first.clone(), second.clone()]).change,
        ListChange::Grown { previous: 0, added: 2, remeasured: vec![] }
    );
    assert_eq!(
        conversation.set_messages(vec![first.clone(), second.clone()]).change,
        ListChange::Unchanged
    );
    second.full_text.push('!');
    assert_eq!(
        conversation.set_messages(vec![first, second]).change,
        ListChange::Grown { previous: 2, added: 0, remeasured: vec![1] }
    );
    assert_eq!(conversation.set_messages(Vec::new()).change, ListChange::Reset(0));
}

#[test]
fn the_newest_reply_is_revealed_first() {
    let mut conversation = Conversation::new();
    let mut items = Vec::new();
    for id in ["one", "two", "done"] {
        let mut item = message(id, ConversationRole::Assistant, "text");
        item.streaming = id != "done";
        items.push(item);
    }
    conversation.set_messages(items);
    assert!(conversation.reveal_latest());
    assert_eq!(conversation.visible_text(1), "text");
    assert_eq!(conversation.visible_text(0), "");
    assert!(conversation.reveal_latest());
    assert!(!conversation.reveal_latest());
    assert_eq!(conversation.reveal_all("missing"), None);
    conversation.clear();
    assert!(conversation.messages().is_empty());
}

#[test]
fn an_empty_conversation_says_how_to_start() {
    let mut conversation = Conversation::new();
    assert_eq!(conversation.render(), Canvas::Empty { shows_first_step: true });
    assert!(conversation.set_has_project(true));
    assert_eq!(conversation.render(), Canvas::Empty { shows_first_step: false });
    conversation.set_messages(vec![message("a", ConversationRole::User, "hi\n")]);
    assert!(conversation.set_generating(true));
    assert!(!conversation.set_generating(true));
    assert_eq!(conversation.render(), Canvas::Entries { count: 1, generating: true });
    assert_eq!(
        conversation.render_entry(0, None),
        Some(Card::Prompt {
            text: Some("hi".into()),
            attachments: vec![],
            action: ConversationEvent::ForkAt("a".into()),
        })
    );
    assert_eq!(conversation.render_entry(1, None), None);
}

#[test]
fn an_entry_offers_what_it_can_do() {
    let mut reply = message("r", ConversationRole::Assistant, "answer");
    assert_eq!(
        card_action(&reply, "answer"),
        Some(ConversationEvent::CopyAssistant("r".into()))
    );
    reply.streaming = true;
    assert_eq!(
        card_action(&reply, "ans"),
        Some(ConversationEvent::RevealAll("r".into()))
    );
    assert_eq!(card_action(&reply, "answer"), None);
    assert_eq!(card_action(&message("s", ConversationRole::System, "x"), "x"), None);
}

#[test]
fn expansions_merge() {
    let mut a = MessageExpansion::new();
    a.flip(1);
    let mut b = MessageExpansion::new();
    b.tool_report = true;
    b.flip(1);
    b.flip(2);
    a.merge(b);
    assert!(a.tool_report);
    assert!(a.is_open(1) && a.is_open(2) && !a.is_open(3));
    assert_eq!(a.thinking.len(), 2);
}

fn tool_message(full_text: &str, details: Option<&str>) -> ConversationItem {
    ConversationItem {
        tool_name: Some("compact".into()),
        tool_details: details.map(str::to_owned),
        ..message("tool-1", ConversationRole::Tool, full_text)
    }
}

#[test]
fn a_tool_without_argument_metadata_falls_back_to_its_result_summary() {
    let message = tool_message("Compacted context · 90,000 → 12,000 tokens", None);

    assert_eq!(
        header_summary(&message, None).as_deref(),
        Some("Compacted context · 90,000 → 12,000 tokens")
    );
}

#[test]
fn the_header_fallback_is_single_line_and_bounded() {
    let message = tool_message(&format!("first\n{}", "word ".repeat(40)), None);
    let summary = header_summary(&message, None).expect("a summary");

    assert!(!summary.contains('\n'));
    assert!(summary.ends_with('…'));
}

#[test]
fn a_tool_card_opens_level_by_level() {
    let mut tool = tool_message("done", Some("{}"));
    tool.tool_report = Some("report".into());
    tool.is_error = true;
    let closed = tool_card(&tool, false, true, Some("ls".into()));
    assert_eq!(closed.hue, Hue::Error);
    assert_eq!(closed.summary.as_deref(), Some("ls"));
    assert_eq!(closed.toggle, Some(ConversationEvent::ToggleToolReport("tool-1".into())));
    assert_eq!((closed.report, closed.details), (None, None));
    let open = tool_card(&tool, true, true, None);
    assert_eq!(open.report.as_deref(), Some("report"));
    assert_eq!(open.details.as_deref(), Some("{}"));
    let bare = tool_card(&message("x", ConversationRole::Tool, ""), true, true, None);
    assert_eq!(bare.name, "tool");
    assert_eq!((bare.toggle, bare.summary), (None, None));
}

#[test]
fn an_empty_queue_takes_no_prompt_space() {
    assert!(QueueStatus::from_state(&AppState::default()).is_none());
}

#[test]
fn both_queue_counts_are_retained() {
    let state = AppState {
        pending_steering: vec!["one".into(), "two".into()],
        pending_follow_up: vec!["later".into()],
        ..Default::default()
    };
    let status = QueueStatus::from_state(&state).unwrap();

    assert_eq!(status.steering, 2);
    assert_eq!(status.follow_ups, 1);
    assert_eq!(status.chips(&table), vec!["Queued 2", "Follow-ups 1"]);
    assert_eq!(status.clear_chip(true, &table), Some("Clear"));
    assert_eq!(status.clear_chip(false, &table), None);
}

#[test]
fn a_message_of_another_task_says_so() {
    let note = CrossTaskMessage::new("s".into(), "c".into(), Language::English);
    assert_eq!(note.source(), "Task started by another agent");
    let note = CrossTaskMessage::new("s".into(), "c".into(), Language::SimplifiedChinese);
    assert_eq!(note.source(), "由另一 agent 发起的任务");
}

#[test]
fn one_reveal_runs_at_a_time_and_ends_when_all_is_shown() {
    let mut conversation = Conversation::new();
    assert!(!conversation.start_typewriter());
    let finished = message("p", ConversationRole::User, "hi");
    assert!(!conversation.set_messages(vec![finished.clone()]).reveal_started);

    let mut reply = message("m", ConversationRole::Assistant, "hello");
    reply.streaming = true;
    assert!(conversation.set_messages(vec![finished.clone(), reply.clone()]).reveal_started);
    assert!(!conversation.set_messages(vec![finished.clone(), reply]).reveal_started);
    assert!(!conversation.start_typewriter());

    assert!(conversation.reveal_step(&clusters(2)));
    assert_eq!(conversation.visible_text(1), "he");
    assert!(!conversation.start_typewriter());
    assert!(!conversation.reveal_step(&clusters(3)));
    assert_eq!(conversation.visible_text(1), "hello");
    assert!(!conversation.start_typewriter());

    let mut longer = message("m", ConversationRole::Assistant, "hello there");
    longer.streaming = true;
    assert!(conversation.set_messages(vec![finished.clone(), longer]).reveal_started);
    let mut longest = message("m", ConversationRole::Assistant, "hello there, friend");
    longest.streaming = true;
    assert!(!conversation.set_messages(vec![finished, longest]).reveal_started);
}

#[test]
fn a_card_shows_its_report_unless_told_otherwise() {
    let mut tool = tool_message("done", Some("{}"));
    tool.tool_report = Some("report".into());
    let Card::Tool(drawn) = MessageCard::new(0, tool.clone(), "done".into(), false).render(None)
    else {
        panic!("expected a tool card");
    };
    assert_eq!(drawn.report.as_deref(), Some("report"));
    assert_eq!(drawn.details, None);
    assert_eq!((drawn.arrow, drawn.details_arrow), (IconName::ChevronDown, IconName::ChevronRight));
    let closed = MessageCard::with_expansion(0, tool, "done".into(), MessageExpansion::new())
        .language(Language::SimplifiedChinese);
    assert_eq!(closed.language, Language::SimplifiedChinese);
    let Card::Tool(drawn) = closed.render(None) else {
        panic!("expected a tool card");
    };
    assert_eq!(drawn.report, None);
    assert_eq!(drawn.arrow, IconName::ChevronRight);
}

#[test]
fn controls_of_a_card_say_what_they_do() {
    let prompt = MessageCard::new(0, message("p", ConversationRole::User, "hi"), "hi".into(), false);
    assert_eq!(prompt.action_label(&table), Some("Fork here"));
    assert_eq!(
        prompt.language(Language::SimplifiedChinese).action_label(&table),
        Some("从这里分叉")
    );

    let mut reply = message("r", ConversationRole::Assistant, "hello");
    let finished = MessageCard::new(1, reply.clone(), "hello".into(), false);
    assert_eq!(finished.action_label(&table), Some("Copy"));
    assert_eq!(
        finished.thinking_toggle(2, &table),
        (ConversationEvent::ToggleThinking { id: "r".into(), segment: 2 }, Some("Thinking"))
    );
    reply.streaming = true;
    let arriving = MessageCard::new(1, reply, "he".into(), false);
    assert_eq!(arriving.action_label(&table), Some("Show all"));
    let notice = MessageCard::new(2, message("s", ConversationRole::System, "x"), "x".into(), false);
    assert_eq!(notice.action_label(&table), None);

    let mut tool = tool_message("done", Some("{}"));
    tool.tool_report = Some("report".into());
    let open = tool_card(&tool, true, false, None);
    assert_eq!(open.details_label(Language::English, &table), Some("Raw details"));
    let closed = tool_card(&tool, false, false, None);
    assert_eq!(closed.details_label(Language::English, &table), None);
    assert_eq!(
        event_label(&ConversationEvent::ToggleToolReport("t".into()), Language::English, &table),
        None
    );
}

#[test]
fn the_canvas_says_what_it_is_waiting_for() {
    let mut conversation = Conversation::new();
    assert_eq!(
        conversation.render_words(&table),
        CanvasWords::Empty { heading: "What next?", detail: Some("Add a project first") }
    );
    conversation.set_has_project(true);
    assert_eq!(
        conversation.render_words(&table),
        CanvasWords::Empty { heading: "What next?", detail: None }
    );
    conversation.set_messages(vec![message("a", ConversationRole::User, "hi")]);
    assert_eq!(conversation.render_words(&table), CanvasWords::Entries { note: None });
    conversation.set_generating(true);
    assert_eq!(conversation.render_words(&table), CanvasWords::Entries { note: Some("Working") });
}
