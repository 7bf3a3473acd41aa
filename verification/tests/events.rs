//! What an agent's events do to the state.

use pi_whim::domain::{
    Action, ConversationItem, ConversationRole, SessionStatus, SubmitMode,
};
use pi_whim::events::{
    empty_successful_assistant, format_token_count, session_entry_action, tool_event_action,
    translate, translate_with, Context, Effect, Outcome, EMPTY_PROVIDER_RESPONSE,
};
use pi_whim::json::Json;
use pi_whim::pool::{PendingPrompt, Turn};

fn json(text: &str) -> Json {
    Json::parse(text).expect("a document")
}

const NOW: i64 = 1_700_000_000_000;

/// The visible session, with nothing on screen yet.
fn active() -> Context<'static> {
    Context {
        key: "/tmp/session.jsonl",
        is_active: true,
        conversation: &[],
        now_ms: NOW,
    }
}

fn background() -> Context<'static> {
    Context {
        is_active: false,
        ..active()
    }
}

fn assistant_message(text: &str) -> Json {
    json(&format!(
        r#"{{"type": "message_update", "message": {{"role": "assistant", "id": "m1", "content": "{text}"}}}}"#
    ))
}

fn upserted(outcome: &Outcome) -> Vec<&ConversationItem> {
    outcome
        .actions
        .iter()
        .filter_map(|action| match action {
            Action::UpsertConversation(item) => Some(item),
            _ => None,
        })
        .collect()
}

fn running(outcome: &Outcome) -> Option<bool> {
    outcome.actions.iter().find_map(|action| match action {
        Action::SessionRunning { running, .. } => Some(*running),
        _ => None,
    })
}

fn status(outcome: &Outcome) -> Option<&SessionStatus> {
    outcome.actions.iter().find_map(|action| match action {
        Action::SetSessionStatus(status) => Some(status),
        _ => None,
    })
}

#[test]
fn an_unknown_event_is_ignored() {
    let mut turn = Turn::default();
    let outcome = translate(&json(r###"{"type": "something_new"}"###), active(), &mut turn);

    assert_eq!(outcome, Outcome::default());
    assert_eq!(turn, Turn::default());
}

#[test]
fn an_event_with_no_type_is_ignored() {
    let mut turn = Turn::default();
    assert_eq!(
        translate(&json(r###"{}"###), active(), &mut turn),
        Outcome::default()
    );
}

#[test]
fn a_streaming_reply_marks_the_session_running_and_shows_the_text() {
    let mut turn = Turn::default();
    let outcome = translate(&assistant_message("Hello"), active(), &mut turn);

    assert_eq!(running(&outcome), Some(true));
    assert!(turn.running);
    let items = upserted(&outcome);
    assert_eq!(items.len(), 1);
    assert_eq!(items[0].full_text, "Hello");
    assert!(items[0].streaming);
    assert_eq!(items[0].role, ConversationRole::Assistant);
}

#[test]
fn a_user_message_event_is_not_treated_as_a_reply() {
    let mut turn = Turn::default();
    let outcome = translate(
        &json(r###"{"type": "message_update", "message": {"role": "user", "content": "hi"}}"###),
        active(),
        &mut turn,
    );

    assert_eq!(outcome, Outcome::default());
    assert!(!turn.running);
}

#[test]
fn a_background_reply_moves_its_busy_dot_but_not_the_conversation() {
    let mut turn = Turn::default();
    let outcome = translate(&assistant_message("Hello"), background(), &mut turn);

    assert_eq!(running(&outcome), Some(true));
    assert!(turn.running);
    assert!(upserted(&outcome).is_empty());
}

#[test]
fn a_reply_reopens_the_window_for_a_deferred_model_switch() {
    let mut turn = Turn {
        conversation_compacted: true,
        ..Turn::default()
    };
    translate(&assistant_message("Hello"), active(), &mut turn);

    assert!(!turn.conversation_compacted);
}

#[test]
fn a_renamed_streaming_message_carries_its_entry_with_it() {
    let mut turn = Turn {
        assistant_message_id: Some("placeholder".into()),
        ..Turn::default()
    };
    let outcome = translate(&assistant_message("Hello"), active(), &mut turn);

    assert!(outcome.actions.contains(&Action::RekeyConversation {
        from: "placeholder".into(),
        to: "m1".into(),
    }));
    assert_eq!(turn.assistant_message_id.as_deref(), Some("m1"));
}

#[test]
fn an_unchanged_id_is_not_rekeyed() {
    let mut turn = Turn {
        assistant_message_id: Some("m1".into()),
        ..Turn::default()
    };
    let outcome = translate(&assistant_message("more"), active(), &mut turn);

    assert!(
        !outcome
            .actions
            .iter()
            .any(|action| matches!(action, Action::RekeyConversation { .. }))
    );
}

#[test]
fn a_reply_with_no_id_keeps_the_one_already_streaming() {
    let mut turn = Turn {
        assistant_message_id: Some("m1".into()),
        ..Turn::default()
    };
    let outcome = translate(
        &json(r###"{"type": "message_update", "message": {"role": "assistant", "content": "x"}}"###),
        active(),
        &mut turn,
    );

    assert_eq!(upserted(&outcome)[0].id, "m1");
    assert_eq!(turn.assistant_message_id.as_deref(), Some("m1"));
}

#[test]
fn a_first_reply_with_no_id_gets_one_so_it_can_be_amended() {
    let mut turn = Turn::default();
    let outcome = translate(
        &json(r###"{"type": "message_update", "message": {"role": "assistant", "content": "x"}}"###),
        active(),
        &mut turn,
    );

    let id = &upserted(&outcome)[0].id;
    assert!(!id.is_empty());
    assert_eq!(turn.assistant_message_id.as_ref(), Some(id));
}

#[test]
fn ending_a_reply_finishes_the_entry_and_releases_the_id() {
    let mut turn = Turn {
        assistant_message_id: Some("m1".into()),
        ..Turn::default()
    };
    let outcome = translate(
        &json(r###"{"type": "message_end", "message": {"role": "assistant"}}"###),
        active(),
        &mut turn,
    );

    assert_eq!(outcome.actions, vec![Action::FinishMessage("m1".into())]);
    assert_eq!(turn.assistant_message_id, None);
}

#[test]
fn an_empty_successful_reply_becomes_a_visible_provider_error() {
    let mut turn = Turn {
        assistant_message_id: Some("m1".into()),
        ..Turn::default()
    };
    let outcome = translate(
        &json(r###"{ "type": "message_end", "message": { "role": "assistant", "model": "deepseek-v4-flash", "content": [], "stopReason": "stop", "usage": {"input": 0, "output": 0, "totalTokens": 0} } }"###),
        active(),
        &mut turn,
    );

    let item = upserted(&outcome)[0];
    assert!(item.is_error);
    assert!(!item.streaming);
    assert_eq!(item.full_text, EMPTY_PROVIDER_RESPONSE);
    assert_eq!(item.model.as_deref(), Some("deepseek-v4-flash"));
    assert_eq!(
        status(&outcome),
        Some(&SessionStatus::Failed(EMPTY_PROVIDER_RESPONSE.into()))
    );
    assert_eq!(turn.reply_error.as_deref(), Some(EMPTY_PROVIDER_RESPONSE));
}

#[test]
fn settling_does_not_overwrite_an_empty_reply_failure_with_ready() {
    let mut turn = Turn {
        running: true,
        reply_error: Some(EMPTY_PROVIDER_RESPONSE.into()),
        ..Turn::default()
    };

    let outcome = translate(&json(r###"{"type": "agent_settled"}"###), active(), &mut turn);

    assert_eq!(
        status(&outcome),
        Some(&SessionStatus::Failed(EMPTY_PROVIDER_RESPONSE.into()))
    );
    assert_eq!(turn.reply_error, None);
}

#[test]
fn a_tool_call_without_text_is_not_an_empty_reply() {
    let message = json(r###"{ "role": "assistant", "content": [{"type": "toolCall", "id": "t1", "name": "web_search"}], "stopReason": "stop" }"###);

    assert!(!empty_successful_assistant(&message));
}

#[test]
fn a_background_reply_keeps_its_id_until_its_turn_ends() {
    let mut turn = Turn {
        assistant_message_id: Some("m1".into()),
        ..Turn::default()
    };
    let outcome = translate(
        &json(r###"{"type": "message_end", "message": {"role": "assistant"}}"###),
        background(),
        &mut turn,
    );

    assert_eq!(outcome, Outcome::default());
    assert_eq!(turn.assistant_message_id.as_deref(), Some("m1"));
}

#[test]
fn a_tool_call_shows_as_running_then_takes_its_result() {
    let mut turn = Turn::default();
    let start = translate(
        &json(r###"{"type": "tool_execution_start", "toolName": "read", "toolCallId": "t1"}"###),
        active(),
        &mut turn,
    );
    let items = upserted(&start);
    assert_eq!(items[0].id, "t1");
    assert_eq!(items[0].full_text, "Running…");
    assert!(!items[0].is_error);

    let started = items[0].clone();
    let end = translate(
        &json(r###"{ "type": "tool_execution_end", "toolName": "read", "toolCallId": "t1", "result": {"content": "file contents"} }"###),
        Context {
            conversation: std::slice::from_ref(&started),
            ..active()
        },
        &mut turn,
    );
    let items = upserted(&end);
    assert_eq!(items[0].id, "t1");
    assert_ne!(items[0].full_text, "Running…");
}

#[test]
fn a_failed_tool_is_marked_so_the_card_can_show_it() {
    let mut turn = Turn::default();
    let outcome = translate(
        &json(r###"{ "type": "tool_execution_end", "toolName": "bash", "toolCallId": "t1", "isError": true, "result": {"content": "command not found"} }"###),
        active(),
        &mut turn,
    );

    assert!(upserted(&outcome)[0].is_error);
}

#[test]
fn an_unnamed_tool_call_is_still_keyed_uniquely_enough_to_amend() {
    let mut turn = Turn::default();
    let outcome = translate(
        &json(r###"{"type": "tool_execution_start", "toolName": "read"}"###),
        active(),
        &mut turn,
    );

    assert_eq!(upserted(&outcome)[0].id, "read");
}

#[test]
fn a_background_tool_call_does_not_reach_the_conversation() {
    let mut turn = Turn::default();
    let outcome = translate(
        &json(r###"{"type": "tool_execution_start", "toolName": "read", "toolCallId": "t1"}"###),
        background(),
        &mut turn,
    );

    assert_eq!(outcome, Outcome::default());
}

#[test]
fn queue_updates_carry_both_queues_and_default_to_empty() {
    let mut turn = Turn::default();
    let outcome = translate(
        &json(r###"{"type": "queue_update", "steering": ["a"], "followUp": ["b", "c"]}"###),
        active(),
        &mut turn,
    );

    assert_eq!(
        outcome.actions,
        vec![Action::QueueUpdated {
            steering: vec!["a".into()],
            follow_up: vec!["b".into(), "c".into()],
        }]
    );

    let outcome = translate(&json(r###"{"type": "queue_update"}"###), active(), &mut turn);
    assert_eq!(
        outcome.actions,
        vec![Action::QueueUpdated {
            steering: Vec::new(),
            follow_up: Vec::new(),
        }]
    );
}

#[test]
fn a_settled_agent_stops_reads_back_its_transcript_and_refreshes_controls() {
    let mut turn = Turn {
        running: true,
        ..Turn::default()
    };
    let outcome = translate(&json(r###"{"type": "agent_settled"}"###), active(), &mut turn);

    assert!(!turn.running);
    assert_eq!(running(&outcome), Some(false));
    assert_eq!(status(&outcome), Some(&SessionStatus::Ready));
    assert_eq!(
        outcome.effects,
        vec![
            Effect::SyncSessionFile,
            Effect::ReloadEntries,
            Effect::RefreshControls,
        ]
    );
}

#[test]
fn a_settled_background_agent_is_indexed_without_touching_the_view() {
    let mut turn = Turn {
        running: true,
        ..Turn::default()
    };
    let outcome = translate(&json(r###"{"type": "agent_settled"}"###), background(), &mut turn);

    assert_eq!(running(&outcome), Some(false));
    assert_eq!(status(&outcome), None);
    assert_eq!(outcome.effects, vec![Effect::SyncSessionFile]);
}

#[test]
fn a_renamed_session_is_reindexed_whether_or_not_it_is_visible() {
    for context in [active(), background()] {
        let mut turn = Turn::default();
        let outcome = translate(
            &json(r###"{"type": "session_info_changed", "name": "Refactor"}"###),
            context,
            &mut turn,
        );

        assert_eq!(
            outcome.effects,
            vec![Effect::RenameSessionFile(Some("Refactor".into()))]
        );
        assert!(outcome.actions.is_empty());
    }
}

#[test]
fn a_thinking_level_change_only_refetches_for_the_visible_session() {
    let mut turn = Turn::default();
    assert_eq!(
        translate(
            &json(r###"{"type": "thinking_level_changed"}"###),
            active(),
            &mut turn
        )
        .effects,
        vec![Effect::RefreshControls]
    );
    assert_eq!(
        translate(
            &json(r###"{"type": "thinking_level_changed"}"###),
            background(),
            &mut turn
        ),
        Outcome::default()
    );
}

#[test]
fn compaction_opens_one_card_that_its_result_replaces() {
    let mut turn = Turn::default();
    let start = translate(&json(r###"{"type": "compaction_start"}"###), active(), &mut turn);

    assert!(turn.running);
    assert_eq!(status(&start), Some(&SessionStatus::Compacting));
    let card = upserted(&start)[0].clone();
    assert_eq!(card.tool_name.as_deref(), Some("compact"));
    let item_id = turn.compaction_item_id.clone().expect("a card to update");
    assert_eq!(card.id, item_id);

    let end = translate(
        &json(r###"{ "type": "compaction_end", "result": { "summary": "## Preserved context\n- Current task", "tokensBefore": 90000, "estimatedTokensAfter": 12000, "details": {"readFiles": ["src/lib.rs"]} } }"###),
        active(),
        &mut turn,
    );

    let items = upserted(&end);
    assert_eq!(items[0].id, item_id);
    assert!(items[0].full_text.contains("90,000"));
    assert!(items[0].full_text.contains("12,000"));
    assert_eq!(
        items[0].tool_report.as_deref(),
        Some("## Preserved context\n- Current task")
    );
    assert!(
        items[0]
            .tool_details
            .as_deref()
            .is_some_and(|details| details.contains("readFiles"))
    );
    assert!(!items[0].is_error);
    assert_eq!(turn.compaction_item_id, None);
    assert!(turn.conversation_compacted);
}

#[test]
fn a_persisted_compaction_rekeys_the_live_card_and_replays_its_summary() {
    let mut turn = Turn::default();
    translate(&json(r###"{"type": "compaction_start"}"###), active(), &mut turn);
    let temporary_id = turn
        .compaction_item_id
        .clone()
        .expect("a temporary card id");
    let entry = r###"{ "type": "compaction", "id": "persisted-compaction", "summary": "## Goal\nKeep the durable summary.", "tokensBefore": 123967, "firstKeptEntryId": "message-42", "details": {"modifiedFiles": ["src/lib.rs"]}, "usage": {"input": 100, "output": 20} }"###;
    let appended = translate(
        &json(&format!(r#"{{"type": "entry_appended", "entry": {entry}}}"#)),
        active(),
        &mut turn,
    );

    assert!(appended.actions.iter().any(|action| matches!(
        action,
        Action::RekeyConversation { from, to }
            if from == &temporary_id && to == "persisted-compaction"
    )));
    assert_eq!(
        turn.compaction_item_id.as_deref(),
        Some("persisted-compaction")
    );
    let card = &upserted(&appended)[0];
    assert_eq!(card.id, "persisted-compaction");
    assert_eq!(card.tool_name.as_deref(), Some("compact"));
    assert_eq!(card.full_text, "Compacted context · 123,967 tokens before");
    assert_eq!(
        card.tool_report.as_deref(),
        Some("## Goal\nKeep the durable summary.")
    );
    let details = card.tool_details.as_deref().expect("raw metadata");
    assert!(details.contains("firstKeptEntryId"));
    assert!(details.contains("modifiedFiles"));
    assert!(details.contains("usage"));
    assert!(!details.contains("Keep the durable summary"));

    let end = translate(
        &json(r###"{ "type": "compaction_end", "result": { "summary": "## Goal\nKeep the durable summary.", "tokensBefore": 123967, "estimatedTokensAfter": 17656 } }"###),
        active(),
        &mut turn,
    );
    assert_eq!(upserted(&end)[0].id, "persisted-compaction");
}

#[test]
fn a_compaction_transcript_entry_is_not_filtered_during_reload() {
    let Some(Action::UpsertConversation(card)) = session_entry_action(&json(r###"{ "type": "compaction", "id": "compaction-1", "summary": "Saved context", "tokensBefore": 42000, "details": {"readFiles": ["src/main.rs"]} }"###)) else {
        panic!("expected a replayable compaction card");
    };

    assert_eq!(card.id, "compaction-1");
    assert_eq!(card.full_text, "Compacted context · 42,000 tokens before");
    assert_eq!(card.tool_report.as_deref(), Some("Saved context"));
    assert!(card.tool_details.is_some());
}

#[test]
fn compaction_without_token_counts_still_reports_it_happened() {
    let mut turn = Turn::default();
    translate(&json(r###"{"type": "compaction_start"}"###), active(), &mut turn);
    let end = translate(&json(r###"{"type": "compaction_end"}"###), active(), &mut turn);

    assert_eq!(upserted(&end)[0].full_text, "Compacted context");
}

#[test]
fn nothing_to_compact_is_not_shown_as_a_failure() {
    let mut turn = Turn::default();
    translate(&json(r###"{"type": "compaction_start"}"###), active(), &mut turn);
    let end = translate(
        &json(r###"{"type": "compaction_end", "errorMessage": "Nothing to compact yet"}"###),
        active(),
        &mut turn,
    );

    assert_eq!(status(&end), Some(&SessionStatus::Ready));
    assert!(!upserted(&end)[0].is_error);
    assert!(!turn.conversation_compacted);
}

#[test]
fn a_real_compaction_failure_surfaces_on_the_status_and_the_card() {
    let mut turn = Turn::default();
    translate(&json(r###"{"type": "compaction_start"}"###), active(), &mut turn);
    let end = translate(
        &json(r###"{"type": "compaction_end", "errorMessage": "model refused"}"###),
        active(),
        &mut turn,
    );

    assert_eq!(
        status(&end),
        Some(&SessionStatus::Failed("model refused".into()))
    );
    assert!(upserted(&end)[0].is_error);
    assert!(!turn.conversation_compacted);
}

#[test]
fn a_prompt_held_for_compaction_is_sent_when_it_finishes() {
    let prompt: PendingPrompt = ("carry on".into(), Vec::new(), SubmitMode::Prompt);
    let mut turn = Turn {
        pending_prompt: Some(prompt.clone()),
        ..Turn::default()
    };
    let outcome = translate(&json(r###"{"type": "compaction_end"}"###), active(), &mut turn);

    assert_eq!(outcome.effects, vec![Effect::SendPendingPrompt(prompt)]);
    assert_eq!(turn.pending_prompt, None);
}

#[test]
fn a_held_prompt_is_sent_even_with_the_session_in_the_background() {
    let prompt: PendingPrompt = ("carry on".into(), Vec::new(), SubmitMode::Prompt);
    let mut turn = Turn {
        pending_prompt: Some(prompt.clone()),
        ..Turn::default()
    };
    let outcome = translate(&json(r###"{"type": "compaction_end"}"###), background(), &mut turn);

    assert_eq!(outcome.effects, vec![Effect::SendPendingPrompt(prompt)]);
    assert_eq!(status(&outcome), None);
}

#[test]
fn an_appended_entry_reaches_the_conversation_only_when_visible() {
    let event = json(r###"{ "type": "entry_appended", "entry": {"id": "e1", "message": {"role": "user", "content": "hello"}} }"###);
    let mut turn = Turn::default();

    let outcome = translate(&event, active(), &mut turn);
    assert_eq!(upserted(&outcome)[0].id, "e1");

    assert_eq!(
        translate(&event, background(), &mut turn),
        Outcome::default()
    );
}

#[test]
fn an_entry_the_workbench_cannot_render_is_dropped() {
    assert!(session_entry_action(&json(r###"{"id": "e1"}"###)).is_none());
    assert!(session_entry_action(&json(r###"{}"###)).is_none());
    assert!(
        session_entry_action(&json(r###"{"message": {"role": "modelChange"}}"###)).is_none(),
        "an unrenderable role should be skipped"
    );
}

#[test]
fn replaying_an_empty_successful_reply_keeps_the_error_visible() {
    let Action::UpsertConversation(item) = session_entry_action(&json(r###"{ "id": "empty-reply", "message": { "role": "assistant", "content": [], "stopReason": "stop", "usage": {"input": 0, "output": 0, "totalTokens": 0} } }"###))
    .expect("assistant entries are renderable") else {
        panic!("expected a conversation item");
    };

    assert_eq!(item.full_text, EMPTY_PROVIDER_RESPONSE);
    assert!(item.is_error);
    assert!(!item.streaming);
}

#[test]
fn replayed_roles_map_onto_conversation_roles() {
    for (reported, expected) in [
        ("user", ConversationRole::User),
        ("assistant", ConversationRole::Assistant),
        ("toolResult", ConversationRole::Tool),
        ("bashExecution", ConversationRole::Tool),
    ] {
        let Some(Action::UpsertConversation(item)) = session_entry_action(&json(&format!(
            r#"{{"id": "e1", "message": {{"role": "{reported}", "content": "hello"}}}}"#
        ))) else {
            panic!("expected an entry for role {reported}");
        };
        assert_eq!(item.role, expected, "for role {reported}");
    }
}

#[test]
fn a_replayed_reply_keeps_the_model_that_produced_it() {
    let Some(Action::UpsertConversation(item)) = session_entry_action(&json(r###"{ "id": "e1", "message": {"role": "assistant", "content": "hi", "model": "opus"} }"###)) else {
        panic!("expected an entry");
    };

    assert_eq!(item.model.as_deref(), Some("opus"));
}

#[test]
fn a_finishing_tool_carries_its_earlier_report_forward() {
    let start = upserted(&Outcome {
        actions: vec![tool_event_action(
            &json(r###"{"type": "tool_execution_start", "toolName": "bash", "toolCallId": "c1", "args": {"command": "ls -la"}}"###),
            &[],
        )],
        effects: Vec::new(),
    })[0]
        .clone();

    let end = tool_event_action(
        &json(r###"{"type": "tool_execution_end", "toolName": "bash", "toolCallId": "c1", "result": {"content": [{"type": "text", "text": "a.txt"}]}}"###),
        std::slice::from_ref(&start),
    );
    let Action::UpsertConversation(item) = end else {
        panic!("expected an upsert");
    };

    let report = item.tool_report.expect("a report");
    assert!(report.contains("ls"), "operation was dropped: {report}");
}

#[test]
fn a_transcript_entry_keeps_its_role_and_its_tool_report() {
    let Some(Action::UpsertConversation(item)) = session_entry_action(&json(r###"{ "id": "e1", "message": {"role": "toolResult", "toolName": "read", "content": "contents"} }"###)) else {
        panic!("expected an entry");
    };

    assert_eq!(item.role, ConversationRole::Tool);
    assert_eq!(item.tool_name.as_deref(), Some("read"));
    assert!(item.tool_report.is_some());
    assert!(item.tool_details.is_some());
    assert!(!item.streaming);
}

#[test]
fn a_plain_entry_carries_no_tool_detail() {
    let Some(Action::UpsertConversation(item)) = session_entry_action(&json(r###"{ "id": "e1", "message": {"role": "user", "content": "hello"} }"###)) else {
        panic!("expected an entry");
    };

    assert_eq!(item.full_text, "hello");
    assert_eq!(item.tool_report, None);
    assert_eq!(item.tool_details, None);
}

#[test]
fn an_entry_with_content_this_cannot_read_is_shown_verbatim() {
    let Some(Action::UpsertConversation(item)) = session_entry_action(&json(r###"{ "id": "e1", "message": {"role": "user", "content": {"unexpected": true}} }"###)) else {
        panic!("expected an entry");
    };

    assert!(item.full_text.contains("unexpected"));
}

#[test]
fn an_entry_with_no_id_still_renders() {
    let Some(Action::UpsertConversation(item)) =
        session_entry_action(&json(r###"{"message": {"role": "user", "content": "hi"}}"###))
    else {
        panic!("expected an entry");
    };

    assert_eq!(item.id, "entry");
}

#[test]
fn the_compaction_card_id_is_stable_within_one_compaction() {
    let mut turn = Turn::default();
    translate(&json(r###"{"type": "compaction_start"}"###), active(), &mut turn);
    let first = turn.compaction_item_id.clone();

    let mut other = Turn::default();
    translate(
        &json(r###"{"type": "compaction_start"}"###),
        Context {
            now_ms: NOW + 1,
            ..active()
        },
        &mut other,
    );

    assert_ne!(first, other.compaction_item_id);
}

#[test]
fn token_counts_are_grouped_by_thousands() {
    assert_eq!(format_token_count(0), "0");
    assert_eq!(format_token_count(999), "999");
    assert_eq!(format_token_count(1_000), "1,000");
    assert_eq!(format_token_count(123_967), "123,967");
    assert_eq!(format_token_count(1_234_567), "1,234,567");
}

#[test]
fn a_reply_without_an_id_takes_the_fresh_one() {
    let event = json(r#"{"type": "message_update", "message": {"role": "assistant", "content": "x"}}"#);
    let mut turn = Turn::default();
    let outcome = translate_with(&event, active(), &mut turn, 1);
    assert_eq!(upserted(&outcome)[0].id, turn.assistant_message_id.unwrap());

    let mut first = Turn::default();
    let mut second = Turn::default();
    translate(&event, active(), &mut first);
    translate(&event, active(), &mut second);
    assert_ne!(first.assistant_message_id, second.assistant_message_id);
}

#[test]
fn a_finished_tool_keeps_what_it_was_called_with() {
    let start = tool_event_action(
        &json(r###"{"type": "tool_execution_start", "toolName": "edit", "toolCallId": "c1", "args": {"path": "a \"b\"\u0007.txt", "lines": [1, -2, 18446744073709551615], "all": true, "none": null}}"###),
        &[],
    );
    let Action::UpsertConversation(started) = start else {
        panic!("expected an upsert");
    };
    let end = tool_event_action(
        &json(r###"{"type": "tool_execution_end", "toolName": "edit", "toolCallId": "c1", "result": {"content": "done"}}"###),
        std::slice::from_ref(&started),
    );
    let Action::UpsertConversation(item) = end else {
        panic!("expected an upsert");
    };

    let details = json(item.tool_details.as_deref().expect("details"));
    assert!(
        details.get("input")
            == Some(&json(r###"{"path": "a \"b\"\u0007.txt", "lines": [1, -2, 18446744073709551615], "all": true, "none": null}"###))
    );
    assert_eq!(details.bool_at("is_error"), Some(false));
    assert!(details.get("result") == Some(&json(r###"{"content": "done"}"###)));
}

#[test]
fn a_held_prompt_waits_for_the_end_of_a_compaction() {
    let mut turn = Turn::default();
    turn.pending_prompt = Some(("later".into(), Vec::new(), SubmitMode::Prompt));
    for kind in ["message_end", "agent_settled", "compaction_start", "entry_appended"] {
        let outcome = translate(
            &json(&format!("{{\"type\": \"{kind}\"}}")),
            active(),
            &mut turn,
        );
        assert!(!outcome.effects.iter().any(|effect| matches!(effect, Effect::SendPendingPrompt(_))));
        assert!(turn.pending_prompt.is_some());
    }
}
