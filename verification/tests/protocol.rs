//! Reports and summaries of the wire protocol.

use pi_whim::domain::QueueMode;
use pi_whim::json::Json;
use pi_whim::keyed::TextMap;
use pi_whim::protocol::{
    agent_team_tool_report, assistant_text, compact_tool_text, model_option, queue_mode,
    queue_mode_name, session_metrics, tool_call_report, tool_event_details, tool_result_report,
    tool_result_summary, tool_text_report, tool_text_summary, MAX_SUMMARY_CHARS,
};

fn json(text: &str) -> Json {
    Json::parse(text).expect("a document")
}

#[test]
fn assistant_text_wraps_thinking_blocks_in_tags() {
    let message = json(
        r#"{
            "role": "assistant",
            "content": [
                { "type": "thinking", "thinking": "why" },
                { "type": "text", "text": "answer" }
            ]
        }"#,
    );
    assert_eq!(
        assistant_text(&message),
        "<thinking>\nwhy\n</thinking>\n\nanswer"
    );
}

#[test]
fn assistant_text_skips_empty_thinking_and_reads_string_content() {
    let message = json(
        r#"{
            "content": [
                { "type": "thinking", "thinking": "   " },
                { "type": "text", "text": "answer" }
            ]
        }"#,
    );
    assert_eq!(assistant_text(&message), "answer");

    let plain = json(r#"{ "content": "plain" }"#);
    assert_eq!(assistant_text(&plain), "plain");
}

#[test]
fn agent_team_tool_results_have_a_compact_summary() {
    let content = Json::array(vec![Json::object(vec![
        ("type".to_owned(), Json::string("text")),
        (
            "text".to_owned(),
            Json::string(r#"{"agent": {"name": "worker-alpha"}, "wait_status": "message"}"#),
        ),
    ])]);

    assert_eq!(
        tool_result_summary(Some("wait_agent"), Some(&content), false),
        "worker-alpha sent a message"
    );
}

#[test]
fn waiting_report_shows_messages_and_the_child_result_without_raw_json() {
    let result = json(
        r#"{
            "agent": { "name": "worker-alpha" },
            "messages": [{ "sender_name": "worker-alpha", "content": "Need approval." }],
            "outcome": { "output": "Task complete.", "error": "" },
            "wait_status": "completed"
        }"#,
    );
    let report = agent_team_tool_report("wait_agent", &result.to_compact(), None).unwrap();

    assert!(report.contains("worker-alpha finished."));
    assert!(report.contains("worker-alpha: Need approval."));
    assert!(report.contains("Returned:\nTask complete."));
    assert!(!report.contains("\"wait_status\""));
}

#[test]
fn bash_and_process_tools_use_compact_operation_reports() {
    let args = json(r#"{ "command": "cargo test --workspace", "background": true }"#);
    let initial = tool_call_report("bash", Some(&args));
    assert_eq!(
        initial,
        "Starting background command: cargo test --workspace"
    );
    let content = json(r#"[{ "type": "text", "text": "Background process 123 started." }]"#);
    let report = tool_result_report(Some("bash"), Some(&content), Some(&initial), false);
    assert!(report.contains("Starting background command"));
    assert!(report.contains("Background process 123 started."));
    assert!(!report.contains("\"command\""));

    let processes = json(r#"{ "processes": [{ "id": "123", "status": "running" }] }"#);
    let process_report =
        agent_team_tool_report("list_processes", &processes.to_compact(), None).unwrap();
    assert_eq!(process_report, "1 background process(es), 1 running");
}

#[test]
fn generic_tool_summaries_are_single_line_and_bounded() {
    assert_eq!(
        compact_tool_text("first\n second\tthird"),
        "first second third"
    );
    assert!(compact_tool_text(&"x ".repeat(200)).ends_with('…'));
    assert!(compact_tool_text(&"x ".repeat(200)).chars().count() <= MAX_SUMMARY_CHARS + 1);
}

#[test]
fn a_model_is_shown_under_its_configured_provider() {
    let mut names = TextMap::new();
    names.insert("pi-whim-1".to_owned(), "Gateway".to_owned());
    let model = model_option(&json(r#"{"provider": "pi-whim-1", "id": "gpt"}"#), &names).unwrap();
    assert_eq!(model.provider_name, "Gateway");
    assert_eq!(model.name, "gpt");
    let other = model_option(
        &json(r#"{"provider": "x", "providerName": "X", "id": "gpt", "name": "GPT"}"#),
        &names,
    )
    .unwrap();
    assert_eq!(other.provider_name, "X");
    assert_eq!(other.name, "GPT");
    assert_eq!(model_option(&json(r#"{"id": "gpt"}"#), &names), None);
}

#[test]
fn queue_modes_have_names() {
    assert_eq!(queue_mode("all"), QueueMode::All);
    assert_eq!(queue_mode("anything"), QueueMode::OneAtATime);
    assert_eq!(queue_mode(queue_mode_name(QueueMode::OneAtATime)), QueueMode::OneAtATime);
}

#[test]
fn metrics_read_what_is_there() {
    let metrics = session_metrics(
        &json(r#"{"totalMessages": 7, "toolCalls": 2, "tokens": {"total": 15500}, "userMessages": -1}"#),
        2_500_000,
    );
    assert_eq!(metrics.total_messages, 7);
    assert_eq!(metrics.tool_calls, 2);
    assert_eq!(metrics.total_tokens, 15500);
    assert_eq!(metrics.user_messages, 0);
    assert_eq!(metrics.cost_microusd, 2_500_000);
}

#[test]
fn raw_details_are_laid_out_for_reading() {
    let details = tool_event_details(&json(r#"{"type": "x", "args": {"b": 1, "a": [true, null]}}"#), None);
    assert!(details.contains('\n'));
    assert!(details.contains("\"args\""));
}

#[test]
fn a_returned_text_is_summarised_and_reported() {
    assert_eq!(tool_text_summary(Some("read"), "one\n two", false), "one two");
    assert_eq!(tool_text_summary(None, " ", true), "Failed");
    assert_eq!(tool_text_summary(Some("bash"), "ok", false), "Bash: ok");
    assert_eq!(
        tool_text_report(Some("bash"), "ok", Some("Running command: ls"), false),
        "Running command: ls\nResult: ok"
    );
    assert_eq!(tool_text_report(Some("read"), "", None, false), "Completed.");
    assert_eq!(tool_text_report(None, "gone", None, true), "Failed:\ngone");
}
