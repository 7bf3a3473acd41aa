//! The control state of a running agent.

use std::collections::HashMap;

use pi_whim::controls::{provider_names, ControlFetch, ProviderNames};
use pi_whim::domain::{
    Action, ProviderProfile, ProviderProtocol, SessionStatus, SlashCommandInfo, ThinkingLevel,
};
use pi_whim::json::Json;
use pi_whim::providers::provider_config_key;

fn json(text: &str) -> Json {
    Json::parse(text).expect("a document")
}

/// Asks every question of a round, answers it with what is given, and records
/// what was asked.
fn round(responses: &[(&str, Json)], failing: Option<&str>) -> (Vec<Action>, Vec<String>) {
    let responses: HashMap<&str, &Json> =
        responses.iter().map(|(key, value)| (*key, value)).collect();
    let mut asked = Vec::new();
    let mut fetch = ControlFetch::new();
    while let Some(query) = fetch.next_query() {
        let command = query.to_json();
        let kind = command.str_at("type").expect("a type").to_owned();
        let reply = if failing == Some(kind.as_str()) {
            Err("Pi is unavailable".to_owned())
        } else {
            Ok(responses.get(kind.as_str()).map_or(Json::Null, |value| value.copy()))
        };
        asked.push(kind);
        fetch.answer(reply);
    }
    (fetch.finish(&ProviderNames::new(), 0), asked)
}

fn with(responses: &[(&str, Json)]) -> Vec<Action> {
    round(responses, None).0
}

fn failing(command: &str) -> Vec<Action> {
    round(&[], Some(command)).0
}

fn controls(actions: &[Action]) -> Option<&Action> {
    actions
        .iter()
        .find(|action| matches!(action, Action::RuntimeControlsUpdated { .. }))
}

fn commands(actions: &[Action]) -> Option<&Vec<SlashCommandInfo>> {
    actions.iter().find_map(|action| match action {
        Action::RuntimeCommandsUpdated(commands) => Some(commands),
        _ => None,
    })
}

#[test]
fn a_failed_state_read_stops_the_sequence() {
    let actions = failing("get_state");

    assert_eq!(actions.len(), 1);
    assert!(matches!(
        actions[0],
        Action::SetSessionStatus(SessionStatus::Failed(_))
    ));
    assert_eq!(round(&[], Some("get_state")).1, vec!["get_state"]);
}

#[test]
fn thinking_level_falls_back_when_pi_reports_one_it_does_not_offer() {
    let actions = with(&[
        ("get_state", json(r#"{"thinkingLevel": "xhigh"}"#)),
        ("get_available_thinking_levels", json(r#"{"levels": ["off"]}"#)),
    ]);

    let Some(Action::RuntimeControlsUpdated { thinking_level, .. }) = controls(&actions) else {
        panic!("expected controls");
    };
    assert_eq!(*thinking_level, ThinkingLevel::Off);
}

#[test]
fn a_reported_level_that_is_offered_is_kept() {
    let actions = with(&[
        ("get_state", json(r#"{"thinkingLevel": "off"}"#)),
        (
            "get_available_thinking_levels",
            json(r#"{"levels": ["off", "xhigh"]}"#),
        ),
    ]);

    let Some(Action::RuntimeControlsUpdated {
        thinking_level,
        available_thinking_levels,
        ..
    }) = controls(&actions)
    else {
        panic!("expected controls");
    };
    assert_eq!(*thinking_level, ThinkingLevel::Off);
    assert_eq!(available_thinking_levels.len(), 2);
}

#[test]
fn there_is_always_at_least_one_thinking_level() {
    for levels in [json(r#"{"levels": []}"#), json("{}"), Json::Null] {
        let actions = with(&[("get_available_thinking_levels", levels)]);

        let Some(Action::RuntimeControlsUpdated { available_thinking_levels, .. }) =
            controls(&actions)
        else {
            panic!("expected controls");
        };
        assert!(!available_thinking_levels.is_empty());
    }
}

#[test]
fn auto_compaction_defaults_to_on_when_unreported() {
    let actions = with(&[("get_state", json("{}"))]);

    let Some(Action::RuntimeControlsUpdated { auto_compaction_enabled, .. }) = controls(&actions)
    else {
        panic!("expected controls");
    };
    assert!(*auto_compaction_enabled);
}

#[test]
fn missing_extras_do_not_present_as_a_broken_session() {
    let actions = failing("get_session_stats");

    assert!(controls(&actions).is_some());
    assert!(!actions
        .iter()
        .any(|action| matches!(action, Action::SetSessionStatus(SessionStatus::Failed(_)))));
}

#[test]
fn slash_commands_are_parsed_with_defaults_for_absent_fields() {
    let actions = with(&[(
        "get_commands",
        json(
            r#"{"commands": [
                {"name": "compact", "description": "Compact", "source": "builtin"},
                {"name": "bare"},
                {"description": "no name, skipped"}
            ]}"#,
        ),
    )]);

    let commands = commands(&actions).expect("commands");
    assert_eq!(commands.len(), 2);
    assert_eq!(commands[1].name, "bare");
    assert_eq!(commands[1].source, "command");
    assert!(commands[1].description.is_empty());
}

#[test]
fn every_control_query_is_issued_once() {
    let (_, asked) = round(&[], None);

    assert_eq!(
        asked,
        vec![
            "get_state",
            "get_available_models",
            "get_available_thinking_levels",
            "get_session_stats",
            "get_commands",
        ]
    );
}

#[test]
fn unreadable_models_are_reported_and_the_round_goes_on() {
    let (actions, asked) = round(&[], Some("get_available_models"));
    assert_eq!(asked.len(), 5);
    assert!(matches!(
        actions[0],
        Action::SetSessionStatus(SessionStatus::Failed(_))
    ));
    assert!(controls(&actions).is_some());
}

#[test]
fn providers_are_named_by_their_configuration_key() {
    let profile = ProviderProfile {
        id: 0x1f,
        name: "Gateway".into(),
        base_url: "https://gateway.example/v1".into(),
        protocol: ProviderProtocol::OpenAiCompletions,
        models: Vec::new(),
        updated_at_ms: 1,
        has_api_key: true,
    };
    let names = provider_names(&vec![profile]);
    assert_eq!(names.get(&provider_config_key(0x1f)), Some("Gateway"));
    assert_eq!(names.get("pi-whim-"), None);
}
