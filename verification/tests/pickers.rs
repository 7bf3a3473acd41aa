//! The pickers of the prompt controls.

use pi_whim::chat::controls::{
    model_groups, models_unavailable_note, permission_is_flagged, permission_key, permission_label,
    Controls, ModelItem, PERMISSION_LEVELS,
};
use pi_whim::chat::dropdown::{key_action, Choice, ChoicePicker, KeyAction};
use pi_whim::chat::keys::{step, Keystroke};
use pi_whim::chat::model_picker;
use pi_whim::chat::model_picker::{model_key, model_matches, row_label, ModelPicker};
use pi_whim::domain::{
    AgentPermissionLevel, AppState, Language, ModelOption, SessionStatus, ThinkingLevel,
};

fn model(provider: &str, provider_name: &str, id: &str, name: &str) -> ModelOption {
    ModelOption {
        provider: provider.into(),
        provider_name: provider_name.into(),
        id: id.into(),
        name: name.into(),
    }
}

fn item(model: ModelOption) -> ModelItem {
    ModelItem::new(model)
}

#[test]
fn models_are_grouped_under_their_provider() {
    let models = vec![
        model("p1", "Anthropic", "model-opus-4-8", "Opus 4.8"),
        model("p2", "OpenAI", "gpt-5", "GPT-5"),
        model("p1", "Anthropic", "model-sonnet-5", "Sonnet 5"),
    ];
    let groups = model_groups(&models);

    assert_eq!(groups.len(), 2);
    assert_eq!(groups[0].title, "Anthropic");
    assert_eq!(groups[1].title, "OpenAI");
    assert_eq!(groups[0].items.len(), 2);
    assert_eq!(groups[0].items[0].model.name, "Opus 4.8");
    assert_eq!(groups[0].items[1].model.name, "Sonnet 5");
}

#[test]
fn no_models_means_no_groups() {
    assert!(model_groups(&Vec::new()).is_empty());
}

#[test]
fn a_model_is_identified_by_provider_and_id_together() {
    let first = item(model("p1", "Anthropic", "model-opus-4-8", "Opus"));
    let second = item(model("p2", "Bedrock", "model-opus-4-8", "Opus"));

    assert_ne!(first.value(), second.value());
}

#[test]
fn searching_matches_the_id_as_well_as_the_name() {
    let candidate = item(model("p1", "Anthropic", "model-sonnet-5", "Sonnet 5"));

    assert!(candidate.matches("sonnet"));
    assert!(candidate.matches("model-sonnet-5"));
    assert!(candidate.matches("Anthropic"));
    assert!(!candidate.matches("gpt"));
}

#[test]
fn searching_ignores_case_and_surrounding_space() {
    let candidate = item(model("p1", "Anthropic", "model-opus-4-8", "Opus 4.8"));

    assert!(candidate.matches("  OPUS "));
    assert!(candidate.matches("MODEL-OPUS"));
}

#[test]
fn an_empty_query_matches_everything() {
    let candidate = item(model("p1", "Anthropic", "model-opus-4-8", "Opus 4.8"));

    assert!(candidate.matches(""));
    assert!(candidate.matches("   "));
}

#[test]
fn an_empty_model_list_says_why_when_the_session_failed() {
    assert_eq!(
        models_unavailable_note(&SessionStatus::Failed("pi not found".into())),
        "No models available: pi not found"
    );
    assert_eq!(models_unavailable_note(&SessionStatus::Starting), "No models available");
    assert_eq!(models_unavailable_note(&SessionStatus::Ready), "No models available");
}

#[test]
fn every_thinking_level_has_a_label() {
    for level in ThinkingLevel::ALL {
        assert!(!level.as_str().is_empty());
    }
}

#[test]
fn a_models_secondary_line_is_reserved_even_when_it_would_repeat() {
    let same = item(model("p1", "Local", "llama", "llama"));
    assert_eq!(same.secondary(), "");

    let different = item(model("p1", "Anthropic", "model-opus-4-8", "Opus 4.8"));
    assert_eq!(different.secondary(), "model-opus-4-8");
}

#[test]
fn the_permission_levels_are_offered_in_escalating_order() {
    let ranks: Vec<u8> = PERMISSION_LEVELS.iter().map(|level| level.rank()).collect();
    let mut sorted = ranks.clone();
    sorted.sort_unstable();

    assert_eq!(ranks, sorted);
    assert_eq!(ranks.len(), 3);
}

#[test]
fn only_full_access_is_flagged() {
    assert!(permission_is_flagged(AgentPermissionLevel::Full));
    assert!(!permission_is_flagged(AgentPermissionLevel::Controlled));
    assert!(!permission_is_flagged(AgentPermissionLevel::ReadOnly));
    assert_eq!(permission_key(AgentPermissionLevel::Full), "permission-full");
}

#[test]
fn short_picker_navigation_wraps() {
    assert_eq!(step(0, 3, -1), 2);
    assert_eq!(step(2, 3, 1), 0);
}

#[test]
fn modified_keys_are_left_to_the_focused_control() {
    let keystroke = Keystroke { shift: true, ..Keystroke::bare("down") };
    assert_eq!(key_action(&keystroke), KeyAction::Ignore);
}

#[test]
fn search_matches_name_id_and_provider() {
    let candidate = model("anthropic", "Anthropic", "model-sonnet-5", "Sonnet 5");

    assert!(model_matches(&candidate, "sonnet"));
    assert!(model_matches(&candidate, "model-sonnet-5"));
    assert!(model_matches(&candidate, "anthropic"));
    assert!(!model_matches(&candidate, "gpt"));
}

#[test]
fn provider_is_only_added_to_duplicate_names() {
    let unique = model("openai", "OpenAI", "gpt-5", "GPT-5");
    let first = model("anthropic", "Anthropic", "opus", "Opus");
    let second = model("bedrock", "Bedrock", "opus", "Opus");
    let models = vec![unique, first, second];

    assert_eq!(row_label(&models, 0), "GPT-5");
    assert_eq!(row_label(&models, 1), "Opus  ·  Anthropic");
    assert_eq!(row_label(&models, 2), "Opus  ·  Bedrock");
    assert_eq!(row_label(&models, 3), "");
}

#[test]
fn digits_are_shortcuts_only_before_searching() {
    let three = Keystroke::bare("3");
    assert_eq!(model_picker::key_action(&three, true), model_picker::KeyAction::Shortcut(2));
    assert_eq!(model_picker::key_action(&three, false), model_picker::KeyAction::Ignore);
}

#[test]
fn selection_steps_wrap() {
    assert_eq!(step(0, 4, -1), 3);
    assert_eq!(step(3, 4, 1), 0);
    assert_eq!(step(0, 0, 1), 0);
}

#[test]
fn unchanged_backend_snapshots_preserve_a_local_selection() {
    let mut picker = ModelPicker::new();
    let first = model("p", "Provider", "first", "First");
    let second = model("p", "Provider", "second", "Second");
    let reported = Some(model_key(&first));
    let models = vec![first, second.clone()];
    assert!(picker.sync(&models, reported.clone(), Language::English));

    assert_eq!(picker.visible(), &vec![0, 1]);
    picker.confirm(1);
    assert_eq!(picker.selected(), Some(model_key(&second)));

    assert!(!picker.sync(&models, reported.clone(), Language::English));
    assert_eq!(picker.selected(), Some(model_key(&second)));
    assert!(picker.sync(&models, reported, Language::SimplifiedChinese));
    assert_eq!(picker.selected(), Some(model_key(&second)));
}

#[test]
fn a_query_narrows_the_models_and_opening_clears_it() {
    let mut picker = ModelPicker::new();
    let models = vec![
        model("p", "Provider", "first", "First"),
        model("p", "Provider", "second", "Second"),
    ];
    picker.sync(&models, Some(model_key(&models[1])), Language::English);
    assert!(picker.set_query("SEC"));
    assert_eq!(picker.visible(), &vec![1]);
    assert_eq!(picker.handle_key(&Keystroke::bare("1")).consumed, false);
    picker.popover_changed(true, "SEC");
    assert_eq!(picker.visible(), &vec![0, 1]);
    let row = picker.render_row(1).unwrap();
    assert!(row.selected && row.active);
    assert_eq!(row.shortcut, None);
    assert_eq!(picker.render_row(0).unwrap().shortcut, Some(1));
    let handled = picker.handle_key(&Keystroke::bare("1"));
    assert!(handled.consumed && handled.close);
    assert_eq!(handled.confirmed, Some(models[0].clone()));
    assert!(!picker.handle_key(&Keystroke::bare("7")).consumed);
    assert_eq!(picker.selected_name().as_deref(), Some("First"));
}

#[test]
fn a_selection_that_is_no_longer_on_offer_is_given_up() {
    let mut picker = ModelPicker::new();
    let models = vec![
        model("p", "Provider", "first", "First"),
        model("p", "Provider", "second", "Second"),
    ];
    let reported = Some(model_key(&models[0]));
    picker.sync(&models, reported.clone(), Language::English);
    picker.confirm(1);
    picker.sync(&vec![models[0].clone()], reported.clone(), Language::English);
    assert_eq!(picker.selected(), reported);
}

#[test]
fn a_short_picker_opens_on_its_selection() {
    let mut picker = ChoicePicker::new();
    let choices = || {
        vec![
            Choice::new("off", ThinkingLevel::Off),
            Choice::new("high", ThinkingLevel::High),
        ]
    };
    assert!(picker.sync(choices(), Some(ThinkingLevel::High), "Thinking: ", "off"));
    assert!(!picker.sync(choices(), Some(ThinkingLevel::High), "Thinking: ", "off"));
    assert_eq!(picker.label(), "Thinking: high");
    picker.popover_changed(true);
    assert!(picker.handle_key(&Keystroke::bare("down")).consumed);
    let handled = picker.handle_key(&Keystroke::bare("enter"));
    assert_eq!(handled.confirmed, Some(ThinkingLevel::Off));
    assert!(handled.close);
    assert_eq!(picker.label(), "Thinking: off");
    assert_eq!(picker.render_row(0), Some(("off".into(), true, true)));
    assert!(picker.hover_row(1));
    assert_eq!(picker.render_row(1), Some(("high".into(), false, true)));
    assert!(picker.handle_key(&Keystroke::bare("escape")).close);
    assert_eq!(picker.confirm(5), None);
}

#[test]
fn the_controls_show_the_model_that_was_chosen() {
    let chosen = model("p", "Provider", "next", "Next");
    let state = AppState {
        selected_project: Some(1),
        current_model: Some(model("p", "Provider", "now", "Now")),
        pending_model: Some(chosen.clone()),
        available_models: vec![chosen.clone()],
        ..AppState::default()
    };
    let mut controls = Controls::new();
    assert!(!controls.visible);
    assert_eq!(controls.render(), None);
    controls.sync(&state);
    assert!(controls.visible);
    assert_eq!(controls.selected_model, Some(model_key(&chosen)));
    assert_eq!(controls.model_for(&model_key(&chosen)), Some(chosen));
    assert_eq!(controls.models_note(), None);
    let row = controls.render().expect("a row");
    assert!(!row.permission_flagged);
    assert_eq!(row.models_note, None);
    controls.sync(&AppState {
        selected_project: Some(1),
        session_status: SessionStatus::Failed("gone".into()),
        ..AppState::default()
    });
    controls.permission = AgentPermissionLevel::Full;
    let row = controls.render().expect("a row");
    assert!(row.permission_flagged);
    assert_eq!(row.models_note, Some(("No models available: gone".into(), true)));
    let empty = Controls::new();
    assert_eq!(empty.models_note(), Some(("No models available".into(), false)));
}

/// A string table.
fn table(key: &'static str, language: Language) -> &'static str {
    let chinese = language == Language::SimplifiedChinese;
    match (key, chinese) {
        ("permission-read-only", false) => "Read only",
        ("permission-read-only", true) => "只读",
        ("permission-controlled", false) => "Controlled",
        ("permission-controlled", true) => "受控",
        ("permission-full", false) => "Full access",
        ("permission-full", true) => "完全访问",
        ("model", false) => "Model",
        ("search-models", false) => "Search models",
        ("no-models-available", false) => "No models",
        _ => "?",
    }
}

#[test]
fn every_permission_level_has_a_label_in_both_languages() {
    for level in PERMISSION_LEVELS {
        for language in [Language::English, Language::SimplifiedChinese] {
            assert_ne!(
                permission_label(level, language, &table),
                "?",
                "{level:?} has no label in {language:?}"
            );
        }
    }
    assert_eq!(
        permission_label(AgentPermissionLevel::Full, Language::English, &table),
        "Full access"
    );
}

#[test]
fn a_picker_says_what_is_selected() {
    let mut picker = ModelPicker::new();
    assert_eq!(picker.label(&table), "Model");
    assert_eq!(picker.empty_note(&table), Some("No models"));
    assert_eq!(picker.search_placeholder(&table), "Search models");
    let only = model("p", "Provider", "first", "First");
    picker.sync(&vec![only.clone()], Some(model_key(&only)), Language::English);
    assert_eq!(picker.label(&table), "First");
    assert_eq!(picker.empty_note(&table), None);
}
