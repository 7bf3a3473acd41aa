//! The slash-command palette.

use pi_whim::chat::keys::{step, Keystroke};
use pi_whim::chat::palette::{key_action, KeyAction, Palette, PaletteEvent, PaletteKey};
use pi_whim::domain::{
    AppState, ConversationItem, ConversationRole, Language, ModelOption, SessionStatus,
    SlashCommandInfo, ThinkingLevel,
};
use pi_whim::slash_commands::{command_argument, options, prefill, SlashCommand};

#[test]
fn menu_contains_session_commands_but_filters_gui_owned_commands() {
    let state = AppState::default();
    let options = options(&state, "/").unwrap();
    let triggers = options
        .iter()
        .map(|option| option.trigger.as_str())
        .collect::<Vec<_>>();
    for command in [
        "model",
        "export",
        "share",
        "copy",
        "name",
        "session",
        "changelog",
        "hotkeys",
        "fork",
        "clone",
        "new",
        "compact",
        "thinking",
        "image",
    ] {
        assert!(
            triggers.contains(&format!("/{command}").as_str()),
            "missing /{command}"
        );
    }
    for command in [
        "settings",
        "scoped-models",
        "import",
        "tree",
        "trust",
        "login",
        "logout",
        "resume",
        "reload",
        "quit",
    ] {
        assert!(
            !triggers.contains(&format!("/{command}").as_str()),
            "GUI-owned /{command} leaked into menu"
        );
    }
}

#[test]
fn model_results_require_an_argument_after_the_model_command() {
    let state = AppState::default();
    assert!(matches!(
        options(&state, "/model").unwrap()[0].command,
        SlashCommand::ChooseModel
    ));
    let state = AppState {
        available_models: vec![ModelOption {
            provider: "test".into(),
            provider_name: "Test".into(),
            id: "gpt-example".into(),
            name: "GPT Example".into(),
        }],
        ..AppState::default()
    };
    assert!(matches!(
        options(&state, "/model gpt").unwrap()[0].command,
        SlashCommand::SetModel(_)
    ));
}

#[test]
fn dynamic_runtime_commands_are_searchable() {
    let state = AppState {
        available_commands: vec![SlashCommandInfo {
            name: "skill:review".into(),
            description: "Review code".into(),
            source: "skill".into(),
        }],
        ..AppState::default()
    };
    let options = options(&state, "/review").unwrap();
    assert!(
        matches!(&options[0].command, SlashCommand::SubmitDynamic(name) if name == "skill:review")
    );
}

#[test]
fn stepping_wraps_at_both_ends() {
    assert_eq!(step(0, 3, 1), 1);
    assert_eq!(step(2, 3, 1), 0);
    assert_eq!(step(0, 3, -1), 2);
    assert_eq!(step(1, 3, -1), 0);
}

#[test]
fn stepping_an_empty_list_stays_put() {
    assert_eq!(step(0, 0, 1), 0);
    assert_eq!(step(0, 0, -1), 0);
}

#[test]
fn stepping_a_single_option_is_a_no_op() {
    assert_eq!(step(0, 1, 1), 0);
    assert_eq!(step(0, 1, -1), 0);
}

#[test]
fn a_command_that_needs_an_argument_only_prefills_the_field() {
    assert_eq!(prefill(&SlashCommand::ChooseModel).as_deref(), Some("/model "));
    assert_eq!(prefill(&SlashCommand::NameSession(None)).as_deref(), Some("/name "));
    assert_eq!(
        prefill(&SlashCommand::SubmitDynamic("review".into())).as_deref(),
        Some("/review ")
    );
}

#[test]
fn a_complete_command_runs() {
    assert_eq!(prefill(&SlashCommand::Compact), None);
    assert_eq!(prefill(&SlashCommand::NameSession(Some("audit".into()))), None);
}

fn keystroke(key: &str) -> Keystroke {
    let mut parts: Vec<&str> = key.split('-').collect();
    let key = parts.pop().expect("a key");
    Keystroke {
        key: key.to_owned(),
        shift: parts.contains(&"shift"),
        control: parts.contains(&"ctrl"),
        alt: parts.contains(&"alt"),
        platform: parts.contains(&"cmd"),
    }
}

#[test]
fn arrows_move_the_selection_and_enter_runs() {
    assert_eq!(key_action(&keystroke("up")), KeyAction::Move(-1));
    assert_eq!(key_action(&keystroke("down")), KeyAction::Move(1));
    assert_eq!(key_action(&keystroke("enter")), KeyAction::Run);
    assert_eq!(key_action(&keystroke("tab")), KeyAction::Run);
    assert_eq!(key_action(&keystroke("escape")), KeyAction::Dismiss);
}

#[test]
fn ordinary_typing_reaches_the_input() {
    assert_eq!(key_action(&keystroke("a")), KeyAction::Ignore);
    assert_eq!(key_action(&keystroke("/")), KeyAction::Ignore);
    assert_eq!(key_action(&keystroke("backspace")), KeyAction::Ignore);
}

#[test]
fn a_modified_key_is_never_the_palettes() {
    assert_eq!(key_action(&keystroke("shift-enter")), KeyAction::Ignore);
    assert_eq!(key_action(&keystroke("cmd-a")), KeyAction::Ignore);
    assert_eq!(key_action(&keystroke("ctrl-n")), KeyAction::Ignore);
    assert_eq!(key_action(&keystroke("alt-up")), KeyAction::Ignore);
}

#[test]
fn captured_actions_move_the_selection_and_run_it() {
    let mut palette = Palette::new();
    palette.sync(&AppState::default(), "/");
    assert!(palette.is_open());

    assert!(palette.handle_palette_key(PaletteKey::Down).0);
    assert_eq!(palette.selection(), 1);
    assert!(palette.handle_palette_key(PaletteKey::Up).0);
    assert_eq!(palette.selection(), 0);
    assert!(palette.handle_palette_key(PaletteKey::Up).0);
    assert_eq!(palette.selection(), palette.options().len() - 1);

    let model = palette
        .options()
        .iter()
        .position(|option| option.command == SlashCommand::ChooseModel)
        .expect("the model command is listed");
    while palette.selection() != model {
        palette.handle_palette_key(PaletteKey::Down);
    }
    let (taken, event) = palette.handle_palette_key(PaletteKey::Run);
    assert!(taken);
    assert!(!palette.is_open(), "running closes the panel");
    assert!(matches!(event, Some(PaletteEvent::SetComposerText(text)) if text == "/model "));

    assert!(!palette.handle_palette_key(PaletteKey::Down).0);
}

#[test]
fn a_dismissed_panel_stays_closed_until_the_text_changes() {
    let state = AppState::default();
    let mut palette = Palette::new();
    palette.sync(&state, "/co");
    assert!(palette.handle_key(&keystroke("escape")).0);
    palette.sync(&state, "/co");
    assert!(!palette.is_open());
    palette.sync(&state, "/com");
    assert!(palette.is_open());
    assert!(!palette.handle_key(&keystroke("x")).0);
    assert_eq!(palette.run(99), None);
    palette.sync(&state, "hello");
    assert!(!palette.is_open());
}

#[test]
fn the_menu_speaks_the_language_of_the_state() {
    let state = AppState { language: Language::SimplifiedChinese, ..AppState::default() };
    let found = options(&state, "/").unwrap();
    assert_eq!(found[0].title, "选择模型");
    assert_eq!(found[12].detail, "当前: off");
    let english = AppState { language: Language::English, ..AppState::default() };
    assert_eq!(options(&english, "/").unwrap()[12].detail, "Current: off");
    assert_eq!(options(&english, "/").unwrap()[0].title, "Select model");
}

#[test]
fn stopping_is_on_offer_only_while_something_runs() {
    let state = AppState::default();
    assert!(options(&state, "/stop").unwrap().is_empty());
    let streaming = AppState { session_status: SessionStatus::Streaming, ..AppState::default() };
    assert_eq!(options(&streaming, "/stop").unwrap()[0].command, SlashCommand::Stop);
}

#[test]
fn arguments_stand_behind_white_space() {
    assert_eq!(command_argument("name  My title ", "name").as_deref(), Some("My title"));
    assert_eq!(command_argument("names", "name"), None);
    assert_eq!(command_argument("name", "name"), None);
    let state = AppState::default();
    assert_eq!(
        options(&state, "/name My title").unwrap()[0].command,
        SlashCommand::NameSession(Some("My title".into()))
    );
    assert_eq!(options(&state, "/name ").unwrap()[0].command, SlashCommand::NameSession(None));
    assert_eq!(
        options(&state, "/export /tmp/x.html").unwrap()[0].command,
        SlashCommand::Export(Some("/tmp/x.html".into()))
    );
    assert!(options(&state, "no slash").is_none());
    assert!(options(&state, "/two\nlines").is_none());
}

#[test]
fn levels_and_prompts_can_be_picked() {
    let mut state = AppState {
        available_thinking_levels: vec![ThinkingLevel::Off, ThinkingLevel::High],
        ..AppState::default()
    };
    state.conversation.push(ConversationItem {
        id: "u1".into(),
        role: ConversationRole::User,
        full_text: "Ä question".repeat(20),
        streaming: false,
        tool_name: None,
        tool_report: None,
        tool_details: None,
        is_error: false,
        model: None,
        attachments: Vec::new(),
    });
    let levels = options(&state, "/thinking hi").unwrap();
    assert_eq!(levels.len(), 1);
    assert_eq!(levels[0].command, SlashCommand::SetThinkingLevel(ThinkingLevel::High));
    let forks = options(&state, "/fork ä QUEST").unwrap();
    assert_eq!(forks[0].command, SlashCommand::Fork("u1".into()));
    assert_eq!(forks[0].title.chars().count(), 80);
    assert!(options(&state, "/fork missing").unwrap().is_empty());
}

#[test]
fn a_reported_command_with_an_argument_is_sent_as_it_is() {
    let state = AppState {
        available_commands: vec![SlashCommandInfo {
            name: "review".into(),
            description: String::new(),
            source: "prompt".into(),
        }],
        ..AppState::default()
    };
    assert!(options(&state, "/review this").is_none());
    let found = options(&state, "/review").unwrap();
    assert_eq!(found.last().unwrap().detail, "prompt");
}

#[test]
fn the_panel_says_what_it_is() {
    let table = |key: &'static str, language: Language| match (key, language) {
        ("slash-commands", Language::English) => "Commands",
        ("slash-help", Language::English) => "Arrows and Enter",
        _ => "?",
    };
    let mut palette = Palette::new();
    assert!(palette.render_header(&table).is_none());
    palette.sync(&AppState::default(), "/");
    let header = palette.render_header(&table).expect("a header");
    assert_eq!((header.title, header.help), ("Commands", "Arrows and Enter"));
}
