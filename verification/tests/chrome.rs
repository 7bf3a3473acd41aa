//! What stands around the chat.

use pi_whim::chrome::banner::{Banner, Severity};
use pi_whim::chrome::icons::{
    add, attachment, close, compact, copy, disclosure, project, role, search, send, session,
    settings, status, stop, theme_toggle, IconName,
};
use pi_whim::chrome::metrics;
use pi_whim::chrome::metrics::SessionMeter;
use pi_whim::chrome::status_pill::{status_label, Hue, StatusPill};
use pi_whim::chrome::status_strip;
use pi_whim::chrome::status_strip::StatusStrip;
use pi_whim::chrome::top_bar::{ThemeMode, TopBar};
use pi_whim::domain::{
    AppState, ConversationRole, Language, Project, ProjectSessions, SessionMetrics, SessionStatus,
    SessionSummary,
};
use pi_whim::shell::rename::{usable_title, Rename, RenameEvent};

#[test]
fn metrics_cost_keeps_four_decimals_so_cheap_turns_are_not_zero() {
    assert_eq!(metrics::format_cost(0), "$0.0000");
    assert_eq!(metrics::format_cost(1_234), "$0.0012");
    assert_eq!(metrics::format_cost(2_500_000), "$2.5000");
}

#[test]
fn metrics_token_counts_are_abbreviated_past_a_thousand() {
    assert_eq!(metrics::format_tokens(0), "0");
    assert_eq!(metrics::format_tokens(999), "999");
    assert_eq!(metrics::format_tokens(1_000), "1.0k");
    assert_eq!(metrics::format_tokens(15_500), "15.5k");
    assert_eq!(metrics::format_tokens(1_000_000), "1.0M");
    assert_eq!(metrics::format_tokens(2_400_000), "2.4M");
}

#[test]
fn a_session_that_has_reported_nothing_shows_no_meter() {
    assert!(SessionMeter::from_metrics(None).is_none());
}

#[test]
fn the_meter_reports_cost_tokens_and_messages() {
    let metrics = SessionMetrics {
        cost_microusd: 2_500_000,
        total_tokens: 15_500,
        total_messages: 7,
        ..Default::default()
    };
    let meter = SessionMeter::from_metrics(Some(&metrics)).expect("a meter");
    assert_eq!(meter.segments(), vec!["$2.5000", "15.5k tok", "7 msg"]);
}

#[test]
fn status_strip_cost_keeps_four_decimals_so_cheap_turns_are_not_zero() {
    assert_eq!(status_strip::format_cost(0), "$0.0000");
    assert_eq!(status_strip::format_cost(1_234), "$0.0012");
    assert_eq!(status_strip::format_cost(2_500_000), "$2.5000");
}

#[test]
fn status_strip_token_counts_are_abbreviated_past_a_thousand() {
    assert_eq!(status_strip::format_tokens(0), "0");
    assert_eq!(status_strip::format_tokens(999), "999");
    assert_eq!(status_strip::format_tokens(1_000), "1.0k");
    assert_eq!(status_strip::format_tokens(15_500), "15.5k");
    assert_eq!(status_strip::format_tokens(999_999), "1000.0k");
    assert_eq!(status_strip::format_tokens(1_000_000), "1.0M");
    assert_eq!(status_strip::format_tokens(2_400_000), "2.4M");
}

#[test]
fn figures_are_written_as_binary_fractions_are() {
    let mut values: Vec<u64> = (0..40_000).collect();
    let mut value: u64 = 0x9e37_79b9_7f4a_7c15;
    for _ in 0..20_000 {
        value ^= value << 13;
        value ^= value >> 7;
        value ^= value << 17;
        values.push(value);
        values.push(value >> 11);
        values.push(value >> 30);
        values.push(value >> 44);
    }
    values.extend([u64::MAX, u64::MAX - 1, 1 << 53, (1 << 53) + 1, (1 << 54) + 2, 999_950, 999_949]);
    for value in values {
        assert_eq!(
            metrics::format_cost(value),
            format!("${:.4}", value as f64 / 1_000_000.0)
        );
        let tokens = if value < 1_000 {
            value.to_string()
        } else if value < 1_000_000 {
            format!("{:.1}k", value as f64 / 1_000.0)
        } else {
            format!("{:.1}M", value as f64 / 1_000_000.0)
        };
        assert_eq!(metrics::format_tokens(value), tokens);
    }
}

#[test]
fn an_empty_state_still_reports_the_compaction_setting() {
    let strip = StatusStrip::from_state(&AppState::default());
    assert!(strip.project.is_none());
    assert!(strip.session.is_none());
    assert!(strip.metrics.is_none());
    assert_eq!(strip.segments().len(), 1);
}

#[test]
fn the_strip_names_what_is_selected() {
    let state = AppState {
        projects: vec![Project {
            id: 1,
            name: "alpha".into(),
            path: "/tmp/alpha".into(),
            pinned: false,
            last_opened_ms: 0,
        }],
        sessions: vec![ProjectSessions {
            project_id: 1,
            sessions: vec![SessionSummary {
                id: 2,
                project_id: 1,
                pi_path: "/tmp/a.jsonl".into(),
                title: "Refactor".into(),
                preview: String::new(),
                updated_at_ms: 0,
            }],
        }],
        selected_project: Some(1),
        selected_session: Some(2),
        session_metrics: Some(SessionMetrics::default()),
        auto_compaction_enabled: false,
        ..AppState::default()
    };
    assert_eq!(
        StatusStrip::from_state(&state).segments(),
        vec!["alpha", "Refactor", "$0.0000", "0 tok", "0 msg", "auto-compact off"]
    );
}

#[test]
fn every_status_has_a_label() {
    for status in [
        SessionStatus::Offline,
        SessionStatus::Starting,
        SessionStatus::Ready,
        SessionStatus::Streaming,
        SessionStatus::Compacting,
        SessionStatus::Failed("boom".into()),
    ] {
        assert!(!status_label(&status, Language::English, &table).is_empty());
        let chinese = status_label(&status, Language::SimplifiedChinese, &table);
        assert!(!chinese.is_empty());
        assert_ne!(chinese, "?");
    }
}

#[test]
fn a_label_is_that_of_its_own_status() {
    let labels: Vec<&str> = [
        SessionStatus::Offline,
        SessionStatus::Starting,
        SessionStatus::Ready,
        SessionStatus::Streaming,
        SessionStatus::Compacting,
        SessionStatus::Failed("boom".into()),
    ]
    .iter()
    .map(|status| status_label(status, Language::English, &table))
    .collect();
    assert_eq!(labels, vec!["offline", "starting", "ready", "streaming", "compacting", "failed"]);
}

#[test]
fn failure_and_progress_are_visually_distinct() {
    let failed =
        StatusPill::new(SessionStatus::Failed("boom".into()), Language::English).dot();
    let streaming = StatusPill::new(SessionStatus::Streaming, Language::English).dot();
    let idle = StatusPill::new(SessionStatus::Offline, Language::English).dot();

    assert_ne!(failed, streaming);
    assert_ne!(streaming, idle);
    assert_eq!(failed, Hue::Error);
}

#[test]
fn compacting_reads_as_work_in_progress() {
    assert_eq!(
        StatusPill::new(SessionStatus::Compacting, Language::English).dot(),
        StatusPill::new(SessionStatus::Streaming, Language::English).dot()
    );
}

#[test]
fn severity_selects_the_accent() {
    assert_eq!(Banner::error("boom").accent(), Hue::Error);
    assert_eq!(Banner::progress("working").accent(), Hue::Accent);
}

#[test]
fn progress_banners_are_slimmer_than_errors() {
    assert!(Banner::progress("working").vertical_padding() < Banner::error("boom").vertical_padding());
}

#[test]
fn a_banner_takes_a_second_line_and_buttons() {
    let banner = Banner::error("boom")
        .detail("what it means".into())
        .on_copy("Copy".into())
        .on_dismiss("Close".into());
    assert_eq!(banner.severity(), Severity::Error);
    assert_eq!(banner.message, "boom");
    assert_eq!(banner.detail.as_deref(), Some("what it means"));
    assert_eq!(banner.copy_label.as_deref(), Some("Copy"));
    assert_eq!(banner.dismiss_label.as_deref(), Some("Close"));
}

#[test]
fn the_theme_toggle_offers_the_other_mode() {
    assert_eq!(theme_toggle(true), IconName::Sun);
    assert_eq!(theme_toggle(false), IconName::Moon);
}

/// A string table.
fn table(key: &'static str, language: Language) -> &'static str {
    let chinese = language == Language::SimplifiedChinese;
    match (key, chinese) {
        ("switch-to-dark", false) => "Switch to dark",
        ("switch-to-dark", true) => "切换到深色",
        ("switch-to-light", false) => "Switch to light",
        ("switch-to-light", true) => "切换到浅色",
        ("settings", false) => "Settings",
        ("settings", true) => "设置",
        ("status-offline", false) => "offline",
        ("status-offline", true) => "离线",
        ("status-starting", false) => "starting",
        ("status-starting", true) => "启动中",
        ("status-ready", false) => "ready",
        ("status-ready", true) => "就绪",
        ("status-streaming", false) => "streaming",
        ("status-streaming", true) => "响应中",
        ("status-compacting", false) => "compacting",
        ("status-compacting", true) => "压缩中",
        ("status-failed", false) => "failed",
        ("status-failed", true) => "失败",
        _ => "?",
    }
}

#[test]
fn the_theme_toggle_tooltip_names_its_destination() {
    let light = TopBar::new(SessionStatus::Ready, ThemeMode::Light, Language::English);
    assert_eq!(light.theme_toggle_tooltip(&table), "Switch to dark");

    let dark = TopBar::new(SessionStatus::Ready, ThemeMode::Dark, Language::English);
    assert_eq!(dark.theme_toggle_tooltip(&table), "Switch to light");

    let chinese = TopBar::new(SessionStatus::Ready, ThemeMode::Light, Language::SimplifiedChinese);
    assert_eq!(chinese.theme_toggle_tooltip(&table), "切换到深色");
}

#[test]
fn a_project_shows_whether_it_is_open() {
    assert_ne!(project(true), project(false));
    assert_eq!(project(true), IconName::FolderOpen);
}

#[test]
fn disclosure_points_down_when_open() {
    assert_eq!(disclosure(true), IconName::ChevronDown);
    assert_eq!(disclosure(false), IconName::ChevronRight);
}

#[test]
fn prompts_carry_no_role_icon() {
    assert!(role(ConversationRole::User).is_none());
    for with_icon in [
        ConversationRole::Assistant,
        ConversationRole::Tool,
        ConversationRole::System,
    ] {
        assert!(role(with_icon).is_some(), "{with_icon:?}");
    }
}

#[test]
fn roles_are_visually_distinct_from_each_other() {
    let assistant = role(ConversationRole::Assistant).unwrap();
    let tool = role(ConversationRole::Tool).unwrap();
    let system = role(ConversationRole::System).unwrap();

    assert_ne!(assistant, tool);
    assert_ne!(tool, system);
    assert_ne!(assistant, system);
}

#[test]
fn idle_states_add_no_icon_beside_the_dot() {
    assert!(status(&SessionStatus::Ready).is_none());
    assert!(status(&SessionStatus::Offline).is_none());
}

#[test]
fn states_worth_noticing_get_an_icon() {
    for noticeable in [
        SessionStatus::Failed("boom".into()),
        SessionStatus::Starting,
        SessionStatus::Streaming,
        SessionStatus::Compacting,
    ] {
        assert!(status(&noticeable).is_some(), "{noticeable:?}");
    }
}

#[test]
fn failure_does_not_look_like_progress() {
    let failed = status(&SessionStatus::Failed("boom".into())).unwrap();
    let working = status(&SessionStatus::Streaming).unwrap();
    assert_ne!(failed, working);
}

#[test]
fn send_and_stop_are_different_glyphs() {
    assert_ne!(send(), stop());
}

#[test]
fn controls_have_their_glyphs() {
    assert_eq!(
        [settings(), add(), close(), copy(), search(), compact(), attachment(), session()],
        [
            IconName::Settings,
            IconName::Plus,
            IconName::Close,
            IconName::Copy,
            IconName::Search,
            IconName::Minimize,
            IconName::File,
            IconName::File,
        ]
    );
}

#[test]
fn a_typed_title_is_stored_trimmed() {
    assert_eq!(usable_title("  Migrate the UI  ").as_deref(), Some("Migrate the UI"));
}

#[test]
fn a_blank_title_is_rejected() {
    assert_eq!(usable_title(""), None);
    assert_eq!(usable_title("   "), None);
    assert_eq!(usable_title("\t\n"), None);
}

#[test]
fn inner_spacing_is_left_alone() {
    assert_eq!(usable_title("Migrate  the   UI").as_deref(), Some("Migrate  the   UI"));
}

#[test]
fn a_rename_closes_only_once_something_is_stored() {
    let mut rename = Rename::new();
    rename.set_typed("title");
    assert_eq!(rename.commit(), None);
    rename.open("/tmp/a.jsonl", "Old");
    rename.set_typed("  ");
    assert_eq!(rename.commit(), None);
    assert!(rename.is_open());
    rename.set_typed(" New ");
    assert_eq!(
        rename.commit(),
        Some(RenameEvent::Renamed { path: "/tmp/a.jsonl".into(), title: "New".into() })
    );
    assert!(!rename.is_open());
    rename.open("/tmp/a.jsonl", "New");
    rename.close();
    assert!(!rename.is_open());
}

#[test]
fn a_rename_starts_from_the_title() {
    let mut rename = Rename::new();
    rename.open("/tmp/a.jsonl", " Old title ");
    assert_eq!(
        rename.commit(),
        Some(RenameEvent::Renamed { path: "/tmp/a.jsonl".into(), title: "Old title".into() })
    );
    assert!(!rename.set_language(Language::English));
    assert!(rename.set_language(Language::SimplifiedChinese));
}

#[test]
fn the_title_row_shows_what_is_running() {
    let metrics = SessionMetrics {
        total_messages: 3,
        total_tokens: 1_500,
        cost_microusd: 12_300,
        ..SessionMetrics::default()
    };
    let row = TopBar::new(SessionStatus::Streaming, ThemeMode::Dark, Language::English)
        .metrics(Some(&metrics))
        .render(&table);
    assert_eq!(row.pill.dot, Hue::Accent);
    assert_eq!(row.pill.icon, Some(IconName::LoaderCircle));
    assert_eq!(row.pill.label, "streaming");
    assert_eq!(row.settings_tooltip, "Settings");
    assert_eq!(row.figures.map(|figures| figures.len()), Some(3));
    assert_eq!(row.theme_icon, IconName::Sun);
    assert_eq!(row.settings_icon, IconName::Settings);
    let row = TopBar::new(SessionStatus::Ready, ThemeMode::Light, Language::English)
        .metrics(None)
        .render(&table);
    assert_eq!(row.figures, None);
    assert_eq!(row.pill.icon, None);
    assert_eq!(row.theme_tooltip, "Switch to dark");
}

#[test]
fn the_rename_dialog_says_what_it_is_for() {
    let words = |key: &'static str, language: Language| match (key, language) {
        ("rename-session", Language::English) => "Rename session",
        ("title-field", Language::English) => "Title",
        ("session-title", Language::English) => "Session title",
        ("save", Language::English) => "Save",
        _ => "?",
    };
    let mut rename = Rename::new();
    assert!(rename.render(&words).is_none());
    rename.open("/tmp/a.jsonl", "Old");
    let dialog = rename.render(&words).expect("a dialog");
    assert_eq!(dialog.title, "Rename session");
    assert_eq!(dialog.field_label, "Title");
    assert_eq!(dialog.placeholder, "Session title");
    assert_eq!(dialog.save_label, "Save");
    assert_eq!(dialog.typed, "Old");
}
