//! The sidebar's rows.

use std::collections::BTreeSet;

use pi_whim::chat::rows::{rows, Row};
use pi_whim::chat::sidebar::{filtered_rows, row_actions, row_key, Sidebar, SidebarEvent};
use pi_whim::chrome::icons::IconName;
use pi_whim::domain::{AppState, Language, Project, ProjectId, ProjectSessions, SessionSummary};

fn project(name: &str, id: u128) -> Project {
    Project {
        id,
        name: name.into(),
        path: format!("/tmp/{name}"),
        pinned: false,
        last_opened_ms: 1,
    }
}

fn session(project_id: ProjectId, id: u128, path: &str, title: &str) -> SessionSummary {
    SessionSummary {
        id,
        project_id,
        pi_path: path.into(),
        title: title.into(),
        preview: String::new(),
        updated_at_ms: 1,
    }
}

/// State with one project holding two sessions.
fn populated() -> (AppState, ProjectId) {
    let id: u128 = 1;
    let state = AppState {
        projects: vec![project("alpha", id)],
        sessions: vec![ProjectSessions {
            project_id: id,
            sessions: vec![
                session(id, 11, "/tmp/alpha/a.jsonl", "First"),
                session(id, 12, "/tmp/alpha/b.jsonl", "Second"),
            ],
        }],
        ..AppState::default()
    };
    (state, id)
}

#[test]
fn a_collapsed_project_contributes_only_its_header() {
    let (state, _) = populated();
    let rows = rows(&state, &BTreeSet::new());

    assert_eq!(rows.len(), 1);
    assert!(!rows[0].is_session());
}

#[test]
fn expanding_lists_the_sessions_under_their_project() {
    let (state, id) = populated();
    let rows = rows(&state, &BTreeSet::from([id]));

    assert_eq!(rows.len(), 3);
    assert!(!rows[0].is_session());
    assert!(rows[1].is_session());
    assert!(rows[2].is_session());
    assert!(rows.iter().all(|row| row.project_id() == id));
}

#[test]
fn projects_keep_the_order_state_holds_them_in() {
    let state = AppState {
        projects: vec![project("alpha", 2), project("beta", 1)],
        ..AppState::default()
    };

    let rows = rows(&state, &BTreeSet::new());
    assert_eq!(rows[0].project_id(), 2);
    assert_eq!(rows[1].project_id(), 1);
}

#[test]
fn a_collapsed_project_still_shows_that_work_is_happening_inside_it() {
    let (mut state, _) = populated();
    state.running_sessions.push("/tmp/alpha/a.jsonl".into());

    let rows = rows(&state, &BTreeSet::new());
    let Row::Project { running, .. } = &rows[0] else {
        panic!("expected a project header");
    };
    assert!(*running);
}

#[test]
fn running_state_is_per_session() {
    let (mut state, id) = populated();
    state.running_sessions.push("/tmp/alpha/a.jsonl".into());

    let rows = rows(&state, &BTreeSet::from([id]));
    let running: Vec<bool> = rows
        .iter()
        .filter_map(|row| match row {
            Row::Session { running, .. } => Some(*running),
            _ => None,
        })
        .collect();
    assert_eq!(running, vec![true, false]);
}

#[test]
fn selection_is_marked_on_both_kinds_of_row() {
    let (mut state, id) = populated();
    state.selected_project = Some(id);
    state.selected_session = Some(12);

    let rows = rows(&state, &BTreeSet::from([id]));
    let Row::Project { selected, .. } = &rows[0] else {
        panic!("expected a project header");
    };
    assert!(*selected);

    let selected_sessions: Vec<bool> = rows
        .iter()
        .filter_map(|row| match row {
            Row::Session { selected, .. } => Some(*selected),
            _ => None,
        })
        .collect();
    assert_eq!(selected_sessions, vec![false, true]);
}

#[test]
fn a_project_with_no_sessions_expands_to_nothing() {
    let state = AppState { projects: vec![project("empty", 3)], ..AppState::default() };

    assert_eq!(rows(&state, &BTreeSet::from([3])).len(), 1);
}

#[test]
fn no_projects_means_no_rows() {
    assert!(rows(&AppState::default(), &BTreeSet::new()).is_empty());
}

#[test]
fn adding_a_project_names_no_project() {
    assert_eq!(SidebarEvent::AddProject, SidebarEvent::AddProject);
}

#[test]
fn starting_a_session_is_distinct_from_opening_the_project() {
    let id: u128 = 9;
    assert_ne!(SidebarEvent::NewSession(id), SidebarEvent::OpenProject(id));
}

#[test]
fn opening_a_session_carries_the_path_running_state_is_keyed_by() {
    let event = SidebarEvent::OpenSession { project_id: 9, pi_path: "/tmp/a.jsonl".into() };
    let SidebarEvent::OpenSession { pi_path, .. } = &event else {
        panic!("expected a session event");
    };
    assert_eq!(pi_path, "/tmp/a.jsonl");
}

fn project_row() -> Row {
    Row::Project {
        id: 4,
        name: "pi-whim".into(),
        expanded: true,
        running: false,
        selected: false,
    }
}

fn session_row() -> Row {
    Row::Session {
        id: 5,
        project_id: 4,
        pi_path: "/tmp/a.jsonl".into(),
        title: "Migrate the UI".into(),
        running: false,
        selected: false,
    }
}

fn session_row_for(project_id: ProjectId, title: &str) -> Row {
    Row::Session {
        id: 6,
        project_id,
        pi_path: format!("/tmp/{title}.jsonl"),
        title: title.into(),
        running: false,
        selected: false,
    }
}

/// A string table.
fn table(key: &'static str, language: Language) -> &'static str {
    let chinese = language == Language::SimplifiedChinese;
    match (key, chinese) {
        ("show-finder", false) => "Show in Finder",
        ("show-finder", true) => "在访达中显示",
        ("remove", false) => "Remove",
        ("remove", true) => "移除",
        ("rename", false) => "Rename",
        ("rename", true) => "重命名",
        ("clone", false) => "Clone session",
        ("clone", true) => "克隆会话",
        ("copy-session-id", false) => "Copy session ID",
        ("copy-session-id", true) => "复制会话 ID",
        ("delete", false) => "Move to trash",
        ("delete", true) => "移到废纸篓",
        ("new-session", false) => "New session",
        ("projects", false) => "Projects",
        ("add-project", false) => "Add project",
        ("search-projects", false) => "Search projects",
        ("empty-projects", false) => "No projects yet",
        ("no-search-results", false) => "Nothing found",
        _ => "?",
    }
}

#[test]
fn search_keeps_the_parent_of_a_matching_session() {
    let project_id: u128 = 8;
    let rows = vec![
        Row::Project {
            id: project_id,
            name: "alpha".into(),
            expanded: false,
            running: false,
            selected: false,
        },
        session_row_for(project_id, "Migrate GPUI"),
    ];

    let filtered = filtered_rows(&rows, "gpui");
    assert_eq!(filtered.len(), 2);
    assert!(matches!(filtered[0], Row::Project { .. }));
    assert!(matches!(filtered[1], Row::Session { .. }));
}

#[test]
fn matching_a_project_keeps_its_expanded_sessions() {
    let project_id: u128 = 8;
    let rows = vec![
        Row::Project {
            id: project_id,
            name: "alpha".into(),
            expanded: true,
            running: false,
            selected: false,
        },
        session_row_for(project_id, "Unrelated title"),
    ];

    assert_eq!(filtered_rows(&rows, "alpha"), rows);
}

#[test]
fn a_project_and_a_session_offer_different_actions() {
    let project: Vec<_> = row_actions(&project_row(), Language::English, &table)
        .into_iter()
        .map(|action| action.label)
        .collect();
    let session: Vec<_> = row_actions(&session_row(), Language::English, &table)
        .into_iter()
        .map(|action| action.label)
        .collect();

    assert_eq!(project, vec!["Show in Finder", "Remove"]);
    assert_eq!(
        session,
        vec!["Rename", "Clone session", "Copy session ID", "Move to trash"]
    );
}

#[test]
fn the_row_menu_is_translated() {
    let chinese = row_actions(&session_row(), Language::SimplifiedChinese, &table);
    let english = row_actions(&session_row(), Language::English, &table);

    for (chinese, english) in chinese.iter().zip(&english) {
        assert_ne!(chinese.label, english.label);
        assert_ne!(chinese.label, "?");
    }
}

#[test]
fn the_header_says_what_the_column_is() {
    let header = Sidebar::new().render_header(&table);
    assert_eq!(header.title, "Projects");
    assert_eq!(header.add_tooltip, "Add project");
    assert_eq!(header.search_placeholder, "Search projects");
}

#[test]
fn renaming_starts_from_the_title_the_session_has() {
    let actions = row_actions(&session_row(), Language::English, &table);
    let SidebarEvent::RenameSession { pi_path, title } = &actions[0].event else {
        panic!("expected a rename event");
    };
    assert_eq!(pi_path, "/tmp/a.jsonl");
    assert_eq!(title, "Migrate the UI");
}

#[test]
fn moving_a_session_to_the_trash_is_last() {
    let actions = row_actions(&session_row(), Language::English, &table);
    let action = actions.last().expect("a last action");
    assert_eq!(action.label, "Move to trash");
}

#[test]
fn every_row_offers_something() {
    assert!(!row_actions(&project_row(), Language::English, &table).is_empty());
    assert!(!row_actions(&session_row(), Language::English, &table).is_empty());
}

#[test]
fn a_search_shows_collapsed_sessions_and_ends_with_the_query() {
    let mut sidebar = Sidebar::new();
    assert_eq!(sidebar.empty_note(&table), Some("No projects yet"));
    let all = vec![project_row(), session_row()];
    assert!(sidebar.set_rows(vec![project_row()], all.clone(), ""));
    assert_eq!(sidebar.rows().len(), 1);
    assert!(sidebar.filter_rows("migrate"));
    assert_eq!(sidebar.rows(), &all);
    assert!(!sidebar.filter_rows(" MIGRATE "));
    assert!(sidebar.filter_rows("nothing like it"));
    assert_eq!(sidebar.empty_note(&table), Some("Nothing found"));
    assert!(sidebar.filter_rows("  "));
    assert_eq!(sidebar.empty_note(&table), None);
}

#[test]
fn a_row_is_drawn_for_what_it_is() {
    let mut sidebar = Sidebar::new();
    let all = vec![project_row(), session_row()];
    sidebar.set_rows(all.clone(), all, "");
    let project = sidebar.render_row(0, &table).unwrap();
    assert_eq!(project.key, "project:00000000-0000-0000-0000-000000000004");
    assert_eq!(project.label, "pi-whim");
    assert_eq!(project.leading, Some(IconName::ChevronDown));
    assert_eq!(project.icon, IconName::FolderOpen);
    assert_eq!(project.new_session, Some((4, "New session")));
    assert_eq!(project.click, SidebarEvent::OpenProject(4));
    let session = sidebar.render_row(1, &table).unwrap();
    assert!(session.indented);
    assert_eq!(session.leading, None);
    assert_eq!(session.new_session, None);
    assert_eq!(session.actions.len(), 4);
    assert!(sidebar.render_row(2, &table).is_none());
}

#[test]
fn only_the_title_under_the_pointer_scrolls() {
    let mut sidebar = Sidebar::new();
    let all = vec![project_row(), session_row()];
    sidebar.set_rows(all.clone(), all, "");
    let key = row_key(&session_row());
    let epoch = sidebar.set_title_hovered(&key, true).unwrap();
    assert!(sidebar.is_scrolling(epoch));
    assert!(sidebar.render_row(1, &table).unwrap().hovered);
    assert_eq!(sidebar.set_title_hovered("unknown", true), None);
    assert!(!sidebar.is_scrolling(epoch));
    assert_eq!(sidebar.set_title_hovered(&key, false), None);
    assert!(!sidebar.render_row(1, &table).unwrap().hovered);
}
