//! The list of projects and their sessions: what its rows do, and what a search
//! leaves of them.

use vstd::prelude::*;

use crate::chat::rows::{Row, RowView};
use crate::chrome::icons::{disclosure, project, session, IconName};
use crate::domain::{Language, ProjectId, SessionId};
use crate::ids::{hyphenated, hyphenated_text};
use crate::strings::{is_table, reads, translate};
use crate::text::{
    blank, cat2, is_blank, lowercase, lowered, occurs, opt_as_str, same_opt, text_contains, trim,
    trimmed,
};
use crate::views::{
    copy_list, lemma_filter_none, lemma_filter_step, lemma_views_push, opt_view, same_list, views,
    Duplicate,
};

verus! {

/// What the sidebar asks for.
#[derive(Clone, Debug, PartialEq, Eq)]
pub enum SidebarEvent {
    /// Add a project to the list, which means asking for a folder.
    AddProject,
    /// Collapse or expand a project's sessions.
    ToggleProject(ProjectId),
    /// Show a project, starting or resuming a session of it.
    OpenProject(ProjectId),
    /// Start a fresh session in a project.
    NewSession(ProjectId),
    /// Show a session.
    OpenSession { project_id: ProjectId, pi_path: String },
    /// Show a project's folder.
    RevealProject(ProjectId),
    /// Forget a project; its folder stays.
    RemoveProject(ProjectId),
    /// Give a session a new title, starting from the one it has.
    RenameSession { pi_path: String, title: String },
    /// Copy the visible session's transcript into a new one.
    CloneSession,
    /// Put a session's identifier on the clipboard.
    CopySessionId(SessionId),
    /// Move a session's transcript to the trash.
    DeleteSession(String),
}

/// What a request of the sidebar holds.
#[verifier::ext_equal]
pub enum SidebarEventView {
    AddProject,
    ToggleProject(ProjectId),
    OpenProject(ProjectId),
    NewSession(ProjectId),
    OpenSession { project_id: ProjectId, pi_path: Seq<char> },
    RevealProject(ProjectId),
    RemoveProject(ProjectId),
    RenameSession { pi_path: Seq<char>, title: Seq<char> },
    CloneSession,
    CopySessionId(SessionId),
    DeleteSession(Seq<char>),
}

impl View for SidebarEvent {
    type V = SidebarEventView;

    open spec fn view(&self) -> SidebarEventView {
        match *self {
            SidebarEvent::AddProject => SidebarEventView::AddProject,
            SidebarEvent::ToggleProject(id) => SidebarEventView::ToggleProject(id),
            SidebarEvent::OpenProject(id) => SidebarEventView::OpenProject(id),
            SidebarEvent::NewSession(id) => SidebarEventView::NewSession(id),
            SidebarEvent::OpenSession { project_id, pi_path } => SidebarEventView::OpenSession {
                project_id,
                pi_path: pi_path@,
            },
            SidebarEvent::RevealProject(id) => SidebarEventView::RevealProject(id),
            SidebarEvent::RemoveProject(id) => SidebarEventView::RemoveProject(id),
            SidebarEvent::RenameSession { pi_path, title } => SidebarEventView::RenameSession {
                pi_path: pi_path@,
                title: title@,
            },
            SidebarEvent::CloneSession => SidebarEventView::CloneSession,
            SidebarEvent::CopySessionId(id) => SidebarEventView::CopySessionId(id),
            SidebarEvent::DeleteSession(path) => SidebarEventView::DeleteSession(path@),
        }
    }
}

/// An entry of a row's menu: what it says, and what it asks for.
#[derive(Clone, Debug, PartialEq, Eq)]
pub struct RowAction {
    pub label: &'static str,
    pub event: SidebarEvent,
}

/// What a menu entry holds.
#[verifier::ext_equal]
pub struct RowActionView {
    pub label: Seq<char>,
    pub event: SidebarEventView,
}

impl View for RowAction {
    type V = RowActionView;

    open spec fn view(&self) -> RowActionView {
        RowActionView { label: self.label@, event: self.event@ }
    }
}

/// What a row's menu offers, in order: the key of each entry's words, and what it
/// asks for. Moving a session to the trash comes last.
pub open spec fn menu_of(row: RowView) -> Seq<(Seq<char>, SidebarEventView)> {
    match row {
        RowView::Project { id, .. } => seq![
            ("show-finder"@, SidebarEventView::RevealProject(id)),
            ("remove"@, SidebarEventView::RemoveProject(id)),
        ],
        RowView::Session { id, pi_path, title, .. } => seq![
            ("rename"@, SidebarEventView::RenameSession { pi_path, title }),
            ("clone"@, SidebarEventView::CloneSession),
            ("copy-session-id"@, SidebarEventView::CopySessionId(id)),
            ("delete"@, SidebarEventView::DeleteSession(pi_path)),
        ],
    }
}

/// Whether the entries are what a row's menu offers, in the words of a language.
pub open spec fn are_actions<F: Fn(&'static str, Language) -> &'static str>(
    actions: Seq<RowActionView>,
    row: RowView,
    language: Language,
    table: F,
) -> bool {
    &&& actions.len() == menu_of(row).len()
    &&& forall|i: int|
        0 <= i < actions.len() ==> (#[trigger] actions[i]).event == menu_of(row)[i].1 && reads(
            table,
            menu_of(row)[i].0,
            language,
            actions[i].label,
        )
}

fn row_action<F: Fn(&'static str, Language) -> &'static str>(
    key: &'static str,
    event: SidebarEvent,
    language: Language,
    table: &F,
) -> (r: RowAction)
    requires
        is_table(*table),
    ensures
        r@.event == event@,
        reads(*table, key@, language, r@.label),
{
    RowAction { label: translate(table, key, language), event }
}

/// What a row's menu offers, in order.
pub fn row_actions<F: Fn(&'static str, Language) -> &'static str>(
    row: &Row,
    language: Language,
    table: &F,
) -> (r: Vec<RowAction>)
    requires
        is_table(*table),
    ensures
        are_actions(views(r@), row@, language, *table),
{
    let mut actions: Vec<RowAction> = Vec::new();
    match row {
        Row::Project { id, .. } => {
            actions.push(
                row_action("show-finder", SidebarEvent::RevealProject(*id), language, table),
            );
            actions.push(row_action("remove", SidebarEvent::RemoveProject(*id), language, table));
        },
        Row::Session { id, pi_path, title, .. } => {
            let rename = SidebarEvent::RenameSession {
                pi_path: pi_path.clone(),
                title: title.clone(),
            };
            actions.push(row_action("rename", rename, language, table));
            actions.push(row_action("clone", SidebarEvent::CloneSession, language, table));
            actions.push(
                row_action("copy-session-id", SidebarEvent::CopySessionId(*id), language, table),
            );
            actions.push(
                row_action("delete", SidebarEvent::DeleteSession(pi_path.clone()), language, table),
            );
        },
    }
    actions
}

/// What a click on a row asks for.
pub fn row_click(row: &Row) -> (r: SidebarEvent)
    ensures
        r@ == match row@ {
            RowView::Project { id, .. } => SidebarEventView::OpenProject(id),
            RowView::Session { project_id, pi_path, .. } => SidebarEventView::OpenSession {
                project_id,
                pi_path,
            },
        },
{
    match row {
        Row::Project { id, .. } => SidebarEvent::OpenProject(*id),
        Row::Session { project_id, pi_path, .. } => SidebarEvent::OpenSession {
            project_id: *project_id,
            pi_path: pi_path.clone(),
        },
    }
}

/// What a row is known by from one drawing to the next.
pub open spec fn key_of(row: RowView) -> Seq<char> {
    match row {
        RowView::Project { id, .. } => "project:"@ + hyphenated(id),
        RowView::Session { pi_path, .. } => "session:"@ + pi_path,
    }
}

/// What a row is known by from one drawing to the next.
pub fn row_key(row: &Row) -> (r: String)
    ensures
        r@ == key_of(row@),
{
    match row {
        Row::Project { id, .. } => cat2("project:", hyphenated_text(*id).as_str()),
        Row::Session { pi_path, .. } => cat2("session:", pi_path.as_str()),
    }
}

/// Whether a row's own name or title holds the query.
pub open spec fn row_mentions(row: RowView, query: Seq<char>) -> bool {
    match row {
        RowView::Project { name, .. } => occurs(lowercase(name), query),
        RowView::Session { title, .. } => occurs(lowercase(title), query),
    }
}

fn mentions(row: &Row, query: &str) -> (r: bool)
    ensures
        r == row_mentions(row@, query@),
{
    match row {
        Row::Project { name, .. } => text_contains(lowered(name.as_str()).as_str(), query),
        Row::Session { title, .. } => text_contains(lowered(title.as_str()).as_str(), query),
    }
}

/// Whether `row` is a row of the project that holds the query itself: the
/// project's own row, where `own`, or one of its sessions.
pub open spec fn mentions_for(row: RowView, project: ProjectId, query: Seq<char>, own: bool) -> bool {
    row.project() == project && (row is Project <==> own) && row_mentions(row, query)
}

/// Whether a project's own row holds the query.
pub open spec fn project_found(rows: Seq<RowView>, project: ProjectId, query: Seq<char>) -> bool {
    exists|i: int| 0 <= i < rows.len() && mentions_for(#[trigger] rows[i], project, query, true)
}

/// Whether a session of a project holds the query.
pub open spec fn session_found(rows: Seq<RowView>, project: ProjectId, query: Seq<char>) -> bool {
    exists|i: int| 0 <= i < rows.len() && mentions_for(#[trigger] rows[i], project, query, false)
}

/// Whether a search keeps a row: a project that is found or that a session of is
/// found, a session that is found or whose project is.
pub open spec fn is_kept(rows: Seq<RowView>, row: RowView, query: Seq<char>) -> bool {
    match row {
        RowView::Project { id, .. } => project_found(rows, id, query) || session_found(
            rows,
            id,
            query,
        ),
        RowView::Session { project_id, .. } => project_found(rows, project_id, query)
            || row_mentions(row, query),
    }
}

/// The rows that a search leaves.
pub open spec fn found_rows(rows: Seq<RowView>, typed: Seq<char>) -> Seq<RowView> {
    let query = lowercase(trim(typed));
    if query.len() == 0 {
        rows
    } else {
        rows.filter(|row: RowView| is_kept(rows, row, query))
    }
}

fn any_mentions(rows: &Vec<Row>, project: ProjectId, query: &str, own: bool) -> (r: bool)
    ensures
        r == if own {
            project_found(views(rows@), project, query@)
        } else {
            session_found(views(rows@), project, query@)
        },
{
    let ghost all = views(rows@);
    let mut i: usize = 0;
    while i < rows.len()
        invariant
            i <= rows@.len(),
            all == views(rows@),
            forall|k: int| 0 <= k < i ==> !mentions_for(#[trigger] all[k], project, query@, own),
        decreases rows@.len() - i,
    {
        let row = &rows[i];
        if row.project_id() == project && row.is_session() != own && mentions(row, query) {
            proof {
                assert(mentions_for(all[i as int], project, query@, own));
            }
            return true;
        }
        i = i + 1;
    }
    false
}

/// The rows that a search leaves. A session that is found keeps its project, and
/// a project that is found keeps its sessions.
pub fn filtered_rows(rows: &Vec<Row>, typed: &str) -> (r: Vec<Row>)
    ensures
        views(r@) == found_rows(views(rows@), typed@),
{
    let query = lowered(trimmed(typed).as_str());
    if query.as_str().is_empty() {
        return copy_list(rows);
    }
    let ghost all = views(rows@);
    let ghost f = |row: RowView| is_kept(all, row, query@);
    let mut kept: Vec<Row> = Vec::new();
    let mut i: usize = 0;
    proof {
        lemma_filter_none(all, f);
        assert(views(kept@) =~= Seq::empty());
    }
    while i < rows.len()
        invariant
            i <= rows@.len(),
            all == views(rows@),
            f == (|row: RowView| is_kept(all, row, query@)),
            views(kept@) == all.take(i as int).filter(f),
        decreases rows@.len() - i,
    {
        proof {
            lemma_filter_step(all, f, i as int);
        }
        let row = &rows[i];
        let project = row.project_id();
        let keep = if row.is_session() {
            any_mentions(rows, project, query.as_str(), true) || mentions(row, query.as_str())
        } else {
            any_mentions(rows, project, query.as_str(), true) || any_mentions(
                rows,
                project,
                query.as_str(),
                false,
            )
        };
        if keep {
            let copy = row.duplicate();
            proof {
                lemma_views_push(kept@, copy);
            }
            kept.push(copy);
        }
        i = i + 1;
    }
    proof {
        assert(all.take(i as int) =~= all);
    }
    kept
}

/// A session that a search leaves has its project's row left too.
pub proof fn lemma_session_keeps_its_project(
    rows: Seq<RowView>,
    query: Seq<char>,
    session: int,
    project: int,
)
    requires
        0 <= session < rows.len(),
        0 <= project < rows.len(),
        rows[session] is Session,
        rows[project] is Project,
        rows[project].project() == rows[session].project(),
        is_kept(rows, rows[session], query),
    ensures
        is_kept(rows, rows[project], query),
{
    let id = rows[session].project();
    if !project_found(rows, id, query) {
        assert(mentions_for(rows[session], id, query, false));
        assert(session_found(rows, id, query));
    }
}

/// A project that a search finds by its own name keeps all its rows.
pub proof fn lemma_found_project_keeps_its_sessions(
    rows: Seq<RowView>,
    query: Seq<char>,
    project: int,
    other: int,
)
    requires
        0 <= project < rows.len(),
        0 <= other < rows.len(),
        rows[project] is Project,
        row_mentions(rows[project], query),
        rows[other].project() == rows[project].project(),
    ensures
        is_kept(rows, rows[other], query),
{
    assert(mentions_for(rows[project], rows[project].project(), query, true));
}

/// A row as it is drawn.
#[derive(Clone, Debug, PartialEq, Eq)]
pub struct RowElement {
    /// What the row is known by.
    pub key: String,
    pub label: String,
    /// Whether the row sits inside its project.
    pub indented: bool,
    /// The arrow that says whether a project is expanded.
    pub leading: Option<IconName>,
    pub icon: IconName,
    pub selected: bool,
    /// Whether a dot says that something is at work.
    pub running: bool,
    /// Whether the title scrolls because the pointer is on it.
    pub hovered: bool,
    /// The project that a button starts a session in, and the button's tooltip.
    pub new_session: Option<(ProjectId, &'static str)>,
    /// What a click asks for.
    pub click: SidebarEvent,
    /// What the row's menu offers.
    pub actions: Vec<RowAction>,
}

/// What a drawn row holds.
#[verifier::ext_equal]
pub struct ElementView {
    pub key: Seq<char>,
    pub label: Seq<char>,
    pub indented: bool,
    pub leading: Option<IconName>,
    pub icon: IconName,
    pub selected: bool,
    pub running: bool,
    pub hovered: bool,
    pub new_session: Option<(ProjectId, Seq<char>)>,
    pub click: SidebarEventView,
    pub actions: Seq<RowActionView>,
}

impl View for RowElement {
    type V = ElementView;

    open spec fn view(&self) -> ElementView {
        ElementView {
            key: self.key@,
            label: self.label@,
            indented: self.indented,
            leading: self.leading,
            icon: self.icon,
            selected: self.selected,
            running: self.running,
            hovered: self.hovered,
            new_session: match self.new_session {
                Some(button) => Some((button.0, button.1@)),
                None => None,
            },
            click: self.click@,
            actions: views(self.actions@),
        }
    }
}

/// Whether `element` is a row as it is drawn. A project has an arrow and a folder, a
/// session a transcript; only a project has a button for a new session.
pub open spec fn is_element<F: Fn(&'static str, Language) -> &'static str>(
    element: ElementView,
    row: RowView,
    hovered: Option<Seq<char>>,
    language: Language,
    table: F,
) -> bool {
    &&& element.key == key_of(row)
    &&& element.hovered == (hovered == Some(key_of(row)))
    &&& are_actions(element.actions, row, language, table)
    &&& match row {
        RowView::Project { id, name, expanded, running, selected } => {
            &&& element.label == name
            &&& !element.indented
            &&& element.leading == Some(
                if expanded {
                    IconName::ChevronDown
                } else {
                    IconName::ChevronRight
                },
            )
            &&& element.icon == if expanded {
                IconName::FolderOpen
            } else {
                IconName::Folder
            }
            &&& element.selected == selected
            &&& element.running == running
            &&& match element.new_session {
                Some((project, tooltip)) => project == id && reads(
                    table,
                    "new-session"@,
                    language,
                    tooltip,
                ),
                None => false,
            }
            &&& element.click == SidebarEventView::OpenProject(id)
        },
        RowView::Session { project_id, pi_path, title, running, selected, .. } => {
            &&& element.label == title
            &&& element.indented
            &&& element.leading is None
            &&& element.icon == IconName::File
            &&& element.selected == selected
            &&& element.running == running
            &&& element.new_session is None
            &&& element.click == SidebarEventView::OpenSession { project_id, pi_path }
        },
    }
}

/// What stands above the list: what the column is, how to add to it, and what the
/// search field says while it is empty.
#[derive(Clone, Debug, PartialEq, Eq)]
pub struct SidebarHeader {
    pub title: &'static str,
    pub add_tooltip: &'static str,
    pub search_placeholder: &'static str,
}

/// Whether a project is among the rows.
pub open spec fn some_project(rows: Seq<RowView>) -> bool {
    exists|i: int| 0 <= i < rows.len() && (#[trigger] rows[i]) is Project
}

/// The key of what stands in the place of rows where there are none.
pub open spec fn note_key(search_rows: Seq<RowView>) -> Seq<char> {
    if some_project(search_rows) {
        "no-search-results"@
    } else {
        "empty-projects"@
    }
}

/// The keys of rows.
pub open spec fn keys_of(rows: Seq<RowView>) -> Seq<Seq<char>> {
    rows.map_values(|row: RowView| key_of(row))
}

/// The rows of the sidebar, and which title the pointer is on.
pub struct Sidebar {
    rows: Vec<Row>,
    default_rows: Vec<Row>,
    search_rows: Vec<Row>,
    language: Language,
    hovered_title: Option<String>,
    marquee_epoch: u64,
}

/// What the sidebar holds: the rows it shows, those it shows without a search,
/// and those that it searches, collapsed sessions among them.
#[verifier::ext_equal]
pub struct SidebarView {
    pub rows: Seq<RowView>,
    pub default_rows: Seq<RowView>,
    pub search_rows: Seq<RowView>,
    pub language: Language,
    /// The key of the row whose title the pointer is on.
    pub hovered: Option<Seq<char>>,
    /// How often the pointer came to a title or left one. A title that scrolls
    /// stops when this moves on.
    pub epoch: u64,
}

/// The rows to show for what is typed.
pub open spec fn shown_rows(
    default_rows: Seq<RowView>,
    search_rows: Seq<RowView>,
    typed: Seq<char>,
) -> Seq<RowView> {
    if is_blank(typed) {
        default_rows
    } else {
        found_rows(search_rows, typed)
    }
}

/// Whether a row with the key is there to be shown or to be found.
pub open spec fn knows_key(view: SidebarView, key: Seq<char>) -> bool {
    keys_of(view.default_rows).contains(key) || keys_of(view.search_rows).contains(key)
}

/// The next epoch; it starts over behind the last.
pub open spec fn epoch_after(epoch: u64) -> u64 {
    if epoch == u64::MAX {
        0
    } else {
        (epoch + 1) as u64
    }
}

/// The sidebar once the pointer came to a title or left it.
pub open spec fn hovered_view(view: SidebarView, key: Seq<char>, hovered: bool) -> SidebarView {
    SidebarView {
        epoch: epoch_after(view.epoch),
        hovered: if !knows_key(view, key) {
            view.hovered
        } else if hovered {
            Some(key)
        } else if view.hovered == Some(key) {
            None
        } else {
            view.hovered
        },
        ..view
    }
}

impl View for Sidebar {
    type V = SidebarView;

    closed spec fn view(&self) -> SidebarView {
        SidebarView {
            rows: views(self.rows@),
            default_rows: views(self.default_rows@),
            search_rows: views(self.search_rows@),
            language: self.language,
            hovered: opt_view(self.hovered_title),
            epoch: self.marquee_epoch,
        }
    }
}

fn has_row_key(rows: &Vec<Row>, key: &str) -> (r: bool)
    ensures
        r == keys_of(views(rows@)).contains(key@),
{
    let ghost all = keys_of(views(rows@));
    let mut i: usize = 0;
    while i < rows.len()
        invariant
            i <= rows@.len(),
            all == keys_of(views(rows@)),
            forall|k: int| 0 <= k < i ==> all[k] != key@,
        decreases rows@.len() - i,
    {
        let here = row_key(&rows[i]);
        proof {
            assert(all[i as int] == here@);
        }
        if crate::text::same(here.as_str(), key) {
            return true;
        }
        i = i + 1;
    }
    false
}

impl Sidebar {
    /// A sidebar without rows.
    pub fn new() -> (r: Sidebar)
        ensures
            r@.rows.len() == 0,
            r@.default_rows.len() == 0,
            r@.search_rows.len() == 0,
            r@.language == Language::English,
            r@.hovered is None,
            r@.epoch == 0,
    {
        Sidebar {
            rows: Vec::new(),
            default_rows: Vec::new(),
            search_rows: Vec::new(),
            language: Language::default(),
            hovered_title: None,
            marquee_epoch: 0,
        }
    }

    /// Takes a language. Says whether it is another one.
    pub fn set_language(&mut self, language: Language) -> (r: bool)
        ensures
            final(self)@ == (SidebarView { language, ..old(self)@ }),
            r == (old(self)@.language != language),
    {
        let changed = self.language != language;
        self.language = language;
        changed
    }

    /// Takes new rows; the search goes on with what is typed. Says whether the
    /// rows to show changed.
    pub fn set_rows(&mut self, default_rows: Vec<Row>, search_rows: Vec<Row>, query: &str) -> (r: bool)
        ensures
            final(self)@ == (SidebarView {
                rows: shown_rows(views(default_rows@), views(search_rows@), query@),
                default_rows: views(default_rows@),
                search_rows: views(search_rows@),
                ..old(self)@
            }),
            r == (final(self)@.rows != old(self)@.rows),
    {
        self.default_rows = default_rows;
        self.search_rows = search_rows;
        self.filter_rows(query)
    }

    /// Shows the rows for what is typed. Says whether they changed.
    pub fn filter_rows(&mut self, query: &str) -> (r: bool)
        ensures
            final(self)@ == (SidebarView {
                rows: shown_rows(old(self)@.default_rows, old(self)@.search_rows, query@),
                ..old(self)@
            }),
            r == (final(self)@.rows != old(self)@.rows),
    {
        let rows = if blank(query) {
            copy_list(&self.default_rows)
        } else {
            filtered_rows(&self.search_rows, query)
        };
        if same_list(&self.rows, &rows) {
            return false;
        }
        self.rows = rows;
        true
    }

    /// The rows that are shown.
    pub fn rows(&self) -> (r: &Vec<Row>)
        ensures
            views(r@) == self@.rows,
    {
        &self.rows
    }

    /// Takes that the pointer came to a title or left it. Returns the epoch of the
    /// title that starts to scroll, where one does. Whatever scrolled before stops.
    pub fn set_title_hovered(&mut self, key: &str, hovered: bool) -> (r: Option<u64>)
        ensures
            final(self)@ == hovered_view(old(self)@, key@, hovered),
            r == if hovered && knows_key(old(self)@, key@) {
                Some(final(self)@.epoch)
            } else {
                None
            },
    {
        self.marquee_epoch = if self.marquee_epoch == u64::MAX {
            0
        } else {
            self.marquee_epoch + 1
        };
        if !has_row_key(&self.default_rows, key) && !has_row_key(&self.search_rows, key) {
            return None;
        }
        if !hovered {
            if same_opt(opt_as_str(&self.hovered_title), Some(key)) {
                self.hovered_title = None;
            }
            return None;
        }
        self.hovered_title = Some(key.to_owned());
        Some(self.marquee_epoch)
    }

    /// Whether the title that started to scroll in an epoch still does.
    pub fn is_scrolling(&self, epoch: u64) -> (r: bool)
        ensures
            r == (self@.epoch == epoch),
    {
        self.marquee_epoch == epoch
    }

    /// A row as it is drawn, where there is one in the place.
    pub fn render_row<F: Fn(&'static str, Language) -> &'static str>(
        &self,
        index: usize,
        table: &F,
    ) -> (r: Option<RowElement>)
        requires
            is_table(*table),
        ensures
            match r {
                Some(element) => index < self@.rows.len() && is_element(
                    element@,
                    self@.rows[index as int],
                    self@.hovered,
                    self@.language,
                    *table,
                ),
                None => index >= self@.rows.len(),
            },
    {
        if index >= self.rows.len() {
            return None;
        }
        let row = &self.rows[index];
        let key = row_key(row);
        let hovered = same_opt(opt_as_str(&self.hovered_title), Some(key.as_str()));
        let click = row_click(row);
        let actions = row_actions(row, self.language, table);
        Some(
            match row {
                Row::Project { id, name, expanded, running, selected } => RowElement {
                    key,
                    label: name.clone(),
                    indented: false,
                    leading: Some(disclosure(*expanded)),
                    icon: project(*expanded),
                    selected: *selected,
                    running: *running,
                    hovered,
                    new_session: Some((*id, translate(table, "new-session", self.language))),
                    click,
                    actions,
                },
                Row::Session { title, running, selected, .. } => RowElement {
                    key,
                    label: title.clone(),
                    indented: true,
                    leading: None,
                    icon: session(),
                    selected: *selected,
                    running: *running,
                    hovered,
                    new_session: None,
                    click,
                    actions,
                },
            },
        )
    }

    /// What stands above the list.
    pub fn render_header<F: Fn(&'static str, Language) -> &'static str>(&self, table: &F) -> (r:
        SidebarHeader)
        requires
            is_table(*table),
        ensures
            reads(*table, "projects"@, self@.language, r.title@),
            reads(*table, "add-project"@, self@.language, r.add_tooltip@),
            reads(*table, "search-projects"@, self@.language, r.search_placeholder@),
    {
        SidebarHeader {
            title: translate(table, "projects", self.language),
            add_tooltip: translate(table, "add-project", self.language),
            search_placeholder: translate(table, "search-projects", self.language),
        }
    }

    /// Whether a project is among the rows to search.
    fn has_projects(&self) -> (r: bool)
        ensures
            r == some_project(self@.search_rows),
    {
        let ghost all = self@.search_rows;
        let mut i: usize = 0;
        while i < self.search_rows.len()
            invariant
                i <= self.search_rows@.len(),
                all == views(self.search_rows@),
                forall|k: int| 0 <= k < i ==> !((#[trigger] all[k]) is Project),
            decreases self.search_rows@.len() - i,
        {
            if !self.search_rows[i].is_session() {
                proof {
                    assert(all[i as int] is Project);
                }
                return true;
            }
            i = i + 1;
        }
        false
    }

    /// What stands in the place of rows where there are none: that there are no
    /// projects, or that the search found nothing.
    pub fn empty_note<F: Fn(&'static str, Language) -> &'static str>(&self, table: &F) -> (r: Option<
        &'static str,
    >)
        requires
            is_table(*table),
        ensures
            match r {
                Some(note) => self@.rows.len() == 0 && reads(
                    *table,
                    note_key(self@.search_rows),
                    self@.language,
                    note@,
                ),
                None => self@.rows.len() > 0,
            },
    {
        if self.rows.len() > 0 {
            return None;
        }
        let key = if self.has_projects() {
            "no-search-results"
        } else {
            "empty-projects"
        };
        Some(translate(table, key, self.language))
    }
}

/// A title that scrolls stops as soon as the pointer comes to another or leaves.
pub proof fn lemma_hover_ends_scrolling(view: SidebarView, key: Seq<char>, hovered: bool)
    ensures
        hovered_view(view, key, hovered).epoch != view.epoch,
        !hovered && knows_key(view, key) ==> hovered_view(view, key, hovered).hovered != Some(key),
{
}

} // verus!
