//! Projects and their sessions as the rows of a flat list.

use std::collections::BTreeSet;

use vstd::prelude::*;

use crate::domain::{
    AppState, Project, ProjectId, ProjectSessions, ProjectSessionsView, ProjectView, SessionId,
    SessionSummary, SummaryView,
};
use crate::text::{list_contains, same};
use crate::views::{lemma_views_push, views, Duplicate, Same};

verus! {

broadcast use vstd::std_specs::btree::group_btree_axioms;

/// One line in the sidebar.
#[derive(Clone, Debug, PartialEq, Eq)]
pub enum Row {
    /// A project.
    Project {
        id: ProjectId,
        name: String,
        /// Whether its sessions are listed below.
        expanded: bool,
        /// Whether any of its sessions is mid-turn, listed or not.
        running: bool,
        selected: bool,
    },
    /// A session under its project.
    Session {
        id: SessionId,
        project_id: ProjectId,
        /// The transcript, by which running sessions are known.
        pi_path: String,
        title: String,
        running: bool,
        selected: bool,
    },
}

/// What a row holds.
#[verifier::ext_equal]
pub enum RowView {
    Project { id: ProjectId, name: Seq<char>, expanded: bool, running: bool, selected: bool },
    Session {
        id: SessionId,
        project_id: ProjectId,
        pi_path: Seq<char>,
        title: Seq<char>,
        running: bool,
        selected: bool,
    },
}

impl View for Row {
    type V = RowView;

    open spec fn view(&self) -> RowView {
        match *self {
            Row::Project { id, name, expanded, running, selected } => RowView::Project {
                id,
                name: name@,
                expanded,
                running,
                selected,
            },
            Row::Session { id, project_id, pi_path, title, running, selected } => {
                RowView::Session {
                    id,
                    project_id,
                    pi_path: pi_path@,
                    title: title@,
                    running,
                    selected,
                }
            },
        }
    }
}

impl Duplicate for Row {
    fn duplicate(&self) -> (r: Self) {
        match self {
            Row::Project { id, name, expanded, running, selected } => Row::Project {
                id: *id,
                name: name.clone(),
                expanded: *expanded,
                running: *running,
                selected: *selected,
            },
            Row::Session { id, project_id, pi_path, title, running, selected } => Row::Session {
                id: *id,
                project_id: *project_id,
                pi_path: pi_path.clone(),
                title: title.clone(),
                running: *running,
                selected: *selected,
            },
        }
    }
}

impl Same for Row {
    fn same_as(&self, other: &Self) -> (r: bool) {
        match (self, other) {
            (
                Row::Project { id, name, expanded, running, selected },
                Row::Project { id: i, name: n, expanded: e, running: r, selected: s },
            ) => *id == *i && same(name.as_str(), n.as_str()) && *expanded == *e && *running == *r
                && *selected == *s,
            (
                Row::Session { id, project_id, pi_path, title, running, selected },
                Row::Session { id: i, project_id: p, pi_path: a, title: t, running: r, selected: s },
            ) => *id == *i && *project_id == *p && same(pi_path.as_str(), a.as_str()) && same(
                title.as_str(),
                t.as_str(),
            ) && *running == *r && *selected == *s,
            _ => false,
        }
    }
}

impl RowView {
    /// The project that the row belongs to.
    pub open spec fn project(self) -> ProjectId {
        match self {
            RowView::Project { id, .. } => id,
            RowView::Session { project_id, .. } => project_id,
        }
    }
}

impl Row {
    /// The project that the row belongs to.
    pub fn project_id(&self) -> (r: ProjectId)
        ensures
            r == self@.project(),
    {
        match self {
            Row::Project { id, .. } => *id,
            Row::Session { project_id, .. } => *project_id,
        }
    }

    /// Whether the row is a session.
    pub fn is_session(&self) -> (r: bool)
        ensures
            r == (self@ is Session),
    {
        matches!(self, Row::Session { .. })
    }
}

/// The sessions of a project.
pub open spec fn sessions_of(sessions: Seq<ProjectSessionsView>, id: ProjectId) -> Seq<SummaryView>
    decreases sessions.len(),
{
    if sessions.len() == 0 {
        Seq::empty()
    } else if sessions[0].project_id == id {
        sessions[0].sessions
    } else {
        sessions_of(sessions.drop_first(), id)
    }
}

/// Whether one of the sessions is mid-turn.
pub open spec fn some_running(sessions: Seq<SummaryView>, running: Seq<Seq<char>>) -> bool {
    exists|i: int| 0 <= i < sessions.len() && running.contains((#[trigger] sessions[i]).pi_path)
}

/// The row of a session.
pub open spec fn session_row(state: AppState, project: ProjectId, session: SummaryView) -> RowView {
    RowView::Session {
        id: session.id,
        project_id: project,
        pi_path: session.pi_path,
        title: session.title,
        running: views(state.running_sessions@).contains(session.pi_path),
        selected: state.selected_session == Some(session.id),
    }
}

/// The rows of a project: its own, and those of its sessions where it is expanded.
pub open spec fn project_rows(
    state: AppState,
    expanded: Set<ProjectId>,
    project: ProjectView,
) -> Seq<RowView> {
    let sessions = sessions_of(views(state.sessions@), project.id);
    seq![
        RowView::Project {
            id: project.id,
            name: project.name,
            expanded: expanded.contains(project.id),
            running: some_running(sessions, views(state.running_sessions@)),
            selected: state.selected_project == Some(project.id),
        },
    ] + if expanded.contains(project.id) {
        sessions.map_values(|session: SummaryView| session_row(state, project.id, session))
    } else {
        Seq::empty()
    }
}

/// The rows of the projects, in their order.
pub open spec fn all_rows(
    state: AppState,
    expanded: Set<ProjectId>,
    projects: Seq<ProjectView>,
) -> Seq<RowView>
    decreases projects.len(),
{
    if projects.len() == 0 {
        Seq::empty()
    } else {
        all_rows(state, expanded, projects.drop_last()) + project_rows(
            state,
            expanded,
            projects.last(),
        )
    }
}

/// Where the sessions of a project stand.
fn find_sessions(sessions: &Vec<ProjectSessions>, id: ProjectId) -> (r: Option<usize>)
    ensures
        match r {
            Some(i) => i < sessions@.len() && sessions_of(views(sessions@), id) == views(
                sessions@[i as int].sessions@,
            ),
            None => sessions_of(views(sessions@), id).len() == 0,
        },
{
    let ghost all = views(sessions@);
    let mut i: usize = 0;
    proof {
        assert(all.skip(0) =~= all);
    }
    while i < sessions.len()
        invariant
            i <= sessions@.len(),
            all == views(sessions@),
            sessions_of(all, id) == sessions_of(all.skip(i as int), id),
        decreases sessions@.len() - i,
    {
        proof {
            assert(all.skip(i as int)[0] == sessions@[i as int]@);
            assert(all.skip(i as int).drop_first() =~= all.skip(i + 1));
        }
        if sessions[i].project_id == id {
            return Some(i);
        }
        i = i + 1;
    }
    None
}

fn any_running(sessions: &Vec<SessionSummary>, running: &Vec<String>) -> (r: bool)
    ensures
        r == some_running(views(sessions@), views(running@)),
{
    let ghost all = views(sessions@);
    let mut i: usize = 0;
    while i < sessions.len()
        invariant
            i <= sessions@.len(),
            all == views(sessions@),
            forall|k: int|
                0 <= k < i ==> !views(running@).contains((#[trigger] all[k]).pi_path),
        decreases sessions@.len() - i,
    {
        if list_contains(running, sessions[i].pi_path.as_str()) {
            proof {
                assert(all[i as int] == sessions@[i as int]@);
            }
            return true;
        }
        i = i + 1;
    }
    false
}

fn push_sessions(
    state: &AppState,
    project: ProjectId,
    sessions: &Vec<SessionSummary>,
    rows: &mut Vec<Row>,
)
    ensures
        views(final(rows)@) == views(old(rows)@) + views(sessions@).map_values(
            |session: SummaryView| session_row(*state, project, session),
        ),
{
    let ghost before = views(rows@);
    let ghost want = views(sessions@).map_values(
        |session: SummaryView| session_row(*state, project, session),
    );
    let mut i: usize = 0;
    proof {
        assert(before + want.take(0) =~= before);
    }
    while i < sessions.len()
        invariant
            i <= sessions@.len(),
            want == views(sessions@).map_values(
                |session: SummaryView| session_row(*state, project, session),
            ),
            views(rows@) == before + want.take(i as int),
        decreases sessions@.len() - i,
    {
        let session = &sessions[i];
        let selected = match state.selected_session {
            Some(id) => id == session.id,
            None => false,
        };
        let row = Row::Session {
            id: session.id,
            project_id: project,
            pi_path: session.pi_path.clone(),
            title: session.title.clone(),
            running: list_contains(&state.running_sessions, session.pi_path.as_str()),
            selected,
        };
        proof {
            lemma_views_push(rows@, row);
            assert(before + want.take(i + 1) =~= (before + want.take(i as int)).push(row@));
        }
        rows.push(row);
        i = i + 1;
    }
    proof {
        assert(want.take(i as int) =~= want);
    }
}

/// The rows of the sidebar: the projects in their order, each followed by its
/// sessions where it is expanded. A project that is not expanded still shows that
/// one of its sessions is at work.
pub fn rows(state: &AppState, expanded: &BTreeSet<ProjectId>) -> (r: Vec<Row>)
    ensures
        views(r@) == all_rows(*state, expanded@, views(state.projects@)),
{
    let ghost all = views(state.projects@);
    let mut rows: Vec<Row> = Vec::new();
    let mut i: usize = 0;
    proof {
        assert(all.take(0) =~= Seq::empty());
        assert(views(rows@) =~= Seq::empty());
    }
    while i < state.projects.len()
        invariant
            i <= state.projects@.len(),
            all == views(state.projects@),
            views(rows@) == all_rows(*state, expanded@, all.take(i as int)),
        decreases state.projects@.len() - i,
    {
        let project = &state.projects[i];
        let ghost before = views(rows@);
        let ghost sessions = sessions_of(views(state.sessions@), project.id);
        proof {
            assert(all.take(i + 1).drop_last() =~= all.take(i as int));
            assert(all.take(i + 1).last() == project@);
        }
        let found = find_sessions(&state.sessions, project.id);
        let running = match found {
            Some(at) => any_running(&state.sessions[at].sessions, &state.running_sessions),
            None => false,
        };
        let is_expanded = expanded.contains(&project.id);
        let selected = match state.selected_project {
            Some(id) => id == project.id,
            None => false,
        };
        let row = Row::Project {
            id: project.id,
            name: project.name.clone(),
            expanded: is_expanded,
            running,
            selected,
        };
        proof {
            lemma_views_push(rows@, row);
        }
        rows.push(row);
        if is_expanded {
            if let Some(at) = found {
                push_sessions(state, project.id, &state.sessions[at].sessions, &mut rows);
            }
        }
        proof {
            assert(views(rows@) =~= before + project_rows(*state, expanded@, project@));
        }
        i = i + 1;
    }
    proof {
        assert(all.take(i as int) =~= all);
    }
    rows
}

/// A project that is not expanded contributes one row, and that row still says
/// whether one of its sessions is at work.
pub proof fn lemma_collapsed_project_shows_work(
    state: AppState,
    expanded: Set<ProjectId>,
    project: ProjectView,
)
    requires
        !expanded.contains(project.id),
    ensures
        project_rows(state, expanded, project).len() == 1,
        project_rows(state, expanded, project)[0]->Project_running == some_running(
            sessions_of(views(state.sessions@), project.id),
            views(state.running_sessions@),
        ),
{
}

/// Every row of a project belongs to it, and only the first is no session.
pub proof fn lemma_rows_belong_to_their_project(
    state: AppState,
    expanded: Set<ProjectId>,
    project: ProjectView,
)
    ensures
        forall|i: int|
            0 <= i < project_rows(state, expanded, project).len() ==> (#[trigger] project_rows(
                state,
                expanded,
                project,
            )[i]).project() == project.id && (project_rows(state, expanded, project)[i] is Session
                <==> i > 0),
{
}

} // verus!
