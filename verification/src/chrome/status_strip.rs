//! The bottom strip: which session is visible, and what it has cost so far.

use vstd::prelude::*;

use crate::chrome::figures::{cost_string, cost_text, tokens_string, tokens_text};
use crate::chrome::metrics::{figures, figures_of};
use crate::domain::{
    AppState, Project, ProjectId, ProjectSessions, ProjectSessionsView, ProjectView, SessionId,
    SessionMetrics, SessionSummary, SummaryView,
};
use crate::views::{find_first, lemma_find_step, opt_view, views};

verus! {

/// A cost in dollars, from millionths of a dollar.
pub fn format_cost(cost_microusd: u64) -> (r: String)
    ensures
        r@ == cost_text(cost_microusd),
{
    cost_string(cost_microusd)
}

/// A count of tokens, shortened so that the strip does not grow as a session does.
pub fn format_tokens(tokens: u64) -> (r: String)
    ensures
        r@ == tokens_text(tokens),
{
    tokens_string(tokens)
}

/// A line along the bottom of the window.
#[derive(Clone, Debug, PartialEq)]
pub struct StatusStrip {
    pub project: Option<String>,
    pub session: Option<String>,
    pub metrics: Option<SessionMetrics>,
    pub auto_compaction: bool,
}

/// The name of a project.
pub open spec fn project_name(projects: Seq<ProjectView>, selected: Option<ProjectId>) -> Option<
    Seq<char>,
> {
    match selected {
        Some(id) => match find_first(projects, |project: ProjectView| project.id == id) {
            Some(project) => Some(project.name),
            None => None,
        },
        None => None,
    }
}

/// The session with an identifier, in the first project that has it.
pub open spec fn session_with(sessions: Seq<ProjectSessionsView>, id: SessionId) -> Option<
    SummaryView,
>
    decreases sessions.len(),
{
    if sessions.len() == 0 {
        None
    } else {
        match find_first(sessions[0].sessions, |session: SummaryView| session.id == id) {
            Some(session) => Some(session),
            None => session_with(sessions.drop_first(), id),
        }
    }
}

/// The title of a session.
pub open spec fn session_title(sessions: Seq<ProjectSessionsView>, selected: Option<SessionId>) -> Option<
    Seq<char>,
> {
    match selected {
        Some(id) => match session_with(sessions, id) {
            Some(session) => Some(session.title),
            None => None,
        },
        None => None,
    }
}

fn find_project(projects: &Vec<Project>, id: ProjectId) -> (r: Option<String>)
    ensures
        opt_view(r) == project_name(views(projects@), Some(id)),
{
    let ghost all = views(projects@);
    let ghost f = |project: ProjectView| project.id == id;
    let mut i: usize = 0;
    proof {
        assert(all.skip(0) =~= all);
    }
    while i < projects.len()
        invariant
            i <= projects@.len(),
            all == views(projects@),
            f == (|project: ProjectView| project.id == id),
            find_first(all, f) == find_first(all.skip(i as int), f),
        decreases projects@.len() - i,
    {
        proof {
            lemma_find_step(all, f, i as int);
        }
        if projects[i].id == id {
            return Some(projects[i].name.clone());
        }
        i = i + 1;
    }
    None
}

fn find_session(sessions: &Vec<SessionSummary>, id: SessionId) -> (r: Option<String>)
    ensures
        opt_view(r) == match find_first(
            views(sessions@),
            |session: SummaryView| session.id == id,
        ) {
            Some(session) => Some(session.title),
            None => None,
        },
{
    let ghost all = views(sessions@);
    let ghost f = |session: SummaryView| session.id == id;
    let mut i: usize = 0;
    proof {
        assert(all.skip(0) =~= all);
    }
    while i < sessions.len()
        invariant
            i <= sessions@.len(),
            all == views(sessions@),
            f == (|session: SummaryView| session.id == id),
            find_first(all, f) == find_first(all.skip(i as int), f),
        decreases sessions@.len() - i,
    {
        proof {
            lemma_find_step(all, f, i as int);
        }
        if sessions[i].id == id {
            return Some(sessions[i].title.clone());
        }
        i = i + 1;
    }
    None
}

fn find_title(sessions: &Vec<ProjectSessions>, id: SessionId) -> (r: Option<String>)
    ensures
        opt_view(r) == session_title(views(sessions@), Some(id)),
{
    let ghost all = views(sessions@);
    let mut i: usize = 0;
    proof {
        assert(all.skip(0) =~= all);
    }
    while i < sessions.len()
        invariant
            i <= sessions@.len(),
            all == views(sessions@),
            session_with(all, id) == session_with(all.skip(i as int), id),
        decreases sessions@.len() - i,
    {
        proof {
            assert(all.skip(i as int)[0] == sessions@[i as int]@);
            assert(all.skip(i as int).drop_first() =~= all.skip(i + 1));
        }
        let found = find_session(&sessions[i].sessions, id);
        if found.is_some() {
            return found;
        }
        i = i + 1;
    }
    None
}

impl StatusStrip {
    /// The strip for a state.
    pub fn from_state(state: &AppState) -> (r: StatusStrip)
        ensures
            opt_view(r.project) == project_name(views(state.projects@), state.selected_project),
            opt_view(r.session) == session_title(views(state.sessions@), state.selected_session),
            r.metrics == state.session_metrics,
            r.auto_compaction == state.auto_compaction_enabled,
    {
        StatusStrip {
            project: match state.selected_project {
                Some(id) => find_project(&state.projects, id),
                None => None,
            },
            session: match state.selected_session {
                Some(id) => find_title(&state.sessions, id),
                None => None,
            },
            metrics: state.session_metrics,
            auto_compaction: state.auto_compaction_enabled,
        }
    }

    /// What the strip shows, in order. It always says whether the context is
    /// compacted by itself.
    pub fn segments(&self) -> (r: Vec<String>)
        ensures
            views(r@) == segments_of(
                opt_view(self.project),
                opt_view(self.session),
                self.metrics,
                self.auto_compaction,
            ),
    {
        let mut segments: Vec<String> = Vec::new();
        if let Some(project) = &self.project {
            segments.push(project.clone());
        }
        if let Some(session) = &self.session {
            segments.push(session.clone());
        }
        if let Some(metrics) = &self.metrics {
            let mut more = figures(metrics);
            segments.append(&mut more);
        }
        segments.push(
            if self.auto_compaction {
                "auto-compact on".to_owned()
            } else {
                "auto-compact off".to_owned()
            },
        );
        proof {
            assert(views(segments@) =~= segments_of(
                opt_view(self.project),
                opt_view(self.session),
                self.metrics,
                self.auto_compaction,
            ));
        }
        segments
    }
}

/// A text where there is one.
pub open spec fn if_any(text: Option<Seq<char>>) -> Seq<Seq<char>> {
    match text {
        Some(text) => seq![text],
        None => Seq::empty(),
    }
}

/// What the strip shows, in order.
pub open spec fn segments_of(
    project: Option<Seq<char>>,
    session: Option<Seq<char>>,
    metrics: Option<SessionMetrics>,
    auto_compaction: bool,
) -> Seq<Seq<char>> {
    if_any(project) + if_any(session) + match metrics {
        Some(metrics) => figures_of(metrics),
        None => Seq::empty(),
    } + seq![
        if auto_compaction {
            "auto-compact on"@
        } else {
            "auto-compact off"@
        },
    ]
}

} // verus!
