//! What a session is doing, as a dot and a label.

use vstd::prelude::*;

use crate::chrome::icons::{status, status_icon, IconName};
use crate::domain::{Language, SessionStatus, StatusView};
use crate::strings::{is_table, reads, translate};

verus! {

/// What a colour means.
#[derive(Clone, Copy, Debug, PartialEq, Eq, Structural)]
pub enum Hue {
    /// Something failed.
    Error,
    /// Work is in progress.
    Accent,
    /// Something is worth watching.
    Warning,
    /// All is well.
    Success,
    /// Nothing to notice.
    Muted,
}

/// The colour of a status: whether anything needs attention shows at a glance.
pub open spec fn hue_of(status: StatusView) -> Hue {
    match status {
        StatusView::Failed(_) => Hue::Error,
        StatusView::Streaming | StatusView::Compacting => Hue::Accent,
        StatusView::Starting => Hue::Warning,
        StatusView::Ready => Hue::Success,
        StatusView::Offline => Hue::Muted,
    }
}

/// What the label of a status is looked up under.
pub open spec fn label_key(status: StatusView) -> Seq<char> {
    match status {
        StatusView::Offline => "status-offline"@,
        StatusView::Starting => "status-starting"@,
        StatusView::Ready => "status-ready"@,
        StatusView::Streaming => "status-streaming"@,
        StatusView::Compacting => "status-compacting"@,
        StatusView::Failed(_) => "status-failed"@,
    }
}

/// A coloured dot and a label that names what the session is doing.
pub struct StatusPill {
    pub status: SessionStatus,
    pub language: Language,
}

/// A pill as it is drawn.
#[derive(Clone, Debug, PartialEq, Eq)]
pub struct Pill {
    /// The colour of the dot and of the glyph.
    pub dot: Hue,
    /// The glyph beside the dot, where the status is worth noticing.
    pub icon: Option<IconName>,
    pub label: &'static str,
}

/// Whether `pill` is what is drawn for a status.
pub open spec fn is_pill<F: Fn(&'static str, Language) -> &'static str>(
    pill: Pill,
    status: StatusView,
    language: Language,
    table: F,
) -> bool {
    &&& pill.dot == hue_of(status)
    &&& pill.icon == status_icon(status)
    &&& reads(table, label_key(status), language, pill.label@)
}

impl StatusPill {
    /// The pill of a status.
    pub fn new(status: SessionStatus, language: Language) -> (r: StatusPill)
        ensures
            r == (StatusPill { status, language }),
    {
        StatusPill { status, language }
    }

    /// The pill as it is drawn.
    pub fn render<F: Fn(&'static str, Language) -> &'static str>(&self, table: &F) -> (r: Pill)
        requires
            is_table(*table),
        ensures
            is_pill(r, self.status@, self.language, *table),
    {
        Pill {
            dot: self.dot(),
            icon: status(&self.status),
            label: status_label(&self.status, self.language, table),
        }
    }

    /// The colour of the dot.
    pub fn dot(&self) -> (r: Hue)
        ensures
            r == hue_of(self.status@),
    {
        match &self.status {
            SessionStatus::Failed(_) => Hue::Error,
            SessionStatus::Streaming => Hue::Accent,
            SessionStatus::Compacting => Hue::Accent,
            SessionStatus::Starting => Hue::Warning,
            SessionStatus::Ready => Hue::Success,
            SessionStatus::Offline => Hue::Muted,
        }
    }
}

/// The label of a status.
pub fn status_label<F: Fn(&'static str, Language) -> &'static str>(
    status: &SessionStatus,
    language: Language,
    table: &F,
) -> (r: &'static str)
    requires
        is_table(*table),
    ensures
        reads(*table, label_key(status@), language, r@),
{
    let key = match status {
        SessionStatus::Offline => "status-offline",
        SessionStatus::Starting => "status-starting",
        SessionStatus::Ready => "status-ready",
        SessionStatus::Streaming => "status-streaming",
        SessionStatus::Compacting => "status-compacting",
        SessionStatus::Failed(_) => "status-failed",
    };
    translate(table, key, language)
}

/// A session that failed never looks like one at work, and one at work never like
/// an idle one.
pub proof fn lemma_failure_stands_out(a: StatusView, b: StatusView)
    requires
        hue_of(a) == hue_of(b),
    ensures
        a is Failed <==> b is Failed,
        a is Streaming || a is Compacting <==> b is Streaming || b is Compacting,
{
}

} // verus!
