//! The title row: what is running, and the controls that are always in reach.

use vstd::prelude::*;

use crate::chrome::icons::{settings, theme_toggle, IconName};
use crate::chrome::metrics::{figures_of, SessionMeter};
use crate::chrome::status_pill::{is_pill, Pill, StatusPill};
use crate::domain::{Language, SessionMetrics, SessionStatus};
use crate::strings::{is_table, reads, translate};
use crate::views::views;

verus! {

/// Whether the window is light or dark.
#[derive(Clone, Copy, Debug, PartialEq, Eq, Structural)]
pub enum ThemeMode {
    Light,
    Dark,
}

impl ThemeMode {
    /// Whether this is the dark one.
    pub fn is_dark(self) -> (r: bool)
        ensures
            r == (self == ThemeMode::Dark),
    {
        matches!(self, ThemeMode::Dark)
    }
}

/// The window's title row.
pub struct TopBar {
    pub status: SessionStatus,
    pub mode: ThemeMode,
    pub language: Language,
    /// What the visible session has cost, once it has reported anything.
    pub meter: Option<SessionMeter>,
}

/// The title row as it is drawn.
pub struct TitleRow {
    /// What the session is doing.
    pub pill: Pill,
    /// What the session has cost, figure by figure.
    pub figures: Option<Vec<String>>,
    pub theme_icon: IconName,
    pub theme_tooltip: &'static str,
    pub settings_icon: IconName,
    pub settings_tooltip: &'static str,
}

/// What the tooltip of the theme toggle is looked up under: where it goes rather
/// than where it is.
pub open spec fn tooltip_of(mode: ThemeMode) -> Seq<char> {
    match mode {
        ThemeMode::Light => "switch-to-dark"@,
        ThemeMode::Dark => "switch-to-light"@,
    }
}

impl TopBar {
    /// A title row without figures.
    pub fn new(status: SessionStatus, mode: ThemeMode, language: Language) -> (r: TopBar)
        ensures
            r == (TopBar { status, mode, language, meter: None }),
    {
        TopBar { status, mode, language, meter: None }
    }

    /// The row with what the session has cost, where it has reported anything.
    pub fn metrics(self, metrics: Option<&SessionMetrics>) -> (r: TopBar)
        ensures
            r == (TopBar {
                meter: match metrics {
                    Some(metrics) => Some(SessionMeter { metrics: *metrics }),
                    None => None,
                },
                ..self
            }),
    {
        TopBar { meter: SessionMeter::from_metrics(metrics), ..self }
    }

    /// The tooltip of the theme toggle.
    pub fn theme_toggle_tooltip<F: Fn(&'static str, Language) -> &'static str>(
        &self,
        table: &F,
    ) -> (r: &'static str)
        requires
            is_table(*table),
        ensures
            reads(*table, tooltip_of(self.mode), self.language, r@),
    {
        let key = match self.mode {
            ThemeMode::Light => "switch-to-dark",
            ThemeMode::Dark => "switch-to-light",
        };
        translate(table, key, self.language)
    }

    /// The row as it is drawn.
    pub fn render<F: Fn(&'static str, Language) -> &'static str>(self, table: &F) -> (r: TitleRow)
        requires
            is_table(*table),
        ensures
            is_pill(r.pill, self.status@, self.language, *table),
            match r.figures {
                Some(figures) => self.meter is Some && views(figures@) == figures_of(
                    self.meter->0.metrics,
                ),
                None => self.meter is None,
            },
            r.theme_icon == if self.mode == ThemeMode::Dark {
                IconName::Sun
            } else {
                IconName::Moon
            },
            reads(*table, tooltip_of(self.mode), self.language, r.theme_tooltip@),
            r.settings_icon == IconName::Settings,
            reads(*table, "settings"@, self.language, r.settings_tooltip@),
    {
        let theme_icon = theme_toggle(self.mode.is_dark());
        let theme_tooltip = self.theme_toggle_tooltip(table);
        let figures = match self.meter {
            Some(meter) => Some(meter.segments()),
            None => None,
        };
        TitleRow {
            pill: StatusPill::new(self.status, self.language).render(table),
            figures,
            theme_icon,
            theme_tooltip,
            settings_icon: settings(),
            settings_tooltip: translate(table, "settings", self.language),
        }
    }
}

} // verus!
