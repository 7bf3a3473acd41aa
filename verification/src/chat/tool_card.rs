//! A tool invocation, with two levels that open and close by themselves.

use vstd::prelude::*;

use crate::chat::conversation::{ConversationEvent, EventView};
use crate::chrome::icons::{disclosure, IconName};
use crate::chrome::status_pill::Hue;
use crate::domain::{ConversationItem, ItemView, Language};
use crate::protocol::{compact_tool_text, compacted};
use crate::strings::{is_table, reads, translate};
use crate::views::{copy_opt, opt_view};

verus! {

/// What stands beside a tool's name: what its arguments say, or else what its
/// result comes to.
pub open spec fn summary_of(message: ItemView, arguments: Option<Seq<char>>) -> Option<Seq<char>> {
    match arguments {
        Some(summary) => Some(summary),
        None => if compacted(message.full_text).len() == 0 {
            None
        } else {
            Some(compacted(message.full_text))
        },
    }
}

/// What stands beside a tool's name. `arguments` is what its arguments say, where
/// they say anything.
pub fn header_summary(message: &ConversationItem, arguments: Option<String>) -> (r: Option<String>)
    ensures
        opt_view(r) == summary_of(message@, opt_view(arguments)),
{
    match arguments {
        Some(summary) => Some(summary),
        None => {
            let summary = compact_tool_text(message.full_text.as_str());
            if summary.as_str().is_empty() {
                None
            } else {
                Some(summary)
            }
        },
    }
}

/// A tool card as it is drawn.
#[derive(Clone, Debug, PartialEq, Eq)]
pub struct ToolCard {
    pub name: String,
    /// The colour of the card.
    pub hue: Hue,
    /// What the name opens and closes, where there is anything to open.
    pub toggle: Option<ConversationEvent>,
    /// The arrow beside the name, which says whether the report is open.
    pub arrow: IconName,
    /// What stands beside the name.
    pub summary: Option<String>,
    /// The report, where it is open.
    pub report: Option<String>,
    /// What opens and closes the raw event data, where it can be.
    pub details_toggle: Option<ConversationEvent>,
    /// The arrow beside it, which says whether the raw event data is open.
    pub details_arrow: IconName,
    /// The raw event data, where it is open.
    pub details: Option<String>,
}

/// What a tool card holds.
#[verifier::ext_equal]
pub struct ToolCardView {
    pub name: Seq<char>,
    pub hue: Hue,
    pub toggle: Option<EventView>,
    pub arrow: IconName,
    pub summary: Option<Seq<char>>,
    pub report: Option<Seq<char>>,
    pub details_toggle: Option<EventView>,
    pub details_arrow: IconName,
    pub details: Option<Seq<char>>,
}

impl View for ToolCard {
    type V = ToolCardView;

    open spec fn view(&self) -> ToolCardView {
        ToolCardView {
            name: self.name@,
            hue: self.hue,
            toggle: opt_view(self.toggle),
            arrow: self.arrow,
            summary: opt_view(self.summary),
            report: opt_view(self.report),
            details_toggle: opt_view(self.details_toggle),
            details_arrow: self.details_arrow,
            details: opt_view(self.details),
        }
    }
}

/// The arrow of a section: it points down where the section is open.
pub open spec fn arrow_of(expanded: bool) -> IconName {
    if expanded {
        IconName::ChevronDown
    } else {
        IconName::ChevronRight
    }
}

/// A tool card whose two levels are open or not. The raw event data stands inside
/// the report's level.
pub open spec fn card_of(
    message: ItemView,
    report_expanded: bool,
    details_expanded: bool,
    arguments: Option<Seq<char>>,
) -> ToolCardView {
    ToolCardView {
        name: match message.tool_name {
            Some(name) => name,
            None => "tool"@,
        },
        hue: if message.is_error {
            Hue::Error
        } else {
            Hue::Accent
        },
        toggle: if message.tool_report is Some || message.tool_details is Some {
            Some(EventView::ToggleToolReport(message.id))
        } else {
            None
        },
        arrow: arrow_of(report_expanded),
        summary: summary_of(message, arguments),
        report: if report_expanded {
            message.tool_report
        } else {
            None
        },
        details_toggle: if report_expanded && message.tool_details is Some {
            Some(EventView::ToggleToolDetails(message.id))
        } else {
            None
        },
        details_arrow: arrow_of(details_expanded),
        details: if report_expanded && details_expanded {
            message.tool_details
        } else {
            None
        },
    }
}

/// A tool card as it is drawn. `arguments` is what the tool's arguments say, where
/// they say anything.
pub fn tool_card(
    message: &ConversationItem,
    report_expanded: bool,
    details_expanded: bool,
    arguments: Option<String>,
) -> (r: ToolCard)
    ensures
        r@ == card_of(message@, report_expanded, details_expanded, opt_view(arguments)),
{
    let has_details = message.tool_details.is_some();
    ToolCard {
        name: match &message.tool_name {
            Some(name) => name.clone(),
            None => "tool".to_owned(),
        },
        hue: if message.is_error {
            Hue::Error
        } else {
            Hue::Accent
        },
        toggle: if message.tool_report.is_some() || has_details {
            Some(ConversationEvent::ToggleToolReport(message.id.clone()))
        } else {
            None
        },
        arrow: disclosure(report_expanded),
        summary: header_summary(message, arguments),
        report: if report_expanded {
            copy_opt(&message.tool_report)
        } else {
            None
        },
        details_toggle: if report_expanded && has_details {
            Some(ConversationEvent::ToggleToolDetails(message.id.clone()))
        } else {
            None
        },
        details_arrow: disclosure(details_expanded),
        details: if report_expanded && details_expanded {
            copy_opt(&message.tool_details)
        } else {
            None
        },
    }
}

impl ToolCard {
    /// What the control says that opens and closes the raw event data, where there
    /// is one.
    pub fn details_label<F: Fn(&'static str, Language) -> &'static str>(
        &self,
        language: Language,
        table: &F,
    ) -> (r: Option<&'static str>)
        requires
            is_table(*table),
        ensures
            match r {
                Some(label) => self@.details_toggle is Some && reads(
                    *table,
                    "raw-tool-details"@,
                    language,
                    label@,
                ),
                None => self@.details_toggle is None,
            },
    {
        match &self.details_toggle {
            Some(_) => Some(translate(table, "raw-tool-details", language)),
            None => None,
        }
    }
}

/// A card whose report is closed shows neither the report nor the raw event data,
/// whatever else is open.
pub proof fn lemma_closed_report_hides_all(
    message: ItemView,
    details_expanded: bool,
    arguments: Option<Seq<char>>,
)
    ensures
        card_of(message, false, details_expanded, arguments).report is None,
        card_of(message, false, details_expanded, arguments).details is None,
        card_of(message, false, details_expanded, arguments).details_toggle is None,
{
}

} // verus!
