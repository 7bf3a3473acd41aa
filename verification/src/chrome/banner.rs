//! Banners for conditions that the user needs to see.

use vstd::prelude::*;

use crate::chrome::status_pill::Hue;

verus! {

/// How prominent a banner is.
#[derive(Clone, Copy, Debug, PartialEq, Eq, Structural)]
pub enum Severity {
    /// Something is wrong, and the user likely has to act.
    Error,
    /// Something is happening that will resolve by itself.
    Progress,
}

/// A strip that explains the current condition.
#[derive(Clone, Debug, PartialEq, Eq)]
pub struct Banner {
    pub severity: Severity,
    pub message: String,
    /// A second, quieter line.
    pub detail: Option<String>,
    /// The label of the button that copies the message, where there is one.
    pub copy_label: Option<String>,
    /// The label of the button that closes the banner, where there is one.
    pub dismiss_label: Option<String>,
}

impl Banner {
    /// A banner for something that is wrong.
    pub fn error(message: &str) -> (r: Banner)
        ensures
            r.severity == Severity::Error,
            r.message@ == message@,
            r.detail is None,
            r.copy_label is None,
            r.dismiss_label is None,
    {
        Banner {
            severity: Severity::Error,
            message: message.to_owned(),
            detail: None,
            copy_label: None,
            dismiss_label: None,
        }
    }

    /// A banner for something that is happening.
    pub fn progress(message: &str) -> (r: Banner)
        ensures
            r.severity == Severity::Progress,
            r.message@ == message@,
            r.detail is None,
            r.copy_label is None,
            r.dismiss_label is None,
    {
        Banner {
            severity: Severity::Progress,
            message: message.to_owned(),
            detail: None,
            copy_label: None,
            dismiss_label: None,
        }
    }

    /// The banner with a second line.
    pub fn detail(self, detail: String) -> (r: Banner)
        ensures
            r == (Banner { detail: Some(detail), ..self }),
    {
        Banner {
            severity: self.severity,
            message: self.message,
            detail: Some(detail),
            copy_label: self.copy_label,
            dismiss_label: self.dismiss_label,
        }
    }

    /// The banner with a button that copies the message.
    pub fn on_copy(self, label: String) -> (r: Banner)
        ensures
            r == (Banner { copy_label: Some(label), ..self }),
    {
        Banner {
            severity: self.severity,
            message: self.message,
            detail: self.detail,
            copy_label: Some(label),
            dismiss_label: self.dismiss_label,
        }
    }

    /// The banner with a button that closes it.
    pub fn on_dismiss(self, label: String) -> (r: Banner)
        ensures
            r == (Banner { dismiss_label: Some(label), ..self }),
    {
        Banner {
            severity: self.severity,
            message: self.message,
            detail: self.detail,
            copy_label: self.copy_label,
            dismiss_label: Some(label),
        }
    }

    /// How prominent the banner is.
    pub fn severity(&self) -> (r: Severity)
        ensures
            r == self.severity,
    {
        self.severity
    }

    /// The colour that carries the banner's meaning.
    pub fn accent(&self) -> (r: Hue)
        ensures
            r == match self.severity {
                Severity::Error => Hue::Error,
                Severity::Progress => Hue::Accent,
            },
    {
        match self.severity {
            Severity::Error => Hue::Error,
            Severity::Progress => Hue::Accent,
        }
    }

    /// The space above and below the message. A banner for progress is slimmer, so
    /// that it does not shove the conversation down.
    pub fn vertical_padding(&self) -> (r: u32)
        ensures
            r == match self.severity {
                Severity::Error => 10u32,
                Severity::Progress => 6u32,
            },
    {
        match self.severity {
            Severity::Error => 10,
            Severity::Progress => 6,
        }
    }
}

} // verus!
