//! Renaming a session.

use vstd::prelude::*;

use crate::domain::Language;
use crate::strings::{is_table, reads, translate};
use crate::text::{blank, is_blank, trim, trimmed};
use crate::views::opt_view;

verus! {

/// What the rename dialog asks for.
#[derive(Clone, Debug, PartialEq, Eq)]
pub enum RenameEvent {
    /// Store this title for the session at `path`.
    Renamed { path: String, title: String },
}

/// The title to store for what was typed, where it is worth storing: without white
/// space around it, and not blank.
pub open spec fn title_of(typed: Seq<char>) -> Option<Seq<char>> {
    if is_blank(typed) {
        None
    } else {
        Some(trim(typed))
    }
}

/// The title to store for what was typed, where it is worth storing.
pub fn usable_title(typed: &str) -> (r: Option<String>)
    ensures
        opt_view(r) == title_of(typed@),
{
    if blank(typed) {
        None
    } else {
        Some(trimmed(typed))
    }
}

/// The dialog as it is drawn.
#[derive(Clone, Debug, PartialEq, Eq)]
pub struct RenameDialog {
    pub title: &'static str,
    /// What stands beside the field.
    pub field_label: &'static str,
    /// What the field says while it is empty.
    pub placeholder: &'static str,
    pub save_label: &'static str,
    /// What stands in the field.
    pub typed: String,
}

/// A session that waits to be renamed, and what is typed for it.
pub struct Rename {
    path: Option<String>,
    typed: String,
    language: Language,
}

/// What the rename dialog holds.
#[verifier::ext_equal]
pub struct RenameView {
    /// The session to rename, where the dialog is open.
    pub path: Option<Seq<char>>,
    /// What stands in the field.
    pub typed: Seq<char>,
    pub language: Language,
}

impl View for Rename {
    type V = RenameView;

    closed spec fn view(&self) -> RenameView {
        RenameView { path: opt_view(self.path), typed: self.typed@, language: self.language }
    }
}

/// The dialog opened on a session, from the title that it has.
pub open spec fn opened(view: RenameView, path: Seq<char>, title: Seq<char>) -> RenameView {
    RenameView { path: Some(path), typed: title, ..view }
}

/// What committing comes to: the session and its title, where the dialog is open
/// and the title is worth storing.
pub open spec fn committed(view: RenameView) -> Option<(Seq<char>, Seq<char>)> {
    match (view.path, title_of(view.typed)) {
        (Some(path), Some(title)) => Some((path, title)),
        _ => None,
    }
}

impl Rename {
    /// A closed dialog.
    pub fn new() -> (r: Rename)
        ensures
            r@.path is None,
            r@.typed.len() == 0,
            r@.language == Language::English,
    {
        Rename { path: None, typed: String::new(), language: Language::default() }
    }

    /// Takes a language. Says whether it is another one.
    pub fn set_language(&mut self, language: Language) -> (r: bool)
        ensures
            final(self)@ == (RenameView { language, ..old(self)@ }),
            r == (old(self)@.language != language),
    {
        let changed = self.language != language;
        self.language = language;
        changed
    }

    /// Whether the dialog is open.
    pub fn is_open(&self) -> (r: bool)
        ensures
            r == self@.path is Some,
    {
        self.path.is_some()
    }

    /// Opens the dialog on a session, from the title that it has.
    pub fn open(&mut self, path: &str, title: &str)
        ensures
            final(self)@ == opened(old(self)@, path@, title@),
    {
        self.path = Some(path.to_owned());
        self.typed = title.to_owned();
    }

    /// Takes what stands in the field.
    pub fn set_typed(&mut self, typed: &str)
        ensures
            final(self)@ == (RenameView { typed: typed@, ..old(self)@ }),
    {
        self.typed = typed.to_owned();
    }

    /// Closes without renaming.
    pub fn close(&mut self)
        ensures
            final(self)@ == (RenameView { path: None, ..old(self)@ }),
    {
        self.path = None;
    }

    /// The dialog as it is drawn, where it is open.
    pub fn render<F: Fn(&'static str, Language) -> &'static str>(&self, table: &F) -> (r: Option<
        RenameDialog,
    >)
        requires
            is_table(*table),
        ensures
            match r {
                Some(dialog) => {
                    &&& self@.path is Some
                    &&& reads(*table, "rename-session"@, self@.language, dialog.title@)
                    &&& reads(*table, "title-field"@, self@.language, dialog.field_label@)
                    &&& reads(*table, "session-title"@, self@.language, dialog.placeholder@)
                    &&& reads(*table, "save"@, self@.language, dialog.save_label@)
                    &&& dialog.typed@ == self@.typed
                },
                None => self@.path is None,
            },
    {
        if self.path.is_none() {
            return None;
        }
        Some(
            RenameDialog {
                title: translate(table, "rename-session", self.language),
                field_label: translate(table, "title-field", self.language),
                placeholder: translate(table, "session-title", self.language),
                save_label: translate(table, "save", self.language),
                typed: self.typed.clone(),
            },
        )
    }

    /// Commits what is typed, where the dialog is open and the title is worth
    /// storing; the dialog then closes. Otherwise nothing happens.
    pub fn commit(&mut self) -> (r: Option<RenameEvent>)
        ensures
            match (committed(old(self)@), r) {
                (Some((path, title)), Some(RenameEvent::Renamed { path: p, title: t })) => {
                    &&& p@ == path
                    &&& t@ == title
                    &&& final(self)@ == (RenameView { path: None, ..old(self)@ })
                },
                (None, None) => final(self)@ == old(self)@,
                _ => false,
            },
    {
        let title = match usable_title(self.typed.as_str()) {
            Some(title) => title,
            None => {
                return None;
            },
        };
        match self.path.take() {
            Some(path) => Some(RenameEvent::Renamed { path, title }),
            None => None,
        }
    }
}

/// A rename that is committed as it was opened keeps the title, but for white space
/// around it; a blank title is never stored.
pub proof fn lemma_rename_starts_from_the_title(
    view: RenameView,
    path: Seq<char>,
    title: Seq<char>,
)
    ensures
        committed(opened(view, path, title)) == if is_blank(title) {
            None
        } else {
            Some((path, trim(title)))
        },
{
}

} // verus!
