//! The slash-command palette: what it shows for what is typed, and what its keys
//! do.

use vstd::prelude::*;

use crate::chat::keys::{clamp, clamped, step, stepped_to, Keystroke};
use crate::domain::{AppState, Language};
use crate::slash_commands::{
    options as command_options, palette, prefill, prefilled, CommandIcon, CommandView, OptionView,
    SlashCommand, SlashCommandOption,
};
use crate::strings::{is_table, reads, translate};
use crate::text::{opt_as_str, same, same_opt};
use crate::views::{copy_opt, opt_view, views, Duplicate};

verus! {

/// What the palette asks for.
#[derive(Clone, Debug, PartialEq)]
pub enum PaletteEvent {
    /// Run the picked command.
    Run(SlashCommand),
    /// Replace what is typed, for a command that takes an argument.
    SetComposerText(String),
}

/// What a request of the palette holds.
#[verifier::ext_equal]
pub enum PaletteEventView {
    Run(CommandView),
    SetComposerText(Seq<char>),
}

impl View for PaletteEvent {
    type V = PaletteEventView;

    open spec fn view(&self) -> PaletteEventView {
        match *self {
            PaletteEvent::Run(command) => PaletteEventView::Run(command@),
            PaletteEvent::SetComposerText(text) => PaletteEventView::SetComposerText(text@),
        }
    }
}

/// A navigation key that arrives as an action of the input.
#[derive(Clone, Copy, Debug, PartialEq, Eq, Structural)]
pub enum PaletteKey {
    Up,
    Down,
    Run,
}

/// What a keystroke means to an open palette.
#[derive(Clone, Copy, Debug, PartialEq, Eq, Structural)]
pub enum KeyAction {
    /// Move the selection, around at either end.
    Move(isize),
    /// Run the selected option.
    Run,
    /// Close the panel and leave the text alone.
    Dismiss,
    /// Not the palette's; it goes to the input.
    Ignore,
}

/// What a keystroke means to an open palette. A key with anything held down beside
/// it is never the palette's.
pub open spec fn action_for(keystroke: Keystroke) -> KeyAction {
    if keystroke.modified() {
        KeyAction::Ignore
    } else if keystroke.key@ == "up"@ {
        KeyAction::Move(-1 as isize)
    } else if keystroke.key@ == "down"@ {
        KeyAction::Move(1)
    } else if keystroke.key@ == "enter"@ || keystroke.key@ == "tab"@ {
        KeyAction::Run
    } else if keystroke.key@ == "escape"@ {
        KeyAction::Dismiss
    } else {
        KeyAction::Ignore
    }
}

/// What a keystroke means to an open palette.
pub fn key_action(keystroke: &Keystroke) -> (r: KeyAction)
    ensures
        r == action_for(*keystroke),
{
    if keystroke.is_modified() {
        return KeyAction::Ignore;
    }
    let key = keystroke.key.as_str();
    if same(key, "up") {
        KeyAction::Move(-1)
    } else if same(key, "down") {
        KeyAction::Move(1)
    } else if same(key, "enter") || same(key, "tab") {
        KeyAction::Run
    } else if same(key, "escape") {
        KeyAction::Dismiss
    } else {
        KeyAction::Ignore
    }
}

/// What a navigation key means.
pub open spec fn action_for_key(key: PaletteKey) -> KeyAction {
    match key {
        PaletteKey::Up => KeyAction::Move(-1 as isize),
        PaletteKey::Down => KeyAction::Move(1),
        PaletteKey::Run => KeyAction::Run,
    }
}

/// What the palette holds.
#[verifier::ext_equal]
pub struct PaletteView {
    pub options: Seq<OptionView>,
    pub selection: usize,
    /// What was typed when the options were found.
    pub query: Option<Seq<char>>,
    /// What was typed when the panel was closed by hand.
    pub dismissed: Option<Seq<char>>,
    pub language: Language,
}

/// The palette for what is typed. What is typed decides alone whether it is open;
/// a panel that was closed by hand stays closed until the text changes.
pub open spec fn synced(view: PaletteView, state: AppState, text: Seq<char>) -> PaletteView {
    match palette(state, text) {
        None => PaletteView {
            options: Seq::empty(),
            query: None,
            dismissed: None,
            language: state.language,
            ..view
        },
        Some(found) => {
            let options = if view.dismissed == Some(text) {
                Seq::empty()
            } else {
                found
            };
            let selection = if view.query == Some(text) {
                view.selection as int
            } else {
                0
            };
            PaletteView {
                options,
                selection: clamped(selection, options.len() as int) as usize,
                query: Some(text),
                dismissed: view.dismissed,
                language: state.language,
            }
        },
    }
}

/// The palette once it has closed because a command was picked.
pub open spec fn closed(view: PaletteView) -> PaletteView {
    PaletteView { options: Seq::empty(), query: None, dismissed: None, ..view }
}

/// What picking a command asks for: a command that takes an argument is put into
/// the field.
pub open spec fn request_of(command: CommandView) -> PaletteEventView {
    match prefilled(command) {
        Some(text) => PaletteEventView::SetComposerText(text),
        None => PaletteEventView::Run(command),
    }
}

/// The palette once the option in a place was picked, and what that asks for.
pub open spec fn ran(view: PaletteView, index: int) -> (PaletteView, Option<PaletteEventView>) {
    if 0 <= index < view.options.len() {
        (closed(view), Some(request_of(view.options[index].command)))
    } else {
        (view, None)
    }
}

/// The palette once a key was handled, and what that asks for.
pub open spec fn acted(view: PaletteView, action: KeyAction) -> (
    PaletteView,
    Option<PaletteEventView>,
) {
    match action {
        KeyAction::Ignore => (view, None),
        KeyAction::Move(delta) => (
            PaletteView {
                selection: stepped_to(
                    view.selection as int,
                    view.options.len() as int,
                    delta as int,
                ) as usize,
                ..view
            },
            None,
        ),
        KeyAction::Run => ran(view, view.selection as int),
        KeyAction::Dismiss => (
            PaletteView { options: Seq::empty(), dismissed: view.query, ..view },
            None,
        ),
    }
}

/// A row as it is drawn.
#[derive(Clone, Debug, PartialEq, Eq)]
pub struct PaletteRow {
    pub title: String,
    pub trigger: String,
    pub detail: String,
    pub icon: CommandIcon,
    pub selected: bool,
}

/// What stands above the rows: what the panel is, and which keys drive it.
#[derive(Clone, Copy, Debug, PartialEq, Eq)]
pub struct PaletteHeader {
    pub title: &'static str,
    pub help: &'static str,
}

/// The palette, and which of its options is selected.
pub struct Palette {
    options: Vec<SlashCommandOption>,
    selection: usize,
    query: Option<String>,
    dismissed: Option<String>,
    language: Language,
}

impl View for Palette {
    type V = PaletteView;

    closed spec fn view(&self) -> PaletteView {
        PaletteView {
            options: views(self.options@),
            selection: self.selection,
            query: opt_view(self.query),
            dismissed: opt_view(self.dismissed),
            language: self.language,
        }
    }
}

impl Palette {
    /// The selection is on the list where there is one.
    pub open spec fn wf(&self) -> bool {
        self@.options.len() > 0 ==> self@.selection < self@.options.len()
    }

    /// A closed palette.
    pub fn new() -> (r: Palette)
        ensures
            r.wf(),
            r@.options.len() == 0,
            r@.selection == 0,
            r@.query is None,
            r@.dismissed is None,
            r@.language == Language::English,
    {
        Palette {
            options: Vec::new(),
            selection: 0,
            query: None,
            dismissed: None,
            language: Language::default(),
        }
    }

    /// Whether the palette shows anything, and so has the keys.
    pub fn is_open(&self) -> (r: bool)
        ensures
            r == (self@.options.len() > 0),
    {
        self.options.len() > 0
    }

    /// Which option is selected.
    pub fn selection(&self) -> (r: usize)
        ensures
            r == self@.selection,
    {
        self.selection
    }

    /// The options.
    pub fn options(&self) -> (r: &Vec<SlashCommandOption>)
        ensures
            views(r@) == self@.options,
    {
        &self.options
    }

    /// Finds the options for what is typed.
    pub fn sync(&mut self, state: &AppState, composer_text: &str)
        requires
            old(self).wf(),
        ensures
            final(self).wf(),
            final(self)@ == synced(old(self)@, *state, composer_text@),
    {
        self.language = state.language;
        let found = match command_options(state, composer_text) {
            Some(found) => found,
            None => {
                self.options = Vec::new();
                self.query = None;
                self.dismissed = None;
                proof {
                    assert(self@.options =~= Seq::empty());
                }
                return ;
            },
        };
        if !same_opt(opt_as_str(&self.query), Some(composer_text)) {
            self.selection = 0;
            self.query = Some(composer_text.to_owned());
        }
        self.options = if same_opt(opt_as_str(&self.dismissed), Some(composer_text)) {
            Vec::new()
        } else {
            found
        };
        self.selection = clamp(self.selection, self.options.len());
        proof {
            assert(self@.options =~= synced(old(self)@, *state, composer_text@).options);
        }
    }

    /// Handles a key while the palette is open. Says whether the palette took it,
    /// and what it asks for.
    pub fn handle_key(&mut self, keystroke: &Keystroke) -> (r: (bool, Option<PaletteEvent>))
        requires
            old(self).wf(),
        ensures
            final(self).wf(),
            ({
                let action = if old(self)@.options.len() > 0 {
                    action_for(*keystroke)
                } else {
                    KeyAction::Ignore
                };
                &&& r.0 == !(action is Ignore)
                &&& (final(self)@, opt_view(r.1)) == acted(old(self)@, action)
            }),
    {
        if !self.is_open() {
            return (false, None);
        }
        self.act(key_action(keystroke))
    }

    /// Handles a navigation key. Says whether the palette took it, and what it asks
    /// for.
    pub fn handle_palette_key(&mut self, key: PaletteKey) -> (r: (bool, Option<PaletteEvent>))
        requires
            old(self).wf(),
        ensures
            final(self).wf(),
            ({
                let action = if old(self)@.options.len() > 0 {
                    action_for_key(key)
                } else {
                    KeyAction::Ignore
                };
                &&& r.0 == !(action is Ignore)
                &&& (final(self)@, opt_view(r.1)) == acted(old(self)@, action)
            }),
    {
        if !self.is_open() {
            return (false, None);
        }
        let action = match key {
            PaletteKey::Up => KeyAction::Move(-1),
            PaletteKey::Down => KeyAction::Move(1),
            PaletteKey::Run => KeyAction::Run,
        };
        self.act(action)
    }

    fn act(&mut self, action: KeyAction) -> (r: (bool, Option<PaletteEvent>))
        requires
            old(self).wf(),
            old(self)@.options.len() > 0,
        ensures
            final(self).wf(),
            r.0 == !(action is Ignore),
            (final(self)@, opt_view(r.1)) == acted(old(self)@, action),
    {
        match action {
            KeyAction::Ignore => (false, None),
            KeyAction::Move(delta) => {
                self.selection = step(self.selection, self.options.len(), delta);
                proof {
                    let n = self@.options.len() as int;
                    assert(0 <= (old(self)@.selection as int + delta as int) % n < n);
                }
                (true, None)
            },
            KeyAction::Run => {
                let selection: usize = self.selection;
                let event = self.run(selection);
                (true, event)
            },
            KeyAction::Dismiss => {
                self.dismissed = copy_opt(&self.query);
                self.options = Vec::new();
                proof {
                    assert(self@.options =~= Seq::empty());
                }
                (true, None)
            },
        }
    }

    /// What stands above the rows, where there are any.
    pub fn render_header<F: Fn(&'static str, Language) -> &'static str>(&self, table: &F) -> (r:
        Option<PaletteHeader>)
        requires
            is_table(*table),
        ensures
            match r {
                Some(header) => {
                    &&& self@.options.len() > 0
                    &&& reads(*table, "slash-commands"@, self@.language, header.title@)
                    &&& reads(*table, "slash-help"@, self@.language, header.help@)
                },
                None => self@.options.len() == 0,
            },
    {
        if self.options.len() == 0 {
            return None;
        }
        Some(
            PaletteHeader {
                title: translate(table, "slash-commands", self.language),
                help: translate(table, "slash-help", self.language),
            },
        )
    }

    /// A row as it is drawn: its title, its trigger, its detail, its icon, and
    /// whether it is selected.
    pub fn render_row(&self, index: usize) -> (r: Option<PaletteRow>)
        ensures
            match r {
                Some(row) => {
                    let option = self@.options[index as int];
                    &&& index < self@.options.len()
                    &&& row.title@ == option.title
                    &&& row.trigger@ == option.trigger
                    &&& row.detail@ == option.detail
                    &&& row.icon == option.icon
                    &&& row.selected == (index == self@.selection)
                },
                None => index >= self@.options.len(),
            },
    {
        if index >= self.options.len() {
            return None;
        }
        let option = &self.options[index];
        Some(
            PaletteRow {
                title: option.title.clone(),
                trigger: option.trigger.clone(),
                detail: option.detail.clone(),
                icon: option.icon,
                selected: index == self.selection,
            },
        )
    }

    /// Picks the option in a place and closes. Returns what it asks for, where
    /// there is such an option.
    pub fn run(&mut self, index: usize) -> (r: Option<PaletteEvent>)
        requires
            old(self).wf(),
        ensures
            final(self).wf(),
            (final(self)@, opt_view(r)) == ran(old(self)@, index as int),
    {
        if index >= self.options.len() {
            return None;
        }
        let command = self.options[index].command.duplicate();
        self.options = Vec::new();
        self.query = None;
        self.dismissed = None;
        proof {
            assert(self@.options =~= Seq::empty());
        }
        match prefill(&command) {
            Some(text) => Some(PaletteEvent::SetComposerText(text)),
            None => Some(PaletteEvent::Run(command)),
        }
    }
}

/// A panel that was closed by hand stays closed while the text is the same.
pub proof fn lemma_dismissed_stays_closed(view: PaletteView, state: AppState, text: Seq<char>)
    requires
        view.query == Some(text),
    ensures
        synced(acted(view, KeyAction::Dismiss).0, state, text).options.len() == 0,
{
}

/// A panel that was closed by hand opens again for another text.
pub proof fn lemma_other_text_reopens(
    view: PaletteView,
    state: AppState,
    text: Seq<char>,
    other: Seq<char>,
)
    requires
        view.query == Some(text),
        other != text,
        palette(state, other) is Some,
    ensures
        synced(acted(view, KeyAction::Dismiss).0, state, other).options == palette(
            state,
            other,
        )->Some_0,
        synced(acted(view, KeyAction::Dismiss).0, state, other).selection == 0,
{
}

/// What is typed decides what is shown: showing the same text twice changes
/// nothing.
pub proof fn lemma_sync_is_settled(view: PaletteView, state: AppState, text: Seq<char>)
    ensures
        synced(synced(view, state, text), state, text) == synced(view, state, text),
{
}

/// Once a command was picked, the keys are the input's again.
pub proof fn lemma_running_closes(view: PaletteView, index: int)
    requires
        0 <= index < view.options.len(),
    ensures
        ran(view, index).0.options.len() == 0,
        ran(view, index).1 is Some,
{
}

} // verus!
