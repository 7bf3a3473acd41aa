//! A picker for short lists, such as permissions and thinking levels.

use vstd::prelude::*;

use crate::chat::keys::{clamp, clamped, step, stepped_to, Keystroke};
use crate::chat::palette::{action_for, key_action as palette_action, KeyAction as PaletteAction};
use crate::domain::{AgentPermissionLevel, ThinkingLevel};
use crate::text::{cat2, same};
use crate::views::{copy_opt, opt_view, same_list, same_opt, views, Duplicate, Same};

verus! {

/// What a keystroke means to an open picker.
#[derive(Clone, Copy, Debug, PartialEq, Eq, Structural)]
pub enum KeyAction {
    Move(isize),
    Confirm,
    Dismiss,
    Ignore,
}

/// What a keystroke means to an open picker: the keys are those of the palette.
pub open spec fn meaning_of(keystroke: Keystroke) -> KeyAction {
    match action_for(keystroke) {
        PaletteAction::Move(delta) => KeyAction::Move(delta),
        PaletteAction::Run => KeyAction::Confirm,
        PaletteAction::Dismiss => KeyAction::Dismiss,
        PaletteAction::Ignore => KeyAction::Ignore,
    }
}

/// What a keystroke means to an open picker.
pub fn key_action(keystroke: &Keystroke) -> (r: KeyAction)
    ensures
        r == meaning_of(*keystroke),
{
    match palette_action(keystroke) {
        PaletteAction::Move(delta) => KeyAction::Move(delta),
        PaletteAction::Run => KeyAction::Confirm,
        PaletteAction::Dismiss => KeyAction::Dismiss,
        PaletteAction::Ignore => KeyAction::Ignore,
    }
}

impl View for ThinkingLevel {
    type V = ThinkingLevel;

    open spec fn view(&self) -> ThinkingLevel {
        *self
    }
}

impl Duplicate for ThinkingLevel {
    fn duplicate(&self) -> (r: Self) {
        *self
    }
}

impl Same for ThinkingLevel {
    fn same_as(&self, other: &Self) -> (r: bool) {
        *self == *other
    }
}

impl View for AgentPermissionLevel {
    type V = AgentPermissionLevel;

    open spec fn view(&self) -> AgentPermissionLevel {
        *self
    }
}

impl Duplicate for AgentPermissionLevel {
    fn duplicate(&self) -> (r: Self) {
        *self
    }
}

impl Same for AgentPermissionLevel {
    fn same_as(&self, other: &Self) -> (r: bool) {
        *self == *other
    }
}

/// A row of a picker.
#[derive(Clone, Debug, PartialEq)]
pub struct Choice<T> {
    pub label: String,
    pub value: T,
}

/// What a row holds.
#[verifier::ext_equal]
#[verifier::reject_recursive_types(V)]
pub struct ChoiceView<V> {
    pub label: Seq<char>,
    pub value: V,
}

impl<T: View> View for Choice<T> {
    type V = ChoiceView<T::V>;

    open spec fn view(&self) -> ChoiceView<T::V> {
        ChoiceView { label: self.label@, value: self.value@ }
    }
}

impl<T: Same> Same for Choice<T> {
    fn same_as(&self, other: &Self) -> (r: bool) {
        same(self.label.as_str(), other.label.as_str()) && self.value.same_as(&other.value)
    }
}

impl<T: View> Choice<T> {
    /// A row.
    pub fn new(label: &str, value: T) -> (r: Choice<T>)
        ensures
            r@ == (ChoiceView { label: label@, value: value@ }),
    {
        Choice { label: label.to_owned(), value }
    }
}

/// What a picker holds.
#[verifier::ext_equal]
#[verifier::reject_recursive_types(V)]
pub struct PickerView<V> {
    pub items: Seq<ChoiceView<V>>,
    pub selected: Option<V>,
    /// The selection that was last reported.
    pub reported: Option<V>,
    pub active: usize,
    pub open: bool,
    pub synced: bool,
    pub prefix: Seq<char>,
    pub placeholder: Seq<char>,
}

/// Where the first row with a value stands.
pub open spec fn row_of<V>(items: Seq<ChoiceView<V>>, value: V) -> Option<nat>
    decreases items.len(),
{
    if items.len() == 0 {
        None
    } else if items[0].value == value {
        Some(0)
    } else {
        match row_of(items.drop_first(), value) {
            Some(n) => Some(n + 1),
            None => None,
        }
    }
}

/// The row that the selection is on, or the first.
pub open spec fn selected_row<V>(items: Seq<ChoiceView<V>>, selected: Option<V>) -> int {
    match selected {
        Some(value) => match row_of(items, value) {
            Some(n) => n as int,
            None => 0,
        },
        None => 0,
    }
}

/// The picker with what the state reports. A selection that was made here stands
/// until another one is reported.
pub open spec fn picker_synced<V>(
    view: PickerView<V>,
    items: Seq<ChoiceView<V>>,
    selected: Option<V>,
    prefix: Seq<char>,
    placeholder: Seq<char>,
) -> PickerView<V> {
    let held = if view.items == items {
        view.active as int
    } else {
        clamped(view.active as int, items.len() as int)
    };
    let taken = !view.synced || view.reported != selected;
    PickerView {
        items,
        selected: if taken {
            selected
        } else {
            view.selected
        },
        reported: selected,
        active: if taken && !view.open {
            selected_row(items, selected) as usize
        } else {
            held as usize
        },
        open: view.open,
        synced: true,
        prefix,
        placeholder,
    }
}

/// The picker once the row in a place was confirmed, and the value of that row.
pub open spec fn picker_confirmed<V>(view: PickerView<V>, index: int) -> (PickerView<V>, Option<V>) {
    if 0 <= index < view.items.len() {
        (
            PickerView { selected: Some(view.items[index].value), ..view },
            Some(view.items[index].value),
        )
    } else {
        (view, None)
    }
}

/// The label on a closed picker: that of the selected value, or what stands there
/// where none is.
pub open spec fn label_of<V>(view: PickerView<V>) -> Seq<char> {
    view.prefix + match view.selected {
        Some(value) => match row_of(view.items, value) {
            Some(n) => view.items[n as int].label,
            None => view.placeholder,
        },
        None => view.placeholder,
    }
}

/// What handling a key came to.
#[derive(Clone, Debug, PartialEq)]
pub struct Handled<T> {
    /// Whether the picker took the key.
    pub consumed: bool,
    /// Whether the popup closes.
    pub close: bool,
    /// What was confirmed.
    pub confirmed: Option<T>,
}

/// A picker without a search field.
pub struct ChoicePicker<T> {
    items: Vec<Choice<T>>,
    selected: Option<T>,
    reported: Option<T>,
    active: usize,
    open: bool,
    synced: bool,
    prefix: String,
    placeholder: String,
}

impl<T: View> View for ChoicePicker<T> {
    type V = PickerView<T::V>;

    closed spec fn view(&self) -> PickerView<T::V> {
        PickerView {
            items: views(self.items@),
            selected: opt_view(self.selected),
            reported: opt_view(self.reported),
            active: self.active,
            open: self.open,
            synced: self.synced,
            prefix: self.prefix@,
            placeholder: self.placeholder@,
        }
    }
}

proof fn lemma_row_of<V>(items: Seq<ChoiceView<V>>, value: V, i: int)
    requires
        0 <= i <= items.len(),
        forall|k: int| 0 <= k < i ==> (#[trigger] items[k]).value != value,
    ensures
        i < items.len() && items[i].value == value ==> row_of(items, value) == Some(i as nat),
        i == items.len() ==> row_of(items, value) is None,
    decreases items.len(),
{
    if items.len() > 0 && i > 0 {
        let rest = items.drop_first();
        assert(items[0].value != value);
        assert forall|k: int| 0 <= k < i - 1 implies (#[trigger] rest[k]).value != value by {
            assert(rest[k] == items[k + 1]);
        }
        lemma_row_of(rest, value, i - 1);
    }
}

impl<T: Same + Duplicate> ChoicePicker<T> {
    /// An empty picker.
    pub fn new() -> (r: ChoicePicker<T>)
        ensures
            r@.items.len() == 0,
            r@.selected is None,
            r@.reported is None,
            r@.active == 0,
            !r@.open,
            !r@.synced,
            r@.prefix.len() == 0,
            r@.placeholder.len() == 0,
    {
        ChoicePicker {
            items: Vec::new(),
            selected: None,
            reported: None,
            active: 0,
            open: false,
            synced: false,
            prefix: String::new(),
            placeholder: String::new(),
        }
    }

    fn find_row(&self, value: &T) -> (r: Option<usize>)
        ensures
            match r {
                Some(i) => i < self@.items.len() && row_of(self@.items, value@) == Some(i as nat),
                None => row_of(self@.items, value@) is None,
            },
    {
        let ghost all = self@.items;
        let mut i: usize = 0;
        while i < self.items.len()
            invariant
                i <= self.items@.len(),
                all == views(self.items@),
                all == self@.items,
                forall|k: int| 0 <= k < i ==> (#[trigger] all[k]).value != value@,
            decreases self.items@.len() - i,
        {
            proof {
                assert(all[i as int] == self.items@[i as int]@);
            }
            if self.items[i].value.same_as(value) {
                proof {
                    lemma_row_of(all, value@, i as int);
                }
                return Some(i);
            }
            i = i + 1;
        }
        proof {
            lemma_row_of(all, value@, i as int);
        }
        None
    }

    fn activate_selected(&mut self)
        ensures
            final(self)@ == (PickerView {
                active: selected_row(old(self)@.items, old(self)@.selected) as usize,
                ..old(self)@
            }),
    {
        let row: usize = match &self.selected {
            Some(value) => match self.find_row(value) {
                Some(row) => row,
                None => 0,
            },
            None => 0,
        };
        self.active = row;
    }

    /// Takes what the state reports. Says whether anything changed.
    pub fn sync(
        &mut self,
        items: Vec<Choice<T>>,
        selected: Option<T>,
        prefix: &str,
        placeholder: &str,
    ) -> (r: bool)
        ensures
            final(self)@ == picker_synced(
                old(self)@,
                views(items@),
                opt_view(selected),
                prefix@,
                placeholder@,
            ),
            r == (old(self)@.items != views(items@) || !old(self)@.synced || old(self)@.reported
                != opt_view(selected) || old(self)@.prefix != prefix@ || old(self)@.placeholder
                != placeholder@),
    {
        let mut changed = false;
        if !same_list(&self.items, &items) {
            self.items = items;
            self.active = clamp(self.active, self.items.len());
            changed = true;
        }
        if !self.synced || !same_opt(&self.reported, &selected) {
            self.reported = copy_opt(&selected);
            self.selected = selected;
            if !self.open {
                self.activate_selected();
            }
            changed = true;
        }
        if !same(self.prefix.as_str(), prefix) {
            self.prefix = prefix.to_owned();
            changed = true;
        }
        if !same(self.placeholder.as_str(), placeholder) {
            self.placeholder = placeholder.to_owned();
            changed = true;
        }
        self.synced = true;
        changed
    }

    /// Opens or closes the popup. It opens on the selected row.
    pub fn popover_changed(&mut self, open: bool)
        ensures
            final(self)@ == (PickerView {
                open,
                active: if open {
                    selected_row(old(self)@.items, old(self)@.selected) as usize
                } else {
                    old(self)@.active
                },
                ..old(self)@
            }),
    {
        self.open = open;
        if open {
            self.activate_selected();
        }
    }

    /// Confirms the row in a place, where there is one, and returns its value.
    pub fn confirm(&mut self, index: usize) -> (r: Option<T>)
        ensures
            (final(self)@, opt_view(r)) == picker_confirmed(old(self)@, index as int),
    {
        if index >= self.items.len() {
            return None;
        }
        let value = self.items[index].value.duplicate();
        self.selected = Some(self.items[index].value.duplicate());
        Some(value)
    }

    /// Handles a key of the open popup.
    pub fn handle_key(&mut self, keystroke: &Keystroke) -> (r: Handled<T>)
        ensures
            match meaning_of(*keystroke) {
                KeyAction::Ignore => final(self)@ == old(self)@ && !r.consumed && !r.close
                    && r.confirmed is None,
                KeyAction::Dismiss => final(self)@ == old(self)@ && r.consumed && r.close
                    && r.confirmed is None,
                KeyAction::Move(delta) => final(self)@ == (PickerView {
                    active: stepped_to(
                        old(self)@.active as int,
                        old(self)@.items.len() as int,
                        delta as int,
                    ) as usize,
                    ..old(self)@
                }) && r.consumed && !r.close && r.confirmed is None,
                KeyAction::Confirm => (final(self)@, opt_view(r.confirmed)) == picker_confirmed(
                    old(self)@,
                    old(self)@.active as int,
                ) && r.consumed && r.close == (old(self)@.items.len() > 0),
            },
    {
        match key_action(keystroke) {
            KeyAction::Ignore => Handled { consumed: false, close: false, confirmed: None },
            KeyAction::Dismiss => Handled { consumed: true, close: true, confirmed: None },
            KeyAction::Move(delta) => {
                self.active = step(self.active, self.items.len(), delta);
                Handled { consumed: true, close: false, confirmed: None }
            },
            KeyAction::Confirm => {
                let active: usize = self.active;
                let confirmed = self.confirm(active);
                Handled { consumed: true, close: self.items.len() > 0, confirmed }
            },
        }
    }

    /// A row as it is drawn: its label, whether it is the selected one, and whether
    /// it is the one that the keys are on.
    pub fn render_row(&self, index: usize) -> (r: Option<(String, bool, bool)>)
        ensures
            match r {
                Some(row) => {
                    &&& index < self@.items.len()
                    &&& row.0@ == self@.items[index as int].label
                    &&& row.1 == (self@.selected == Some(self@.items[index as int].value))
                    &&& row.2 == (index == self@.active)
                },
                None => index >= self@.items.len(),
            },
    {
        if index >= self.items.len() {
            return None;
        }
        let choice = &self.items[index];
        let selected = match &self.selected {
            Some(value) => choice.value.same_as(value),
            None => false,
        };
        Some((choice.label.clone(), selected, index == self.active))
    }

    /// Moves to a row because the pointer is on it. Says whether that is another
    /// one.
    pub fn hover_row(&mut self, index: usize) -> (r: bool)
        ensures
            final(self)@ == (PickerView { active: index, ..old(self)@ }),
            r == (old(self)@.active != index),
    {
        let moved = self.active != index;
        self.active = index;
        moved
    }

    /// The label on the closed picker.
    pub fn label(&self) -> (r: String)
        ensures
            r@ == label_of(self@),
    {
        let value = match &self.selected {
            Some(selected) => match self.find_row(selected) {
                Some(row) => self.items[row].label.as_str(),
                None => self.placeholder.as_str(),
            },
            None => self.placeholder.as_str(),
        };
        cat2(self.prefix.as_str(), value)
    }
}

/// A value that was confirmed here stands while the state reports the same as
/// before.
pub proof fn lemma_local_choice_stands<V>(
    view: PickerView<V>,
    index: int,
    prefix: Seq<char>,
    placeholder: Seq<char>,
)
    requires
        view.synced,
        0 <= index < view.items.len(),
    ensures
        picker_synced(
            picker_confirmed(view, index).0,
            view.items,
            view.reported,
            prefix,
            placeholder,
        ).selected == Some(view.items[index].value),
{
}

} // verus!
