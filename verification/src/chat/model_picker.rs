//! The model picker: its search, its rows and its keys.

use vstd::prelude::*;

use crate::chat::keys::{clamp, clamped, step, stepped_to, Keystroke};
use crate::domain::{Language, ModelOption, ModelView};
use crate::slash_commands::{model_found, model_mentions};
use crate::strings::{is_table, reads, translate};
use crate::text::{
    ascii_lowercase, ascii_lowered, blank, cat3, chars_of, is_blank, lowercase, lowered, same,
    trim, trimmed,
};
use crate::views::{
    copy_list, copy_opt, count_of, lemma_count_step, opt_view, same_list, same_opt, views,
    Duplicate, Same,
};

verus! {

/// What a model is known by.
#[derive(Clone, Debug, PartialEq, Eq)]
pub struct ModelKey {
    pub provider: String,
    pub id: String,
}

/// What a model's key holds.
#[verifier::ext_equal]
pub struct ModelKeyView {
    pub provider: Seq<char>,
    pub id: Seq<char>,
}

impl View for ModelKey {
    type V = ModelKeyView;

    open spec fn view(&self) -> ModelKeyView {
        ModelKeyView { provider: self.provider@, id: self.id@ }
    }
}

impl Duplicate for ModelKey {
    fn duplicate(&self) -> (r: Self) {
        ModelKey { provider: self.provider.clone(), id: self.id.clone() }
    }
}

impl Same for ModelKey {
    fn same_as(&self, other: &Self) -> (r: bool) {
        same(self.provider.as_str(), other.provider.as_str()) && same(
            self.id.as_str(),
            other.id.as_str(),
        )
    }
}

/// What a model is known by.
pub open spec fn key_of(model: ModelView) -> ModelKeyView {
    ModelKeyView { provider: model.provider, id: model.id }
}

/// What a model is known by.
pub fn model_key(model: &ModelOption) -> (r: ModelKey)
    ensures
        r@ == key_of(model@),
{
    ModelKey { provider: model.provider.clone(), id: model.id.clone() }
}

/// What a keystroke means to the open picker.
#[derive(Clone, Copy, Debug, PartialEq, Eq, Structural)]
pub enum KeyAction {
    Move(isize),
    Confirm,
    /// Confirm the row in this place.
    Shortcut(usize),
    Dismiss,
    Ignore,
}

/// The row that a digit stands for, where the key is one from one to nine.
pub open spec fn shortcut_of(key: Seq<char>) -> Option<usize> {
    if key.len() == 1 && '1' <= key[0] <= '9' {
        Some((key[0] as u32 - '1' as u32) as usize)
    } else {
        None
    }
}

/// What a keystroke means to the open picker. Digits are shortcuts only before a
/// search starts, so that they can be typed into one.
pub open spec fn meaning_of(keystroke: Keystroke, query_is_empty: bool) -> KeyAction {
    if keystroke.modified() {
        KeyAction::Ignore
    } else if keystroke.key@ == "up"@ {
        KeyAction::Move(-1 as isize)
    } else if keystroke.key@ == "down"@ {
        KeyAction::Move(1)
    } else if keystroke.key@ == "enter"@ || keystroke.key@ == "tab"@ {
        KeyAction::Confirm
    } else if keystroke.key@ == "escape"@ {
        KeyAction::Dismiss
    } else if query_is_empty && shortcut_of(keystroke.key@) is Some {
        KeyAction::Shortcut(shortcut_of(keystroke.key@)->Some_0)
    } else {
        KeyAction::Ignore
    }
}

/// What a keystroke means to the open picker.
pub fn key_action(keystroke: &Keystroke, query_is_empty: bool) -> (r: KeyAction)
    ensures
        r == meaning_of(*keystroke, query_is_empty),
{
    if keystroke.is_modified() {
        return KeyAction::Ignore;
    }
    let key = keystroke.key.as_str();
    if same(key, "up") {
        return KeyAction::Move(-1);
    }
    if same(key, "down") {
        return KeyAction::Move(1);
    }
    if same(key, "enter") || same(key, "tab") {
        return KeyAction::Confirm;
    }
    if same(key, "escape") {
        return KeyAction::Dismiss;
    }
    let chars = chars_of(key);
    if query_is_empty && chars.len() == 1 && '1' <= chars[0] && chars[0] <= '9' {
        let row: usize = (chars[0] as u32 - 49) as usize;
        KeyAction::Shortcut(row)
    } else {
        KeyAction::Ignore
    }
}

/// Whether a model is found by a lower-case query.
pub fn model_matches(model: &ModelOption, normalized_query: &str) -> (r: bool)
    ensures
        r == model_mentions(model@, normalized_query@),
{
    model_found(model, normalized_query)
}

/// Whether a model has a name, but for the case of its ASCII letters.
pub open spec fn is_named(model: ModelView, name: Seq<char>) -> bool {
    ascii_lowercase(model.name) == ascii_lowercase(name)
}

/// Whether more than one model has a name.
pub open spec fn is_duplicated(models: Seq<ModelView>, name: Seq<char>) -> bool {
    count_of(models, |model: ModelView| is_named(model, name)) > 1
}

/// Whether more than one model has a name.
pub fn name_is_duplicated(models: &Vec<ModelOption>, name: &str) -> (r: bool)
    ensures
        r == is_duplicated(views(models@), name@),
{
    let ghost all = views(models@);
    let ghost f = |model: ModelView| is_named(model, name@);
    let wanted = ascii_lowered(name);
    let mut count: usize = 0;
    let mut i: usize = 0;
    proof {
        assert(all.take(0) =~= Seq::empty());
    }
    while i < models.len()
        invariant
            i <= models@.len(),
            all == views(models@),
            f == (|model: ModelView| is_named(model, name@)),
            wanted@ == ascii_lowercase(name@),
            count == count_of(all.take(i as int), f),
            count <= i,
        decreases models@.len() - i,
    {
        proof {
            lemma_count_step(all, f, i as int);
        }
        if same(ascii_lowered(models[i].name.as_str()).as_str(), wanted.as_str()) {
            count = count + 1;
        }
        i = i + 1;
    }
    proof {
        assert(all.take(i as int) =~= all);
    }
    count > 1
}

/// The label of a model's row: its name, with its provider where another model has
/// the same name.
pub open spec fn label_of(models: Seq<ModelView>, index: int) -> Seq<char> {
    if 0 <= index < models.len() {
        let model = models[index];
        if is_duplicated(models, model.name) {
            model.name + "  ·  "@ + model.provider_name
        } else {
            model.name
        }
    } else {
        Seq::empty()
    }
}

/// The label of a model's row.
pub fn row_label(models: &Vec<ModelOption>, index: usize) -> (r: String)
    ensures
        r@ == label_of(views(models@), index as int),
{
    if index >= models.len() {
        return String::new();
    }
    let model = &models[index];
    if name_is_duplicated(models, model.name.as_str()) {
        cat3(model.name.as_str(), "  ·  ", model.provider_name.as_str())
    } else {
        model.name.clone()
    }
}

/// The places among the first `n` of the models that a query finds.
pub open spec fn found_before(models: Seq<ModelView>, query: Seq<char>, n: nat) -> Seq<usize>
    decreases n,
{
    if n == 0 {
        Seq::empty()
    } else if model_mentions(models[n - 1], query) {
        found_before(models, query, (n - 1) as nat).push((n - 1) as usize)
    } else {
        found_before(models, query, (n - 1) as nat)
    }
}

/// The places of the models that are found by what is typed.
pub open spec fn found(models: Seq<ModelView>, typed: Seq<char>) -> Seq<usize> {
    found_before(models, lowercase(trim(typed)), models.len())
}

/// What the picker holds.
#[verifier::ext_equal]
pub struct PickerView {
    pub models: Seq<ModelView>,
    /// The places of the models that are shown.
    pub visible: Seq<usize>,
    pub selected: Option<ModelKeyView>,
    /// The selection that was last reported.
    pub reported: Option<ModelKeyView>,
    pub query: Seq<char>,
    pub active: usize,
    pub open: bool,
    pub synced: bool,
    pub language: Language,
}

/// Whether a model with the key is among the models.
pub open spec fn offers(models: Seq<ModelView>, key: ModelKeyView) -> bool {
    exists|i: int| 0 <= i < models.len() && key_of(#[trigger] models[i]) == key
}

/// The shown row of the model with a key, counted from `from` on.
pub open spec fn row_from(models: Seq<ModelView>, visible: Seq<usize>, key: ModelKeyView, from: int) -> Option<
    int,
>
    decreases visible.len() - from,
{
    if from < 0 || from >= visible.len() {
        None
    } else if visible[from] < models.len() && key_of(models[visible[from] as int]) == key {
        Some(from)
    } else {
        row_from(models, visible, key, from + 1)
    }
}

/// The shown row of the selection, or the first.
pub open spec fn selected_row(models: Seq<ModelView>, visible: Seq<usize>, selected: Option<ModelKeyView>) -> int {
    match selected {
        Some(key) => match row_from(models, visible, key, 0) {
            Some(row) => row,
            None => 0,
        },
        None => 0,
    }
}

/// The picker with other models. A selection that they do not offer is given up
/// for the reported one.
pub open spec fn with_models(view: PickerView, models: Seq<ModelView>, selected: Option<ModelKeyView>) -> PickerView {
    if view.models == models {
        view
    } else {
        let visible = found(models, view.query);
        PickerView {
            models,
            visible,
            selected: match view.selected {
                Some(key) => if offers(models, key) {
                    view.selected
                } else {
                    selected
                },
                None => None,
            },
            active: clamped(view.active as int, visible.len() as int) as usize,
            ..view
        }
    }
}

/// The picker with what the state reports. A selection that was made here stands
/// until another one is reported.
pub open spec fn picker_synced(
    view: PickerView,
    models: Seq<ModelView>,
    selected: Option<ModelKeyView>,
    language: Language,
) -> PickerView {
    let with = with_models(view, models, selected);
    let taken = !view.synced || view.reported != selected;
    PickerView {
        selected: if taken {
            selected
        } else {
            with.selected
        },
        reported: selected,
        active: if taken && !view.open {
            selected_row(with.models, with.visible, selected) as usize
        } else {
            with.active
        },
        synced: true,
        language,
        ..with
    }
}

/// The picker with another query.
pub open spec fn with_query(view: PickerView, query: Seq<char>) -> PickerView {
    if view.query == query {
        view
    } else {
        PickerView { query, visible: found(view.models, query), active: 0, ..view }
    }
}

/// The picker once its popup opened or closed. It opens on the selected row, with
/// no query. `typed` is what the search field holds.
pub open spec fn popover(view: PickerView, open: bool, typed: Seq<char>) -> PickerView {
    if open {
        let visible = if view.query.len() > 0 || typed.len() > 0 {
            found(view.models, Seq::empty())
        } else {
            view.visible
        };
        PickerView {
            open,
            query: if view.query.len() > 0 || typed.len() > 0 {
                Seq::empty()
            } else {
                view.query
            },
            visible,
            active: selected_row(view.models, visible, view.selected) as usize,
            ..view
        }
    } else {
        PickerView { open, ..view }
    }
}

/// The picker once a shown row was confirmed, and its model.
pub open spec fn confirmed(view: PickerView, row: int) -> (PickerView, Option<ModelView>) {
    if 0 <= row < view.visible.len() && view.visible[row] < view.models.len() {
        let model = view.models[view.visible[row] as int];
        (PickerView { selected: Some(key_of(model)), ..view }, Some(model))
    } else {
        (view, None)
    }
}

/// What handling a key came to.
#[derive(Clone, Debug, PartialEq)]
pub struct Handled {
    /// Whether the picker took the key.
    pub consumed: bool,
    /// Whether the popup closes.
    pub close: bool,
    /// The model that was confirmed.
    pub confirmed: Option<ModelOption>,
}

/// A shown row as it is drawn.
#[derive(Clone, Debug, PartialEq, Eq)]
pub struct ModelRow {
    pub label: String,
    /// Whether it is the selected model.
    pub selected: bool,
    /// Whether the keys are on it.
    pub active: bool,
    /// The digit that picks it.
    pub shortcut: Option<usize>,
}

/// The digit that picks a row: there is one for the first nine, but for the row
/// that is selected already.
pub open spec fn shortcut_at(row: usize, selected: bool) -> Option<usize> {
    if !selected && row < 9 {
        Some((row + 1) as usize)
    } else {
        None
    }
}

/// Whether `name` is that of the first model with the selected key, where there is
/// one.
pub open spec fn is_selected_name(view: PickerView, name: Option<Seq<char>>) -> bool {
    match name {
        Some(name) => exists|i: int|
            #![trigger view.models[i]]
            0 <= i < view.models.len() && view.selected == Some(key_of(view.models[i])) && name
                == view.models[i].name && forall|k: int|
                0 <= k < i ==> view.selected != Some(key_of(#[trigger] view.models[k])),
        None => forall|k: int|
            0 <= k < view.models.len() ==> view.selected != Some(key_of(#[trigger] view.models[k])),
    }
}

/// The model picker.
pub struct ModelPicker {
    models: Vec<ModelOption>,
    visible: Vec<usize>,
    selected: Option<ModelKey>,
    reported: Option<ModelKey>,
    query: String,
    active: usize,
    open: bool,
    synced: bool,
    language: Language,
}

impl View for ModelPicker {
    type V = PickerView;

    closed spec fn view(&self) -> PickerView {
        PickerView {
            models: views(self.models@),
            visible: self.visible@,
            selected: opt_view(self.selected),
            reported: opt_view(self.reported),
            query: self.query@,
            active: self.active,
            open: self.open,
            synced: self.synced,
            language: self.language,
        }
    }
}

/// Every place that is found is one of a model that the query finds.
pub proof fn lemma_found(models: Seq<ModelView>, query: Seq<char>, n: nat)
    requires
        n <= models.len(),
        models.len() <= usize::MAX,
    ensures
        forall|i: int|
            0 <= i < found_before(models, query, n).len() ==> (#[trigger] found_before(
                models,
                query,
                n,
            )[i]) < n && model_mentions(models[found_before(models, query, n)[i] as int], query),
    decreases n,
{
    if n > 0 {
        lemma_found(models, query, (n - 1) as nat);
        let front = found_before(models, query, (n - 1) as nat);
        let all = found_before(models, query, n);
        assert forall|i: int| 0 <= i < all.len() implies (#[trigger] all[i]) < n && model_mentions(
            models[all[i] as int],
            query,
        ) by {
            if i < front.len() {
                assert(all[i] == front[i]);
            }
        }
    }
}

impl ModelPicker {
    /// The shown rows are the models that the query finds.
    pub open spec fn wf(&self) -> bool {
        self@.visible == found(self@.models, self@.query)
    }

    /// An empty picker.
    pub fn new() -> (r: ModelPicker)
        ensures
            r.wf(),
            r@.models.len() == 0,
            r@.visible.len() == 0,
            r@.selected is None,
            r@.reported is None,
            r@.query.len() == 0,
            r@.active == 0,
            !r@.open,
            !r@.synced,
            r@.language == Language::English,
    {
        let r = ModelPicker {
            models: Vec::new(),
            visible: Vec::new(),
            selected: None,
            reported: None,
            query: String::new(),
            active: 0,
            open: false,
            synced: false,
            language: Language::default(),
        };
        proof {
            assert(r@.visible =~= found(r@.models, r@.query));
        }
        r
    }

    fn rebuild_visible(&mut self)
        ensures
            final(self)@ == (PickerView {
                visible: found(old(self)@.models, old(self)@.query),
                ..old(self)@
            }),
    {
        let query = lowered(trimmed(self.query.as_str()).as_str());
        let mut visible: Vec<usize> = Vec::new();
        let mut i: usize = 0;
        while i < self.models.len()
            invariant
                i <= self.models@.len(),
                visible@ == found_before(views(self.models@), query@, i as nat),
            decreases self.models@.len() - i,
        {
            if model_matches(&self.models[i], query.as_str()) {
                visible.push(i);
            }
            i = i + 1;
        }
        self.visible = visible;
    }

    fn offers_key(&self, key: &ModelKey) -> (r: bool)
        ensures
            r == offers(self@.models, key@),
    {
        let ghost all = self@.models;
        let mut i: usize = 0;
        while i < self.models.len()
            invariant
                i <= self.models@.len(),
                all == views(self.models@),
                all == self@.models,
                forall|k: int| 0 <= k < i ==> key_of(#[trigger] all[k]) != key@,
            decreases self.models@.len() - i,
        {
            proof {
                assert(all[i as int] == self.models@[i as int]@);
            }
            if model_key(&self.models[i]).same_as(key) {
                return true;
            }
            i = i + 1;
        }
        false
    }

    fn activate_selected(&mut self)
        ensures
            final(self)@ == (PickerView {
                active: selected_row(
                    old(self)@.models,
                    old(self)@.visible,
                    old(self)@.selected,
                ) as usize,
                ..old(self)@
            }),
    {
        let mut row: usize = 0;
        if let Some(key) = &self.selected {
            let mut i: usize = 0;
            let mut searching = true;
            while searching && i < self.visible.len()
                invariant
                    i <= self.visible@.len(),
                    row == 0 || !searching,
                    searching ==> row_from(views(self.models@), self.visible@, key@, 0) == row_from(
                        views(self.models@),
                        self.visible@,
                        key@,
                        i as int,
                    ),
                    !searching ==> row_from(views(self.models@), self.visible@, key@, 0) == Some(
                        row as int,
                    ),
                decreases
                    self.visible@.len() - i,
                    if searching {
                        1int
                    } else {
                        0
                    },
            {
                let at: usize = self.visible[i];
                if at < self.models.len() && model_key(&self.models[at]).same_as(key) {
                    row = i;
                    searching = false;
                } else {
                    i = i + 1;
                }
            }
        }
        self.active = row;
    }

    /// Takes what the state reports. Says whether anything changed.
    pub fn sync(
        &mut self,
        models: &Vec<ModelOption>,
        selected: Option<ModelKey>,
        language: Language,
    ) -> (r: bool)
        requires
            old(self).wf(),
        ensures
            final(self).wf(),
            final(self)@ == picker_synced(
                old(self)@,
                views(models@),
                opt_view(selected),
                language,
            ),
            r == (old(self)@.models != views(models@) || !old(self)@.synced || old(self)@.reported
                != opt_view(selected) || old(self)@.language != language),
    {
        let mut changed = false;
        if !same_list(&self.models, models) {
            self.models = copy_list(models);
            self.rebuild_visible();
            let lost = match &self.selected {
                Some(key) => !self.offers_key(key),
                None => false,
            };
            if lost {
                self.selected = copy_opt(&selected);
            }
            self.active = clamp(self.active, self.visible.len());
            changed = true;
        }
        proof {
            assert(self@ == with_models(old(self)@, views(models@), opt_view(selected)));
        }
        if !self.synced || !same_opt(&self.reported, &selected) {
            self.reported = copy_opt(&selected);
            self.selected = selected;
            if !self.open {
                self.activate_selected();
            }
            changed = true;
        }
        if self.language != language {
            self.language = language;
            changed = true;
        }
        self.synced = true;
        changed
    }

    /// Shows the models that are found by what is typed. Says whether anything
    /// changed.
    pub fn set_query(&mut self, query: &str) -> (r: bool)
        requires
            old(self).wf(),
        ensures
            final(self).wf(),
            final(self)@ == with_query(old(self)@, query@),
            r == (old(self)@.query != query@),
    {
        if same(self.query.as_str(), query) {
            return false;
        }
        self.query = query.to_owned();
        self.rebuild_visible();
        self.active = 0;
        true
    }

    /// Opens or closes the popup. `typed` is what the search field holds.
    pub fn popover_changed(&mut self, open: bool, typed: &str)
        requires
            old(self).wf(),
        ensures
            final(self).wf(),
            final(self)@ == popover(old(self)@, open, typed@),
    {
        self.open = open;
        if open {
            if !self.query.as_str().is_empty() || !typed.is_empty() {
                self.query = String::new();
                proof {
                    assert(self.query@ =~= Seq::empty());
                }
                self.rebuild_visible();
            }
            self.activate_selected();
        }
    }

    /// Confirms a shown row, where there is one, and returns its model.
    pub fn confirm(&mut self, row: usize) -> (r: Option<ModelOption>)
        requires
            old(self).wf(),
        ensures
            final(self).wf(),
            (final(self)@, opt_view(r)) == confirmed(old(self)@, row as int),
    {
        if row >= self.visible.len() {
            return None;
        }
        let at: usize = self.visible[row];
        if at >= self.models.len() {
            return None;
        }
        let model = self.models[at].duplicate();
        self.selected = Some(model_key(&model));
        Some(model)
    }

    /// Handles a key of the open popup.
    pub fn handle_key(&mut self, keystroke: &Keystroke) -> (r: Handled)
        requires
            old(self).wf(),
        ensures
            final(self).wf(),
            match meaning_of(*keystroke, is_blank(old(self)@.query)) {
                KeyAction::Ignore => final(self)@ == old(self)@ && !r.consumed && !r.close
                    && r.confirmed is None,
                KeyAction::Dismiss => final(self)@ == old(self)@ && r.consumed && r.close
                    && r.confirmed is None,
                KeyAction::Move(delta) => final(self)@ == (PickerView {
                    active: stepped_to(
                        old(self)@.active as int,
                        old(self)@.visible.len() as int,
                        delta as int,
                    ) as usize,
                    ..old(self)@
                }) && r.consumed && !r.close && r.confirmed is None,
                KeyAction::Confirm => (final(self)@, opt_view(r.confirmed)) == confirmed(
                    old(self)@,
                    old(self)@.active as int,
                ) && r.consumed && r.close == (old(self)@.visible.len() > 0),
                KeyAction::Shortcut(row) => if row < old(self)@.visible.len() {
                    (final(self)@, opt_view(r.confirmed)) == confirmed(old(self)@, row as int)
                        && r.consumed && r.close
                } else {
                    final(self)@ == old(self)@ && !r.consumed && !r.close && r.confirmed is None
                },
            },
    {
        match key_action(keystroke, blank(self.query.as_str())) {
            KeyAction::Ignore => Handled { consumed: false, close: false, confirmed: None },
            KeyAction::Dismiss => Handled { consumed: true, close: true, confirmed: None },
            KeyAction::Move(delta) => {
                self.active = step(self.active, self.visible.len(), delta);
                Handled { consumed: true, close: false, confirmed: None }
            },
            KeyAction::Confirm => {
                let active: usize = self.active;
                let confirmed = self.confirm(active);
                Handled { consumed: true, close: self.visible.len() > 0, confirmed }
            },
            KeyAction::Shortcut(row) => {
                if row >= self.visible.len() {
                    return Handled { consumed: false, close: false, confirmed: None };
                }
                let confirmed = self.confirm(row);
                Handled { consumed: true, close: true, confirmed }
            },
        }
    }

    /// A shown row as it is drawn.
    pub fn render_row(&self, row: usize) -> (r: Option<ModelRow>)
        requires
            self.wf(),
        ensures
            match r {
                Some(shown) => {
                    let at = self@.visible[row as int] as int;
                    &&& row < self@.visible.len()
                    &&& shown.label@ == label_of(self@.models, at)
                    &&& shown.selected == (self@.selected == Some(key_of(self@.models[at])))
                    &&& shown.active == (row == self@.active)
                    &&& shown.shortcut == shortcut_at(row, shown.selected)
                },
                None => row >= self@.visible.len(),
            },
    {
        if row >= self.visible.len() {
            return None;
        }
        let at: usize = self.visible[row];
        let total: usize = self.models.len();
        proof {
            assert(total == self@.models.len());
            lemma_found(
                self@.models,
                lowercase(trim(self@.query)),
                self@.models.len(),
            );
        }
        let selected = match &self.selected {
            Some(key) => model_key(&self.models[at]).same_as(key),
            None => false,
        };
        Some(
            ModelRow {
                label: row_label(&self.models, at),
                selected,
                active: row == self.active,
                shortcut: if !selected && row < 9 {
                    Some(row + 1)
                } else {
                    None
                },
            },
        )
    }

    /// Moves to a row because the pointer is on it. Says whether that is another
    /// one.
    pub fn hover_row(&mut self, row: usize) -> (r: bool)
        requires
            old(self).wf(),
        ensures
            final(self).wf(),
            final(self)@ == (PickerView { active: row, ..old(self)@ }),
            r == (old(self)@.active != row),
    {
        let moved = self.active != row;
        self.active = row;
        moved
    }

    /// The name of the selected model, where it is on offer.
    pub fn selected_name(&self) -> (r: Option<String>)
        ensures
            is_selected_name(self@, opt_view(r)),
    {
        let ghost all = self@.models;
        let key = match &self.selected {
            Some(key) => key,
            None => {
                return None;
            },
        };
        let mut i: usize = 0;
        while i < self.models.len()
            invariant
                i <= self.models@.len(),
                all == views(self.models@),
                all == self@.models,
                self@.selected == Some(key@),
                forall|k: int| 0 <= k < i ==> key_of(#[trigger] all[k]) != key@,
            decreases self.models@.len() - i,
        {
            proof {
                assert(all[i as int] == self.models@[i as int]@);
            }
            if model_key(&self.models[i]).same_as(key) {
                return Some(self.models[i].name.clone());
            }
            i = i + 1;
        }
        None
    }

    /// What the control says: the name of the selected model, or that it is for
    /// models.
    pub fn label<F: Fn(&'static str, Language) -> &'static str>(&self, table: &F) -> (r: String)
        requires
            is_table(*table),
        ensures
            is_selected_name(self@, Some(r@)) || (is_selected_name(self@, None) && reads(
                *table,
                "model"@,
                self@.language,
                r@,
            )),
    {
        match self.selected_name() {
            Some(name) => name,
            None => translate(table, "model", self.language).to_owned(),
        }
    }

    /// What the search field says while it is empty.
    pub fn search_placeholder<F: Fn(&'static str, Language) -> &'static str>(
        &self,
        table: &F,
    ) -> (r: &'static str)
        requires
            is_table(*table),
        ensures
            reads(*table, "search-models"@, self@.language, r@),
    {
        translate(table, "search-models", self.language)
    }

    /// What stands in the place of rows where there are none.
    pub fn empty_note<F: Fn(&'static str, Language) -> &'static str>(&self, table: &F) -> (r: Option<
        &'static str,
    >)
        requires
            is_table(*table),
        ensures
            match r {
                Some(note) => self@.visible.len() == 0 && reads(
                    *table,
                    "no-models-available"@,
                    self@.language,
                    note@,
                ),
                None => self@.visible.len() > 0,
            },
    {
        if self.visible.len() > 0 {
            None
        } else {
            Some(translate(table, "no-models-available", self.language))
        }
    }

    /// The selection.
    pub fn selected(&self) -> (r: Option<ModelKey>)
        ensures
            opt_view(r) == self@.selected,
    {
        copy_opt(&self.selected)
    }

    /// The places of the models that are shown.
    pub fn visible(&self) -> (r: &Vec<usize>)
        ensures
            r@ == self@.visible,
    {
        &self.visible
    }
}

/// A model that was confirmed here stays selected while the state reports the same
/// as before.
pub proof fn lemma_local_model_stands(view: PickerView, row: int, language: Language)
    requires
        view.synced,
        0 <= row < view.visible.len(),
        view.visible[row] < view.models.len(),
    ensures
        picker_synced(confirmed(view, row).0, view.models, view.reported, language).selected
            == Some(key_of(view.models[view.visible[row] as int])),
{
}

} // verus!
