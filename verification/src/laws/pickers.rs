//! What holds of the pickers, the sidebar and what is typed.

use vstd::prelude::*;

use crate::chat::composer::{image_in, is_long, is_submission, paths_in, ClipboardEntry, PromptView};
use crate::chat::controls::{
    are_groups, has_provider, item_of, items_of, level_key, note_text, shown_model, shows, Controls,
    GroupView,
};
use crate::chat::cross_task_message::source_text;
use crate::chat::dropdown;
use crate::chat::keys::{clamped, stepped_to, Keystroke};
use crate::chat::model_picker::{
    confirmed, found, key_of, label_of, picker_synced, popover, shortcut_at, shortcut_of,
    with_query, ModelKeyView, PickerView,
};
use crate::chat::palette::{
    acted, action_for, action_for_key, request_of, synced, PaletteEventView, PaletteKey,
    PaletteView,
};
use crate::chat::queue_status::{chips_of, QueueStatus};
use crate::chat::rows::RowView;
use crate::chat::sidebar::{
    epoch_after, found_rows, hovered_view, is_kept, menu_of, note_key, row_mentions, shown_rows,
    SidebarEventView, SidebarView,
};
use crate::chat::{model_picker, palette, sidebar};
use crate::domain::{AgentPermissionLevel, AppState, Language, ModelView, StatusView, SubmitMode};
use crate::ids::hyphenated;
use crate::slash_commands::{model_mentions, prefilled, CommandView};
use crate::text::{
    ascii_lowercase, comes_before, is_blank, lemma_trim_blank, lowercase, occurs, trim,
};
use crate::views::{count_of, views};

verus! {

proof fn lemma_key_names()
    ensures
        "up"@.len() == 2,
        "down"@.len() == 4,
        "enter"@.len() == 5,
        "tab"@.len() == 3,
        "escape"@.len() == 6,
{
    reveal_strlit("up");
    reveal_strlit("down");
    reveal_strlit("enter");
    reveal_strlit("tab");
    reveal_strlit("escape");
}

/// In a panel the arrows move, enter and tab pick, escape closes, and every other key,
/// or one with a modifier, is the input's.
pub proof fn lemma_keys_in_panels(keystroke: Keystroke)
    ensures
        ({
            let plain = !keystroke.shift && !keystroke.control && !keystroke.alt
                && !keystroke.platform;
            let key = keystroke.key@;
            &&& action_for(keystroke) == palette::KeyAction::Move(-1 as isize) <==> plain && key
                == "up"@
            &&& action_for(keystroke) == palette::KeyAction::Move(1) <==> plain && key == "down"@
            &&& action_for(keystroke) == palette::KeyAction::Run <==> plain && (key == "enter"@
                || key == "tab"@)
            &&& action_for(keystroke) == palette::KeyAction::Dismiss <==> plain && key == "escape"@
            &&& dropdown::meaning_of(keystroke) == dropdown::KeyAction::Move(-1 as isize) <==> plain
                && key == "up"@
            &&& dropdown::meaning_of(keystroke) == dropdown::KeyAction::Move(1) <==> plain && key
                == "down"@
            &&& dropdown::meaning_of(keystroke) == dropdown::KeyAction::Confirm <==> plain && (key
                == "enter"@ || key == "tab"@)
            &&& dropdown::meaning_of(keystroke) == dropdown::KeyAction::Dismiss <==> plain && key
                == "escape"@
        }),
{
    lemma_key_names();
}

/// In the model picker the keys mean the same, and a digit picks one of the first nine
/// rows as long as nothing is typed.
pub proof fn lemma_keys_in_the_model_picker(keystroke: Keystroke, nothing_typed: bool, digit: char)
    ensures
        ({
            let plain = !keystroke.shift && !keystroke.control && !keystroke.alt
                && !keystroke.platform;
            let key = keystroke.key@;
            let meaning = model_picker::meaning_of(keystroke, nothing_typed);
            &&& meaning == model_picker::KeyAction::Move(-1 as isize) <==> plain && key == "up"@
            &&& meaning == model_picker::KeyAction::Move(1) <==> plain && key == "down"@
            &&& meaning == model_picker::KeyAction::Confirm <==> plain && (key == "enter"@ || key
                == "tab"@)
            &&& meaning == model_picker::KeyAction::Dismiss <==> plain && key == "escape"@
            &&& '1' <= digit <= '9' && key == seq![digit] && plain && nothing_typed ==> meaning
                == model_picker::KeyAction::Shortcut((digit as u32 - '1' as u32) as usize)
            &&& !nothing_typed || !plain ==> !(meaning is Shortcut)
        }),
        shortcut_of(seq!['1']) == Some(0usize),
        shortcut_of(seq!['9']) == Some(8usize),
        shortcut_of(seq!['0']) is None,
{
    lemma_key_names();
}

/// The buttons for the keys do what the keys do.
pub proof fn lemma_buttons_for_keys()
    ensures
        action_for_key(PaletteKey::Up) == palette::KeyAction::Move(-1 as isize),
        action_for_key(PaletteKey::Down) == palette::KeyAction::Move(1),
        action_for_key(PaletteKey::Run) == palette::KeyAction::Run,
{
}

/// A place stays where it is as long as there is such a place, and goes to the last one
/// otherwise.
pub proof fn lemma_places_are_clamped(place: int, count: int)
    requires
        0 <= place,
        0 <= count,
    ensures
        place < count ==> clamped(place, count) == place,
        place >= count && count > 0 ==> clamped(place, count) == count - 1,
        count == 0 ==> clamped(place, count) == 0 && stepped_to(place, count, 1) == 0,
{
}

/// The panel moves among its options, runs the one that it is on, and stays as it is
/// where a key is not its own. Closing it by hand remembers what was typed.
pub proof fn lemma_panels_act(view: PaletteView, delta: isize)
    requires
        view.options.len() <= usize::MAX,
    ensures
        acted(view, palette::KeyAction::Ignore) == (view, None::<PaletteEventView>),
        ({
            let (after, event) = acted(view, palette::KeyAction::Move(delta));
            &&& event is None
            &&& after.options == view.options && after.query == view.query && after.dismissed
                == view.dismissed && after.language == view.language
            &&& after.selection == stepped_to(
                view.selection as int,
                view.options.len() as int,
                delta as int,
            ) as usize
        }),
        ({
            let (after, event) = acted(view, palette::KeyAction::Run);
            &&& view.selection < view.options.len() ==> event == Some(
                request_of(view.options[view.selection as int].command),
            ) && after.options.len() == 0
            &&& view.selection >= view.options.len() ==> event is None && after == view
        }),
        ({
            let (after, event) = acted(view, palette::KeyAction::Dismiss);
            event is None && after.options.len() == 0 && after.dismissed == view.query
                && after.query == view.query
        }),
{
}

/// Picking a command runs it, or writes its call where it still wants an argument.
pub proof fn lemma_picked_commands(command: CommandView)
    ensures
        prefilled(command) matches Some(text) ==> request_of(command)
            == PaletteEventView::SetComposerText(text),
        prefilled(command) is None ==> request_of(command) == PaletteEventView::Run(command),
{
}

/// The panel shows what the palette finds for what is typed. It starts on its first
/// option for another text, and keeps its place for the same one.
pub proof fn lemma_panels_show_the_palette(view: PaletteView, state: AppState, text: Seq<char>)
    ensures
        ({
            let after = synced(view, state, text);
            let found = crate::slash_commands::palette(state, text);
            &&& after.language == state.language
            &&& found is None ==> after.options.len() == 0 && after.query is None
                && after.dismissed is None
            &&& found is Some && view.dismissed != Some(text) ==> after.options == found->0
            &&& found is Some && view.dismissed == Some(text) ==> after.options.len() == 0
            &&& found is Some ==> after.query == Some(text) && after.dismissed == view.dismissed
            &&& found is Some && view.query != Some(text) ==> after.selection == 0
            &&& found is Some && view.query == Some(text) && view.selection < after.options.len()
                ==> after.selection == view.selection
        }),
{
}

/// A row is found by its value: the first that has it.
pub proof fn lemma_rows_are_found<V>(items: Seq<dropdown::ChoiceView<V>>, value: V, i: int)
    requires
        0 <= i < items.len(),
        items[i].value == value,
        forall|k: int| 0 <= k < i ==> (#[trigger] items[k]).value != value,
    ensures
        dropdown::row_of(items, value) == Some(i as nat),
        dropdown::selected_row(items, Some(value)) == i,
    decreases i,
{
    if i > 0 {
        assert(items[0].value != value);
        let rest = items.drop_first();
        assert(forall|k: int| 0 <= k < i - 1 ==> #[trigger] rest[k] == items[k + 1]);
        lemma_rows_are_found(rest, value, i - 1);
    }
}

proof fn lemma_no_row_is_found<V>(items: Seq<dropdown::ChoiceView<V>>, value: V)
    requires
        forall|k: int| 0 <= k < items.len() ==> (#[trigger] items[k]).value != value,
    ensures
        dropdown::row_of(items, value) is None,
    decreases items.len(),
{
    if items.len() > 0 {
        assert(items[0].value != value);
        let rest = items.drop_first();
        assert(forall|k: int| 0 <= k < rest.len() ==> #[trigger] rest[k] == items[k + 1]);
        lemma_no_row_is_found(rest, value);
    }
}

/// A picker says what is selected, behind its prefix, and its placeholder where nothing
/// is, or nothing that it offers.
pub proof fn lemma_pickers_say_what_is_selected<V>(view: dropdown::PickerView<V>, i: int)
    ensures
        view.selected is None ==> dropdown::label_of(view) == view.prefix + view.placeholder,
        0 <= i < view.items.len() && view.selected == Some(view.items[i].value) && (forall|k: int|
            0 <= k < i ==> (#[trigger] view.items[k]).value != view.items[i].value)
            ==> dropdown::label_of(view) == view.prefix + view.items[i].label,
        view.selected is Some && (forall|k: int|
            0 <= k < view.items.len() ==> (#[trigger] view.items[k]).value != view.selected->0)
            ==> dropdown::label_of(view) == view.prefix + view.placeholder,
{
    if 0 <= i < view.items.len() && view.selected == Some(view.items[i].value) && (forall|k: int|
        0 <= k < i ==> (#[trigger] view.items[k]).value != view.items[i].value) {
        lemma_rows_are_found(view.items, view.items[i].value, i);
    }
    if view.selected is Some && (forall|k: int|
        0 <= k < view.items.len() ==> (#[trigger] view.items[k]).value != view.selected->0) {
        lemma_no_row_is_found(view.items, view.selected->0);
    }
}

/// Picking a row selects its value and reports it; a row that is not there does nothing.
pub proof fn lemma_rows_are_picked<V>(view: dropdown::PickerView<V>, index: int)
    ensures
        ({
            let (after, picked) = dropdown::picker_confirmed(view, index);
            &&& 0 <= index < view.items.len() ==> picked == Some(view.items[index].value)
                && after.selected == picked
            &&& !(0 <= index < view.items.len()) ==> picked is None && after == view
            &&& after.items == view.items && after.reported == view.reported && after.active
                == view.active && after.open == view.open && after.synced == view.synced
        }),
{
}

/// A picker takes over a selection that is reported anew, and keeps its own as long as
/// the same one is reported. It always takes over what it offers and says.
pub proof fn lemma_pickers_follow<V>(
    view: dropdown::PickerView<V>,
    items: Seq<dropdown::ChoiceView<V>>,
    selected: Option<V>,
    prefix: Seq<char>,
    placeholder: Seq<char>,
)
    ensures
        ({
            let after = dropdown::picker_synced(view, items, selected, prefix, placeholder);
            &&& after.items == items && after.prefix == prefix && after.placeholder == placeholder
            &&& after.synced && after.reported == selected && after.open == view.open
            &&& !view.synced || view.reported != selected ==> after.selected == selected
            &&& view.synced && view.reported == selected ==> after.selected == view.selected
            &&& (!view.synced || view.reported != selected) && !view.open ==> after.active
                == dropdown::selected_row(items, selected) as usize
            &&& view.open && view.items == items ==> after.active == view.active
        }),
{
}

/// A model is told by its provider and its id.
pub proof fn lemma_models_are_told_apart(a: ModelView, b: ModelView)
    ensures
        key_of(a) == key_of(b) <==> a.provider == b.provider && a.id == b.id,
        key_of(a).provider == a.provider,
        key_of(a).id == a.id,
{
}

/// A model goes by its name, and by its provider too where another one is called the
/// same.
pub proof fn lemma_labels_of_models(models: Seq<ModelView>, i: int, j: int)
    requires
        0 <= i < models.len(),
    ensures
        0 <= j < models.len() && i != j && ascii_lowercase(models[i].name) == ascii_lowercase(
            models[j].name,
        ) ==> label_of(models, i) == models[i].name + "  ·  "@ + models[i].provider_name,
        (forall|k: int|
            0 <= k < models.len() && k != i ==> ascii_lowercase((#[trigger] models[k]).name)
                != ascii_lowercase(models[i].name)) ==> label_of(models, i) == models[i].name,
{
    let f = |model: ModelView| model_picker::is_named(model, models[i].name);
    if 0 <= j < models.len() && i != j && f(models[j]) {
        if i < j {
            lemma_two_are_counted(models, f, i, j);
        } else {
            lemma_two_are_counted(models, f, j, i);
        }
    }
    if forall|k: int|
        0 <= k < models.len() && k != i ==> ascii_lowercase((#[trigger] models[k]).name)
            != ascii_lowercase(models[i].name) {
        assert forall|k: int| 0 <= k < models.len() && k != i implies !f(#[trigger] models[k]) by {
        }
        lemma_one_is_counted(models, f, i);
    }
}

proof fn lemma_counted<A>(v: Seq<A>, f: spec_fn(A) -> bool, i: int)
    requires
        0 <= i < v.len(),
        f(v[i]),
    ensures
        count_of(v, f) >= 1,
    decreases v.len(),
{
    if i < v.len() - 1 {
        lemma_counted(v.drop_last(), f, i);
    }
}

proof fn lemma_two_are_counted<A>(v: Seq<A>, f: spec_fn(A) -> bool, i: int, j: int)
    requires
        0 <= i < j < v.len(),
        f(v[i]),
        f(v[j]),
    ensures
        count_of(v, f) >= 2,
    decreases v.len(),
{
    if j < v.len() - 1 {
        lemma_two_are_counted(v.drop_last(), f, i, j);
    } else {
        lemma_counted(v.drop_last(), f, i);
    }
}

proof fn lemma_none_is_counted<A>(v: Seq<A>, f: spec_fn(A) -> bool)
    requires
        forall|k: int| 0 <= k < v.len() ==> !f(#[trigger] v[k]),
    ensures
        count_of(v, f) == 0,
    decreases v.len(),
{
    if v.len() > 0 {
        let front = v.drop_last();
        assert(forall|k: int| 0 <= k < front.len() ==> #[trigger] front[k] == v[k]);
        lemma_none_is_counted(front, f);
    }
}

proof fn lemma_one_is_counted<A>(v: Seq<A>, f: spec_fn(A) -> bool, i: int)
    requires
        0 <= i < v.len(),
        forall|k: int| 0 <= k < v.len() && k != i ==> !f(#[trigger] v[k]),
    ensures
        count_of(v, f) <= 1,
    decreases v.len(),
{
    let front = v.drop_last();
    assert(forall|k: int| 0 <= k < front.len() ==> #[trigger] front[k] == v[k]);
    if i < v.len() - 1 {
        lemma_one_is_counted(front, f, i);
    } else {
        lemma_none_is_counted(front, f);
    }
}

proof fn lemma_found_places(models: Seq<ModelView>, query: Seq<char>, n: nat, i: usize)
    requires
        n <= models.len() <= usize::MAX,
    ensures
        model_picker::found_before(models, query, n).contains(i) <==> i < n && model_mentions(
            models[i as int],
            query,
        ),
    decreases n,
{
    let all = model_picker::found_before(models, query, n);
    if n > 0 {
        let m = (n - 1) as nat;
        lemma_found_places(models, query, m, i);
        let less = model_picker::found_before(models, query, m);
        if less.contains(i) {
            let k = choose|k: int| 0 <= k < less.len() && less[k] == i;
            assert(all[k] == i);
        }
        if i == m && model_mentions(models[i as int], query) {
            assert(all[all.len() - 1] == i);
        }
        if all.contains(i) {
            let k = choose|k: int| 0 <= k < all.len() && all[k] == i;
            if k < less.len() {
                assert(less[k] == i);
            }
        }
    }
}

/// What is typed into the model picker finds the models that it stands in, by name, id
/// or provider, whatever the case of the letters, and no others.
pub proof fn lemma_models_are_found(models: Seq<ModelView>, typed: Seq<char>, i: usize)
    requires
        models.len() <= usize::MAX,
    ensures
        ({
            let query = lowercase(trim(typed));
            found(models, typed).contains(i) <==> i < models.len() && (query.len() == 0 || occurs(
                lowercase(models[i as int].name),
                query,
            ) || occurs(lowercase(models[i as int].id), query) || occurs(
                lowercase(models[i as int].provider_name),
                query,
            ))
        }),
{
    lemma_found_places(models, lowercase(trim(typed)), models.len(), i);
}

/// Picking a row of the model picker picks the model that it shows.
pub proof fn lemma_models_are_picked(view: PickerView, row: int)
    ensures
        ({
            let (after, picked) = confirmed(view, row);
            &&& 0 <= row < view.visible.len() && view.visible[row] < view.models.len() ==> picked
                == Some(view.models[view.visible[row] as int]) && after.selected == Some(
                key_of(view.models[view.visible[row] as int]),
            )
            &&& !(0 <= row < view.visible.len()) ==> picked is None && after == view
            &&& after.models == view.models && after.visible == view.visible && after.query
                == view.query && after.open == view.open
        }),
{
}

/// Typing into the model picker shows what it finds, from the top; the same text
/// changes nothing.
pub proof fn lemma_models_are_typed_for(view: PickerView, query: Seq<char>)
    ensures
        view.query == query ==> with_query(view, query) == view,
        view.query != query ==> with_query(view, query).visible == found(view.models, query)
            && with_query(view, query).active == 0,
        with_query(view, query).query == query,
        with_query(view, query).selected == view.selected,
        with_query(view, query).models == view.models,
{
}

/// The model picker opens on all of its models, with nothing typed, on the row of the
/// selected one; closing it only closes it.
pub proof fn lemma_the_model_picker_opens(view: PickerView, typed: Seq<char>)
    requires
        view.visible == found(view.models, view.query),
    ensures
        ({
            let after = popover(view, true, typed);
            &&& after.open
            &&& after.query.len() == 0
            &&& after.visible == found(view.models, after.query)
            &&& after.active == model_picker::selected_row(
                view.models,
                after.visible,
                view.selected,
            ) as usize
            &&& after.selected == view.selected && after.models == view.models
        }),
        popover(view, false, typed) == (PickerView { open: false, ..view }),
{
    if view.query.len() == 0 {
        assert(view.query =~= Seq::<char>::empty());
    }
}

/// The row of a model is the first that shows it.
pub proof fn lemma_rows_of_models(
    models: Seq<ModelView>,
    visible: Seq<usize>,
    key: ModelKeyView,
    from: int,
    row: int,
)
    requires
        0 <= from <= row < visible.len(),
        visible[row] < models.len(),
        key_of(models[visible[row] as int]) == key,
        forall|k: int|
            from <= k < row ==> (#[trigger] visible[k]) >= models.len() || key_of(
                models[visible[k] as int],
            ) != key,
    ensures
        model_picker::row_from(models, visible, key, from) == Some(row),
    decreases row - from,
{
    if from < row {
        assert(visible[from] >= models.len() || key_of(models[visible[from] as int]) != key);
        lemma_rows_of_models(models, visible, key, from + 1, row);
    }
}

/// The first nine rows have a digit each, but for the one that is selected.
pub proof fn lemma_digits_of_rows(row: usize, selected: bool)
    ensures
        shortcut_at(row, selected) is Some <==> row < 9 && !selected,
        shortcut_at(row, selected) matches Some(digit) ==> digit == row + 1,
{
}

/// The model picker takes over a selection that is reported anew, and keeps its own as
/// long as the same one is reported and its model is there.
pub proof fn lemma_the_model_picker_follows(
    view: PickerView,
    models: Seq<ModelView>,
    selected: Option<ModelKeyView>,
    language: Language,
    i: int,
)
    ensures
        ({
            let after = picker_synced(view, models, selected, language);
            &&& after.models == models && after.language == language && after.synced
                && after.reported == selected && after.open == view.open && after.query
                == view.query
            &&& !view.synced || view.reported != selected ==> after.selected == selected
            &&& view.synced && view.reported == selected && view.models == models
                ==> after.selected == view.selected
            &&& view.synced && view.reported == selected && 0 <= i < models.len() && view.selected
                == Some(key_of(models[i])) ==> after.selected == view.selected
            &&& view.synced && view.reported == selected && view.selected is Some && view.models
                != models && (forall|k: int|
                0 <= k < models.len() ==> Some(key_of(#[trigger] models[k])) != view.selected)
                ==> after.selected == selected
            &&& view.models != models ==> after.visible == found(models, view.query)
        }),
{
    if 0 <= i < models.len() && view.selected == Some(key_of(models[i])) {
        assert(model_picker::offers(models, view.selected->0));
    }
}

/// Models are grouped by the name of their provider, and a group holds all of that
/// provider's models, each by its own key.
pub proof fn lemma_models_are_grouped(models: Seq<ModelView>, groups: Seq<GroupView>, g: int, model: ModelView)
    requires
        are_groups(models, groups),
        0 <= g < groups.len(),
    ensures
        models.contains(model) && model.provider_name == groups[g].title ==> groups[g].items.contains(
            item_of(model),
        ),
        item_of(model).model == model,
        item_of(model).key == key_of(model),
{
    let f = |model: ModelView| model.provider_name == groups[g].title;
    let h = |model: ModelView| item_of(model);
    let kept = models.filter(f);
    models.filter_lemma(f);
    if models.contains(model) && f(model) {
        let i = choose|i: int| 0 <= i < models.len() && models[i] == model;
        assert(f(models[i]));
        assert(kept.contains(models[i]));
        let k = choose|k: int| 0 <= k < kept.len() && kept[k] == model;
        assert(groups[g].items == items_of(models, groups[g].title));
        assert(groups[g].items[k] == item_of(model));
    }
}

/// The controls show the model that was asked for until it is in use, and tell why
/// there are no models.
pub proof fn lemma_controls_show_the_model(state: AppState, status: StatusView, error: Seq<char>)
    ensures
        state.pending_model matches Some(model) ==> shown_model(state) == Some(key_of(model@)),
        state.pending_model is None && state.current_model is Some ==> shown_model(state) == Some(
            key_of(state.current_model->0@),
        ),
        state.pending_model is None && state.current_model is None ==> shown_model(state) is None,
        status == StatusView::Failed(error) ==> note_text(status) == "No models available: "@
            + error,
        !(status is Failed) ==> note_text(status) == "No models available"@,
        level_key(AgentPermissionLevel::ReadOnly) == "permission-read-only"@,
        level_key(AgentPermissionLevel::Controlled) == "permission-controlled"@,
        level_key(AgentPermissionLevel::Full) == "permission-full"@,
        source_text(Language::SimplifiedChinese) == "由另一 agent 发起的任务"@,
        source_text(Language::English) == "Task started by another agent"@,
{
}

/// What waits to be sent is shown with how much of it there is, steering before
/// follow-ups, and not at all where there is none.
pub proof fn lemma_what_waits_is_shown(status: QueueStatus)
    ensures
        status.steering > 0 ==> chips_of(status)[0] == ("queued"@, status.steering),
        status.follow_ups > 0 ==> chips_of(status).last() == ("follow-ups"@, status.follow_ups),
        chips_of(status).len() == (if status.steering > 0 {
            1int
        } else {
            0
        }) + (if status.follow_ups > 0 {
            1int
        } else {
            0
        }),
{
}

/// What is typed is sent as it is, with everything that is attached, and leaves the
/// composer empty; to an agent at work it is sent as steering. Where there is nothing
/// to send, nothing is sent and nothing is lost.
pub proof fn lemma_prompts_are_sent(
    before: PromptView,
    typed: Seq<char>,
    after: PromptView,
    content: String,
    attachments: Vec<crate::domain::Attachment>,
    mode: SubmitMode,
)
    ensures
        is_blank(typed) && before.draft.attachments.len() == 0 && is_submission(
            before,
            typed,
            after,
            None,
        ) ==> after.draft.text == typed && after.draft.attachments == before.draft.attachments,
        !is_blank(typed) || before.draft.attachments.len() > 0 ==> !is_submission(
            before,
            typed,
            after,
            None,
        ),
        is_submission(
            before,
            typed,
            after,
            Some(crate::chat::composer::ComposerEvent::Submit { content, attachments, mode }),
        ) ==> {
            &&& !is_blank(typed) || before.draft.attachments.len() > 0
            &&& content@ == typed
            &&& views(attachments@) == before.draft.attachments
            &&& mode == SubmitMode::Steer <==> before.busy
            &&& mode == SubmitMode::Prompt <==> !before.busy
            &&& after.draft.text.len() == 0
            &&& after.draft.attachments.len() == 0
            &&& after.draft.search == before.draft.search
        },
{
    lemma_trim_blank(typed);
}

/// A text that is pasted is long where it has more than a thousand characters or more
/// than ten lines.
pub proof fn lemma_long_texts(text: Seq<char>)
    ensures
        is_long(text) <==> text.len() > 1000 || crate::session::line_count(text) > 10,
{
}

/// All the paths on the clipboard are taken, in their order, and the last image.
pub proof fn lemma_clipboards_are_read(entries: Seq<ClipboardEntry>)
    requires
        entries.len() > 0,
    ensures
        ({
            let n = entries.len();
            let less = (n - 1) as nat;
            &&& entries.last() matches ClipboardEntry::Paths(paths) ==> paths_in(entries, n)
                == paths_in(entries, less) + views(paths@)
            &&& !(entries.last() is Paths) ==> paths_in(entries, n) == paths_in(entries, less)
            &&& entries.last() matches ClipboardEntry::Image { extension, bytes } ==> image_in(
                entries,
                n,
            ) == Some((extension@, bytes@))
            &&& !(entries.last() is Image) ==> image_in(entries, n) == image_in(entries, less)
            &&& paths_in(entries, 0).len() == 0
            &&& image_in(entries, 0) is None
        }),
{
    let n = entries.len();
    if !(entries.last() is Paths) {
        assert(paths_in(entries, n) =~= paths_in(entries, (n - 1) as nat));
    }
}

/// The menu of a project shows or removes it; that of a session renames, clones, copies
/// or deletes it. Each entry is about the row that it belongs to.
pub proof fn lemma_menus_of_rows(row: RowView)
    ensures
        row matches RowView::Project { id, .. } ==> {
            &&& menu_of(row).len() == 2
            &&& menu_of(row)[0] == ("show-finder"@, SidebarEventView::RevealProject(id))
            &&& menu_of(row)[1] == ("remove"@, SidebarEventView::RemoveProject(id))
        },
        row matches RowView::Session { id, pi_path, title, .. } ==> {
            &&& menu_of(row).len() == 4
            &&& menu_of(row)[0] == (
                "rename"@,
                SidebarEventView::RenameSession { pi_path, title },
            )
            &&& menu_of(row)[1] == ("clone"@, SidebarEventView::CloneSession)
            &&& menu_of(row)[2] == ("copy-session-id"@, SidebarEventView::CopySessionId(id))
            &&& menu_of(row)[3] == ("delete"@, SidebarEventView::DeleteSession(pi_path))
        },
        row matches RowView::Project { id, .. } ==> sidebar::key_of(row) == "project:"@
            + hyphenated(id),
        row matches RowView::Session { pi_path, .. } ==> sidebar::key_of(row) == "session:"@
            + pi_path,
{
}

/// A search keeps the rows that it finds by name or title, the sessions of a project
/// that it finds, and the project of a session that it finds; a blank one keeps all
/// where its small letters are none.
pub proof fn lemma_rows_are_searched(rows: Seq<RowView>, typed: Seq<char>, row: RowView, k: int)
    ensures
        ({
            let query = lowercase(trim(typed));
            let kept = found_rows(rows, typed);
            &&& query.len() == 0 ==> kept == rows
            &&& kept.contains(row) ==> rows.contains(row)
            &&& query.len() > 0 && rows.contains(row) && row_mentions(row, query) ==> kept.contains(
                row,
            )
            &&& query.len() > 0 && row is Session && rows.contains(row) && 0 <= k < rows.len()
                && rows[k] is Project && rows[k].project() == row.project() && row_mentions(
                rows[k],
                query,
            ) ==> kept.contains(row)
            &&& query.len() > 0 && row is Project && rows.contains(row) && 0 <= k < rows.len()
                && rows[k] is Session && rows[k].project() == row.project() && row_mentions(
                rows[k],
                query,
            ) ==> kept.contains(row)
            &&& query.len() > 0 && (forall|j: int|
                0 <= j < rows.len() && (#[trigger] rows[j]).project() == row.project()
                    ==> !row_mentions(rows[j], query)) ==> !kept.contains(row)
        }),
        row matches RowView::Project { name, .. } ==> forall|query: Seq<char>| #[trigger]
            row_mentions(row, query) <==> occurs(lowercase(name), query),
        row matches RowView::Session { title, .. } ==> forall|query: Seq<char>| #[trigger]
            row_mentions(row, query) <==> occurs(lowercase(title), query),
{
    let query = lowercase(trim(typed));
    let f = |row: RowView| is_kept(rows, row, query);
    let kept = rows.filter(f);
    rows.filter_lemma(f);
    if query.len() > 0 {
        if kept.contains(row) {
            let i = choose|i: int| 0 <= i < kept.len() && kept[i] == row;
            assert(f(kept[i]));
            rows.lemma_filter_contains_rev(f, row);
            let at = choose|at: int| 0 <= at < rows.len() && rows[at] == row;
            assert(rows[at].project() == row.project());
        }
        if rows.contains(row) {
            let at = choose|at: int| 0 <= at < rows.len() && rows[at] == row;
            if row_mentions(row, query) {
                assert(sidebar::mentions_for(rows[at], row.project(), query, row is Project));
                assert(f(rows[at]));
                assert(kept.contains(rows[at]));
            }
            if 0 <= k < rows.len() && rows[k].project() == row.project() && row_mentions(
                rows[k],
                query,
            ) && (rows[k] is Project <==> row is Session) {
                assert(sidebar::mentions_for(rows[k], row.project(), query, rows[k] is Project));
                assert(f(rows[at]));
                assert(kept.contains(rows[at]));
            }
        }
    }
}

/// The sidebar shows its rows as long as nothing is typed, and what is found otherwise;
/// where it shows nothing it says whether there is nothing or nothing was found.
pub proof fn lemma_the_sidebar_shows(
    default_rows: Seq<RowView>,
    search_rows: Seq<RowView>,
    typed: Seq<char>,
    i: int,
)
    ensures
        is_blank(typed) ==> shown_rows(default_rows, search_rows, typed) == default_rows,
        !is_blank(typed) ==> shown_rows(default_rows, search_rows, typed) == found_rows(
            search_rows,
            typed,
        ),
        0 <= i < search_rows.len() && search_rows[i] is Project ==> note_key(search_rows)
            == "no-search-results"@,
        (forall|k: int| 0 <= k < search_rows.len() ==> !((#[trigger] search_rows[k]) is Project))
            ==> note_key(search_rows) == "empty-projects"@,
{
}

/// A row is under the pointer once the pointer is on it, and no longer once it has left;
/// leaving a row does not leave another.
pub proof fn lemma_rows_under_the_pointer(view: SidebarView, key: Seq<char>)
    requires
        sidebar::knows_key(view, key),
    ensures
        hovered_view(view, key, true).hovered == Some(key),
        view.hovered == Some(key) ==> hovered_view(view, key, false).hovered is None,
        view.hovered != Some(key) ==> hovered_view(view, key, false).hovered == view.hovered,
        hovered_view(view, key, true).epoch == epoch_after(view.epoch),
        view.epoch < u64::MAX ==> epoch_after(view.epoch) == view.epoch + 1,
{
}

/// Groups of models stand in the order of their titles, each once, and hold models of
/// that provider alone.
pub proof fn lemma_groups_are_ordered(
    models: Seq<ModelView>,
    groups: Seq<GroupView>,
    g: int,
    h: int,
    i: int,
)
    requires
        are_groups(models, groups),
        0 <= g < h < groups.len(),
        0 <= i < groups[g].items.len(),
    ensures
        comes_before(groups[g].title, groups[h].title),
        groups[g].items[i].model.provider_name == groups[g].title,
        models.contains(groups[g].items[i].model),
{
    let titles = groups.map_values(|group: GroupView| group.title);
    assert(titles[g] == groups[g].title && titles[h] == groups[h].title);
    let title = groups[g].title;
    let f = |model: ModelView| model.provider_name == title;
    let kept = models.filter(f);
    models.filter_lemma(f);
    assert(groups[g].items == items_of(models, title));
    assert(groups[g].items[i] == item_of(kept[i]));
    assert(f(kept[i]));
    assert(kept.contains(kept[i]));
    models.lemma_filter_contains_rev(f, kept[i]);
}

/// Every provider of a model has a group, and no group is without a model.
pub proof fn lemma_groups_are_complete(models: Seq<ModelView>, groups: Seq<GroupView>, i: int, g: int)
    requires
        are_groups(models, groups),
    ensures
        0 <= i < models.len() ==> exists|k: int|
            0 <= k < groups.len() && (#[trigger] groups[k]).title == models[i].provider_name,
        0 <= g < groups.len() ==> exists|k: int|
            0 <= k < models.len() && (#[trigger] models[k]).provider_name == groups[g].title,
{
    let titles = groups.map_values(|group: GroupView| group.title);
    if 0 <= i < models.len() {
        assert(has_provider(models, models[i].provider_name));
        assert(titles.contains(models[i].provider_name));
        let k = choose|k: int| 0 <= k < titles.len() && titles[k] == models[i].provider_name;
        assert(groups[k].title == models[i].provider_name);
    }
    if 0 <= g < groups.len() {
        assert(titles[g] == groups[g].title);
        assert(titles.contains(groups[g].title));
        assert(has_provider(models, groups[g].title));
    }
}

/// The controls show the state that they are given.
pub proof fn lemma_what_the_controls_show(controls: Controls, state: AppState)
    requires
        shows(controls, state),
    ensures
        controls.visible <==> state.selected_project is Some,
        controls.status@ == state.session_status@,
        controls.permission == state.agent_team_config.default_level,
        controls.language == state.language,
        views(controls.models@) == views(state.available_models@),
        controls.thinking_level == state.thinking_level,
        controls.thinking_levels@ == state.available_thinking_levels@,
        state.pending_model matches Some(model) ==> (controls.selected_model matches Some(key)
            && key@ == key_of(model@)),
{
}

} // verus!
