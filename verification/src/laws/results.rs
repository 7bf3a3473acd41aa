//! What the results of operations come to, where a contract relates them to what they
//! were made from.

use vstd::prelude::*;

use crate::changes::{ChangeSet, CommitContext, StateTopic};
use crate::chat::composer::{holds_long_text, is_long};
use crate::chat::conversation::{
    are_words, is_event_label, is_list_change, is_position, Canvas, CanvasWords, EventView,
    ListChange,
};
use crate::chat::model_picker::{is_selected_name, key_of, PickerView};
use crate::chat::paste::{is_decided, is_meaning, Clipboard, Paste};
use crate::chat::queue_status::is_chip;
use crate::chat::rows::RowView;
use crate::chat::sidebar::{is_element, ElementView, SidebarEventView};
use crate::chrome::icons::IconName;
use crate::chrome::status_pill::{is_pill, Hue, Pill};
use crate::commands::{envelope_text, is_bounded_cut, CommandSource};
use crate::composer::{detached, is_attached};
use crate::dialogs::{LabelView, PromptView, Tone};
use crate::domain::{
    is_initial, Action, ActionView, AgentPermissionLevel, AppState, AttachmentView, ItemView,
    Language, ProviderView, SearchEngineKind, SearchEngineView, SessionStatus, StatusView,
    ThinkingLevel,
};
use crate::events::{compaction_details_text, compaction_members};
use crate::ids::hyphenated;
use crate::json::{lookup, pretty, signed_of, unsigned_of, JsonView};
use crate::launch::{is_configuration, PiConfiguration};
use crate::laws::chat::lemma_changed_entries_are_measured;
use crate::laws::protocol::{is_told, lemma_kept_from, lemma_kept_item, lemma_parts_are_joined};
use crate::notice::Level;
use crate::protocol::{descendants_sections, team_report};
use crate::providers::{
    engine_keys, found_keys, key_environment, keyed_engines, keyed_profiles, models_config,
    provider_environment,
};
use crate::shell::notices::{Notification, NotificationType};
use crate::shell::prompts::{is_button, is_card, is_reset, ButtonVariant, FieldReset, PromptCard};
use crate::state::{describes, leads_to};
use crate::strings::reads;
use crate::text::{
    byte_len, comes_before, decimal, first_chars, is_blank, is_white_space,
    lemma_decimal_is_read_back, lemma_trim_blank, trim, value_of,
};
use crate::typewriter::{
    advanced, are_paced, backlog_of, first_graphemes, grapheme_count, leads_on, moved, progress_of,
    some_revealed, step_reveals, Progress, Step,
};
use crate::views::{keep_map, views};

verus! {

/// Files on the clipboard are attached whatever else is there, an image is attached
/// whatever text came with it, and a text is attached where it is long and typed
/// otherwise.
pub proof fn lemma_what_a_paste_means(clipboard: Clipboard, long: bool, r: Paste)
    requires
        is_meaning(clipboard, long, r),
    ensures
        clipboard.paths@.len() > 0 ==> r == Paste::Files(clipboard.paths),
        clipboard.paths@.len() == 0 && clipboard.image is Some ==> (r matches Paste::Image {
            extension,
            bytes,
        } && clipboard.image == Some((extension, bytes))),
        clipboard.paths@.len() == 0 && clipboard.image is None && clipboard.text is Some && long
            ==> r == Paste::LongText(clipboard.text->0),
        clipboard.paths@.len() == 0 && clipboard.image is None && (clipboard.text is None || !long)
            ==> r == Paste::Insert,
{
}

/// A list of rows stays where nothing changed, grows by what was added, with the rows
/// that changed measured again, and starts anew where entries went away.
pub proof fn lemma_how_lists_change(
    before: Seq<ItemView>,
    after: Seq<ItemView>,
    change: ListChange,
    i: usize,
)
    requires
        is_list_change(before, after, change),
        before.len() <= usize::MAX,
        after.len() <= usize::MAX,
    ensures
        change is Unchanged <==> before == after,
        change matches ListChange::Reset(count) ==> count == after.len() && after.len()
            < before.len(),
        change matches ListChange::Grown { previous, added, remeasured } ==> {
            &&& previous == before.len()
            &&& previous + added == after.len()
            &&& remeasured@.contains(i) <==> i < before.len() && before[i as int] != after[i as int]
        },
{
    lemma_changed_entries_are_measured(before, after, i);
}

/// An entry is found where it first stands, and not found only where it is nowhere.
pub proof fn lemma_where_entries_stand(
    messages: Seq<ItemView>,
    id: Seq<char>,
    at: Option<usize>,
    k: int,
)
    requires
        is_position(messages, id, at),
        0 <= k < messages.len(),
    ensures
        at matches Some(i) ==> messages[i as int].id == id && (messages[k].id == id ==> i <= k),
        at is None ==> messages[k].id != id,
{
}

/// A button of an entry reads its own words; the one on a tool's report has none.
pub proof fn lemma_what_buttons_say<F: Fn(&'static str, Language) -> &'static str>(
    label: Option<Seq<char>>,
    event: EventView,
    language: Language,
    table: F,
)
    requires
        is_event_label(label, event, language, table),
    ensures
        label is None <==> event is ToggleToolReport,
        event is ToggleToolDetails ==> reads(table, "raw-tool-details"@, language, label->0),
        event is ToggleThinking ==> reads(table, "thinking-process"@, language, label->0),
        event is RevealAll ==> reads(table, "show-all"@, language, label->0),
        event is ForkAt ==> reads(table, "fork-here"@, language, label->0),
        event is CopyAssistant ==> reads(table, "copy-report"@, language, label->0),
{
}

/// An empty canvas has a heading, and says the first step where it is shown; any other
/// says that a reply is on its way exactly where one is.
pub proof fn lemma_what_the_canvas_says<F: Fn(&'static str, Language) -> &'static str>(
    words: CanvasWords,
    canvas: Canvas,
    language: Language,
    table: F,
)
    requires
        are_words(words, canvas, language, table),
    ensures
        canvas matches Canvas::Empty { shows_first_step } ==> (words matches CanvasWords::Empty {
            heading,
            detail,
        } && reads(table, "empty-heading"@, language, heading@) && (detail is Some
            <==> shows_first_step) && (detail matches Some(step) ==> reads(
            table,
            "empty-detail"@,
            language,
            step@,
        ))),
        canvas matches Canvas::Entries { generating, .. } ==> (words matches CanvasWords::Entries {
            note,
        } && (note is Some <==> generating) && (note matches Some(text) ==> reads(
            table,
            "generating"@,
            language,
            text@,
        ))),
{
}

/// The selected model goes by its own name.
pub proof fn lemma_the_selected_name(view: PickerView, name: Option<Seq<char>>, i: int)
    requires
        is_selected_name(view, name),
        0 <= i < view.models.len(),
        view.selected == Some(key_of(view.models[i])),
        forall|k: int| 0 <= k < i ==> Some(key_of(#[trigger] view.models[k])) != view.selected,
    ensures
        name == Some(view.models[i].name),
{
    if name is Some {
        let j = choose|j: int|
            #![trigger view.models[j]]
            0 <= j < view.models.len() && view.selected == Some(key_of(view.models[j])) && name->0
                == view.models[j].name && forall|k: int|
                0 <= k < j ==> view.selected != Some(key_of(#[trigger] view.models[k]));
        if j < i {
            assert(Some(key_of(view.models[j])) != view.selected);
        }
        if i < j {
            assert(Some(key_of(view.models[i])) != view.selected);
        }
    } else {
        assert(view.selected != Some(key_of(view.models[i])));
    }
}

/// A condition is shown with the words, the colour and the sign of that condition.
pub proof fn lemma_what_pills_show<F: Fn(&'static str, Language) -> &'static str>(
    pill: Pill,
    status: StatusView,
    language: Language,
    table: F,
)
    requires
        is_pill(pill, status, language, table),
    ensures
        status is Failed ==> pill.dot == Hue::Error && pill.icon == Some(IconName::TriangleAlert)
            && reads(table, "status-failed"@, language, pill.label@),
        status is Ready ==> pill.dot == Hue::Success && pill.icon is None && reads(
            table,
            "status-ready"@,
            language,
            pill.label@,
        ),
        status is Offline ==> pill.dot == Hue::Muted && pill.icon is None && reads(
            table,
            "status-offline"@,
            language,
            pill.label@,
        ),
        status is Streaming ==> pill.dot == Hue::Accent && pill.icon == Some(
            IconName::LoaderCircle,
        ) && reads(table, "status-streaming"@, language, pill.label@),
        status is Compacting ==> pill.dot == Hue::Accent && pill.icon == Some(IconName::Minimize)
            && reads(table, "status-compacting"@, language, pill.label@),
        status is Starting ==> pill.dot == Hue::Warning && pill.icon == Some(
            IconName::LoaderCircle,
        ) && reads(table, "status-starting"@, language, pill.label@),
{
}

/// A question is shown with its title, its message unless it is empty, and a button for
/// each answer in its order, which gives that answer.
pub proof fn lemma_what_questions_show<F: Fn(&'static str, Language) -> &'static str>(
    card: PromptCard,
    prompt: PromptView,
    language: Language,
    table: F,
    text: Seq<char>,
    i: int,
)
    requires
        is_card(card, prompt, language, table),
    ensures
        prompt.title == LabelView::Verbatim(text) ==> card.title@ == text,
        prompt.title == LabelView::Key(text) ==> reads(table, text, language, card.title@),
        prompt.message == LabelView::Verbatim(text) && text.len() > 0 ==> (card.message
            matches Some(message) && message@ == text),
        prompt.message == LabelView::Verbatim(text) && text.len() == 0 ==> card.message is None,
        prompt.message == LabelView::Key(text) ==> (card.message matches Some(message) && reads(
            table,
            text,
            language,
            message@,
        )),
        card.buttons@.len() == prompt.choices.len(),
        0 <= i < prompt.choices.len() ==> {
            let button = card.buttons@[i]@;
            let choice = prompt.choices[i];
            &&& button.value == choice.value
            &&& choice.label == LabelView::Verbatim(text) ==> button.label == text
            &&& choice.label == LabelView::Key(text) ==> reads(table, text, language, button.label)
            &&& choice.tone == Tone::Primary ==> button.variant == ButtonVariant::Primary
            &&& choice.tone == Tone::Danger ==> button.variant == ButtonVariant::Danger
            &&& choice.tone == Tone::Neutral ==> button.variant == ButtonVariant::Default
        },
{
    let buttons = views(card.buttons@);
    if 0 <= i < prompt.choices.len() {
        assert(buttons[i] == card.buttons@[i]@);
        assert(is_button(buttons[i], prompt.choices[i], language, table));
    }
}

/// A field starts with what it is filled with, or empty, and takes the typing where the
/// question can be answered in other words.
pub proof fn lemma_how_fields_start<F: Fn(&'static str, Language) -> &'static str>(
    reset: FieldReset,
    custom: bool,
    placeholder: Option<Seq<char>>,
    prefill: Option<Seq<char>>,
    language: Language,
    table: F,
)
    requires
        is_reset(reset, custom, placeholder, prefill, language, table),
    ensures
        placeholder matches Some(text) ==> reset.placeholder@ == text,
        placeholder is None ==> reads(
            table,
            "prompt-custom-placeholder"@,
            language,
            reset.placeholder@,
        ),
        prefill matches Some(text) ==> reset.value@ == text,
        prefill is None ==> reset.value@ == ""@,
        reset.focuses == custom,
{
}

/// What waits is shown with its number behind its words.
pub proof fn lemma_what_chips_say<F: Fn(&'static str, Language) -> &'static str>(
    text: Seq<char>,
    chip: (Seq<char>, usize),
    language: Language,
    table: F,
) -> (words: Seq<char>)
    requires
        is_chip(text, chip, language, table),
    ensures
        reads(table, chip.0, language, words),
        text == words + " "@ + decimal(chip.1 as nat),
{
    choose|words: Seq<char>| #[trigger]
        reads(table, chip.0, language, words) && text == words + " "@ + decimal(chip.1 as nat)
}

/// A row of the sidebar shows what it stands for: a project under its name, open or
/// closed, with a button for a new session of its own; a session under its title, set
/// in, which opens that session.
pub proof fn lemma_what_rows_show<F: Fn(&'static str, Language) -> &'static str>(
    element: ElementView,
    row: RowView,
    hovered: Option<Seq<char>>,
    language: Language,
    table: F,
)
    requires
        is_element(element, row, hovered, language, table),
    ensures
        row matches RowView::Project { id, name, expanded, running, selected } ==> {
            &&& element.key == "project:"@ + hyphenated(id)
            &&& element.label == name
            &&& !element.indented
            &&& expanded ==> element.leading == Some(IconName::ChevronDown) && element.icon
                == IconName::FolderOpen
            &&& !expanded ==> element.leading == Some(IconName::ChevronRight) && element.icon
                == IconName::Folder
            &&& element.running == running
            &&& element.selected == selected
            &&& element.new_session matches Some((project, _)) && project == id
            &&& element.click == SidebarEventView::OpenProject(id)
            &&& element.actions.len() == 2
            &&& element.actions[0].event == SidebarEventView::RevealProject(id)
            &&& element.actions[1].event == SidebarEventView::RemoveProject(id)
        },
        row matches RowView::Session { id, project_id, pi_path, title, running, selected } ==> {
            &&& element.key == "session:"@ + pi_path
            &&& element.label == title
            &&& element.indented
            &&& element.leading is None
            &&& element.icon == IconName::File
            &&& element.running == running
            &&& element.selected == selected
            &&& element.new_session is None
            &&& element.click == (SidebarEventView::OpenSession { project_id, pi_path })
            &&& element.actions.len() == 4
            &&& element.actions[0].event == (SidebarEventView::RenameSession { pi_path, title })
            &&& element.actions[1].event == SidebarEventView::CloneSession
            &&& element.actions[2].event == SidebarEventView::CopySessionId(id)
            &&& element.actions[3].event == SidebarEventView::DeleteSession(pi_path)
        },
        element.hovered <==> hovered == Some(element.key),
{
}

/// Pi is handed the providers that have a key, its lowered settings, the keys by name and
/// its directory. Without a key to hand over it is told why.
pub proof fn lemma_what_pi_is_handed(
    r: Result<PiConfiguration, String>,
    found: Result<(Seq<ProviderView>, Map<Seq<char>, Seq<char>>), Seq<char>>,
    agent_directory: Seq<char>,
    stored: Option<Seq<char>>,
    name: Seq<char>,
)
    requires
        is_configuration(r, found, agent_directory, stored),
    ensures
        r is Ok <==> found is Ok,
        r matches Err(error) ==> found == Err::<
            (Seq<ProviderView>, Map<Seq<char>, Seq<char>>),
            Seq<char>,
        >(error@),
        r matches Ok(configuration) ==> {
            let (profiles, environment) = found->Ok_0;
            &&& configuration.models_json@ == pretty(models_config(profiles))
            &&& configuration.settings_json@ == pretty(
                crate::launch::lowered_settings(crate::launch::stored_settings(stored)),
            )
            &&& configuration.environment@.contains_key("PI_CODING_AGENT_DIR"@)
            &&& configuration.environment@["PI_CODING_AGENT_DIR"@] == agent_directory
            &&& name != "PI_CODING_AGENT_DIR"@ ==> configuration.environment@.contains_key(name)
                == environment.contains_key(name) && configuration.environment@[name]
                == environment[name]
        },
{
}

/// A diagnostic is kept from its start, whole where it fits in five hundred and twelve
/// bytes and as far as it fits otherwise.
pub proof fn lemma_diagnostics_are_cut(s: Seq<char>, cut: Seq<char>)
    requires
        is_bounded_cut(s, cut),
    ensures
        cut.len() <= s.len(),
        cut == s.take(cut.len() as int),
        byte_len(cut) <= 512,
        cut.len() < s.len() ==> byte_len(s.take(cut.len() as int + 1)) > 512,
{
}

/// A command is described by its identity, where it came from and where it belongs, and
/// not by what it carries.
pub proof fn lemma_what_descriptions_say(id: u128, project: u128, key: Seq<char>, kind: Seq<char>)
    ensures
        envelope_text(id, CommandSource::Ui, None, None, kind) == "CommandEnvelope { command_id: "@
            + hyphenated(id) + (", source: "@ + "Ui"@ + ", project_id: "@) + "None"@
            + ", session_key: "@ + "None"@ + ", payload_type: "@ + (crate::commands::quoted(kind)
            + " }"@),
        envelope_text(id, CommandSource::HookReplay, Some(project), Some(key), kind)
            == "CommandEnvelope { command_id: "@ + hyphenated(id) + (", source: "@ + "HookReplay"@
            + ", project_id: "@) + ("Some("@ + hyphenated(project) + ")"@) + ", session_key: "@ + (
        "Some("@ + crate::commands::quoted(key) + ")"@) + ", payload_type: "@ + (
        crate::commands::quoted(kind) + " }"@),
{
}

/// A change tells its revision, where it came from, how much it did and what it touched.
pub proof fn lemma_what_changes_tell(
    change: ChangeSet,
    actions: Seq<ActionView>,
    context: CommitContext,
    revision: u64,
)
    requires
        describes(change, actions, context, revision),
    ensures
        change.revision@ == revision,
        change.scope == context.scope,
        change.source == context.source,
        change.coalesced == context.coalesced,
        change.action_count == actions.len(),
        change.changed_topics@ == crate::changes::batch_topics(actions),
{
}

proof fn lemma_lookup_adds(
    a: Seq<(Seq<char>, JsonView)>,
    b: Seq<(Seq<char>, JsonView)>,
    key: Seq<char>,
)
    ensures
        lookup(a + b, key) == if lookup(a, key) is Some {
            lookup(a, key)
        } else {
            lookup(b, key)
        },
    decreases a.len(),
{
    if a.len() == 0 {
        assert(a + b =~= b);
    } else {
        assert((a + b).drop_first() =~= a.drop_first() + b);
        lemma_lookup_adds(a.drop_first(), b, key);
    }
}

proof fn lemma_member_lookup(payload: JsonView, name: Seq<char>, key: Seq<char>)
    ensures
        lookup(crate::events::member(payload, name), key) == if name == key {
            payload.field(name)
        } else {
            None
        },
{
    reveal_with_fuel(lookup, 2);
}

/// What a compaction recorded is kept: its figures, where it starts, its details, its
/// usage and whether a hook asked for it. The summary, and anything else, is not.
pub proof fn lemma_what_compactions_record(payload: JsonView, key: Seq<char>)
    ensures
        ({
            let kept = key == "tokensBefore"@ || key == "estimatedTokensAfter"@ || key
                == "firstKeptEntryId"@ || key == "details"@ || key == "usage"@ || key
                == "fromHook"@;
            let record = JsonView::Object(compaction_members(payload));
            &&& kept ==> record.field(key) == payload.field(key)
            &&& !kept ==> record.field(key) is None
            &&& kept && payload.field(key) is Some ==> compaction_details_text(payload) == Some(
                pretty(record),
            )
        }),
        payload.field("tokensBefore"@) is None && payload.field("estimatedTokensAfter"@) is None
            && payload.field("firstKeptEntryId"@) is None && payload.field("details"@) is None
            && payload.field("usage"@) is None && payload.field("fromHook"@) is None
            ==> compaction_details_text(payload) is None,
{
    let a = crate::events::member(payload, "tokensBefore"@);
    let b = crate::events::member(payload, "estimatedTokensAfter"@);
    let c = crate::events::member(payload, "firstKeptEntryId"@);
    let d = crate::events::member(payload, "details"@);
    let e = crate::events::member(payload, "usage"@);
    let f = crate::events::member(payload, "fromHook"@);
    lemma_member_lookup(payload, "tokensBefore"@, key);
    lemma_member_lookup(payload, "estimatedTokensAfter"@, key);
    lemma_member_lookup(payload, "firstKeptEntryId"@, key);
    lemma_member_lookup(payload, "details"@, key);
    lemma_member_lookup(payload, "usage"@, key);
    lemma_member_lookup(payload, "fromHook"@, key);
    lemma_lookup_adds(a + b + c + d + e, f, key);
    lemma_lookup_adds(a + b + c + d, e, key);
    lemma_lookup_adds(a + b + c, d, key);
    lemma_lookup_adds(a + b, c, key);
    lemma_lookup_adds(a, b, key);
    reveal_strlit("tokensBefore");
    reveal_strlit("estimatedTokensAfter");
    reveal_strlit("firstKeptEntryId");
    reveal_strlit("details");
    reveal_strlit("usage");
    reveal_strlit("fromHook");
    assert("tokensBefore"@.len() == 12 && "estimatedTokensAfter"@.len() == 20
        && "firstKeptEntryId"@.len() == 16 && "details"@.len() == 7 && "usage"@.len() == 5
        && "fromHook"@.len() == 8);
    let all = compaction_members(payload);
    assert(all == a + b + c + d + e + f);
    if lookup(all, key) is Some {
        assert(all.len() > 0);
    }
}

/// Only engines that answer to a key are asked about, all of them, in their order.
pub proof fn lemma_which_engines_are_asked_about(profiles: Seq<SearchEngineView>, i: int, k: int)
    ensures
        0 <= i < profiles.len() && profiles[i].kind == SearchEngineKind::DoubaoGlobal
            ==> keyed_engines(profiles).contains(profiles[i].id),
        0 <= k < keyed_engines(profiles).len() ==> exists|e: int|
            0 <= e < profiles.len() && (#[trigger] profiles[e]).kind
                == SearchEngineKind::DoubaoGlobal && profiles[e].id == keyed_engines(profiles)[k],
{
    let f = |profile: SearchEngineView|
        if profile.kind.needs_key() {
            Some(profile.id)
        } else {
            None
        };
    let kept = keep_map(profiles, f);
    assert(kept == keyed_engines(profiles));
    if 0 <= i < profiles.len() && profiles[i].kind == SearchEngineKind::DoubaoGlobal {
        lemma_kept_item(profiles, f, i);
        let n = choose|n: int| 0 <= n < kept.len() && #[trigger] kept[n] == f(profiles[i])->0;
        assert(kept[n] == profiles[i].id);
    }
    if 0 <= k < kept.len() {
        lemma_kept_from(profiles, f, k);
        let e = choose|e: int| 0 <= e < profiles.len() && #[trigger] f(profiles[e]) == Some(kept[k]);
        assert(profiles[e].kind == SearchEngineKind::DoubaoGlobal);
    }
}

/// A failure to read a key is the answer; where none failed, the keys are. Providers
/// none of which has a key are a failure too.
pub proof fn lemma_what_keys_come_to(
    ids: Seq<u128>,
    profiles: Seq<ProviderView>,
    answers: Seq<Result<Option<Seq<char>>, Seq<char>>>,
    error: Seq<char>,
)
    ensures
        answers.len() > 0 && answers.last() == Err::<Option<Seq<char>>, Seq<char>>(error) ==> {
            &&& engine_keys(ids, answers) == Err::<Map<u128, Seq<char>>, Seq<char>>(error)
            &&& provider_environment(profiles, answers) == Err::<
                (Seq<ProviderView>, Map<Seq<char>, Seq<char>>),
                Seq<char>,
            >(error)
        },
        answers.len() == 0 || answers.last() is Ok ==> {
            &&& engine_keys(ids, answers) == Ok::<Map<u128, Seq<char>>, Seq<char>>(
                found_keys(ids, answers),
            )
            &&& keyed_profiles(profiles, answers).len() > 0 || profiles.len() == 0
                ==> provider_environment(profiles, answers) == Ok::<
                (Seq<ProviderView>, Map<Seq<char>, Seq<char>>),
                Seq<char>,
            >((keyed_profiles(profiles, answers), key_environment(profiles, answers)))
            &&& keyed_profiles(profiles, answers).len() == 0 && profiles.len() > 0
                ==> provider_environment(profiles, answers) == Err::<
                (Seq<ProviderView>, Map<Seq<char>, Seq<char>>),
                Seq<char>,
            >(
                "No configured provider has an API key in Keychain. Open Settings > Providers, select a provider, and save its API key."@,
            )
        },
{
}

proof fn lemma_descendants(descendants: Seq<JsonView>, i: int, section: Seq<char>)
    requires
        0 <= i < descendants.len(),
        crate::protocol::descendant_sections(descendants[i]).contains(section),
    ensures
        descendants_sections(descendants).contains(section),
    decreases descendants.len(),
{
    let all = descendants_sections(descendants);
    let less = descendants_sections(descendants.drop_last());
    let last = crate::protocol::descendant_sections(descendants.last());
    if i == descendants.len() - 1 {
        let k = choose|k: int| 0 <= k < last.len() && last[k] == section;
        assert(all[less.len() + k] == section);
    } else {
        lemma_descendants(descendants.drop_last(), i, section);
        let k = choose|k: int| 0 <= k < less.len() && less[k] == section;
        assert(all[k] == section);
    }
}

/// What the agents further down returned, and what went wrong with them, stands in the
/// report on waiting, under their names.
pub proof fn lemma_wait_reports_the_others(
    result: JsonView,
    agent: JsonView,
    name: Seq<char>,
    status: Seq<char>,
    descendants: Seq<JsonView>,
    i: int,
    who: JsonView,
    other: Seq<char>,
    outcome: JsonView,
    text: Seq<char>,
)
    requires
        result.field("agent"@) == Some(agent),
        agent.text_at("name"@) == Some(name),
        result.text_at("wait_status"@) == Some(status),
        result.items_at("descendants"@) == Some(descendants),
        0 <= i < descendants.len(),
        descendants[i].field("agent"@) == Some(who),
        who.text_at("name"@) == Some(other),
        descendants[i].field("outcome"@) == Some(outcome),
        !is_blank(text),
    ensures
        outcome.text_at("output"@) == Some(text) ==> is_told(
            team_report("wait_agent"@, result, None),
            other + " returned:\n"@ + trim(text),
        ),
        outcome.text_at("error"@) == Some(text) ==> is_told(
            team_report("wait_agent"@, result, None),
            other + " error:\n"@ + trim(text),
        ),
{
    lemma_trim_blank(text);
    crate::laws::protocol::lemma_wait_reports_begin(result, agent, name, status, None);
    crate::laws::protocol::lemma_tool_names();
    let all = crate::protocol::wait_sections(result, name, status);
    let below = descendants_sections(descendants);
    let head = all.len() - below.len();
    let here = crate::protocol::descendant_sections(descendants[i]);
    let output = crate::protocol::labelled(outcome.text_at("output"@), other + " returned:\n"@);
    let error = crate::protocol::labelled(outcome.text_at("error"@), other + " error:\n"@);
    assert(here == output + error);
    if outcome.text_at("output"@) == Some(text) {
        let section = other + " returned:\n"@ + trim(text);
        assert(output == seq![section]);
        assert(here[0] == section);
        lemma_descendants(descendants, i, section);
        let k = choose|k: int| 0 <= k < below.len() && below[k] == section;
        assert(all[head + k] == section);
        lemma_parts_are_joined(all, "\n\n"@, head + k);
    }
    if outcome.text_at("error"@) == Some(text) {
        let section = other + " error:\n"@ + trim(text);
        assert(error == seq![section]);
        assert(here[output.len() as int] == section);
        lemma_descendants(descendants, i, section);
        let k = choose|k: int| 0 <= k < below.len() && below[k] == section;
        assert(all[head + k] == section);
        lemma_parts_are_joined(all, "\n\n"@, head + k);
    }
}

proof fn lemma_values_agree(s: Seq<char>)
    requires
        forall|i: int| 0 <= i < s.len() ==> '0' <= #[trigger] s[i] <= '9',
    ensures
        crate::json::digits_value(s) == value_of(s),
    decreases s.len(),
{
    if s.len() > 0 {
        let front = s.drop_last();
        assert(forall|i: int| 0 <= i < front.len() ==> #[trigger] front[i] == s[i]);
        assert('0' <= s[s.len() - 1] <= '9');
        lemma_values_agree(front);
    }
}

/// Whole numbers are read as they are written, with or without a sign, where they fit,
/// and what is no number is not read.
pub proof fn lemma_numbers_are_read(n: u64, m: i64)
    ensures
        unsigned_of(decimal(n as nat)) == Some(n),
        m >= 0 ==> signed_of(decimal(m as nat)) == Some(m),
        m < 0 ==> signed_of(seq!['-'] + decimal((-m) as nat)) == Some(m),
        unsigned_of(seq!['-'] + decimal(n as nat)) is None,
        unsigned_of(Seq::empty()) is None,
        signed_of(Seq::empty()) is None,
{
    lemma_decimal_is_read_back(n as nat);
    lemma_values_agree(decimal(n as nat));
    assert((seq!['-'] + decimal(n as nat))[0] == '-');
    if m >= 0 {
        lemma_decimal_is_read_back(m as nat);
        lemma_values_agree(decimal(m as nat));
        assert('0' <= decimal(m as nat)[0]);
    } else {
        lemma_decimal_is_read_back((-m) as nat);
        lemma_values_agree(decimal((-m) as nat));
        assert((seq!['-'] + decimal((-m) as nat)).skip(1) =~= decimal((-m) as nat));
    }
}

/// A text that is revealed in part is shown from its start; more of it is revealed as
/// long as it holds more than what is revealed.
pub proof fn lemma_how_texts_are_revealed(
    progress: Map<Seq<char>, Progress>,
    message: ItemView,
    step: Step,
    n: nat,
)
    ensures
        n >= grapheme_count(message.full_text) ==> first_graphemes(message.full_text, n)
            == message.full_text,
        progress.contains_key(message.id) && progress[message.id].revealed <= grapheme_count(
            message.full_text,
        ) ==> backlog_of(progress, message) + progress[message.id].revealed == grapheme_count(
            message.full_text,
        ),
        !progress.contains_key(message.id) ==> backlog_of(progress, message) == grapheme_count(
            message.full_text,
        ),
        step_reveals(progress, message, step) <==> message.streaming && step.clusters > 0
            && backlog_of(progress, message) > 0,
{
}

/// The order of texts is that of their first characters that differ; a text comes
/// before what it is the start of.
pub proof fn lemma_order_of_texts(start: Seq<char>, a: char, b: char, rest: Seq<char>, other: Seq<char>)
    ensures
        a < b ==> comes_before(start.push(a) + rest, start.push(b) + other),
        comes_before(start, start.push(a) + rest),
        !comes_before(start, start),
    decreases start.len(),
{
    let x = start.push(a) + rest;
    let y = start.push(b) + other;
    if start.len() == 0 {
        assert(x[0] == a && y[0] == b);
    } else {
        lemma_order_of_texts(start.drop_first(), a, b, rest, other);
        assert(x[0] == start[0] && y[0] == start[0]);
        assert(x.drop_first() =~= start.drop_first().push(a) + rest);
        assert(y.drop_first() =~= start.drop_first().push(b) + other);
    }
}

/// The first characters of a text are a start of it, as long as asked for where it is
/// that long.
pub proof fn lemma_first_characters(s: Seq<char>, n: nat)
    ensures
        s.len() <= n ==> first_chars(s, n) == s,
        s.len() > n ==> first_chars(s, n).len() == n && first_chars(s, n) == s.take(n as int),
{
}

/// A file is attached where something with its path is; once detached it is not, and
/// everything else still is.
pub proof fn lemma_what_is_attached(
    attachments: Seq<AttachmentView>,
    path: Seq<char>,
    other: AttachmentView,
)
    ensures
        attachments.contains(other) ==> is_attached(attachments, other.path),
        !is_attached(detached(attachments, path), path),
        detached(attachments, path).contains(other) <==> attachments.contains(other) && other.path
            != path,
{
    let f = |a: AttachmentView| a.path != path;
    let kept = attachments.filter(f);
    attachments.filter_lemma(f);
    if attachments.contains(other) {
        let i = choose|i: int| 0 <= i < attachments.len() && attachments[i] == other;
        assert(attachments[i].path == other.path);
        if f(other) {
            assert(f(attachments[i]));
            assert(kept.contains(attachments[i]));
        }
    }
    if kept.contains(other) {
        let i = choose|i: int| 0 <= i < kept.len() && kept[i] == other;
        assert(f(kept[i]));
        attachments.lemma_filter_contains_rev(f, other);
    }
    if is_attached(kept, path) {
        let i = choose|i: int| 0 <= i < kept.len() && (#[trigger] kept[i]).path == path;
        assert(f(kept[i]));
    }
}

/// What happened is told in its own words, and a failure stays until it is read while
/// news goes by itself.
pub proof fn lemma_what_notices_show(r: Notification, level: Level, message: Seq<char>)
    requires
        crate::shell::notices::shows(r, level, message),
    ensures
        r.message@ == message,
        level == Level::Error ==> r.kind == NotificationType::Error && !r.autohide,
        level == Level::Info ==> r.kind == NotificationType::Info && r.autohide,
{
}

/// The state that nothing was done to yet holds nothing, speaks English, and leaves new
/// agents under control.
pub proof fn lemma_how_states_start(state: AppState)
    requires
        is_initial(state),
    ensures
        state.projects@.len() == 0 && state.sessions@.len() == 0 && state.running_sessions@.len()
            == 0,
        state.selected_project is None && state.selected_session is None,
        state.conversation@.len() == 0,
        state.session_status == SessionStatus::Offline,
        state.session_metrics is None && state.current_model is None && state.pending_model is None,
        state.available_models@.len() == 0 && state.available_commands@.len() == 0,
        state.thinking_level == ThinkingLevel::Off && state.available_thinking_levels@.len() == 0,
        !state.auto_compaction_enabled,
        state.pending_steering@.len() == 0 && state.pending_follow_up@.len() == 0,
        state.language == Language::English,
        state.agent_team_config.default_level == AgentPermissionLevel::Controlled,
        state.provider_profiles@.len() == 0,
{
}

/// A batch does what its actions do, one after the other: none leaves the state alone,
/// and one more goes on from where the others led.
pub proof fn lemma_where_batches_lead<F: Fn(AppState, &Action) -> AppState>(
    dispatch: F,
    from: AppState,
    actions: Seq<Action>,
    to: AppState,
)
    ensures
        actions.len() == 0 ==> (leads_to(dispatch, from, actions, to) <==> to == from),
        actions.len() == 1 && leads_to(dispatch, from, actions, to) ==> call_ensures(
            dispatch,
            (from, &actions[0]),
            to,
        ),
        actions.len() > 0 && leads_to(dispatch, from, actions, to) ==> exists|mid: AppState|
            leads_to(dispatch, from, actions.drop_last(), mid) && #[trigger] call_ensures(
                dispatch,
                (mid, &actions[actions.len() - 1]),
                to,
            ),
{
    reveal_with_fuel(leads_to, 2);
    if actions.len() == 1 && leads_to(dispatch, from, actions, to) {
        let mid = choose|mid: AppState|
            leads_to(dispatch, from, actions.drop_last(), mid) && #[trigger] call_ensures(
                dispatch,
                (mid, &actions.last()),
                to,
            );
        assert(mid == from);
    }
}

/// Only an entry that streams moves on, by the step that it is given and no further than
/// its end; what is known of the others stays.
pub proof fn lemma_only_streams_move(
    progress: Map<Seq<char>, Progress>,
    message: ItemView,
    step: Step,
    other: Seq<char>,
)
    requires
        grapheme_count(message.full_text) <= usize::MAX,
    ensures
        ({
            let after = moved(progress, message, step);
            let total = grapheme_count(message.full_text);
            let held = if progress.contains_key(message.id) {
                progress[message.id].revealed as nat
            } else {
                0
            };
            &&& !message.streaming ==> after == progress
            &&& other != message.id ==> after.contains_key(other) == progress.contains_key(other)
                && after[other] == progress[other]
            &&& message.streaming ==> after.contains_key(message.id) && after[message.id].credit
                == step.credit
            &&& message.streaming && held + step.clusters <= total ==> after[message.id].revealed
                == held + step.clusters
            &&& message.streaming && held + step.clusters > total ==> after[message.id].revealed
                == total
        }),
{
}

/// Entries move on one after the other, each from where those before it left things, and
/// something is revealed where one of them reveals something.
pub proof fn lemma_streams_move_in_turn(
    progress: Map<Seq<char>, Progress>,
    messages: Seq<ItemView>,
    steps: Seq<Step>,
    n: nat,
)
    requires
        n < messages.len(),
        n < steps.len(),
    ensures
        advanced(progress, messages, steps, 0) == progress,
        advanced(progress, messages, steps, n + 1) == moved(
            advanced(progress, messages, steps, n),
            messages[n as int],
            steps[n as int],
        ),
        !some_revealed(progress, messages, steps, 0),
        some_revealed(progress, messages, steps, n + 1) <==> some_revealed(
            progress,
            messages,
            steps,
            n,
        ) || step_reveals(
            advanced(progress, messages, steps, n),
            messages[n as int],
            steps[n as int],
        ),
{
}

/// A reveal moves every entry on by what the pace gives it for what is left of it.
pub proof fn lemma_reveals_are_paced<F: Fn(u32, usize) -> Step>(
    pace: F,
    messages: Seq<ItemView>,
    before: Map<Seq<char>, Progress>,
    after: Map<Seq<char>, Progress>,
    revealed: bool,
) -> (steps: Seq<Step>)
    requires
        leads_on(pace, messages, before, after, revealed),
    ensures
        steps.len() == messages.len(),
        after == advanced(before, messages, steps, messages.len()),
        revealed == some_revealed(before, messages, steps, messages.len()),
        forall|i: int|
            0 <= i < messages.len() && messages[i].streaming ==> call_ensures(
                pace,
                (
                    progress_of(
                        advanced(before, messages, steps, i as nat),
                        messages[i].id,
                    ).credit,
                    backlog_of(advanced(before, messages, steps, i as nat), messages[i]) as usize,
                ),
                #[trigger] steps[i],
            ),
{
    choose|steps: Seq<Step>| #[trigger]
        are_paced(pace, before, messages, steps, messages.len()) && after == advanced(
            before,
            messages,
            steps,
            messages.len(),
        ) && revealed == some_revealed(before, messages, steps, messages.len())
}

/// The button for a new session says so.
pub proof fn lemma_new_sessions_are_offered<F: Fn(&'static str, Language) -> &'static str>(
    element: ElementView,
    row: RowView,
    hovered: Option<Seq<char>>,
    language: Language,
    table: F,
)
    requires
        is_element(element, row, hovered, language, table),
    ensures
        row is Project ==> (element.new_session matches Some((_, tooltip)) && reads(
            table,
            "new-session"@,
            language,
            tooltip,
        )),
        row is Project ==> reads(table, "show-finder"@, language, element.actions[0].label)
            && reads(table, "remove"@, language, element.actions[1].label),
        row is Session ==> reads(table, "rename"@, language, element.actions[0].label) && reads(
            table,
            "clone"@,
            language,
            element.actions[1].label,
        ) && reads(table, "copy-session-id"@, language, element.actions[2].label) && reads(
            table,
            "delete"@,
            language,
            element.actions[3].label,
        ),
{
}

/// The words of a table are those that the table gives for the key and the language.
pub proof fn lemma_words_come_from_the_table<F: Fn(&'static str, Language) -> &'static str>(
    table: F,
    key: &'static str,
    language: Language,
    words: &'static str,
)
    ensures
        call_ensures(table, (key, language), words) ==> reads(table, key@, language, words@),
        reads(table, key@, language, words@) ==> exists|k: &'static str, w: &'static str|
            k@ == key@ && w@ == words@ && #[trigger] call_ensures(table, (k, language), w),
{
}

/// A long text on the clipboard is one that is long; without a text there is none.
pub proof fn lemma_long_texts_on_the_clipboard(clipboard: Clipboard)
    ensures
        clipboard.text is None ==> !holds_long_text(clipboard),
        clipboard.text matches Some(text) ==> (holds_long_text(clipboard) <==> is_long(text@)),
{
}

/// White space is what Unicode calls so: the five controls from the tab on, the space,
/// and the wider, narrower and separating ones.
pub proof fn lemma_what_white_space_is(c: char)
    ensures
        is_white_space(c) <==> c == '\t' || c == '\n' || c == '\u{b}' || c == '\u{c}' || c == '\r'
            || c == ' ' || c == '\u{85}' || c == '\u{a0}' || c == '\u{1680}' || ('\u{2000}' <= c
            && c <= '\u{200a}') || c == '\u{2028}' || c == '\u{2029}' || c == '\u{202f}' || c
            == '\u{205f}' || c == '\u{3000}',
{
}

/// The parts of the state go by their names.
pub proof fn lemma_parts_are_named()
    ensures
        StateTopic::Projects.name() == "projects"@,
        StateTopic::Sessions.name() == "sessions"@,
        StateTopic::Selection.name() == "selection"@,
        StateTopic::Conversation.name() == "conversation"@,
        StateTopic::SessionRuntime.name() == "session_runtime"@,
        StateTopic::RuntimeControls.name() == "runtime_controls"@,
        StateTopic::Queue.name() == "queue"@,
        StateTopic::Preferences.name() == "preferences"@,
        StateTopic::Providers.name() == "providers"@,
        StateTopic::SearchEngines.name() == "search_engines"@,
        StateTopic::Hooks.name() == "hooks"@,
        StateTopic::AgentsMd.name() == "agents_md"@,
{
}

/// How long a text is decides on a paste exactly where there is a text, and neither a
/// file nor an image.
pub proof fn lemma_when_length_decides(clipboard: Clipboard, a: Paste, b: Paste)
    ensures
        is_decided(clipboard) <==> clipboard.paths@.len() > 0 || clipboard.image is Some
            || clipboard.text is None,
        is_decided(clipboard) && is_meaning(clipboard, true, a) && is_meaning(clipboard, false, b)
            ==> a == b,
        !is_decided(clipboard) && is_meaning(clipboard, true, a) && is_meaning(
            clipboard,
            false,
            b,
        ) ==> a is LongText && b is Insert,
{
}

} // verus!
