//! What holds of the conversation as it is shown.

use vstd::prelude::*;
use vstd::utf8::encode_utf8;

use crate::chat::conversation::{
    canvas_of, changed_of, event_key, is_renamed, is_shown, taken, with_expansion, Canvas,
    ConversationView, EventView,
};
use crate::chat::message_card::{
    block_of, blocks_of, card_of, closed_expansion, merged, BlockView, CardView, ExpansionView,
};
use crate::chat::rows::{all_rows, project_rows, sessions_of, some_running, RowView};
use crate::chat::tool_card;
use crate::chrome::icons::IconName;
use crate::chrome::status_pill::Hue;
use crate::domain::{
    AppState, ConversationRole, ItemView, ProjectId, ProjectSessionsView, ProjectView, SummaryView,
};
use crate::laws::protocol::lemma_blank_compacts_to_nothing;
use crate::protocol::compacted;
use crate::text::{has_prefix, is_blank, lemma_trim_end_cuts, slice_of, trim, trim_end};
use crate::thinking::{segment_end, segment_start, segments_from, SegmentView};
use crate::typewriter::{shown, stepped, Progress};
use crate::views::views;

verus! {

/// Each button of an entry has words of its own, but the one on a tool's report, which
/// shows an arrow.
pub proof fn lemma_buttons_have_words(event: EventView)
    ensures
        event is ToggleToolReport <==> event_key(event) is None,
        event is ToggleToolDetails ==> event_key(event) == Some("raw-tool-details"@),
        event is ToggleThinking ==> event_key(event) == Some("thinking-process"@),
        event is RevealAll ==> event_key(event) == Some("show-all"@),
        event is ForkAt ==> event_key(event) == Some("fork-here"@),
        event is CopyAssistant ==> event_key(event) == Some("copy-report"@),
{
}

/// An entry is shown where there is anything to show of it: a text, a report or an
/// attachment; that of a tool always is.
pub proof fn lemma_which_entries_are_shown(message: ItemView)
    ensures
        message.role == ConversationRole::Tool ==> is_shown(message),
        !is_blank(message.full_text) ==> is_shown(message),
        message.tool_report is Some ==> is_shown(message),
        message.attachments.len() > 0 ==> is_shown(message),
        is_blank(message.full_text) && message.tool_report is None && message.attachments.len()
            == 0 && message.role != ConversationRole::Tool ==> !is_shown(message),
{
}

proof fn lemma_changed(before: Seq<ItemView>, after: Seq<ItemView>, n: nat, i: usize)
    requires
        n <= before.len(),
        n <= after.len(),
        n <= usize::MAX,
    ensures
        crate::chat::conversation::changed_before(before, after, n).contains(i) <==> i < n
            && before[i as int] != after[i as int],
    decreases n,
{
    let all = crate::chat::conversation::changed_before(before, after, n);
    if n > 0 {
        let m = (n - 1) as nat;
        lemma_changed(before, after, m, i);
        let less = crate::chat::conversation::changed_before(before, after, m);
        if less.contains(i) {
            let k = choose|k: int| 0 <= k < less.len() && less[k] == i;
            assert(all[k] == i);
        }
        if i == m && before[i as int] != after[i as int] {
            assert(all[all.len() - 1] == i);
        }
        if all.contains(i) {
            let k = choose|k: int| 0 <= k < all.len() && all[k] == i;
            if k < less.len() {
                assert(less[k] == i);
            }
        }
    }
}

/// The entries that are measured again are those that changed, and no others.
pub proof fn lemma_changed_entries_are_measured(
    before: Seq<ItemView>,
    after: Seq<ItemView>,
    i: usize,
)
    requires
        before.len() <= usize::MAX,
    ensures
        changed_of(before, after).contains(i) <==> i < before.len() && i < after.len()
            && before[i as int] != after[i as int],
{
    lemma_changed(before, after, crate::chat::conversation::shared_len(before, after), i);
}

/// An entry that streams on under another id is taken for the same one where its text
/// goes on from what it was, or is the start of it.
pub proof fn lemma_renamed_entries(before: ItemView, after: ItemView)
    ensures
        is_renamed(before, after) ==> before.id != after.id && before.role == after.role
            && before.streaming && after.streaming,
        before.id != after.id && before.role == after.role && before.streaming && after.streaming
            && has_prefix(after.full_text, before.full_text) ==> is_renamed(before, after),
        before.id != after.id && before.role == after.role && before.streaming && after.streaming
            && !has_prefix(after.full_text, before.full_text) && !has_prefix(
            before.full_text,
            after.full_text,
        ) ==> !is_renamed(before, after),
{
}

/// New entries take the place of the old ones, and nothing that is not about entries
/// changes.
pub proof fn lemma_entries_are_taken(state: ConversationView, messages: Seq<ItemView>)
    ensures
        taken(state, messages).messages == messages,
        taken(state, messages).has_project == state.has_project,
        taken(state, messages).language == state.language,
        taken(state, messages).generating == state.generating,
        state.messages == messages ==> taken(state, messages) == state,
{
}

/// What is open is remembered, and what is closed is not.
pub proof fn lemma_open_sections_are_kept(
    expansions: Map<Seq<char>, ExpansionView>,
    id: Seq<char>,
    expansion: ExpansionView,
    other: Seq<char>,
)
    ensures
        ({
            let closed = !expansion.tool_report && !expansion.tool_details && expansion.thinking
                == Set::<usize>::empty();
            let after = with_expansion(expansions, id, expansion);
            &&& closed ==> !after.contains_key(id)
            &&& !closed ==> after.contains_key(id) && after[id] == expansion
            &&& other != id ==> after.contains_key(other) == expansions.contains_key(other)
                && after[other] == expansions[other]
        }),
        closed_expansion() == (ExpansionView {
            tool_report: false,
            tool_details: false,
            thinking: Set::empty(),
        }),
{
}

/// What was open under either of two ids is open once they are one.
pub proof fn lemma_merging_keeps_open(a: ExpansionView, b: ExpansionView, segment: usize)
    ensures
        merged(a, b).tool_report <==> a.tool_report || b.tool_report,
        merged(a, b).tool_details <==> a.tool_details || b.tool_details,
        merged(a, b).thinking.contains(segment) <==> a.thinking.contains(segment)
            || b.thinking.contains(segment),
{
}

/// An empty conversation shows the first step where no project is selected; any other
/// shows all of its entries, and whether a reply is on its way.
pub proof fn lemma_the_canvas(view: ConversationView)
    requires
        view.messages.len() <= usize::MAX,
    ensures
        view.messages.len() == 0 ==> canvas_of(view) == (Canvas::Empty {
            shows_first_step: !view.has_project,
        }),
        view.messages.len() > 0 ==> (canvas_of(view) matches Canvas::Entries { count, generating }
            && count == view.messages.len() && generating == view.generating),
{
}

/// The card of a prompt shows its text without white space at its end, and the names of
/// what is attached, and forks from it.
pub proof fn lemma_prompt_cards(
    message: ItemView,
    visible: Seq<char>,
    expansion: ExpansionView,
    arguments: Option<Seq<char>>,
    i: int,
)
    requires
        message.role == ConversationRole::User,
    ensures
        card_of(message, visible, expansion, arguments) matches CardView::Prompt {
            text,
            attachments,
            action,
        } && {
            &&& is_blank(visible) <==> text is None
            &&& text matches Some(shown) ==> {
                &&& shown.len() > 0
                &&& shown == visible.take(shown.len() as int)
                &&& is_blank(visible.skip(shown.len() as int))
                &&& !crate::text::is_white_space(shown.last())
            }
            &&& attachments.len() == message.attachments.len()
            &&& 0 <= i < attachments.len() ==> attachments[i] == message.attachments[i].name
            &&& action == EventView::ForkAt(message.id)
        },
{
    lemma_trim_end_cuts(visible);
    let cut = trim_end(visible);
    if cut.len() == 0 {
        assert(visible.skip(0) =~= visible);
    } else {
        assert(cut.last() == visible[cut.len() - 1]);
    }
}

/// A reply can be revealed in full while some of it is hidden, and copied once it is
/// there; an empty one offers nothing.
pub proof fn lemma_reply_cards(
    message: ItemView,
    visible: Seq<char>,
    expansion: ExpansionView,
    arguments: Option<Seq<char>>,
)
    requires
        message.role == ConversationRole::Assistant,
    ensures
        card_of(message, visible, expansion, arguments) matches CardView::Reply {
            action,
            action_stays,
            ..
        } && {
            &&& message.streaming && visible != message.full_text ==> action == Some(
                EventView::RevealAll(message.id),
            ) && action_stays
            &&& message.streaming && visible == message.full_text ==> action is None
                && !action_stays
            &&& !message.streaming && !is_blank(message.full_text) ==> action == Some(
                EventView::CopyAssistant(message.id),
            ) && !action_stays
            &&& !message.streaming && is_blank(message.full_text) ==> action is None
                && !action_stays
        },
{
}

/// What the system says is shown as it is, with the icon for information.
pub proof fn lemma_notice_cards(
    message: ItemView,
    visible: Seq<char>,
    expansion: ExpansionView,
    arguments: Option<Seq<char>>,
)
    requires
        message.role == ConversationRole::System,
    ensures
        card_of(message, visible, expansion, arguments) == (CardView::Notice {
            icon: Some(IconName::Info),
            text: visible,
        }),
{
}

/// A part of a reply that is not blank is a block of its own: reasoning where it stood
/// between the tags, open where its section is, and prose otherwise. It keeps its text
/// but for white space around it.
pub proof fn lemma_blocks_of_a_reply(
    source: Seq<char>,
    part: usize,
    segment: SegmentView,
    open: Set<usize>,
    slice: Seq<char>,
)
    requires
        slice_of(source, segment_start(segment) as nat, segment_end(segment) as nat) == Some(slice),
    ensures
        is_blank(slice) <==> block_of(source, part, segment, open) is None,
        !is_blank(slice) && segment is Thinking ==> block_of(source, part, segment, open) == Some(
            BlockView::Reasoning { part, text: trim(slice), expanded: open.contains(part) },
        ),
        !is_blank(slice) && segment is Markdown ==> block_of(source, part, segment, open) == Some(
            BlockView::Prose { part, text: trim(slice) },
        ),
{
}

proof fn lemma_blocks(
    source: Seq<char>,
    segments: Seq<SegmentView>,
    open: Set<usize>,
    n: nat,
    i: int,
)
    requires
        n <= segments.len(),
        0 <= i < n,
        n <= usize::MAX,
        block_of(source, i as usize, segments[i], open) is Some,
    ensures
        blocks_of(source, segments, open, n).contains(
            block_of(source, i as usize, segments[i], open)->0,
        ),
    decreases n,
{
    let all = blocks_of(source, segments, open, n);
    let block = block_of(source, i as usize, segments[i], open)->0;
    if i == n - 1 {
        assert(all[all.len() - 1] == block);
    } else {
        lemma_blocks(source, segments, open, (n - 1) as nat, i);
        let less = blocks_of(source, segments, open, (n - 1) as nat);
        let k = choose|k: int| 0 <= k < less.len() && less[k] == block;
        assert(all[k] == block);
    }
}

/// Every part of a reply that makes a block is shown.
pub proof fn lemma_every_block_is_shown(
    message: ItemView,
    visible: Seq<char>,
    expansion: ExpansionView,
    arguments: Option<Seq<char>>,
    i: int,
)
    requires
        message.role == ConversationRole::Assistant,
        0 <= i < segments_from(encode_utf8(visible), 0).len() <= usize::MAX,
        block_of(
            visible,
            i as usize,
            segments_from(encode_utf8(visible), 0)[i],
            expansion.thinking,
        ) is Some,
    ensures
        card_of(message, visible, expansion, arguments)->blocks.contains(
            block_of(
                visible,
                i as usize,
                segments_from(encode_utf8(visible), 0)[i],
                expansion.thinking,
            )->0,
        ),
{
    let segments = segments_from(encode_utf8(visible), 0);
    lemma_blocks(visible, segments, expansion.thinking, segments.len(), i);
}

/// The card of a tool goes by the tool's name and tells an error by its colour. What it
/// sums up is its arguments, else its text on one line; what it shows is what is open.
pub proof fn lemma_tool_cards(
    message: ItemView,
    report_open: bool,
    details_open: bool,
    arguments: Option<Seq<char>>,
)
    ensures
        ({
            let card = tool_card::card_of(message, report_open, details_open, arguments);
            &&& message.tool_name matches Some(name) ==> card.name == name
            &&& message.tool_name is None ==> card.name == "tool"@
            &&& message.is_error ==> card.hue == Hue::Error
            &&& !message.is_error ==> card.hue == Hue::Accent
            &&& message.tool_report is Some || message.tool_details is Some ==> card.toggle == Some(
                EventView::ToggleToolReport(message.id),
            )
            &&& message.tool_report is None && message.tool_details is None ==> card.toggle is None
            &&& arguments is Some ==> card.summary == arguments
            &&& arguments is None && is_blank(message.full_text) ==> card.summary is None
            &&& arguments is None && !is_blank(message.full_text) ==> card.summary == Some(
                compacted(message.full_text),
            )
            &&& report_open ==> card.report == message.tool_report && card.arrow
                == IconName::ChevronDown
            &&& !report_open ==> card.report is None && card.arrow == IconName::ChevronRight
            &&& details_open ==> card.details_arrow == IconName::ChevronDown
            &&& !details_open ==> card.details_arrow == IconName::ChevronRight && card.details
                is None
            &&& report_open && details_open ==> card.details == message.tool_details
            &&& report_open && message.tool_details is Some ==> card.details_toggle == Some(
                EventView::ToggleToolDetails(message.id),
            )
        }),
{
    lemma_blank_compacts_to_nothing(message.full_text);
}

/// The card of a tool's entry is that of the tool, with the sections that are open.
pub proof fn lemma_tool_entries_show_tool_cards(
    message: ItemView,
    visible: Seq<char>,
    expansion: ExpansionView,
    arguments: Option<Seq<char>>,
)
    requires
        message.role == ConversationRole::Tool,
    ensures
        card_of(message, visible, expansion, arguments) == CardView::Tool(
            tool_card::card_of(message, expansion.tool_report, expansion.tool_details, arguments),
        ),
{
}

/// A text that is whole is shown whole. One that streams is shown from its start, as
/// far as it is revealed; revealing goes on by steps and stops at its end.
pub proof fn lemma_text_is_revealed(
    progress: Map<Seq<char>, Progress>,
    message: ItemView,
    revealed: nat,
    step: nat,
    total: nat,
)
    ensures
        !message.streaming ==> shown(progress, message) == message.full_text,
        revealed + step <= total ==> stepped(revealed, step, total) == revealed + step,
        revealed + step > total ==> stepped(revealed, step, total) == total,
{
}

/// The sessions of a project are those that are listed for it first.
pub proof fn lemma_sessions_are_found(sessions: Seq<ProjectSessionsView>, id: ProjectId, i: int)
    requires
        0 <= i < sessions.len(),
        sessions[i].project_id == id,
        forall|k: int| 0 <= k < i ==> (#[trigger] sessions[k]).project_id != id,
    ensures
        sessions_of(sessions, id) == sessions[i].sessions,
    decreases i,
{
    if i > 0 {
        assert(sessions[0].project_id != id);
        let rest = sessions.drop_first();
        assert(forall|k: int| 0 <= k < i - 1 ==> #[trigger] rest[k] == sessions[k + 1]);
        lemma_sessions_are_found(rest, id, i - 1);
    }
}

/// A project is at work where one of its sessions is.
pub proof fn lemma_projects_at_work(sessions: Seq<SummaryView>, running: Seq<Seq<char>>, i: int)
    ensures
        0 <= i < sessions.len() && running.contains(sessions[i].pi_path) ==> some_running(
            sessions,
            running,
        ),
        (forall|k: int|
            0 <= k < sessions.len() ==> !running.contains((#[trigger] sessions[k]).pi_path))
            ==> !some_running(sessions, running),
{
}

/// A project has a row under its own name, with whether it is open, at work and
/// selected; behind it, where it is open, stands a row for each of its sessions in
/// their order, each with what it is.
pub proof fn lemma_rows_of_a_project(
    state: AppState,
    expanded: Set<ProjectId>,
    project: ProjectView,
    i: int,
)
    ensures
        ({
            let sessions = sessions_of(views(state.sessions@), project.id);
            let rows = project_rows(state, expanded, project);
            &&& rows.len() == 1 + (if expanded.contains(project.id) {
                sessions.len() as int
            } else {
                0
            })
            &&& rows[0] matches RowView::Project {
                id,
                name,
                expanded: open,
                running,
                selected,
            } && {
                &&& id == project.id
                &&& name == project.name
                &&& open == expanded.contains(project.id)
                &&& running == some_running(sessions, views(state.running_sessions@))
                &&& selected == (state.selected_project == Some(project.id))
            }
            &&& expanded.contains(project.id) && 0 <= i < sessions.len() ==> (rows[1 + i]
                matches RowView::Session { id, project_id, pi_path, title, running, selected } && {
                &&& id == sessions[i].id
                &&& project_id == project.id
                &&& pi_path == sessions[i].pi_path
                &&& title == sessions[i].title
                &&& running == views(state.running_sessions@).contains(sessions[i].pi_path)
                &&& selected == (state.selected_session == Some(sessions[i].id))
            })
        }),
{
}

/// The rows are those of the projects, one project after the other.
pub proof fn lemma_rows_of_all_projects(
    state: AppState,
    expanded: Set<ProjectId>,
    projects: Seq<ProjectView>,
    project: ProjectView,
)
    ensures
        all_rows(state, expanded, Seq::empty()).len() == 0,
        all_rows(state, expanded, projects.push(project)) == all_rows(state, expanded, projects)
            + project_rows(state, expanded, project),
{
    assert(projects.push(project).drop_last() =~= projects);
}

/// Raw data is offered only where there is any.
pub proof fn lemma_raw_data_is_offered(
    message: ItemView,
    report_open: bool,
    details_open: bool,
    arguments: Option<Seq<char>>,
)
    ensures
        tool_card::card_of(message, report_open, details_open, arguments).details_toggle is Some
            <==> report_open && message.tool_details is Some,
{
}

} // verus!
