//! What holds of the changes that agent events come to.

use vstd::prelude::*;

use crate::domain::{ActionView, ConversationRole, ItemView, StatusView};
use crate::events::{
    compaction_id, compaction_text, grouped, strings_of, takes_fresh_id, token_count_text,
    tool_entry, transcript_entry, translated, ContextView, EffectView,
};
use crate::ids::hyphenated;
use crate::json::{compact, pretty, JsonView};
use crate::laws::protocol::{
    lemma_failures_are_reported, lemma_failures_are_told, lemma_kept_from, lemma_kept_item,
};
use crate::pool::TurnView;
use crate::protocol::{
    call_report, compacted, content_of, event_details, reply_text, text_report, text_summary,
};
use crate::text::{decimal, is_blank, lemma_trim_blank, occurs};
use crate::views::{find_first, keep_map};

verus! {

/// The kinds of events differ from each other.
proof fn lemma_kinds()
    ensures
        "message_start"@.len() == 13 && "message_start"@[0] == 'm',
        "message_update"@.len() == 14 && "message_update"@[0] == 'm',
        "message_end"@.len() == 11 && "message_end"@[0] == 'm',
        "tool_execution_start"@.len() == 20 && "tool_execution_start"@[0] == 't',
        "tool_execution_end"@.len() == 18 && "tool_execution_end"@[0] == 't',
        "queue_update"@.len() == 12 && "queue_update"@[0] == 'q',
        "agent_settled"@.len() == 13 && "agent_settled"@[0] == 'a',
        "session_info_changed"@.len() == 20 && "session_info_changed"@[0] == 's',
        "thinking_level_changed"@.len() == 22 && "thinking_level_changed"@[0] == 't',
        "compaction_start"@.len() == 16 && "compaction_start"@[0] == 'c',
        "compaction_end"@.len() == 14 && "compaction_end"@[0] == 'c',
        "entry_appended"@.len() == 14 && "entry_appended"@[0] == 'e',
{
    reveal_strlit("message_start");
    reveal_strlit("message_update");
    reveal_strlit("message_end");
    reveal_strlit("tool_execution_start");
    reveal_strlit("tool_execution_end");
    reveal_strlit("queue_update");
    reveal_strlit("agent_settled");
    reveal_strlit("session_info_changed");
    reveal_strlit("thinking_level_changed");
    reveal_strlit("compaction_start");
    reveal_strlit("compaction_end");
    reveal_strlit("entry_appended");
}

/// The readable text that a content holds, empty where it holds none.
pub open spec fn readable(content: Option<JsonView>) -> Seq<char> {
    match content_of(content) {
        Some(text) => text,
        None => Seq::empty(),
    }
}

/// What a tool returned, as its event tells it.
pub open spec fn returned_text(event: JsonView) -> Seq<char> {
    match event.field("result"@) {
        Some(result) => readable(result.field("content"@)),
        None => Seq::empty(),
    }
}

/// The tool that an event is about.
pub open spec fn tool_of(event: JsonView) -> Seq<char> {
    match event.text_at("toolName"@) {
        Some(name) => name,
        None => "tool"@,
    }
}

/// A card belongs to the call that its event names: by the id of the call, else by
/// the name of the tool. It is a tool's card, it is not streaming, and it is marked
/// as an error exactly where the event says so.
pub proof fn lemma_card_belongs_to_its_call(event: JsonView, conversation: Seq<ItemView>)
    ensures
        ({
            let card = tool_entry(event, conversation);
            &&& event.text_at("toolCallId"@) is Some ==> Some(card.id) == event.text_at(
                "toolCallId"@,
            )
            &&& event.text_at("toolCallId"@) is None ==> card.id == tool_of(event)
            &&& card.tool_name == Some(tool_of(event))
            &&& card.role == ConversationRole::Tool
            &&& !card.streaming
            &&& card.is_error == (event.truth_at("isError"@) == Some(true))
            &&& card.model is None
            &&& card.attachments.len() == 0
        }),
{
}

/// The card of a call that has ended shows what came of it. One that failed says so,
/// with what went wrong where that is known, and never reads like a call that still
/// runs or like a success; one that did well shows what the tool's text comes to.
pub proof fn lemma_finished_call_shows_its_result(event: JsonView, conversation: Seq<ItemView>)
    requires
        event.text_at("type"@) == Some("tool_execution_end"@),
    ensures
        ({
            let card = tool_entry(event, conversation);
            let text = returned_text(event);
            &&& event.truth_at("isError"@) == Some(true) ==> {
                &&& is_blank(text) ==> card.full_text == "Failed"@
                &&& !is_blank(text) ==> card.full_text == "Failed: "@ + compacted(text)
                &&& card.full_text != "Running…"@
                &&& card.full_text != "Completed"@
                &&& is_blank(text) ==> card.tool_report == Some(
                    "Failed without a reported message."@,
                )
                &&& !is_blank(text) ==> card.tool_report == Some("Failed:\n"@ + text)
            }
            &&& event.truth_at("isError"@) != Some(true) ==> card.full_text == text_summary(
                Some(tool_of(event)),
                text,
                false,
            )
        }),
{
    lemma_nothing_is_empty();
    lemma_failures_are_told(Some(tool_of(event)), returned_text(event));
    lemma_failures_are_reported(
        Some(tool_of(event)),
        returned_text(event),
        match find_first(
            conversation,
            |item: ItemView| item.id == crate::events::event_call_id(event),
        ) {
            Some(item) => item.tool_report,
            None => None,
        },
    );
}

proof fn lemma_nothing_is_empty()
    ensures
        ""@ == Seq::<char>::empty(),
{
    reveal_strlit("");
    assert(""@ =~= Seq::<char>::empty());
}

/// The card of a call that has not ended says that it runs, what it is about to do,
/// and keeps the event whole.
pub proof fn lemma_running_call_shows_its_start(event: JsonView, conversation: Seq<ItemView>)
    requires
        event.text_at("type"@) != Some("tool_execution_end"@),
    ensures
        ({
            let card = tool_entry(event, conversation);
            &&& card.full_text == "Running…"@
            &&& card.tool_report == Some(call_report(tool_of(event), event.field("args"@)))
            &&& card.tool_details == Some(pretty(event))
        }),
{
}

/// The first item that something holds of.
pub proof fn lemma_first_found<A>(v: Seq<A>, f: spec_fn(A) -> bool, k: int)
    requires
        0 <= k < v.len(),
        f(v[k]),
        forall|j: int| 0 <= j < k ==> !f(#[trigger] v[j]),
    ensures
        find_first(v, f) == Some(v[k]),
    decreases k,
{
    if k > 0 {
        assert(!f(v[0]));
        let rest = v.drop_first();
        assert(forall|j: int| 0 <= j < k - 1 ==> #[trigger] rest[j] == v[j + 1]);
        lemma_first_found(rest, f, k - 1);
    }
}

pub proof fn lemma_none_found<A>(v: Seq<A>, f: spec_fn(A) -> bool)
    requires
        forall|j: int| 0 <= j < v.len() ==> !f(#[trigger] v[j]),
    ensures
        find_first(v, f) is None,
    decreases v.len(),
{
    if v.len() > 0 {
        let rest = v.drop_first();
        assert(forall|j: int| 0 <= j < rest.len() ==> #[trigger] rest[j] == v[j + 1]);
        lemma_none_found(rest, f);
    }
}

/// A result builds on the card that the conversation has under its id: it extends
/// that card's report, and its details take over what that card recorded.
pub proof fn lemma_result_builds_on_its_call(
    event: JsonView,
    conversation: Seq<ItemView>,
    k: int,
)
    requires
        event.text_at("type"@) == Some("tool_execution_end"@),
        event.truth_at("isError"@) != Some(true),
        0 <= k < conversation.len(),
        event.text_at("toolCallId"@) == Some(conversation[k].id),
        forall|j: int| 0 <= j < k ==> (#[trigger] conversation[j]).id != conversation[k].id,
    ensures
        ({
            let card = tool_entry(event, conversation);
            &&& card.tool_report == Some(
                text_report(
                    Some(tool_of(event)),
                    returned_text(event),
                    conversation[k].tool_report,
                    false,
                ),
            )
            &&& card.tool_details == Some(
                pretty(event_details(event, conversation[k].tool_details)),
            )
        }),
{
    lemma_nothing_is_empty();
    let id = conversation[k].id;
    lemma_first_found(conversation, |item: ItemView| item.id == id, k);
}

/// A result without a card to build on is reported for itself.
pub proof fn lemma_result_without_a_call(event: JsonView, conversation: Seq<ItemView>)
    requires
        event.text_at("type"@) == Some("tool_execution_end"@),
        event.truth_at("isError"@) != Some(true),
        event.text_at("toolCallId"@) is Some,
        forall|j: int|
            0 <= j < conversation.len() ==> Some((#[trigger] conversation[j]).id) != event.text_at(
                "toolCallId"@,
            ),
    ensures
        tool_entry(event, conversation).tool_report == Some(
            text_report(Some(tool_of(event)), returned_text(event), None, false),
        ),
        tool_entry(event, conversation).tool_details == Some(pretty(event_details(event, None))),
{
    lemma_nothing_is_empty();
    let id = event.text_at("toolCallId"@)->0;
    lemma_none_found(conversation, |item: ItemView| item.id == id);
}

/// A tool's event shows its card in the session on screen, and does nothing else.
pub proof fn lemma_tool_events_show_a_card(
    event: JsonView,
    context: ContextView,
    turn: TurnView,
    fresh: u128,
)
    requires
        event.text_at("type"@) == Some("tool_execution_start"@) || event.text_at("type"@) == Some(
            "tool_execution_end"@,
        ),
    ensures
        ({
            let (outcome, after) = translated(event, context, turn, fresh);
            &&& after == turn
            &&& outcome.effects.len() == 0
            &&& !context.is_active ==> outcome.actions.len() == 0
            &&& context.is_active ==> outcome.actions.len() == 1 && outcome.actions[0]
                == ActionView::UpsertConversation(tool_entry(event, context.conversation))
        }),
{
    lemma_kinds();
}

/// The busy mark says what the turn says: an event that sets it sets it for its own
/// session to what the turn then holds, and an event that does not leaves the turn as
/// busy as it was.
pub proof fn lemma_busy_mark_follows_the_turn(
    event: JsonView,
    context: ContextView,
    turn: TurnView,
    fresh: u128,
)
    ensures
        ({
            let (outcome, after) = translated(event, context, turn, fresh);
            &&& forall|i: int|
                0 <= i < outcome.actions.len() && (#[trigger] outcome.actions[i]) is SessionRunning
                    ==> outcome.actions[i] == (ActionView::SessionRunning {
                    path: context.key,
                    running: after.running,
                })
            &&& after.running == turn.running || (outcome.actions.len() > 0
                && outcome.actions[0] is SessionRunning)
        }),
{
}

/// An agent is busy from the first piece of a reply, or the start of a compaction,
/// on, and is not once it has settled or the compaction has ended.
pub proof fn lemma_busy_and_idle(
    event: JsonView,
    context: ContextView,
    turn: TurnView,
    fresh: u128,
)
    ensures
        ({
            let kind = event.text_at("type"@);
            let (outcome, after) = translated(event, context, turn, fresh);
            &&& kind == Some("agent_settled"@) || kind == Some("compaction_end"@)
                ==> !after.running && outcome.actions[0] == (ActionView::SessionRunning {
                path: context.key,
                running: false,
            })
            &&& kind == Some("compaction_start"@) || ((kind == Some("message_start"@) || kind
                == Some("message_update"@)) && (event.field("message"@) matches Some(message)
                && message.text_at("role"@) == Some("assistant"@))) ==> after.running
                && outcome.actions[0] == (ActionView::SessionRunning {
                path: context.key,
                running: true,
            })
        }),
{
    lemma_kinds();
}

/// A piece of a reply is shown as the assistant's, with all of the text so far and
/// the model that wrote it, under the id that the message has, else the one that the
/// reply already goes by, else a new one. It is still arriving, and no error.
pub proof fn lemma_pieces_of_a_reply(
    event: JsonView,
    message: JsonView,
    context: ContextView,
    turn: TurnView,
    fresh: u128,
)
    requires
        event.text_at("type"@) == Some("message_start"@) || event.text_at("type"@) == Some(
            "message_update"@,
        ),
        event.field("message"@) == Some(message),
        message.text_at("role"@) == Some("assistant"@),
        context.is_active,
    ensures
        ({
            let (outcome, after) = translated(event, context, turn, fresh);
            let last = outcome.actions[outcome.actions.len() - 1];
            &&& outcome.effects.len() == 0
            &&& last matches ActionView::UpsertConversation(item) && {
                &&& item.role == ConversationRole::Assistant
                &&& item.full_text == reply_text(message)
                &&& item.streaming
                &&& !item.is_error
                &&& item.model == message.text_at("model"@)
                &&& item.tool_name is None && item.tool_report is None && item.tool_details is None
                &&& after.assistant_message_id == Some(item.id)
                &&& message.text_at("id"@) is Some ==> Some(item.id) == message.text_at("id"@)
                &&& message.text_at("id"@) is None && turn.assistant_message_id is Some ==> Some(
                    item.id,
                ) == turn.assistant_message_id
                &&& message.text_at("id"@) is None && turn.assistant_message_id is None ==> item.id
                    == hyphenated(fresh)
            }
            &&& turn.assistant_message_id is Some && message.text_at("id"@) is Some
                && turn.assistant_message_id != message.text_at("id"@) ==> {
                &&& outcome.actions.len() == 3
                &&& outcome.actions[1] == (ActionView::RekeyConversation {
                    from: turn.assistant_message_id->0,
                    to: message.text_at("id"@)->0,
                })
            }
            &&& turn.assistant_message_id is None || message.text_at("id"@) is None
                || turn.assistant_message_id == message.text_at("id"@) ==> outcome.actions.len()
                == 2
            &&& !after.conversation_compacted
            &&& after.pending_prompt == turn.pending_prompt
            &&& after.compaction_item_id == turn.compaction_item_id
            &&& after.reply_error == turn.reply_error
        }),
{
    lemma_kinds();
}

/// Messages that are not the assistant's are left to the transcript.
pub proof fn lemma_other_messages_are_left(
    event: JsonView,
    context: ContextView,
    turn: TurnView,
    fresh: u128,
)
    requires
        event.text_at("type"@) == Some("message_start"@) || event.text_at("type"@) == Some(
            "message_update"@,
        ) || event.text_at("type"@) == Some("message_end"@),
        match event.field("message"@) {
            Some(message) => message.text_at("role"@) != Some("assistant"@),
            None => true,
        },
    ensures
        translated(event, context, turn, fresh).0.actions.len() == 0,
        translated(event, context, turn, fresh).0.effects.len() == 0,
        translated(event, context, turn, fresh).1 == turn,
{
    lemma_kinds();
}

/// Whether none of the parts of a message calls a tool.
pub open spec fn calls_no_tool(parts: Seq<JsonView>) -> bool {
    forall|i: int|
        0 <= i < parts.len() ==> (#[trigger] parts[i]).text_at("type"@) != Some("toolCall"@)
}

/// Whether a message ends a turn well with neither text nor a call of a tool.
pub open spec fn says_nothing(message: JsonView) -> bool {
    &&& message.text_at("stopReason"@) == Some("stop"@)
    &&& is_blank(reply_text(message))
    &&& match message.items_at("content"@) {
        Some(parts) => calls_no_tool(parts),
        None => true,
    }
}

/// A reply that has ended is finished under the id that it goes by. One that says
/// nothing is turned into an error, which the session shows and remembers; any other
/// leaves no error behind.
pub proof fn lemma_end_of_a_reply(
    event: JsonView,
    message: JsonView,
    context: ContextView,
    turn: TurnView,
    fresh: u128,
)
    requires
        event.text_at("type"@) == Some("message_end"@),
        event.field("message"@) == Some(message),
        message.text_at("role"@) == Some("assistant"@),
    ensures
        ({
            let (outcome, after) = translated(event, context, turn, fresh);
            let words =
                "The provider returned an empty response. Retry the request or switch models."@;
            &&& says_nothing(message) ==> after.reply_error == Some(words)
            &&& !says_nothing(message) ==> after.reply_error == turn.reply_error
            &&& outcome.effects.len() == 0
            &&& after.running == turn.running
            &&& context.is_active ==> after.assistant_message_id is None
            &&& !context.is_active ==> after.assistant_message_id == turn.assistant_message_id
            &&& context.is_active && turn.assistant_message_id is Some && !says_nothing(message)
                ==> outcome.actions.len() == 1 && outcome.actions[0] == ActionView::FinishMessage(
                turn.assistant_message_id->0,
            )
            &&& context.is_active && turn.assistant_message_id is Some && says_nothing(message)
                ==> {
                &&& outcome.actions.len() == 2
                &&& outcome.actions[0] matches ActionView::UpsertConversation(item)
                    && Some(item.id) == turn.assistant_message_id && item.full_text == words
                    && item.is_error && !item.streaming && item.role == ConversationRole::Assistant
                    && item.model == message.text_at("model"@)
                &&& outcome.actions[1] == ActionView::SetSessionStatus(StatusView::Failed(words))
            }
            &&& !context.is_active || turn.assistant_message_id is None ==> outcome.actions.len()
                == 0
        }),
{
    lemma_kinds();
    lemma_trim_blank(reply_text(message));
    lemma_says_nothing(message);
}

/// An agent that has come to rest is ready, or failed with the error that its last
/// reply left behind, which is then forgotten. Its transcript is indexed in any case;
/// what is on screen is read again where the session is on screen.
pub proof fn lemma_settling(event: JsonView, context: ContextView, turn: TurnView, fresh: u128)
    requires
        event.text_at("type"@) == Some("agent_settled"@),
    ensures
        ({
            let (outcome, after) = translated(event, context, turn, fresh);
            &&& after.reply_error is None
            &&& after.pending_prompt == turn.pending_prompt
            &&& after.assistant_message_id == turn.assistant_message_id
            &&& after.compaction_item_id == turn.compaction_item_id
            &&& after.conversation_compacted == turn.conversation_compacted
            &&& outcome.effects.len() > 0 && outcome.effects[0] == EffectView::SyncSessionFile
            &&& context.is_active ==> {
                &&& outcome.actions.len() == 2
                &&& turn.reply_error is None ==> outcome.actions[1] == ActionView::SetSessionStatus(
                    StatusView::Ready,
                )
                &&& turn.reply_error is Some ==> outcome.actions[1] == ActionView::SetSessionStatus(
                    StatusView::Failed(turn.reply_error->0),
                )
                &&& outcome.effects.contains(EffectView::ReloadEntries)
                &&& outcome.effects.contains(EffectView::RefreshControls)
                &&& outcome.effects.len() == 3
            }
            &&& !context.is_active ==> outcome.actions.len() == 1 && outcome.effects.len() == 1
        }),
{
    lemma_kinds();
    let effects = translated(event, context, turn, fresh).0.effects;
    if context.is_active {
        assert(effects[1] == EffectView::ReloadEntries);
        assert(effects[2] == EffectView::RefreshControls);
    }
}

/// News of the queue, of the session's name and of the thinking level do what they
/// say, and leave the turn alone.
pub proof fn lemma_small_events(
    event: JsonView,
    context: ContextView,
    turn: TurnView,
    fresh: u128,
)
    ensures
        ({
            let kind = event.text_at("type"@);
            let (outcome, after) = translated(event, context, turn, fresh);
            &&& kind == Some("queue_update"@) && context.is_active ==> outcome.actions.len() == 1
                && outcome.actions[0] == (ActionView::QueueUpdated {
                steering: strings_of(event.field("steering"@)),
                follow_up: strings_of(event.field("followUp"@)),
            }) && outcome.effects.len() == 0 && after == turn
            &&& kind == Some("session_info_changed"@) ==> outcome.actions.len() == 0
                && outcome.effects.len() == 1 && outcome.effects[0]
                == EffectView::RenameSessionFile(event.text_at("name"@)) && after == turn
            &&& kind == Some("thinking_level_changed"@) && context.is_active
                ==> outcome.actions.len() == 0 && outcome.effects.len() == 1 && outcome.effects[0]
                == EffectView::RefreshControls && after == turn
            &&& (kind == Some("queue_update"@) || kind == Some("thinking_level_changed"@))
                && !context.is_active ==> outcome.actions.len() == 0 && outcome.effects.len() == 0
                && after == turn
        }),
{
    lemma_kinds();
}

/// The strings of a list are read in full: each is there, and what is there is one of
/// them.
pub proof fn lemma_strings_are_read(items: Seq<JsonView>, i: int, text: Seq<char>)
    ensures
        0 <= i < items.len() && items[i] == JsonView::Str(text) ==> strings_of(
            Some(JsonView::Array(items)),
        ).contains(text),
        strings_of(Some(JsonView::Array(items))).contains(text) ==> items.contains(
            JsonView::Str(text),
        ),
        strings_of(None).len() == 0,
{
    let f = |item: JsonView| item.text();
    let kept = keep_map(items, f);
    if 0 <= i < items.len() && items[i] == JsonView::Str(text) {
        lemma_kept_item(items, f, i);
        let k = choose|k: int| 0 <= k < kept.len() && #[trigger] kept[k] == f(items[i])->0;
        assert(kept[k] == text);
    }
    if kept.contains(text) {
        let k = choose|k: int| 0 <= k < kept.len() && kept[k] == text;
        lemma_kept_from(items, f, k);
        let j = choose|j: int| 0 <= j < items.len() && #[trigger] f(items[j]) == Some(kept[k]);
        assert(items[j] == JsonView::Str(text));
    }
}

/// A list of strings alone is read as it stands, in its order.
pub proof fn lemma_string_lists_keep_order(texts: Seq<Seq<char>>)
    ensures
        strings_of(Some(JsonView::Array(texts.map_values(|t: Seq<char>| JsonView::Str(t)))))
            == texts,
    decreases texts.len(),
{
    let f = |item: JsonView| item.text();
    let g = |t: Seq<char>| JsonView::Str(t);
    let items = texts.map_values(g);
    if texts.len() == 0 {
        assert(keep_map(items, f) =~= texts);
    } else {
        lemma_string_lists_keep_order(texts.drop_last());
        assert(items.drop_last() =~= texts.drop_last().map_values(g));
        assert(items.last() == JsonView::Str(texts.last()));
        assert(keep_map(items, f) =~= texts);
    }
}

/// A compaction that starts on screen gets a card of its own, which says that it is
/// at work, and the session says so too. The turn remembers the card.
pub proof fn lemma_compaction_begins(
    event: JsonView,
    context: ContextView,
    turn: TurnView,
    fresh: u128,
)
    requires
        event.text_at("type"@) == Some("compaction_start"@),
    ensures
        ({
            let (outcome, after) = translated(event, context, turn, fresh);
            &&& outcome.effects.len() == 0
            &&& after.pending_prompt == turn.pending_prompt
            &&& after.reply_error == turn.reply_error
            &&& after.assistant_message_id == turn.assistant_message_id
            &&& context.is_active ==> {
                &&& outcome.actions.len() == 3
                &&& outcome.actions[1] matches ActionView::UpsertConversation(card) && {
                    &&& after.compaction_item_id == Some(card.id)
                    &&& card.full_text == "Compacting…"@
                    &&& card.role == ConversationRole::Tool
                    &&& card.tool_name == Some("compact"@)
                    &&& !card.is_error
                    &&& !card.streaming
                    &&& card.tool_report is None
                    &&& card.tool_details is None
                }
                &&& outcome.actions[2] == ActionView::SetSessionStatus(StatusView::Compacting)
            }
            &&& !context.is_active ==> outcome.actions.len() == 1 && after.compaction_item_id
                == turn.compaction_item_id
        }),
{
    lemma_kinds();
}

/// Whether an error only says that there was nothing to compact.
pub open spec fn had_nothing_to_compact(error: Seq<char>) -> bool {
    occurs(error, "Nothing to compact"@)
}

/// A compaction that ends says how: its card, and the session's status, show the
/// error where there is one, unless there was only nothing to compact. What was held
/// back is sent, and the turn forgets the card.
pub proof fn lemma_compaction_finishes(
    event: JsonView,
    context: ContextView,
    turn: TurnView,
    fresh: u128,
    error: Seq<char>,
)
    requires
        event.text_at("type"@) == Some("compaction_end"@),
    ensures
        ({
            let (outcome, after) = translated(event, context, turn, fresh);
            let failed = event.text_at("errorMessage"@) == Some(error) && !had_nothing_to_compact(
                error,
            );
            let idle = event.text_at("errorMessage"@) == Some(error) && had_nothing_to_compact(
                error,
            );
            let done = event.text_at("errorMessage"@) is None;
            &&& after.compaction_item_id is None
            &&& after.pending_prompt is None
            &&& done ==> after.conversation_compacted
            &&& failed || idle ==> !after.conversation_compacted
            &&& after.reply_error == turn.reply_error
            &&& after.assistant_message_id == turn.assistant_message_id
            &&& turn.pending_prompt is None ==> outcome.effects.len() == 0
            &&& !context.is_active ==> outcome.actions.len() == 1
            &&& context.is_active ==> {
                &&& outcome.actions.len() == if turn.compaction_item_id is Some {
                    3int
                } else {
                    2int
                }
                &&& failed ==> outcome.actions[1] == ActionView::SetSessionStatus(
                    StatusView::Failed(error),
                )
                &&& idle || done ==> outcome.actions[1] == ActionView::SetSessionStatus(
                    StatusView::Ready,
                )
            }
            &&& context.is_active && turn.compaction_item_id is Some ==> {
                outcome.actions[2] matches ActionView::UpsertConversation(card) && {
                    &&& Some(card.id) == turn.compaction_item_id
                    &&& failed ==> card.full_text == error && card.is_error
                    &&& idle ==> card.full_text == "Nothing to compact (session too small)"@
                        && !card.is_error
                    &&& done ==> card.full_text == compaction_text(event.field("result"@))
                        && !card.is_error
                    &&& card.role == ConversationRole::Tool
                    &&& card.tool_name == Some("compact"@)
                }
            }
        }),
{
    lemma_kinds();
}

/// The words on a compaction tell the tokens before and after it, as far as both or
/// the first is known.
pub proof fn lemma_compaction_words(result: JsonView, before: i64, after: i64)
    ensures
        result.signed_at("tokensBefore"@) == Some(before) && result.signed_at(
            "estimatedTokensAfter"@,
        ) == Some(after) ==> compaction_text(Some(result)) == "Compacted context · "@
            + token_count_text(before) + " → "@ + token_count_text(after) + " tokens"@,
        result.signed_at("tokensBefore"@) == Some(before) && result.signed_at(
            "estimatedTokensAfter"@,
        ) is None ==> compaction_text(Some(result)) == "Compacted context · "@ + token_count_text(
            before,
        ) + " tokens before"@,
        result.signed_at("tokensBefore"@) is None ==> compaction_text(Some(result))
            == "Compacted context"@,
        compaction_text(None) == "Compacted context"@,
{
}

/// An entry of the transcript is shown under its own id, in the role of its message,
/// and is an error exactly where the message says so or says nothing. Roles that are
/// not shown give no entry.
pub proof fn lemma_transcript_entries(entry: JsonView, message: JsonView)
    requires
        entry.text_at("type"@) != Some("compaction"@),
        entry.field("message"@) == Some(message),
    ensures
        ({
            let role = message.text_at("role"@);
            let shown = transcript_entry(entry);
            &&& shown is Some <==> role == Some("user"@) || role == Some("assistant"@) || role
                == Some("toolResult"@) || role == Some("bashExecution"@)
            &&& shown matches Some(item) ==> {
                &&& entry.text_at("id"@) is Some ==> Some(item.id) == entry.text_at("id"@)
                &&& item.role == ConversationRole::User <==> role == Some("user"@)
                &&& item.role == ConversationRole::Assistant <==> role == Some("assistant"@)
                &&& item.role == ConversationRole::Tool <==> role == Some("toolResult"@) || role
                    == Some("bashExecution"@)
                &&& !item.streaming
                &&& item.tool_name == message.text_at("toolName"@)
                &&& item.model == message.text_at("model"@)
                &&& item.attachments.len() == 0
                &&& item.is_error <==> message.truth_at("isError"@) == Some(true) || (role == Some(
                    "assistant"@,
                ) && says_nothing(message))
                &&& role == Some("user"@) ==> item.tool_report is None && item.tool_details is None
                &&& role == Some("assistant"@) ==> item.tool_report is None
                    && item.tool_details is None
            }
        }),
{
    lemma_role_names();
    lemma_trim_blank(reply_text(message));
    lemma_says_nothing(message);
}

proof fn lemma_role_names()
    ensures
        "user"@.len() == 4,
        "assistant"@.len() == 9,
        "toolResult"@.len() == 10,
        "bashExecution"@.len() == 13,
{
    reveal_strlit("user");
    reveal_strlit("assistant");
    reveal_strlit("toolResult");
    reveal_strlit("bashExecution");
}

proof fn lemma_says_nothing(message: JsonView)
    ensures
        says_nothing(message) <==> crate::events::is_empty_reply(message),
{
    lemma_trim_blank(reply_text(message));
    if let Some(parts) = message.items_at("content"@) {
        if calls_no_tool(parts) {
            assert(forall|i: int|
                0 <= i < parts.len() ==> !crate::events::is_tool_call(#[trigger] parts[i]));
        }
        if forall|i: int|
            0 <= i < parts.len() ==> !crate::events::is_tool_call(#[trigger] parts[i]) {
            assert forall|i: int| 0 <= i < parts.len() implies (#[trigger] parts[i]).text_at(
                "type"@,
            ) != Some("toolCall"@) by {
                assert(!crate::events::is_tool_call(parts[i]));
            }
        }
    }
}

/// What an entry of the transcript says is what its message holds: a prompt its
/// content, a reply its text, and the result of a tool what it came to.
pub proof fn lemma_transcript_texts(entry: JsonView, message: JsonView)
    requires
        entry.text_at("type"@) != Some("compaction"@),
        entry.field("message"@) == Some(message),
    ensures
        ({
            let role = message.text_at("role"@);
            let item = transcript_entry(entry)->0;
            let content = message.field("content"@);
            &&& role == Some("user"@) && content_of(content) is Some ==> Some(item.full_text)
                == content_of(content)
            &&& role == Some("user"@) && content_of(content) is None ==> item.full_text == compact(
                message,
            )
            &&& role == Some("assistant"@) && says_nothing(message) ==> item.full_text
                == "The provider returned an empty response. Retry the request or switch models."@
            &&& role == Some("assistant"@) && !says_nothing(message) ==> item.full_text
                == reply_text(message)
            &&& role == Some("toolResult"@) || role == Some("bashExecution"@) ==> {
                let failed = message.truth_at("isError"@) == Some(true);
                &&& item.tool_details == Some(compact(message))
                &&& failed && is_blank(readable(content)) ==> item.full_text == "Failed"@
                &&& failed && !is_blank(readable(content)) ==> item.full_text == "Failed: "@
                    + compacted(readable(content))
                &&& failed && !is_blank(readable(content)) ==> item.tool_report == Some(
                    "Failed:\n"@ + readable(content),
                )
                &&& !failed ==> item.full_text == text_summary(
                    message.text_at("toolName"@),
                    readable(content),
                    false,
                )
                &&& !failed ==> item.tool_report == Some(
                    text_report(message.text_at("toolName"@), readable(content), None, false),
                )
            }
        }),
{
    lemma_role_names();
    lemma_says_nothing(message);
    lemma_nothing_is_empty();
    let text = readable(message.field("content"@));
    lemma_failures_are_told(message.text_at("toolName"@), text);
    lemma_failures_are_reported(message.text_at("toolName"@), text, None);
}

/// A compaction in the transcript is shown as a card that is no error, with the words
/// on what it saved and the summary that it wrote.
pub proof fn lemma_transcript_compactions(entry: JsonView)
    requires
        entry.text_at("type"@) == Some("compaction"@),
    ensures
        transcript_entry(entry) matches Some(card) && {
            &&& entry.text_at("id"@) is Some ==> Some(card.id) == entry.text_at("id"@)
            &&& entry.text_at("id"@) is None ==> card.id == "compaction"@
            &&& card.full_text == compaction_text(Some(entry))
            &&& card.role == ConversationRole::Tool
            &&& card.tool_name == Some("compact"@)
            &&& !card.is_error
            &&& !card.streaming
            &&& entry.text_at("summary"@) matches Some(summary) ==> {
                &&& is_blank(summary) ==> card.tool_report is None
                &&& !is_blank(summary) ==> card.tool_report == Some(summary)
            }
            &&& entry.text_at("summary"@) is None ==> card.tool_report is None
        },
{
    if let Some(summary) = entry.text_at("summary"@) {
        lemma_trim_blank(summary);
    }
}

/// An entry that is appended on screen is shown as the transcript shows it. Where it
/// records a compaction whose card is on screen under another id, the card is moved
/// to the entry's id first, and the turn remembers that id.
pub proof fn lemma_appended_entries(
    event: JsonView,
    entry: JsonView,
    context: ContextView,
    turn: TurnView,
    fresh: u128,
)
    requires
        event.text_at("type"@) == Some("entry_appended"@),
        event.field("entry"@) == Some(entry),
        context.is_active,
    ensures
        ({
            let (outcome, after) = translated(event, context, turn, fresh);
            let recorded = if entry.text_at("type"@) == Some("compaction"@) {
                entry.text_at("id"@)
            } else {
                None
            };
            let moves = recorded is Some && turn.compaction_item_id is Some
                && turn.compaction_item_id != recorded;
            &&& outcome.effects.len() == 0
            &&& recorded is Some ==> after.compaction_item_id == recorded
            &&& recorded is None ==> after == turn
            &&& after.pending_prompt == turn.pending_prompt && after.running == turn.running
            &&& moves ==> outcome.actions.len() == 2 && outcome.actions[0]
                == (ActionView::RekeyConversation {
                from: turn.compaction_item_id->0,
                to: recorded->0,
            })
            &&& transcript_entry(entry) is Some ==> outcome.actions.len() > 0
                && outcome.actions.last() == ActionView::UpsertConversation(
                transcript_entry(entry)->0,
            )
            &&& !moves ==> outcome.actions.len() == if transcript_entry(entry) is Some {
                1int
            } else {
                0int
            }
        }),
{
    lemma_kinds();
}

/// A new identifier is taken exactly where the first piece of a reply on screen comes
/// without one; every other event comes to the same whatever the identifier.
pub proof fn lemma_when_identifiers_are_taken(
    event: JsonView,
    context: ContextView,
    turn: TurnView,
    fresh: u128,
    fresher: u128,
)
    ensures
        takes_fresh_id(event, context, turn) <==> {
            &&& event.text_at("type"@) == Some("message_start"@) || event.text_at("type"@) == Some(
                "message_update"@,
            )
            &&& event.field("message"@) matches Some(message) && message.text_at("role"@) == Some(
                "assistant"@,
            ) && message.text_at("id"@) is None
            &&& context.is_active
            &&& turn.assistant_message_id is None
        },
        !takes_fresh_id(event, context, turn) ==> translated(event, context, turn, fresh)
            == translated(event, context, turn, fresher),
{
}

/// The card of a compaction is called after the moment that it started at, so that one
/// of another moment has another.
pub proof fn lemma_cards_of_compactions(now_ms: i64)
    ensures
        now_ms >= 0 ==> compaction_id(now_ms) == "compaction-"@ + decimal(now_ms as nat),
        now_ms < 0 ==> compaction_id(now_ms) == "compaction-"@ + ("-"@ + decimal((-now_ms) as nat)),
{
}

/// An entry of the transcript without an id goes by a general word.
pub proof fn lemma_entries_without_an_id(entry: JsonView)
    requires
        entry.text_at("id"@) is None,
    ensures
        transcript_entry(entry) matches Some(item) ==> if entry.text_at("type"@) == Some(
            "compaction"@,
        ) {
            item.id == "compaction"@
        } else {
            item.id == "entry"@
        },
{
}

/// A number of tokens is shown with its sign and all of its digits.
pub proof fn lemma_token_counts(value: i64)
    ensures
        value >= 0 ==> token_count_text(value) == grouped(decimal(value as nat)),
        value < 0 ==> token_count_text(value) == "-"@ + grouped(decimal((-value) as nat)),
        0 <= value < 1000 ==> token_count_text(value) == decimal(value as nat),
{
    if 0 <= value < 1000 {
        lemma_short_decimals(value as nat);
    }
}

proof fn lemma_short_decimals(n: nat)
    requires
        n < 1000,
    ensures
        decimal(n).len() <= 3,
{
    reveal_with_fuel(decimal, 4);
}

} // verus!
