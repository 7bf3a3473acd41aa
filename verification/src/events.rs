//! Pi's agent events, turned into changes of the application's state.
//!
//! [`translate`] takes an event, what the session looks like from outside and the
//! [`Turn`] that it updates, and returns the changes to apply. What it cannot do
//! itself, such as asking the agent or writing the session index, comes back as
//! an [`Effect`] for the host to carry out.

use vstd::prelude::*;

use crate::domain::{
    Action, ActionView, AttachmentView, ConversationItem, ConversationRole, ItemView,
    SessionStatus, StatusView, SubmitMode,
};
use crate::ids::{fresh_id, hyphenated, hyphenated_text};
use crate::json::{
    compact, is_plain, lemma_members_view, members_view, opt_json, pretty, Json, JsonView,
};
use crate::pool::{prompt_view, PendingPrompt, Turn, TurnView};
use crate::protocol::{
    assistant_text, call_report, content_of, content_text, event_details, input_of, is_tool_end,
    opt_bool_at, opt_field, opt_get, opt_str_at, opt_text_at, opt_truth_at, or_str, or_text,
    recorded_input, reply_text, result_report, result_summary, tool_call_report, tool_event_details,
    tool_result_report, tool_result_summary,
};
use crate::text::{
    blank, cat2, cat3, cat5, chars_of, decimal, decimal_string, occurs, opt_as_str, opt_str, same,
    string_of, text_contains, trim,
};
use crate::views::{
    find_first, keep_map, lemma_find_step, lemma_keep_map_step, lemma_views_push, opt_view, views,
};

verus! {

/// What a reply that ended without content is shown as.
pub const EMPTY_PROVIDER_RESPONSE: &'static str =
    "The provider returned an empty response. Retry the request or switch models.";

/// The text of [`EMPTY_PROVIDER_RESPONSE`].
pub open spec fn empty_response_text() -> Seq<char> {
    "The provider returned an empty response. Retry the request or switch models."@
}

fn empty_response() -> (r: String)
    ensures
        r@ == empty_response_text(),
{
    "The provider returned an empty response. Retry the request or switch models.".to_owned()
}

/// Work that the translation cannot do itself. The host performs it in order once
/// the changes have been applied.
#[derive(Debug, PartialEq)]
pub enum Effect {
    /// Re-read the transcript path from the agent and index it.
    SyncSessionFile,
    /// Index the transcript under a name that Pi just reported for it.
    RenameSessionFile(Option<String>),
    /// Reload the visible conversation from the agent's own record of it.
    ReloadEntries,
    /// Re-read the agent's control state.
    RefreshControls,
    /// Send the prompt that was held back until compaction finished.
    SendPendingPrompt(PendingPrompt),
}

/// What an effect holds.
#[verifier::ext_equal]
pub enum EffectView {
    SyncSessionFile,
    RenameSessionFile(Option<Seq<char>>),
    ReloadEntries,
    RefreshControls,
    SendPendingPrompt((Seq<char>, Seq<AttachmentView>, SubmitMode)),
}

impl View for Effect {
    type V = EffectView;

    open spec fn view(&self) -> EffectView {
        match *self {
            Effect::SyncSessionFile => EffectView::SyncSessionFile,
            Effect::RenameSessionFile(name) => EffectView::RenameSessionFile(opt_view(name)),
            Effect::ReloadEntries => EffectView::ReloadEntries,
            Effect::RefreshControls => EffectView::RefreshControls,
            Effect::SendPendingPrompt(prompt) => EffectView::SendPendingPrompt(prompt_view(prompt)),
        }
    }
}

/// The changes to apply, and what to do afterwards.
#[derive(Debug, PartialEq)]
pub struct Outcome {
    pub actions: Vec<Action>,
    pub effects: Vec<Effect>,
}

/// What an outcome holds.
#[verifier::ext_equal]
pub struct OutcomeView {
    pub actions: Seq<ActionView>,
    pub effects: Seq<EffectView>,
}

impl View for Outcome {
    type V = OutcomeView;

    open spec fn view(&self) -> OutcomeView {
        OutcomeView { actions: views(self.actions@), effects: views(self.effects@) }
    }
}

/// Nothing to do.
pub open spec fn nothing() -> OutcomeView {
    OutcomeView { actions: Seq::empty(), effects: Seq::empty() }
}

impl Default for Outcome {
    fn default() -> (r: Self)
        ensures
            r@ == nothing(),
    {
        let r = Outcome { actions: Vec::new(), effects: Vec::new() };
        proof {
            assert(r@ =~= nothing());
        }
        r
    }
}

impl Outcome {
    fn act(&mut self, action: Action)
        ensures
            final(self)@ == (OutcomeView {
                actions: old(self)@.actions.push(action@),
                effects: old(self)@.effects,
            }),
    {
        proof {
            lemma_views_push(self.actions@, action);
        }
        self.actions.push(action);
    }

    fn effect(&mut self, effect: Effect)
        ensures
            final(self)@ == (OutcomeView {
                actions: old(self)@.actions,
                effects: old(self)@.effects.push(effect@),
            }),
    {
        proof {
            lemma_views_push(self.effects@, effect);
        }
        self.effects.push(effect);
    }

    fn session_running(&mut self, context: &Context, running: bool)
        ensures
            final(self)@ == (OutcomeView {
                actions: old(self)@.actions.push(running_action(context@, running)),
                effects: old(self)@.effects,
            }),
    {
        self.act(Action::SessionRunning { path: context.key.to_owned(), running });
    }
}

/// What the session looks like from outside while one event is translated.
#[derive(Clone, Copy)]
pub struct Context<'a> {
    /// The key that the session is pooled under.
    pub key: &'a str,
    /// Whether this is the session that the conversation view is showing.
    pub is_active: bool,
    /// The conversation as it stands, for events that amend an entry.
    pub conversation: &'a [ConversationItem],
    /// Wall clock, for ids that are unique within a session.
    pub now_ms: i64,
}

/// What a context holds.
pub struct ContextView {
    pub key: Seq<char>,
    pub is_active: bool,
    pub conversation: Seq<ItemView>,
    pub now_ms: i64,
}

impl<'a> View for Context<'a> {
    type V = ContextView;

    open spec fn view(&self) -> ContextView {
        ContextView {
            key: self.key@,
            is_active: self.is_active,
            conversation: views(self.conversation@),
            now_ms: self.now_ms,
        }
    }
}

/// The busy mark of the session.
pub open spec fn running_action(context: ContextView, running: bool) -> ActionView {
    ActionView::SessionRunning { path: context.key, running }
}

/// The strings among the items of an array, or none where it is no array.
pub open spec fn strings_of(value: Option<JsonView>) -> Seq<Seq<char>> {
    match value {
        Some(JsonView::Array(items)) => keep_map(items, |item: JsonView| item.text()),
        _ => Seq::empty(),
    }
}

/// The strings among the items of an array, or none where it is no array.
pub fn string_list(value: Option<&Json>) -> (r: Vec<String>)
    ensures
        views(r@) == strings_of(opt_json(value)),
{
    let mut out: Vec<String> = Vec::new();
    proof {
        assert(views(out@) =~= Seq::empty());
    }
    if let Some(value) = value {
        if let Some(items) = value.as_array() {
            let ghost f = |item: JsonView| item.text();
            let mut i: usize = 0;
            proof {
                assert(views(items@).take(0) =~= Seq::empty());
            }
            while i < items.len()
                invariant
                    i <= items@.len(),
                    f == (|item: JsonView| item.text()),
                    views(out@) == keep_map(views(items@).take(i as int), f),
                decreases items@.len() - i,
            {
                proof {
                    lemma_keep_map_step(views(items@), f, i as int);
                }
                if let Some(text) = items[i].as_str() {
                    let text = text.to_owned();
                    proof {
                        lemma_views_push(out@, text);
                    }
                    out.push(text);
                }
                i = i + 1;
            }
            proof {
                assert(views(items@).take(i as int) =~= views(items@));
            }
        }
    }
    out
}

/// Digits in groups of three, counted from the right.
pub open spec fn grouped(digits: Seq<char>) -> Seq<char>
    decreases digits.len(),
{
    if digits.len() <= 3 {
        digits
    } else {
        grouped(digits.take(digits.len() - 3)) + ","@ + digits.skip(digits.len() - 3)
    }
}

/// A number with its digits in groups of three.
pub open spec fn token_count_text(value: i64) -> Seq<char> {
    if value < 0 {
        "-"@ + grouped(decimal((-value) as nat))
    } else {
        grouped(decimal(value as nat))
    }
}

/// The first `end` digits in groups of three.
fn group_digits(digits: &Vec<char>, end: usize) -> (r: String)
    requires
        end <= digits@.len(),
    ensures
        r@ == grouped(digits@.take(end as int)),
    decreases end,
{
    let ghost all = digits@.take(end as int);
    if end <= 3 {
        let out = string_of(digits, 0, end);
        proof {
            assert(out@ =~= all);
        }
        return out;
    }
    let head = group_digits(digits, end - 3);
    let tail = string_of(digits, end - 3, end);
    proof {
        assert(all.take(all.len() - 3) =~= digits@.take(end - 3));
        assert(all.skip(all.len() - 3) =~= tail@);
    }
    cat3(head.as_str(), ",", tail.as_str())
}

/// A number with its digits in groups of three.
pub fn format_token_count(value: i64) -> (r: String)
    ensures
        r@ == token_count_text(value),
{
    let magnitude: u64 = if value >= 0 {
        value as u64
    } else if value == i64::MIN {
        9223372036854775808
    } else {
        (-value) as u64
    };
    let digits = chars_of(decimal_string(magnitude).as_str());
    proof {
        assert(digits@.take(digits@.len() as int) =~= digits@);
    }
    let out = group_digits(&digits, digits.len());
    if value < 0 {
        cat2("-", out.as_str())
    } else {
        out
    }
}

/// Grouping only adds commas: without them the digits are what they were.
pub proof fn lemma_grouping_keeps_digits(digits: Seq<char>)
    requires
        forall|i: int| 0 <= i < digits.len() ==> #[trigger] digits[i] != ',',
    ensures
        grouped(digits).filter(|c: char| c != ',') == digits,
    decreases digits.len(),
{
    let f = |c: char| c != ',';
    if digits.len() <= 3 {
        lemma_filter_keeps(digits);
    } else {
        let head = digits.take(digits.len() - 3);
        let tail = digits.skip(digits.len() - 3);
        lemma_grouping_keeps_digits(head);
        lemma_filter_keeps(tail);
        reveal_strlit(",");
        Seq::filter_distributes_over_add(grouped(head) + ","@, tail, f);
        Seq::filter_distributes_over_add(grouped(head), ","@, f);
        assert(","@ =~= seq![',']);
        assert(seq![','].filter(f) =~= Seq::<char>::empty()) by {
            reveal(Seq::filter);
            assert(seq![','].drop_last() =~= Seq::<char>::empty());
            assert(Seq::<char>::empty().filter(f) =~= Seq::<char>::empty());
        }
        assert(head + Seq::<char>::empty() + tail =~= digits);
    }
}

proof fn lemma_filter_keeps(s: Seq<char>)
    requires
        forall|i: int| 0 <= i < s.len() ==> #[trigger] s[i] != ',',
    ensures
        s.filter(|c: char| c != ',') == s,
    decreases s.len(),
{
    reveal(Seq::filter);
    if s.len() > 0 {
        assert(s.last() != ',');
        assert forall|i: int| 0 <= i < s.drop_last().len() implies #[trigger] s.drop_last()[i]
            != ',' by {
            assert(s.drop_last()[i] == s[i]);
        }
        lemma_filter_keeps(s.drop_last());
        assert(s.drop_last().push(s.last()) =~= s);
    }
}

/// What a compaction saved, when Pi says.
pub open spec fn compaction_text(result: Option<JsonView>) -> Seq<char> {
    let number = |key: Seq<char>|
        match result {
            Some(result) => result.signed_at(key),
            None => None,
        };
    match (number("tokensBefore"@), number("estimatedTokensAfter"@)) {
        (Some(before), Some(after)) => "Compacted context · "@ + token_count_text(before) + " → "@
            + token_count_text(after) + " tokens"@,
        (Some(before), None) => "Compacted context · "@ + token_count_text(before)
            + " tokens before"@,
        _ => "Compacted context"@,
    }
}

/// What a compaction saved, when Pi says.
pub fn compaction_summary(result: Option<&Json>) -> (r: String)
    ensures
        r@ == compaction_text(opt_json(result)),
{
    let (before, after): (Option<i64>, Option<i64>) = match result {
        Some(result) => (result.i64_at("tokensBefore"), result.i64_at("estimatedTokensAfter")),
        None => (None, None),
    };
    match (before, after) {
        (Some(before), Some(after)) => cat5(
            "Compacted context · ",
            format_token_count(before).as_str(),
            " → ",
            format_token_count(after).as_str(),
            " tokens",
        ),
        (Some(before), None) => cat3(
            "Compacted context · ",
            format_token_count(before).as_str(),
            " tokens before",
        ),
        _ => "Compacted context".to_owned(),
    }
}

/// The member called `key`, if there is one.
pub open spec fn member(payload: JsonView, key: Seq<char>) -> Seq<(Seq<char>, JsonView)> {
    match payload.field(key) {
        Some(value) => seq![(key, value)],
        None => Seq::empty(),
    }
}

/// What a compaction recorded besides its summary.
pub open spec fn compaction_members(payload: JsonView) -> Seq<(Seq<char>, JsonView)> {
    member(payload, "tokensBefore"@) + member(payload, "estimatedTokensAfter"@) + member(
        payload,
        "firstKeptEntryId"@,
    ) + member(payload, "details"@) + member(payload, "usage"@) + member(payload, "fromHook"@)
}

/// The raw data of a compaction, without the summary that is shown anyway.
pub open spec fn compaction_details_text(payload: JsonView) -> Option<Seq<char>> {
    if compaction_members(payload).len() == 0 {
        None
    } else {
        Some(pretty(JsonView::Object(compaction_members(payload))))
    }
}

fn push_member(members: &mut Vec<(String, Json)>, payload: &Json, key: &str)
    ensures
        members_view(*final(members), final(members).len() as nat) == members_view(
            *old(members),
            old(members).len() as nat,
        ) + member(payload@, key@),
{
    proof {
        lemma_members_view(*members, members.len() as nat);
    }
    let ghost before = *members;
    if let Some(value) = payload.get(key) {
        members.push((key.to_owned(), value.copy()));
        proof {
            lemma_members_view(*members, members.len() as nat);
        }
    }
    proof {
        assert(members_view(*members, members.len() as nat) =~= members_view(
            before,
            before.len() as nat,
        ) + member(payload@, key@));
    }
}

/// The raw data of a compaction, without the summary that is shown anyway.
pub fn compaction_details(payload: &Json) -> (r: Option<String>)
    ensures
        opt_view(r) == compaction_details_text(payload@),
{
    let mut members: Vec<(String, Json)> = Vec::new();
    push_member(&mut members, payload, "tokensBefore");
    push_member(&mut members, payload, "estimatedTokensAfter");
    push_member(&mut members, payload, "firstKeptEntryId");
    push_member(&mut members, payload, "details");
    push_member(&mut members, payload, "usage");
    push_member(&mut members, payload, "fromHook");
    proof {
        lemma_members_view(members, members.len() as nat);
        assert(members_view(members, members.len() as nat) =~= compaction_members(payload@));
    }
    if members.len() == 0 {
        return None;
    }
    Some(Json::Object(members).to_pretty())
}

/// The card of a compaction.
pub open spec fn compaction_entry(
    id: Seq<char>,
    text: Seq<char>,
    payload: Option<JsonView>,
    is_error: bool,
) -> ItemView {
    ItemView {
        id,
        role: ConversationRole::Tool,
        full_text: text,
        streaming: false,
        tool_name: Some("compact"@),
        tool_report: match opt_text_at(payload, "summary"@) {
            Some(summary) => if trim(summary).len() == 0 {
                None
            } else {
                Some(summary)
            },
            None => None,
        },
        tool_details: match payload {
            Some(payload) => compaction_details_text(payload),
            None => None,
        },
        is_error,
        model: None,
        attachments: Seq::empty(),
    }
}

/// The card of a compaction, live or read back from the transcript.
pub fn compaction_card(
    id: String,
    text: String,
    payload: Option<&Json>,
    is_error: bool,
) -> (r: ConversationItem)
    ensures
        r@ == compaction_entry(id@, text@, opt_json(payload), is_error),
{
    let tool_report = match opt_str_at(payload, "summary") {
        Some(summary) => if blank(summary) {
            None
        } else {
            Some(summary.to_owned())
        },
        None => None,
    };
    let tool_details = match payload {
        Some(payload) => compaction_details(payload),
        None => None,
    };
    let r = ConversationItem {
        id,
        role: ConversationRole::Tool,
        full_text: text,
        streaming: false,
        tool_name: Some("compact".to_owned()),
        tool_report,
        tool_details,
        is_error,
        model: None,
        attachments: Vec::new(),
    };
    proof {
        assert(r@.attachments =~= Seq::empty());
    }
    r
}

/// An entry of the assistant.
pub open spec fn assistant_entry(
    message: JsonView,
    id: Seq<char>,
    text: Seq<char>,
    streaming: bool,
    is_error: bool,
) -> ItemView {
    ItemView {
        id,
        role: ConversationRole::Assistant,
        full_text: text,
        streaming,
        tool_name: None,
        tool_report: None,
        tool_details: None,
        is_error,
        model: message.text_at("model"@),
        attachments: Seq::empty(),
    }
}

fn owned(s: Option<&str>) -> (r: Option<String>)
    ensures
        opt_view(r) == opt_str(s),
{
    match s {
        Some(s) => Some(s.to_owned()),
        None => None,
    }
}

/// An entry of the assistant.
pub fn assistant_item(
    message: &Json,
    id: String,
    full_text: String,
    streaming: bool,
    is_error: bool,
) -> (r: ConversationItem)
    ensures
        r@ == assistant_entry(message@, id@, full_text@, streaming, is_error),
{
    let r = ConversationItem {
        id,
        role: ConversationRole::Assistant,
        full_text,
        streaming,
        tool_name: None,
        tool_report: None,
        tool_details: None,
        is_error,
        model: owned(message.str_at("model")),
        attachments: Vec::new(),
    };
    proof {
        assert(r@.attachments =~= Seq::empty());
    }
    r
}

/// Whether a part of a reply calls a tool.
pub open spec fn is_tool_call(part: JsonView) -> bool {
    part.text_at("type"@) == Some("toolCall"@)
}

/// Whether a reply ended well with neither text nor a tool call, which is no
/// reply.
pub open spec fn is_empty_reply(message: JsonView) -> bool {
    &&& message.text_at("stopReason"@) == Some("stop"@)
    &&& trim(reply_text(message)).len() == 0
    &&& match message.items_at("content"@) {
        Some(parts) => forall|i: int| 0 <= i < parts.len() ==> !is_tool_call(#[trigger] parts[i]),
        None => true,
    }
}

/// Whether a reply ended well with neither text nor a tool call.
pub fn empty_successful_assistant(message: &Json) -> (r: bool)
    ensures
        r == is_empty_reply(message@),
{
    let stopped = match message.str_at("stopReason") {
        Some(reason) => same(reason, "stop"),
        None => false,
    };
    if !stopped || !blank(assistant_text(message).as_str()) {
        return false;
    }
    match message.array_at("content") {
        Some(parts) => {
            let mut i: usize = 0;
            while i < parts.len()
                invariant
                    i <= parts@.len(),
                    message@.items_at("content"@) == Some(views(parts@)),
                    forall|k: int| 0 <= k < i ==> !is_tool_call(#[trigger] parts@[k]@),
                decreases parts@.len() - i,
            {
                let calls = match parts[i].str_at("type") {
                    Some(kind) => same(kind, "toolCall"),
                    None => false,
                };
                if calls {
                    proof {
                        let all = message@.items_at("content"@)->0;
                        assert(all[i as int] == parts@[i as int]@);
                        assert(is_tool_call(all[i as int]));
                        assert(!is_empty_reply(message@));
                    }
                    return false;
                }
                i = i + 1;
            }
            proof {
                assert forall|k: int| 0 <= k < views(parts@).len() implies !is_tool_call(
                    #[trigger] views(parts@)[k],
                ) by {
                    assert(!is_tool_call(parts@[k]@));
                }
            }
            true
        },
        None => true,
    }
}

/// What a tool's event names the tool.
pub open spec fn event_tool(event: JsonView) -> Seq<char> {
    or_text(event.text_at("toolName"@), "tool"@)
}

/// The entry that a tool's event belongs to.
pub open spec fn event_call_id(event: JsonView) -> Seq<char> {
    or_text(event.text_at("toolCallId"@), event_tool(event))
}

/// The entry called `id`.
pub open spec fn entry_called(conversation: Seq<ItemView>, id: Seq<char>) -> Option<ItemView> {
    find_first(conversation, |item: ItemView| item.id == id)
}

/// The card of a tool call or of its result. A result builds on the report and
/// the details of the call that it ends.
pub open spec fn tool_entry(event: JsonView, conversation: Seq<ItemView>) -> ItemView {
    let name = event_tool(event);
    let id = event_call_id(event);
    let is_error = opt_truth_at(Some(event), "isError"@, false);
    let previous = entry_called(conversation, id);
    let previous_report = match previous {
        Some(item) => item.tool_report,
        None => None,
    };
    let previous_details = match previous {
        Some(item) => item.tool_details,
        None => None,
    };
    let ended = is_tool_end(event);
    let content = opt_field(event.field("result"@), "content"@);
    ItemView {
        id,
        role: ConversationRole::Tool,
        full_text: if ended {
            result_summary(Some(name), content, is_error)
        } else {
            "Running…"@
        },
        streaming: false,
        tool_name: Some(name),
        tool_report: Some(
            if ended {
                result_report(Some(name), content, previous_report, is_error)
            } else {
                call_report(name, event.field("args"@))
            },
        ),
        tool_details: Some(pretty(event_details(event, previous_details))),
        is_error,
        model: None,
        attachments: Seq::empty(),
    }
}

/// The entry called `id`.
fn find_entry<'a>(conversation: &'a [ConversationItem], id: &str) -> (r: Option<
    &'a ConversationItem,
>)
    ensures
        match r {
            Some(item) => entry_called(views(conversation@), id@) == Some(item@),
            None => entry_called(views(conversation@), id@) is None,
        },
{
    let ghost all = views(conversation@);
    let ghost f = |item: ItemView| item.id == id@;
    let mut i: usize = 0;
    proof {
        assert(all.skip(0) =~= all);
    }
    while i < conversation.len()
        invariant
            i <= conversation@.len(),
            all == views(conversation@),
            f == (|item: ItemView| item.id == id@),
            find_first(all, f) == find_first(all.skip(i as int), f),
        decreases conversation@.len() - i,
    {
        proof {
            lemma_find_step(all, f, i as int);
        }
        if same(conversation[i].id.as_str(), id) {
            return Some(&conversation[i]);
        }
        i = i + 1;
    }
    None
}

/// A tool call or its result, as an entry of the conversation. The entry of a call
/// remembers what the tool was called with.
pub fn tool_event_action(event: &Json, conversation: &[ConversationItem]) -> (r: Action)
    ensures
        r@ == ActionView::UpsertConversation(tool_entry(event@, views(conversation@))),
        is_plain(event@) && !is_tool_end(event@) ==> recorded_input(
            tool_entry(event@, views(conversation@)).tool_details,
        ) == input_of(event@),
{
    let name = or_str(event.str_at("toolName"), "tool");
    let id = or_str(event.str_at("toolCallId"), name);
    let is_error = opt_bool_at(Some(event), "isError", false);
    let previous = find_entry(conversation, id);
    let previous_report = match previous {
        Some(item) => opt_as_str(&item.tool_report),
        None => None,
    };
    let previous_details = match previous {
        Some(item) => opt_as_str(&item.tool_details),
        None => None,
    };
    let ended = match event.str_at("type") {
        Some(kind) => same(kind, "tool_execution_end"),
        None => false,
    };
    let (content, report) = if ended {
        let result = opt_get(event.get("result"), "content");
        (
            tool_result_summary(Some(name), result, is_error),
            tool_result_report(Some(name), result, previous_report, is_error),
        )
    } else {
        ("Running…".to_owned(), tool_call_report(name, event.get("args")))
    };
    let item = ConversationItem {
        id: id.to_owned(),
        role: ConversationRole::Tool,
        full_text: content,
        streaming: false,
        tool_name: Some(name.to_owned()),
        tool_report: Some(report),
        tool_details: Some(tool_event_details(event, previous_details)),
        is_error,
        model: None,
        attachments: Vec::new(),
    };
    proof {
        assert(item@.attachments =~= Seq::empty());
    }
    Action::UpsertConversation(item)
}

/// The role that a message of the transcript is shown under.
pub open spec fn shown_role(role: Option<Seq<char>>) -> Option<ConversationRole> {
    if role == Some("user"@) {
        Some(ConversationRole::User)
    } else if role == Some("assistant"@) {
        Some(ConversationRole::Assistant)
    } else if role == Some("toolResult"@) || role == Some("bashExecution"@) {
        Some(ConversationRole::Tool)
    } else {
        None
    }
}

/// A message of the transcript, as an entry.
pub open spec fn message_entry(entry: JsonView, message: JsonView, role: ConversationRole) -> ItemView {
    let reported_error = opt_truth_at(Some(message), "isError"@, false);
    let empty = role == ConversationRole::Assistant && is_empty_reply(message);
    let is_error = reported_error || empty;
    let is_tool = role == ConversationRole::Tool;
    ItemView {
        id: or_text(entry.text_at("id"@), "entry"@),
        role,
        full_text: if empty {
            empty_response_text()
        } else if role == ConversationRole::Assistant {
            reply_text(message)
        } else if is_tool {
            result_summary(message.text_at("toolName"@), message.field("content"@), is_error)
        } else {
            or_text(content_of(message.field("content"@)), compact(message))
        },
        streaming: false,
        tool_name: message.text_at("toolName"@),
        tool_report: if is_tool {
            Some(
                result_report(
                    message.text_at("toolName"@),
                    message.field("content"@),
                    None,
                    is_error,
                ),
            )
        } else {
            None
        },
        tool_details: if is_tool {
            Some(compact(message))
        } else {
            None
        },
        is_error,
        model: message.text_at("model"@),
        attachments: Seq::empty(),
    }
}

/// An entry of the transcript, as an entry of the conversation. Roles that are
/// not shown give none.
pub open spec fn transcript_entry(entry: JsonView) -> Option<ItemView> {
    if entry.text_at("type"@) == Some("compaction"@) {
        Some(
            compaction_entry(
                or_text(entry.text_at("id"@), "compaction"@),
                compaction_text(Some(entry)),
                Some(entry),
                false,
            ),
        )
    } else {
        match entry.field("message"@) {
            Some(message) => match shown_role(message.text_at("role"@)) {
                Some(role) => Some(message_entry(entry, message, role)),
                None => None,
            },
            None => None,
        }
    }
}

/// The change that shows an entry.
pub open spec fn opt_upsert(item: Option<ItemView>) -> Option<ActionView> {
    match item {
        Some(item) => Some(ActionView::UpsertConversation(item)),
        None => None,
    }
}

/// The role that a message of the transcript is shown under.
fn role_of(message: &Json) -> (r: Option<ConversationRole>)
    ensures
        r == shown_role(message@.text_at("role"@)),
{
    let role = message.str_at("role")?;
    if same(role, "user") {
        Some(ConversationRole::User)
    } else if same(role, "assistant") {
        Some(ConversationRole::Assistant)
    } else if same(role, "toolResult") || same(role, "bashExecution") {
        Some(ConversationRole::Tool)
    } else {
        None
    }
}

/// A message of the transcript, as an entry.
fn message_item(entry: &Json, message: &Json, role: ConversationRole) -> (r: ConversationItem)
    ensures
        r@ == message_entry(entry@, message@, role),
{
    let reported_error = opt_bool_at(Some(message), "isError", false);
    let empty = matches!(role, ConversationRole::Assistant) && empty_successful_assistant(message);
    let is_error = reported_error || empty;
    let tool_name = message.str_at("toolName");
    let content = message.get("content");
    let text = if empty {
        empty_response()
    } else {
        match role {
            ConversationRole::Assistant => assistant_text(message),
            ConversationRole::Tool => tool_result_summary(tool_name, content, is_error),
            _ => match content_text(content) {
                Some(text) => text,
                None => message.to_compact(),
            },
        }
    };
    let (tool_report, tool_details) = match role {
        ConversationRole::Tool => (
            Some(tool_result_report(tool_name, content, None, is_error)),
            Some(message.to_compact()),
        ),
        _ => (None, None),
    };
    let item = ConversationItem {
        id: or_str(entry.str_at("id"), "entry").to_owned(),
        role,
        full_text: text,
        streaming: false,
        tool_name: owned(tool_name),
        tool_report,
        tool_details,
        is_error,
        model: owned(message.str_at("model")),
        attachments: Vec::new(),
    };
    proof {
        assert(item@.attachments =~= Seq::empty());
    }
    item
}

/// An entry of the agent's transcript, as an entry of the conversation. It serves
/// an entry appended live and a transcript that is read back whole.
pub fn session_entry_action(entry: &Json) -> (r: Option<Action>)
    ensures
        opt_view(r) == opt_upsert(transcript_entry(entry@)),
{
    let is_compaction = match entry.str_at("type") {
        Some(kind) => same(kind, "compaction"),
        None => false,
    };
    if is_compaction {
        let id = or_str(entry.str_at("id"), "compaction").to_owned();
        return Some(
            Action::UpsertConversation(
                compaction_card(id, compaction_summary(Some(entry)), Some(entry), false),
            ),
        );
    }
    let message = entry.get("message")?;
    let role = role_of(message)?;
    Some(Action::UpsertConversation(message_item(entry, message, role)))
}

/// The id that a streamed reply goes under: the one that Pi gave it, or the one
/// that is already streaming, or a new one.
pub open spec fn streamed_id(message: JsonView, turn: TurnView, fresh: u128) -> Seq<char> {
    match message.text_at("id"@) {
        Some(id) => id,
        None => match turn.assistant_message_id {
            Some(id) => id,
            None => hyphenated(fresh),
        },
    }
}

/// The message of an event.
pub open spec fn event_message(event: JsonView) -> JsonView {
    match event.field("message"@) {
        Some(message) => message,
        None => JsonView::Null,
    }
}

/// Moving an entry to another id, where they differ.
pub open spec fn rekey_actions(from: Option<Seq<char>>, to: Seq<char>) -> Seq<ActionView> {
    match from {
        Some(from) => if from == to {
            Seq::empty()
        } else {
            seq![ActionView::RekeyConversation { from, to }]
        },
        None => Seq::empty(),
    }
}

/// A reply that is arriving.
pub open spec fn streamed(
    event: JsonView,
    context: ContextView,
    turn: TurnView,
    fresh: u128,
) -> (OutcomeView, TurnView) {
    let message = event_message(event);
    let id = streamed_id(message, turn, fresh);
    if message.text_at("role"@) != Some("assistant"@) {
        (nothing(), turn)
    } else if !context.is_active {
        (
            OutcomeView {
                actions: seq![running_action(context, true)],
                effects: Seq::empty(),
            },
            TurnView { running: true, ..turn },
        )
    } else {
        (
            OutcomeView {
                actions: seq![running_action(context, true)] + rekey_actions(
                    turn.assistant_message_id,
                    id,
                ) + seq![
                    ActionView::UpsertConversation(
                        assistant_entry(message, id, reply_text(message), true, false),
                    ),
                ],
                effects: Seq::empty(),
            },
            TurnView {
                running: true,
                conversation_compacted: false,
                assistant_message_id: Some(id),
                ..turn
            },
        )
    }
}

/// A reply that has ended.
pub open spec fn reply_ended(message: JsonView, context: ContextView, turn: TurnView) -> (
    OutcomeView,
    TurnView,
) {
    let empty = is_empty_reply(message);
    let reply_error = if empty {
        Some(empty_response_text())
    } else {
        turn.reply_error
    };
    match turn.assistant_message_id {
        Some(id) if context.is_active => (
            OutcomeView {
                actions: if empty {
                    seq![
                        ActionView::UpsertConversation(
                            assistant_entry(message, id, empty_response_text(), false, true),
                        ),
                        ActionView::SetSessionStatus(StatusView::Failed(empty_response_text())),
                    ]
                } else {
                    seq![ActionView::FinishMessage(id)]
                },
                effects: Seq::empty(),
            },
            TurnView { assistant_message_id: None, reply_error, ..turn },
        ),
        _ => (nothing(), TurnView { reply_error, ..turn }),
    }
}

/// The agent has come to rest.
pub open spec fn settled(context: ContextView, turn: TurnView) -> (OutcomeView, TurnView) {
    (
        if context.is_active {
            OutcomeView {
                actions: seq![
                    running_action(context, false),
                    ActionView::SetSessionStatus(
                        match turn.reply_error {
                            Some(error) => StatusView::Failed(error),
                            None => StatusView::Ready,
                        },
                    ),
                ],
                effects: seq![
                    EffectView::SyncSessionFile,
                    EffectView::ReloadEntries,
                    EffectView::RefreshControls,
                ],
            }
        } else {
            OutcomeView {
                actions: seq![running_action(context, false)],
                effects: seq![EffectView::SyncSessionFile],
            }
        },
        TurnView { running: false, reply_error: None, ..turn },
    )
}

/// The id of the card of a compaction that starts at `now_ms`.
pub open spec fn compaction_id(now_ms: i64) -> Seq<char> {
    "compaction-"@ + if now_ms < 0 {
        "-"@ + decimal((-now_ms) as nat)
    } else {
        decimal(now_ms as nat)
    }
}

/// A compaction has started.
pub open spec fn compaction_started(context: ContextView, turn: TurnView) -> (
    OutcomeView,
    TurnView,
) {
    if context.is_active {
        let id = compaction_id(context.now_ms);
        (
            OutcomeView {
                actions: seq![
                    running_action(context, true),
                    ActionView::UpsertConversation(
                        compaction_entry(id, "Compacting…"@, None, false),
                    ),
                    ActionView::SetSessionStatus(StatusView::Compacting),
                ],
                effects: Seq::empty(),
            },
            TurnView { running: true, compaction_item_id: Some(id), ..turn },
        )
    } else {
        (
            OutcomeView {
                actions: seq![running_action(context, true)],
                effects: Seq::empty(),
            },
            TurnView { running: true, ..turn },
        )
    }
}

/// Whether an error says that there was nothing to compact, which is no failure.
pub open spec fn is_benign(error: Option<Seq<char>>) -> bool {
    match error {
        Some(error) => occurs(error, "Nothing to compact"@),
        None => false,
    }
}

/// The card of a compaction that has ended.
pub open spec fn ended_card(id: Seq<char>, event: JsonView) -> ItemView {
    let error = event.text_at("errorMessage"@);
    compaction_entry(
        id,
        match error {
            Some(error) => if is_benign(Some(error)) {
                "Nothing to compact (session too small)"@
            } else {
                error
            },
            None => compaction_text(event.field("result"@)),
        },
        event.field("result"@),
        error is Some && !is_benign(error),
    )
}

/// A compaction has ended.
pub open spec fn compaction_ended(event: JsonView, context: ContextView, turn: TurnView) -> (
    OutcomeView,
    TurnView,
) {
    let error = event.text_at("errorMessage"@);
    (
        OutcomeView {
            actions: seq![running_action(context, false)] + (if context.is_active {
                seq![
                    ActionView::SetSessionStatus(
                        match error {
                            Some(error) if !is_benign(Some(error)) => StatusView::Failed(error),
                            _ => StatusView::Ready,
                        },
                    ),
                ] + (match turn.compaction_item_id {
                    Some(id) => seq![ActionView::UpsertConversation(ended_card(id, event))],
                    None => Seq::empty(),
                })
            } else {
                Seq::empty()
            }),
            effects: match turn.pending_prompt {
                Some(prompt) => seq![EffectView::SendPendingPrompt(prompt)],
                None => Seq::empty(),
            },
        },
        TurnView {
            running: false,
            conversation_compacted: error is None,
            pending_prompt: None,
            compaction_item_id: None,
            ..turn
        },
    )
}

/// The transcript id of a compaction entry.
pub open spec fn compaction_entry_id(entry: JsonView) -> Option<Seq<char>> {
    if entry.text_at("type"@) == Some("compaction"@) {
        entry.text_at("id"@)
    } else {
        None
    }
}

/// An entry has been appended to the transcript.
pub open spec fn appended(entry: JsonView, turn: TurnView) -> (OutcomeView, TurnView) {
    let id = compaction_entry_id(entry);
    (
        OutcomeView {
            actions: (match id {
                Some(id) => rekey_actions(turn.compaction_item_id, id),
                None => Seq::empty(),
            }) + (match transcript_entry(entry) {
                Some(item) => seq![ActionView::UpsertConversation(item)],
                None => Seq::empty(),
            }),
            effects: Seq::empty(),
        },
        match id {
            Some(id) => TurnView { compaction_item_id: Some(id), ..turn },
            None => turn,
        },
    )
}

/// Only what there is to do for the visible session.
pub open spec fn if_active(context: ContextView, outcome: OutcomeView) -> OutcomeView {
    if context.is_active {
        outcome
    } else {
        nothing()
    }
}

/// What one agent event comes to: what to do, and the turn after it. `fresh` is
/// the identifier that a reply without one is given.
pub open spec fn translated(
    event: JsonView,
    context: ContextView,
    turn: TurnView,
    fresh: u128,
) -> (OutcomeView, TurnView) {
    let kind = event.text_at("type"@);
    if kind == Some("message_start"@) || kind == Some("message_update"@) {
        streamed(event, context, turn, fresh)
    } else if kind == Some("message_end"@) && event_message(event).text_at("role"@) == Some(
        "assistant"@,
    ) {
        reply_ended(event_message(event), context, turn)
    } else if kind == Some("tool_execution_start"@) || kind == Some("tool_execution_end"@) {
        (
            if_active(
                context,
                OutcomeView {
                    actions: seq![
                        ActionView::UpsertConversation(tool_entry(event, context.conversation)),
                    ],
                    effects: Seq::empty(),
                },
            ),
            turn,
        )
    } else if kind == Some("queue_update"@) {
        (
            if_active(
                context,
                OutcomeView {
                    actions: seq![
                        ActionView::QueueUpdated {
                            steering: strings_of(event.field("steering"@)),
                            follow_up: strings_of(event.field("followUp"@)),
                        },
                    ],
                    effects: Seq::empty(),
                },
            ),
            turn,
        )
    } else if kind == Some("agent_settled"@) {
        settled(context, turn)
    } else if kind == Some("session_info_changed"@) {
        (
            OutcomeView {
                actions: Seq::empty(),
                effects: seq![EffectView::RenameSessionFile(event.text_at("name"@))],
            },
            turn,
        )
    } else if kind == Some("thinking_level_changed"@) {
        (
            if_active(
                context,
                OutcomeView { actions: Seq::empty(), effects: seq![EffectView::RefreshControls] },
            ),
            turn,
        )
    } else if kind == Some("compaction_start"@) {
        compaction_started(context, turn)
    } else if kind == Some("compaction_end"@) {
        compaction_ended(event, context, turn)
    } else if kind == Some("entry_appended"@) && context.is_active && event.field(
        "entry"@,
    ) is Some {
        appended(event.field("entry"@)->0, turn)
    } else {
        (nothing(), turn)
    }
}

fn stream_reply(event: &Json, context: &Context, turn: &mut Turn, fresh: u128) -> (r: Outcome)
    ensures
        (r@, final(turn)@) == streamed(event@, context@, old(turn)@, fresh),
{
    let mut outcome = Outcome::default();
    let message = match event.get("message") {
        Some(message) => message,
        None => {
            return outcome;
        },
    };
    let is_reply = match message.str_at("role") {
        Some(role) => same(role, "assistant"),
        None => false,
    };
    if !is_reply {
        return outcome;
    }
    turn.running = true;
    outcome.session_running(context, true);
    if !context.is_active {
        proof {
            assert(outcome@.actions =~= seq![running_action(context@, true)]);
        }
        return outcome;
    }
    turn.conversation_compacted = false;
    let previous = turn.assistant_message_id.take();
    let id = match message.str_at("id") {
        Some(id) => id.to_owned(),
        None => match &previous {
            Some(id) => id.clone(),
            None => hyphenated_text(fresh),
        },
    };
    if let Some(previous) = previous {
        if !same(previous.as_str(), id.as_str()) {
            outcome.act(Action::RekeyConversation { from: previous, to: id.clone() });
        }
    }
    turn.assistant_message_id = Some(id.clone());
    let text = assistant_text(message);
    outcome.act(
        Action::UpsertConversation(assistant_item(message, id, text, true, false)),
    );
    proof {
        let want = streamed(event@, context@, old(turn)@, fresh);
        assert(outcome@.actions =~= want.0.actions);
        assert(outcome@.effects =~= want.0.effects);
        assert(turn@ =~= want.1);
    }
    outcome
}

fn end_reply(message: &Json, context: &Context, turn: &mut Turn) -> (r: Outcome)
    ensures
        (r@, final(turn)@) == reply_ended(message@, context@, old(turn)@),
{
    let mut outcome = Outcome::default();
    let empty = empty_successful_assistant(message);
    if context.is_active {
        if let Some(id) = turn.assistant_message_id.take() {
            if empty {
                outcome.act(
                    Action::UpsertConversation(
                        assistant_item(message, id, empty_response(), false, true),
                    ),
                );
                outcome.act(Action::SetSessionStatus(SessionStatus::Failed(empty_response())));
            } else {
                outcome.act(Action::FinishMessage(id));
            }
        }
    }
    if empty {
        turn.reply_error = Some(empty_response());
    }
    proof {
        let want = reply_ended(message@, context@, old(turn)@);
        assert(outcome@.actions =~= want.0.actions);
        assert(outcome@.effects =~= want.0.effects);
        assert(turn@ =~= want.1);
    }
    outcome
}

fn settle(context: &Context, turn: &mut Turn) -> (r: Outcome)
    ensures
        (r@, final(turn)@) == settled(context@, old(turn)@),
{
    let mut outcome = Outcome::default();
    turn.running = false;
    outcome.session_running(context, false);
    outcome.effect(Effect::SyncSessionFile);
    let reply_error = turn.reply_error.take();
    if context.is_active {
        outcome.act(
            Action::SetSessionStatus(
                match reply_error {
                    Some(error) => SessionStatus::Failed(error),
                    None => SessionStatus::Ready,
                },
            ),
        );
        outcome.effect(Effect::ReloadEntries);
        outcome.effect(Effect::RefreshControls);
    }
    proof {
        let want = settled(context@, old(turn)@);
        assert(outcome@.actions =~= want.0.actions);
        assert(outcome@.effects =~= want.0.effects);
        assert(turn@ =~= want.1);
    }
    outcome
}

fn compaction_item_name(now_ms: i64) -> (r: String)
    ensures
        r@ == compaction_id(now_ms),
{
    let magnitude: u64 = if now_ms >= 0 {
        now_ms as u64
    } else if now_ms == i64::MIN {
        9223372036854775808
    } else {
        (-now_ms) as u64
    };
    let digits = decimal_string(magnitude);
    if now_ms < 0 {
        cat2("compaction-", cat2("-", digits.as_str()).as_str())
    } else {
        cat2("compaction-", digits.as_str())
    }
}

fn start_compaction(context: &Context, turn: &mut Turn) -> (r: Outcome)
    ensures
        (r@, final(turn)@) == compaction_started(context@, old(turn)@),
{
    let mut outcome = Outcome::default();
    turn.running = true;
    outcome.session_running(context, true);
    if context.is_active {
        let item_id = compaction_item_name(context.now_ms);
        turn.compaction_item_id = Some(item_id.clone());
        outcome.act(
            Action::UpsertConversation(
                compaction_card(item_id, "Compacting…".to_owned(), None, false),
            ),
        );
        outcome.act(Action::SetSessionStatus(SessionStatus::Compacting));
    }
    proof {
        let want = compaction_started(context@, old(turn)@);
        assert(outcome@.actions =~= want.0.actions);
        assert(outcome@.effects =~= want.0.effects);
        assert(turn@ =~= want.1);
    }
    outcome
}

fn end_compaction(event: &Json, context: &Context, turn: &mut Turn) -> (r: Outcome)
    ensures
        (r@, final(turn)@) == compaction_ended(event@, context@, old(turn)@),
{
    let mut outcome = Outcome::default();
    let error = event.str_at("errorMessage");
    turn.running = false;
    turn.conversation_compacted = error.is_none();
    let pending_prompt = turn.pending_prompt.take();
    let item_id = turn.compaction_item_id.take();
    outcome.session_running(context, false);
    if context.is_active {
        let benign = match error {
            Some(error) => text_contains(error, "Nothing to compact"),
            None => false,
        };
        let status = match error {
            Some(error) => if benign {
                SessionStatus::Ready
            } else {
                SessionStatus::Failed(error.to_owned())
            },
            None => SessionStatus::Ready,
        };
        outcome.act(Action::SetSessionStatus(status));
        if let Some(item_id) = item_id {
            let result = event.get("result");
            let (text, is_error) = match error {
                Some(error) => if benign {
                    ("Nothing to compact (session too small)".to_owned(), false)
                } else {
                    (error.to_owned(), true)
                },
                None => (compaction_summary(result), false),
            };
            outcome.act(
                Action::UpsertConversation(compaction_card(item_id, text, result, is_error)),
            );
        }
    }
    if let Some(prompt) = pending_prompt {
        outcome.effect(Effect::SendPendingPrompt(prompt));
    }
    proof {
        let want = compaction_ended(event@, context@, old(turn)@);
        assert(outcome@.actions =~= want.0.actions);
        assert(outcome@.effects =~= want.0.effects);
        assert(turn@ =~= want.1);
    }
    outcome
}

fn append_entry(entry: &Json, turn: &mut Turn) -> (r: Outcome)
    ensures
        (r@, final(turn)@) == appended(entry@, old(turn)@),
{
    let mut outcome = Outcome::default();
    let is_compaction = match entry.str_at("type") {
        Some(kind) => same(kind, "compaction"),
        None => false,
    };
    if is_compaction {
        if let Some(persisted) = entry.str_at("id") {
            let temporary = turn.compaction_item_id.take();
            turn.compaction_item_id = Some(persisted.to_owned());
            if let Some(temporary) = temporary {
                if !same(temporary.as_str(), persisted) {
                    outcome.act(
                        Action::RekeyConversation { from: temporary, to: persisted.to_owned() },
                    );
                }
            }
        }
    }
    if let Some(action) = session_entry_action(entry) {
        outcome.act(action);
    }
    proof {
        let want = appended(entry@, old(turn)@);
        assert(outcome@.actions =~= want.0.actions);
        assert(outcome@.effects =~= want.0.effects);
        assert(turn@ =~= want.1);
    }
    outcome
}

/// Translates one agent event, with the identifier that a reply without one is
/// given. Event types that are not known are ignored.
pub fn translate_with(event: &Json, context: Context, turn: &mut Turn, fresh: u128) -> (r: Outcome)
    ensures
        (r@, final(turn)@) == translated(event@, context@, old(turn)@, fresh),
{
    let mut outcome = Outcome::default();
    let kind = match event.str_at("type") {
        Some(kind) => kind,
        None => {
            return outcome;
        },
    };
    if same(kind, "message_start") || same(kind, "message_update") {
        return stream_reply(event, &context, turn, fresh);
    }
    if same(kind, "message_end") {
        if let Some(message) = event.get("message") {
            if let Some(role) = message.str_at("role") {
                if same(role, "assistant") {
                    return end_reply(message, &context, turn);
                }
            }
        }
        proof {
            lemma_kinds_differ();
        }
        return outcome;
    }
    if same(kind, "tool_execution_start") || same(kind, "tool_execution_end") {
        if context.is_active {
            outcome.act(tool_event_action(event, context.conversation));
            proof {
                assert(outcome@.actions =~= seq![
                    ActionView::UpsertConversation(tool_entry(event@, context@.conversation)),
                ]);
            }
        }
        return outcome;
    }
    if same(kind, "queue_update") {
        if context.is_active {
            outcome.act(
                Action::QueueUpdated {
                    steering: string_list(event.get("steering")),
                    follow_up: string_list(event.get("followUp")),
                },
            );
            proof {
                assert(outcome@.actions =~= translated(event@, context@, turn@, fresh).0.actions);
            }
        }
        return outcome;
    }
    if same(kind, "agent_settled") {
        return settle(&context, turn);
    }
    if same(kind, "session_info_changed") {
        outcome.effect(Effect::RenameSessionFile(owned(event.str_at("name"))));
        proof {
            assert(outcome@.effects =~= seq![
                EffectView::RenameSessionFile(event@.text_at("name"@)),
            ]);
        }
        return outcome;
    }
    if same(kind, "thinking_level_changed") {
        if context.is_active {
            outcome.effect(Effect::RefreshControls);
            proof {
                assert(outcome@.effects =~= seq![EffectView::RefreshControls]);
            }
        }
        return outcome;
    }
    if same(kind, "compaction_start") {
        return start_compaction(&context, turn);
    }
    if same(kind, "compaction_end") {
        return end_compaction(event, &context, turn);
    }
    if same(kind, "entry_appended") {
        if context.is_active {
            if let Some(entry) = event.get("entry") {
                return append_entry(entry, turn);
            }
        }
    }
    outcome
}

proof fn lemma_kinds_differ()
    ensures
        "message_end"@ != "tool_execution_start"@,
        "message_end"@ != "tool_execution_end"@,
        "message_end"@ != "queue_update"@,
        "message_end"@ != "agent_settled"@,
        "message_end"@ != "session_info_changed"@,
        "message_end"@ != "thinking_level_changed"@,
        "message_end"@ != "compaction_start"@,
        "message_end"@ != "compaction_end"@,
        "message_end"@ != "entry_appended"@,
{
    reveal_strlit("message_end");
    reveal_strlit("tool_execution_start");
    reveal_strlit("tool_execution_end");
    reveal_strlit("queue_update");
    reveal_strlit("agent_settled");
    reveal_strlit("session_info_changed");
    reveal_strlit("thinking_level_changed");
    reveal_strlit("compaction_start");
    reveal_strlit("compaction_end");
    reveal_strlit("entry_appended");
    assert("message_end"@.len() == 11);
    assert("queue_update"@.len() == 12);
}

/// Whether translating an event takes a new identifier.
pub open spec fn takes_fresh_id(event: JsonView, context: ContextView, turn: TurnView) -> bool {
    let kind = event.text_at("type"@);
    &&& kind == Some("message_start"@) || kind == Some("message_update"@)
    &&& event_message(event).text_at("role"@) == Some("assistant"@)
    &&& context.is_active
    &&& event_message(event).text_at("id"@) is None
    &&& turn.assistant_message_id is None
}

/// Translates one agent event. A first reply without an id is given one, so that
/// it can be amended; whatever the identifier, the rest follows from it.
pub fn translate(event: &Json, context: Context, turn: &mut Turn) -> (r: Outcome)
    ensures
        exists|fresh: u128|
            (r@, final(turn)@) == #[trigger] translated(event@, context@, old(turn)@, fresh),
        !takes_fresh_id(event@, context@, old(turn)@) ==> (r@, final(turn)@) == translated(
            event@,
            context@,
            old(turn)@,
            0,
        ),
{
    let needed = match event.str_at("type") {
        Some(kind) => if same(kind, "message_start") || same(kind, "message_update") {
            match event.get("message") {
                Some(message) => {
                    let is_reply = match message.str_at("role") {
                        Some(role) => same(role, "assistant"),
                        None => false,
                    };
                    is_reply && context.is_active && message.str_at("id").is_none()
                        && turn.assistant_message_id.is_none()
                },
                None => false,
            }
        } else {
            false
        },
        None => false,
    };
    let fresh: u128 = if needed {
        fresh_id()
    } else {
        0
    };
    translate_with(event, context, turn, fresh)
}

/// A session in the background never changes the conversation that is on screen:
/// its events move its busy mark and nothing else.
pub proof fn lemma_background_is_quiet(
    event: JsonView,
    context: ContextView,
    turn: TurnView,
    fresh: u128,
)
    requires
        !context.is_active,
    ensures
        forall|i: int|
            0 <= i < translated(event, context, turn, fresh).0.actions.len() ==> (
            #[trigger] translated(event, context, turn, fresh).0.actions[i]) is SessionRunning,
{
}

/// A prompt that was held back for a compaction is sent when the compaction ends,
/// visible or not, and is not kept to be sent again.
pub proof fn lemma_held_prompt_is_sent_once(
    event: JsonView,
    context: ContextView,
    turn: TurnView,
    fresh: u128,
)
    requires
        event.text_at("type"@) == Some("compaction_end"@),
        turn.pending_prompt is Some,
    ensures
        translated(event, context, turn, fresh).0.effects == seq![
            EffectView::SendPendingPrompt(turn.pending_prompt->0),
        ],
        translated(event, context, turn, fresh).1.pending_prompt is None,
{
    lemma_compaction_end_is_its_own();
}

proof fn lemma_compaction_end_is_its_own()
    ensures
        "compaction_end"@ != "message_start"@,
        "compaction_end"@ != "message_update"@,
        "compaction_end"@ != "message_end"@,
        "compaction_end"@ != "tool_execution_start"@,
        "compaction_end"@ != "tool_execution_end"@,
        "compaction_end"@ != "queue_update"@,
        "compaction_end"@ != "agent_settled"@,
        "compaction_end"@ != "session_info_changed"@,
        "compaction_end"@ != "thinking_level_changed"@,
        "compaction_end"@ != "compaction_start"@,
{
    reveal_strlit("compaction_end");
    reveal_strlit("message_start");
    reveal_strlit("message_update");
    reveal_strlit("message_end");
    reveal_strlit("tool_execution_start");
    reveal_strlit("tool_execution_end");
    reveal_strlit("queue_update");
    reveal_strlit("agent_settled");
    reveal_strlit("session_info_changed");
    reveal_strlit("thinking_level_changed");
    reveal_strlit("compaction_start");
    assert("compaction_end"@.len() == 14);
    assert("message_update"@.len() == 14);
    assert("compaction_end"@[0] != "message_update"@[0]);
}

/// A prompt that is held back stays held until a compaction ends.
pub proof fn lemma_held_prompt_waits(
    event: JsonView,
    context: ContextView,
    turn: TurnView,
    fresh: u128,
)
    requires
        event.text_at("type"@) != Some("compaction_end"@),
    ensures
        translated(event, context, turn, fresh).1.pending_prompt == turn.pending_prompt,
{
}

/// Whether an event is of a kind that is acted on.
pub open spec fn is_known_kind(kind: Option<Seq<char>>) -> bool {
    ||| kind == Some("message_start"@)
    ||| kind == Some("message_update"@)
    ||| kind == Some("message_end"@)
    ||| kind == Some("tool_execution_start"@)
    ||| kind == Some("tool_execution_end"@)
    ||| kind == Some("queue_update"@)
    ||| kind == Some("agent_settled"@)
    ||| kind == Some("session_info_changed"@)
    ||| kind == Some("thinking_level_changed"@)
    ||| kind == Some("compaction_start"@)
    ||| kind == Some("compaction_end"@)
    ||| kind == Some("entry_appended"@)
}

/// An event of a kind that is not known does nothing, and neither does one
/// without a kind.
pub proof fn lemma_unknown_event_is_ignored(
    event: JsonView,
    context: ContextView,
    turn: TurnView,
    fresh: u128,
)
    requires
        !is_known_kind(event.text_at("type"@)),
    ensures
        translated(event, context, turn, fresh) == (nothing(), turn),
{
}

/// Whether an event is a piece of a reply that is arriving.
pub open spec fn is_reply_event(event: JsonView) -> bool {
    &&& event.text_at("type"@) == Some("message_start"@) || event.text_at("type"@) == Some(
        "message_update"@,
    )
    &&& event_message(event).text_at("role"@) == Some("assistant"@)
}

/// The pieces of one reply land on one entry. Where a later piece brings another
/// id, the entry is moved to it before it is amended; a piece without an id stays
/// with the entry.
pub proof fn lemma_reply_keeps_one_entry(
    first: JsonView,
    second: JsonView,
    context: ContextView,
    later: ContextView,
    turn: TurnView,
    fresh: u128,
    fresher: u128,
)
    requires
        is_reply_event(first),
        is_reply_event(second),
        context.is_active,
        later.is_active,
    ensures
        ({
            let opened = translated(first, context, turn, fresh);
            let amended = translated(second, later, opened.1, fresher);
            let message = event_message(second);
            let id = streamed_id(event_message(first), turn, fresh);
            let new_id = or_text(message.text_at("id"@), id);
            &&& opened.0.actions.last() == ActionView::UpsertConversation(
                assistant_entry(
                    event_message(first),
                    id,
                    reply_text(event_message(first)),
                    true,
                    false,
                ),
            )
            &&& amended.0.actions == seq![running_action(later, true)] + rekey_actions(
                Some(id),
                new_id,
            ) + seq![
                ActionView::UpsertConversation(
                    assistant_entry(message, new_id, reply_text(message), true, false),
                ),
            ]
            &&& amended.1.assistant_message_id == Some(new_id)
        }),
{
}

proof fn lemma_compaction_start_is_its_own()
    ensures
        "compaction_start"@ != "message_start"@,
        "compaction_start"@ != "message_update"@,
        "compaction_start"@ != "message_end"@,
        "compaction_start"@ != "tool_execution_start"@,
        "compaction_start"@ != "tool_execution_end"@,
        "compaction_start"@ != "queue_update"@,
        "compaction_start"@ != "agent_settled"@,
        "compaction_start"@ != "session_info_changed"@,
        "compaction_start"@ != "thinking_level_changed"@,
{
    reveal_strlit("compaction_start");
    reveal_strlit("message_start");
    reveal_strlit("message_update");
    reveal_strlit("message_end");
    reveal_strlit("tool_execution_start");
    reveal_strlit("tool_execution_end");
    reveal_strlit("queue_update");
    reveal_strlit("agent_settled");
    reveal_strlit("session_info_changed");
    reveal_strlit("thinking_level_changed");
    assert("compaction_start"@.len() == 16);
}

proof fn lemma_entry_appended_is_its_own()
    ensures
        "entry_appended"@ != "message_start"@,
        "entry_appended"@ != "message_update"@,
        "entry_appended"@ != "message_end"@,
        "entry_appended"@ != "tool_execution_start"@,
        "entry_appended"@ != "tool_execution_end"@,
        "entry_appended"@ != "queue_update"@,
        "entry_appended"@ != "agent_settled"@,
        "entry_appended"@ != "session_info_changed"@,
        "entry_appended"@ != "thinking_level_changed"@,
        "entry_appended"@ != "compaction_start"@,
        "entry_appended"@ != "compaction_end"@,
{
    reveal_strlit("entry_appended");
    reveal_strlit("message_start");
    reveal_strlit("message_update");
    reveal_strlit("message_end");
    reveal_strlit("tool_execution_start");
    reveal_strlit("tool_execution_end");
    reveal_strlit("queue_update");
    reveal_strlit("agent_settled");
    reveal_strlit("session_info_changed");
    reveal_strlit("thinking_level_changed");
    reveal_strlit("compaction_start");
    reveal_strlit("compaction_end");
    assert("entry_appended"@.len() == 14);
    assert("entry_appended"@[0] == 'e');
    assert("message_update"@[0] == 'm');
    assert("compaction_end"@[0] == 'c');
}

/// Only a compaction and its entry in the transcript touch the card that the
/// compaction is shown on.
pub proof fn lemma_card_waits_for_its_compaction(
    event: JsonView,
    context: ContextView,
    turn: TurnView,
    fresh: u128,
)
    requires
        event.text_at("type"@) != Some("compaction_start"@),
        event.text_at("type"@) != Some("compaction_end"@),
        event.text_at("type"@) != Some("entry_appended"@),
    ensures
        translated(event, context, turn, fresh).1.compaction_item_id == turn.compaction_item_id,
{
}

/// A compaction opens a card, and its result lands on the card that is open.
pub proof fn lemma_compaction_keeps_one_card(
    start: JsonView,
    end: JsonView,
    context: ContextView,
    later: ContextView,
    turn: TurnView,
    later_turn: TurnView,
    fresh: u128,
)
    requires
        start.text_at("type"@) == Some("compaction_start"@),
        end.text_at("type"@) == Some("compaction_end"@),
        context.is_active,
        later.is_active,
        later_turn.compaction_item_id == translated(
            start,
            context,
            turn,
            fresh,
        ).1.compaction_item_id,
    ensures
        ({
            let opened = translated(start, context, turn, fresh);
            let closed = translated(end, later, later_turn, fresh);
            let id = compaction_id(context.now_ms);
            &&& opened.0.actions[1] == ActionView::UpsertConversation(
                compaction_entry(id, "Compacting…"@, None, false),
            )
            &&& closed.0.actions[2] == ActionView::UpsertConversation(ended_card(id, end))
            &&& closed.1.compaction_item_id is None
        }),
{
    lemma_compaction_start_is_its_own();
    lemma_compaction_end_is_its_own();
}

/// When the transcript gives a compaction its own id, the card is moved to that id
/// before it is amended, and the result lands on it there.
pub proof fn lemma_persisted_compaction_keeps_its_card(
    append: JsonView,
    end: JsonView,
    context: ContextView,
    later: ContextView,
    turn: TurnView,
    id: Seq<char>,
    persisted: Seq<char>,
    fresh: u128,
)
    requires
        append.text_at("type"@) == Some("entry_appended"@),
        append.field("entry"@) is Some,
        compaction_entry_id(append.field("entry"@)->0) == Some(persisted),
        end.text_at("type"@) == Some("compaction_end"@),
        turn.compaction_item_id == Some(id),
        id != persisted,
        context.is_active,
        later.is_active,
    ensures
        ({
            let entry = append.field("entry"@)->0;
            let moved = translated(append, context, turn, fresh);
            let closed = translated(end, later, moved.1, fresh);
            &&& moved.0.actions == seq![
                ActionView::RekeyConversation { from: id, to: persisted },
                ActionView::UpsertConversation(
                    compaction_entry(persisted, compaction_text(Some(entry)), Some(entry), false),
                ),
            ]
            &&& closed.0.actions[2] == ActionView::UpsertConversation(ended_card(persisted, end))
        }),
{
    lemma_entry_appended_is_its_own();
    lemma_compaction_end_is_its_own();
}

/// An empty reply stays a failure when the agent settles: it is not shown as
/// ready.
pub proof fn lemma_empty_reply_outlives_settling(
    message: JsonView,
    context: ContextView,
    turn: TurnView,
)
    requires
        is_empty_reply(message),
        context.is_active,
    ensures
        settled(context, reply_ended(message, context, turn).1).0.actions[1]
            == ActionView::SetSessionStatus(StatusView::Failed(empty_response_text())),
{
}

} // verus!
