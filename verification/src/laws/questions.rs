//! What holds of the questions that agents ask and of those that agents are asked.

use vstd::prelude::*;

use crate::controls::{
    commands_in, controls_of, fetched, level_in_use, levels_in, models_in, names_of,
    next_query_after, ControlQuery,
};
use crate::dialogs::{
    asked, extension_prompt, interaction_prompt, of_others, prompt_answer, AnswerView, LabelView,
    PromptView, Source, Tone,
};
use crate::domain::{
    ActionView, CommandInfoView, ModelView, ProviderView, QueueMode, StatusView, ThinkingLevel,
};
use crate::events::strings_of;
use crate::ids::simple;
use crate::json::JsonView;
use crate::laws::engine::lemma_levels_are_named;
use crate::laws::protocol::{lemma_kept_from, lemma_kept_item};
use crate::laws::providers::is_last_of_its_id;
use crate::protocol::{metrics_of, model_of};
use crate::providers::lemma_provider_names_differ;
use crate::views::keep_map;

verus! {

/// An extension that asks for consent is shown as a question with two answers, the
/// first of which consents and the second of which refuses. What it says stands there
/// in its own words, where it says anything. Other requests are not shown.
pub proof fn lemma_consent_is_asked_for(session_key: Seq<char>, request: JsonView, text: Seq<char>)
    ensures
        ({
            let shown = extension_prompt(session_key, request);
            &&& shown is Some <==> request.text_at("method"@) == Some("confirm"@)
            &&& shown matches Some(prompt) ==> {
                &&& prompt.session_key == session_key
                &&& prompt.source == Source::Extension
                &&& request.text_at("id"@) matches Some(id) ==> prompt.request_id == id
                &&& request.text_at("title"@) == Some(text) && text.len() > 0 ==> prompt.title
                    == LabelView::Verbatim(text)
                &&& request.text_at("title"@) is None ==> prompt.title == LabelView::Key(
                    "confirm-title"@,
                )
                &&& request.text_at("message"@) == Some(text) && text.len() > 0 ==> prompt.message
                    == LabelView::Verbatim(text)
                &&& request.text_at("message"@) is None ==> prompt.message == LabelView::Key(
                    "confirm-message"@,
                )
                &&& prompt.choices.len() == 2
                &&& prompt.choices[0].value == "allow"@ && prompt.choices[0].tone == Tone::Primary
                    && prompt.choices[0].label == LabelView::Key("allow"@)
                &&& prompt.choices[1].value == "deny"@ && prompt.choices[1].tone == Tone::Danger
                    && prompt.choices[1].label == LabelView::Key("deny"@)
                &&& prompt.dismissal == "deny"@
            }
        }),
{
}

/// Consent is given by the first answer and by nothing else: not by the second, not by
/// closing the question, not by any other word.
pub proof fn lemma_only_consent_is_consent(
    session_key: Seq<char>,
    request: JsonView,
    value: Seq<char>,
)
    requires
        request.text_at("method"@) == Some("confirm"@),
    ensures
        ({
            let prompt = extension_prompt(session_key, request)->0;
            prompt_answer(prompt, value) matches AnswerView::Extension {
                session_key: home,
                request_id,
                confirmed,
            } && home == session_key && request_id == prompt.request_id && (confirmed <==> value
                == "allow"@)
        }),
{
}

/// An agent's question offers the options that it was asked with, each under the value
/// that goes back for it, in their order.
pub proof fn lemma_options_are_offered(session_key: Seq<char>, request: JsonView, i: int)
    requires
        0 <= i < strings_of(request.field("options"@)).len(),
    ensures
        ({
            let prompt = interaction_prompt(session_key, request);
            let option = strings_of(request.field("options"@))[i];
            let approval = request.text_at("kind"@) == Some("approval"@);
            &&& prompt.choices.len() == strings_of(request.field("options"@)).len()
            &&& prompt.choices[i].value == option
            &&& approval && option == "approve"@ ==> prompt.choices[i].tone == Tone::Primary
                && prompt.choices[i].label == LabelView::Key("allow-once"@)
            &&& approval && option == "deny"@ ==> prompt.choices[i].tone == Tone::Danger
                && prompt.choices[i].label == LabelView::Key("deny"@)
            &&& !approval || (option != "approve"@ && option != "deny"@) ==> prompt.choices[i].tone
                == Tone::Neutral && prompt.choices[i].label == LabelView::Verbatim(option)
        }),
{
    reveal_strlit("approval");
    reveal_strlit("question");
    reveal_strlit("approve");
    reveal_strlit("deny");
    assert("approval"@[0] == 'a' && "question"@[0] == 'q');
    assert("approve"@.len() != "deny"@.len());
}

/// An agent's question is told in its own words and keeps its request. Closing it
/// answers with the default that it names, where that is one of its options, and
/// refuses otherwise.
pub proof fn lemma_interactions_are_told(
    session_key: Seq<char>,
    request: JsonView,
    text: Seq<char>,
)
    ensures
        ({
            let prompt = interaction_prompt(session_key, request);
            let options = strings_of(request.field("options"@));
            let fallback = request.text_at("default_option"@);
            &&& prompt.session_key == session_key
            &&& prompt.source == Source::Interaction
            &&& request.text_at("request_id"@) matches Some(id) ==> prompt.request_id == id
            &&& request.text_at("title"@) == Some(text) && text.len() > 0 ==> prompt.title
                == LabelView::Verbatim(text)
            &&& request.text_at("title"@) is None ==> prompt.title == LabelView::Key(
                "agent-request"@,
            )
            &&& request.text_at("message"@) == Some(text) ==> prompt.message == LabelView::Verbatim(
                text,
            )
            &&& fallback == Some(text) && options.contains(text) ==> prompt.dismissal == text
            &&& (fallback is None || !options.contains(fallback->0)) && request.text_at("kind"@)
                == Some("approval"@) ==> prompt.dismissal == "deny"@
            &&& (fallback is None || !options.contains(fallback->0)) && request.text_at("kind"@)
                != Some("approval"@) ==> prompt.dismissal == "cancel"@
            &&& prompt_answer(prompt, text) == (AnswerView::Interaction {
                session_key,
                request_id: prompt.request_id,
                decision: text,
            })
        }),
{
    reveal_strlit("approval");
    reveal_strlit("question");
    assert("approval"@[0] == 'a' && "question"@[0] == 'q');
}

/// A question goes behind those that wait. One that waits already, for the same session
/// and with the same request, is not asked twice.
pub proof fn lemma_questions_wait_in_order(pending: Seq<PromptView>, prompt: PromptView)
    ensures
        (exists|i: int|
            0 <= i < pending.len() && (#[trigger] pending[i]).session_key == prompt.session_key
                && pending[i].request_id == prompt.request_id) ==> asked(pending, prompt) == pending,
        (forall|i: int|
            0 <= i < pending.len() ==> (#[trigger] pending[i]).session_key != prompt.session_key
                || pending[i].request_id != prompt.request_id) ==> asked(pending, prompt)
            == pending.push(prompt),
        asked(asked(pending, prompt), prompt) == asked(pending, prompt),
{
    if exists|i: int|
        0 <= i < pending.len() && (#[trigger] pending[i]).session_key == prompt.session_key
            && pending[i].request_id == prompt.request_id {
        let i = choose|i: int|
            0 <= i < pending.len() && (#[trigger] pending[i]).session_key == prompt.session_key
                && pending[i].request_id == prompt.request_id;
        assert(crate::dialogs::same_request(pending[i], prompt));
    }
    let after = asked(pending, prompt);
    if !crate::dialogs::is_waiting(pending, prompt) {
        assert(crate::dialogs::same_request(after[after.len() - 1], prompt));
    }
}

/// When a session goes, its questions go with it, and those of others stay.
pub proof fn lemma_questions_go_with_their_session(
    pending: Seq<PromptView>,
    session_key: Seq<char>,
    prompt: PromptView,
)
    ensures
        of_others(pending, session_key).contains(prompt) <==> pending.contains(prompt)
            && prompt.session_key != session_key,
{
    let f = |p: PromptView| p.session_key != session_key;
    let kept = pending.filter(f);
    pending.filter_lemma(f);
    if kept.contains(prompt) {
        let i = choose|i: int| 0 <= i < kept.len() && kept[i] == prompt;
        assert(f(kept[i]));
        pending.lemma_filter_contains_rev(f, prompt);
    }
    if pending.contains(prompt) && f(prompt) {
        let i = choose|i: int| 0 <= i < pending.len() && pending[i] == prompt;
        assert(f(pending[i]));
        assert(kept.contains(pending[i]));
    }
}

/// A configured provider is known by its name under the key that Pi has for it.
pub proof fn lemma_providers_are_named(profiles: Seq<ProviderView>, p: int)
    requires
        is_last_of_its_id(profiles, p),
    ensures
        names_of(profiles).contains_key("pi-whim-"@ + simple(profiles[p].id)),
        names_of(profiles)["pi-whim-"@ + simple(profiles[p].id)] == profiles[p].name,
    decreases profiles.len(),
{
    if p < profiles.len() - 1 {
        let before = profiles.drop_last();
        assert(profiles[profiles.len() - 1].id != profiles[p].id);
        lemma_provider_names_differ(profiles.last().id, profiles[p].id);
        assert forall|k: int| p < k < before.len() implies (#[trigger] before[k]).id
            != before[p].id by {
            assert(before[k] == profiles[k]);
        }
        lemma_providers_are_named(before, p);
    }
}

/// An agent is asked for its state first, then for its models, its levels, its figures
/// and its commands, and for nothing more. An agent that cannot say its state is asked
/// nothing more.
pub proof fn lemma_agents_are_asked(replies: Seq<Result<JsonView, Seq<char>>>)
    ensures
        replies.len() == 0 ==> next_query_after(replies) == Some(ControlQuery::State),
        replies.len() > 0 && replies[0] is Err ==> next_query_after(replies) is None,
        replies.len() == 1 && replies[0] is Ok ==> next_query_after(replies) == Some(
            ControlQuery::AvailableModels,
        ),
        replies.len() == 2 && replies[0] is Ok ==> next_query_after(replies) == Some(
            ControlQuery::AvailableThinkingLevels,
        ),
        replies.len() == 3 && replies[0] is Ok ==> next_query_after(replies) == Some(
            ControlQuery::SessionStats,
        ),
        replies.len() == 4 && replies[0] is Ok ==> next_query_after(replies) == Some(
            ControlQuery::Commands,
        ),
        replies.len() >= 5 ==> next_query_after(replies) is None,
        ControlQuery::State.name() == "get_state"@,
        ControlQuery::AvailableModels.name() == "get_available_models"@,
        ControlQuery::AvailableThinkingLevels.name() == "get_available_thinking_levels"@,
        ControlQuery::SessionStats.name() == "get_session_stats"@,
        ControlQuery::Commands.name() == "get_commands"@,
{
}

/// The controls show what the agent said of itself: its model, whether it compacts by
/// itself, and how it takes messages. Where it does not say, it compacts and takes
/// messages one at a time.
pub proof fn lemma_controls_show_the_state(
    state: JsonView,
    models: Seq<ModelView>,
    levels: Seq<ThinkingLevel>,
    names: Map<Seq<char>, Seq<char>>,
    model: JsonView,
    mode: Seq<char>,
)
    ensures
        controls_of(state, models, levels, names) matches ActionView::RuntimeControlsUpdated {
            current_model,
            available_models,
            thinking_level,
            available_thinking_levels,
            auto_compaction_enabled,
            steering_mode,
            follow_up_mode,
        } && {
            &&& state.field("model"@) == Some(model) ==> current_model == model_of(model, names)
            &&& state.field("model"@) is None ==> current_model is None
            &&& available_models == models
            &&& available_thinking_levels == levels
            &&& auto_compaction_enabled <==> state.truth_at("autoCompactionEnabled"@) != Some(false)
            &&& steering_mode == QueueMode::All <==> state.text_at("steeringMode"@) == Some("all"@)
            &&& follow_up_mode == QueueMode::All <==> state.text_at("followUpMode"@) == Some(
                "all"@,
            )
        },
{
}

/// The level in use is the one that the agent names, where it is on offer; else the
/// first one on offer.
pub proof fn lemma_level_in_use(
    state: JsonView,
    models: Seq<ModelView>,
    levels: Seq<ThinkingLevel>,
    names: Map<Seq<char>, Seq<char>>,
)
    requires
        levels.len() > 0,
    ensures
        controls_of(state, models, levels, names) matches ActionView::RuntimeControlsUpdated {
            thinking_level,
            ..
        } && {
            &&& state.text_at("thinkingLevel"@) == Some("high"@) && levels.contains(
                ThinkingLevel::High,
            ) ==> thinking_level == ThinkingLevel::High
            &&& state.text_at("thinkingLevel"@) == Some("medium"@) && levels.contains(
                ThinkingLevel::Medium,
            ) ==> thinking_level == ThinkingLevel::Medium
            &&& state.text_at("thinkingLevel"@) == Some("low"@) && levels.contains(
                ThinkingLevel::Low,
            ) ==> thinking_level == ThinkingLevel::Low
            &&& state.text_at("thinkingLevel"@) == Some("minimal"@) && levels.contains(
                ThinkingLevel::Minimal,
            ) ==> thinking_level == ThinkingLevel::Minimal
            &&& state.text_at("thinkingLevel"@) == Some("xhigh"@) && levels.contains(
                ThinkingLevel::Xhigh,
            ) ==> thinking_level == ThinkingLevel::Xhigh
            &&& state.text_at("thinkingLevel"@) == Some("off"@) && levels.contains(
                ThinkingLevel::Off,
            ) ==> thinking_level == ThinkingLevel::Off
            &&& state.text_at("thinkingLevel"@) is None && levels.contains(ThinkingLevel::Off)
                ==> thinking_level == ThinkingLevel::Off
            &&& levels.contains(thinking_level)
        },
        forall|requested: ThinkingLevel|
            !levels.contains(requested) ==> #[trigger] level_in_use(requested, levels) == levels[0],
{
    if let Some(name) = state.text_at("thinkingLevel"@) {
        lemma_levels_are_named(name);
    }
    lemma_levels_are_named("high"@);
    lemma_levels_are_named("medium"@);
    lemma_levels_are_named("low"@);
    lemma_levels_are_named("minimal"@);
    lemma_levels_are_named("xhigh"@);
    lemma_levels_are_named("off"@);
    assert(levels.contains(levels[0]));
}

/// Every level that an agent lists by its name is on offer, and nothing else is; where
/// it lists none, thinking is off.
pub proof fn lemma_levels_are_offered(
    response: JsonView,
    items: Seq<JsonView>,
    i: int,
    level: ThinkingLevel,
)
    requires
        response.items_at("levels"@) == Some(items),
    ensures
        0 <= i < items.len() && items[i] == JsonView::Str(level.name()) && ThinkingLevel::named(
            level.name(),
        ) == Some(level) ==> levels_in(response).contains(level),
        items.len() == 0 ==> levels_in(response) == seq![ThinkingLevel::Off],
        levels_in(response).contains(level) ==> (level == ThinkingLevel::Off || exists|e: int|
            0 <= e < items.len() && (#[trigger] items[e]) is Str && ThinkingLevel::named(
                items[e]->Str_0,
            ) == Some(level)),
{
    let f = |item: JsonView| crate::controls::level_in(item);
    let kept = keep_map(items, f);
    if 0 <= i < items.len() && items[i] == JsonView::Str(level.name()) && ThinkingLevel::named(
        level.name(),
    ) == Some(level) {
        lemma_kept_item(items, f, i);
        let k = choose|k: int| 0 <= k < kept.len() && #[trigger] kept[k] == f(items[i])->0;
        assert(kept[k] == level);
        assert(levels_in(response)[k] == level);
    }
    if levels_in(response).contains(level) && kept.len() > 0 {
        let k = choose|k: int| 0 <= k < kept.len() && kept[k] == level;
        lemma_kept_from(items, f, k);
        let e = choose|e: int| 0 <= e < items.len() && #[trigger] f(items[e]) == Some(kept[k]);
        assert(items[e] is Str);
    }
}

/// Every command that an agent lists under a name is known by it, with what it says of
/// itself.
pub proof fn lemma_commands_are_known(
    response: JsonView,
    items: Seq<JsonView>,
    i: int,
    name: Seq<char>,
    description: Seq<char>,
    source: Seq<char>,
)
    requires
        response.items_at("commands"@) == Some(items),
        0 <= i < items.len(),
        items[i].text_at("name"@) == Some(name),
        items[i].text_at("description"@) == Some(description),
        items[i].text_at("source"@) == Some(source),
    ensures
        commands_in(response).contains(CommandInfoView { name, description, source }),
{
    let f = |item: JsonView| crate::controls::command_in(item);
    let kept = keep_map(items, f);
    lemma_kept_item(items, f, i);
    let k = choose|k: int| 0 <= k < kept.len() && #[trigger] kept[k] == f(items[i])->0;
    assert(kept[k] == CommandInfoView { name, description, source });
}

/// A command without a name is not known, and one that says little of itself is known
/// as a command.
pub proof fn lemma_commands_need_a_name(response: JsonView, items: Seq<JsonView>, k: int)
    requires
        response.items_at("commands"@) == Some(items),
        0 <= k < commands_in(response).len(),
    ensures
        exists|e: int|
            0 <= e < items.len() && (#[trigger] items[e]).text_at("name"@) == Some(
                commands_in(response)[k].name,
            ) && (items[e].text_at("source"@) is None ==> commands_in(response)[k].source
                == "command"@) && (items[e].text_at("description"@) is None ==> commands_in(
                response,
            )[k].description == ""@),
{
    let f = |item: JsonView| crate::controls::command_in(item);
    lemma_kept_from(items, f, k);
    let e = choose|e: int|
        0 <= e < items.len() && #[trigger] f(items[e]) == Some(keep_map(items, f)[k]);
    assert(items[e].text_at("name"@) == Some(commands_in(response)[k].name));
}

/// Every model that an agent lists is on offer, and nothing else is.
pub proof fn lemma_models_are_offered(
    response: JsonView,
    items: Seq<JsonView>,
    names: Map<Seq<char>, Seq<char>>,
    i: int,
    model: ModelView,
)
    requires
        response.items_at("models"@) == Some(items),
    ensures
        0 <= i < items.len() && model_of(items[i], names) == Some(model) ==> models_in(
            response,
            names,
        ).contains(model),
        models_in(response, names).contains(model) ==> exists|e: int|
            0 <= e < items.len() && #[trigger] model_of(items[e], names) == Some(model),
{
    let f = |item: JsonView| model_of(item, names);
    let kept = keep_map(items, f);
    if 0 <= i < items.len() && model_of(items[i], names) == Some(model) {
        lemma_kept_item(items, f, i);
        let k = choose|k: int| 0 <= k < kept.len() && #[trigger] kept[k] == f(items[i])->0;
        assert(kept[k] == model);
    }
    if kept.contains(model) {
        let k = choose|k: int| 0 <= k < kept.len() && kept[k] == model;
        lemma_kept_from(items, f, k);
        let e = choose|e: int| 0 <= e < items.len() && #[trigger] f(items[e]) == Some(kept[k]);
        assert(model_of(items[e], names) == Some(model));
    }
}

/// What an agent answered is all passed on: its controls in any case, its figures and
/// its commands where it gave them, and the failure to list its models where it failed.
pub proof fn lemma_answers_are_passed_on(
    replies: Seq<Result<JsonView, Seq<char>>>,
    names: Map<Seq<char>, Seq<char>>,
    cost_microusd: u64,
)
    requires
        replies.len() == 5,
        replies[0] is Ok,
    ensures
        ({
            let actions = fetched(replies, names, cost_microusd);
            let levels = if replies[2] is Ok {
                levels_in(replies[2]->Ok_0)
            } else {
                seq![ThinkingLevel::Off]
            };
            &&& replies[1] is Ok ==> actions.contains(
                controls_of(replies[0]->Ok_0, models_in(replies[1]->Ok_0, names), levels, names),
            )
            &&& replies[1] is Err ==> actions.contains(
                ActionView::SetSessionStatus(StatusView::Failed(replies[1]->Err_0)),
            ) && actions.contains(
                controls_of(replies[0]->Ok_0, Seq::<ModelView>::empty(), levels, names),
            )
            &&& replies[3] is Ok ==> actions.contains(
                ActionView::SessionMetricsUpdated(metrics_of(replies[3]->Ok_0, cost_microusd)),
            )
            &&& replies[4] is Ok ==> actions.contains(
                ActionView::RuntimeCommandsUpdated(commands_in(replies[4]->Ok_0)),
            )
            &&& actions.len() == 1 + (if replies[1] is Err {
                1int
            } else {
                0
            }) + (if replies[3] is Ok {
                1int
            } else {
                0
            }) + (if replies[4] is Ok {
                1int
            } else {
                0
            })
        }),
{
    let actions = fetched(replies, names, cost_microusd);
    let n = if replies[1] is Err {
        2int
    } else {
        1
    };
    assert(actions[0] == actions[0]);
    assert(actions.contains(actions[0]));
    if replies[1] is Err {
        assert(actions.contains(actions[1]));
    }
    let m = if replies[3] is Ok {
        assert(actions.contains(actions[n]));
        n + 1
    } else {
        n
    };
    if replies[4] is Ok {
        assert(actions.contains(actions[m]));
    }
}

} // verus!
