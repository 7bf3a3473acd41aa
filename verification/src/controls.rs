//! Reading a running agent's control state.
//!
//! Which model is selected, which thinking levels it offers, the queue modes,
//! session metrics, slash commands: five questions, one after the other.
//! [`ControlFetch`] says which question comes next and what the answers amount to;
//! whoever talks to the agent asks them.

use vstd::prelude::*;

use crate::domain::{
    Action, ActionView, CommandInfoView, ModelOption, ModelView, ProviderProfile, ProviderView,
    QueueMode, SessionStatus, SlashCommandInfo, StatusView, ThinkingLevel,
};
use crate::json::{member_list, Json, JsonView};
use crate::keyed::TextMap;
use crate::protocol::{
    metrics_of, mode_named, model_of, model_option, or_str, or_text, queue_mode, session_metrics,
};
use crate::providers::{config_key, provider_config_key};
use crate::views::{keep_map, lemma_keep_map_step, lemma_views_push, views};

verus! {

/// The display names of providers, by what Pi calls them.
///
/// Pi reports a model's provider by its configuration key; without the name a
/// model would be shown with an opaque identifier.
pub type ProviderNames = TextMap;

/// The names of providers by configuration key.
pub open spec fn names_of(profiles: Seq<ProviderView>) -> Map<Seq<char>, Seq<char>>
    decreases profiles.len(),
{
    if profiles.len() == 0 {
        Map::empty()
    } else {
        names_of(profiles.drop_last()).insert(config_key(profiles.last().id), profiles.last().name)
    }
}

/// The names of the configured providers.
pub fn provider_names(profiles: &Vec<ProviderProfile>) -> (r: ProviderNames)
    ensures
        r@ == names_of(views(profiles@)),
{
    let ghost all = views(profiles@);
    let mut names = TextMap::new();
    let mut i: usize = 0;
    proof {
        assert(all.take(0) =~= Seq::empty());
    }
    while i < profiles.len()
        invariant
            i <= profiles@.len(),
            all == views(profiles@),
            names@ == names_of(all.take(i as int)),
        decreases profiles@.len() - i,
    {
        proof {
            assert(all.take(i + 1).drop_last() =~= all.take(i as int));
            assert(all.take(i + 1).last() == profiles@[i as int]@);
        }
        names.insert(provider_config_key(profiles[i].id), profiles[i].name.clone());
        i = i + 1;
    }
    proof {
        assert(all.take(i as int) =~= all);
    }
    names
}

/// A question to the agent.
#[derive(Clone, Copy, Debug, PartialEq, Eq, Structural)]
pub enum ControlQuery {
    State,
    AvailableModels,
    AvailableThinkingLevels,
    SessionStats,
    Commands,
}

impl ControlQuery {
    /// What the question is called on the wire.
    pub open spec fn name(self) -> Seq<char> {
        match self {
            ControlQuery::State => "get_state"@,
            ControlQuery::AvailableModels => "get_available_models"@,
            ControlQuery::AvailableThinkingLevels => "get_available_thinking_levels"@,
            ControlQuery::SessionStats => "get_session_stats"@,
            ControlQuery::Commands => "get_commands"@,
        }
    }

    /// What the question is called on the wire.
    pub fn as_str(self) -> (r: &'static str)
        ensures
            r@ == self.name(),
    {
        match self {
            ControlQuery::State => "get_state",
            ControlQuery::AvailableModels => "get_available_models",
            ControlQuery::AvailableThinkingLevels => "get_available_thinking_levels",
            ControlQuery::SessionStats => "get_session_stats",
            ControlQuery::Commands => "get_commands",
        }
    }

    /// The question as it goes over the wire.
    pub fn to_json(self) -> (r: Json)
        ensures
            r@ == JsonView::Object(seq![("type"@, JsonView::Str(self.name()))]),
    {
        let mut members: Vec<(String, Json)> = Vec::new();
        members.push(("type".to_owned(), Json::string(self.as_str())));
        proof {
            assert(member_list(members@) =~= seq![("type"@, JsonView::Str(self.name()))]);
        }
        Json::object(members)
    }
}

/// What the agent said to a question: a document, or why there is none.
pub type Reply = Result<Json, String>;

/// What a reply holds.
pub open spec fn reply_view(reply: Reply) -> Result<JsonView, Seq<char>> {
    match reply {
        Ok(value) => Ok(value@),
        Err(error) => Err(error@),
    }
}

/// What replies hold.
pub open spec fn reply_views(replies: Seq<Reply>) -> Seq<Result<JsonView, Seq<char>>> {
    replies.map_values(|reply: Reply| reply_view(reply))
}

/// The question in the given place.
pub open spec fn query_at(i: nat) -> Option<ControlQuery> {
    if i == 0 {
        Some(ControlQuery::State)
    } else if i == 1 {
        Some(ControlQuery::AvailableModels)
    } else if i == 2 {
        Some(ControlQuery::AvailableThinkingLevels)
    } else if i == 3 {
        Some(ControlQuery::SessionStats)
    } else if i == 4 {
        Some(ControlQuery::Commands)
    } else {
        None
    }
}

/// The question that comes after the given replies. An agent that cannot say
/// what state it is in is asked nothing more.
pub open spec fn next_query_after(replies: Seq<Result<JsonView, Seq<char>>>) -> Option<
    ControlQuery,
> {
    if replies.len() > 0 && replies[0] is Err {
        None
    } else {
        query_at(replies.len())
    }
}

/// The level that is offered where the agent offers none: a picker without options
/// cannot be shown.
pub fn default_thinking_levels() -> (r: Vec<ThinkingLevel>)
    ensures
        r@ == seq![ThinkingLevel::Off],
{
    let mut levels: Vec<ThinkingLevel> = Vec::new();
    levels.push(ThinkingLevel::Off);
    proof {
        assert(levels@ =~= seq![ThinkingLevel::Off]);
    }
    levels
}

/// The items of an array that is a member of a reply, or none.
pub open spec fn listed(response: JsonView, key: Seq<char>) -> Seq<JsonView> {
    match response.items_at(key) {
        Some(items) => items,
        None => Seq::empty(),
    }
}

/// The models of a reply.
pub open spec fn models_in(response: JsonView, names: Map<Seq<char>, Seq<char>>) -> Seq<ModelView> {
    keep_map(listed(response, "models"@), |model: JsonView| model_of(model, names))
}

/// The models of a reply.
pub fn parse_models(response: &Json, providers: &ProviderNames) -> (r: Vec<ModelOption>)
    ensures
        views(r@) == models_in(response@, providers@),
{
    let ghost f = |model: JsonView| model_of(model, providers@);
    let mut models: Vec<ModelOption> = Vec::new();
    proof {
        assert(views(models@) =~= Seq::empty());
    }
    if let Some(items) = response.array_at("models") {
        let ghost all = views(items@);
        let mut i: usize = 0;
        proof {
            assert(all.take(0) =~= Seq::empty());
        }
        while i < items.len()
            invariant
                i <= items@.len(),
                all == views(items@),
                f == (|model: JsonView| model_of(model, providers@)),
                views(models@) == keep_map(all.take(i as int), f),
            decreases items@.len() - i,
        {
            proof {
                lemma_keep_map_step(all, f, i as int);
            }
            if let Some(model) = model_option(&items[i], providers) {
                proof {
                    lemma_views_push(models@, model);
                }
                models.push(model);
            }
            i = i + 1;
        }
        proof {
            assert(all.take(i as int) =~= all);
        }
    }
    models
}

/// The level that an item of a reply names.
pub open spec fn level_in(item: JsonView) -> Option<ThinkingLevel> {
    match item.text() {
        Some(name) => ThinkingLevel::named(name),
        None => None,
    }
}

/// The levels that a reply names.
pub open spec fn named_levels(response: JsonView) -> Seq<ThinkingLevel> {
    keep_map(listed(response, "levels"@), |item: JsonView| level_in(item))
}

/// The levels of a reply: those that it names, or the one that is always there.
pub open spec fn levels_in(response: JsonView) -> Seq<ThinkingLevel> {
    if named_levels(response).len() == 0 {
        seq![ThinkingLevel::Off]
    } else {
        named_levels(response)
    }
}

/// The levels of a reply: those that it names, or the one that is always there.
pub fn parse_thinking_levels(response: &Json) -> (r: Vec<ThinkingLevel>)
    ensures
        r@ == levels_in(response@),
{
    let ghost f = |item: JsonView| level_in(item);
    let mut levels: Vec<ThinkingLevel> = Vec::new();
    if let Some(items) = response.array_at("levels") {
        let ghost all = views(items@);
        let mut i: usize = 0;
        proof {
            assert(all.take(0) =~= Seq::empty());
        }
        while i < items.len()
            invariant
                i <= items@.len(),
                all == views(items@),
                f == (|item: JsonView| level_in(item)),
                levels@ == keep_map(all.take(i as int), f),
            decreases items@.len() - i,
        {
            proof {
                lemma_keep_map_step(all, f, i as int);
            }
            if let Some(name) = items[i].as_str() {
                if let Some(level) = ThinkingLevel::from_name(name) {
                    levels.push(level);
                }
            }
            i = i + 1;
        }
        proof {
            assert(all.take(i as int) =~= all);
        }
    }
    if levels.len() == 0 {
        default_thinking_levels()
    } else {
        levels
    }
}

/// The command that an item of a reply describes.
pub open spec fn command_in(item: JsonView) -> Option<CommandInfoView> {
    match item.text_at("name"@) {
        Some(name) => Some(
            CommandInfoView {
                name,
                description: or_text(item.text_at("description"@), ""@),
                source: or_text(item.text_at("source"@), "command"@),
            },
        ),
        None => None,
    }
}

/// The commands of a reply.
pub open spec fn commands_in(response: JsonView) -> Seq<CommandInfoView> {
    keep_map(listed(response, "commands"@), |item: JsonView| command_in(item))
}

/// The commands of a reply.
pub fn parse_commands(response: &Json) -> (r: Vec<SlashCommandInfo>)
    ensures
        views(r@) == commands_in(response@),
{
    let ghost f = |item: JsonView| command_in(item);
    let mut commands: Vec<SlashCommandInfo> = Vec::new();
    proof {
        assert(views(commands@) =~= Seq::empty());
    }
    if let Some(items) = response.array_at("commands") {
        let ghost all = views(items@);
        let mut i: usize = 0;
        proof {
            assert(all.take(0) =~= Seq::empty());
        }
        while i < items.len()
            invariant
                i <= items@.len(),
                all == views(items@),
                f == (|item: JsonView| command_in(item)),
                views(commands@) == keep_map(all.take(i as int), f),
            decreases items@.len() - i,
        {
            proof {
                lemma_keep_map_step(all, f, i as int);
            }
            if let Some(name) = items[i].str_at("name") {
                let command = SlashCommandInfo {
                    name: name.to_owned(),
                    description: or_str(items[i].str_at("description"), "").to_owned(),
                    source: or_str(items[i].str_at("source"), "command").to_owned(),
                };
                proof {
                    lemma_views_push(commands@, command);
                }
                commands.push(command);
            }
            i = i + 1;
        }
        proof {
            assert(all.take(i as int) =~= all);
        }
    }
    commands
}

/// The level that a state reports, or the default.
pub open spec fn requested_level(state: JsonView) -> ThinkingLevel {
    match state.text_at("thinkingLevel"@) {
        Some(name) => match ThinkingLevel::named(name) {
            Some(level) => level,
            None => ThinkingLevel::Off,
        },
        None => ThinkingLevel::Off,
    }
}

/// The level in use: the reported one where it is offered, the first offered one
/// otherwise.
pub open spec fn level_in_use(requested: ThinkingLevel, offered: Seq<ThinkingLevel>) -> ThinkingLevel {
    if offered.contains(requested) {
        requested
    } else if offered.len() > 0 {
        offered[0]
    } else {
        ThinkingLevel::Off
    }
}

/// The level in use: the reported one where it is offered, the first offered one
/// otherwise.
pub fn choose_level(requested: ThinkingLevel, offered: &Vec<ThinkingLevel>) -> (r: ThinkingLevel)
    ensures
        r == level_in_use(requested, offered@),
{
    let mut i: usize = 0;
    while i < offered.len()
        invariant
            i <= offered@.len(),
            forall|k: int| 0 <= k < i ==> offered@[k] != requested,
        decreases offered@.len() - i,
    {
        if offered[i] == requested {
            return requested;
        }
        i = i + 1;
    }
    if offered.len() > 0 {
        offered[0]
    } else {
        ThinkingLevel::Off
    }
}

/// The queue mode that a state reports, or the default.
pub open spec fn reported_mode(state: JsonView, key: Seq<char>) -> QueueMode {
    match state.text_at(key) {
        Some(name) => mode_named(name),
        None => QueueMode::OneAtATime,
    }
}

fn mode_in(state: &Json, key: &str) -> (r: QueueMode)
    ensures
        r == reported_mode(state@, key@),
{
    match state.str_at(key) {
        Some(name) => queue_mode(name),
        None => QueueMode::OneAtATime,
    }
}

/// The controls that a state amounts to.
pub open spec fn controls_of(
    state: JsonView,
    models: Seq<ModelView>,
    levels: Seq<ThinkingLevel>,
    names: Map<Seq<char>, Seq<char>>,
) -> ActionView {
    ActionView::RuntimeControlsUpdated {
        current_model: match state.field("model"@) {
            Some(model) => model_of(model, names),
            None => None,
        },
        available_models: models,
        thinking_level: level_in_use(requested_level(state), levels),
        available_thinking_levels: levels,
        auto_compaction_enabled: match state.truth_at("autoCompactionEnabled"@) {
            Some(enabled) => enabled,
            None => true,
        },
        steering_mode: reported_mode(state, "steeringMode"@),
        follow_up_mode: reported_mode(state, "followUpMode"@),
    }
}

fn controls_action(
    state: &Json,
    models: Vec<ModelOption>,
    levels: Vec<ThinkingLevel>,
    providers: &ProviderNames,
) -> (r: Action)
    ensures
        r@ == controls_of(state@, views(models@), levels@, providers@),
{
    let requested = match state.str_at("thinkingLevel") {
        Some(name) => match ThinkingLevel::from_name(name) {
            Some(level) => level,
            None => ThinkingLevel::Off,
        },
        None => ThinkingLevel::Off,
    };
    let thinking_level = choose_level(requested, &levels);
    let current_model = match state.get("model") {
        Some(model) => model_option(model, providers),
        None => None,
    };
    let auto_compaction_enabled = match state.bool_at("autoCompactionEnabled") {
        Some(enabled) => enabled,
        None => true,
    };
    Action::RuntimeControlsUpdated {
        current_model,
        available_models: models,
        thinking_level,
        available_thinking_levels: levels,
        auto_compaction_enabled,
        steering_mode: mode_in(state, "steeringMode"),
        follow_up_mode: mode_in(state, "followUpMode"),
    }
}

/// The change that reports a failure.
pub open spec fn failure_of(error: Seq<char>) -> ActionView {
    ActionView::SetSessionStatus(StatusView::Failed(error))
}

/// What the replies amount to. `cost_microusd` is what the fourth reply's cost
/// comes to in millionths of a dollar.
pub open spec fn fetched(
    replies: Seq<Result<JsonView, Seq<char>>>,
    names: Map<Seq<char>, Seq<char>>,
    cost_microusd: u64,
) -> Seq<ActionView> {
    match replies[0] {
        Err(error) => seq![failure_of(error)],
        Ok(state) => {
            let levels = match replies[2] {
                Ok(response) => levels_in(response),
                Err(_) => seq![ThinkingLevel::Off],
            };
            let controls = match replies[1] {
                Ok(response) => seq![
                    controls_of(state, models_in(response, names), levels, names),
                ],
                Err(error) => seq![
                    failure_of(error),
                    controls_of(state, Seq::empty(), levels, names),
                ],
            };
            let metrics = match replies[3] {
                Ok(response) => seq![
                    ActionView::SessionMetricsUpdated(metrics_of(response, cost_microusd)),
                ],
                Err(_) => Seq::empty(),
            };
            let commands = match replies[4] {
                Ok(response) => seq![ActionView::RuntimeCommandsUpdated(commands_in(response))],
                Err(_) => Seq::empty(),
            };
            controls + metrics + commands
        },
    }
}

/// A round of questions to an agent.
pub struct ControlFetch {
    replies: Vec<Reply>,
}

impl View for ControlFetch {
    type V = Seq<Result<JsonView, Seq<char>>>;

    closed spec fn view(&self) -> Seq<Result<JsonView, Seq<char>>> {
        reply_views(self.replies@)
    }
}

impl ControlFetch {
    /// A round in which nothing was asked yet.
    pub fn new() -> (r: ControlFetch)
        ensures
            r@ == Seq::<Result<JsonView, Seq<char>>>::empty(),
    {
        let r = ControlFetch { replies: Vec::new() };
        proof {
            assert(r@ =~= Seq::<Result<JsonView, Seq<char>>>::empty());
        }
        r
    }

    /// The question to ask now, or none where the round is over.
    pub fn next_query(&self) -> (r: Option<ControlQuery>)
        ensures
            r == next_query_after(self@),
    {
        let n: usize = self.replies.len();
        if n > 0 && self.replies[0].is_err() {
            return None;
        }
        if n == 0 {
            Some(ControlQuery::State)
        } else if n == 1 {
            Some(ControlQuery::AvailableModels)
        } else if n == 2 {
            Some(ControlQuery::AvailableThinkingLevels)
        } else if n == 3 {
            Some(ControlQuery::SessionStats)
        } else if n == 4 {
            Some(ControlQuery::Commands)
        } else {
            None
        }
    }

    /// Takes the reply to the question that was to be asked.
    pub fn answer(&mut self, reply: Reply)
        ensures
            final(self)@ == old(self)@.push(reply_view(reply)),
    {
        let ghost before = self@;
        let ghost given = reply_view(reply);
        self.replies.push(reply);
        proof {
            assert(self@ =~= before.push(given));
        }
    }

    /// What the replies of a round amount to. A failure to read the state is all
    /// there is to report; missing metrics or commands are passed over.
    pub fn finish(&self, providers: &ProviderNames, cost_microusd: u64) -> (r: Vec<Action>)
        requires
            next_query_after(self@) is None,
        ensures
            views(r@) == fetched(self@, providers@, cost_microusd),
    {
        let mut actions: Vec<Action> = Vec::new();
        proof {
            assert forall|i: int| 0 <= i < self.replies@.len() implies #[trigger] self@[i]
                == reply_view(self.replies@[i]) by {}
            assert(self@.len() == self.replies@.len());
            assert(self.replies@.len() > 0);
            assert(self@[0] == reply_view(self.replies@[0]));
        }
        let state = match &self.replies[0] {
            Err(error) => {
                actions.push(Action::SetSessionStatus(SessionStatus::Failed(error.clone())));
                proof {
                    assert(views(actions@) =~= fetched(self@, providers@, cost_microusd));
                }
                return actions;
            },
            Ok(state) => state,
        };
        proof {
            assert(self.replies@.len() >= 5);
            assert(self@[1] == reply_view(self.replies@[1]));
            assert(self@[2] == reply_view(self.replies@[2]));
            assert(self@[3] == reply_view(self.replies@[3]));
            assert(self@[4] == reply_view(self.replies@[4]));
        }
        let models = match &self.replies[1] {
            Ok(response) => parse_models(response, providers),
            Err(error) => {
                actions.push(Action::SetSessionStatus(SessionStatus::Failed(error.clone())));
                Vec::new()
            },
        };
        proof {
            if self@[1] is Err {
                assert(views(models@) =~= Seq::empty());
            }
        }
        let levels = match &self.replies[2] {
            Ok(response) => parse_thinking_levels(response),
            Err(_) => default_thinking_levels(),
        };
        actions.push(controls_action(state, models, levels, providers));
        if let Ok(response) = &self.replies[3] {
            actions.push(Action::SessionMetricsUpdated(session_metrics(response, cost_microusd)));
        }
        if let Ok(response) = &self.replies[4] {
            actions.push(Action::RuntimeCommandsUpdated(parse_commands(response)));
        }
        proof {
            assert(views(actions@) =~= fetched(self@, providers@, cost_microusd));
        }
        actions
    }
}

/// There is always a thinking level to pick, and the one in use is among those on
/// offer.
pub proof fn lemma_level_in_use_is_offered(requested: ThinkingLevel, response: JsonView)
    ensures
        levels_in(response).len() > 0,
        levels_in(response).contains(level_in_use(requested, levels_in(response))),
{
    let levels = levels_in(response);
    assert(levels[0] == levels[0] && levels.contains(levels[0]));
}

/// Each question is asked once, in the order of [`query_at`], as long as the agent
/// can say what state it is in; the round is then over behind the fifth.
pub proof fn lemma_each_query_once(replies: Seq<Result<JsonView, Seq<char>>>)
    requires
        replies.len() > 0,
        replies[0] is Ok,
    ensures
        forall|n: int|
            0 <= n <= replies.len() ==> #[trigger] next_query_after(replies.take(n)) == query_at(
                n as nat,
            ),
        forall|m: nat, n: nat|
            m < n && query_at(m) is Some ==> #[trigger] query_at(m) != #[trigger] query_at(n),
{
    assert forall|n: int| 0 <= n <= replies.len() implies #[trigger] next_query_after(
        replies.take(n),
    ) == query_at(n as nat) by {
        if n > 0 {
            assert(replies.take(n)[0] == replies[0]);
        }
    }
}

/// A failure to read the state ends the round and is all that is reported.
pub proof fn lemma_failed_state_stops_the_round(
    error: Seq<char>,
    names: Map<Seq<char>, Seq<char>>,
    cost_microusd: u64,
)
    ensures
        next_query_after(seq![Err(error)]) is None,
        fetched(seq![Err(error)], names, cost_microusd) == seq![failure_of(error)],
{
}

/// Missing metrics and commands do not make a session look broken: no failure is
/// reported where the state and the models could be read.
pub proof fn lemma_missing_extras_are_no_failure(
    replies: Seq<Result<JsonView, Seq<char>>>,
    names: Map<Seq<char>, Seq<char>>,
    cost_microusd: u64,
)
    requires
        replies.len() >= 5,
        replies[0] is Ok,
        replies[1] is Ok,
    ensures
        forall|i: int|
            0 <= i < fetched(replies, names, cost_microusd).len() ==> !((#[trigger] fetched(
                replies,
                names,
                cost_microusd,
            )[i]) is SetSessionStatus),
        fetched(replies, names, cost_microusd)[0] is RuntimeControlsUpdated,
{
}

} // verus!
