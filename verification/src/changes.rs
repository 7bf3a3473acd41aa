//! Typed descriptions of committed changes.
//!
//! A [`ChangeSet`] says which topics of the state a batch of actions touched,
//! without exposing the actions or the state itself.

use vstd::prelude::*;

use crate::domain::{Action, ActionView, AppState, ProjectId, SessionId};
use crate::mailbox::SessionToken;
use crate::text::{cat2, decimal, decimal_string};
use crate::views::views;

verus! {

/// The revision of a committed batch. It only grows.
#[derive(Clone, Copy, Debug, PartialEq, Eq, Structural, Hash, PartialOrd, Ord)]
pub struct TransactionRevision(u64);

/// An error raised while committing a batch.
#[derive(Clone, Copy, Debug, PartialEq, Eq, Structural)]
pub enum CommitError {
    /// The next revision cannot be represented.
    RevisionOverflow {
        /// The last revision that was committed.
        current: TransactionRevision,
    },
}

impl View for TransactionRevision {
    type V = u64;

    closed spec fn view(&self) -> u64 {
        self.0
    }
}

impl Default for TransactionRevision {
    fn default() -> (r: Self)
        ensures
            r@ == 0,
    {
        TransactionRevision(0)
    }
}

impl TransactionRevision {
    /// The revision with a given number.
    pub fn new(value: u64) -> (r: TransactionRevision)
        ensures
            r@ == value,
    {
        TransactionRevision(value)
    }

    /// The revision of a state that nothing was committed to.
    pub fn zero() -> (r: TransactionRevision)
        ensures
            r@ == 0,
    {
        TransactionRevision(0)
    }

    /// The highest revision.
    pub fn highest() -> (r: TransactionRevision)
        ensures
            r@ == u64::MAX,
    {
        TransactionRevision(u64::MAX)
    }

    /// The number of this revision.
    pub fn get(self) -> (r: u64)
        ensures
            r == self@,
    {
        self.0
    }

    /// The revision behind this one.
    pub fn checked_next(self) -> (r: Result<TransactionRevision, CommitError>)
        ensures
            match r {
                Ok(next) => self@ < u64::MAX && next@ == self@ + 1,
                Err(error) => self@ == u64::MAX && error == (CommitError::RevisionOverflow {
                    current: self,
                }),
            },
    {
        if self.0 == u64::MAX {
            Err(CommitError::RevisionOverflow { current: self })
        } else {
            Ok(TransactionRevision(self.0 + 1))
        }
    }

    /// The number of this revision, written out.
    pub fn to_text(self) -> (r: String)
        ensures
            r@ == decimal(self@ as nat),
    {
        decimal_string(self.0)
    }
}

impl CommitError {
    /// What went wrong.
    pub fn message(&self) -> (r: String)
        ensures
            r@ == "transaction revision overflow at "@ + decimal(
                self->RevisionOverflow_current@ as nat,
            ),
    {
        match self {
            CommitError::RevisionOverflow { current } => cat2(
                "transaction revision overflow at ",
                current.to_text().as_str(),
            ),
        }
    }
}

/// The identity of a live session. The token does not change when the transcript
/// path does; the generation tells later lifetimes apart; the other identifiers
/// are there once they are known.
#[derive(Clone, Copy, Debug, PartialEq, Eq, Structural, Hash)]
pub struct SessionIdentity {
    pub token: SessionToken,
    pub generation: u64,
    pub project_id: Option<ProjectId>,
    pub session_id: Option<SessionId>,
}

impl SessionIdentity {
    /// An identity before its persisted identifiers are known.
    pub fn new(token: SessionToken, generation: u64) -> (r: SessionIdentity)
        ensures
            r == (SessionIdentity { token, generation, project_id: None, session_id: None }),
    {
        SessionIdentity { token, generation, project_id: None, session_id: None }
    }

    /// An identity with the identifiers that are known.
    pub fn with_ids(
        token: SessionToken,
        generation: u64,
        project_id: Option<ProjectId>,
        session_id: Option<SessionId>,
    ) -> (r: SessionIdentity)
        ensures
            r == (SessionIdentity { token, generation, project_id, session_id }),
    {
        SessionIdentity { token, generation, project_id, session_id }
    }

    /// The token of the process.
    pub fn session_token(self) -> (r: SessionToken)
        ensures
            r == self.token,
    {
        self.token
    }
}

/// What part of the state a commit is about.
#[derive(Clone, Copy, Debug, PartialEq, Eq, Structural, Hash)]
pub enum CommitScope {
    /// State that all sessions share.
    Global,
    /// One live session.
    Session(SessionIdentity),
}

/// What caused a commit.
#[derive(Clone, Copy, Debug, PartialEq, Eq, Structural, Hash)]
pub enum CommitSource {
    RuntimeEvent,
    UserCommand,
    ControlRefresh,
    PersistenceLoad,
    InternalEffect,
    Test,
}

/// The topics of the state that a commit can touch.
#[derive(Clone, Copy, Debug, PartialEq, Eq, Structural, Hash, PartialOrd, Ord)]
pub enum StateTopic {
    Projects,
    Sessions,
    Selection,
    Conversation,
    SessionRuntime,
    RuntimeControls,
    Queue,
    Preferences,
    Providers,
    SearchEngines,
    Hooks,
    AgentsMd,
}

impl StateTopic {
    /// All topics in their fixed order.
    pub const ALL: [StateTopic; 12] = [
        StateTopic::Projects,
        StateTopic::Sessions,
        StateTopic::Selection,
        StateTopic::Conversation,
        StateTopic::SessionRuntime,
        StateTopic::RuntimeControls,
        StateTopic::Queue,
        StateTopic::Preferences,
        StateTopic::Providers,
        StateTopic::SearchEngines,
        StateTopic::Hooks,
        StateTopic::AgentsMd,
    ];

    /// The name of a topic.
    pub open spec fn name(self) -> Seq<char> {
        match self {
            StateTopic::Projects => "projects"@,
            StateTopic::Sessions => "sessions"@,
            StateTopic::Selection => "selection"@,
            StateTopic::Conversation => "conversation"@,
            StateTopic::SessionRuntime => "session_runtime"@,
            StateTopic::RuntimeControls => "runtime_controls"@,
            StateTopic::Queue => "queue"@,
            StateTopic::Preferences => "preferences"@,
            StateTopic::Providers => "providers"@,
            StateTopic::SearchEngines => "search_engines"@,
            StateTopic::Hooks => "hooks"@,
            StateTopic::AgentsMd => "agents_md"@,
        }
    }

    /// The name of a topic.
    pub fn as_str(self) -> (r: &'static str)
        ensures
            r@ == self.name(),
    {
        match self {
            StateTopic::Projects => "projects",
            StateTopic::Sessions => "sessions",
            StateTopic::Selection => "selection",
            StateTopic::Conversation => "conversation",
            StateTopic::SessionRuntime => "session_runtime",
            StateTopic::RuntimeControls => "runtime_controls",
            StateTopic::Queue => "queue",
            StateTopic::Preferences => "preferences",
            StateTopic::Providers => "providers",
            StateTopic::SearchEngines => "search_engines",
            StateTopic::Hooks => "hooks",
            StateTopic::AgentsMd => "agents_md",
        }
    }
}

proof fn lemma_name_lengths()
    ensures
        StateTopic::Projects.name().len() == 8,
        StateTopic::Sessions.name().len() == 8,
        StateTopic::Selection.name().len() == 9,
        StateTopic::Conversation.name().len() == 12,
        StateTopic::SessionRuntime.name().len() == 15,
        StateTopic::RuntimeControls.name().len() == 16,
        StateTopic::Queue.name().len() == 5,
        StateTopic::Preferences.name().len() == 11,
        StateTopic::Providers.name().len() == 9,
        StateTopic::SearchEngines.name().len() == 14,
        StateTopic::Hooks.name().len() == 5,
        StateTopic::AgentsMd.name().len() == 9,
        StateTopic::Projects.name()[0] == 'p',
        StateTopic::Sessions.name()[0] == 's',
        StateTopic::Selection.name()[0] == 's',
        StateTopic::Providers.name()[0] == 'p',
        StateTopic::AgentsMd.name()[0] == 'a',
        StateTopic::Queue.name()[0] == 'q',
        StateTopic::Hooks.name()[0] == 'h',
{
    reveal_strlit("projects");
    reveal_strlit("sessions");
    reveal_strlit("selection");
    reveal_strlit("conversation");
    reveal_strlit("session_runtime");
    reveal_strlit("runtime_controls");
    reveal_strlit("queue");
    reveal_strlit("preferences");
    reveal_strlit("providers");
    reveal_strlit("search_engines");
    reveal_strlit("hooks");
    reveal_strlit("agents_md");
}

/// Different topics have different names.
pub proof fn lemma_topic_names_differ(a: StateTopic, b: StateTopic)
    requires
        a.name() == b.name(),
    ensures
        a == b,
{
    lemma_name_lengths();
}

/// The topics that an action can touch.
pub open spec fn action_topics(action: ActionView) -> Seq<StateTopic> {
    match action {
        ActionView::ProjectsLoaded(_) => seq![StateTopic::Projects],
        ActionView::SessionsLoaded { .. } => seq![StateTopic::Sessions],
        ActionView::SelectProject(_) => seq![StateTopic::Selection, StateTopic::Conversation],
        ActionView::SelectSession(_) => seq![StateTopic::Selection],
        ActionView::SessionRunning { .. } => seq![StateTopic::SessionRuntime],
        ActionView::SetLanguage(_) => seq![StateTopic::Preferences],
        ActionView::SetBashPolicy(_) => seq![StateTopic::Preferences],
        ActionView::SetBashBlockedPatterns(_) => seq![StateTopic::Preferences],
        ActionView::SetAgentTeamConfig(_) => seq![StateTopic::Preferences],
        ActionView::SetOneShotAiConfig(_) => seq![StateTopic::Preferences],
        ActionView::SetProjectHookStatus(_) => seq![StateTopic::Hooks],
        ActionView::SetHookAudit(_) => seq![StateTopic::Hooks],
        ActionView::AgentsMdFilesLoaded(_) => seq![StateTopic::AgentsMd],
        ActionView::ProviderProfilesLoaded(_) => seq![StateTopic::Providers],
        ActionView::ProviderKeyStatusLoaded(_) => seq![StateTopic::Providers],
        ActionView::SearchEngineProfilesLoaded(_) => seq![StateTopic::SearchEngines],
        ActionView::SearchEngineKeyStatusLoaded(_) => seq![StateTopic::SearchEngines],
        ActionView::RuntimeControlsUpdated { .. } => seq![StateTopic::RuntimeControls],
        ActionView::RuntimeCommandsUpdated(_) => seq![StateTopic::RuntimeControls],
        ActionView::SetPendingModel(_) => seq![StateTopic::RuntimeControls],
        ActionView::SessionMetricsUpdated(_) => seq![StateTopic::SessionRuntime],
        ActionView::SetSessionStatus(_) => seq![StateTopic::SessionRuntime],
        ActionView::UpsertConversation(_) => seq![StateTopic::Conversation],
        ActionView::RekeyConversation { .. } => seq![StateTopic::Conversation],
        ActionView::AppendAssistantText { .. } => seq![StateTopic::Conversation],
        ActionView::FinishMessage(_) => seq![StateTopic::Conversation],
        ActionView::ClearConversation => seq![StateTopic::Conversation],
        ActionView::QueueUpdated { .. } => seq![StateTopic::Queue],
    }
}

/// The topics that an action can touch.
pub fn topics_for_action(action: &Action) -> (r: Vec<StateTopic>)
    ensures
        r@ == action_topics(action@),
{
    let first = match action {
        Action::ProjectsLoaded(_) => StateTopic::Projects,
        Action::SessionsLoaded { .. } => StateTopic::Sessions,
        Action::SelectProject(_) => StateTopic::Selection,
        Action::SelectSession(_) => StateTopic::Selection,
        Action::SessionRunning { .. } => StateTopic::SessionRuntime,
        Action::SetLanguage(_) => StateTopic::Preferences,
        Action::SetBashPolicy(_) => StateTopic::Preferences,
        Action::SetBashBlockedPatterns(_) => StateTopic::Preferences,
        Action::SetAgentTeamConfig(_) => StateTopic::Preferences,
        Action::SetOneShotAiConfig(_) => StateTopic::Preferences,
        Action::SetProjectHookStatus(_) => StateTopic::Hooks,
        Action::SetHookAudit(_) => StateTopic::Hooks,
        Action::AgentsMdFilesLoaded(_) => StateTopic::AgentsMd,
        Action::ProviderProfilesLoaded(_) => StateTopic::Providers,
        Action::ProviderKeyStatusLoaded(_) => StateTopic::Providers,
        Action::SearchEngineProfilesLoaded(_) => StateTopic::SearchEngines,
        Action::SearchEngineKeyStatusLoaded(_) => StateTopic::SearchEngines,
        Action::RuntimeControlsUpdated { .. } => StateTopic::RuntimeControls,
        Action::RuntimeCommandsUpdated(_) => StateTopic::RuntimeControls,
        Action::SetPendingModel(_) => StateTopic::RuntimeControls,
        Action::SessionMetricsUpdated(_) => StateTopic::SessionRuntime,
        Action::SetSessionStatus(_) => StateTopic::SessionRuntime,
        Action::UpsertConversation(_) => StateTopic::Conversation,
        Action::RekeyConversation { .. } => StateTopic::Conversation,
        Action::AppendAssistantText { .. } => StateTopic::Conversation,
        Action::FinishMessage(_) => StateTopic::Conversation,
        Action::ClearConversation => StateTopic::Conversation,
        Action::QueueUpdated { .. } => StateTopic::Queue,
    };
    let mut topics: Vec<StateTopic> = Vec::new();
    topics.push(first);
    if let Action::SelectProject(_) = action {
        topics.push(StateTopic::Conversation);
    }
    proof {
        assert(topics@ =~= action_topics(action@));
    }
    topics
}

/// Every action touches at least one topic.
pub proof fn lemma_every_action_has_a_topic(action: ActionView)
    ensures
        action_topics(action).len() > 0,
{
}

/// `seen` and, behind them, those of `more` that are not among them yet.
pub open spec fn with_new(seen: Seq<StateTopic>, more: Seq<StateTopic>) -> Seq<StateTopic>
    decreases more.len(),
{
    if more.len() == 0 {
        seen
    } else {
        let before = with_new(seen, more.drop_last());
        if before.contains(more.last()) {
            before
        } else {
            before.push(more.last())
        }
    }
}

/// The topics that a batch touches, each once, in the order in which they first
/// come up.
pub open spec fn batch_topics(actions: Seq<ActionView>) -> Seq<StateTopic>
    decreases actions.len(),
{
    if actions.len() == 0 {
        Seq::empty()
    } else {
        with_new(batch_topics(actions.drop_last()), action_topics(actions.last()))
    }
}

/// Whether a list of topics holds a given one.
pub fn topic_among(topics: &Vec<StateTopic>, topic: StateTopic) -> (r: bool)
    ensures
        r == topics@.contains(topic),
{
    let mut i: usize = 0;
    while i < topics.len()
        invariant
            i <= topics@.len(),
            forall|k: int| 0 <= k < i ==> topics@[k] != topic,
        decreases topics@.len() - i,
    {
        if topics[i] == topic {
            return true;
        }
        i = i + 1;
    }
    false
}

/// Adds those of `more` to `seen` that are not among them yet.
pub fn add_new_topics(seen: &mut Vec<StateTopic>, more: &Vec<StateTopic>)
    ensures
        final(seen)@ == with_new(old(seen)@, more@),
{
    let ghost before = seen@;
    let mut i: usize = 0;
    proof {
        assert(more@.take(0) =~= Seq::empty());
    }
    while i < more.len()
        invariant
            i <= more@.len(),
            seen@ == with_new(before, more@.take(i as int)),
        decreases more@.len() - i,
    {
        proof {
            assert(more@.take(i + 1).drop_last() =~= more@.take(i as int));
        }
        if !topic_among(seen, more[i]) {
            seen.push(more[i]);
        }
        i = i + 1;
    }
    proof {
        assert(more@.take(i as int) =~= more@);
    }
}

/// The topics that a batch touches, each once, in the order in which they first
/// come up.
pub fn collect_changed_topics(actions: &Vec<Action>) -> (r: Vec<StateTopic>)
    ensures
        r@ == batch_topics(views(actions@)),
{
    let ghost all = views(actions@);
    let mut topics: Vec<StateTopic> = Vec::new();
    let mut i: usize = 0;
    proof {
        assert(all.take(0) =~= Seq::empty());
        assert(topics@ =~= Seq::empty());
    }
    while i < actions.len()
        invariant
            i <= actions@.len(),
            all == views(actions@),
            topics@ == batch_topics(all.take(i as int)),
        decreases actions@.len() - i,
    {
        proof {
            assert(all.take(i + 1).drop_last() =~= all.take(i as int));
        }
        let touched = topics_for_action(&actions[i]);
        add_new_topics(&mut topics, &touched);
        i = i + 1;
    }
    proof {
        assert(all.take(i as int) =~= all);
    }
    topics
}

/// Adding topics keeps each once and adds no others.
pub proof fn lemma_with_new(seen: Seq<StateTopic>, more: Seq<StateTopic>)
    requires
        seen.no_duplicates(),
    ensures
        with_new(seen, more).no_duplicates(),
        forall|t: StateTopic| #[trigger]
            with_new(seen, more).contains(t) <==> seen.contains(t) || more.contains(t),
        seen.is_prefix_of(with_new(seen, more)),
    decreases more.len(),
{
    if more.len() > 0 {
        let rest = more.drop_last();
        let last = more.last();
        lemma_with_new(seen, rest);
        let before = with_new(seen, rest);
        let after = with_new(seen, more);
        assert forall|t: StateTopic| #[trigger] more.contains(t) <==> rest.contains(t) || t
            == last by {
            if rest.contains(t) {
                let k = rest.index_of(t);
                assert(more[k] == t);
            }
            if more.contains(t) && t != last {
                let k = more.index_of(t);
                assert(rest[k] == t);
            }
            assert(more[more.len() - 1] == last);
        }
        if !before.contains(last) {
            assert forall|t: StateTopic| #[trigger] after.contains(t) <==> before.contains(t) || t
                == last by {
                if before.contains(t) {
                    let k = before.index_of(t);
                    assert(after[k] == t);
                }
                assert(after[before.len() as int] == last);
            }
        }
    }
}

/// The topics of a batch are each reported once, and exactly those that one of
/// its actions can touch.
pub proof fn lemma_batch_topics(actions: Seq<ActionView>)
    ensures
        batch_topics(actions).no_duplicates(),
        forall|t: StateTopic| #[trigger]
            batch_topics(actions).contains(t) <==> exists|i: int|
                0 <= i < actions.len() && (#[trigger] action_topics(actions[i])).contains(t),
    decreases actions.len(),
{
    if actions.len() > 0 {
        let rest = actions.drop_last();
        lemma_batch_topics(rest);
        lemma_with_new(batch_topics(rest), action_topics(actions.last()));
        assert forall|t: StateTopic| #[trigger]
            batch_topics(actions).contains(t) <==> exists|i: int|
                0 <= i < actions.len() && (#[trigger] action_topics(actions[i])).contains(t) by {
            if batch_topics(rest).contains(t) {
                let i = choose|i: int|
                    0 <= i < rest.len() && (#[trigger] action_topics(rest[i])).contains(t);
                assert(action_topics(actions[i]).contains(t));
            }
            if action_topics(actions.last()).contains(t) {
                assert(action_topics(actions[actions.len() - 1]).contains(t));
            }
            if exists|i: int|
                0 <= i < actions.len() && (#[trigger] action_topics(actions[i])).contains(t) {
                let i = choose|i: int|
                    0 <= i < actions.len() && (#[trigger] action_topics(actions[i])).contains(t);
                if i < rest.len() {
                    assert(action_topics(rest[i]).contains(t));
                }
            }
        }
    }
}

/// Whether the part of the state that a topic names is another one in `after`.
pub open spec fn differs_in(topic: StateTopic, before: AppState, after: AppState) -> bool {
    match topic {
        StateTopic::Projects => before.projects != after.projects,
        StateTopic::Sessions => before.sessions != after.sessions,
        StateTopic::Selection => before.selected_project != after.selected_project
            || before.selected_session != after.selected_session,
        StateTopic::Conversation => before.conversation != after.conversation,
        StateTopic::SessionRuntime => before.running_sessions != after.running_sessions
            || before.session_status != after.session_status || before.session_metrics
            != after.session_metrics,
        StateTopic::RuntimeControls => before.current_model != after.current_model
            || before.pending_model != after.pending_model || before.available_models
            != after.available_models || before.thinking_level != after.thinking_level
            || before.available_thinking_levels != after.available_thinking_levels
            || before.available_commands != after.available_commands
            || before.auto_compaction_enabled != after.auto_compaction_enabled,
        StateTopic::Queue => before.pending_steering != after.pending_steering
            || before.pending_follow_up != after.pending_follow_up,
        StateTopic::Preferences => before.language != after.language || before.agent_team_config
            != after.agent_team_config,
        StateTopic::Providers => before.provider_profiles != after.provider_profiles,
        _ => false,
    }
}

/// Whether `after` is `before` but for what an action carries: an action on the
/// conversation leaves the other fields alone, and so on.
pub open spec fn keeps_the_rest(action: ActionView, before: AppState, after: AppState) -> bool {
    &&& after.projects == before.projects || action is ProjectsLoaded
    &&& after.sessions == before.sessions || action is SessionsLoaded
    &&& after.running_sessions == before.running_sessions || action is SessionRunning
    &&& after.selected_project == before.selected_project || action is SelectProject
        || action is SelectSession
    &&& after.selected_session == before.selected_session || action is SelectProject
        || action is SelectSession
    &&& after.conversation == before.conversation || action is UpsertConversation
        || action is RekeyConversation || action is AppendAssistantText || action is FinishMessage
        || action is ClearConversation || action is SelectProject
    &&& after.session_status == before.session_status || action is SetSessionStatus
    &&& after.session_metrics == before.session_metrics || action is SessionMetricsUpdated
    &&& after.current_model == before.current_model || action is RuntimeControlsUpdated
    &&& after.pending_model == before.pending_model || action is SetPendingModel
        || action is RuntimeControlsUpdated
    &&& after.available_models == before.available_models || action is RuntimeControlsUpdated
    &&& after.thinking_level == before.thinking_level || action is RuntimeControlsUpdated
    &&& after.available_thinking_levels == before.available_thinking_levels
        || action is RuntimeControlsUpdated
    &&& after.available_commands == before.available_commands || action is RuntimeCommandsUpdated
    &&& after.auto_compaction_enabled == before.auto_compaction_enabled
        || action is RuntimeControlsUpdated
    &&& after.pending_steering == before.pending_steering || action is QueueUpdated
    &&& after.pending_follow_up == before.pending_follow_up || action is QueueUpdated
    &&& after.language == before.language || action is SetLanguage
    &&& after.agent_team_config == before.agent_team_config || action is SetAgentTeamConfig
    &&& after.provider_profiles == before.provider_profiles || action is ProviderProfilesLoaded
        || action is ProviderKeyStatusLoaded
}

/// A view that follows a part of the state is told of every action after which that
/// part can differ.
pub proof fn lemma_changed_part_is_reported(
    action: ActionView,
    before: AppState,
    after: AppState,
    topic: StateTopic,
)
    requires
        keeps_the_rest(action, before, after),
        differs_in(topic, before, after),
    ensures
        action_topics(action).contains(topic),
{
    lemma_topics_of_actions(action);
}

/// A topic is reported exactly for the actions that carry something of the part of
/// the state that it names. Selecting a project clears the conversation, so it is
/// an action of both.
pub proof fn lemma_topics_of_actions(action: ActionView)
    ensures
        action_topics(action).contains(StateTopic::Projects) <==> action is ProjectsLoaded,
        action_topics(action).contains(StateTopic::Sessions) <==> action is SessionsLoaded,
        action_topics(action).contains(StateTopic::Selection) <==> (action is SelectProject
            || action is SelectSession),
        action_topics(action).contains(StateTopic::Conversation) <==> (action is UpsertConversation
            || action is RekeyConversation
            || action is AppendAssistantText
            || action is FinishMessage
            || action is ClearConversation
            || action is SelectProject),
        action_topics(action).contains(StateTopic::SessionRuntime) <==> (action is SessionRunning
            || action is SetSessionStatus
            || action is SessionMetricsUpdated),
        action_topics(action).contains(StateTopic::RuntimeControls) <==> (action is RuntimeControlsUpdated
            || action is RuntimeCommandsUpdated
            || action is SetPendingModel),
        action_topics(action).contains(StateTopic::Queue) <==> action is QueueUpdated,
        action_topics(action).contains(StateTopic::Preferences) <==> (action is SetLanguage
            || action is SetBashPolicy
            || action is SetBashBlockedPatterns
            || action is SetAgentTeamConfig
            || action is SetOneShotAiConfig),
        action_topics(action).contains(StateTopic::Providers) <==> (action is ProviderProfilesLoaded
            || action is ProviderKeyStatusLoaded),
        action_topics(action).contains(StateTopic::SearchEngines) <==> (action is SearchEngineProfilesLoaded
            || action is SearchEngineKeyStatusLoaded),
        action_topics(action).contains(StateTopic::Hooks) <==> (action is SetProjectHookStatus
            || action is SetHookAudit),
        action_topics(action).contains(StateTopic::AgentsMd) <==> action is AgentsMdFilesLoaded,
        action_topics(action).no_duplicates(),
{
    let topics = action_topics(action);
    assert(topics[0] == topics[0]);
    assert(topics.contains(topics[0]));
    if topics.len() > 1 {
        assert(topics.contains(topics[1]));
    }
}

/// A batch is reported under a topic exactly where one of its actions carries
/// something of that part of the state, so that a reply that arrives is always
/// reported to whoever follows the conversation.
pub proof fn lemma_batch_reports_each_part(actions: Seq<ActionView>, i: int)
    requires
        0 <= i < actions.len(),
    ensures
        actions[i] is ProjectsLoaded ==> batch_topics(actions).contains(StateTopic::Projects),
        actions[i] is SessionsLoaded ==> batch_topics(actions).contains(StateTopic::Sessions),
        (actions[i] is SelectProject || actions[i] is SelectSession)
            ==> batch_topics(actions).contains(StateTopic::Selection),
        (actions[i] is UpsertConversation || actions[i] is RekeyConversation
            || actions[i] is AppendAssistantText || actions[i] is FinishMessage
            || actions[i] is ClearConversation || actions[i] is SelectProject)
            ==> batch_topics(actions).contains(StateTopic::Conversation),
        (actions[i] is SessionRunning || actions[i] is SetSessionStatus
            || actions[i] is SessionMetricsUpdated)
            ==> batch_topics(actions).contains(StateTopic::SessionRuntime),
        (actions[i] is RuntimeControlsUpdated || actions[i] is RuntimeCommandsUpdated
            || actions[i] is SetPendingModel)
            ==> batch_topics(actions).contains(StateTopic::RuntimeControls),
        actions[i] is QueueUpdated ==> batch_topics(actions).contains(StateTopic::Queue),
        (actions[i] is SetLanguage || actions[i] is SetBashPolicy
            || actions[i] is SetBashBlockedPatterns || actions[i] is SetAgentTeamConfig
            || actions[i] is SetOneShotAiConfig)
            ==> batch_topics(actions).contains(StateTopic::Preferences),
        (actions[i] is ProviderProfilesLoaded || actions[i] is ProviderKeyStatusLoaded)
            ==> batch_topics(actions).contains(StateTopic::Providers),
        (actions[i] is SearchEngineProfilesLoaded || actions[i] is SearchEngineKeyStatusLoaded)
            ==> batch_topics(actions).contains(StateTopic::SearchEngines),
        (actions[i] is SetProjectHookStatus || actions[i] is SetHookAudit)
            ==> batch_topics(actions).contains(StateTopic::Hooks),
        actions[i] is AgentsMdFilesLoaded ==> batch_topics(actions).contains(StateTopic::AgentsMd),
{
    lemma_topics_of_actions(actions[i]);
    lemma_batch_topics(actions);
    assert forall|t: StateTopic| #[trigger] action_topics(actions[i]).contains(t) implies batch_topics(
        actions,
    ).contains(t) by {}
}

/// What is known about a commit besides its actions.
#[derive(Clone, Copy, Debug, PartialEq, Eq, Structural, Hash)]
pub struct CommitContext {
    pub scope: CommitScope,
    pub source: CommitSource,
    /// Whether the batch stands for several updates.
    pub coalesced: bool,
}

impl CommitContext {
    /// A context with everything given.
    pub fn new(scope: CommitScope, source: CommitSource, coalesced: bool) -> (r: CommitContext)
        ensures
            r == (CommitContext { scope, source, coalesced }),
    {
        CommitContext { scope, source, coalesced }
    }

    /// A commit to shared state.
    pub fn global(source: CommitSource) -> (r: CommitContext)
        ensures
            r == (CommitContext { scope: CommitScope::Global, source, coalesced: false }),
    {
        CommitContext::new(CommitScope::Global, source, false)
    }

    /// A coalesced commit to shared state.
    pub fn global_coalesced(source: CommitSource) -> (r: CommitContext)
        ensures
            r == (CommitContext { scope: CommitScope::Global, source, coalesced: true }),
    {
        CommitContext::new(CommitScope::Global, source, true)
    }

    /// A commit about one session.
    pub fn session(identity: SessionIdentity, source: CommitSource) -> (r: CommitContext)
        ensures
            r == (CommitContext {
                scope: CommitScope::Session(identity),
                source,
                coalesced: false,
            }),
    {
        CommitContext::new(CommitScope::Session(identity), source, false)
    }

    /// A coalesced commit about one session.
    pub fn session_coalesced(identity: SessionIdentity, source: CommitSource) -> (r: CommitContext)
        ensures
            r == (CommitContext {
                scope: CommitScope::Session(identity),
                source,
                coalesced: true,
            }),
    {
        CommitContext::new(CommitScope::Session(identity), source, true)
    }

    /// This context, coalesced or not.
    pub fn with_coalesced(self, coalesced: bool) -> (r: CommitContext)
        ensures
            r == (CommitContext { scope: self.scope, source: self.source, coalesced }),
    {
        CommitContext { scope: self.scope, source: self.source, coalesced }
    }
}

/// What a committed batch came to.
#[derive(Clone, Debug, PartialEq, Eq)]
pub struct ChangeSet {
    /// The revision of the batch; an empty batch leaves it as it was.
    pub revision: TransactionRevision,
    pub scope: CommitScope,
    pub source: CommitSource,
    /// The topics that it touched, in the order in which they first came up.
    pub changed_topics: Vec<StateTopic>,
    pub action_count: usize,
    pub coalesced: bool,
}

impl ChangeSet {
    /// Whether nothing was committed.
    pub fn is_noop(&self) -> (r: bool)
        ensures
            r == (self.action_count == 0),
    {
        self.action_count == 0
    }
}

} // verus!
