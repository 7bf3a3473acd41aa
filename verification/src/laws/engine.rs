//! What holds of commands, identifiers, sessions and the state of the engine.

use vstd::arithmetic::div_mod::lemma_div_denominator;
use vstd::arithmetic::power::{lemma_pow0, lemma_pow1, lemma_pow_adds, lemma_pow_positive, pow};
use vstd::prelude::*;

use crate::changes::{ChangeSet, StateTopic};
use crate::commands::{
    is_safety_word, Answer, AppCommand, CommandControlPolicy, CommandSource, CommandStage,
    ExtensionResponse, ShellCommand, ShellPaste,
};
use crate::composer::paths_unique;
use crate::domain::{
    name_key, plain_model, ActionView, AgentPermissionLevel, AttachmentView, BashPolicy, ProjectId,
    ProviderProtocol, SearchEngineKind, ThinkingLevel,
};
use crate::ids::{hex_at, hyphenated, simple};
use crate::json::{lemma_put_is_found, lookup, parsed, JsonView};
use crate::keyed::{kept_in, text_map};
use crate::launch::{lowered_settings, stored_settings};
use crate::laws::protocol::lemma_parts_are_joined;
use crate::mailbox::{token_after, token_behind};
use crate::notice::{pushed, NoticeView};
use crate::pool::{idle_turn, rekeyed, tokens_distinct, without_project, SessionRuntime};
use crate::replay::touches;
use crate::session::{
    left_after, line_after, line_count, line_start, paths_of, policy_name, with_paths,
};
use crate::slash_commands::SlashCommand;
use crate::state::{effect_of, ViewEffectView};
use crate::text::{ascii_lower, join, occurs, occurs_at, trim, trim_end};

verus! {

/// What a command does to the work of others decides whether hooks see it. Commands
/// that stop, refuse, discard or delete something, and those that decide on the hooks
/// themselves, are never held up by a hook; those that start work or change what an
/// agent may do can be held up and changed; the others are only told of.
pub proof fn lemma_which_commands_hooks_control(command: AppCommand)
    ensures
        command.policy() == CommandControlPolicy::Bypass <==> (command is RemoveProject
            || command is DeleteSession || command is AnswerPrompt || command is DiscardAttachment
            || command is Stop || command is ClearQueue || command is ApproveProjectHooks
            || command is RevokeProjectHooks || command is DeleteProvider || command
            == AppCommand::RunSlashCommand(SlashCommand::Stop)),
        command.policy() == CommandControlPolicy::ObserveOnly <==> (command is OpenProject
            || command is NewSession || command is ActivateSession || command is RenameSession
            || command is CloneSession || command is SetLanguage || command is LoadAgentsMdFiles
            || command is SetAutoCompaction || command is SetQueueModes
            || command is SaveSearchEngines),
        command.policy() == CommandControlPolicy::GateTransform <==> (command is SubmitPrompt
            || command is SetBashPolicy || command is SetBlockedPatterns
            || command is SetPermissionLevel || command is SetAgentTeamConfig
            || command is SaveGlobalAgentsMd || command is SaveProjectAgentsMd
            || command is SetOneShotAiConfig || command is SetModel || command is SetThinkingLevel
            || (command is RunSlashCommand && command != AppCommand::RunSlashCommand(
            SlashCommand::Stop,
        ))),
{
    if let AppCommand::RunSlashCommand(slash) = command {
        assert(slash is Stop <==> slash == SlashCommand::Stop);
    }
}

/// A command is a safety command where it stops, discards or deletes something, and
/// where it refuses what an agent asked for; approving something never is one.
pub proof fn lemma_which_commands_are_safe(command: AppCommand)
    ensures
        command is RemoveProject || command is DeleteSession || command is DiscardAttachment
            || command is Stop || command is ClearQueue || command is RevokeProjectHooks
            || command is DeleteProvider || command == AppCommand::RunSlashCommand(
            SlashCommand::Stop,
        ) ==> command.is_safe(),
        command matches AppCommand::AnswerPrompt(answer) ==> (command.is_safe() <==> match answer {
            Answer::Extension { response, .. } => response != ExtensionResponse::Confirmed(true),
            Answer::Interaction { decision, .. } => is_safety_word(decision@),
        }),
        command is ApproveProjectHooks || command is SubmitPrompt || command is SetBashPolicy
            || command is SetPermissionLevel || command is OpenProject || command is NewSession
            || command is ActivateSession || command is RenameSession || command is CloneSession
            || command is SetLanguage || command is SetBlockedPatterns
            || command is SetAgentTeamConfig || command is LoadAgentsMdFiles
            || command is SaveGlobalAgentsMd || command is SaveProjectAgentsMd
            || command is SetOneShotAiConfig || command is SetAutoCompaction || command is SetModel
            || command is SetThinkingLevel || command is SetQueueModes
            || command is SaveSearchEngines ==> !command.is_safe(),
        command matches AppCommand::RunSlashCommand(slash) ==> (command.is_safe() <==> slash
            == SlashCommand::Stop),
{
}

/// Whether a decision reads as a word, whatever the case of its letters and whatever
/// white space is around it.
pub open spec fn reads_as(decision: Seq<char>, word: Seq<char>) -> bool {
    &&& trim(decision).len() == word.len()
    &&& forall|i: int| 0 <= i < word.len() ==> ascii_lower(#[trigger] trim(decision)[i]) == word[i]
}

/// A decision refuses exactly where it reads as one of the words for that.
pub proof fn lemma_words_that_refuse(decision: Seq<char>)
    ensures
        is_safety_word(decision) <==> reads_as(decision, "deny"@) || reads_as(decision, "denied"@)
            || reads_as(decision, "reject"@) || reads_as(decision, "rejected"@) || reads_as(
            decision,
            "cancel"@,
        ) || reads_as(decision, "cancelled"@) || reads_as(decision, "stop"@) || reads_as(
            decision,
            "abort"@,
        ),
{
    lemma_reading(decision, "deny"@);
    lemma_reading(decision, "denied"@);
    lemma_reading(decision, "reject"@);
    lemma_reading(decision, "rejected"@);
    lemma_reading(decision, "cancel"@);
    lemma_reading(decision, "cancelled"@);
    lemma_reading(decision, "stop"@);
    lemma_reading(decision, "abort"@);
}

proof fn lemma_reading(decision: Seq<char>, word: Seq<char>)
    ensures
        reads_as(decision, word) <==> crate::text::ascii_lowercase(trim(decision)) == word,
{
    let low = crate::text::ascii_lowercase(trim(decision));
    if reads_as(decision, word) {
        assert(low =~= word);
    }
    if low == word {
        assert forall|i: int| 0 <= i < word.len() implies ascii_lower(#[trigger] trim(decision)[i])
            == word[i] by {
            assert(low[i] == word[i]);
        }
    }
}

/// Hooks and audits know each command by the name of what it is about and what it
/// does.
pub proof fn lemma_commands_are_called(command: AppCommand)
    ensures
        command is RemoveProject ==> command.kind().name() == "project.remove"@,
        command is OpenProject ==> command.kind().name() == "project.open"@,
        command is NewSession ==> command.kind().name() == "session.new"@,
        command is ActivateSession ==> command.kind().name() == "session.activate"@,
        command is RenameSession ==> command.kind().name() == "session.rename"@,
        command is CloneSession ==> command.kind().name() == "session.clone"@,
        command is DeleteSession ==> command.kind().name() == "session.delete"@,
        command is SubmitPrompt ==> command.kind().name() == "prompt.submit"@,
        command is AnswerPrompt ==> command.kind().name() == "prompt.answer"@,
        command is DiscardAttachment ==> command.kind().name() == "attachment.discard"@,
        command is Stop ==> command.kind().name() == "execution.stop"@,
        command is ClearQueue ==> command.kind().name() == "queue.clear"@,
        command is SetLanguage ==> command.kind().name() == "settings.language"@,
        command is SetBashPolicy ==> command.kind().name() == "settings.bash_policy"@,
        command is SetBlockedPatterns ==> command.kind().name() == "settings.blocked_patterns"@,
        command is SetPermissionLevel ==> command.kind().name() == "settings.permission_level"@,
        command is SetAgentTeamConfig ==> command.kind().name() == "settings.agent_team"@,
        command is LoadAgentsMdFiles ==> command.kind().name() == "settings.agents_md.load"@,
        command is SaveGlobalAgentsMd ==> command.kind().name() == "settings.agents_md.global.save"@,
        command is SaveProjectAgentsMd ==> command.kind().name() == "settings.agents_md.project.save"@,
        command is ApproveProjectHooks ==> command.kind().name() == "settings.hooks.approve"@,
        command is RevokeProjectHooks ==> command.kind().name() == "settings.hooks.revoke"@,
        command is SetOneShotAiConfig ==> command.kind().name() == "settings.one_shot_ai"@,
        command is SetAutoCompaction ==> command.kind().name() == "settings.auto_compaction"@,
        command is SetModel ==> command.kind().name() == "settings.model"@,
        command is SetThinkingLevel ==> command.kind().name() == "settings.thinking_level"@,
        command is SetQueueModes ==> command.kind().name() == "settings.queue_modes"@,
        command is RunSlashCommand ==> command.kind().name() == "slash.run"@,
        command is DeleteProvider ==> command.kind().name() == "provider.delete"@,
        command is SaveSearchEngines ==> command.kind().name() == "search.save_all"@,
{
}

/// The work of the host goes by names that no command of the application has, and what
/// is pasted by the kind that it is of.
pub proof fn lemma_host_work_is_called(command: ShellCommand, paste: ShellPaste)
    ensures
        occurs_at(command.name(), "shell."@, 0),
        command is AddProject ==> command.name() == "shell.project.add"@,
        command is RevealProject ==> command.name() == "shell.project.reveal"@,
        command is SmartRenameSession ==> command.name() == "shell.session.smart_rename"@,
        command is CopyToClipboard ==> command.name() == "shell.clipboard.copy"@,
        command is AttachPaste ==> command.name() == "shell.paste.attach"@,
        command is PickAttachments ==> command.name() == "shell.attachments.pick"@,
        command is SaveProvider ==> command.name() == "shell.provider.save"@,
        command is SaveSearchEngine ==> command.name() == "shell.search.save"@,
        command is TestSearchEngine ==> command.name() == "shell.search.test"@,
        command is DiscoverProviderModels ==> command.name() == "shell.provider.discover_models"@,
        paste is Files ==> paste.kind() == "files"@,
        paste is Image ==> paste.kind() == "image"@,
        paste is LongText ==> paste.kind() == "long_text"@,
{
    reveal_strlit("shell.");
    reveal_strlit("shell.project.add");
    reveal_strlit("shell.project.reveal");
    reveal_strlit("shell.session.smart_rename");
    reveal_strlit("shell.clipboard.copy");
    reveal_strlit("shell.paste.attach");
    reveal_strlit("shell.attachments.pick");
    reveal_strlit("shell.provider.save");
    reveal_strlit("shell.search.save");
    reveal_strlit("shell.search.test");
    reveal_strlit("shell.provider.discover_models");
    assert(command.name().subrange(0, 6) =~= "shell."@);
}

/// The stages of a command, and the places that it comes from, are told apart by their
/// names.
pub proof fn lemma_stages_are_called(stage: CommandStage, source: CommandSource)
    ensures
        stage is Submitted ==> stage.name() == "submitted"@,
        stage is Transforming ==> stage.name() == "transforming"@,
        stage is Accepted ==> stage.name() == "accepted"@,
        stage is Denied ==> stage.name() == "denied"@,
        stage is Executing ==> stage.name() == "executing"@,
        stage is Completed ==> stage.name() == "completed"@,
        stage is Failed ==> stage.name() == "failed"@,
        source == CommandSource::Ui ==> source.name() == "Ui"@,
        source == CommandSource::System ==> source.name() == "System"@,
        source == CommandSource::HookReplay ==> source.name() == "HookReplay"@,
{
}

/// What a level of permission allows grows with its rank.
pub proof fn lemma_permissions_are_ranked()
    ensures
        AgentPermissionLevel::ReadOnly.spec_rank() < AgentPermissionLevel::Controlled.spec_rank()
            < AgentPermissionLevel::Full.spec_rank(),
        AgentPermissionLevel::ReadOnly.spec_rank() == 0,
        AgentPermissionLevel::Full.spec_rank() == 2,
{
}

/// A level of thinking is read under its name on the wire and under no other.
pub proof fn lemma_levels_are_named(name: Seq<char>)
    ensures
        ThinkingLevel::named(name) == Some(ThinkingLevel::Off) <==> name == "off"@,
        ThinkingLevel::named(name) == Some(ThinkingLevel::Minimal) <==> name == "minimal"@,
        ThinkingLevel::named(name) == Some(ThinkingLevel::Low) <==> name == "low"@,
        ThinkingLevel::named(name) == Some(ThinkingLevel::Medium) <==> name == "medium"@,
        ThinkingLevel::named(name) == Some(ThinkingLevel::High) <==> name == "high"@,
        ThinkingLevel::named(name) == Some(ThinkingLevel::Xhigh) <==> name == "xhigh"@,
        ThinkingLevel::Off.name() == "off"@,
        ThinkingLevel::Minimal.name() == "minimal"@,
        ThinkingLevel::Low.name() == "low"@,
        ThinkingLevel::Medium.name() == "medium"@,
        ThinkingLevel::High.name() == "high"@,
        ThinkingLevel::Xhigh.name() == "xhigh"@,
{
    reveal_strlit("off");
    reveal_strlit("minimal");
    reveal_strlit("low");
    reveal_strlit("medium");
    reveal_strlit("high");
    reveal_strlit("xhigh");
    assert("off"@[0] == 'o' && "low"@[0] == 'l');
    assert("off"@.len() == 3 && "minimal"@.len() == 7 && "low"@.len() == 3 && "medium"@.len() == 6
        && "high"@.len() == 4 && "xhigh"@.len() == 5);
}

/// Where a protocol or an engine is reached unless told otherwise, and what Pi calls
/// the protocol.
pub proof fn lemma_services_are_known(protocol: ProviderProtocol, kind: SearchEngineKind)
    ensures
        protocol == ProviderProtocol::OpenAiCompletions || protocol
            == ProviderProtocol::OpenAiResponses ==> protocol.default_url()
            == "https://api.openai.com/v1"@,
        protocol == ProviderProtocol::AnthropicMessages ==> protocol.default_url()
            == "https://api.anthropic.com"@,
        protocol == ProviderProtocol::GoogleGenerativeAi ==> protocol.default_url()
            == "https://generativelanguage.googleapis.com/v1beta"@,
        kind == SearchEngineKind::Searxng ==> kind.spec_name() == "SearXNG"@ && kind.default_url()
            == ""@ && !kind.needs_key(),
        kind == SearchEngineKind::DoubaoGlobal ==> kind.spec_name() == "Doubao Global"@
            && kind.default_url() == "https://open.feedcoopapi.com/search_api/global_search"@
            && kind.needs_key(),
{
}

/// A model that nothing is known of goes by its id and can do nothing special.
pub proof fn lemma_plain_models(id: Seq<char>)
    ensures
        plain_model(id).id == id,
        plain_model(id).name == id,
        !plain_model(id).reasoning,
        !plain_model(id).supports_images,
        plain_model(id).thinking_level_map.len() == 0,
{
}

/// Names are compared without the white space around them.
pub proof fn lemma_names_are_compared(a: Seq<char>, b: Seq<char>)
    requires
        trim(a) == trim(b),
    ensures
        name_key(a) == name_key(b),
        name_key(a) == crate::text::lowercase(trim(a)),
{
}

/// A view is told of what was loaded where providers, search engines or projects were,
/// and of a conversation that was cleared, and of nothing else.
pub proof fn lemma_views_are_told(action: ActionView)
    ensures
        effect_of(action) is Some <==> action is ProviderProfilesLoaded
            || action is SearchEngineProfilesLoaded || action is ProjectsLoaded
            || action is ClearConversation,
        action matches ActionView::ProviderProfilesLoaded(v) ==> effect_of(action) == Some(
            ViewEffectView::ProvidersReloaded(v),
        ),
        action matches ActionView::SearchEngineProfilesLoaded(v) ==> effect_of(action) == Some(
            ViewEffectView::SearchEnginesReloaded(v),
        ),
        action matches ActionView::ProjectsLoaded(v) ==> effect_of(action) == Some(
            ViewEffectView::ProjectsLoaded(v),
        ),
        action is ClearConversation ==> effect_of(action) == Some(
            ViewEffectView::ConversationCleared,
        ),
{
}

/// An observer is touched by a change that did something to a topic that it observes,
/// and by no other.
pub proof fn lemma_observers_are_touched(topics: Seq<StateTopic>, change: ChangeSet)
    ensures
        change.action_count == 0 ==> !touches(topics, change),
        change.action_count > 0 && !(forall|topic: StateTopic|
            topics.contains(topic) ==> !(#[trigger] change.changed_topics@.contains(topic)))
            ==> touches(topics, change),
        (forall|topic: StateTopic|
            topics.contains(topic) ==> !(#[trigger] change.changed_topics@.contains(topic)))
            ==> !touches(topics, change),
{
    if touches(topics, change) {
        let i = choose|i: int|
            0 <= i < change.changed_topics@.len() && topics.contains(
                #[trigger] change.changed_topics@[i],
            );
        assert(change.changed_topics@.contains(change.changed_topics@[i]));
    }
    if change.action_count > 0 && exists|topic: StateTopic|
        topics.contains(topic) && #[trigger] change.changed_topics@.contains(topic) {
        let topic = choose|topic: StateTopic|
            topics.contains(topic) && #[trigger] change.changed_topics@.contains(topic);
        let i = choose|i: int|
            0 <= i < change.changed_topics@.len() && change.changed_topics@[i] == topic;
        assert(topics.contains(change.changed_topics@[i]));
    }
}

/// Bash policies go by their names.
pub proof fn lemma_policies_are_named(policy: BashPolicy)
    ensures
        policy == BashPolicy::Allow ==> policy_name(policy) == "allow"@,
        policy == BashPolicy::Ask ==> policy_name(policy) == "ask"@,
        policy == BashPolicy::Deny ==> policy_name(policy) == "deny"@,
{
}

/// Lines are counted by how they begin: an empty text has none, and a character adds
/// one exactly where it is the first or follows a line break.
pub proof fn lemma_lines_are_counted(s: Seq<char>, c: char)
    ensures
        line_count(Seq::empty()) == 0,
        s.len() == 0 ==> line_count(s.push(c)) == 1,
        s.len() > 0 && s.last() == '\n' ==> line_count(s.push(c)) == line_count(s) + 1,
        s.len() > 0 && s.last() != '\n' ==> line_count(s.push(c)) == line_count(s),
{
    reveal_with_fuel(crate::session::breaks, 2);
    assert(s.push(c).drop_last() =~= s);
}

/// A prompt is sent as it was written, with the paths of what is attached on lines of
/// their own behind it.
pub proof fn lemma_prompts_carry_their_paths(content: Seq<char>, paths: Seq<Seq<char>>, k: int)
    ensures
        paths.len() == 0 ==> with_paths(content, paths) == content,
        occurs_at(with_paths(content, paths), content, 0),
        0 <= k < paths.len() ==> occurs(with_paths(content, paths), paths[k]),
        content.len() > 0 && paths.len() > 0 ==> with_paths(content, paths)[content.len() as int]
            == '\n',
        paths.len() == 1 && content.len() == 0 ==> with_paths(content, paths) == paths[0],
        paths.len() == 1 && content.len() > 0 ==> with_paths(content, paths) == content + "\n"@
            + paths[0],
{
    reveal_strlit("\n");
    let all = with_paths(content, paths);
    assert(all.subrange(0, content.len() as int) =~= content);
    if 0 <= k < paths.len() {
        lemma_parts_are_joined(paths, "\n"@, k);
        let listed = join(paths, "\n"@);
        let at = choose|at: int| #[trigger] occurs_at(listed, paths[k], at);
        let p = all.len() - listed.len() + at;
        assert(all.subrange(p, p + paths[k].len()) =~= listed.subrange(at, at + paths[k].len()));
        assert(occurs_at(all, paths[k], p));
    }
}

/// A turn that has not begun holds nothing.
pub proof fn lemma_idle_turns()
    ensures
        !idle_turn().running,
        idle_turn().assistant_message_id is None,
        !idle_turn().conversation_compacted,
        idle_turn().compaction_item_id is None,
        idle_turn().reply_error is None,
        idle_turn().pending_prompt is None,
{
}

/// A session that moves to another key stays what it is, but for the time of its last
/// use; nothing is left under the old key, and the others stay where they are.
pub proof fn lemma_sessions_move_whole<R>(
    sessions: Map<Seq<char>, SessionRuntime<R>>,
    from: Seq<char>,
    to: Seq<char>,
    now_ms: i64,
    other: Seq<char>,
)
    requires
        sessions.contains_key(from),
    ensures
        ({
            let after = rekeyed(sessions, from, to, now_ms);
            &&& after.contains_key(to)
            &&& after[to].runtime == sessions[from].runtime
            &&& after[to].token == sessions[from].token
            &&& after[to].project_id == sessions[from].project_id
            &&& after[to].turn == sessions[from].turn
            &&& after[to].last_used_ms == now_ms
            &&& from != to ==> !after.contains_key(from)
            &&& other != from && other != to ==> after.contains_key(other)
                == sessions.contains_key(other) && after[other] == sessions[other]
        }),
{
}

/// Removing a project removes its sessions and no others.
pub proof fn lemma_projects_take_their_sessions<R>(
    sessions: Map<Seq<char>, SessionRuntime<R>>,
    project_id: ProjectId,
    key: Seq<char>,
)
    ensures
        without_project(sessions, project_id).contains_key(key) <==> sessions.contains_key(key)
            && sessions[key].project_id != project_id,
        without_project(sessions, project_id).contains_key(key) ==> without_project(
            sessions,
            project_id,
        )[key] == sessions[key],
{
}

/// A notice goes behind those that wait, unless it only repeats the last of them. Where
/// there are too many, the oldest makes room and the others keep their order.
pub proof fn lemma_notices_wait_in_order(pending: Seq<NoticeView>, notice: NoticeView)
    requires
        pending.len() <= 32,
    ensures
        pushed(pending, notice).len() <= 32,
        pushed(pending, notice).last() == notice,
        pending.len() > 0 && pending.last() == notice ==> pushed(pending, notice) == pending,
        (pending.len() == 0 || pending.last() != notice) && pending.len() < 32 ==> pushed(
            pending,
            notice,
        ) == pending.push(notice),
        (pending.len() == 0 || pending.last() != notice) && pending.len() == 32 ==> pushed(
            pending,
            notice,
        ).len() == 32 && forall|i: int|
            0 <= i < 31 ==> #[trigger] pushed(pending, notice)[i] == pending[i + 1],
{
}

/// Pi keeps a hundred recent tokens, whatever its settings said, unless they hold
/// something that is no settings of compaction. Settings that cannot be read count as
/// none.
pub proof fn lemma_recent_tokens_are_kept(stored: Option<Seq<char>>, key: Seq<char>)
    ensures
        ({
            let before = stored_settings(stored);
            let after = lowered_settings(before);
            &&& before is Object && (before.field("compaction"@) is None || before.field(
                "compaction"@,
            )->0 is Object) ==> (after.field("compaction"@) matches Some(compaction)
                && compaction.field("keepRecentTokens"@) == Some(JsonView::Number("100"@)))
            &&& before is Object && before.field("compaction"@) is Some && !(before.field(
                "compaction"@,
            )->0 is Object) ==> after.field("compaction"@) == before.field("compaction"@)
            &&& before is Object && key != "compaction"@ ==> after.field(key) == before.field(key)
            &&& before.field("compaction"@) is Some && before.field("compaction"@)->0 is Object && key
                != "keepRecentTokens"@ ==> (after.field("compaction"@)->0).field(key) == (
            before.field("compaction"@)->0).field(key)
            &&& !(before is Object) ==> after == before
            &&& stored is None ==> before == JsonView::Object(Seq::empty())
            &&& stored is Some && parsed(stored->0) is None ==> before == JsonView::Object(
                Seq::empty(),
            )
            &&& stored is Some && parsed(stored->0) is Some ==> Some(before) == parsed(
                stored->0,
            )
        }),
{
    let before = stored_settings(stored);
    if before is Object {
        let members = before->Object_0;
        let found = lookup(members, "compaction"@);
        let compaction = crate::launch::lowered_compaction(found);
        lemma_put_is_found(members, "compaction"@, compaction, key);
        lemma_put_is_found(members, "compaction"@, compaction, "compaction"@);
        let inner = match found {
            Some(JsonView::Object(inner)) => inner,
            _ => Seq::empty(),
        };
        let number = JsonView::Number("100"@);
        lemma_put_is_found(inner, "keepRecentTokens"@, number, "keepRecentTokens"@);
        lemma_put_is_found(inner, "keepRecentTokens"@, number, key);
    }
}

/// An identifier is written in hexadecimal: its last digit is what is left of it by
/// sixteen, and the digits before are those of a sixteenth of it.
pub proof fn lemma_identifiers_are_hexadecimal(id: u128, i: int)
    ensures
        simple(id).len() == 32,
        simple(id)[31] == (if id % 16 < 10 {
            (48 + id % 16) as char
        } else {
            (87 + id % 16) as char
        }),
        0 <= i < 31 ==> simple(id)[i] == simple((id / 16) as u128)[i + 1],
{
    lemma_pow0(16);
    assert(hex_at(id, 31) == id as int % 16) by {
        assert(id as int / 1 == id as int);
    }
    if 0 <= i < 31 {
        let k = (30 - i) as nat;
        lemma_pow1(16);
        lemma_pow_adds(16, 1, k);
        lemma_pow_positive(16, k);
        assert(pow(16, (31 - i) as nat) == 16 * pow(16, k));
        lemma_div_denominator(id as int, 16, pow(16, k));
        assert(hex_at(id, i) == hex_at((id / 16) as u128, i + 1));
    }
}

/// Written in groups, an identifier is the same digits with a hyphen behind the eighth,
/// the twelfth, the sixteenth and the twentieth.
pub proof fn lemma_identifiers_are_grouped(id: u128, i: int)
    ensures
        hyphenated(id).len() == 36,
        hyphenated(id)[8] == '-' && hyphenated(id)[13] == '-' && hyphenated(id)[18] == '-'
            && hyphenated(id)[23] == '-',
        0 <= i < 8 ==> hyphenated(id)[i] == simple(id)[i],
        8 <= i < 12 ==> hyphenated(id)[i + 1] == simple(id)[i],
        12 <= i < 16 ==> hyphenated(id)[i + 2] == simple(id)[i],
        16 <= i < 20 ==> hyphenated(id)[i + 3] == simple(id)[i],
        20 <= i < 32 ==> hyphenated(id)[i + 4] == simple(id)[i],
{
}

/// Where the last line of a text starts there is a line break before it, or nothing, and
/// none behind it.
pub proof fn lemma_last_lines(s: Seq<char>)
    ensures
        line_start(s) <= s.len(),
        line_start(s) > 0 ==> s[line_start(s) - 1] == '\n',
        forall|i: int| line_start(s) <= i < s.len() ==> #[trigger] s[i] != '\n',
    decreases s.len(),
{
    if s.len() > 0 && s.last() != '\n' {
        let front = s.drop_last();
        lemma_last_lines(front);
        assert forall|i: int| line_start(s) <= i < s.len() implies #[trigger] s[i] != '\n' by {
            if i < front.len() {
                assert(front[i] == s[i]);
            }
        }
    }
}

/// Lines are taken off the end one at a time, with the white space behind each.
pub proof fn lemma_lines_are_taken_off(text: Seq<char>, n: nat)
    ensures
        left_after(text, 0) == text,
        ({
            let head = trim_end(left_after(text, n));
            left_after(text, n + 1) + line_after(text, n) == head
        }),
        forall|i: int|
            0 <= i < line_after(text, n).len() ==> #[trigger] line_after(text, n)[i] != '\n',
{
    let head = trim_end(left_after(text, n));
    lemma_last_lines(head);
    let line = line_after(text, n);
    assert(left_after(text, n + 1) + line =~= head);
    assert forall|i: int| 0 <= i < line.len() implies #[trigger] line[i] != '\n' by {
        assert(line[i] == head[line_start(head) + i]);
    }
}

/// The paths of attachments are theirs, in their order.
pub proof fn lemma_paths_of_attachments(attachments: Seq<AttachmentView>, i: int)
    ensures
        paths_of(attachments).len() == attachments.len(),
        0 <= i < attachments.len() ==> paths_of(attachments)[i] == attachments[i].path,
{
}

/// Sessions are told apart by their tokens, and what is attached by its path.
pub proof fn lemma_what_is_told_apart<R>(
    sessions: Map<Seq<char>, SessionRuntime<R>>,
    a: Seq<char>,
    b: Seq<char>,
    attachments: Seq<AttachmentView>,
    i: int,
    j: int,
)
    ensures
        tokens_distinct(sessions) && sessions.contains_key(a) && sessions.contains_key(b)
            && sessions[a].token == sessions[b].token ==> a == b,
        paths_unique(attachments) && 0 <= i < attachments.len() && 0 <= j < attachments.len()
            && attachments[i].path == attachments[j].path ==> i == j,
{
    if paths_unique(attachments) && 0 <= i < attachments.len() && 0 <= j < attachments.len() {
        if i < j {
            assert(attachments[i].path != attachments[j].path);
        }
        if j < i {
            assert(attachments[j].path != attachments[i].path);
        }
    }
}

/// Tokens are counted up, and start over behind the last one.
pub proof fn lemma_tokens_are_counted(n: u64, k: nat)
    ensures
        n < u64::MAX ==> token_after(n) == n + 1,
        token_after(u64::MAX) == 0,
        token_behind(n, 0) == n,
        token_behind(n, k + 1) == token_after(token_behind(n, k)),
{
}

/// Of values under one key the last one counts; what is kept is what was there under the
/// keys that are kept.
pub proof fn lemma_values_under_keys(
    entries: Seq<(String, String)>,
    entry: (String, String),
    key: Seq<char>,
    m: Map<Seq<char>, Seq<char>>,
    keys: Seq<Seq<char>>,
)
    ensures
        text_map(entries.push(entry)).contains_key(entry.0@),
        text_map(entries.push(entry))[entry.0@] == entry.1@,
        key != entry.0@ ==> text_map(entries.push(entry)).contains_key(key) == text_map(
            entries,
        ).contains_key(key) && text_map(entries.push(entry))[key] == text_map(entries)[key],
        kept_in(m, keys).contains_key(key) <==> m.contains_key(key) && keys.contains(key),
        kept_in(m, keys).contains_key(key) ==> kept_in(m, keys)[key] == m[key],
{
    assert(entries.push(entry).drop_last() =~= entries);
}

} // verus!
