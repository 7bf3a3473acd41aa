//! Commands on their way from a shell into application logic.
//!
//! [`AppCommand`] is the only family that external hooks may see.
//! [`ShellCommand`] names host work that needs a window, the clipboard, a
//! credential or a provider; it never goes through hooks.

use vstd::prelude::*;

use crate::dialogs;
use crate::domain::{
    AgentPermissionLevel, AgentTeamConfig, Attachment, BashPolicy, Language, ModelOption, ProjectId,
    ProviderId, ProviderProfile, ProviderProtocol, QueueMode, SearchEngineProfile, SubmitMode,
    ThinkingLevel,
};
use crate::ids::{fresh_id, hyphenated, hyphenated_text};
use crate::json::Json;
use crate::slash_commands::SlashCommand;
use crate::text::{
    ascii_lowercase, ascii_lowered, byte_len, cat2, cat3, cat8, char_width, chars_of,
    lemma_byte_len_push, opt_as_str, opt_str, same, string_of, trim, trimmed,
};
use crate::views::{copy_opt, opt_view};

verus! {

/// What an extension is told.
#[derive(Clone, Copy, Debug, PartialEq, Eq, Structural)]
pub enum ExtensionResponse {
    Confirmed(bool),
    Cancelled,
}

/// A decision on its way back to the agent that asked for it.
#[derive(Clone, Debug, PartialEq, Eq)]
pub enum Answer {
    Extension { session_key: String, request_id: String, response: ExtensionResponse },
    Interaction { session_key: String, request_id: String, decision: String },
}

/// Whether a decision is one of the words that refuse or end something.
pub open spec fn is_safety_word(value: Seq<char>) -> bool {
    let word = ascii_lowercase(trim(value));
    word == "deny"@ || word == "denied"@ || word == "reject"@ || word == "rejected"@ || word
        == "cancel"@ || word == "cancelled"@ || word == "stop"@ || word == "abort"@
}

/// Whether a decision is one of the words that refuse or end something.
pub fn matches_safety_word(value: &str) -> (r: bool)
    ensures
        r == is_safety_word(value@),
{
    let word = ascii_lowered(trimmed(value).as_str());
    let word = word.as_str();
    same(word, "deny") || same(word, "denied") || same(word, "reject") || same(word, "rejected")
        || same(word, "cancel") || same(word, "cancelled") || same(word, "stop") || same(
        word,
        "abort",
    )
}

impl Answer {
    /// Whether the answer refuses what was asked for.
    pub open spec fn refuses(self) -> bool {
        match self {
            Answer::Extension { response, .. } => response == ExtensionResponse::Confirmed(false)
                || response == ExtensionResponse::Cancelled,
            Answer::Interaction { decision, .. } => is_safety_word(decision@),
        }
    }

    /// The answer that a dialog was closed with.
    pub fn from_dialog(answer: dialogs::Answer) -> (r: Answer)
        ensures
            match answer {
                dialogs::Answer::Extension { session_key, request_id, confirmed } => r
                    == (Answer::Extension {
                    session_key,
                    request_id,
                    response: ExtensionResponse::Confirmed(confirmed),
                }),
                dialogs::Answer::Interaction { session_key, request_id, decision } => r
                    == (Answer::Interaction { session_key, request_id, decision }),
            },
    {
        match answer {
            dialogs::Answer::Extension { session_key, request_id, confirmed } => Answer::Extension {
                session_key,
                request_id,
                response: ExtensionResponse::Confirmed(confirmed),
            },
            dialogs::Answer::Interaction { session_key, request_id, decision } => {
                Answer::Interaction { session_key, request_id, decision }
            },
        }
    }
}

/// Whether an answer refuses what was asked for.
pub fn answer_is_safety_decision(answer: &Answer) -> (r: bool)
    ensures
        r == answer.refuses(),
{
    match answer {
        Answer::Extension { response, .. } => match *response {
            ExtensionResponse::Confirmed(confirmed) => !confirmed,
            ExtensionResponse::Cancelled => true,
        },
        Answer::Interaction { decision, .. } => matches_safety_word(decision.as_str()),
    }
}

/// Work for the application itself.
#[derive(Clone, Debug, PartialEq)]
pub enum AppCommand {
    RemoveProject(ProjectId),
    OpenProject(ProjectId),
    NewSession(ProjectId),
    ActivateSession { project_id: ProjectId, path: String },
    RenameSession { path: String, title: String },
    CloneSession,
    DeleteSession(String),
    SubmitPrompt { content: String, attachments: Vec<Attachment>, mode: SubmitMode },
    AnswerPrompt(Answer),
    DiscardAttachment(String),
    Stop,
    ClearQueue,
    SetLanguage(Language),
    SetBashPolicy(BashPolicy),
    SetBlockedPatterns(Vec<String>),
    SetPermissionLevel(AgentPermissionLevel),
    SetAgentTeamConfig(AgentTeamConfig),
    LoadAgentsMdFiles,
    SaveGlobalAgentsMd(String),
    SaveProjectAgentsMd(String),
    ApproveProjectHooks { fingerprint: String },
    RevokeProjectHooks,
    SetOneShotAiConfig(Json),
    SetAutoCompaction(bool),
    SetModel(ModelOption),
    SetThinkingLevel(ThinkingLevel),
    SetQueueModes { steering: QueueMode, follow_up: QueueMode },
    RunSlashCommand(SlashCommand),
    DeleteProvider(ProviderId),
    SaveSearchEngines(Vec<SearchEngineProfile>),
}

/// Which command it is, without what it carries.
#[derive(Clone, Copy, Debug, PartialEq, Eq, Structural)]
pub enum CommandKind {
    RemoveProject,
    OpenProject,
    NewSession,
    ActivateSession,
    RenameSession,
    CloneSession,
    DeleteSession,
    SubmitPrompt,
    AnswerPrompt,
    DiscardAttachment,
    Stop,
    ClearQueue,
    SetLanguage,
    SetBashPolicy,
    SetBlockedPatterns,
    SetPermissionLevel,
    SetAgentTeamConfig,
    LoadAgentsMdFiles,
    SaveGlobalAgentsMd,
    SaveProjectAgentsMd,
    ApproveProjectHooks,
    RevokeProjectHooks,
    SetOneShotAiConfig,
    SetAutoCompaction,
    SetModel,
    SetThinkingLevel,
    SetQueueModes,
    RunSlashCommand,
    DeleteProvider,
    SaveSearchEngines,
}

impl CommandKind {
    /// What a command of this kind is called in audits and by hooks.
    pub open spec fn name(self) -> Seq<char> {
        match self {
            CommandKind::RemoveProject => "project.remove"@,
            CommandKind::OpenProject => "project.open"@,
            CommandKind::NewSession => "session.new"@,
            CommandKind::ActivateSession => "session.activate"@,
            CommandKind::RenameSession => "session.rename"@,
            CommandKind::CloneSession => "session.clone"@,
            CommandKind::DeleteSession => "session.delete"@,
            CommandKind::SubmitPrompt => "prompt.submit"@,
            CommandKind::AnswerPrompt => "prompt.answer"@,
            CommandKind::DiscardAttachment => "attachment.discard"@,
            CommandKind::Stop => "execution.stop"@,
            CommandKind::ClearQueue => "queue.clear"@,
            CommandKind::SetLanguage => "settings.language"@,
            CommandKind::SetBashPolicy => "settings.bash_policy"@,
            CommandKind::SetBlockedPatterns => "settings.blocked_patterns"@,
            CommandKind::SetPermissionLevel => "settings.permission_level"@,
            CommandKind::SetAgentTeamConfig => "settings.agent_team"@,
            CommandKind::LoadAgentsMdFiles => "settings.agents_md.load"@,
            CommandKind::SaveGlobalAgentsMd => "settings.agents_md.global.save"@,
            CommandKind::SaveProjectAgentsMd => "settings.agents_md.project.save"@,
            CommandKind::ApproveProjectHooks => "settings.hooks.approve"@,
            CommandKind::RevokeProjectHooks => "settings.hooks.revoke"@,
            CommandKind::SetOneShotAiConfig => "settings.one_shot_ai"@,
            CommandKind::SetAutoCompaction => "settings.auto_compaction"@,
            CommandKind::SetModel => "settings.model"@,
            CommandKind::SetThinkingLevel => "settings.thinking_level"@,
            CommandKind::SetQueueModes => "settings.queue_modes"@,
            CommandKind::RunSlashCommand => "slash.run"@,
            CommandKind::DeleteProvider => "provider.delete"@,
            CommandKind::SaveSearchEngines => "search.save_all"@,
        }
    }
}

/// What part hooks may take in a command.
#[derive(Clone, Copy, Debug, PartialEq, Eq, Structural)]
pub enum CommandControlPolicy {
    /// None. The application's own validation still applies.
    Bypass,
    /// They may see the outcome, not block or rewrite the command.
    ObserveOnly,
    /// They may rewrite what they are allowed to and then let the command pass or
    /// not.
    GateTransform,
}

impl AppCommand {
    /// Which command it is.
    pub open spec fn kind(self) -> CommandKind {
        match self {
            AppCommand::RemoveProject(_) => CommandKind::RemoveProject,
            AppCommand::OpenProject(_) => CommandKind::OpenProject,
            AppCommand::NewSession(_) => CommandKind::NewSession,
            AppCommand::ActivateSession { .. } => CommandKind::ActivateSession,
            AppCommand::RenameSession { .. } => CommandKind::RenameSession,
            AppCommand::CloneSession => CommandKind::CloneSession,
            AppCommand::DeleteSession(_) => CommandKind::DeleteSession,
            AppCommand::SubmitPrompt { .. } => CommandKind::SubmitPrompt,
            AppCommand::AnswerPrompt(_) => CommandKind::AnswerPrompt,
            AppCommand::DiscardAttachment(_) => CommandKind::DiscardAttachment,
            AppCommand::Stop => CommandKind::Stop,
            AppCommand::ClearQueue => CommandKind::ClearQueue,
            AppCommand::SetLanguage(_) => CommandKind::SetLanguage,
            AppCommand::SetBashPolicy(_) => CommandKind::SetBashPolicy,
            AppCommand::SetBlockedPatterns(_) => CommandKind::SetBlockedPatterns,
            AppCommand::SetPermissionLevel(_) => CommandKind::SetPermissionLevel,
            AppCommand::SetAgentTeamConfig(_) => CommandKind::SetAgentTeamConfig,
            AppCommand::LoadAgentsMdFiles => CommandKind::LoadAgentsMdFiles,
            AppCommand::SaveGlobalAgentsMd(_) => CommandKind::SaveGlobalAgentsMd,
            AppCommand::SaveProjectAgentsMd(_) => CommandKind::SaveProjectAgentsMd,
            AppCommand::ApproveProjectHooks { .. } => CommandKind::ApproveProjectHooks,
            AppCommand::RevokeProjectHooks => CommandKind::RevokeProjectHooks,
            AppCommand::SetOneShotAiConfig(_) => CommandKind::SetOneShotAiConfig,
            AppCommand::SetAutoCompaction(_) => CommandKind::SetAutoCompaction,
            AppCommand::SetModel(_) => CommandKind::SetModel,
            AppCommand::SetThinkingLevel(_) => CommandKind::SetThinkingLevel,
            AppCommand::SetQueueModes { .. } => CommandKind::SetQueueModes,
            AppCommand::RunSlashCommand(_) => CommandKind::RunSlashCommand,
            AppCommand::DeleteProvider(_) => CommandKind::DeleteProvider,
            AppCommand::SaveSearchEngines(_) => CommandKind::SaveSearchEngines,
        }
    }

    /// What the command is called in audits and by hooks.
    pub fn command_name(&self) -> (r: &'static str)
        ensures
            r@ == self.kind().name(),
    {
        match self {
            AppCommand::RemoveProject(_) => "project.remove",
            AppCommand::OpenProject(_) => "project.open",
            AppCommand::NewSession(_) => "session.new",
            AppCommand::ActivateSession { .. } => "session.activate",
            AppCommand::RenameSession { .. } => "session.rename",
            AppCommand::CloneSession => "session.clone",
            AppCommand::DeleteSession(_) => "session.delete",
            AppCommand::SubmitPrompt { .. } => "prompt.submit",
            AppCommand::AnswerPrompt(_) => "prompt.answer",
            AppCommand::DiscardAttachment(_) => "attachment.discard",
            AppCommand::Stop => "execution.stop",
            AppCommand::ClearQueue => "queue.clear",
            AppCommand::SetLanguage(_) => "settings.language",
            AppCommand::SetBashPolicy(_) => "settings.bash_policy",
            AppCommand::SetBlockedPatterns(_) => "settings.blocked_patterns",
            AppCommand::SetPermissionLevel(_) => "settings.permission_level",
            AppCommand::SetAgentTeamConfig(_) => "settings.agent_team",
            AppCommand::LoadAgentsMdFiles => "settings.agents_md.load",
            AppCommand::SaveGlobalAgentsMd(_) => "settings.agents_md.global.save",
            AppCommand::SaveProjectAgentsMd(_) => "settings.agents_md.project.save",
            AppCommand::ApproveProjectHooks { .. } => "settings.hooks.approve",
            AppCommand::RevokeProjectHooks => "settings.hooks.revoke",
            AppCommand::SetOneShotAiConfig(_) => "settings.one_shot_ai",
            AppCommand::SetAutoCompaction(_) => "settings.auto_compaction",
            AppCommand::SetModel(_) => "settings.model",
            AppCommand::SetThinkingLevel(_) => "settings.thinking_level",
            AppCommand::SetQueueModes { .. } => "settings.queue_modes",
            AppCommand::RunSlashCommand(_) => "slash.run",
            AppCommand::DeleteProvider(_) => "provider.delete",
            AppCommand::SaveSearchEngines(_) => "search.save_all",
        }
    }

    /// Whether no hook is ever asked about the command.
    pub open spec fn always_bypassed(self) -> bool {
        match self {
            AppCommand::RemoveProject(_)
            | AppCommand::DeleteSession(_)
            | AppCommand::AnswerPrompt(_)
            | AppCommand::DiscardAttachment(_)
            | AppCommand::Stop
            | AppCommand::ClearQueue
            | AppCommand::ApproveProjectHooks { .. }
            | AppCommand::RevokeProjectHooks
            | AppCommand::DeleteProvider(_) => true,
            AppCommand::RunSlashCommand(command) => command is Stop,
            _ => false,
        }
    }

    /// The strongest part that hooks may take in the command.
    pub open spec fn policy(self) -> CommandControlPolicy {
        match self {
            AppCommand::RunSlashCommand(SlashCommand::Stop) => CommandControlPolicy::Bypass,
            AppCommand::SubmitPrompt { .. }
            | AppCommand::SetBashPolicy(_)
            | AppCommand::SetBlockedPatterns(_)
            | AppCommand::SetPermissionLevel(_)
            | AppCommand::SetAgentTeamConfig(_)
            | AppCommand::SaveGlobalAgentsMd(_)
            | AppCommand::SaveProjectAgentsMd(_)
            | AppCommand::SetOneShotAiConfig(_)
            | AppCommand::SetModel(_)
            | AppCommand::SetThinkingLevel(_)
            | AppCommand::RunSlashCommand(_) => CommandControlPolicy::GateTransform,
            AppCommand::OpenProject(_)
            | AppCommand::NewSession(_)
            | AppCommand::ActivateSession { .. }
            | AppCommand::RenameSession { .. }
            | AppCommand::CloneSession
            | AppCommand::SetLanguage(_)
            | AppCommand::LoadAgentsMdFiles
            | AppCommand::SetAutoCompaction(_)
            | AppCommand::SetQueueModes { .. }
            | AppCommand::SaveSearchEngines(_) => CommandControlPolicy::ObserveOnly,
            AppCommand::RemoveProject(_)
            | AppCommand::DeleteSession(_)
            | AppCommand::AnswerPrompt(_)
            | AppCommand::DiscardAttachment(_)
            | AppCommand::Stop
            | AppCommand::ClearQueue
            | AppCommand::ApproveProjectHooks { .. }
            | AppCommand::RevokeProjectHooks
            | AppCommand::DeleteProvider(_) => CommandControlPolicy::Bypass,
        }
    }

    /// Whether the command takes authority away, ends work, refuses something or
    /// removes what was kept.
    pub open spec fn is_safe(self) -> bool {
        match self {
            AppCommand::RemoveProject(_) | AppCommand::DeleteSession(_)
            | AppCommand::DiscardAttachment(_) | AppCommand::Stop | AppCommand::ClearQueue
            | AppCommand::RevokeProjectHooks | AppCommand::DeleteProvider(_) => true,
            AppCommand::AnswerPrompt(answer) => answer.refuses(),
            AppCommand::RunSlashCommand(command) => command is Stop,
            _ => false,
        }
    }

    fn is_unconditionally_bypassed(&self) -> (r: bool)
        ensures
            r == self.always_bypassed(),
    {
        match self {
            AppCommand::RemoveProject(_)
            | AppCommand::DeleteSession(_)
            | AppCommand::AnswerPrompt(_)
            | AppCommand::DiscardAttachment(_)
            | AppCommand::Stop
            | AppCommand::ClearQueue
            | AppCommand::ApproveProjectHooks { .. }
            | AppCommand::RevokeProjectHooks
            | AppCommand::DeleteProvider(_) => true,
            AppCommand::RunSlashCommand(command) => matches!(command, SlashCommand::Stop),
            _ => false,
        }
    }

    /// The strongest part that hooks may take in the command.
    pub fn control_policy(&self) -> (r: CommandControlPolicy)
        ensures
            r == self.policy(),
    {
        if self.is_unconditionally_bypassed() {
            return CommandControlPolicy::Bypass;
        }
        match self {
            AppCommand::SubmitPrompt { .. }
            | AppCommand::SetBashPolicy(_)
            | AppCommand::SetBlockedPatterns(_)
            | AppCommand::SetPermissionLevel(_)
            | AppCommand::SetAgentTeamConfig(_)
            | AppCommand::SaveGlobalAgentsMd(_)
            | AppCommand::SaveProjectAgentsMd(_)
            | AppCommand::SetOneShotAiConfig(_)
            | AppCommand::SetModel(_)
            | AppCommand::SetThinkingLevel(_)
            | AppCommand::RunSlashCommand(_) => CommandControlPolicy::GateTransform,
            AppCommand::OpenProject(_)
            | AppCommand::NewSession(_)
            | AppCommand::ActivateSession { .. }
            | AppCommand::RenameSession { .. }
            | AppCommand::CloneSession
            | AppCommand::SetLanguage(_)
            | AppCommand::LoadAgentsMdFiles
            | AppCommand::SetAutoCompaction(_)
            | AppCommand::SetQueueModes { .. }
            | AppCommand::SaveSearchEngines(_) => CommandControlPolicy::ObserveOnly,
            AppCommand::RemoveProject(_)
            | AppCommand::DeleteSession(_)
            | AppCommand::AnswerPrompt(_)
            | AppCommand::DiscardAttachment(_)
            | AppCommand::Stop
            | AppCommand::ClearQueue
            | AppCommand::ApproveProjectHooks { .. }
            | AppCommand::RevokeProjectHooks
            | AppCommand::DeleteProvider(_) => CommandControlPolicy::Bypass,
        }
    }

    /// Whether the command takes authority away, ends work, refuses something or
    /// removes what was kept, so that nothing may block it.
    pub fn is_safety_command(&self) -> (r: bool)
        ensures
            r == self.is_safe(),
    {
        match self {
            AppCommand::RemoveProject(_) | AppCommand::DeleteSession(_)
            | AppCommand::DiscardAttachment(_) | AppCommand::Stop | AppCommand::ClearQueue
            | AppCommand::RevokeProjectHooks | AppCommand::DeleteProvider(_) => true,
            AppCommand::AnswerPrompt(answer) => answer_is_safety_decision(answer),
            AppCommand::RunSlashCommand(command) => matches!(command, SlashCommand::Stop),
            _ => false,
        }
    }
}

/// A safety command is never put to a hook.
pub proof fn lemma_safety_commands_bypass_hooks(command: AppCommand)
    requires
        command.is_safe(),
    ensures
        command.policy() == CommandControlPolicy::Bypass,
{
}

/// Two commands share a name only where they are of one kind.
pub proof fn lemma_command_names_differ(a: CommandKind, b: CommandKind)
    requires
        a.name() == b.name(),
    ensures
        a == b,
{
    reveal_strlit("project.remove");
    reveal_strlit("project.open");
    reveal_strlit("session.new");
    reveal_strlit("session.activate");
    reveal_strlit("session.rename");
    reveal_strlit("session.clone");
    reveal_strlit("session.delete");
    reveal_strlit("prompt.submit");
    reveal_strlit("prompt.answer");
    reveal_strlit("attachment.discard");
    reveal_strlit("execution.stop");
    reveal_strlit("queue.clear");
    reveal_strlit("settings.language");
    reveal_strlit("settings.bash_policy");
    reveal_strlit("settings.blocked_patterns");
    reveal_strlit("settings.permission_level");
    reveal_strlit("settings.agent_team");
    reveal_strlit("settings.agents_md.load");
    reveal_strlit("settings.agents_md.global.save");
    reveal_strlit("settings.agents_md.project.save");
    reveal_strlit("settings.hooks.approve");
    reveal_strlit("settings.hooks.revoke");
    reveal_strlit("settings.one_shot_ai");
    reveal_strlit("settings.auto_compaction");
    reveal_strlit("settings.model");
    reveal_strlit("settings.thinking_level");
    reveal_strlit("settings.queue_modes");
    reveal_strlit("slash.run");
    reveal_strlit("provider.delete");
    reveal_strlit("search.save_all");
    assert("project.remove"@.len() == 14 && "project.open"@.len() == 12 && "session.new"@.len() == 11 && "session.activate"@.len() == 16 && "session.rename"@.len() == 14 && "session.clone"@.len() == 13 && "session.delete"@.len() == 14 && "prompt.submit"@.len() == 13 && "prompt.answer"@.len() == 13 && "attachment.discard"@.len() == 18 && "execution.stop"@.len() == 14 && "queue.clear"@.len() == 11 && "settings.language"@.len() == 17 && "settings.bash_policy"@.len() == 20 && "settings.blocked_patterns"@.len() == 25 && "settings.permission_level"@.len() == 25 && "settings.agent_team"@.len() == 19 && "settings.agents_md.load"@.len() == 23 && "settings.agents_md.global.save"@.len() == 30 && "settings.agents_md.project.save"@.len() == 31 && "settings.hooks.approve"@.len() == 22 && "settings.hooks.revoke"@.len() == 21 && "settings.one_shot_ai"@.len() == 20 && "settings.auto_compaction"@.len() == 24 && "settings.model"@.len() == 14 && "settings.thinking_level"@.len() == 23 && "settings.queue_modes"@.len() == 20 && "slash.run"@.len() == 9 && "provider.delete"@.len() == 15 && "search.save_all"@.len() == 15);
    assert("project.remove"@[0] != "session.rename"@[0]);
    assert("project.remove"@[0] != "session.delete"@[0]);
    assert("project.remove"@[0] != "execution.stop"@[0]);
    assert("project.remove"@[0] != "settings.model"@[0]);
    assert("session.rename"@[8] != "session.delete"@[8]);
    assert("session.rename"@[0] != "execution.stop"@[0]);
    assert("session.rename"@[2] != "settings.model"@[2]);
    assert("session.delete"@[0] != "execution.stop"@[0]);
    assert("session.delete"@[2] != "settings.model"@[2]);
    assert("execution.stop"@[0] != "settings.model"@[0]);
    assert("session.new"@[0] != "queue.clear"@[0]);
    assert("session.clone"@[0] != "prompt.submit"@[0]);
    assert("session.clone"@[0] != "prompt.answer"@[0]);
    assert("prompt.submit"@[7] != "prompt.answer"@[7]);
    assert("settings.bash_policy"@[9] != "settings.one_shot_ai"@[9]);
    assert("settings.bash_policy"@[9] != "settings.queue_modes"@[9]);
    assert("settings.one_shot_ai"@[9] != "settings.queue_modes"@[9]);
    assert("settings.blocked_patterns"@[9] != "settings.permission_level"@[9]);
    assert("settings.agents_md.load"@[9] != "settings.thinking_level"@[9]);
    assert("provider.delete"@[0] != "search.save_all"@[0]);
}

/// Clipboard content that was already classified.
#[derive(Clone, PartialEq, Eq)]
pub enum ShellPaste {
    Files(Vec<String>),
    Image { extension: String, bytes: Vec<u8> },
    LongText(String),
}

impl ShellPaste {
    /// What kind of content it is.
    pub open spec fn kind(self) -> Seq<char> {
        match self {
            ShellPaste::Files(_) => "files"@,
            ShellPaste::Image { .. } => "image"@,
            ShellPaste::LongText(_) => "long_text"@,
        }
    }

    /// What may be written of the content: its kind.
    pub fn describe(&self) -> (r: String)
        ensures
            r@ == "ShellPaste { kind: \""@ + self.kind() + "\", .. }"@,
    {
        let kind = match self {
            ShellPaste::Files(_) => "files",
            ShellPaste::Image { .. } => "image",
            ShellPaste::LongText(_) => "long_text",
        };
        cat3("ShellPaste { kind: \"", kind, "\", .. }")
    }
}

/// Host work that hooks never see.
#[derive(Clone, PartialEq)]
pub enum ShellCommand {
    AddProject,
    RevealProject(ProjectId),
    SmartRenameSession { project_id: ProjectId, path: String, title: String },
    CopyToClipboard(String),
    AttachPaste(ShellPaste),
    PickAttachments,
    SaveProvider { profile: ProviderProfile, api_key: Option<String> },
    SaveSearchEngine { profile: SearchEngineProfile, api_key: Option<String> },
    TestSearchEngine { profile: SearchEngineProfile, api_key: Option<String>, editor: bool },
    DiscoverProviderModels {
        profile_id: Option<ProviderId>,
        provider_name: String,
        base_url: String,
        protocol: ProviderProtocol,
        api_key: Option<String>,
    },
}

impl ShellCommand {
    /// What the command is called.
    pub open spec fn name(self) -> Seq<char> {
        match self {
            ShellCommand::AddProject => "shell.project.add"@,
            ShellCommand::RevealProject(_) => "shell.project.reveal"@,
            ShellCommand::SmartRenameSession { .. } => "shell.session.smart_rename"@,
            ShellCommand::CopyToClipboard(_) => "shell.clipboard.copy"@,
            ShellCommand::AttachPaste(_) => "shell.paste.attach"@,
            ShellCommand::PickAttachments => "shell.attachments.pick"@,
            ShellCommand::SaveProvider { .. } => "shell.provider.save"@,
            ShellCommand::SaveSearchEngine { .. } => "shell.search.save"@,
            ShellCommand::TestSearchEngine { .. } => "shell.search.test"@,
            ShellCommand::DiscoverProviderModels { .. } => "shell.provider.discover_models"@,
        }
    }

    /// What the command is called.
    pub fn command_name(&self) -> (r: &'static str)
        ensures
            r@ == self.name(),
    {
        match self {
            ShellCommand::AddProject => "shell.project.add",
            ShellCommand::RevealProject(_) => "shell.project.reveal",
            ShellCommand::SmartRenameSession { .. } => "shell.session.smart_rename",
            ShellCommand::CopyToClipboard(_) => "shell.clipboard.copy",
            ShellCommand::AttachPaste(_) => "shell.paste.attach",
            ShellCommand::PickAttachments => "shell.attachments.pick",
            ShellCommand::SaveProvider { .. } => "shell.provider.save",
            ShellCommand::SaveSearchEngine { .. } => "shell.search.save",
            ShellCommand::TestSearchEngine { .. } => "shell.search.test",
            ShellCommand::DiscoverProviderModels { .. } => "shell.provider.discover_models",
        }
    }

    /// What may be written of the command: its name.
    pub fn describe(&self) -> (r: String)
        ensures
            r@ == "ShellCommand { command_name: \""@ + self.name() + "\", .. }"@,
    {
        cat3("ShellCommand { command_name: \"", self.command_name(), "\", .. }")
    }
}

/// Where a command came from.
#[derive(Clone, Copy, Debug, PartialEq, Eq, Structural)]
pub enum CommandSource {
    Ui,
    System,
    HookReplay,
}

impl CommandSource {
    /// What the source is called.
    pub open spec fn name(self) -> Seq<char> {
        match self {
            CommandSource::Ui => "Ui"@,
            CommandSource::System => "System"@,
            CommandSource::HookReplay => "HookReplay"@,
        }
    }

    /// What the source is called.
    pub fn as_str(self) -> (r: &'static str)
        ensures
            r@ == self.name(),
    {
        match self {
            CommandSource::Ui => "Ui",
            CommandSource::System => "System",
            CommandSource::HookReplay => "HookReplay",
        }
    }
}

/// A command with its identity and where it belongs.
#[derive(Clone, PartialEq)]
pub struct CommandEnvelope<T> {
    command_id: u128,
    source: CommandSource,
    project_id: Option<ProjectId>,
    session_key: Option<String>,
    payload: T,
}

/// A text as it is written in a Rust program.
pub uninterp spec fn quoted(text: Seq<char>) -> Seq<char>;

/// How a text formats itself for debugging: in quotes, with what would not read
/// well in quotes escaped. Claimed is only that it depends on the text alone.
#[verifier::external_body]
fn quote(text: &str) -> (r: String)
    ensures
        r@ == quoted(text@),
{
    format!("{text:?}")
}

/// An optional thing as it is written for debugging.
pub open spec fn maybe(inner: Option<Seq<char>>) -> Seq<char> {
    match inner {
        Some(text) => "Some("@ + text + ")"@,
        None => "None"@,
    }
}

/// What may be written of an envelope.
pub open spec fn envelope_text(
    command_id: u128,
    source: CommandSource,
    project_id: Option<ProjectId>,
    session_key: Option<Seq<char>>,
    payload_type: Seq<char>,
) -> Seq<char> {
    "CommandEnvelope { command_id: "@ + hyphenated(command_id) + (", source: "@ + source.name()
        + ", project_id: "@) + maybe(
        match project_id {
            Some(id) => Some(hyphenated(id)),
            None => None,
        },
    ) + ", session_key: "@ + maybe(
        match session_key {
            Some(key) => Some(quoted(key)),
            None => None,
        },
    ) + ", payload_type: "@ + (quoted(payload_type) + " }"@)
}

impl<T> CommandEnvelope<T> {
    /// The identity of the command.
    pub closed spec fn id(self) -> u128 {
        self.command_id
    }

    /// Where the command came from.
    pub closed spec fn origin(self) -> CommandSource {
        self.source
    }

    /// The project that the command belongs to.
    pub closed spec fn project(self) -> Option<ProjectId> {
        self.project_id
    }

    /// The session that the command belongs to.
    pub closed spec fn session(self) -> Option<Seq<char>> {
        opt_view(self.session_key)
    }

    /// What the command carries.
    pub closed spec fn carried(self) -> T {
        self.payload
    }

    /// A command under an identity of its own, which belongs nowhere yet.
    pub fn new(source: CommandSource, payload: T) -> (r: CommandEnvelope<T>)
        ensures
            r.origin() == source,
            r.carried() == payload,
            r.project() is None,
            r.session() is None,
    {
        CommandEnvelope {
            command_id: fresh_id(),
            source,
            project_id: None,
            session_key: None,
            payload,
        }
    }

    /// A command that a person gave.
    pub fn ui(payload: T) -> (r: CommandEnvelope<T>)
        ensures
            r.origin() == CommandSource::Ui,
            r.carried() == payload,
            r.project() is None,
            r.session() is None,
    {
        CommandEnvelope::new(CommandSource::Ui, payload)
    }

    /// A command that the application gave itself.
    pub fn system(payload: T) -> (r: CommandEnvelope<T>)
        ensures
            r.origin() == CommandSource::System,
            r.carried() == payload,
            r.project() is None,
            r.session() is None,
    {
        CommandEnvelope::new(CommandSource::System, payload)
    }

    /// A command that a hook gave back.
    pub fn hook_replay(payload: T) -> (r: CommandEnvelope<T>)
        ensures
            r.origin() == CommandSource::HookReplay,
            r.carried() == payload,
            r.project() is None,
            r.session() is None,
    {
        CommandEnvelope::new(CommandSource::HookReplay, payload)
    }

    /// The command with the place that it belongs to.
    pub fn with_context(
        self,
        project_id: Option<ProjectId>,
        session_key: Option<String>,
    ) -> (r: CommandEnvelope<T>)
        ensures
            r.id() == self.id(),
            r.origin() == self.origin(),
            r.carried() == self.carried(),
            r.project() == project_id,
            r.session() == opt_view(session_key),
    {
        CommandEnvelope {
            command_id: self.command_id,
            source: self.source,
            project_id,
            session_key,
            payload: self.payload,
        }
    }

    /// The identity of the command.
    pub fn command_id(&self) -> (r: u128)
        ensures
            r == self.id(),
    {
        self.command_id
    }

    /// Where the command came from.
    pub fn source(&self) -> (r: CommandSource)
        ensures
            r == self.origin(),
    {
        self.source
    }

    /// The project that the command belongs to.
    pub fn project_id(&self) -> (r: Option<ProjectId>)
        ensures
            r == self.project(),
    {
        self.project_id
    }

    /// The session that the command belongs to.
    pub fn session_key(&self) -> (r: Option<&str>)
        ensures
            opt_str(r) == self.session(),
    {
        opt_as_str(&self.session_key)
    }

    /// What the command carries.
    pub fn payload(&self) -> (r: &T)
        ensures
            *r == self.carried(),
    {
        &self.payload
    }

    /// What the command carries, without the rest.
    pub fn into_payload(self) -> (r: T)
        ensures
            r == self.carried(),
    {
        self.payload
    }

    /// The command with another payload; its identity and the place that it
    /// belongs to stay.
    pub fn map_payload<U, F: FnOnce(T) -> U>(self, map: F) -> (r: CommandEnvelope<U>)
        requires
            call_requires(map, (self.carried(),)),
        ensures
            r.id() == self.id(),
            r.origin() == self.origin(),
            r.project() == self.project(),
            r.session() == self.session(),
            call_ensures(map, (self.carried(),), r.carried()),
    {
        CommandEnvelope {
            command_id: self.command_id,
            source: self.source,
            project_id: self.project_id,
            session_key: self.session_key,
            payload: map(self.payload),
        }
    }

    /// What may be written of the command, with what its payload's type is called.
    /// The payload itself has no part in it.
    pub fn describe(&self, payload_type: &str) -> (r: String)
        ensures
            r@ == envelope_text(
                self.id(),
                self.origin(),
                self.project(),
                self.session(),
                payload_type@,
            ),
    {
        let project = match self.project_id {
            Some(id) => cat3("Some(", hyphenated_text(id).as_str(), ")"),
            None => "None".to_owned(),
        };
        let session = match &self.session_key {
            Some(key) => cat3("Some(", quote(key.as_str()).as_str(), ")"),
            None => "None".to_owned(),
        };
        let r = cat8(
            "CommandEnvelope { command_id: ",
            hyphenated_text(self.command_id).as_str(),
            cat3(", source: ", self.source.as_str(), ", project_id: ").as_str(),
            project.as_str(),
            ", session_key: ",
            session.as_str(),
            ", payload_type: ",
            cat2(quote(payload_type).as_str(), " }").as_str(),
        );
        r
    }
}

/// The most bytes of a diagnostic.
pub const MAX_DIAGNOSTIC_BYTES: usize = 512;

/// Whether `cut` is the longest start of `s` that fits in a diagnostic.
pub open spec fn is_bounded_cut(s: Seq<char>, cut: Seq<char>) -> bool {
    &&& cut.len() <= s.len()
    &&& cut == s.take(cut.len() as int)
    &&& byte_len(cut) <= MAX_DIAGNOSTIC_BYTES
    &&& cut.len() < s.len() ==> byte_len(s.take(cut.len() as int + 1)) > MAX_DIAGNOSTIC_BYTES
}

/// A bounded note on how a command ended.
#[derive(Clone, Debug, PartialEq, Eq)]
pub struct CommandDiagnostic(String);

impl View for CommandDiagnostic {
    type V = Seq<char>;

    closed spec fn view(&self) -> Seq<char> {
        self.0@
    }
}

impl CommandDiagnostic {
    /// The longest start of `value` that fits.
    pub fn new(value: &str) -> (r: CommandDiagnostic)
        ensures
            is_bounded_cut(value@, r@),
    {
        let chars = chars_of(value);
        let mut bytes: usize = 0;
        let mut i: usize = 0;
        proof {
            assert(value@.take(0) =~= Seq::<char>::empty());
        }
        while i < chars.len()
            invariant
                i <= chars@.len(),
                chars@ == value@,
                bytes == byte_len(value@.take(i as int)),
                bytes <= MAX_DIAGNOSTIC_BYTES,
            decreases chars@.len() - i,
        {
            let width: usize = char_width(chars[i]);
            proof {
                lemma_byte_len_push(value@.take(i as int), value@[i as int]);
                assert(value@.take(i + 1) =~= value@.take(i as int).push(value@[i as int]));
            }
            if bytes + width > MAX_DIAGNOSTIC_BYTES {
                let cut = string_of(&chars, 0, i);
                proof {
                    assert(cut@ =~= value@.take(i as int));
                }
                return CommandDiagnostic(cut);
            }
            bytes = bytes + width;
            i = i + 1;
        }
        proof {
            assert(value@.take(i as int) =~= value@);
        }
        CommandDiagnostic(value.to_owned())
    }

    /// The note.
    pub fn as_str(&self) -> (r: &str)
        ensures
            r@ == self@,
    {
        self.0.as_str()
    }
}

/// A step in the processing of a command. None holds the payload.
#[derive(Clone, Debug, PartialEq, Eq)]
pub enum CommandStage {
    Submitted,
    Transforming,
    Accepted,
    Denied(CommandDiagnostic),
    Executing,
    Completed,
    Failed(CommandDiagnostic),
}

impl CommandStage {
    /// The command was denied.
    pub fn denied(diagnostic: &str) -> (r: CommandStage)
        ensures
            r is Denied,
            is_bounded_cut(diagnostic@, r->Denied_0@),
    {
        CommandStage::Denied(CommandDiagnostic::new(diagnostic))
    }

    /// The command failed.
    pub fn failed(diagnostic: &str) -> (r: CommandStage)
        ensures
            r is Failed,
            is_bounded_cut(diagnostic@, r->Failed_0@),
    {
        CommandStage::Failed(CommandDiagnostic::new(diagnostic))
    }

    /// What the step is called.
    pub open spec fn name(self) -> Seq<char> {
        match self {
            CommandStage::Submitted => "submitted"@,
            CommandStage::Transforming => "transforming"@,
            CommandStage::Accepted => "accepted"@,
            CommandStage::Denied(_) => "denied"@,
            CommandStage::Executing => "executing"@,
            CommandStage::Completed => "completed"@,
            CommandStage::Failed(_) => "failed"@,
        }
    }

    /// What the step is called.
    pub fn stage_name(&self) -> (r: &'static str)
        ensures
            r@ == self.name(),
    {
        match self {
            CommandStage::Submitted => "submitted",
            CommandStage::Transforming => "transforming",
            CommandStage::Accepted => "accepted",
            CommandStage::Denied(_) => "denied",
            CommandStage::Executing => "executing",
            CommandStage::Completed => "completed",
            CommandStage::Failed(_) => "failed",
        }
    }
}

/// Where a command stands. What it carries has no part in it.
#[derive(Clone, Debug, PartialEq, Eq)]
pub struct CommandLifecycle {
    command_id: u128,
    command_name: &'static str,
    source: CommandSource,
    project_id: Option<ProjectId>,
    session_key: Option<String>,
    stage: CommandStage,
}

impl CommandLifecycle {
    /// The identity of the command.
    pub closed spec fn id(self) -> u128 {
        self.command_id
    }

    /// What the command is called.
    pub closed spec fn name(self) -> Seq<char> {
        self.command_name@
    }

    /// Where the command came from.
    pub closed spec fn origin(self) -> CommandSource {
        self.source
    }

    /// The project that the command belongs to.
    pub closed spec fn project(self) -> Option<ProjectId> {
        self.project_id
    }

    /// The session that the command belongs to.
    pub closed spec fn session(self) -> Option<Seq<char>> {
        opt_view(self.session_key)
    }

    /// The step that the command is at.
    pub closed spec fn step(self) -> CommandStage {
        self.stage
    }

    /// A command that was just submitted.
    pub fn submitted(envelope: &CommandEnvelope<AppCommand>) -> (r: CommandLifecycle)
        ensures
            r.id() == envelope.id(),
            r.name() == envelope.carried().kind().name(),
            r.origin() == envelope.origin(),
            r.project() == envelope.project(),
            r.session() == envelope.session(),
            r.step() == CommandStage::Submitted,
    {
        CommandLifecycle {
            command_id: envelope.command_id,
            command_name: envelope.payload.command_name(),
            source: envelope.source,
            project_id: envelope.project_id,
            session_key: copy_opt(&envelope.session_key),
            stage: CommandStage::Submitted,
        }
    }

    /// The command at another step.
    pub fn with_stage(self, stage: CommandStage) -> (r: CommandLifecycle)
        ensures
            r.id() == self.id(),
            r.name() == self.name(),
            r.origin() == self.origin(),
            r.project() == self.project(),
            r.session() == self.session(),
            r.step() == stage,
    {
        CommandLifecycle {
            command_id: self.command_id,
            command_name: self.command_name,
            source: self.source,
            project_id: self.project_id,
            session_key: self.session_key,
            stage,
        }
    }

    /// The identity of the command.
    pub fn command_id(&self) -> (r: u128)
        ensures
            r == self.id(),
    {
        self.command_id
    }

    /// What the command is called.
    pub fn command_name(&self) -> (r: &'static str)
        ensures
            r@ == self.name(),
    {
        self.command_name
    }

    /// Where the command came from.
    pub fn source(&self) -> (r: CommandSource)
        ensures
            r == self.origin(),
    {
        self.source
    }

    /// The project that the command belongs to.
    pub fn project_id(&self) -> (r: Option<ProjectId>)
        ensures
            r == self.project(),
    {
        self.project_id
    }

    /// The session that the command belongs to.
    pub fn session_key(&self) -> (r: Option<&str>)
        ensures
            opt_str(r) == self.session(),
    {
        opt_as_str(&self.session_key)
    }

    /// The step that the command is at.
    pub fn stage(&self) -> (r: &CommandStage)
        ensures
            *r == self.step(),
    {
        &self.stage
    }
}

} // verus!
