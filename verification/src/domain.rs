//! The application's vocabulary: projects, sessions, conversations, providers
//! and what the user can change about them.

use vstd::prelude::*;

use crate::json::{Json, JsonView};
use crate::text::{lowercase, lowered, same, trim, trimmed};
use crate::views::{copy_list, copy_opt, opt_view, same_list, same_opt, views, Duplicate, Same};

verus! {

/// Identifies a project.
pub type ProjectId = u128;

/// Identifies a session.
pub type SessionId = u128;

/// Identifies a model provider.
pub type ProviderId = u128;

/// Identifies a search engine.
pub type SearchEngineId = u128;

/// The language of the application.
#[derive(Clone, Copy, Debug, PartialEq, Eq, Structural)]
pub enum Language {
    English,
    SimplifiedChinese,
}

impl Default for Language {
    fn default() -> (r: Self)
        ensures
            r == Language::English,
    {
        Language::English
    }
}

/// Who an entry of the conversation is from.
#[derive(Clone, Copy, Debug, PartialEq, Eq, Structural)]
pub enum ConversationRole {
    User,
    Assistant,
    Tool,
    System,
}

/// What an attachment is on disk.
#[derive(Clone, Copy, Debug, PartialEq, Eq, Structural)]
pub enum AttachmentKind {
    File,
    Directory,
}

/// How a prompt joins the conversation.
#[derive(Clone, Copy, Debug, PartialEq, Eq, Structural)]
pub enum SubmitMode {
    /// Starts a turn.
    Prompt,
    /// Corrects the turn in flight.
    Steer,
    /// Waits for the turn in flight to end.
    FollowUp,
}

/// How queued prompts are handed to the agent.
#[derive(Clone, Copy, Debug, PartialEq, Eq, Structural)]
pub enum QueueMode {
    OneAtATime,
    All,
}

impl Default for QueueMode {
    fn default() -> (r: Self)
        ensures
            r == QueueMode::OneAtATime,
    {
        QueueMode::OneAtATime
    }
}

/// Whether the agent may run shell commands.
#[derive(Clone, Copy, Debug, PartialEq, Eq, Structural)]
pub enum BashPolicy {
    Allow,
    Ask,
    Deny,
}

impl Default for BashPolicy {
    fn default() -> (r: Self)
        ensures
            r == BashPolicy::Ask,
    {
        BashPolicy::Ask
    }
}

/// How much a model reasons before it answers.
#[derive(Clone, Copy, Debug, PartialEq, Eq, Structural)]
pub enum ThinkingLevel {
    Off,
    Minimal,
    Low,
    Medium,
    High,
    Xhigh,
}

impl Default for ThinkingLevel {
    fn default() -> (r: Self)
        ensures
            r == ThinkingLevel::Off,
    {
        ThinkingLevel::Off
    }
}

/// What a spawned agent may reach without asking.
#[derive(Clone, Copy, Debug, PartialEq, Eq, Structural)]
pub enum AgentPermissionLevel {
    ReadOnly,
    Controlled,
    Full,
}

impl Default for AgentPermissionLevel {
    fn default() -> (r: Self)
        ensures
            r == AgentPermissionLevel::Controlled,
    {
        AgentPermissionLevel::Controlled
    }
}

/// The wire protocol that a provider speaks.
#[derive(Clone, Copy, Debug, PartialEq, Eq, Structural)]
pub enum ProviderProtocol {
    OpenAiCompletions,
    OpenAiResponses,
    AnthropicMessages,
    GoogleGenerativeAi,
}

impl Default for ProviderProtocol {
    fn default() -> (r: Self)
        ensures
            r == ProviderProtocol::OpenAiCompletions,
    {
        ProviderProtocol::OpenAiCompletions
    }
}

/// The adapter that a search engine is reached through.
#[derive(Clone, Copy, Debug, PartialEq, Eq, Structural)]
pub enum SearchEngineKind {
    Searxng,
    DoubaoGlobal,
}

impl Default for SearchEngineKind {
    fn default() -> (r: Self)
        ensures
            r == SearchEngineKind::Searxng,
    {
        SearchEngineKind::Searxng
    }
}

impl AgentPermissionLevel {
    /// Where the level stands when they escalate.
    pub open spec fn spec_rank(self) -> int {
        match self {
            AgentPermissionLevel::ReadOnly => 0,
            AgentPermissionLevel::Controlled => 1,
            AgentPermissionLevel::Full => 2,
        }
    }

    /// Where the level stands when they escalate.
    pub fn rank(self) -> (r: u8)
        ensures
            r == self.spec_rank(),
    {
        match self {
            AgentPermissionLevel::ReadOnly => 0,
            AgentPermissionLevel::Controlled => 1,
            AgentPermissionLevel::Full => 2,
        }
    }
}

impl ThinkingLevel {
    /// Every level, from the least effort to the most.
    pub const ALL: [ThinkingLevel; 6] = [
        ThinkingLevel::Off,
        ThinkingLevel::Minimal,
        ThinkingLevel::Low,
        ThinkingLevel::Medium,
        ThinkingLevel::High,
        ThinkingLevel::Xhigh,
    ];

    /// The name of the level on the wire.
    pub open spec fn name(self) -> Seq<char> {
        match self {
            ThinkingLevel::Off => "off"@,
            ThinkingLevel::Minimal => "minimal"@,
            ThinkingLevel::Low => "low"@,
            ThinkingLevel::Medium => "medium"@,
            ThinkingLevel::High => "high"@,
            ThinkingLevel::Xhigh => "xhigh"@,
        }
    }

    /// The level that a name on the wire stands for.
    pub open spec fn named(name: Seq<char>) -> Option<ThinkingLevel> {
        if name == "off"@ {
            Some(ThinkingLevel::Off)
        } else if name == "minimal"@ {
            Some(ThinkingLevel::Minimal)
        } else if name == "low"@ {
            Some(ThinkingLevel::Low)
        } else if name == "medium"@ {
            Some(ThinkingLevel::Medium)
        } else if name == "high"@ {
            Some(ThinkingLevel::High)
        } else if name == "xhigh"@ {
            Some(ThinkingLevel::Xhigh)
        } else {
            None
        }
    }

    /// The name of the level on the wire.
    pub fn as_str(self) -> (r: &'static str)
        ensures
            r@ == self.name(),
    {
        match self {
            ThinkingLevel::Off => "off",
            ThinkingLevel::Minimal => "minimal",
            ThinkingLevel::Low => "low",
            ThinkingLevel::Medium => "medium",
            ThinkingLevel::High => "high",
            ThinkingLevel::Xhigh => "xhigh",
        }
    }

    /// The level that a name on the wire stands for.
    pub fn from_name(name: &str) -> (r: Option<ThinkingLevel>)
        ensures
            r == ThinkingLevel::named(name@),
    {
        if same(name, "off") {
            Some(ThinkingLevel::Off)
        } else if same(name, "minimal") {
            Some(ThinkingLevel::Minimal)
        } else if same(name, "low") {
            Some(ThinkingLevel::Low)
        } else if same(name, "medium") {
            Some(ThinkingLevel::Medium)
        } else if same(name, "high") {
            Some(ThinkingLevel::High)
        } else if same(name, "xhigh") {
            Some(ThinkingLevel::Xhigh)
        } else {
            None
        }
    }
}

/// A level is found again under its own name.
pub proof fn lemma_thinking_level_names(level: ThinkingLevel)
    ensures
        ThinkingLevel::named(level.name()) == Some(level),
{
    reveal_strlit("off");
    reveal_strlit("minimal");
    reveal_strlit("low");
    reveal_strlit("medium");
    reveal_strlit("high");
    reveal_strlit("xhigh");
    assert("off"@.len() == 3 && "minimal"@.len() == 7 && "low"@.len() == 3 && "medium"@.len() == 6
        && "high"@.len() == 4 && "xhigh"@.len() == 5);
    assert("off"@[0] != "low"@[0]);
}

impl ProviderProtocol {
    /// Where a provider of this protocol is reached unless told otherwise.
    pub open spec fn default_url(self) -> Seq<char> {
        match self {
            ProviderProtocol::OpenAiCompletions => "https://api.openai.com/v1"@,
            ProviderProtocol::OpenAiResponses => "https://api.openai.com/v1"@,
            ProviderProtocol::AnthropicMessages => "https://api.anthropic.com"@,
            ProviderProtocol::GoogleGenerativeAi =>
                "https://generativelanguage.googleapis.com/v1beta"@,
        }
    }

    /// Where a provider of this protocol is reached unless told otherwise.
    pub fn default_base_url(self) -> (r: &'static str)
        ensures
            r@ == self.default_url(),
    {
        match self {
            ProviderProtocol::OpenAiCompletions => "https://api.openai.com/v1",
            ProviderProtocol::OpenAiResponses => "https://api.openai.com/v1",
            ProviderProtocol::AnthropicMessages => "https://api.anthropic.com",
            ProviderProtocol::GoogleGenerativeAi =>
                "https://generativelanguage.googleapis.com/v1beta",
        }
    }

    /// What Pi calls this protocol.
    pub open spec fn api_name(self) -> Seq<char> {
        match self {
            ProviderProtocol::OpenAiCompletions => "openai-completions"@,
            ProviderProtocol::OpenAiResponses => "openai-responses"@,
            ProviderProtocol::AnthropicMessages => "anthropic-messages"@,
            ProviderProtocol::GoogleGenerativeAi => "google-generative-ai"@,
        }
    }

    /// What Pi calls this protocol.
    pub fn pi_api(self) -> (r: &'static str)
        ensures
            r@ == self.api_name(),
    {
        match self {
            ProviderProtocol::OpenAiCompletions => "openai-completions",
            ProviderProtocol::OpenAiResponses => "openai-responses",
            ProviderProtocol::AnthropicMessages => "anthropic-messages",
            ProviderProtocol::GoogleGenerativeAi => "google-generative-ai",
        }
    }
}

impl SearchEngineKind {
    /// What an engine of this kind is called unless told otherwise.
    pub open spec fn spec_name(self) -> Seq<char> {
        match self {
            SearchEngineKind::Searxng => "SearXNG"@,
            SearchEngineKind::DoubaoGlobal => "Doubao Global"@,
        }
    }

    /// Where an engine of this kind is reached unless told otherwise.
    pub open spec fn default_url(self) -> Seq<char> {
        match self {
            SearchEngineKind::Searxng => ""@,
            SearchEngineKind::DoubaoGlobal =>
                "https://open.feedcoopapi.com/search_api/global_search"@,
        }
    }

    /// Whether an engine of this kind answers only to a key.
    pub open spec fn needs_key(self) -> bool {
        self == SearchEngineKind::DoubaoGlobal
    }

    /// What an engine of this kind is called unless told otherwise.
    pub fn default_name(self) -> (r: &'static str)
        ensures
            r@ == self.spec_name(),
    {
        match self {
            SearchEngineKind::Searxng => "SearXNG",
            SearchEngineKind::DoubaoGlobal => "Doubao Global",
        }
    }

    /// Where an engine of this kind is reached unless told otherwise.
    pub fn default_base_url(self) -> (r: &'static str)
        ensures
            r@ == self.default_url(),
    {
        match self {
            SearchEngineKind::Searxng => "",
            SearchEngineKind::DoubaoGlobal =>
                "https://open.feedcoopapi.com/search_api/global_search",
        }
    }

    /// Whether an engine of this kind answers only to a key.
    pub fn requires_api_key(self) -> (r: bool)
        ensures
            r == self.needs_key(),
    {
        matches!(self, SearchEngineKind::DoubaoGlobal)
    }
}

/// A file or folder that travels with a prompt.
#[derive(Clone, Debug, PartialEq)]
pub struct Attachment {
    pub name: String,
    pub path: String,
    pub kind: AttachmentKind,
    /// Whether the application wrote the file itself.
    pub generated_by_app: bool,
}

/// What an attachment holds.
#[verifier::ext_equal]
pub struct AttachmentView {
    pub name: Seq<char>,
    pub path: Seq<char>,
    pub kind: AttachmentKind,
    pub generated_by_app: bool,
}

impl View for Attachment {
    type V = AttachmentView;

    open spec fn view(&self) -> AttachmentView {
        AttachmentView {
            name: self.name@,
            path: self.path@,
            kind: self.kind,
            generated_by_app: self.generated_by_app,
        }
    }
}

impl Duplicate for Attachment {
    fn duplicate(&self) -> (r: Self) {
        Attachment {
            name: self.name.clone(),
            path: self.path.clone(),
            kind: self.kind,
            generated_by_app: self.generated_by_app,
        }
    }
}

impl Same for Attachment {
    fn same_as(&self, other: &Self) -> (r: bool) {
        same(self.name.as_str(), other.name.as_str())
            && same(self.path.as_str(), other.path.as_str())
            && self.kind == other.kind
            && self.generated_by_app == other.generated_by_app
    }
}

/// One entry of the conversation.
#[derive(Clone, Debug, PartialEq)]
pub struct ConversationItem {
    pub id: String,
    pub role: ConversationRole,
    pub full_text: String,
    /// Whether the text is still arriving.
    pub streaming: bool,
    pub tool_name: Option<String>,
    /// What a tool did, for a reader.
    pub tool_report: Option<String>,
    /// The raw event of a tool.
    pub tool_details: Option<String>,
    pub is_error: bool,
    /// The model that answered.
    pub model: Option<String>,
    pub attachments: Vec<Attachment>,
}

/// What an entry holds.
#[verifier::ext_equal]
pub struct ItemView {
    pub id: Seq<char>,
    pub role: ConversationRole,
    pub full_text: Seq<char>,
    pub streaming: bool,
    pub tool_name: Option<Seq<char>>,
    pub tool_report: Option<Seq<char>>,
    pub tool_details: Option<Seq<char>>,
    pub is_error: bool,
    pub model: Option<Seq<char>>,
    pub attachments: Seq<AttachmentView>,
}

impl View for ConversationItem {
    type V = ItemView;

    open spec fn view(&self) -> ItemView {
        ItemView {
            id: self.id@,
            role: self.role,
            full_text: self.full_text@,
            streaming: self.streaming,
            tool_name: opt_view(self.tool_name),
            tool_report: opt_view(self.tool_report),
            tool_details: opt_view(self.tool_details),
            is_error: self.is_error,
            model: opt_view(self.model),
            attachments: views(self.attachments@),
        }
    }
}

impl Duplicate for ConversationItem {
    fn duplicate(&self) -> (r: Self) {
        ConversationItem {
            id: self.id.clone(),
            role: self.role,
            full_text: self.full_text.clone(),
            streaming: self.streaming,
            tool_name: copy_opt(&self.tool_name),
            tool_report: copy_opt(&self.tool_report),
            tool_details: copy_opt(&self.tool_details),
            is_error: self.is_error,
            model: copy_opt(&self.model),
            attachments: copy_list(&self.attachments),
        }
    }
}

impl Same for ConversationItem {
    fn same_as(&self, other: &Self) -> (r: bool) {
        same(self.id.as_str(), other.id.as_str())
            && self.role == other.role
            && same(self.full_text.as_str(), other.full_text.as_str())
            && self.streaming == other.streaming
            && same_opt(&self.tool_name, &other.tool_name)
            && same_opt(&self.tool_report, &other.tool_report)
            && same_opt(&self.tool_details, &other.tool_details)
            && self.is_error == other.is_error
            && same_opt(&self.model, &other.model)
            && same_list(&self.attachments, &other.attachments)
    }
}

/// A model that can be chosen.
#[derive(Clone, Debug, PartialEq)]
pub struct ModelOption {
    pub provider: String,
    pub provider_name: String,
    pub id: String,
    pub name: String,
}

/// What a model choice holds.
#[verifier::ext_equal]
pub struct ModelView {
    pub provider: Seq<char>,
    pub provider_name: Seq<char>,
    pub id: Seq<char>,
    pub name: Seq<char>,
}

impl View for ModelOption {
    type V = ModelView;

    open spec fn view(&self) -> ModelView {
        ModelView {
            provider: self.provider@,
            provider_name: self.provider_name@,
            id: self.id@,
            name: self.name@,
        }
    }
}

impl Duplicate for ModelOption {
    fn duplicate(&self) -> (r: Self) {
        ModelOption {
            provider: self.provider.clone(),
            provider_name: self.provider_name.clone(),
            id: self.id.clone(),
            name: self.name.clone(),
        }
    }
}

impl Same for ModelOption {
    fn same_as(&self, other: &Self) -> (r: bool) {
        same(self.provider.as_str(), other.provider.as_str())
            && same(self.provider_name.as_str(), other.provider_name.as_str())
            && same(self.id.as_str(), other.id.as_str())
            && same(self.name.as_str(), other.name.as_str())
    }
}

/// A slash command that the agent reported.
#[derive(Clone, Debug, PartialEq)]
pub struct SlashCommandInfo {
    pub name: String,
    pub description: String,
    pub source: String,
}

/// What a reported command holds.
#[verifier::ext_equal]
pub struct CommandInfoView {
    pub name: Seq<char>,
    pub description: Seq<char>,
    pub source: Seq<char>,
}

impl View for SlashCommandInfo {
    type V = CommandInfoView;

    open spec fn view(&self) -> CommandInfoView {
        CommandInfoView {
            name: self.name@,
            description: self.description@,
            source: self.source@,
        }
    }
}

impl Duplicate for SlashCommandInfo {
    fn duplicate(&self) -> (r: Self) {
        SlashCommandInfo {
            name: self.name.clone(),
            description: self.description.clone(),
            source: self.source.clone(),
        }
    }
}

impl Same for SlashCommandInfo {
    fn same_as(&self, other: &Self) -> (r: bool) {
        same(self.name.as_str(), other.name.as_str())
            && same(self.description.as_str(), other.description.as_str())
            && same(self.source.as_str(), other.source.as_str())
    }
}

/// A folder that the agent works in.
#[derive(Clone, Debug, PartialEq)]
pub struct Project {
    pub id: ProjectId,
    pub name: String,
    pub path: String,
    pub pinned: bool,
    pub last_opened_ms: i64,
}

/// What a project holds.
#[verifier::ext_equal]
pub struct ProjectView {
    pub id: ProjectId,
    pub name: Seq<char>,
    pub path: Seq<char>,
    pub pinned: bool,
    pub last_opened_ms: i64,
}

impl View for Project {
    type V = ProjectView;

    open spec fn view(&self) -> ProjectView {
        ProjectView {
            id: self.id,
            name: self.name@,
            path: self.path@,
            pinned: self.pinned,
            last_opened_ms: self.last_opened_ms,
        }
    }
}

impl Duplicate for Project {
    fn duplicate(&self) -> (r: Self) {
        Project {
            id: self.id,
            name: self.name.clone(),
            path: self.path.clone(),
            pinned: self.pinned,
            last_opened_ms: self.last_opened_ms,
        }
    }
}

impl Same for Project {
    fn same_as(&self, other: &Self) -> (r: bool) {
        self.id == other.id
            && same(self.name.as_str(), other.name.as_str())
            && same(self.path.as_str(), other.path.as_str())
            && self.pinned == other.pinned
            && self.last_opened_ms == other.last_opened_ms
    }
}

/// A session as the sidebar lists it.
#[derive(Clone, Debug, PartialEq)]
pub struct SessionSummary {
    pub id: SessionId,
    pub project_id: ProjectId,
    /// The transcript that Pi writes.
    pub pi_path: String,
    pub title: String,
    pub preview: String,
    pub updated_at_ms: i64,
}

/// What a listed session holds.
#[verifier::ext_equal]
pub struct SummaryView {
    pub id: SessionId,
    pub project_id: ProjectId,
    pub pi_path: Seq<char>,
    pub title: Seq<char>,
    pub preview: Seq<char>,
    pub updated_at_ms: i64,
}

impl View for SessionSummary {
    type V = SummaryView;

    open spec fn view(&self) -> SummaryView {
        SummaryView {
            id: self.id,
            project_id: self.project_id,
            pi_path: self.pi_path@,
            title: self.title@,
            preview: self.preview@,
            updated_at_ms: self.updated_at_ms,
        }
    }
}

impl Duplicate for SessionSummary {
    fn duplicate(&self) -> (r: Self) {
        SessionSummary {
            id: self.id,
            project_id: self.project_id,
            pi_path: self.pi_path.clone(),
            title: self.title.clone(),
            preview: self.preview.clone(),
            updated_at_ms: self.updated_at_ms,
        }
    }
}

impl Same for SessionSummary {
    fn same_as(&self, other: &Self) -> (r: bool) {
        self.id == other.id
            && self.project_id == other.project_id
            && same(self.pi_path.as_str(), other.pi_path.as_str())
            && same(self.title.as_str(), other.title.as_str())
            && same(self.preview.as_str(), other.preview.as_str())
            && self.updated_at_ms == other.updated_at_ms
    }
}

/// What a provider calls a thinking level, if it offers it.
#[derive(Clone, Debug, PartialEq)]
pub struct LevelName {
    pub level: ThinkingLevel,
    pub name: Option<String>,
}

/// What a level name holds.
#[verifier::ext_equal]
pub struct LevelNameView {
    pub level: ThinkingLevel,
    pub name: Option<Seq<char>>,
}

impl View for LevelName {
    type V = LevelNameView;

    open spec fn view(&self) -> LevelNameView {
        LevelNameView {
            level: self.level,
            name: opt_view(self.name),
        }
    }
}

impl Duplicate for LevelName {
    fn duplicate(&self) -> (r: Self) {
        LevelName {
            level: self.level,
            name: copy_opt(&self.name),
        }
    }
}

impl Same for LevelName {
    fn same_as(&self, other: &Self) -> (r: bool) {
        self.level == other.level
            && same_opt(&self.name, &other.name)
    }
}

/// A model that a provider serves.
#[derive(Clone, Debug, PartialEq)]
pub struct ProviderModel {
    pub id: String,
    pub name: String,
    pub reasoning: bool,
    pub supports_images: bool,
    pub thinking_level_map: Vec<LevelName>,
}

/// What a served model holds.
#[verifier::ext_equal]
pub struct ProviderModelView {
    pub id: Seq<char>,
    pub name: Seq<char>,
    pub reasoning: bool,
    pub supports_images: bool,
    pub thinking_level_map: Seq<LevelNameView>,
}

impl View for ProviderModel {
    type V = ProviderModelView;

    open spec fn view(&self) -> ProviderModelView {
        ProviderModelView {
            id: self.id@,
            name: self.name@,
            reasoning: self.reasoning,
            supports_images: self.supports_images,
            thinking_level_map: views(self.thinking_level_map@),
        }
    }
}

impl Duplicate for ProviderModel {
    fn duplicate(&self) -> (r: Self) {
        ProviderModel {
            id: self.id.clone(),
            name: self.name.clone(),
            reasoning: self.reasoning,
            supports_images: self.supports_images,
            thinking_level_map: copy_list(&self.thinking_level_map),
        }
    }
}

impl Same for ProviderModel {
    fn same_as(&self, other: &Self) -> (r: bool) {
        same(self.id.as_str(), other.id.as_str())
            && same(self.name.as_str(), other.name.as_str())
            && self.reasoning == other.reasoning
            && self.supports_images == other.supports_images
            && same_list(&self.thinking_level_map, &other.thinking_level_map)
    }
}

/// A configured model provider.
#[derive(Clone, Debug, PartialEq)]
pub struct ProviderProfile {
    pub id: ProviderId,
    pub name: String,
    pub base_url: String,
    pub protocol: ProviderProtocol,
    pub models: Vec<ProviderModel>,
    pub updated_at_ms: i64,
    /// Whether a key is stored for it.
    pub has_api_key: bool,
}

/// What a provider holds.
#[verifier::ext_equal]
pub struct ProviderView {
    pub id: ProviderId,
    pub name: Seq<char>,
    pub base_url: Seq<char>,
    pub protocol: ProviderProtocol,
    pub models: Seq<ProviderModelView>,
    pub updated_at_ms: i64,
    pub has_api_key: bool,
}

impl View for ProviderProfile {
    type V = ProviderView;

    open spec fn view(&self) -> ProviderView {
        ProviderView {
            id: self.id,
            name: self.name@,
            base_url: self.base_url@,
            protocol: self.protocol,
            models: views(self.models@),
            updated_at_ms: self.updated_at_ms,
            has_api_key: self.has_api_key,
        }
    }
}

impl Duplicate for ProviderProfile {
    fn duplicate(&self) -> (r: Self) {
        ProviderProfile {
            id: self.id,
            name: self.name.clone(),
            base_url: self.base_url.clone(),
            protocol: self.protocol,
            models: copy_list(&self.models),
            updated_at_ms: self.updated_at_ms,
            has_api_key: self.has_api_key,
        }
    }
}

impl Same for ProviderProfile {
    fn same_as(&self, other: &Self) -> (r: bool) {
        self.id == other.id
            && same(self.name.as_str(), other.name.as_str())
            && same(self.base_url.as_str(), other.base_url.as_str())
            && self.protocol == other.protocol
            && same_list(&self.models, &other.models)
            && self.updated_at_ms == other.updated_at_ms
            && self.has_api_key == other.has_api_key
    }
}

/// A configured search engine.
#[derive(Clone, Debug, PartialEq)]
pub struct SearchEngineProfile {
    pub id: SearchEngineId,
    pub name: String,
    pub kind: SearchEngineKind,
    pub base_url: String,
    pub enabled: bool,
    /// Where it stands in the order of asking.
    pub position: u32,
    pub has_api_key: bool,
}

/// What a search engine holds.
#[verifier::ext_equal]
pub struct SearchEngineView {
    pub id: SearchEngineId,
    pub name: Seq<char>,
    pub kind: SearchEngineKind,
    pub base_url: Seq<char>,
    pub enabled: bool,
    pub position: u32,
    pub has_api_key: bool,
}

impl View for SearchEngineProfile {
    type V = SearchEngineView;

    open spec fn view(&self) -> SearchEngineView {
        SearchEngineView {
            id: self.id,
            name: self.name@,
            kind: self.kind,
            base_url: self.base_url@,
            enabled: self.enabled,
            position: self.position,
            has_api_key: self.has_api_key,
        }
    }
}

impl Duplicate for SearchEngineProfile {
    fn duplicate(&self) -> (r: Self) {
        SearchEngineProfile {
            id: self.id,
            name: self.name.clone(),
            kind: self.kind,
            base_url: self.base_url.clone(),
            enabled: self.enabled,
            position: self.position,
            has_api_key: self.has_api_key,
        }
    }
}

impl Same for SearchEngineProfile {
    fn same_as(&self, other: &Self) -> (r: bool) {
        self.id == other.id
            && same(self.name.as_str(), other.name.as_str())
            && self.kind == other.kind
            && same(self.base_url.as_str(), other.base_url.as_str())
            && self.enabled == other.enabled
            && self.position == other.position
            && self.has_api_key == other.has_api_key
    }
}

/// The sessions of one project.
#[derive(Clone, Debug, PartialEq)]
pub struct ProjectSessions {
    pub project_id: ProjectId,
    pub sessions: Vec<SessionSummary>,
}

/// What the sessions of a project hold.
#[verifier::ext_equal]
pub struct ProjectSessionsView {
    pub project_id: ProjectId,
    pub sessions: Seq<SummaryView>,
}

impl View for ProjectSessions {
    type V = ProjectSessionsView;

    open spec fn view(&self) -> ProjectSessionsView {
        ProjectSessionsView {
            project_id: self.project_id,
            sessions: views(self.sessions@),
        }
    }
}

impl Duplicate for ProjectSessions {
    fn duplicate(&self) -> (r: Self) {
        ProjectSessions {
            project_id: self.project_id,
            sessions: copy_list(&self.sessions),
        }
    }
}

impl Same for ProjectSessions {
    fn same_as(&self, other: &Self) -> (r: bool) {
        self.project_id == other.project_id
            && same_list(&self.sessions, &other.sessions)
    }
}

/// What a session has used so far.
#[derive(Clone, Copy, Debug, PartialEq, Eq, Structural)]
pub struct SessionMetrics {
    pub total_messages: u64,
    pub user_messages: u64,
    pub assistant_messages: u64,
    pub tool_calls: u64,
    pub total_tokens: u64,
    pub cost_microusd: u64,
}

impl Default for SessionMetrics {
    fn default() -> (r: Self)
        ensures
            r == (SessionMetrics {
                total_messages: 0,
                user_messages: 0,
                assistant_messages: 0,
                tool_calls: 0,
                total_tokens: 0,
                cost_microusd: 0,
            }),
    {
        SessionMetrics {
            total_messages: 0,
            user_messages: 0,
            assistant_messages: 0,
            tool_calls: 0,
            total_tokens: 0,
            cost_microusd: 0,
        }
    }
}

/// How agents are spawned.
#[derive(Clone, Copy, Debug, PartialEq, Eq, Structural)]
pub struct AgentTeamConfig {
    /// What a spawned agent may reach unless told otherwise.
    pub default_level: AgentPermissionLevel,
}

impl Default for AgentTeamConfig {
    fn default() -> (r: Self)
        ensures
            r.default_level == AgentPermissionLevel::Controlled,
    {
        AgentTeamConfig { default_level: AgentPermissionLevel::Controlled }
    }
}

/// What the visible session is doing.
#[derive(Clone, Debug, PartialEq)]
pub enum SessionStatus {
    Offline,
    Starting,
    Ready,
    Streaming,
    Compacting,
    Failed(String),
}

/// What a status holds.
#[verifier::ext_equal]
pub enum StatusView {
    Offline,
    Starting,
    Ready,
    Streaming,
    Compacting,
    Failed(Seq<char>),
}

impl View for SessionStatus {
    type V = StatusView;

    open spec fn view(&self) -> StatusView {
        match *self {
            SessionStatus::Offline => StatusView::Offline,
            SessionStatus::Starting => StatusView::Starting,
            SessionStatus::Ready => StatusView::Ready,
            SessionStatus::Streaming => StatusView::Streaming,
            SessionStatus::Compacting => StatusView::Compacting,
            SessionStatus::Failed(error) => StatusView::Failed(error@),
        }
    }
}

impl Duplicate for SessionStatus {
    fn duplicate(&self) -> (r: Self) {
        match self {
            SessionStatus::Offline => SessionStatus::Offline,
            SessionStatus::Starting => SessionStatus::Starting,
            SessionStatus::Ready => SessionStatus::Ready,
            SessionStatus::Streaming => SessionStatus::Streaming,
            SessionStatus::Compacting => SessionStatus::Compacting,
            SessionStatus::Failed(error) => SessionStatus::Failed(error.clone()),
        }
    }
}

impl Default for SessionStatus {
    fn default() -> (r: Self)
        ensures
            r == SessionStatus::Offline,
    {
        SessionStatus::Offline
    }
}

impl Duplicate for Json {
    fn duplicate(&self) -> (r: Self) {
        self.copy()
    }
}

/// A model with no known capabilities, under its own id.
pub open spec fn plain_model(id: Seq<char>) -> ProviderModelView {
    ProviderModelView {
        id,
        name: id,
        reasoning: false,
        supports_images: false,
        thinking_level_map: Seq::empty(),
    }
}

impl ProviderModel {
    /// A model with no known capabilities, under its own id.
    pub fn new(id: &str) -> (r: ProviderModel)
        ensures
            r@ == plain_model(id@),
    {
        let r = ProviderModel {
            id: id.to_owned(),
            name: id.to_owned(),
            reasoning: false,
            supports_images: false,
            thinking_level_map: Vec::new(),
        };
        proof {
            assert(r@.thinking_level_map =~= Seq::empty());
        }
        r
    }
}

/// What two provider names are compared by: the name in lower case, without
/// white space around it.
pub open spec fn name_key(name: Seq<char>) -> Seq<char> {
    lowercase(trim(name))
}

/// What two provider names are compared by.
pub fn provider_name_key(name: &str) -> (r: String)
    ensures
        r@ == name_key(name@),
{
    lowered(trimmed(name).as_str())
}

/// A change to the application's state.
#[derive(Debug, PartialEq)]
pub enum Action {
    ProjectsLoaded(Vec<Project>),
    SessionsLoaded { project_id: ProjectId, sessions: Vec<SessionSummary> },
    SelectProject(ProjectId),
    SelectSession(SessionId),
    SessionRunning { path: String, running: bool },
    SetLanguage(Language),
    SetBashPolicy(BashPolicy),
    SetBashBlockedPatterns(Vec<String>),
    SetAgentTeamConfig(AgentTeamConfig),
    SetOneShotAiConfig(Json),
    SetProjectHookStatus(Json),
    SetHookAudit(Vec<Json>),
    AgentsMdFilesLoaded(Json),
    ProviderProfilesLoaded(Vec<ProviderProfile>),
    /// The providers that have a key.
    ProviderKeyStatusLoaded(Vec<ProviderId>),
    SearchEngineProfilesLoaded(Vec<SearchEngineProfile>),
    /// The search engines that have a key.
    SearchEngineKeyStatusLoaded(Vec<SearchEngineId>),
    RuntimeControlsUpdated { current_model: Option<ModelOption>, available_models: Vec<ModelOption>, thinking_level: ThinkingLevel, available_thinking_levels: Vec<ThinkingLevel>, auto_compaction_enabled: bool, steering_mode: QueueMode, follow_up_mode: QueueMode },
    RuntimeCommandsUpdated(Vec<SlashCommandInfo>),
    SetPendingModel(Option<ModelOption>),
    SessionMetricsUpdated(SessionMetrics),
    SetSessionStatus(SessionStatus),
    UpsertConversation(ConversationItem),
    RekeyConversation { from: String, to: String },
    AppendAssistantText { id: String, text: String },
    FinishMessage(String),
    QueueUpdated { steering: Vec<String>, follow_up: Vec<String> },
    ClearConversation,
}

/// What a change holds.
#[verifier::ext_equal]
pub enum ActionView {
    ProjectsLoaded(Seq<ProjectView>),
    SessionsLoaded { project_id: ProjectId, sessions: Seq<SummaryView> },
    SelectProject(ProjectId),
    SelectSession(SessionId),
    SessionRunning { path: Seq<char>, running: bool },
    SetLanguage(Language),
    SetBashPolicy(BashPolicy),
    SetBashBlockedPatterns(Seq<Seq<char>>),
    SetAgentTeamConfig(AgentTeamConfig),
    SetOneShotAiConfig(JsonView),
    SetProjectHookStatus(JsonView),
    SetHookAudit(Seq<JsonView>),
    AgentsMdFilesLoaded(JsonView),
    ProviderProfilesLoaded(Seq<ProviderView>),
    ProviderKeyStatusLoaded(Seq<ProviderId>),
    SearchEngineProfilesLoaded(Seq<SearchEngineView>),
    SearchEngineKeyStatusLoaded(Seq<SearchEngineId>),
    RuntimeControlsUpdated { current_model: Option<ModelView>, available_models: Seq<ModelView>, thinking_level: ThinkingLevel, available_thinking_levels: Seq<ThinkingLevel>, auto_compaction_enabled: bool, steering_mode: QueueMode, follow_up_mode: QueueMode },
    RuntimeCommandsUpdated(Seq<CommandInfoView>),
    SetPendingModel(Option<ModelView>),
    SessionMetricsUpdated(SessionMetrics),
    SetSessionStatus(StatusView),
    UpsertConversation(ItemView),
    RekeyConversation { from: Seq<char>, to: Seq<char> },
    AppendAssistantText { id: Seq<char>, text: Seq<char> },
    FinishMessage(Seq<char>),
    QueueUpdated { steering: Seq<Seq<char>>, follow_up: Seq<Seq<char>> },
    ClearConversation,
}

impl View for Action {
    type V = ActionView;

    open spec fn view(&self) -> ActionView {
        match *self {
            Action::ProjectsLoaded(x) => ActionView::ProjectsLoaded(views(x@)),
            Action::SessionsLoaded { project_id, sessions } => ActionView::SessionsLoaded { project_id, sessions: views(sessions@) },
            Action::SelectProject(x) => ActionView::SelectProject(x),
            Action::SelectSession(x) => ActionView::SelectSession(x),
            Action::SessionRunning { path, running } => ActionView::SessionRunning { path: path@, running },
            Action::SetLanguage(x) => ActionView::SetLanguage(x),
            Action::SetBashPolicy(x) => ActionView::SetBashPolicy(x),
            Action::SetBashBlockedPatterns(x) => ActionView::SetBashBlockedPatterns(views(x@)),
            Action::SetAgentTeamConfig(x) => ActionView::SetAgentTeamConfig(x),
            Action::SetOneShotAiConfig(x) => ActionView::SetOneShotAiConfig(x@),
            Action::SetProjectHookStatus(x) => ActionView::SetProjectHookStatus(x@),
            Action::SetHookAudit(x) => ActionView::SetHookAudit(views(x@)),
            Action::AgentsMdFilesLoaded(x) => ActionView::AgentsMdFilesLoaded(x@),
            Action::ProviderProfilesLoaded(x) => ActionView::ProviderProfilesLoaded(views(x@)),
            Action::ProviderKeyStatusLoaded(x) => ActionView::ProviderKeyStatusLoaded(x@),
            Action::SearchEngineProfilesLoaded(x) => ActionView::SearchEngineProfilesLoaded(views(x@)),
            Action::SearchEngineKeyStatusLoaded(x) => ActionView::SearchEngineKeyStatusLoaded(x@),
            Action::RuntimeControlsUpdated { current_model, available_models, thinking_level, available_thinking_levels, auto_compaction_enabled, steering_mode, follow_up_mode } => ActionView::RuntimeControlsUpdated { current_model: opt_view(current_model), available_models: views(available_models@), thinking_level, available_thinking_levels: available_thinking_levels@, auto_compaction_enabled, steering_mode, follow_up_mode },
            Action::RuntimeCommandsUpdated(x) => ActionView::RuntimeCommandsUpdated(views(x@)),
            Action::SetPendingModel(x) => ActionView::SetPendingModel(opt_view(x)),
            Action::SessionMetricsUpdated(x) => ActionView::SessionMetricsUpdated(x),
            Action::SetSessionStatus(x) => ActionView::SetSessionStatus(x@),
            Action::UpsertConversation(x) => ActionView::UpsertConversation(x@),
            Action::RekeyConversation { from, to } => ActionView::RekeyConversation { from: from@, to: to@ },
            Action::AppendAssistantText { id, text } => ActionView::AppendAssistantText { id: id@, text: text@ },
            Action::FinishMessage(x) => ActionView::FinishMessage(x@),
            Action::QueueUpdated { steering, follow_up } => ActionView::QueueUpdated { steering: views(steering@), follow_up: views(follow_up@) },
            Action::ClearConversation => ActionView::ClearConversation,
        }
    }
}

/// The application's state, as far as it is read here.
#[derive(Clone, Debug, PartialEq)]
pub struct AppState {
    pub projects: Vec<Project>,
    pub sessions: Vec<ProjectSessions>,
    /// The transcripts of the sessions that are mid-turn.
    pub running_sessions: Vec<String>,
    pub selected_project: Option<ProjectId>,
    pub selected_session: Option<SessionId>,
    pub conversation: Vec<ConversationItem>,
    pub session_status: SessionStatus,
    pub session_metrics: Option<SessionMetrics>,
    pub current_model: Option<ModelOption>,
    /// The model that the next prompt switches to.
    pub pending_model: Option<ModelOption>,
    pub available_models: Vec<ModelOption>,
    pub thinking_level: ThinkingLevel,
    pub available_thinking_levels: Vec<ThinkingLevel>,
    pub available_commands: Vec<SlashCommandInfo>,
    pub auto_compaction_enabled: bool,
    pub pending_steering: Vec<String>,
    pub pending_follow_up: Vec<String>,
    pub language: Language,
    pub agent_team_config: AgentTeamConfig,
    pub provider_profiles: Vec<ProviderProfile>,
}

/// Whether a state is the one that the application starts with.
pub open spec fn is_initial(state: AppState) -> bool {
    &&& state.projects@.len() == 0
    &&& state.sessions@.len() == 0
    &&& state.running_sessions@.len() == 0
    &&& state.selected_project is None
    &&& state.selected_session is None
    &&& state.conversation@.len() == 0
    &&& state.session_status == SessionStatus::Offline
    &&& state.session_metrics is None
    &&& state.current_model is None
    &&& state.pending_model is None
    &&& state.available_models@.len() == 0
    &&& state.thinking_level == ThinkingLevel::Off
    &&& state.available_thinking_levels@.len() == 0
    &&& state.available_commands@.len() == 0
    &&& !state.auto_compaction_enabled
    &&& state.pending_steering@.len() == 0
    &&& state.pending_follow_up@.len() == 0
    &&& state.language == Language::English
    &&& state.agent_team_config.default_level == AgentPermissionLevel::Controlled
    &&& state.provider_profiles@.len() == 0
}

impl Default for AppState {
    fn default() -> (r: Self)
        ensures
            is_initial(r),
    {
        AppState {
            projects: Vec::new(),
            sessions: Vec::new(),
            running_sessions: Vec::new(),
            selected_project: None,
            selected_session: None,
            conversation: Vec::new(),
            session_status: SessionStatus::Offline,
            session_metrics: None,
            current_model: None,
            pending_model: None,
            available_models: Vec::new(),
            thinking_level: ThinkingLevel::Off,
            available_thinking_levels: Vec::new(),
            available_commands: Vec::new(),
            auto_compaction_enabled: false,
            pending_steering: Vec::new(),
            pending_follow_up: Vec::new(),
            language: Language::English,
            agent_team_config: AgentTeamConfig::default(),
            provider_profiles: Vec::new(),
        }
    }
}

} // verus!
