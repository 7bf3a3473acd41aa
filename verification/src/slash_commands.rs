//! The slash-command palette: what typing `/` in the composer can offer.
//!
//! Every option follows from the state: which models the agent reported, which
//! thinking levels it offers, which prompts a fork could start from.

use vstd::prelude::*;

use crate::domain::{
    AppState, CommandInfoView, ConversationRole, ItemView, Language, ModelOption, ModelView,
    SessionStatus, SlashCommandInfo, ThinkingLevel,
};
use crate::text::{
    cat2, cat3, chars_of, first_chars, has_prefix, is_white_space, lowercase, lowered, occurs, same,
    string_of, strip_prefix, take_chars, text_contains, trim, trim_start, trimmed, white_space,
};
use crate::views::{
    keep_map, lemma_filter_none, lemma_filter_step, lemma_keep_map_step, lemma_views_push,
    opt_view, views, Duplicate,
};

verus! {

/// What an option is for, so that each view can pick its own glyph.
#[derive(Clone, Copy, Debug, PartialEq, Eq, Structural)]
pub enum CommandIcon {
    /// A model or provider choice.
    Model,
    /// Reasoning effort.
    Thinking,
    /// Anything that duplicates or exports.
    Copy,
    /// A message, a session or anything conversational.
    Message,
    /// Context compaction.
    Compact,
    /// An attachment from disk.
    File,
    /// Preferences and shortcuts.
    Settings,
    /// Interrupting the turn in flight.
    Stop,
}

/// One thing that the palette can do.
#[derive(Clone, Debug, PartialEq)]
pub enum SlashCommand {
    NewSession,
    AddAttachment,
    ChooseModel,
    ChooseThinkingLevel,
    Compact,
    SetModel(ModelOption),
    SetThinkingLevel(ThinkingLevel),
    CopyLastMessage,
    NameSession(Option<String>),
    ShowSessionInfo,
    ShowHotkeys,
    ShowChangelog,
    ChooseFork,
    Fork(String),
    Clone,
    Export(Option<String>),
    Share,
    SubmitDynamic(String),
    Stop,
}

/// What a command holds.
#[verifier::ext_equal]
pub enum CommandView {
    NewSession,
    AddAttachment,
    ChooseModel,
    ChooseThinkingLevel,
    Compact,
    SetModel(ModelView),
    SetThinkingLevel(ThinkingLevel),
    CopyLastMessage,
    NameSession(Option<Seq<char>>),
    ShowSessionInfo,
    ShowHotkeys,
    ShowChangelog,
    ChooseFork,
    Fork(Seq<char>),
    Clone,
    Export(Option<Seq<char>>),
    Share,
    SubmitDynamic(Seq<char>),
    Stop,
}

impl View for SlashCommand {
    type V = CommandView;

    open spec fn view(&self) -> CommandView {
        match *self {
            SlashCommand::NewSession => CommandView::NewSession,
            SlashCommand::AddAttachment => CommandView::AddAttachment,
            SlashCommand::ChooseModel => CommandView::ChooseModel,
            SlashCommand::ChooseThinkingLevel => CommandView::ChooseThinkingLevel,
            SlashCommand::Compact => CommandView::Compact,
            SlashCommand::SetModel(model) => CommandView::SetModel(model@),
            SlashCommand::SetThinkingLevel(level) => CommandView::SetThinkingLevel(level),
            SlashCommand::CopyLastMessage => CommandView::CopyLastMessage,
            SlashCommand::NameSession(name) => CommandView::NameSession(opt_view(name)),
            SlashCommand::ShowSessionInfo => CommandView::ShowSessionInfo,
            SlashCommand::ShowHotkeys => CommandView::ShowHotkeys,
            SlashCommand::ShowChangelog => CommandView::ShowChangelog,
            SlashCommand::ChooseFork => CommandView::ChooseFork,
            SlashCommand::Fork(id) => CommandView::Fork(id@),
            SlashCommand::Clone => CommandView::Clone,
            SlashCommand::Export(path) => CommandView::Export(opt_view(path)),
            SlashCommand::Share => CommandView::Share,
            SlashCommand::SubmitDynamic(name) => CommandView::SubmitDynamic(name@),
            SlashCommand::Stop => CommandView::Stop,
        }
    }
}

impl Duplicate for SlashCommand {
    fn duplicate(&self) -> (r: Self) {
        match self {
            SlashCommand::NewSession => SlashCommand::NewSession,
            SlashCommand::AddAttachment => SlashCommand::AddAttachment,
            SlashCommand::ChooseModel => SlashCommand::ChooseModel,
            SlashCommand::ChooseThinkingLevel => SlashCommand::ChooseThinkingLevel,
            SlashCommand::Compact => SlashCommand::Compact,
            SlashCommand::SetModel(model) => SlashCommand::SetModel(model.duplicate()),
            SlashCommand::SetThinkingLevel(level) => SlashCommand::SetThinkingLevel(*level),
            SlashCommand::CopyLastMessage => SlashCommand::CopyLastMessage,
            SlashCommand::NameSession(name) => SlashCommand::NameSession(
                crate::views::copy_opt(name),
            ),
            SlashCommand::ShowSessionInfo => SlashCommand::ShowSessionInfo,
            SlashCommand::ShowHotkeys => SlashCommand::ShowHotkeys,
            SlashCommand::ShowChangelog => SlashCommand::ShowChangelog,
            SlashCommand::ChooseFork => SlashCommand::ChooseFork,
            SlashCommand::Fork(id) => SlashCommand::Fork(id.clone()),
            SlashCommand::Clone => SlashCommand::Clone,
            SlashCommand::Export(path) => SlashCommand::Export(crate::views::copy_opt(path)),
            SlashCommand::Share => SlashCommand::Share,
            SlashCommand::SubmitDynamic(name) => SlashCommand::SubmitDynamic(name.clone()),
            SlashCommand::Stop => SlashCommand::Stop,
        }
    }
}

/// A row of the palette.
#[derive(Clone, Debug)]
pub struct SlashCommandOption {
    pub command: SlashCommand,
    pub trigger: String,
    pub title: String,
    pub detail: String,
    pub icon: CommandIcon,
    pub keywords: Vec<String>,
}

/// What a row holds.
#[verifier::ext_equal]
pub struct OptionView {
    pub command: CommandView,
    pub trigger: Seq<char>,
    pub title: Seq<char>,
    pub detail: Seq<char>,
    pub icon: CommandIcon,
    pub keywords: Seq<Seq<char>>,
}

impl View for SlashCommandOption {
    type V = OptionView;

    open spec fn view(&self) -> OptionView {
        OptionView {
            command: self.command@,
            trigger: self.trigger@,
            title: self.title@,
            detail: self.detail@,
            icon: self.icon,
            keywords: views(self.keywords@),
        }
    }
}

/// Whether the lower-case form of `text` holds `query`.
pub open spec fn mentions(text: Seq<char>, query: Seq<char>) -> bool {
    occurs(lowercase(text), query)
}

fn mentions_text(text: &str, query: &str) -> (r: bool)
    ensures
        r == mentions(text@, query@),
{
    text_contains(lowered(text).as_str(), query)
}

/// Whether a row is found by what was typed.
pub open spec fn option_matches(option: OptionView, typed: Seq<char>) -> bool {
    let query = lowercase(trim(typed));
    ||| query.len() == 0
    ||| mentions(option.trigger, query)
    ||| mentions(option.title, query)
    ||| mentions(option.detail, query)
    ||| exists|i: int|
        0 <= i < option.keywords.len() && mentions(#[trigger] option.keywords[i], query)
}

impl SlashCommandOption {
    /// Whether the row is found by what was typed.
    pub fn matches(&self, typed: &str) -> (r: bool)
        ensures
            r == option_matches(self@, typed@),
            trim(typed@).len() == 0 ==> r,
    {
        let query = lowered(trimmed(typed).as_str());
        proof {
            if trim(typed@).len() == 0 {
                assert(query@.len() == 0);
            }
        }
        let ghost words = self@.keywords;
        if query.as_str().is_empty() || mentions_text(self.trigger.as_str(), query.as_str())
            || mentions_text(self.title.as_str(), query.as_str()) || mentions_text(
            self.detail.as_str(),
            query.as_str(),
        ) {
            return true;
        }
        let mut i: usize = 0;
        while i < self.keywords.len()
            invariant
                i <= self.keywords@.len(),
                words == views(self.keywords@),
                words == self@.keywords,
                query@ == lowercase(trim(typed@)),
                query@.len() > 0,
                trim(typed@).len() > 0,
                forall|k: int| 0 <= k < i ==> !mentions(#[trigger] words[k], query@),
            decreases self.keywords@.len() - i,
        {
            if mentions_text(self.keywords[i].as_str(), query.as_str()) {
                proof {
                    assert(mentions(words[i as int], query@));
                }
                return true;
            }
            i = i + 1;
        }
        false
    }
}

/// `chinese` or `english`.
pub open spec fn in_language(chinese: bool, chinese_text: Seq<char>, english_text: Seq<char>) -> Seq<
    char,
> {
    if chinese {
        chinese_text
    } else {
        english_text
    }
}

/// One of two texts, by the language.
pub fn text(chinese: bool, chinese_text: &str, english_text: &str) -> (r: String)
    ensures
        r@ == in_language(chinese, chinese_text@, english_text@),
{
    if chinese {
        chinese_text.to_owned()
    } else {
        english_text.to_owned()
    }
}

/// A row that the application brings itself.
pub open spec fn builtin_option(
    command: CommandView,
    trigger: Seq<char>,
    chinese_title: Seq<char>,
    english_title: Seq<char>,
    chinese_detail: Seq<char>,
    english_detail: Seq<char>,
    icon: CommandIcon,
    chinese: bool,
) -> OptionView {
    OptionView {
        command,
        trigger: "/"@ + trigger,
        title: in_language(chinese, chinese_title, english_title),
        detail: in_language(chinese, chinese_detail, english_detail),
        icon,
        keywords: seq![trigger, chinese_title, english_title],
    }
}

fn builtin(
    command: SlashCommand,
    trigger: &str,
    chinese_title: &str,
    english_title: &str,
    chinese_detail: &str,
    english_detail: &str,
    icon: CommandIcon,
    chinese: bool,
) -> (r: SlashCommandOption)
    ensures
        r@ == builtin_option(
            command@,
            trigger@,
            chinese_title@,
            english_title@,
            chinese_detail@,
            english_detail@,
            icon,
            chinese,
        ),
{
    let mut keywords: Vec<String> = Vec::new();
    keywords.push(trigger.to_owned());
    keywords.push(chinese_title.to_owned());
    keywords.push(english_title.to_owned());
    proof {
        assert(views(keywords@) =~= seq![trigger@, chinese_title@, english_title@]);
    }
    SlashCommandOption {
        command,
        trigger: cat2("/", trigger),
        title: text(chinese, chinese_title, english_title),
        detail: text(chinese, chinese_detail, english_detail),
        icon,
        keywords,
    }
}

/// The rows that are always there.
pub open spec fn fixed_options(level: ThinkingLevel, chinese: bool) -> Seq<OptionView> {
    seq![
        builtin_option(
            CommandView::ChooseModel,
            "model"@,
            "选择模型"@,
            "Select model"@,
            "选择供应商和模型"@,
            "Choose a provider and model"@,
            CommandIcon::Model,
            chinese,
        ),
        builtin_option(
            CommandView::Export(None),
            "export"@,
            "导出会话"@,
            "Export session"@,
            "导出为 HTML；也可输入目标路径"@,
            "Export as HTML or provide a path"@,
            CommandIcon::Copy,
            chinese,
        ),
        builtin_option(
            CommandView::Share,
            "share"@,
            "分享会话"@,
            "Share session"@,
            "创建私密 GitHub Gist 分享链接"@,
            "Create a secret GitHub Gist share link"@,
            CommandIcon::Copy,
            chinese,
        ),
        builtin_option(
            CommandView::CopyLastMessage,
            "copy"@,
            "复制最后回复"@,
            "Copy last reply"@,
            "复制最后一条 agent 汇报"@,
            "Copy the last agent message"@,
            CommandIcon::Copy,
            chinese,
        ),
        builtin_option(
            CommandView::NameSession(None),
            "name"@,
            "命名会话"@,
            "Name session"@,
            "设置当前会话名称"@,
            "Set the current session name"@,
            CommandIcon::Message,
            chinese,
        ),
        builtin_option(
            CommandView::ShowSessionInfo,
            "session"@,
            "会话信息"@,
            "Session info"@,
            "显示当前会话统计"@,
            "Show current session statistics"@,
            CommandIcon::Message,
            chinese,
        ),
        builtin_option(
            CommandView::ShowChangelog,
            "changelog"@,
            "更新日志"@,
            "Changelog"@,
            "查看 Pi 更新日志"@,
            "View Pi changelog entries"@,
            CommandIcon::Message,
            chinese,
        ),
        builtin_option(
            CommandView::ShowHotkeys,
            "hotkeys"@,
            "快捷键"@,
            "Hotkeys"@,
            "显示键盘快捷键"@,
            "Show keyboard shortcuts"@,
            CommandIcon::Settings,
            chinese,
        ),
        builtin_option(
            CommandView::ChooseFork,
            "fork"@,
            "分叉会话"@,
            "Fork session"@,
            "从一条用户消息创建分支"@,
            "Fork from a previous user message"@,
            CommandIcon::Message,
            chinese,
        ),
        builtin_option(
            CommandView::Clone,
            "clone"@,
            "克隆会话"@,
            "Clone session"@,
            "复制当前会话位置"@,
            "Duplicate the current session position"@,
            CommandIcon::Copy,
            chinese,
        ),
        builtin_option(
            CommandView::NewSession,
            "new"@,
            "新建会话"@,
            "New session"@,
            "在当前项目开始新会话"@,
            "Start a fresh session in this project"@,
            CommandIcon::Message,
            chinese,
        ),
        builtin_option(
            CommandView::Compact,
            "compact"@,
            "压缩上下文"@,
            "Compact context"@,
            "立即压缩当前会话历史"@,
            "Compact the current session context"@,
            CommandIcon::Compact,
            chinese,
        ),
        builtin_option(
            CommandView::ChooseThinkingLevel,
            "thinking"@,
            "思考深度"@,
            "Thinking level"@,
            "当前: "@ + level.name(),
            "Current: "@ + level.name(),
            CommandIcon::Thinking,
            chinese,
        ),
        builtin_option(
            CommandView::AddAttachment,
            "image"@,
            "添加附件"@,
            "Add attachment"@,
            "从本机选择文件或文件夹作为附件"@,
            "Attach files or folders from this Mac"@,
            CommandIcon::File,
            chinese,
        ),
    ]
}

fn fixed_rows(level: ThinkingLevel, chinese: bool) -> (r: Vec<SlashCommandOption>)
    ensures
        views(r@) == fixed_options(level, chinese),
{
    let mut options: Vec<SlashCommandOption> = Vec::new();
    options.push(
        builtin(
            SlashCommand::ChooseModel,
            "model",
            "选择模型",
            "Select model",
            "选择供应商和模型",
            "Choose a provider and model",
            CommandIcon::Model,
            chinese,
        ),
    );
    options.push(
        builtin(
            SlashCommand::Export(None),
            "export",
            "导出会话",
            "Export session",
            "导出为 HTML；也可输入目标路径",
            "Export as HTML or provide a path",
            CommandIcon::Copy,
            chinese,
        ),
    );
    options.push(
        builtin(
            SlashCommand::Share,
            "share",
            "分享会话",
            "Share session",
            "创建私密 GitHub Gist 分享链接",
            "Create a secret GitHub Gist share link",
            CommandIcon::Copy,
            chinese,
        ),
    );
    options.push(
        builtin(
            SlashCommand::CopyLastMessage,
            "copy",
            "复制最后回复",
            "Copy last reply",
            "复制最后一条 agent 汇报",
            "Copy the last agent message",
            CommandIcon::Copy,
            chinese,
        ),
    );
    options.push(
        builtin(
            SlashCommand::NameSession(None),
            "name",
            "命名会话",
            "Name session",
            "设置当前会话名称",
            "Set the current session name",
            CommandIcon::Message,
            chinese,
        ),
    );
    options.push(
        builtin(
            SlashCommand::ShowSessionInfo,
            "session",
            "会话信息",
            "Session info",
            "显示当前会话统计",
            "Show current session statistics",
            CommandIcon::Message,
            chinese,
        ),
    );
    options.push(
        builtin(
            SlashCommand::ShowChangelog,
            "changelog",
            "更新日志",
            "Changelog",
            "查看 Pi 更新日志",
            "View Pi changelog entries",
            CommandIcon::Message,
            chinese,
        ),
    );
    options.push(
        builtin(
            SlashCommand::ShowHotkeys,
            "hotkeys",
            "快捷键",
            "Hotkeys",
            "显示键盘快捷键",
            "Show keyboard shortcuts",
            CommandIcon::Settings,
            chinese,
        ),
    );
    options.push(
        builtin(
            SlashCommand::ChooseFork,
            "fork",
            "分叉会话",
            "Fork session",
            "从一条用户消息创建分支",
            "Fork from a previous user message",
            CommandIcon::Message,
            chinese,
        ),
    );
    options.push(
        builtin(
            SlashCommand::Clone,
            "clone",
            "克隆会话",
            "Clone session",
            "复制当前会话位置",
            "Duplicate the current session position",
            CommandIcon::Copy,
            chinese,
        ),
    );
    options.push(
        builtin(
            SlashCommand::NewSession,
            "new",
            "新建会话",
            "New session",
            "在当前项目开始新会话",
            "Start a fresh session in this project",
            CommandIcon::Message,
            chinese,
        ),
    );
    options.push(
        builtin(
            SlashCommand::Compact,
            "compact",
            "压缩上下文",
            "Compact context",
            "立即压缩当前会话历史",
            "Compact the current session context",
            CommandIcon::Compact,
            chinese,
        ),
    );
    options.push(
        builtin(
            SlashCommand::ChooseThinkingLevel,
            "thinking",
            "思考深度",
            "Thinking level",
            cat2("当前: ", level.as_str()).as_str(),
            cat2("Current: ", level.as_str()).as_str(),
            CommandIcon::Thinking,
            chinese,
        ),
    );
    options.push(
        builtin(
            SlashCommand::AddAttachment,
            "image",
            "添加附件",
            "Add attachment",
            "从本机选择文件或文件夹作为附件",
            "Attach files or folders from this Mac",
            CommandIcon::File,
            chinese,
        ),
    );
    proof {
        assert(views(options@) =~= fixed_options(level, chinese));
    }
    options
}

/// The row of a command that the agent reported.
pub open spec fn dynamic_option(command: CommandInfoView) -> OptionView {
    OptionView {
        command: CommandView::SubmitDynamic(command.name),
        trigger: "/"@ + command.name,
        title: command.name,
        detail: if command.description.len() == 0 {
            command.source
        } else {
            command.source + " · "@ + command.description
        },
        icon: CommandIcon::Message,
        keywords: seq![command.source],
    }
}

fn dynamic_row(command: &SlashCommandInfo) -> (r: SlashCommandOption)
    ensures
        r@ == dynamic_option(command@),
{
    let mut keywords: Vec<String> = Vec::new();
    keywords.push(command.source.clone());
    proof {
        assert(views(keywords@) =~= seq![command.source@]);
    }
    SlashCommandOption {
        command: SlashCommand::SubmitDynamic(command.name.clone()),
        trigger: cat2("/", command.name.as_str()),
        title: command.name.clone(),
        detail: if command.description.as_str().is_empty() {
            command.source.clone()
        } else {
            cat3(command.source.as_str(), " · ", command.description.as_str())
        },
        icon: CommandIcon::Message,
        keywords,
    }
}

/// The row that stops the turn in flight.
pub open spec fn stop_option(chinese: bool) -> OptionView {
    builtin_option(
        CommandView::Stop,
        "stop"@,
        "停止"@,
        "Stop"@,
        "停止当前响应"@,
        "Stop the current response"@,
        CommandIcon::Stop,
        chinese,
    )
}

/// Every row: the fixed ones, those that the agent reported, and a way to stop
/// while there is something to stop.
pub open spec fn all_options(state: AppState, chinese: bool) -> Seq<OptionView> {
    fixed_options(state.thinking_level, chinese) + views(state.available_commands@).map_values(
        |command: CommandInfoView| dynamic_option(command),
    ) + (if state.session_status is Streaming || state.session_status is Compacting {
        seq![stop_option(chinese)]
    } else {
        Seq::empty()
    })
}

/// Every row.
pub fn primary_options(state: &AppState, chinese: bool) -> (r: Vec<SlashCommandOption>)
    ensures
        views(r@) == all_options(*state, chinese),
{
    let mut options = fixed_rows(state.thinking_level, chinese);
    let ghost fixed = fixed_options(state.thinking_level, chinese);
    let ghost rows = views(state.available_commands@).map_values(
        |command: CommandInfoView| dynamic_option(command),
    );
    let mut i: usize = 0;
    proof {
        assert(fixed + rows.take(0) =~= fixed);
    }
    while i < state.available_commands.len()
        invariant
            i <= state.available_commands@.len(),
            rows == views(state.available_commands@).map_values(
                |command: CommandInfoView| dynamic_option(command),
            ),
            views(options@) == fixed + rows.take(i as int),
        decreases state.available_commands@.len() - i,
    {
        let row = dynamic_row(&state.available_commands[i]);
        proof {
            lemma_views_push(options@, row);
            assert(rows[i as int] == row@);
            assert(fixed + rows.take(i + 1) =~= (fixed + rows.take(i as int)).push(row@));
        }
        options.push(row);
        i = i + 1;
    }
    proof {
        assert(rows.take(i as int) =~= rows);
    }
    let busy = match state.session_status {
        SessionStatus::Streaming => true,
        SessionStatus::Compacting => true,
        _ => false,
    };
    if busy {
        let row = builtin(
            SlashCommand::Stop,
            "stop",
            "停止",
            "Stop",
            "停止当前响应",
            "Stop the current response",
            CommandIcon::Stop,
            chinese,
        );
        proof {
            lemma_views_push(options@, row);
        }
        options.push(row);
    }
    proof {
        assert(views(options@) =~= all_options(*state, chinese));
    }
    options
}

/// Whether a list of rows has one that stops the response.
pub open spec fn offers_stop(rows: Seq<OptionView>) -> bool {
    exists|i: int| 0 <= i < rows.len() && (#[trigger] rows[i]).command is Stop
}

/// Stopping is on offer exactly while there is a response to stop.
pub proof fn lemma_stop_is_offered_while_at_work(state: AppState, chinese: bool)
    ensures
        offers_stop(all_options(state, chinese)) <==> state.session_status is Streaming
            || state.session_status is Compacting,
{
    let fixed = fixed_options(state.thinking_level, chinese);
    let dynamic = views(state.available_commands@).map_values(
        |command: CommandInfoView| dynamic_option(command),
    );
    let all = all_options(state, chinese);
    assert(fixed.len() == 14);
    if state.session_status is Streaming || state.session_status is Compacting {
        assert(all[all.len() - 1].command is Stop);
    } else {
        assert forall|i: int| 0 <= i < all.len() implies !((#[trigger] all[i]).command is Stop) by {
            if i < fixed.len() {
                assert(all[i] == fixed[i]);
            } else {
                assert(all[i] == dynamic[i - fixed.len()]);
            }
        }
    }
}

/// What was typed behind a command: the trimmed rest, where the command is
/// followed by white space.
pub open spec fn argument_of(query: Seq<char>, command: Seq<char>) -> Option<Seq<char>> {
    if has_prefix(query, command) && command.len() < query.len() && is_white_space(
        query[command.len() as int],
    ) {
        Some(trim(query.skip(command.len() as int)))
    } else {
        None
    }
}

/// What was typed behind a command.
pub fn command_argument(query: &str, command: &str) -> (r: Option<String>)
    ensures
        opt_view(r) == argument_of(query@, command@),
{
    match strip_prefix(query, command) {
        Some(rest) => {
            let chars = chars_of(rest.as_str());
            if chars.len() > 0 && white_space(chars[0]) {
                Some(trimmed(rest.as_str()))
            } else {
                None
            }
        },
        None => None,
    }
}

/// What was typed behind one of two names of a command.
pub open spec fn argument_of_either(query: Seq<char>, first: Seq<char>, second: Seq<char>) -> Option<
    Seq<char>,
> {
    match argument_of(query, first) {
        Some(argument) => Some(argument),
        None => argument_of(query, second),
    }
}

/// What was typed behind one of two names of a command.
pub fn command_argument_any(query: &str, first: &str, second: &str) -> (r: Option<String>)
    ensures
        opt_view(r) == argument_of_either(query@, first@, second@),
{
    match command_argument(query, first) {
        Some(argument) => Some(argument),
        None => command_argument(query, second),
    }
}

/// Whether a model is found by a lower-case query.
pub open spec fn model_mentions(model: ModelView, query: Seq<char>) -> bool {
    ||| query.len() == 0
    ||| mentions(model.name, query)
    ||| mentions(model.id, query)
    ||| mentions(model.provider_name, query)
}

/// Whether a model is found by a lower-case query.
pub fn model_found(model: &ModelOption, query: &str) -> (r: bool)
    ensures
        r == model_mentions(model@, query@),
{
    query.is_empty() || mentions_text(model.name.as_str(), query) || mentions_text(
        model.id.as_str(),
        query,
    ) || mentions_text(model.provider_name.as_str(), query)
}

/// The row of a model.
pub open spec fn model_row(model: ModelView, chinese: bool) -> OptionView {
    OptionView {
        command: CommandView::SetModel(model),
        trigger: "/model"@,
        title: model.name,
        detail: if model.name == model.id {
            model.provider_name
        } else {
            model.provider_name + " · "@ + model.id
        },
        icon: CommandIcon::Model,
        keywords: seq!["model"@, "模型"@, in_language(chinese, "选择"@, "select"@)],
    }
}

/// The row of a model, where the query finds it.
pub open spec fn found_model_row(model: ModelView, query: Seq<char>, chinese: bool) -> Option<
    OptionView,
> {
    if model_mentions(model, query) {
        Some(model_row(model, chinese))
    } else {
        None
    }
}

/// The rows of the models that are found by what was typed.
pub open spec fn model_rows(models: Seq<ModelView>, typed: Seq<char>, chinese: bool) -> Seq<
    OptionView,
> {
    keep_map(models, |model: ModelView| found_model_row(model, lowercase(typed), chinese))
}

fn model_option_row(model: &ModelOption, chinese: bool) -> (r: SlashCommandOption)
    ensures
        r@ == model_row(model@, chinese),
{
    let mut keywords: Vec<String> = Vec::new();
    keywords.push("model".to_owned());
    keywords.push("模型".to_owned());
    keywords.push(text(chinese, "选择", "select"));
    let row = SlashCommandOption {
        command: SlashCommand::SetModel(model.duplicate()),
        trigger: "/model".to_owned(),
        title: model.name.clone(),
        detail: if same(model.name.as_str(), model.id.as_str()) {
            model.provider_name.clone()
        } else {
            cat3(model.provider_name.as_str(), " · ", model.id.as_str())
        },
        icon: CommandIcon::Model,
        keywords,
    };
    proof {
        assert(row@.keywords =~= model_row(model@, chinese).keywords);
    }
    row
}

/// The rows of the models that are found by what was typed.
pub fn model_options(state: &AppState, query: &str, chinese: bool) -> (r: Vec<SlashCommandOption>)
    ensures
        views(r@) == model_rows(views(state.available_models@), query@, chinese),
{
    let query = lowered(query);
    let ghost all = views(state.available_models@);
    let ghost f = |model: ModelView| found_model_row(model, query@, chinese);
    let mut rows: Vec<SlashCommandOption> = Vec::new();
    let mut i: usize = 0;
    proof {
        assert(all.take(0) =~= Seq::empty());
        assert(views(rows@) =~= Seq::empty());
    }
    while i < state.available_models.len()
        invariant
            i <= state.available_models@.len(),
            all == views(state.available_models@),
            f == (|model: ModelView| found_model_row(model, query@, chinese)),
            views(rows@) == keep_map(all.take(i as int), f),
        decreases state.available_models@.len() - i,
    {
        proof {
            lemma_keep_map_step(all, f, i as int);
        }
        if model_found(&state.available_models[i], query.as_str()) {
            let row = model_option_row(&state.available_models[i], chinese);
            proof {
                lemma_views_push(rows@, row);
            }
            rows.push(row);
        }
        i = i + 1;
    }
    proof {
        assert(all.take(i as int) =~= all);
    }
    rows
}

/// The row of a thinking level.
pub open spec fn thinking_row(level: ThinkingLevel, current: ThinkingLevel, chinese: bool) -> OptionView {
    OptionView {
        command: CommandView::SetThinkingLevel(level),
        trigger: "/thinking"@,
        title: level.name(),
        detail: if level == current {
            in_language(chinese, "当前思考深度"@, "Current thinking level"@)
        } else {
            in_language(chinese, "切换思考深度"@, "Use this thinking level"@)
        },
        icon: CommandIcon::Thinking,
        keywords: seq!["thinking"@, "reasoning"@, "思考"@, "深度"@],
    }
}

/// The row of a thinking level, where the query finds it.
pub open spec fn found_thinking_row(
    level: ThinkingLevel,
    query: Seq<char>,
    current: ThinkingLevel,
    chinese: bool,
) -> Option<OptionView> {
    if query.len() == 0 || occurs(level.name(), query) {
        Some(thinking_row(level, current, chinese))
    } else {
        None
    }
}

/// The rows of the thinking levels that are found by what was typed.
pub open spec fn thinking_rows(
    levels: Seq<ThinkingLevel>,
    typed: Seq<char>,
    current: ThinkingLevel,
    chinese: bool,
) -> Seq<OptionView> {
    keep_map(
        levels,
        |level: ThinkingLevel| found_thinking_row(level, lowercase(typed), current, chinese),
    )
}

/// The rows of the thinking levels that are found by what was typed.
pub fn thinking_options(state: &AppState, query: &str, chinese: bool) -> (r: Vec<
    SlashCommandOption,
>)
    ensures
        views(r@) == thinking_rows(
            state.available_thinking_levels@,
            query@,
            state.thinking_level,
            chinese,
        ),
{
    let query = lowered(query);
    let current = state.thinking_level;
    let ghost all = state.available_thinking_levels@;
    let ghost f = |level: ThinkingLevel| found_thinking_row(level, query@, current, chinese);
    let mut rows: Vec<SlashCommandOption> = Vec::new();
    let mut i: usize = 0;
    proof {
        assert(all.take(0) =~= Seq::empty());
        assert(views(rows@) =~= Seq::empty());
    }
    while i < state.available_thinking_levels.len()
        invariant
            i <= all.len(),
            all == state.available_thinking_levels@,
            current == state.thinking_level,
            f == (|level: ThinkingLevel| found_thinking_row(level, query@, current, chinese)),
            views(rows@) == keep_map(all.take(i as int), f),
        decreases all.len() - i,
    {
        proof {
            lemma_keep_map_step(all, f, i as int);
        }
        let level = state.available_thinking_levels[i];
        if query.as_str().is_empty() || text_contains(level.as_str(), query.as_str()) {
            let mut keywords: Vec<String> = Vec::new();
            keywords.push("thinking".to_owned());
            keywords.push("reasoning".to_owned());
            keywords.push("思考".to_owned());
            keywords.push("深度".to_owned());
            let row = SlashCommandOption {
                command: SlashCommand::SetThinkingLevel(level),
                trigger: "/thinking".to_owned(),
                title: level.as_str().to_owned(),
                detail: if level == current {
                    text(chinese, "当前思考深度", "Current thinking level")
                } else {
                    text(chinese, "切换思考深度", "Use this thinking level")
                },
                icon: CommandIcon::Thinking,
                keywords,
            };
            proof {
                assert(row@.keywords =~= thinking_row(level, current, chinese).keywords);
                lemma_views_push(rows@, row);
            }
            rows.push(row);
        }
        i = i + 1;
    }
    proof {
        assert(all.take(i as int) =~= all);
    }
    rows
}

/// The most characters of a prompt that its row shows.
pub const FORK_PREVIEW_CHARS: usize = 80;

/// The row of a prompt that a fork can start from.
pub open spec fn fork_row(message: ItemView, chinese: bool) -> OptionView {
    OptionView {
        command: CommandView::Fork(message.id),
        trigger: "/fork"@,
        title: first_chars(message.full_text, FORK_PREVIEW_CHARS as nat),
        detail: in_language(chinese, "从这条用户消息分叉"@, "Fork from this user message"@),
        icon: CommandIcon::Message,
        keywords: seq!["fork"@, "分叉"@],
    }
}

/// The row of a prompt, where the query finds it.
pub open spec fn found_fork_row(message: ItemView, query: Seq<char>, chinese: bool) -> Option<
    OptionView,
> {
    if message.role == ConversationRole::User && (query.len() == 0 || mentions(
        message.full_text,
        query,
    )) {
        Some(fork_row(message, chinese))
    } else {
        None
    }
}

/// The rows of the prompts that are found by what was typed.
pub open spec fn fork_rows(conversation: Seq<ItemView>, typed: Seq<char>, chinese: bool) -> Seq<
    OptionView,
> {
    keep_map(conversation, |message: ItemView| found_fork_row(message, lowercase(typed), chinese))
}

/// The rows of the prompts that are found by what was typed.
pub fn fork_options(state: &AppState, query: &str, chinese: bool) -> (r: Vec<SlashCommandOption>)
    ensures
        views(r@) == fork_rows(views(state.conversation@), query@, chinese),
{
    let query = lowered(query);
    let ghost all = views(state.conversation@);
    let ghost f = |message: ItemView| found_fork_row(message, query@, chinese);
    let mut rows: Vec<SlashCommandOption> = Vec::new();
    let mut i: usize = 0;
    proof {
        assert(all.take(0) =~= Seq::empty());
        assert(views(rows@) =~= Seq::empty());
    }
    while i < state.conversation.len()
        invariant
            i <= state.conversation@.len(),
            all == views(state.conversation@),
            f == (|message: ItemView| found_fork_row(message, query@, chinese)),
            views(rows@) == keep_map(all.take(i as int), f),
        decreases state.conversation@.len() - i,
    {
        proof {
            lemma_keep_map_step(all, f, i as int);
        }
        let message = &state.conversation[i];
        if message.role == ConversationRole::User && (query.as_str().is_empty() || mentions_text(
            message.full_text.as_str(),
            query.as_str(),
        )) {
            let mut keywords: Vec<String> = Vec::new();
            keywords.push("fork".to_owned());
            keywords.push("分叉".to_owned());
            let row = SlashCommandOption {
                command: SlashCommand::Fork(message.id.clone()),
                trigger: "/fork".to_owned(),
                title: take_chars(message.full_text.as_str(), FORK_PREVIEW_CHARS),
                detail: text(chinese, "从这条用户消息分叉", "Fork from this user message"),
                icon: CommandIcon::Message,
                keywords,
            };
            proof {
                assert(row@.keywords =~= fork_row(message@, chinese).keywords);
                lemma_views_push(rows@, row);
            }
            rows.push(row);
        }
        i = i + 1;
    }
    proof {
        assert(all.take(i as int) =~= all);
    }
    rows
}

/// The one row of a command that was typed with its argument.
pub open spec fn direct_row(
    command: CommandView,
    trigger: Seq<char>,
    title: Seq<char>,
    argument: Seq<char>,
    icon: CommandIcon,
) -> OptionView {
    OptionView {
        command,
        trigger,
        title,
        detail: if argument.len() == 0 {
            trigger
        } else {
            argument
        },
        icon,
        keywords: seq![trigger],
    }
}

fn direct_option(
    command: SlashCommand,
    trigger: &str,
    title: String,
    detail: &str,
    icon: CommandIcon,
) -> (r: Vec<SlashCommandOption>)
    ensures
        views(r@) == seq![direct_row(command@, trigger@, title@, detail@, icon)],
{
    let mut keywords: Vec<String> = Vec::new();
    keywords.push(trigger.to_owned());
    let row = SlashCommandOption {
        command,
        trigger: trigger.to_owned(),
        title,
        detail: if detail.is_empty() {
            trigger.to_owned()
        } else {
            detail.to_owned()
        },
        icon,
        keywords,
    };
    let ghost want = direct_row(command@, trigger@, title@, detail@, icon);
    proof {
        assert(row@.keywords =~= want.keywords);
    }
    let mut rows: Vec<SlashCommandOption> = Vec::new();
    rows.push(row);
    proof {
        assert(views(rows@) =~= seq![want]);
    }
    rows
}

/// An argument, where there is one.
pub open spec fn non_empty(argument: Seq<char>) -> Option<Seq<char>> {
    if argument.len() == 0 {
        None
    } else {
        Some(argument)
    }
}

fn some_text(argument: &str) -> (r: Option<String>)
    ensures
        opt_view(r) == non_empty(argument@),
{
    if argument.is_empty() {
        None
    } else {
        Some(argument.to_owned())
    }
}

/// Whether a text holds a line break.
pub open spec fn has_line_break(s: Seq<char>) -> bool {
    exists|i: int| 0 <= i < s.len() && (#[trigger] s[i] == '\n' || s[i] == '\r')
}

fn line_break_in(chars: &Vec<char>) -> (r: bool)
    ensures
        r == has_line_break(chars@),
{
    let mut i: usize = 0;
    while i < chars.len()
        invariant
            i <= chars@.len(),
            forall|k: int| 0 <= k < i ==> #[trigger] chars@[k] != '\n' && chars@[k] != '\r',
        decreases chars@.len() - i,
    {
        if chars[i] == '\n' || chars[i] == '\r' {
            return true;
        }
        i = i + 1;
    }
    false
}

/// Whether what was typed is a reported command with something behind it, which
/// is left to be sent as it is.
pub open spec fn is_dynamic_call(commands: Seq<CommandInfoView>, query: Seq<char>) -> bool {
    exists|i: int|
        0 <= i < commands.len() && argument_of(query, (#[trigger] commands[i]).name) is Some
}

fn calls_dynamic(commands: &Vec<SlashCommandInfo>, query: &str) -> (r: bool)
    ensures
        r == is_dynamic_call(views(commands@), query@),
{
    let ghost all = views(commands@);
    let mut i: usize = 0;
    while i < commands.len()
        invariant
            i <= commands@.len(),
            all == views(commands@),
            forall|k: int|
                0 <= k < i ==> argument_of(query@, (#[trigger] all[k]).name) is None,
        decreases commands@.len() - i,
    {
        if command_argument(query, commands[i].name.as_str()).is_some() {
            proof {
                assert(argument_of(query@, all[i as int].name) is Some);
            }
            return true;
        }
        i = i + 1;
    }
    false
}

/// The rows for what was typed behind the slash.
pub open spec fn query_options(state: AppState, query: Seq<char>) -> Option<Seq<OptionView>> {
    let chinese = state.language == Language::SimplifiedChinese;
    if let Some(model) = argument_of_either(query, "model"@, "模型"@) {
        Some(model_rows(views(state.available_models@), model, chinese))
    } else if let Some(level) = argument_of_either(query, "thinking"@, "思考"@) {
        Some(
            thinking_rows(
                state.available_thinking_levels@,
                level,
                state.thinking_level,
                chinese,
            ),
        )
    } else if let Some(name) = argument_of(query, "name"@) {
        Some(
            seq![
                direct_row(
                    CommandView::NameSession(non_empty(name)),
                    "/name"@,
                    in_language(chinese, "设置会话名称"@, "Set session name"@),
                    name,
                    CommandIcon::Message,
                ),
            ],
        )
    } else if let Some(path) = argument_of(query, "export"@) {
        Some(
            seq![
                direct_row(
                    CommandView::Export(non_empty(path)),
                    "/export"@,
                    in_language(chinese, "导出会话"@, "Export session"@),
                    path,
                    CommandIcon::Copy,
                ),
            ],
        )
    } else if let Some(fork) = argument_of(query, "fork"@) {
        Some(fork_rows(views(state.conversation@), fork, chinese))
    } else if is_dynamic_call(views(state.available_commands@), query) {
        None
    } else {
        Some(all_options(state, chinese).filter(|option: OptionView| option_matches(option, query)))
    }
}

/// The rows for what is in the composer, where it starts with a slash and is one
/// line.
pub open spec fn palette(state: AppState, composer: Seq<char>) -> Option<Seq<OptionView>> {
    if !has_prefix(composer, "/"@) || has_line_break(composer.skip(1)) {
        None
    } else {
        query_options(state, trim_start(composer.skip(1)))
    }
}

/// What an optional list of rows holds.
pub open spec fn opt_rows(rows: Option<Vec<SlashCommandOption>>) -> Option<Seq<OptionView>> {
    match rows {
        Some(rows) => Some(views(rows@)),
        None => None,
    }
}

/// The rows that match what was typed.
fn matching_rows(rows: Vec<SlashCommandOption>, query: &str) -> (r: Vec<SlashCommandOption>)
    ensures
        views(r@) == views(rows@).filter(|option: OptionView| option_matches(option, query@)),
        trim(query@).len() == 0 ==> views(r@) == views(rows@),
{
    let ghost all = views(rows@);
    let ghost f = |option: OptionView| option_matches(option, query@);
    let n: usize = rows.len();
    let mut rows = rows;
    let mut i: usize = 0;
    let mut done: usize = 0;
    proof {
        lemma_filter_none(all, f);
        assert(views(rows@).take(0) =~= Seq::empty());
        assert(views(rows@).skip(0) =~= all.skip(0));
    }
    while done < n
        invariant
            n == all.len(),
            i <= done <= n,
            f == (|option: OptionView| option_matches(option, query@)),
            rows@.len() == i + (n - done),
            views(rows@).take(i as int) == all.take(done as int).filter(f),
            views(rows@).skip(i as int) == all.skip(done as int),
            trim(query@).len() == 0 ==> i == done && views(rows@) == all,
        decreases n - done,
    {
        let ghost here = views(rows@);
        proof {
            lemma_filter_step(all, f, done as int);
            assert(here[i as int] == here.skip(i as int)[0]);
            assert(all[done as int] == all.skip(done as int)[0]);
            assert(here[i as int] == rows@[i as int]@);
            assert(here.skip(i + 1) =~= here.skip(i as int).drop_first());
            assert(all.skip(done + 1) =~= all.skip(done as int).drop_first());
        }
        if rows[i].matches(query) {
            proof {
                assert(here.take(i + 1) =~= here.take(i as int).push(here[i as int]));
            }
            i = i + 1;
        } else {
            let _ = rows.remove(i);
            proof {
                assert(views(rows@) =~= here.remove(i as int));
                assert(views(rows@).take(i as int) =~= here.take(i as int));
                assert(views(rows@).skip(i as int) =~= here.skip(i + 1));
            }
        }
        done = done + 1;
    }
    proof {
        assert(all.take(done as int) =~= all);
        assert(views(rows@).take(i as int) =~= views(rows@));
    }
    rows
}

/// `chars` from the first that is not white space on.
fn skip_white_space(chars: &Vec<char>, from: usize) -> (r: String)
    requires
        from <= chars@.len(),
    ensures
        r@ == trim_start(chars@.skip(from as int)),
{
    let mut i: usize = from;
    while i < chars.len() && white_space(chars[i])
        invariant
            from <= i <= chars@.len(),
            trim_start(chars@.skip(from as int)) == trim_start(chars@.skip(i as int)),
        decreases chars@.len() - i,
    {
        proof {
            assert(chars@.skip(i as int).drop_first() =~= chars@.skip(i + 1));
        }
        i = i + 1;
    }
    let r = string_of(chars, i, chars.len());
    proof {
        assert(r@ =~= chars@.skip(i as int));
    }
    r
}

/// The rows for what is in the composer, where it starts with a slash and is one
/// line.
pub fn options(state: &AppState, composer: &str) -> (r: Option<Vec<SlashCommandOption>>)
    ensures
        opt_rows(r) == palette(*state, composer@),
        composer@ == "/"@ ==> opt_rows(r) == Some(
            all_options(*state, state.language == Language::SimplifiedChinese),
        ),
{
    proof {
        reveal_strlit("/");
        assert("/"@.subrange(0, 1) =~= "/"@);
    }
    let rest = match strip_prefix(composer, "/") {
        Some(rest) => rest,
        None => {
            return None;
        },
    };
    let chars = chars_of(rest.as_str());
    if line_break_in(&chars) {
        return None;
    }
    let query_text = skip_white_space(&chars, 0);
    proof {
        assert(chars@.skip(0) =~= chars@);
    }
    let query = query_text.as_str();
    let chinese = state.language == Language::SimplifiedChinese;
    if let Some(model) = command_argument_any(query, "model", "模型") {
        return Some(model_options(state, model.as_str(), chinese));
    }
    if let Some(level) = command_argument_any(query, "thinking", "思考") {
        return Some(thinking_options(state, level.as_str(), chinese));
    }
    if let Some(name) = command_argument(query, "name") {
        return Some(
            direct_option(
                SlashCommand::NameSession(some_text(name.as_str())),
                "/name",
                text(chinese, "设置会话名称", "Set session name"),
                name.as_str(),
                CommandIcon::Message,
            ),
        );
    }
    if let Some(path) = command_argument(query, "export") {
        return Some(
            direct_option(
                SlashCommand::Export(some_text(path.as_str())),
                "/export",
                text(chinese, "导出会话", "Export session"),
                path.as_str(),
                CommandIcon::Copy,
            ),
        );
    }
    if let Some(fork) = command_argument(query, "fork") {
        return Some(fork_options(state, fork.as_str(), chinese));
    }
    if calls_dynamic(&state.available_commands, query) {
        return None;
    }
    proof {
        reveal_strlit("model");
        reveal_strlit("模型");
        reveal_strlit("thinking");
        reveal_strlit("思考");
        reveal_strlit("name");
        reveal_strlit("export");
        reveal_strlit("fork");
        assert(trim(Seq::<char>::empty()) =~= Seq::<char>::empty());
        if composer@ == "/"@ {
            assert(query@ =~= Seq::<char>::empty());
        }
    }
    Some(matching_rows(primary_options(state, chinese), query))
}

/// What running a command leaves in the field, where it still takes an argument.
pub open spec fn prefilled(command: CommandView) -> Option<Seq<char>> {
    match command {
        CommandView::ChooseModel => Some("/model "@),
        CommandView::ChooseThinkingLevel => Some("/thinking "@),
        CommandView::ChooseFork => Some("/fork "@),
        CommandView::NameSession(None) => Some("/name "@),
        CommandView::SubmitDynamic(name) => Some("/"@ + name + " "@),
        _ => None,
    }
}

/// What running a command leaves in the field, where it still takes an argument.
pub fn prefill(command: &SlashCommand) -> (r: Option<String>)
    ensures
        opt_view(r) == prefilled(command@),
{
    match command {
        SlashCommand::ChooseModel => Some("/model ".to_owned()),
        SlashCommand::ChooseThinkingLevel => Some("/thinking ".to_owned()),
        SlashCommand::ChooseFork => Some("/fork ".to_owned()),
        SlashCommand::NameSession(name) => match name {
            Some(_) => None,
            None => Some("/name ".to_owned()),
        },
        SlashCommand::SubmitDynamic(name) => Some(cat3("/", name.as_str(), " ")),
        _ => None,
    }
}

} // verus!
