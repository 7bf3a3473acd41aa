//! What holds of the command palette.

use vstd::prelude::*;

use crate::domain::{
    AppState, CommandInfoView, ConversationRole, ItemView, Language, ModelView, ThinkingLevel,
};
use crate::laws::protocol::{lemma_kept_from, lemma_kept_item};
use crate::slash_commands::{
    all_options, argument_of, dynamic_option, fixed_options, fork_row, fork_rows, has_line_break,
    is_dynamic_call, model_row, model_rows, option_matches, palette, prefilled, query_options,
    stop_option, thinking_row, thinking_rows, CommandIcon, CommandView, OptionView,
};
use crate::text::{
    has_prefix, is_white_space, lemma_trim_start_cuts, lowercase, occurs, trim, trim_start,
};
use crate::views::{keep_map, views};

verus! {

/// Whether an option stands for a command, under a word and a title.
pub open spec fn is_entry(
    option: OptionView,
    command: CommandView,
    word: Seq<char>,
    title: Seq<char>,
    icon: CommandIcon,
) -> bool {
    &&& option.command == command
    &&& option.trigger == "/"@ + word
    &&& option.title == title
    &&& option.icon == icon
    &&& option.keywords.contains(word)
    &&& option.keywords.contains(title)
}

/// The commands that are always there stand under their own words and do what they
/// say, in either language.
pub proof fn lemma_fixed_commands(level: ThinkingLevel, chinese: bool)
    ensures
        fixed_options(level, chinese).len() == 14,
        is_entry(
            fixed_options(level, chinese)[0],
            CommandView::ChooseModel,
            "model"@,
            if chinese {
                "选择模型"@
            } else {
                "Select model"@
            },
            CommandIcon::Model,
        ),
        fixed_options(level, false)[0].detail == "Choose a provider and model"@,
        fixed_options(level, true)[0].detail == "选择供应商和模型"@,
        is_entry(
            fixed_options(level, chinese)[1],
            CommandView::Export(None),
            "export"@,
            if chinese {
                "导出会话"@
            } else {
                "Export session"@
            },
            CommandIcon::Copy,
        ),
        fixed_options(level, false)[1].detail == "Export as HTML or provide a path"@,
        fixed_options(level, true)[1].detail == "导出为 HTML；也可输入目标路径"@,
        is_entry(
            fixed_options(level, chinese)[2],
            CommandView::Share,
            "share"@,
            if chinese {
                "分享会话"@
            } else {
                "Share session"@
            },
            CommandIcon::Copy,
        ),
        fixed_options(level, false)[2].detail == "Create a secret GitHub Gist share link"@,
        fixed_options(level, true)[2].detail == "创建私密 GitHub Gist 分享链接"@,
        is_entry(
            fixed_options(level, chinese)[3],
            CommandView::CopyLastMessage,
            "copy"@,
            if chinese {
                "复制最后回复"@
            } else {
                "Copy last reply"@
            },
            CommandIcon::Copy,
        ),
        fixed_options(level, false)[3].detail == "Copy the last agent message"@,
        fixed_options(level, true)[3].detail == "复制最后一条 agent 汇报"@,
        is_entry(
            fixed_options(level, chinese)[4],
            CommandView::NameSession(None),
            "name"@,
            if chinese {
                "命名会话"@
            } else {
                "Name session"@
            },
            CommandIcon::Message,
        ),
        fixed_options(level, false)[4].detail == "Set the current session name"@,
        fixed_options(level, true)[4].detail == "设置当前会话名称"@,
        is_entry(
            fixed_options(level, chinese)[5],
            CommandView::ShowSessionInfo,
            "session"@,
            if chinese {
                "会话信息"@
            } else {
                "Session info"@
            },
            CommandIcon::Message,
        ),
        fixed_options(level, false)[5].detail == "Show current session statistics"@,
        fixed_options(level, true)[5].detail == "显示当前会话统计"@,
        is_entry(
            fixed_options(level, chinese)[6],
            CommandView::ShowChangelog,
            "changelog"@,
            if chinese {
                "更新日志"@
            } else {
                "Changelog"@
            },
            CommandIcon::Message,
        ),
        fixed_options(level, false)[6].detail == "View Pi changelog entries"@,
        fixed_options(level, true)[6].detail == "查看 Pi 更新日志"@,
        is_entry(
            fixed_options(level, chinese)[7],
            CommandView::ShowHotkeys,
            "hotkeys"@,
            if chinese {
                "快捷键"@
            } else {
                "Hotkeys"@
            },
            CommandIcon::Settings,
        ),
        fixed_options(level, false)[7].detail == "Show keyboard shortcuts"@,
        fixed_options(level, true)[7].detail == "显示键盘快捷键"@,
        is_entry(
            fixed_options(level, chinese)[8],
            CommandView::ChooseFork,
            "fork"@,
            if chinese {
                "分叉会话"@
            } else {
                "Fork session"@
            },
            CommandIcon::Message,
        ),
        fixed_options(level, false)[8].detail == "Fork from a previous user message"@,
        fixed_options(level, true)[8].detail == "从一条用户消息创建分支"@,
        is_entry(
            fixed_options(level, chinese)[9],
            CommandView::Clone,
            "clone"@,
            if chinese {
                "克隆会话"@
            } else {
                "Clone session"@
            },
            CommandIcon::Copy,
        ),
        fixed_options(level, false)[9].detail == "Duplicate the current session position"@,
        fixed_options(level, true)[9].detail == "复制当前会话位置"@,
        is_entry(
            fixed_options(level, chinese)[10],
            CommandView::NewSession,
            "new"@,
            if chinese {
                "新建会话"@
            } else {
                "New session"@
            },
            CommandIcon::Message,
        ),
        fixed_options(level, false)[10].detail == "Start a fresh session in this project"@,
        fixed_options(level, true)[10].detail == "在当前项目开始新会话"@,
        is_entry(
            fixed_options(level, chinese)[11],
            CommandView::Compact,
            "compact"@,
            if chinese {
                "压缩上下文"@
            } else {
                "Compact context"@
            },
            CommandIcon::Compact,
        ),
        fixed_options(level, false)[11].detail == "Compact the current session context"@,
        fixed_options(level, true)[11].detail == "立即压缩当前会话历史"@,
        is_entry(
            fixed_options(level, chinese)[12],
            CommandView::ChooseThinkingLevel,
            "thinking"@,
            if chinese {
                "思考深度"@
            } else {
                "Thinking level"@
            },
            CommandIcon::Thinking,
        ),
        fixed_options(level, false)[12].detail == "Current: "@ + level.name(),
        fixed_options(level, true)[12].detail == "当前: "@ + level.name(),
        is_entry(
            fixed_options(level, chinese)[13],
            CommandView::AddAttachment,
            "image"@,
            if chinese {
                "添加附件"@
            } else {
                "Add attachment"@
            },
            CommandIcon::File,
        ),
        fixed_options(level, false)[13].detail == "Attach files or folders from this Mac"@,
        fixed_options(level, true)[13].detail == "从本机选择文件或文件夹作为附件"@,
{
    let all = fixed_options(level, chinese);
    assert forall|i: int| 0 <= i < 14 implies (#[trigger] all[i]).keywords.contains(
        all[i].keywords[0],
    ) && all[i].keywords.contains(all[i].keywords[1]) && all[i].keywords.contains(
        all[i].keywords[2],
    ) by {
    }
}

/// A command of the agent is offered under its name, submits that name, and tells where
/// it comes from and what it says of itself. The stop is offered under its own word.
pub proof fn lemma_dynamic_commands(command: CommandInfoView, chinese: bool)
    ensures
        ({
            let option = dynamic_option(command);
            &&& option.command == CommandView::SubmitDynamic(command.name)
            &&& option.trigger == "/"@ + command.name
            &&& option.title == command.name
            &&& command.description.len() == 0 ==> option.detail == command.source
            &&& command.description.len() > 0 ==> option.detail == command.source + " · "@
                + command.description
            &&& option.icon == CommandIcon::Message
        }),
        is_entry(
            stop_option(chinese),
            CommandView::Stop,
            "stop"@,
            if chinese {
                "停止"@
            } else {
                "Stop"@
            },
            CommandIcon::Stop,
        ),
{
    let stop = stop_option(chinese);
    assert(stop.keywords.contains(stop.keywords[0]));
    assert(stop.keywords.contains(stop.keywords[1]));
    assert(stop.keywords.contains(stop.keywords[2]));
}

/// What is on offer are the fixed commands, then those of the agent in its order, then
/// the stop where there is something to stop.
pub proof fn lemma_what_is_on_offer(state: AppState, chinese: bool, i: int)
    ensures
        ({
            let all = all_options(state, chinese);
            let n = state.available_commands@.len();
            let works = state.session_status is Streaming || state.session_status is Compacting;
            &&& all.len() == 14 + n + (if works {
                1int
            } else {
                0
            })
            &&& 0 <= i < 14 ==> all[i] == fixed_options(state.thinking_level, chinese)[i]
            &&& 0 <= i < n ==> all[14 + i] == dynamic_option(state.available_commands@[i]@)
            &&& works ==> all.last() == stop_option(chinese)
        }),
{
}

/// What is typed behind a command and white space is its argument, without white space
/// around it. Without white space behind the command there is none.
pub proof fn lemma_arguments_are_read(command: Seq<char>, c: char, rest: Seq<char>, query: Seq<char>)
    ensures
        is_white_space(c) ==> argument_of(command.push(c) + rest, command) == Some(
            trim(seq![c] + rest),
        ),
        !is_white_space(c) ==> argument_of(command.push(c) + rest, command) is None,
        argument_of(command, command) is None,
        !has_prefix(query, command) ==> argument_of(query, command) is None,
{
    let all = command.push(c) + rest;
    assert(all.subrange(0, command.len() as int) =~= command);
    assert(all[command.len() as int] == c);
    assert(all.skip(command.len() as int) =~= seq![c] + rest);
}

/// The palette opens on a text that starts with a slash and has no line break. White
/// space behind the slash does not count.
pub proof fn lemma_when_the_palette_opens(state: AppState, composer: Seq<char>, query: Seq<char>)
    ensures
        composer.len() == 0 || composer[0] != '/' ==> palette(state, composer) is None,
        composer.len() > 0 && composer[0] == '/' && (exists|i: int|
            0 < i < composer.len() && (#[trigger] composer[i] == '\n' || composer[i] == '\r'))
            ==> palette(state, composer) is None,
        has_line_break(query) ==> palette(state, "/"@ + query) is None,
        !has_line_break(query) && (query.len() > 0 ==> !is_white_space(query[0])) ==> palette(
            state,
            "/"@ + query,
        ) == query_options(state, query),
        !has_line_break(query) ==> palette(state, "/"@ + query) == palette(
            state,
            "/"@ + trim_start(query),
        ),
{
    reveal_strlit("/");
    if composer.len() > 0 && composer[0] == '/' {
        if exists|i: int|
            0 < i < composer.len() && (#[trigger] composer[i] == '\n' || composer[i] == '\r') {
            let i = choose|i: int|
                0 < i < composer.len() && (#[trigger] composer[i] == '\n' || composer[i] == '\r');
            let behind = composer.skip(1);
            assert(behind[i - 1] == composer[i]);
            assert(has_line_break(behind));
        }
    } else if composer.len() > 0 {
        assert(composer.subrange(0, 1)[0] == composer[0]);
    }
    let all = "/"@ + query;
    assert(all.subrange(0, 1) =~= "/"@);
    assert(all.skip(1) =~= query);
    let cut = trim_start(query);
    let short = "/"@ + cut;
    assert(short.subrange(0, 1) =~= "/"@);
    assert(short.skip(1) =~= cut);
    lemma_trim_start_cuts(query);
    if has_line_break(cut) {
        let i = choose|i: int| 0 <= i < cut.len() && (#[trigger] cut[i] == '\n' || cut[i] == '\r');
        let j = query.len() - cut.len() + i;
        assert(query[j] == cut[i]);
        assert(has_line_break(query));
    }
}

/// Whether something that an option says holds a text, in small letters.
pub open spec fn says(option: OptionView, text: Seq<char>) -> bool {
    ||| occurs(lowercase(option.trigger), text)
    ||| occurs(lowercase(option.title), text)
    ||| occurs(lowercase(option.detail), text)
    ||| exists|i: int|
        0 <= i < option.keywords.len() && occurs(lowercase(#[trigger] option.keywords[i]), text)
}

/// An option is found by anything that it says, whatever the case of the letters; a
/// blank query finds all where its small letters are none.
pub proof fn lemma_options_are_found(option: OptionView, typed: Seq<char>)
    ensures
        option_matches(option, typed) <==> lowercase(trim(typed)).len() == 0 || says(
            option,
            lowercase(trim(typed)),
        ),
{
    let query = lowercase(trim(typed));
    if says(option, query) && !(occurs(lowercase(option.trigger), query) || occurs(
        lowercase(option.title),
        query,
    ) || occurs(lowercase(option.detail), query)) {
        let i = choose|i: int|
            0 <= i < option.keywords.len() && occurs(lowercase(#[trigger] option.keywords[i]), query);
        assert(crate::slash_commands::mentions(option.keywords[i], query));
    }
    if option_matches(option, typed) && !says(option, query) && query.len() > 0 {
        let i = choose|i: int|
            0 <= i < option.keywords.len() && crate::slash_commands::mentions(
                #[trigger] option.keywords[i],
                query,
            );
        assert(occurs(lowercase(option.keywords[i]), query));
    }
}

/// A query that is no call of a command with an argument shows the options that it
/// finds, all of them and no others.
pub proof fn lemma_options_are_filtered(state: AppState, query: Seq<char>, option: OptionView)
    requires
        argument_of(query, "model"@) is None,
        argument_of(query, "模型"@) is None,
        argument_of(query, "thinking"@) is None,
        argument_of(query, "思考"@) is None,
        argument_of(query, "name"@) is None,
        argument_of(query, "export"@) is None,
        argument_of(query, "fork"@) is None,
        forall|i: int|
            0 <= i < state.available_commands@.len() ==> argument_of(
                query,
                (#[trigger] state.available_commands@[i])@.name,
            ) is None,
    ensures
        query_options(state, query) is Some,
        ({
            let chinese = state.language == Language::SimplifiedChinese;
            query_options(state, query)->0.contains(option) <==> all_options(
                state,
                chinese,
            ).contains(option) && option_matches(option, query)
        }),
{
    let chinese = state.language == Language::SimplifiedChinese;
    let commands = views(state.available_commands@);
    assert forall|i: int| 0 <= i < commands.len() implies argument_of(
        query,
        (#[trigger] commands[i]).name,
    ) is None by {
        assert(commands[i] == state.available_commands@[i]@);
    }
    assert(!is_dynamic_call(commands, query));
    let all = all_options(state, chinese);
    let f = |option: OptionView| option_matches(option, query);
    let kept = all.filter(f);
    all.filter_lemma(f);
    if kept.contains(option) {
        let i = choose|i: int| 0 <= i < kept.len() && kept[i] == option;
        assert(f(kept[i]));
        all.lemma_filter_contains_rev(f, option);
    }
    if all.contains(option) && f(option) {
        let i = choose|i: int| 0 <= i < all.len() && all[i] == option;
        assert(f(all[i]));
        assert(kept.contains(all[i]));
    }
}

/// A call of a command of the agent with an argument is left to the agent.
pub proof fn lemma_agent_calls_are_left(state: AppState, query: Seq<char>, i: int)
    requires
        0 <= i < state.available_commands@.len(),
        argument_of(query, state.available_commands@[i]@.name) is Some,
        argument_of(query, "model"@) is None,
        argument_of(query, "模型"@) is None,
        argument_of(query, "thinking"@) is None,
        argument_of(query, "思考"@) is None,
        argument_of(query, "name"@) is None,
        argument_of(query, "export"@) is None,
        argument_of(query, "fork"@) is None,
    ensures
        query_options(state, query) is None,
{
    let commands = views(state.available_commands@);
    assert(commands[i] == state.available_commands@[i]@);
    assert(is_dynamic_call(commands, query));
}

proof fn lemma_words_of_commands()
    ensures
        "model"@.len() == 5 && "model"@[0] == 'm',
        "模型"@.len() == 2 && "模型"@[0] == '模',
        "thinking"@.len() == 8 && "thinking"@[0] == 't',
        "思考"@.len() == 2 && "思考"@[0] == '思',
        "name"@.len() == 4 && "name"@[0] == 'n',
        "export"@.len() == 6 && "export"@[0] == 'e',
        "fork"@.len() == 4 && "fork"@[0] == 'f',
{
    reveal_strlit("model");
    reveal_strlit("模型");
    reveal_strlit("thinking");
    reveal_strlit("思考");
    reveal_strlit("name");
    reveal_strlit("export");
    reveal_strlit("fork");
}

proof fn lemma_starts_otherwise(query: Seq<char>, command: Seq<char>)
    requires
        command.len() > 0,
        query.len() == 0 || query[0] != command[0],
    ensures
        argument_of(query, command) is None,
{
    if has_prefix(query, command) {
        assert(query.subrange(0, command.len() as int)[0] == query[0]);
    }
}

/// What is typed behind `model`, `thinking` and `fork` picks among the models, the
/// levels and the messages; what is typed behind `name` and `export` is the name and the
/// path.
pub proof fn lemma_calls_with_arguments(state: AppState, query: Seq<char>, argument: Seq<char>)
    ensures
        ({
            let chinese = state.language == Language::SimplifiedChinese;
            let shown = query_options(state, query);
            &&& argument_of(query, "model"@) == Some(argument) || argument_of(query, "模型"@)
                == Some(argument) ==> shown == Some(
                model_rows(views(state.available_models@), argument, chinese),
            )
            &&& argument_of(query, "thinking"@) == Some(argument) || argument_of(query, "思考"@)
                == Some(argument) ==> shown == Some(
                thinking_rows(
                    state.available_thinking_levels@,
                    argument,
                    state.thinking_level,
                    chinese,
                ),
            )
            &&& argument_of(query, "fork"@) == Some(argument) ==> shown == Some(
                fork_rows(views(state.conversation@), argument, chinese),
            )
            &&& argument_of(query, "name"@) == Some(argument) ==> shown is Some && shown->0.len()
                == 1 && shown->0[0].trigger == "/name"@ && shown->0[0].command
                == CommandView::NameSession(
                if argument.len() == 0 {
                    None
                } else {
                    Some(argument)
                },
            )
            &&& argument_of(query, "export"@) == Some(argument) ==> shown is Some
                && shown->0.len() == 1 && shown->0[0].trigger == "/export"@ && shown->0[0].command
                == CommandView::Export(
                if argument.len() == 0 {
                    None
                } else {
                    Some(argument)
                },
            )
        }),
{
    lemma_words_of_commands();
    let c = query[0];
    if query.len() > 0 {
        if c != 'm' {
            lemma_starts_otherwise(query, "model"@);
        }
        if c != '模' {
            lemma_starts_otherwise(query, "模型"@);
        }
        if c != 't' {
            lemma_starts_otherwise(query, "thinking"@);
        }
        if c != '思' {
            lemma_starts_otherwise(query, "思考"@);
        }
        if c != 'n' {
            lemma_starts_otherwise(query, "name"@);
        }
        if c != 'e' {
            lemma_starts_otherwise(query, "export"@);
        }
        if c != 'f' {
            lemma_starts_otherwise(query, "fork"@);
        }
    }
}

/// Whether a model is looked for by a text.
pub open spec fn is_looked_for(model: ModelView, typed: Seq<char>) -> bool {
    ||| lowercase(typed).len() == 0
    ||| occurs(lowercase(model.name), lowercase(typed))
    ||| occurs(lowercase(model.id), lowercase(typed))
    ||| occurs(lowercase(model.provider_name), lowercase(typed))
}

/// Every model that is looked for has a row that sets that model, under its name, and
/// every row is one of those.
pub proof fn lemma_model_rows(models: Seq<ModelView>, typed: Seq<char>, chinese: bool, i: int, k: int)
    ensures
        0 <= i < models.len() && is_looked_for(models[i], typed) ==> model_rows(
            models,
            typed,
            chinese,
        ).contains(model_row(models[i], chinese)),
        0 <= k < model_rows(models, typed, chinese).len() ==> exists|e: int|
            0 <= e < models.len() && is_looked_for(#[trigger] models[e], typed) && model_rows(
                models,
                typed,
                chinese,
            )[k] == model_row(models[e], chinese),
        0 <= i < models.len() ==> {
            let row = model_row(models[i], chinese);
            &&& row.command == CommandView::SetModel(models[i])
            &&& row.title == models[i].name
            &&& row.trigger == "/model"@
            &&& models[i].name == models[i].id ==> row.detail == models[i].provider_name
            &&& models[i].name != models[i].id ==> row.detail == models[i].provider_name + " · "@
                + models[i].id
        },
{
    let query = lowercase(typed);
    let f = |model: ModelView| crate::slash_commands::found_model_row(model, query, chinese);
    let rows = keep_map(models, f);
    assert(rows == model_rows(models, typed, chinese));
    if 0 <= i < models.len() && is_looked_for(models[i], typed) {
        lemma_kept_item(models, f, i);
        let n = choose|n: int| 0 <= n < rows.len() && #[trigger] rows[n] == f(models[i])->0;
        assert(rows[n] == model_row(models[i], chinese));
    }
    if 0 <= k < rows.len() {
        lemma_kept_from(models, f, k);
        let e = choose|e: int| 0 <= e < models.len() && #[trigger] f(models[e]) == Some(rows[k]);
        assert(is_looked_for(models[e], typed));
    }
}

/// Every level that is looked for has a row that sets that level, under its name, and
/// every row is one of those. The level in use is told from the others.
pub proof fn lemma_thinking_rows(
    levels: Seq<ThinkingLevel>,
    typed: Seq<char>,
    current: ThinkingLevel,
    chinese: bool,
    i: int,
    k: int,
)
    ensures
        0 <= i < levels.len() && (lowercase(typed).len() == 0 || occurs(
            levels[i].name(),
            lowercase(typed),
        )) ==> thinking_rows(levels, typed, current, chinese).contains(
            thinking_row(levels[i], current, chinese),
        ),
        0 <= k < thinking_rows(levels, typed, current, chinese).len() ==> exists|e: int|
            0 <= e < levels.len() && (lowercase(typed).len() == 0 || occurs(
                (#[trigger] levels[e]).name(),
                lowercase(typed),
            )) && thinking_rows(levels, typed, current, chinese)[k] == thinking_row(
                levels[e],
                current,
                chinese,
            ),
        0 <= i < levels.len() ==> {
            let row = thinking_row(levels[i], current, chinese);
            &&& row.command == CommandView::SetThinkingLevel(levels[i])
            &&& row.title == levels[i].name()
            &&& row.trigger == "/thinking"@
            &&& levels[i] == current && !chinese ==> row.detail == "Current thinking level"@
            &&& levels[i] != current && !chinese ==> row.detail == "Use this thinking level"@
            &&& levels[i] == current && chinese ==> row.detail == "当前思考深度"@
            &&& levels[i] != current && chinese ==> row.detail == "切换思考深度"@
        },
{
    let query = lowercase(typed);
    let f = |level: ThinkingLevel|
        crate::slash_commands::found_thinking_row(level, query, current, chinese);
    let rows = keep_map(levels, f);
    assert(rows == thinking_rows(levels, typed, current, chinese));
    if 0 <= i < levels.len() && f(levels[i]) is Some {
        lemma_kept_item(levels, f, i);
        let n = choose|n: int| 0 <= n < rows.len() && #[trigger] rows[n] == f(levels[i])->0;
        assert(rows[n] == thinking_row(levels[i], current, chinese));
    }
    if 0 <= k < rows.len() {
        lemma_kept_from(levels, f, k);
        let e = choose|e: int| 0 <= e < levels.len() && #[trigger] f(levels[e]) == Some(rows[k]);
        assert(query.len() == 0 || occurs(levels[e].name(), query));
    }
}

/// Every message of the reader that is looked for has a row that forks from it, with
/// the start of its text, and every row is one of those.
pub proof fn lemma_fork_rows(
    conversation: Seq<ItemView>,
    typed: Seq<char>,
    chinese: bool,
    i: int,
    k: int,
)
    ensures
        0 <= i < conversation.len() && conversation[i].role == ConversationRole::User && (lowercase(
            typed,
        ).len() == 0 || occurs(lowercase(conversation[i].full_text), lowercase(typed)))
            ==> fork_rows(conversation, typed, chinese).contains(
            fork_row(conversation[i], chinese),
        ),
        0 <= k < fork_rows(conversation, typed, chinese).len() ==> exists|e: int|
            0 <= e < conversation.len() && (#[trigger] conversation[e]).role
                == ConversationRole::User && fork_rows(conversation, typed, chinese)[k] == fork_row(
                conversation[e],
                chinese,
            ),
        0 <= i < conversation.len() ==> {
            let row = fork_row(conversation[i], chinese);
            &&& row.command == CommandView::Fork(conversation[i].id)
            &&& row.trigger == "/fork"@
            &&& row.title.len() <= conversation[i].full_text.len()
            &&& row.title == conversation[i].full_text.take(row.title.len() as int)
            &&& row.title.len() < conversation[i].full_text.len() ==> row.title.len() == 80
        },
{
    let query = lowercase(typed);
    let f = |message: ItemView| crate::slash_commands::found_fork_row(message, query, chinese);
    let rows = keep_map(conversation, f);
    assert(rows == fork_rows(conversation, typed, chinese));
    if 0 <= i < conversation.len() {
        let text = conversation[i].full_text;
        assert(text.take(text.len() as int) =~= text);
        if f(conversation[i]) is Some {
            lemma_kept_item(conversation, f, i);
            let n = choose|n: int|
                0 <= n < rows.len() && #[trigger] rows[n] == f(conversation[i])->0;
            assert(rows[n] == fork_row(conversation[i], chinese));
        }
    }
    if 0 <= k < rows.len() {
        lemma_kept_from(conversation, f, k);
        let e = choose|e: int|
            0 <= e < conversation.len() && #[trigger] f(conversation[e]) == Some(rows[k]);
        assert(conversation[e].role == ConversationRole::User);
    }
}

/// A command that still wants an argument writes its call into the composer, ready for
/// it; the others run at once.
pub proof fn lemma_calls_are_prefilled(command: CommandView)
    ensures
        prefilled(command) is Some <==> command is ChooseModel || command is ChooseThinkingLevel
            || command is ChooseFork || command == CommandView::NameSession(None)
            || command is SubmitDynamic,
        command is ChooseModel ==> prefilled(command) == Some("/model "@),
        command is ChooseThinkingLevel ==> prefilled(command) == Some("/thinking "@),
        command is ChooseFork ==> prefilled(command) == Some("/fork "@),
        command == CommandView::NameSession(None) ==> prefilled(command) == Some("/name "@),
        command matches CommandView::SubmitDynamic(name) ==> prefilled(command) == Some(
            "/"@ + name + " "@,
        ),
{
}

/// The words that a row is found by are those of what it does.
pub proof fn lemma_words_of_rows(
    model: ModelView,
    level: ThinkingLevel,
    current: ThinkingLevel,
    message: ItemView,
)
    ensures
        model_row(model, false).keywords == seq!["model"@, "模型"@, "select"@],
        model_row(model, true).keywords == seq!["model"@, "模型"@, "选择"@],
        model_row(model, true).icon == CommandIcon::Model,
        forall|chinese: bool| #[trigger]
            thinking_row(level, current, chinese).keywords == seq![
                "thinking"@,
                "reasoning"@,
                "思考"@,
                "深度"@,
            ],
        thinking_row(level, current, true).icon == CommandIcon::Thinking,
        fork_row(message, false).detail == "Fork from this user message"@,
        fork_row(message, true).detail == "从这条用户消息分叉"@,
        forall|chinese: bool| #[trigger]
            fork_row(message, chinese).keywords == seq!["fork"@, "分叉"@],
        fork_row(message, true).icon == CommandIcon::Message,
{
}

/// What names or exports a session shows the name or the path that was typed, or the
/// command where nothing was.
pub proof fn lemma_rows_that_run_at_once(state: AppState, query: Seq<char>, argument: Seq<char>)
    ensures
        ({
            let chinese = state.language == Language::SimplifiedChinese;
            let shown = query_options(state, query);
            &&& argument_of(query, "name"@) == Some(argument) ==> {
                &&& shown->0[0].title == if chinese {
                    "设置会话名称"@
                } else {
                    "Set session name"@
                }
                &&& argument.len() > 0 ==> shown->0[0].detail == argument
                &&& argument.len() == 0 ==> shown->0[0].detail == "/name"@
                &&& shown->0[0].icon == CommandIcon::Message
            }
            &&& argument_of(query, "export"@) == Some(argument) ==> {
                &&& shown->0[0].title == if chinese {
                    "导出会话"@
                } else {
                    "Export session"@
                }
                &&& argument.len() > 0 ==> shown->0[0].detail == argument
                &&& argument.len() == 0 ==> shown->0[0].detail == "/export"@
                &&& shown->0[0].icon == CommandIcon::Copy
            }
        }),
{
    lemma_words_of_commands();
    let c = query[0];
    if query.len() > 0 {
        if c != 'm' {
            lemma_starts_otherwise(query, "model"@);
        }
        if c != '模' {
            lemma_starts_otherwise(query, "模型"@);
        }
        if c != 't' {
            lemma_starts_otherwise(query, "thinking"@);
        }
        if c != '思' {
            lemma_starts_otherwise(query, "思考"@);
        }
        if c != 'n' {
            lemma_starts_otherwise(query, "name"@);
        }
        if c != 'e' {
            lemma_starts_otherwise(query, "export"@);
        }
    }
}

} // verus!
