//! Turning Pi's wire protocol into what the interface shows.
//!
//! Pi reports tool calls, results and agent-team activity as JSON. None of it is
//! meant to be read raw: a `bash` call becomes the command that it runs, a
//! spawned agent becomes a line that names the agent and its result.

use vstd::prelude::*;

use crate::domain::{ModelOption, ModelView, QueueMode, SessionMetrics};
use crate::keyed::TextMap;
use crate::json::{is_plain, opt_json, parsed, pretty, Json, JsonView};
use crate::text::{
    blank, cat2, cat3, cat4, cat5, cat6, cat7, cat8, chars_of, decimal, decimal_string,
    is_white_space, join, joined, opt_str, same, split_words, string_of, trim, trim_start, trimmed,
    word_len, words,
};
use crate::views::{
    count_of, keep_map, lemma_count_step, lemma_keep_map_step, lemma_views_push, opt_view, views,
};

verus! {

/// `o`, or `default` where there is none.
pub open spec fn or_text(o: Option<Seq<char>>, default: Seq<char>) -> Seq<char> {
    match o {
        Some(s) => s,
        None => default,
    }
}

/// `o`, or `default` where there is none.
pub fn or_str<'a>(o: Option<&'a str>, default: &'a str) -> (r: &'a str)
    ensures
        r@ == or_text(opt_str(o), default@),
{
    match o {
        Some(s) => s,
        None => default,
    }
}

/// The value of a member of an optional document.
pub open spec fn opt_field(j: Option<JsonView>, key: Seq<char>) -> Option<JsonView> {
    match j {
        Some(j) => j.field(key),
        None => None,
    }
}

/// The value of a member of an optional document.
pub fn opt_get<'a>(j: Option<&'a Json>, key: &str) -> (r: Option<&'a Json>)
    ensures
        opt_json(r) == opt_field(opt_json(j), key@),
{
    match j {
        Some(j) => j.get(key),
        None => None,
    }
}

/// The text of a member of an optional document.
pub open spec fn opt_text_at(j: Option<JsonView>, key: Seq<char>) -> Option<Seq<char>> {
    match j {
        Some(j) => j.text_at(key),
        None => None,
    }
}

/// The text of a member of an optional document.
pub fn opt_str_at<'a>(j: Option<&'a Json>, key: &str) -> (r: Option<&'a str>)
    ensures
        opt_str(r) == opt_text_at(opt_json(j), key@),
{
    match j {
        Some(j) => j.str_at(key),
        None => None,
    }
}

/// The truth value of a member of an optional document, or `default`.
pub open spec fn opt_truth_at(j: Option<JsonView>, key: Seq<char>, default: bool) -> bool {
    match j {
        Some(j) => match j.truth_at(key) {
            Some(b) => b,
            None => default,
        },
        None => default,
    }
}

/// The truth value of a member of an optional document, or `default`.
pub fn opt_bool_at(j: Option<&Json>, key: &str, default: bool) -> (r: bool)
    ensures
        r == opt_truth_at(opt_json(j), key@, default),
{
    match j {
        Some(j) => match j.bool_at(key) {
            Some(b) => b,
            None => default,
        },
        None => default,
    }
}

/// The model that a document describes.
pub open spec fn model_of(value: JsonView, names: Map<Seq<char>, Seq<char>>) -> Option<ModelView> {
    match (value.text_at("provider"@), value.text_at("id"@)) {
        (Some(provider), Some(id)) => Some(
            ModelView {
                provider,
                provider_name: if names.contains_key(provider) {
                    names[provider]
                } else {
                    or_text(value.text_at("providerName"@), provider)
                },
                id,
                name: or_text(value.text_at("name"@), id),
            },
        ),
        _ => None,
    }
}

/// The model that a document describes, under the name that its provider is
/// configured with.
pub fn model_option(value: &Json, provider_names: &TextMap) -> (r: Option<ModelOption>)
    ensures
        opt_view(r) == model_of(value@, provider_names@),
{
    let provider = match value.str_at("provider") {
        Some(provider) => provider,
        None => {
            return None;
        },
    };
    let id = match value.str_at("id") {
        Some(id) => id,
        None => {
            return None;
        },
    };
    let provider_name = match provider_names.get(provider) {
        Some(name) => name,
        None => or_str(value.str_at("providerName"), provider),
    };
    Some(
        ModelOption {
            provider: provider.to_owned(),
            provider_name: provider_name.to_owned(),
            id: id.to_owned(),
            name: or_str(value.str_at("name"), id).to_owned(),
        },
    )
}

/// The queue mode that a name stands for.
pub open spec fn mode_named(value: Seq<char>) -> QueueMode {
    if value == "all"@ {
        QueueMode::All
    } else {
        QueueMode::OneAtATime
    }
}

/// The queue mode that a name on the wire stands for.
pub fn queue_mode(value: &str) -> (r: QueueMode)
    ensures
        r == mode_named(value@),
{
    if same(value, "all") {
        QueueMode::All
    } else {
        QueueMode::OneAtATime
    }
}

/// The name of a queue mode.
pub open spec fn mode_name(mode: QueueMode) -> Seq<char> {
    match mode {
        QueueMode::All => "all"@,
        QueueMode::OneAtATime => "one-at-a-time"@,
    }
}

/// The name of a queue mode on the wire.
pub fn queue_mode_name(mode: QueueMode) -> (r: &'static str)
    ensures
        r@ == mode_name(mode),
{
    match mode {
        QueueMode::All => "all",
        QueueMode::OneAtATime => "one-at-a-time",
    }
}

/// A queue mode is found again under its own name.
pub proof fn lemma_queue_mode_names(mode: QueueMode)
    ensures
        mode_named(mode_name(mode)) == mode,
{
    reveal_strlit("all");
    reveal_strlit("one-at-a-time");
    assert("all"@.len() != "one-at-a-time"@.len());
}

/// A number of a document, or zero.
pub open spec fn count_at(value: JsonView, key: Seq<char>) -> u64 {
    match value.unsigned_at(key) {
        Some(n) => n,
        None => 0,
    }
}

fn number_at(value: &Json, key: &str) -> (r: u64)
    ensures
        r == count_at(value@, key@),
{
    match value.u64_at(key) {
        Some(n) => n,
        None => 0,
    }
}

/// The figures that a session reports, with its cost in millionths of a dollar.
pub open spec fn metrics_of(value: JsonView, cost_microusd: u64) -> SessionMetrics {
    SessionMetrics {
        total_messages: count_at(value, "totalMessages"@),
        user_messages: count_at(value, "userMessages"@),
        assistant_messages: count_at(value, "assistantMessages"@),
        tool_calls: count_at(value, "toolCalls"@),
        total_tokens: match value.field("tokens"@) {
            Some(tokens) => count_at(tokens, "total"@),
            None => 0,
        },
        cost_microusd,
    }
}

/// The figures that a session reports. The cost is a fraction on the wire, so it
/// is handed in as the millionths of a dollar that it comes to.
pub fn session_metrics(value: &Json, cost_microusd: u64) -> (r: SessionMetrics)
    ensures
        r == metrics_of(value@, cost_microusd),
{
    SessionMetrics {
        total_messages: number_at(value, "totalMessages"),
        user_messages: number_at(value, "userMessages"),
        assistant_messages: number_at(value, "assistantMessages"),
        tool_calls: number_at(value, "toolCalls"),
        total_tokens: match value.get("tokens") {
            Some(tokens) => number_at(tokens, "total"),
            None => 0,
        },
        cost_microusd,
    }
}

/// The text of one part of a message.
pub open spec fn part_text(part: JsonView) -> Option<Seq<char>> {
    part.text_at("text"@)
}

/// The readable text of a message's content: the content itself where it is a
/// string, and the text parts of a list one below the other.
pub open spec fn content_of(content: Option<JsonView>) -> Option<Seq<char>> {
    match content {
        Some(JsonView::Str(text)) => Some(text),
        Some(JsonView::Array(parts)) => Some(
            join(keep_map(parts, |part: JsonView| part_text(part)), "\n"@),
        ),
        _ => None,
    }
}

/// The readable text of a message's content, where it has any.
pub fn content_text(content: Option<&Json>) -> (r: Option<String>)
    ensures
        opt_view(r) == content_of(opt_json(content)),
{
    let content = match content {
        Some(content) => content,
        None => {
            return None;
        },
    };
    if let Some(text) = content.as_str() {
        return Some(text.to_owned());
    }
    match content.as_array() {
        Some(parts) => {
            let ghost f = |part: JsonView| part_text(part);
            let mut texts: Vec<String> = Vec::new();
            let mut i: usize = 0;
            proof {
                assert(views(parts@).take(0) =~= Seq::empty());
                assert(views(texts@) =~= Seq::empty());
            }
            while i < parts.len()
                invariant
                    i <= parts@.len(),
                    f == (|part: JsonView| part_text(part)),
                    views(texts@) == keep_map(views(parts@).take(i as int), f),
                decreases parts@.len() - i,
            {
                proof {
                    lemma_keep_map_step(views(parts@), f, i as int);
                }
                if let Some(text) = parts[i].str_at("text") {
                    let ghost before = texts@;
                    let text = text.to_owned();
                    proof {
                        lemma_views_push(before, text);
                    }
                    texts.push(text);
                }
                i = i + 1;
            }
            proof {
                assert(views(parts@).take(i as int) =~= views(parts@));
            }
            Some(joined(&texts, "\n"))
        },
        None => None,
    }
}

/// The most characters that a summary keeps of a text.
pub const MAX_SUMMARY_CHARS: usize = 84;

/// A text on one line: its words with a space between each two.
pub open spec fn one_line(text: Seq<char>) -> Seq<char> {
    join(words(text), " "@)
}

/// A text on one line, cut off with an ellipsis where it is long.
pub open spec fn compacted(text: Seq<char>) -> Seq<char> {
    let line = one_line(text);
    if line.len() <= MAX_SUMMARY_CHARS {
        line
    } else {
        line.take(MAX_SUMMARY_CHARS as int) + "…"@
    }
}

/// A text on one line, cut off with an ellipsis where it is long.
pub fn compact_tool_text(text: &str) -> (r: String)
    ensures
        r@ == compacted(text@),
{
    let line = joined(&split_words(text), " ");
    let chars = chars_of(line.as_str());
    if chars.len() <= MAX_SUMMARY_CHARS {
        return line;
    }
    let prefix = string_of(&chars, 0, MAX_SUMMARY_CHARS);
    proof {
        assert(prefix@ =~= line@.take(MAX_SUMMARY_CHARS as int));
    }
    cat2(prefix.as_str(), "…")
}

/// Whether a text holds no white space but the space itself.
pub open spec fn is_single_line(s: Seq<char>) -> bool {
    forall|i: int| 0 <= i < s.len() ==> #[trigger] s[i] == ' ' || !is_white_space(s[i])
}

proof fn lemma_word_is_solid(s: Seq<char>)
    ensures
        word_len(s) <= s.len(),
        forall|i: int| 0 <= i < word_len(s) ==> !is_white_space(#[trigger] s[i]),
    decreases s.len(),
{
    if s.len() > 0 && !is_white_space(s.first()) {
        lemma_word_is_solid(s.drop_first());
        assert forall|i: int| 0 <= i < word_len(s) implies !is_white_space(#[trigger] s[i]) by {
            if i > 0 {
                assert(s.drop_first()[i - 1] == s[i]);
            }
        }
    }
}

proof fn lemma_trim_start_is_shorter(s: Seq<char>)
    ensures
        trim_start(s).len() <= s.len(),
        trim_start(s).len() > 0 ==> !is_white_space(trim_start(s).first()),
    decreases s.len(),
{
    if s.len() > 0 && is_white_space(s.first()) {
        lemma_trim_start_is_shorter(s.drop_first());
    }
}

proof fn lemma_words_are_solid(s: Seq<char>)
    ensures
        forall|k: int| 0 <= k < words(s).len() ==> is_single_line(#[trigger] words(s)[k]),
    decreases s.len(),
{
    let t = trim_start(s);
    lemma_trim_start_is_shorter(s);
    if t.len() > 0 {
        lemma_word_is_solid(t);
        let n = word_len(t) as int;
        lemma_words_are_solid(t.skip(n));
        assert forall|k: int| 0 <= k < words(s).len() implies is_single_line(
            #[trigger] words(s)[k],
        ) by {
            if k == 0 {
                assert(words(s)[0] == t.take(n));
            } else {
                assert(words(s)[k] == words(t.skip(n))[k - 1]);
            }
        }
    }
}

proof fn lemma_join_single_line(parts: Seq<Seq<char>>)
    requires
        forall|k: int| 0 <= k < parts.len() ==> is_single_line(#[trigger] parts[k]),
    ensures
        is_single_line(join(parts, " "@)),
    decreases parts.len(),
{
    reveal_strlit(" ");
    if parts.len() > 1 {
        let rest = parts.drop_last();
        assert forall|k: int| 0 <= k < rest.len() implies is_single_line(#[trigger] rest[k]) by {
            assert(rest[k] == parts[k]);
        }
        lemma_join_single_line(rest);
        let head = join(rest, " "@) + " "@;
        let all = head + parts.last();
        assert(is_single_line(parts[parts.len() - 1]));
        assert forall|i: int| 0 <= i < all.len() implies #[trigger] all[i] == ' '
            || !is_white_space(all[i]) by {
            if i < join(rest, " "@).len() {
                assert(all[i] == join(rest, " "@)[i]);
            } else if i < head.len() {
                assert(all[i] == ' ');
            } else {
                assert(all[i] == parts.last()[i - head.len()]);
            }
        }
    }
}

/// A compacted text is a single line of bounded length.
pub proof fn lemma_compacted_is_bounded(text: Seq<char>)
    ensures
        compacted(text).len() <= MAX_SUMMARY_CHARS + 1,
        is_single_line(compacted(text)),
{
    reveal_strlit("…");
    lemma_words_are_solid(text);
    lemma_join_single_line(words(text));
    let line = one_line(text);
    if line.len() > MAX_SUMMARY_CHARS {
        let all = compacted(text);
        assert forall|i: int| 0 <= i < all.len() implies #[trigger] all[i] == ' '
            || !is_white_space(all[i]) by {
            if i < MAX_SUMMARY_CHARS {
                assert(all[i] == line[i]);
            } else {
                assert(all[i] == '…');
            }
        }
    }
}

/// What a call of a tool is about to do.
pub open spec fn call_report(name: Seq<char>, arguments: Option<JsonView>) -> Seq<char> {
    if name == "bash"@ {
        let command = compacted(or_text(opt_text_at(arguments, "command"@), ""@));
        if command.len() == 0 {
            "Running Bash command."@
        } else if opt_truth_at(arguments, "background"@, false) {
            "Starting background command: "@ + command
        } else {
            "Running command: "@ + command
        }
    } else if name == "list_processes"@ {
        "Listing background processes."@
    } else if name == "read_process"@ {
        "Reading process "@ + or_text(opt_text_at(arguments, "process_id"@), "unknown"@) + "."@
    } else if name == "stop_process"@ {
        "Stopping process "@ + or_text(opt_text_at(arguments, "process_id"@), "unknown"@) + "."@
    } else if name == "read"@ {
        "Reading "@ + or_text(opt_text_at(arguments, "path"@), "file"@) + "."@
    } else if name == "write"@ {
        "Writing "@ + or_text(opt_text_at(arguments, "path"@), "file"@) + "."@
    } else if name == "edit"@ {
        "Editing "@ + or_text(opt_text_at(arguments, "path"@), "file"@) + "."@
    } else if name == "spawn_agent"@ {
        let agent = or_text(opt_text_at(arguments, "name"@), "subagent"@);
        let task = compacted(or_text(opt_text_at(arguments, "task"@), ""@));
        if task.len() == 0 {
            "Starting "@ + agent + "."@
        } else {
            "Starting "@ + agent + ":\n"@ + task
        }
    } else if name == "send_message"@ {
        let target = or_text(opt_text_at(arguments, "target"@), "agent"@);
        let message = or_text(opt_text_at(arguments, "message"@), ""@);
        if message.len() == 0 {
            "Sending a message to "@ + target + "."@
        } else {
            "Sending to "@ + target + ":\n"@ + message
        }
    } else if name == "wait_agent"@ {
        "Waiting for "@ + or_text(opt_text_at(arguments, "target"@), "agent"@) + "."@
    } else if name == "interrupt_agent"@ {
        "Interrupting "@ + or_text(opt_text_at(arguments, "target"@), "agent"@) + "."@
    } else if name == "list_agents"@ {
        "Listing visible agents."@
    } else if name == "read_messages"@ {
        "Reading queued messages."@
    } else if name == "read_session"@ {
        "Reading session "@ + or_text(opt_text_at(arguments, "session_id"@), "unknown"@) + "."@
    } else if name == "list_sessions"@ {
        "Discovering retained sessions."@
    } else if name == "search_sessions"@ {
        let query = or_text(opt_text_at(arguments, "query"@), ""@);
        if query.len() == 0 {
            "Searching retained sessions."@
        } else {
            "Searching sessions for: "@ + compacted(query)
        }
    } else {
        "Running."@
    }
}

proof fn lemma_compacted_of_nothing()
    ensures
        compacted(""@) == ""@,
        ""@.len() == 0,
{
    reveal_strlit("");
    assert(words(""@) =~= Seq::empty());
    assert(compacted(""@) =~= ""@);
}

/// What a call of a tool is about to do, for a reader.
pub fn tool_call_report(name: &str, arguments: Option<&Json>) -> (r: String)
    ensures
        r@ == call_report(name@, opt_json(arguments)),
{
    proof {
        lemma_compacted_of_nothing();
    }
    if same(name, "bash") {
        let command = compact_tool_text(or_str(opt_str_at(arguments, "command"), ""));
        if command.as_str().is_empty() {
            "Running Bash command.".to_owned()
        } else if opt_bool_at(arguments, "background", false) {
            cat2("Starting background command: ", command.as_str())
        } else {
            cat2("Running command: ", command.as_str())
        }
    } else if same(name, "list_processes") {
        "Listing background processes.".to_owned()
    } else if same(name, "read_process") {
        cat3("Reading process ", or_str(opt_str_at(arguments, "process_id"), "unknown"), ".")
    } else if same(name, "stop_process") {
        cat3("Stopping process ", or_str(opt_str_at(arguments, "process_id"), "unknown"), ".")
    } else if same(name, "read") {
        cat3("Reading ", or_str(opt_str_at(arguments, "path"), "file"), ".")
    } else if same(name, "write") {
        cat3("Writing ", or_str(opt_str_at(arguments, "path"), "file"), ".")
    } else if same(name, "edit") {
        cat3("Editing ", or_str(opt_str_at(arguments, "path"), "file"), ".")
    } else if same(name, "spawn_agent") {
        let agent = or_str(opt_str_at(arguments, "name"), "subagent");
        let task = compact_tool_text(or_str(opt_str_at(arguments, "task"), ""));
        if task.as_str().is_empty() {
            cat3("Starting ", agent, ".")
        } else {
            cat4("Starting ", agent, ":\n", task.as_str())
        }
    } else if same(name, "send_message") {
        let target = or_str(opt_str_at(arguments, "target"), "agent");
        let message = or_str(opt_str_at(arguments, "message"), "");
        if message.is_empty() {
            cat3("Sending a message to ", target, ".")
        } else {
            cat4("Sending to ", target, ":\n", message)
        }
    } else if same(name, "wait_agent") {
        cat3("Waiting for ", or_str(opt_str_at(arguments, "target"), "agent"), ".")
    } else if same(name, "interrupt_agent") {
        cat3("Interrupting ", or_str(opt_str_at(arguments, "target"), "agent"), ".")
    } else if same(name, "list_agents") {
        "Listing visible agents.".to_owned()
    } else if same(name, "read_messages") {
        "Reading queued messages.".to_owned()
    } else if same(name, "read_session") {
        cat3("Reading session ", or_str(opt_str_at(arguments, "session_id"), "unknown"), ".")
    } else if same(name, "list_sessions") {
        "Discovering retained sessions.".to_owned()
    } else if same(name, "search_sessions") {
        let query = or_str(opt_str_at(arguments, "query"), "");
        if query.is_empty() {
            "Searching retained sessions.".to_owned()
        } else {
            cat2("Searching sessions for: ", compact_tool_text(query).as_str())
        }
    } else {
        "Running.".to_owned()
    }
}

/// Whether a background process is running.
pub open spec fn is_running_process(process: JsonView) -> bool {
    process.text_at("status"@) == Some("running"@)
}

/// How many of the processes are running.
fn running_count(processes: &Vec<Json>) -> (r: u64)
    ensures
        r == count_of(views(processes@), |p: JsonView| is_running_process(p)),
        r <= processes@.len(),
{
    let ghost f = |p: JsonView| is_running_process(p);
    let total: usize = processes.len();
    let mut running: u64 = 0;
    let mut i: usize = 0;
    proof {
        assert(views(processes@).take(0) =~= Seq::empty());
    }
    while i < processes.len()
        invariant
            i <= processes@.len() == total,
            f == (|p: JsonView| is_running_process(p)),
            running == count_of(views(processes@).take(i as int), f),
            running <= i,
        decreases processes@.len() - i,
    {
        proof {
            lemma_count_step(views(processes@), f, i as int);
        }
        let is_running = match processes[i].str_at("status") {
            Some(status) => same(status, "running"),
            None => false,
        };
        if is_running {
            running = running + 1;
        }
        i = i + 1;
    }
    proof {
        assert(views(processes@).take(i as int) =~= views(processes@));
    }
    running
}

/// One message of an agent, as a line.
pub open spec fn message_line(message: JsonView) -> Option<Seq<char>> {
    match (message.text_at("sender_name"@), message.text_at("content"@)) {
        (Some(sender), Some(content)) => Some("- "@ + sender + ": "@ + trim(content)),
        _ => None,
    }
}

/// The messages of agents, one per line, or `empty` where there are none.
pub open spec fn messages_report(messages: Seq<JsonView>, empty: Seq<char>) -> Seq<char> {
    let lines = keep_map(messages, |m: JsonView| message_line(m));
    if lines.len() == 0 {
        empty
    } else {
        join(lines, "\n"@)
    }
}

/// The messages of agents, one per line, or `empty_message` where there are none.
pub fn agent_message_report(messages: &Vec<Json>, empty_message: &str) -> (r: String)
    ensures
        r@ == messages_report(views(messages@), empty_message@),
{
    let ghost f = |m: JsonView| message_line(m);
    let mut lines: Vec<String> = Vec::new();
    let mut i: usize = 0;
    proof {
        assert(views(messages@).take(0) =~= Seq::empty());
        assert(views(lines@) =~= Seq::empty());
    }
    while i < messages.len()
        invariant
            i <= messages@.len(),
            f == (|m: JsonView| message_line(m)),
            views(lines@) == keep_map(views(messages@).take(i as int), f),
        decreases messages@.len() - i,
    {
        proof {
            lemma_keep_map_step(views(messages@), f, i as int);
        }
        if let Some(sender) = messages[i].str_at("sender_name") {
            if let Some(content) = messages[i].str_at("content") {
                let line = cat4("- ", sender, ": ", trimmed(content).as_str());
                proof {
                    lemma_views_push(lines@, line);
                }
                lines.push(line);
            }
        }
        i = i + 1;
    }
    proof {
        assert(views(messages@).take(i as int) =~= views(messages@));
        assert(views(lines@).len() == lines@.len());
    }
    if lines.len() == 0 {
        empty_message.to_owned()
    } else {
        joined(&lines, "\n")
    }
}

/// One visible agent, as a line.
pub open spec fn agent_line(agent: JsonView) -> Option<Seq<char>> {
    match (agent.text_at("name"@), agent.unsigned_at("level"@)) {
        (Some(name), Some(level)) => Some(
            "- "@ + name + " · level "@ + decimal(level as nat) + " · "@ + or_text(
                agent.text_at("status"@),
                "unknown"@,
            ) + " · session "@ + or_text(agent.text_at("session_id"@), "unknown"@),
        ),
        _ => None,
    }
}

/// The lines of the visible agents.
fn agent_lines(agents: &Vec<Json>) -> (r: Vec<String>)
    ensures
        views(r@) == keep_map(views(agents@), |a: JsonView| agent_line(a)),
{
    let ghost f = |a: JsonView| agent_line(a);
    let mut lines: Vec<String> = Vec::new();
    let mut i: usize = 0;
    proof {
        assert(views(agents@).take(0) =~= Seq::empty());
        assert(views(lines@) =~= Seq::empty());
    }
    while i < agents.len()
        invariant
            i <= agents@.len(),
            f == (|a: JsonView| agent_line(a)),
            views(lines@) == keep_map(views(agents@).take(i as int), f),
        decreases agents@.len() - i,
    {
        proof {
            lemma_keep_map_step(views(agents@), f, i as int);
        }
        let agent = &agents[i];
        if let Some(name) = agent.str_at("name") {
            if let Some(level) = agent.u64_at("level") {
                let line = cat8(
                    "- ",
                    name,
                    " · level ",
                    decimal_string(level).as_str(),
                    " · ",
                    or_str(agent.str_at("status"), "unknown"),
                    " · session ",
                    or_str(agent.str_at("session_id"), "unknown"),
                );
                proof {
                    lemma_views_push(lines@, line);
                }
                lines.push(line);
            }
        }
        i = i + 1;
    }
    proof {
        assert(views(agents@).take(i as int) =~= views(agents@));
    }
    lines
}

/// One retained session, as a line.
pub open spec fn session_line(session: JsonView) -> Seq<char> {
    "- "@ + or_text(session.text_at("name"@), "session"@) + " · level "@ + decimal(
        count_at(session, "level"@) as nat,
    ) + " · "@ + or_text(session.text_at("status"@), "unknown"@) + " · "@ + or_text(
        session.text_at("session_id"@),
        "unknown"@,
    )
}

fn session_lines(sessions: &Vec<Json>) -> (r: Vec<String>)
    ensures
        views(r@) == views(sessions@).map_values(|s: JsonView| session_line(s)),
{
    let mut lines: Vec<String> = Vec::new();
    let mut i: usize = 0;
    while i < sessions.len()
        invariant
            i <= sessions@.len(),
            lines@.len() == i,
            forall|k: int| 0 <= k < i ==> (#[trigger] lines@[k])@ == session_line(sessions@[k]@),
        decreases sessions@.len() - i,
    {
        let session = &sessions[i];
        lines.push(
            cat8(
                "- ",
                or_str(session.str_at("name"), "session"),
                " · level ",
                decimal_string(number_at(session, "level")).as_str(),
                " · ",
                or_str(session.str_at("status"), "unknown"),
                " · ",
                or_str(session.str_at("session_id"), "unknown"),
            ),
        );
        i = i + 1;
    }
    proof {
        assert(views(lines@) =~= views(sessions@).map_values(|s: JsonView| session_line(s)));
    }
    lines
}

/// One match of a search, as a line.
pub open spec fn match_line(item: JsonView) -> Seq<char> {
    "- "@ + or_text(item.text_at("session_id"@), "unknown"@) + (match item.text_at("entry_id"@) {
        Some(id) => " · entry "@ + id,
        None => ""@,
    }) + " · "@ + or_text(item.text_at("role"@), "entry"@) + ": "@ + or_text(
        item.text_at("snippet"@),
        ""@,
    )
}

fn match_lines(matches: &Vec<Json>) -> (r: Vec<String>)
    ensures
        views(r@) == views(matches@).map_values(|m: JsonView| match_line(m)),
{
    let mut lines: Vec<String> = Vec::new();
    let mut i: usize = 0;
    while i < matches.len()
        invariant
            i <= matches@.len(),
            lines@.len() == i,
            forall|k: int| 0 <= k < i ==> (#[trigger] lines@[k])@ == match_line(matches@[k]@),
        decreases matches@.len() - i,
    {
        let item = &matches[i];
        let entry = match item.str_at("entry_id") {
            Some(id) => cat2(" · entry ", id),
            None => "".to_owned(),
        };
        lines.push(
            cat7(
                "- ",
                or_str(item.str_at("session_id"), "unknown"),
                entry.as_str(),
                " · ",
                or_str(item.str_at("role"), "entry"),
                ": ",
                or_str(item.str_at("snippet"), ""),
            ),
        );
        i = i + 1;
    }
    proof {
        assert(views(lines@) =~= views(matches@).map_values(|m: JsonView| match_line(m)));
    }
    lines
}

/// How many there are in all, on every page.
pub open spec fn paged_total(result: JsonView, shown: nat) -> nat {
    match result.field("pagination"@) {
        Some(pagination) => match pagination.unsigned_at("total"@) {
            Some(total) => total as nat,
            None => shown,
        },
        None => shown,
    }
}

fn total_of(result: &Json, shown: usize) -> (r: u64)
    ensures
        r == paged_total(result@, shown as nat),
{
    match result.get("pagination") {
        Some(pagination) => match pagination.u64_at("total") {
            Some(total) => total,
            None => shown as u64,
        },
        None => shown as u64,
    }
}

/// What came of a task: its output and its error, where they say anything.
pub open spec fn outcome_sections(
    outcome: JsonView,
    returned: Seq<char>,
    failed: Seq<char>,
) -> Seq<Seq<char>> {
    labelled(outcome.text_at("output"@), returned) + labelled(outcome.text_at("error"@), failed)
}

/// A text under its label, unless it is blank.
pub open spec fn labelled(text: Option<Seq<char>>, label: Seq<char>) -> Seq<Seq<char>> {
    match text {
        Some(text) => if trim(text).len() == 0 {
            Seq::empty()
        } else {
            seq![label + trim(text)]
        },
        None => Seq::empty(),
    }
}

fn push_labelled(sections: &mut Vec<String>, text: Option<&str>, label: &str)
    ensures
        views(final(sections)@) == views(old(sections)@) + labelled(opt_str(text), label@),
{
    let ghost before = sections@;
    if let Some(text) = text {
        if !blank(text) {
            let section = cat2(label, trimmed(text).as_str());
            proof {
                lemma_views_push(before, section);
            }
            sections.push(section);
            proof {
                assert(views(sections@) =~= views(before) + labelled(Some(text@), label@));
            }
            return;
        }
    }
    proof {
        assert(views(before) + Seq::<Seq<char>>::empty() =~= views(before));
    }
}

fn push_outcome(sections: &mut Vec<String>, outcome: &Json, returned: &str, failed: &str)
    ensures
        views(final(sections)@) == views(old(sections)@) + outcome_sections(
            outcome@,
            returned@,
            failed@,
        ),
{
    let ghost before = views(sections@);
    push_labelled(sections, outcome.str_at("output"), returned);
    push_labelled(sections, outcome.str_at("error"), failed);
    proof {
        assert(views(sections@) =~= before + outcome_sections(outcome@, returned@, failed@));
    }
}

/// What came of one agent further down.
pub open spec fn descendant_sections(descendant: JsonView) -> Seq<Seq<char>> {
    match (descendant.field("agent"@), descendant.field("outcome"@)) {
        (Some(agent), Some(outcome)) => {
            let name = or_text(agent.text_at("name"@), "descendant"@);
            outcome_sections(outcome, name + " returned:\n"@, name + " error:\n"@)
        },
        _ => Seq::empty(),
    }
}

/// What came of the agents further down.
pub open spec fn descendants_sections(descendants: Seq<JsonView>) -> Seq<Seq<char>>
    decreases descendants.len(),
{
    if descendants.len() == 0 {
        Seq::empty()
    } else {
        descendants_sections(descendants.drop_last()) + descendant_sections(descendants.last())
    }
}

fn push_descendants(sections: &mut Vec<String>, descendants: &Vec<Json>)
    ensures
        views(final(sections)@) == views(old(sections)@) + descendants_sections(
            views(descendants@),
        ),
{
    let ghost before = views(sections@);
    let ghost all = views(descendants@);
    let mut i: usize = 0;
    proof {
        assert(all.take(0) =~= Seq::empty());
        assert(before + descendants_sections(all.take(0)) =~= before);
    }
    while i < descendants.len()
        invariant
            i <= descendants@.len(),
            all == views(descendants@),
            views(sections@) == before + descendants_sections(all.take(i as int)),
        decreases descendants@.len() - i,
    {
        let ghost here = views(sections@);
        let descendant = &descendants[i];
        if let Some(agent) = descendant.get("agent") {
            let name = or_str(agent.str_at("name"), "descendant");
            if let Some(outcome) = descendant.get("outcome") {
                push_outcome(
                    sections,
                    outcome,
                    cat2(name, " returned:\n").as_str(),
                    cat2(name, " error:\n").as_str(),
                );
            }
        }
        proof {
            assert(views(sections@) =~= here + descendant_sections(descendant@));
            assert(all.take(i + 1).drop_last() =~= all.take(i as int));
            assert(views(sections@) =~= before + descendants_sections(all.take(i + 1)));
        }
        i = i + 1;
    }
    proof {
        assert(all.take(i as int) =~= all);
    }
}

/// What waiting for an agent came to, in one sentence.
pub open spec fn wait_headline(agent: Seq<char>, status: Seq<char>) -> Seq<char> {
    if status == "message"@ {
        "Received an update from "@ + agent + "."@
    } else if status == "completed"@ {
        agent + " finished."@
    } else if status == "timeout"@ {
        agent + " is still running."@
    } else {
        agent + ": "@ + status
    }
}

/// The messages that came while waiting.
pub open spec fn wait_messages(messages: Option<Seq<JsonView>>) -> Seq<Seq<char>> {
    match messages {
        Some(messages) => if messages.len() == 0 {
            Seq::empty()
        } else {
            seq!["Messages:\n"@ + messages_report(messages, ""@)]
        },
        None => Seq::empty(),
    }
}

/// What waiting for an agent came to.
pub open spec fn wait_sections(result: JsonView, agent: Seq<char>, status: Seq<char>) -> Seq<
    Seq<char>,
> {
    seq![wait_headline(agent, status)] + wait_messages(result.items_at("messages"@)) + (
    match result.field("outcome"@) {
        Some(outcome) => outcome_sections(outcome, "Returned:\n"@, "Error:\n"@),
        None => Seq::empty(),
    }) + (match result.items_at("descendants"@) {
        Some(descendants) => descendants_sections(descendants),
        None => Seq::empty(),
    })
}

/// What waiting for an agent came to.
fn wait_report(result: &Json, agent: &str, status: &str) -> (r: String)
    ensures
        r@ == join(wait_sections(result@, agent@, status@), "\n\n"@),
{
    let headline = if same(status, "message") {
        cat3("Received an update from ", agent, ".")
    } else if same(status, "completed") {
        cat2(agent, " finished.")
    } else if same(status, "timeout") {
        cat2(agent, " is still running.")
    } else {
        cat3(agent, ": ", status)
    };
    let mut sections: Vec<String> = Vec::new();
    sections.push(headline);
    let ghost first = seq![wait_headline(agent@, status@)];
    proof {
        assert(views(sections@) =~= first);
    }
    let messages = result.array_at("messages");
    if let Some(messages) = messages {
        if messages.len() > 0 {
            let section = cat2("Messages:\n", agent_message_report(messages, "").as_str());
            proof {
                lemma_views_push(sections@, section);
            }
            sections.push(section);
        }
    }
    let ghost second = first + wait_messages(result@.items_at("messages"@));
    proof {
        assert(views(sections@) =~= second);
    }
    if let Some(outcome) = result.get("outcome") {
        push_outcome(&mut sections, outcome, "Returned:\n", "Error:\n");
    }
    let ghost third = second + (match result@.field("outcome"@) {
        Some(outcome) => outcome_sections(outcome, "Returned:\n"@, "Error:\n"@),
        None => Seq::empty(),
    });
    proof {
        assert(views(sections@) =~= third);
    }
    if let Some(descendants) = result.array_at("descendants") {
        push_descendants(&mut sections, descendants);
    }
    proof {
        assert(views(sections@) =~= wait_sections(result@, agent@, status@));
    }
    joined(&sections, "\n\n")
}

/// A message sent to an agent, and whether it got there.
pub open spec fn sent_report(result: JsonView, initial: Option<Seq<char>>) -> Seq<char> {
    let report = or_text(initial, "Sending an agent message."@);
    if result.truth_at("delivered"@) == Some(true) {
        if result.truth_at("queued"@) == Some(true) {
            report + "\n\nQueued for delivery when the level-0 session resumes."@
        } else {
            report + "\n\nDelivered to "@ + decimal(
                (match result.unsigned_at("count"@) {
                    Some(count) => count,
                    None => 1,
                }) as nat,
            ) + " agent(s)."@
        }
    } else {
        report
    }
}

fn sent_message_report(result: &Json, initial: Option<&str>) -> (r: String)
    ensures
        r@ == sent_report(result@, opt_str(initial)),
{
    let report = or_str(initial, "Sending an agent message.");
    if result.bool_at("delivered") == Some(true) {
        if result.bool_at("queued") == Some(true) {
            cat2(report, "\n\nQueued for delivery when the level-0 session resumes.")
        } else {
            let count: u64 = match result.u64_at("count") {
                Some(count) => count,
                None => 1,
            };
            cat4(report, "\n\nDelivered to ", decimal_string(count).as_str(), " agent(s).")
        }
    } else {
        report.to_owned()
    }
}

/// A session that was read.
pub open spec fn read_session_text(
    result: JsonView,
    name: Seq<char>,
    level: u64,
    session_id: Seq<char>,
    entries: nat,
) -> Seq<char> {
    let selection = result.field("selection"@);
    let detail = or_text(opt_text_at(selection, "detail"@), "report"@);
    "Session "@ + session_id + "\n"@ + name + " · level "@ + decimal(level as nat) + (if opt_truth_at(
        result.field("access"@),
        "send_message"@,
        false,
    ) {
        " · message allowed\n"@
    } else {
        " · read-only\n"@
    }) + (if entries == 0 {
        "No conversation entries."@
    } else {
        decimal(entries) + " "@ + detail + (if opt_truth_at(selection, "truncated"@, false) {
            " entries returned (truncated)."@
        } else {
            " entries returned."@
        })
    })
}

fn session_read_text(
    result: &Json,
    name: &str,
    level: u64,
    session_id: &str,
    entries: usize,
) -> (r: String)
    ensures
        r@ == read_session_text(result@, name@, level, session_id@, entries as nat),
{
    let selection = result.get("selection");
    let detail = or_str(opt_str_at(selection, "detail"), "report");
    let access = if opt_bool_at(result.get("access"), "send_message", false) {
        " · message allowed\n"
    } else {
        " · read-only\n"
    };
    let body = if entries == 0 {
        "No conversation entries.".to_owned()
    } else {
        cat4(
            decimal_string(entries as u64).as_str(),
            " ",
            detail,
            if opt_bool_at(selection, "truncated", false) {
                " entries returned (truncated)."
            } else {
                " entries returned."
            },
        )
    };
    cat8(
        "Session ",
        session_id,
        "\n",
        name,
        " · level ",
        decimal_string(level).as_str(),
        access,
        body.as_str(),
    )
}

/// What an agent-team tool reports, read from the document that it returned.
pub open spec fn team_report(
    name: Seq<char>,
    result: JsonView,
    initial: Option<Seq<char>>,
) -> Option<Seq<char>> {
    if name == "list_processes"@ {
        match result.items_at("processes"@) {
            Some(processes) => Some(
                decimal(processes.len()) + " background process(es), "@ + decimal(
                    count_of(processes, |p: JsonView| is_running_process(p)),
                ) + " running"@,
            ),
            None => None,
        }
    } else if name == "read_process"@ {
        match result.field("process"@) {
            Some(process) => match process.text_at("id"@) {
                Some(id) => Some(
                    "Process "@ + id + " · "@ + or_text(process.text_at("status"@), "unknown"@),
                ),
                None => None,
            },
            None => None,
        }
    } else if name == "stop_process"@ {
        Some(
            "Stopped process "@ + or_text(
                opt_text_at(result.field("process"@), "id"@),
                "process"@,
            ),
        )
    } else if name == "spawn_agent"@ {
        match (result.text_at("name"@), result.unsigned_at("level"@)) {
            (Some(agent), Some(level)) => Some(
                "Created "@ + agent + " at level "@ + decimal(level as nat) + "."@,
            ),
            _ => None,
        }
    } else if name == "send_message"@ {
        Some(sent_report(result, initial))
    } else if name == "list_agents"@ {
        match result.items_at("agents"@) {
            Some(agents) => {
                let lines = keep_map(agents, |a: JsonView| agent_line(a));
                if lines.len() == 0 {
                    Some("No agents are visible."@)
                } else {
                    Some("Visible agents:\n"@ + join(lines, "\n"@))
                }
            },
            None => None,
        }
    } else if name == "read_messages"@ {
        match result.items_at("messages"@) {
            Some(messages) => Some(messages_report(messages, "No queued messages."@)),
            None => None,
        }
    } else if name == "read_session"@ {
        match result.field("agent"@) {
            Some(agent) => match (
                agent.text_at("name"@),
                agent.unsigned_at("level"@),
                result.text_at("session_id"@),
                result.items_at("conversation"@),
            ) {
                (Some(agent), Some(level), Some(session_id), Some(messages)) => Some(
                    read_session_text(result, agent, level, session_id, messages.len()),
                ),
                _ => None,
            },
            None => None,
        }
    } else if name == "list_sessions"@ {
        match result.items_at("sessions"@) {
            Some(sessions) => {
                let total = decimal(paged_total(result, sessions.len()));
                if sessions.len() == 0 {
                    Some("No retained sessions found (0 of "@ + total + ")."@)
                } else {
                    Some(
                        "Retained sessions ("@ + decimal(sessions.len()) + " of "@ + total
                            + "):\n"@ + join(
                            sessions.map_values(|s: JsonView| session_line(s)),
                            "\n"@,
                        ),
                    )
                }
            },
            None => None,
        }
    } else if name == "search_sessions"@ {
        match result.items_at("matches"@) {
            Some(matches) => {
                let total = decimal(paged_total(result, matches.len()));
                if matches.len() == 0 {
                    Some("No matches found (0 of "@ + total + ")."@)
                } else {
                    Some(
                        "Session matches ("@ + decimal(matches.len()) + " of "@ + total + "):\n"@
                            + join(matches.map_values(|m: JsonView| match_line(m)), "\n"@),
                    )
                }
            },
            None => None,
        }
    } else if name == "wait_agent"@ {
        match result.field("agent"@) {
            Some(agent) => match (agent.text_at("name"@), result.text_at("wait_status"@)) {
                (Some(agent), Some(status)) => Some(
                    join(wait_sections(result, agent, status), "\n\n"@),
                ),
                _ => None,
            },
            None => None,
        }
    } else if name == "interrupt_agent"@ {
        match result.text_at("target"@) {
            Some(target) => Some("Interrupted "@ + target + "."@),
            None => None,
        }
    } else {
        None
    }
}

/// What an agent-team tool reports, read from the document that it returned.
pub fn agent_team_report(name: &str, result: &Json, initial_report: Option<&str>) -> (r: Option<
    String,
>)
    ensures
        opt_view(r) == team_report(name@, result@, opt_str(initial_report)),
{
    if same(name, "list_processes") {
        let processes = result.array_at("processes")?;
        let running: u64 = running_count(processes);
        Some(
            cat4(
                decimal_string(processes.len() as u64).as_str(),
                " background process(es), ",
                decimal_string(running).as_str(),
                " running",
            ),
        )
    } else if same(name, "read_process") {
        let process = result.get("process")?;
        let id = process.str_at("id")?;
        Some(cat4("Process ", id, " · ", or_str(process.str_at("status"), "unknown")))
    } else if same(name, "stop_process") {
        Some(
            cat2(
                "Stopped process ",
                or_str(opt_str_at(result.get("process"), "id"), "process"),
            ),
        )
    } else if same(name, "spawn_agent") {
        let agent = result.str_at("name")?;
        let level: u64 = result.u64_at("level")?;
        Some(cat5("Created ", agent, " at level ", decimal_string(level).as_str(), "."))
    } else if same(name, "send_message") {
        Some(sent_message_report(result, initial_report))
    } else if same(name, "list_agents") {
        let agents = result.array_at("agents")?;
        let lines = agent_lines(agents);
        proof {
            assert(views(lines@).len() == lines@.len());
        }
        if lines.len() == 0 {
            Some("No agents are visible.".to_owned())
        } else {
            Some(cat2("Visible agents:\n", joined(&lines, "\n").as_str()))
        }
    } else if same(name, "read_messages") {
        let messages = result.array_at("messages")?;
        Some(agent_message_report(messages, "No queued messages."))
    } else if same(name, "read_session") {
        let agent = result.get("agent")?;
        let agent_name = agent.str_at("name")?;
        let level: u64 = agent.u64_at("level")?;
        let session_id = result.str_at("session_id")?;
        let messages = result.array_at("conversation")?;
        Some(session_read_text(result, agent_name, level, session_id, messages.len()))
    } else if same(name, "list_sessions") {
        let sessions = result.array_at("sessions")?;
        let total = decimal_string(total_of(result, sessions.len()));
        if sessions.len() == 0 {
            Some(cat3("No retained sessions found (0 of ", total.as_str(), ")."))
        } else {
            Some(
                cat6(
                    "Retained sessions (",
                    decimal_string(sessions.len() as u64).as_str(),
                    " of ",
                    total.as_str(),
                    "):\n",
                    joined(&session_lines(sessions), "\n").as_str(),
                ),
            )
        }
    } else if same(name, "search_sessions") {
        let matches = result.array_at("matches")?;
        let total = decimal_string(total_of(result, matches.len()));
        if matches.len() == 0 {
            Some(cat3("No matches found (0 of ", total.as_str(), ")."))
        } else {
            Some(
                cat6(
                    "Session matches (",
                    decimal_string(matches.len() as u64).as_str(),
                    " of ",
                    total.as_str(),
                    "):\n",
                    joined(&match_lines(matches), "\n").as_str(),
                ),
            )
        }
    } else if same(name, "wait_agent") {
        let agent = result.get("agent")?;
        let agent_name = agent.str_at("name")?;
        let status = result.str_at("wait_status")?;
        Some(wait_report(result, agent_name, status))
    } else if same(name, "interrupt_agent") {
        let target = result.str_at("target")?;
        Some(cat3("Interrupted ", target, "."))
    } else {
        None
    }
}

/// What an agent-team tool reports, where its text is a document.
pub open spec fn team_text_report(
    name: Seq<char>,
    text: Seq<char>,
    initial: Option<Seq<char>>,
) -> Option<Seq<char>> {
    match parsed(text) {
        Some(result) => team_report(name, result, initial),
        None => None,
    }
}

/// What an agent-team tool reports, where its text is a document.
pub fn agent_team_tool_report(name: &str, text: &str, initial_report: Option<&str>) -> (r: Option<
    String,
>)
    ensures
        opt_view(r) == team_text_report(name@, text@, opt_str(initial_report)),
{
    match Json::parse(text) {
        Some(result) => agent_team_report(name, &result, initial_report),
        None => None,
    }
}

/// What an agent-team tool came to in a few words, read from the document that it
/// returned.
pub open spec fn team_summary(name: Seq<char>, result: JsonView) -> Option<Seq<char>> {
    if name == "list_processes"@ {
        match result.items_at("processes"@) {
            Some(processes) => Some(
                decimal(processes.len()) + " process(es), "@ + decimal(
                    count_of(processes, |p: JsonView| is_running_process(p)),
                ) + " running"@,
            ),
            None => None,
        }
    } else if name == "read_process"@ {
        match result.field("process"@) {
            Some(process) => Some(
                "Process "@ + or_text(process.text_at("status"@), "unknown"@),
            ),
            None => None,
        }
    } else if name == "stop_process"@ {
        Some("Process stopped"@)
    } else if name == "spawn_agent"@ {
        match (result.text_at("name"@), result.unsigned_at("level"@)) {
            (Some(agent), Some(level)) => Some(
                "Started "@ + agent + " (level "@ + decimal(level as nat) + ")"@,
            ),
            _ => None,
        }
    } else if name == "send_message"@ {
        match result.unsigned_at("count"@) {
            Some(count) => if result.truth_at("queued"@) == Some(true) {
                Some("Message queued for level-0 session"@)
            } else {
                Some("Message delivered to "@ + decimal(count as nat) + " agent(s)"@)
            },
            None => None,
        }
    } else if name == "list_agents"@ {
        match result.items_at("agents"@) {
            Some(agents) => Some(decimal(agents.len()) + " agents visible"@),
            None => None,
        }
    } else if name == "read_messages"@ {
        match result.items_at("messages"@) {
            Some(messages) => Some(decimal(messages.len()) + " messages received"@),
            None => None,
        }
    } else if name == "read_session"@ {
        match result.field("agent"@) {
            Some(agent) => match (agent.text_at("name"@), agent.unsigned_at("level"@)) {
                (Some(agent), Some(level)) => Some(
                    "Read "@ + agent + " session (level "@ + decimal(level as nat) + ")"@,
                ),
                _ => None,
            },
            None => None,
        }
    } else if name == "list_sessions"@ {
        match result.items_at("sessions"@) {
            Some(sessions) => Some(decimal(sessions.len()) + " retained sessions found"@),
            None => None,
        }
    } else if name == "search_sessions"@ {
        match result.items_at("matches"@) {
            Some(matches) => Some(decimal(matches.len()) + " session matches found"@),
            None => None,
        }
    } else if name == "wait_agent"@ {
        match result.field("agent"@) {
            Some(agent) => match (agent.text_at("name"@), result.text_at("wait_status"@)) {
                (Some(agent), Some(status)) => if status == "message"@ {
                    Some(agent + " sent a message"@)
                } else if status == "completed"@ {
                    match opt_text_at(result.field("outcome"@), "error"@) {
                        Some(error) => if trim(error).len() == 0 {
                            Some(agent + " completed"@)
                        } else {
                            Some(agent + " failed"@)
                        },
                        None => Some(agent + " completed"@),
                    }
                } else if status == "timeout"@ {
                    Some(agent + " is still running"@)
                } else {
                    None
                },
                _ => None,
            },
            None => None,
        }
    } else if name == "interrupt_agent"@ {
        match result.text_at("target"@) {
            Some(target) => Some("Interrupted "@ + target),
            None => None,
        }
    } else {
        None
    }
}

/// What an agent-team tool came to in a few words, read from the document that it
/// returned.
pub fn agent_team_summary(name: &str, result: &Json) -> (r: Option<String>)
    ensures
        opt_view(r) == team_summary(name@, result@),
{
    if same(name, "list_processes") {
        let processes = result.array_at("processes")?;
        let running: u64 = running_count(processes);
        Some(
            cat4(
                decimal_string(processes.len() as u64).as_str(),
                " process(es), ",
                decimal_string(running).as_str(),
                " running",
            ),
        )
    } else if same(name, "read_process") {
        let process = result.get("process")?;
        Some(cat2("Process ", or_str(process.str_at("status"), "unknown")))
    } else if same(name, "stop_process") {
        Some("Process stopped".to_owned())
    } else if same(name, "spawn_agent") {
        let agent = result.str_at("name")?;
        let level: u64 = result.u64_at("level")?;
        Some(cat5("Started ", agent, " (level ", decimal_string(level).as_str(), ")"))
    } else if same(name, "send_message") {
        let count: u64 = result.u64_at("count")?;
        if result.bool_at("queued") == Some(true) {
            Some("Message queued for level-0 session".to_owned())
        } else {
            Some(cat3("Message delivered to ", decimal_string(count).as_str(), " agent(s)"))
        }
    } else if same(name, "list_agents") {
        let agents = result.array_at("agents")?;
        Some(cat2(decimal_string(agents.len() as u64).as_str(), " agents visible"))
    } else if same(name, "read_messages") {
        let messages = result.array_at("messages")?;
        Some(cat2(decimal_string(messages.len() as u64).as_str(), " messages received"))
    } else if same(name, "read_session") {
        let agent = result.get("agent")?;
        let agent_name = agent.str_at("name")?;
        let level: u64 = agent.u64_at("level")?;
        Some(cat5("Read ", agent_name, " session (level ", decimal_string(level).as_str(), ")"))
    } else if same(name, "list_sessions") {
        let sessions = result.array_at("sessions")?;
        Some(cat2(decimal_string(sessions.len() as u64).as_str(), " retained sessions found"))
    } else if same(name, "search_sessions") {
        let matches = result.array_at("matches")?;
        Some(cat2(decimal_string(matches.len() as u64).as_str(), " session matches found"))
    } else if same(name, "wait_agent") {
        let agent = result.get("agent")?;
        let agent_name = agent.str_at("name")?;
        let status = result.str_at("wait_status")?;
        if same(status, "message") {
            Some(cat2(agent_name, " sent a message"))
        } else if same(status, "completed") {
            let failed = match opt_str_at(result.get("outcome"), "error") {
                Some(error) => !blank(error),
                None => false,
            };
            if failed {
                Some(cat2(agent_name, " failed"))
            } else {
                Some(cat2(agent_name, " completed"))
            }
        } else if same(status, "timeout") {
            Some(cat2(agent_name, " is still running"))
        } else {
            None
        }
    } else if same(name, "interrupt_agent") {
        let target = result.str_at("target")?;
        Some(cat2("Interrupted ", target))
    } else {
        None
    }
}

/// What a tool came to in a few words, where it says so itself.
pub open spec fn team_text_summary(name: Seq<char>, text: Seq<char>) -> Option<Seq<char>> {
    if name == "bash"@ {
        if compacted(text).len() == 0 {
            Some("Bash command completed"@)
        } else {
            Some("Bash: "@ + compacted(text))
        }
    } else {
        match parsed(text) {
            Some(result) => team_summary(name, result),
            None => None,
        }
    }
}

/// What a tool came to in a few words, where it says so itself.
pub fn agent_team_tool_summary(name: &str, text: &str) -> (r: Option<String>)
    ensures
        opt_view(r) == team_text_summary(name@, text@),
{
    if same(name, "bash") {
        let result = compact_tool_text(text);
        return Some(
            if result.as_str().is_empty() {
                "Bash command completed".to_owned()
            } else {
                cat2("Bash: ", result.as_str())
            },
        );
    }
    match Json::parse(text) {
        Some(result) => agent_team_summary(name, &result),
        None => None,
    }
}

/// What a tool came to in a few words, for the text that it returned.
pub open spec fn text_summary(
    tool_name: Option<Seq<char>>,
    text: Seq<char>,
    is_error: bool,
) -> Seq<char> {
    let summary = match tool_name {
        Some(name) => team_text_summary(name, text),
        None => None,
    };
    if !is_error && summary is Some {
        summary->0
    } else if is_error {
        if compacted(text).len() == 0 {
            "Failed"@
        } else {
            "Failed: "@ + compacted(text)
        }
    } else if compacted(text).len() == 0 {
        "Completed"@
    } else {
        compacted(text)
    }
}

/// What a tool came to in a few words.
pub open spec fn result_summary(
    tool_name: Option<Seq<char>>,
    content: Option<JsonView>,
    is_error: bool,
) -> Seq<char> {
    text_summary(tool_name, or_text(content_of(content), ""@), is_error)
}

/// The readable text of a message's content, empty where it has none.
fn content_or_empty(content: Option<&Json>) -> (r: String)
    ensures
        r@ == or_text(content_of(opt_json(content)), ""@),
{
    match content_text(content) {
        Some(text) => text,
        None => "".to_owned(),
    }
}

/// What a tool came to in a few words, for the text that it returned.
pub fn tool_text_summary(tool_name: Option<&str>, text: &str, is_error: bool) -> (r: String)
    ensures
        r@ == text_summary(opt_str(tool_name), text@, is_error),
{
    if !is_error {
        if let Some(name) = tool_name {
            if let Some(summary) = agent_team_tool_summary(name, text) {
                return summary;
            }
        }
    }
    let text = compact_tool_text(text);
    if is_error {
        if text.as_str().is_empty() {
            "Failed".to_owned()
        } else {
            cat2("Failed: ", text.as_str())
        }
    } else if text.as_str().is_empty() {
        "Completed".to_owned()
    } else {
        text
    }
}

/// What a tool came to in a few words, for the head of its card.
pub fn tool_result_summary(tool_name: Option<&str>, content: Option<&Json>, is_error: bool) -> (r:
    String)
    ensures
        r@ == result_summary(opt_str(tool_name), opt_json(content), is_error),
{
    tool_text_summary(tool_name, content_or_empty(content).as_str(), is_error)
}

/// What a tool did and what came of it, for the text that it returned.
pub open spec fn text_report(
    tool_name: Option<Seq<char>>,
    text: Seq<char>,
    initial: Option<Seq<char>>,
    is_error: bool,
) -> Seq<char> {
    let report = match tool_name {
        Some(name) => team_text_report(name, text, initial),
        None => None,
    };
    if tool_name == Some("bash"@) && !is_error {
        let prefix = or_text(initial, "Bash command"@);
        if compacted(text).len() == 0 {
            prefix + "\nCompleted."@
        } else {
            prefix + "\nResult: "@ + compacted(text)
        }
    } else if !is_error && report is Some {
        report->0
    } else if trim(text).len() == 0 {
        if is_error {
            "Failed without a reported message."@
        } else {
            "Completed."@
        }
    } else if is_error {
        "Failed:\n"@ + text
    } else {
        text
    }
}

/// What a tool did and what came of it.
pub open spec fn result_report(
    tool_name: Option<Seq<char>>,
    content: Option<JsonView>,
    initial: Option<Seq<char>>,
    is_error: bool,
) -> Seq<char> {
    text_report(tool_name, or_text(content_of(content), ""@), initial, is_error)
}

/// What a tool did and what came of it, for the text that it returned.
pub fn tool_text_report(
    tool_name: Option<&str>,
    text: &str,
    initial_report: Option<&str>,
    is_error: bool,
) -> (r: String)
    ensures
        r@ == text_report(opt_str(tool_name), text@, opt_str(initial_report), is_error),
{
    let is_bash = match tool_name {
        Some(name) => same(name, "bash"),
        None => false,
    };
    if is_bash && !is_error {
        let result = compact_tool_text(text);
        let prefix = or_str(initial_report, "Bash command");
        return if result.as_str().is_empty() {
            cat2(prefix, "\nCompleted.")
        } else {
            cat3(prefix, "\nResult: ", result.as_str())
        };
    }
    if !is_error {
        if let Some(name) = tool_name {
            if let Some(report) = agent_team_tool_report(name, text, initial_report) {
                return report;
            }
        }
    }
    if blank(text) {
        return if is_error {
            "Failed without a reported message.".to_owned()
        } else {
            "Completed.".to_owned()
        };
    }
    if is_error {
        cat2("Failed:\n", text)
    } else {
        text.to_owned()
    }
}

/// What a tool did and what came of it, for the body of its card.
pub fn tool_result_report(
    tool_name: Option<&str>,
    content: Option<&Json>,
    initial_report: Option<&str>,
    is_error: bool,
) -> (r: String)
    ensures
        r@ == result_report(
            opt_str(tool_name),
            opt_json(content),
            opt_str(initial_report),
            is_error,
        ),
{
    tool_text_report(
        tool_name,
        content_or_empty(content).as_str(),
        initial_report,
        is_error,
    )
}

/// The arguments that a record of a call holds.
pub open spec fn input_of(details: JsonView) -> JsonView {
    match details.field("input"@) {
        Some(input) => input,
        None => match details.field("args"@) {
            Some(args) => args,
            None => JsonView::Null,
        },
    }
}

/// The arguments that the details of a call recorded.
pub open spec fn recorded_input(previous: Option<Seq<char>>) -> JsonView {
    match previous {
        Some(details) => match parsed(details) {
            Some(details) => input_of(details),
            None => JsonView::Null,
        },
        None => JsonView::Null,
    }
}

/// Whether an event says that a tool has finished.
pub open spec fn is_tool_end(event: JsonView) -> bool {
    event.text_at("type"@) == Some("tool_execution_end"@)
}

/// The raw data behind a tool's card: a finished call keeps the arguments that it
/// started with beside its result, any other event is kept whole.
pub open spec fn event_details(event: JsonView, previous: Option<Seq<char>>) -> JsonView {
    if is_tool_end(event) {
        JsonView::Object(
            seq![
                ("input"@, recorded_input(previous)),
                (
                    "result"@,
                    match event.field("result"@) {
                        Some(result) => result,
                        None => JsonView::Null,
                    },
                ),
                ("is_error"@, JsonView::Bool(opt_truth_at(Some(event), "isError"@, false))),
            ],
        )
    } else {
        event
    }
}

/// The arguments that the details of a call recorded.
fn recorded_arguments(previous: Option<&str>) -> (r: Json)
    ensures
        r@ == recorded_input(opt_str(previous)),
{
    if let Some(details) = previous {
        if let Some(details) = Json::parse(details) {
            if let Some(input) = details.get("input") {
                return input.copy();
            }
            if let Some(args) = details.get("args") {
                return args.copy();
            }
        }
    }
    Json::Null
}

/// The raw data behind a tool's card. The arguments of a call can be read back
/// from it when the call ends.
pub fn tool_event_details(event: &Json, previous_details: Option<&str>) -> (r: String)
    ensures
        r@ == pretty(event_details(event@, opt_str(previous_details))),
        is_plain(event@) && !is_tool_end(event@) ==> recorded_input(Some(r@)) == input_of(event@),
{
    let ended = match event.str_at("type") {
        Some(kind) => same(kind, "tool_execution_end"),
        None => false,
    };
    if !ended {
        return event.to_pretty();
    }
    let mut members: Vec<(String, Json)> = Vec::new();
    members.push(("input".to_owned(), recorded_arguments(previous_details)));
    members.push(
        (
            "result".to_owned(),
            match event.get("result") {
                Some(result) => result.copy(),
                None => Json::Null,
            },
        ),
    );
    members.push(
        ("is_error".to_owned(), Json::Bool(opt_bool_at(Some(event), "isError", false))),
    );
    let details = Json::Object(members);
    proof {
        crate::json::lemma_members_view(details->Object_0, 3);
        assert(details@->Object_0 =~= event_details(
            event@,
            opt_str(previous_details),
        )->Object_0);
    }
    details.to_pretty()
}

/// The record of a finished call holds the arguments that the record of its start
/// held.
pub proof fn lemma_finished_call_keeps_its_arguments(event: JsonView, previous: Option<Seq<char>>)
    requires
        is_tool_end(event),
    ensures
        input_of(event_details(event, previous)) == recorded_input(previous),
{
}

/// What one part of a reply adds to its text. Reasoning stands between tags.
pub open spec fn reply_block(part: JsonView) -> Option<Seq<char>> {
    if part.text_at("type"@) == Some("thinking"@) {
        match part.text_at("thinking"@) {
            Some(thinking) => if trim(thinking).len() == 0 {
                None
            } else {
                Some("<thinking>\n"@ + trim(thinking) + "\n</thinking>"@)
            },
            None => None,
        }
    } else {
        part.text_at("text"@)
    }
}

/// The text of a reply.
pub open spec fn reply_text(message: JsonView) -> Seq<char> {
    match message.field("content"@) {
        Some(JsonView::Str(text)) => text,
        Some(JsonView::Array(parts)) => join(
            keep_map(parts, |part: JsonView| reply_block(part)),
            "\n\n"@,
        ),
        _ => Seq::empty(),
    }
}

/// What one part of a reply adds to its text.
fn part_block(part: &Json) -> (r: Option<String>)
    ensures
        opt_view(r) == reply_block(part@),
{
    let thinks = match part.str_at("type") {
        Some(kind) => same(kind, "thinking"),
        None => false,
    };
    if thinks {
        let thinking = part.str_at("thinking")?;
        if blank(thinking) {
            None
        } else {
            Some(cat3("<thinking>\n", trimmed(thinking).as_str(), "\n</thinking>"))
        }
    } else {
        match part.str_at("text") {
            Some(text) => Some(text.to_owned()),
            None => None,
        }
    }
}

/// The text of a reply, with its reasoning between `<thinking>` tags.
pub fn assistant_text(message: &Json) -> (r: String)
    ensures
        r@ == reply_text(message@),
{
    let content = match message.get("content") {
        Some(content) => content,
        None => {
            return String::new();
        },
    };
    if let Some(text) = content.as_str() {
        return text.to_owned();
    }
    match content.as_array() {
        Some(parts) => {
            let ghost f = |part: JsonView| reply_block(part);
            let mut blocks: Vec<String> = Vec::new();
            let mut i: usize = 0;
            proof {
                assert(views(parts@).take(0) =~= Seq::empty());
                assert(views(blocks@) =~= Seq::empty());
            }
            while i < parts.len()
                invariant
                    i <= parts@.len(),
                    f == (|part: JsonView| reply_block(part)),
                    views(blocks@) == keep_map(views(parts@).take(i as int), f),
                decreases parts@.len() - i,
            {
                proof {
                    lemma_keep_map_step(views(parts@), f, i as int);
                }
                if let Some(block) = part_block(&parts[i]) {
                    proof {
                        lemma_views_push(blocks@, block);
                    }
                    blocks.push(block);
                }
                i = i + 1;
            }
            proof {
                assert(views(parts@).take(i as int) =~= views(parts@));
            }
            joined(&blocks, "\n\n")
        },
        None => String::new(),
    }
}

} // verus!
