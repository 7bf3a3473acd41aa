//! What holds of the summaries and reports that are made of tool calls.
//!
//! A reader of a card has nothing but its text to go by, so the text has to say
//! what happened: a failure never reads like a success, a number is the number of
//! the things that it counts, and a name is the name that the tool gave.

use vstd::prelude::*;

use crate::domain::QueueMode;
use crate::json::{parsed, JsonView};
use crate::protocol::{
    call_report, compacted, content_of, event_details, metrics_of, mode_name, mode_named, model_of,
    reply_text, team_report, team_summary, text_report, text_summary,
};
use crate::text::{
    decimal, is_blank, is_white_space, join, lemma_trim_blank, occurs, occurs_at, trim, words,
};
use crate::views::{count_of, keep_map};

verus! {

/// The names of the tools differ from each other.
pub proof fn lemma_tool_names()
    ensures
        "bash"@.len() == 4 && "bash"@[0] == 'b',
        "list_processes"@.len() == 14 && "list_processes"@[0] == 'l',
        "read_process"@.len() == 12 && "read_process"@[0] == 'r' && "read_process"@[5] == 'p',
        "stop_process"@.len() == 12 && "stop_process"@[0] == 's' && "stop_process"@[5] == 'p',
        "read"@.len() == 4 && "read"@[0] == 'r',
        "write"@.len() == 5 && "write"@[0] == 'w',
        "edit"@.len() == 4 && "edit"@[0] == 'e',
        "spawn_agent"@.len() == 11 && "spawn_agent"@[0] == 's',
        "send_message"@.len() == 12 && "send_message"@[0] == 's' && "send_message"@[5] == 'm',
        "wait_agent"@.len() == 10 && "wait_agent"@[0] == 'w',
        "interrupt_agent"@.len() == 15 && "interrupt_agent"@[0] == 'i',
        "list_agents"@.len() == 11 && "list_agents"@[0] == 'l',
        "read_messages"@.len() == 13 && "read_messages"@[0] == 'r',
        "read_session"@.len() == 12 && "read_session"@[0] == 'r' && "read_session"@[5] == 's',
        "list_sessions"@.len() == 13 && "list_sessions"@[0] == 'l',
        "search_sessions"@.len() == 15 && "search_sessions"@[0] == 's',
{
    reveal_strlit("bash");
    reveal_strlit("list_processes");
    reveal_strlit("read_process");
    reveal_strlit("stop_process");
    reveal_strlit("read");
    reveal_strlit("write");
    reveal_strlit("edit");
    reveal_strlit("spawn_agent");
    reveal_strlit("send_message");
    reveal_strlit("wait_agent");
    reveal_strlit("interrupt_agent");
    reveal_strlit("list_agents");
    reveal_strlit("read_messages");
    reveal_strlit("read_session");
    reveal_strlit("list_sessions");
    reveal_strlit("search_sessions");
}

/// Whether a document says that something went wrong: its error is a text, and not
/// one of white space alone.
pub open spec fn has_error(outcome: Option<JsonView>) -> bool {
    match outcome {
        Some(outcome) => match outcome.text_at("error"@) {
            Some(error) => !is_blank(error),
            None => false,
        },
        None => false,
    }
}

/// Two texts that start alike differ where their ends do.
proof fn lemma_ends_differ(start: Seq<char>, a: Seq<char>, b: Seq<char>)
    requires
        a != b,
    ensures
        start + a != start + b,
{
    if start + a == start + b {
        assert(a =~= (start + a).skip(start.len() as int));
        assert(b =~= (start + b).skip(start.len() as int));
    }
}

/// Waiting for an agent that is done says that it failed exactly where its outcome
/// has an error, and that it completed otherwise. No two ways in which the waiting
/// can end read the same.
pub proof fn lemma_wait_says_how_it_ended(result: JsonView, agent: JsonView, name: Seq<char>)
    requires
        result.field("agent"@) == Some(agent),
        agent.text_at("name"@) == Some(name),
    ensures
        result.text_at("wait_status"@) == Some("completed"@) && has_error(result.field("outcome"@))
            ==> team_summary("wait_agent"@, result) == Some(name + " failed"@),
        result.text_at("wait_status"@) == Some("completed"@) && !has_error(
            result.field("outcome"@),
        ) ==> team_summary("wait_agent"@, result) == Some(name + " completed"@),
        result.text_at("wait_status"@) == Some("message"@) ==> team_summary("wait_agent"@, result)
            == Some(name + " sent a message"@),
        result.text_at("wait_status"@) == Some("timeout"@) ==> team_summary("wait_agent"@, result)
            == Some(name + " is still running"@),
        team_summary("wait_agent"@, result) is Some <==> (result.text_at("wait_status"@) == Some(
            "completed"@,
        ) || result.text_at("wait_status"@) == Some("message"@) || result.text_at("wait_status"@)
            == Some("timeout"@)),
        name + " failed"@ != name + " completed"@,
        name + " failed"@ != name + " sent a message"@,
        name + " failed"@ != name + " is still running"@,
        name + " completed"@ != name + " sent a message"@,
        name + " completed"@ != name + " is still running"@,
        name + " sent a message"@ != name + " is still running"@,
{
    lemma_tool_names();
    reveal_strlit("completed");
    reveal_strlit("message");
    reveal_strlit("timeout");
    reveal_strlit(" failed");
    reveal_strlit(" completed");
    reveal_strlit(" sent a message");
    reveal_strlit(" is still running");
    assert("message"@[0] == 'm' && "timeout"@[0] == 't');
    assert(" failed"@.len() == 7 && " completed"@.len() == 10);
    lemma_ends_differ(name, " failed"@, " completed"@);
    lemma_ends_differ(name, " failed"@, " sent a message"@);
    lemma_ends_differ(name, " failed"@, " is still running"@);
    lemma_ends_differ(name, " completed"@, " sent a message"@);
    lemma_ends_differ(name, " completed"@, " is still running"@);
    lemma_ends_differ(name, " sent a message"@, " is still running"@);
    if let Some(outcome) = result.field("outcome"@) {
        if let Some(error) = outcome.text_at("error"@) {
            lemma_trim_blank(error);
        }
    }
}

/// Without the agent's name there is nothing to say of the waiting.
pub proof fn lemma_wait_needs_a_name(result: JsonView)
    requires
        match result.field("agent"@) {
            Some(agent) => agent.text_at("name"@) is None,
            None => true,
        },
    ensures
        team_summary("wait_agent"@, result) is None,
        team_report("wait_agent"@, result, None) is None,
{
    lemma_tool_names();
}

/// How many items are counted is how many there are left when the others are taken
/// out.
pub proof fn lemma_count_of_is_filtered<A>(v: Seq<A>, f: spec_fn(A) -> bool)
    ensures
        count_of(v, f) == v.filter(f).len(),
    decreases v.len(),
{
    reveal(Seq::filter);
    if v.len() > 0 {
        lemma_count_of_is_filtered(v.drop_last(), f);
    }
}

/// The processes that run.
pub open spec fn running(processes: Seq<JsonView>) -> Seq<JsonView> {
    processes.filter(|p: JsonView| p.text_at("status"@) == Some("running"@))
}

/// The numbers in a summary are those of the things listed in the result.
pub proof fn lemma_summaries_count(result: JsonView, items: Seq<JsonView>)
    ensures
        result.items_at("processes"@) == Some(items) ==> team_summary("list_processes"@, result)
            == Some(
            decimal(items.len()) + " process(es), "@ + decimal(running(items).len()) + " running"@,
        ),
        result.items_at("processes"@) == Some(items) ==> team_report(
            "list_processes"@,
            result,
            None,
        ) == Some(
            decimal(items.len()) + " background process(es), "@ + decimal(running(items).len())
                + " running"@,
        ),
        result.items_at("agents"@) == Some(items) ==> team_summary("list_agents"@, result) == Some(
            decimal(items.len()) + " agents visible"@,
        ),
        result.items_at("messages"@) == Some(items) ==> team_summary("read_messages"@, result)
            == Some(decimal(items.len()) + " messages received"@),
        result.items_at("sessions"@) == Some(items) ==> team_summary("list_sessions"@, result)
            == Some(decimal(items.len()) + " retained sessions found"@),
        result.items_at("matches"@) == Some(items) ==> team_summary("search_sessions"@, result)
            == Some(decimal(items.len()) + " session matches found"@),
        result.items_at("processes"@) is None ==> team_summary("list_processes"@, result) is None,
        result.items_at("agents"@) is None ==> team_summary("list_agents"@, result) is None,
        result.items_at("messages"@) is None ==> team_summary("read_messages"@, result) is None,
        result.items_at("sessions"@) is None ==> team_summary("list_sessions"@, result) is None,
        result.items_at("matches"@) is None ==> team_summary("search_sessions"@, result) is None,
{
    lemma_tool_names();
    let f = |p: JsonView| crate::protocol::is_running_process(p);
    let g = |p: JsonView| p.text_at("status"@) == Some("running"@);
    assert(f =~= g);
    lemma_count_of_is_filtered(items, g);
}

/// A process is summed up by the status that it has, and by its stop where it was
/// stopped.
pub proof fn lemma_process_summaries(result: JsonView, process: JsonView, status: Seq<char>)
    ensures
        result.field("process"@) == Some(process) && process.text_at("status"@) == Some(status)
            ==> team_summary("read_process"@, result) == Some("Process "@ + status),
        result.field("process"@) == Some(process) && process.text_at("status"@) is None
            ==> team_summary("read_process"@, result) == Some("Process "@ + "unknown"@),
        result.field("process"@) is None ==> team_summary("read_process"@, result) is None,
        team_summary("stop_process"@, result) == Some("Process stopped"@),
{
    lemma_tool_names();
}

/// An agent is summed up under its name and level, and a message by where it went.
pub proof fn lemma_agent_summaries(result: JsonView, name: Seq<char>, level: u64)
    ensures
        result.text_at("name"@) == Some(name) && result.unsigned_at("level"@) == Some(level)
            ==> team_summary("spawn_agent"@, result) == Some(
            "Started "@ + name + " (level "@ + decimal(level as nat) + ")"@,
        ),
        result.text_at("name"@) is None || result.unsigned_at("level"@) is None ==> team_summary(
            "spawn_agent"@,
            result,
        ) is None,
        result.unsigned_at("count"@) == Some(level) && result.truth_at("queued"@) == Some(true)
            ==> team_summary("send_message"@, result) == Some("Message queued for level-0 session"@),
        result.unsigned_at("count"@) == Some(level) && result.truth_at("queued"@) != Some(true)
            ==> team_summary("send_message"@, result) == Some(
            "Message delivered to "@ + decimal(level as nat) + " agent(s)"@,
        ),
        result.unsigned_at("count"@) is None ==> team_summary("send_message"@, result) is None,
        result.text_at("target"@) == Some(name) ==> team_summary("interrupt_agent"@, result)
            == Some("Interrupted "@ + name),
        result.text_at("target"@) is None ==> team_summary("interrupt_agent"@, result) is None,
{
    lemma_tool_names();
}

/// A session that was read is summed up under the name and level of its agent.
pub proof fn lemma_session_summary(
    result: JsonView,
    agent: JsonView,
    name: Seq<char>,
    level: u64,
)
    requires
        result.field("agent"@) == Some(agent),
    ensures
        agent.text_at("name"@) == Some(name) && agent.unsigned_at("level"@) == Some(level)
            ==> team_summary("read_session"@, result) == Some(
            "Read "@ + name + " session (level "@ + decimal(level as nat) + ")"@,
        ),
        agent.text_at("name"@) is None || agent.unsigned_at("level"@) is None ==> team_summary(
            "read_session"@,
            result,
        ) is None,
{
    lemma_tool_names();
}

/// Whether a tool is one of those that work with agents, sessions or processes.
pub open spec fn is_team_tool(name: Seq<char>) -> bool {
    ||| name == "list_processes"@
    ||| name == "read_process"@
    ||| name == "stop_process"@
    ||| name == "spawn_agent"@
    ||| name == "send_message"@
    ||| name == "list_agents"@
    ||| name == "read_messages"@
    ||| name == "read_session"@
    ||| name == "list_sessions"@
    ||| name == "search_sessions"@
    ||| name == "wait_agent"@
    ||| name == "interrupt_agent"@
}

/// Other tools have no summary or report of their own.
pub proof fn lemma_other_tools_say_nothing(
    name: Seq<char>,
    result: JsonView,
    initial: Option<Seq<char>>,
)
    requires
        !is_team_tool(name),
    ensures
        team_summary(name, result) is None,
        team_report(name, result, initial) is None,
{
}

proof fn lemma_words_are_wanting(s: Seq<char>)
    ensures
        words(s).len() == 0 <==> is_blank(s),
{
    lemma_trim_blank(s);
}

/// A text compacts to nothing exactly where it is blank.
pub proof fn lemma_blank_compacts_to_nothing(text: Seq<char>)
    ensures
        compacted(text).len() == 0 <==> is_blank(text),
        compacted(text) == Seq::<char>::empty() <==> is_blank(text),
{
    lemma_words_are_wanting(text);
    let w = words(text);
    if w.len() > 0 {
        crate::text::lemma_first_word(text);
        lemma_join_is_longer(w, " "@);
    }
    if compacted(text).len() == 0 {
        assert(compacted(text) =~= Seq::<char>::empty());
    }
}

/// A joined text is at least as long as its first part.
proof fn lemma_join_is_longer(parts: Seq<Seq<char>>, sep: Seq<char>)
    requires
        parts.len() > 0,
    ensures
        join(parts, sep).len() >= parts[0].len(),
    decreases parts.len(),
{
    if parts.len() > 1 {
        lemma_join_is_longer(parts.drop_last(), sep);
    }
}

/// A failure says that it is one, and what went wrong where that is known, whatever
/// the tool. It never reads like the success of a tool that said nothing.
pub proof fn lemma_failures_are_told(tool: Option<Seq<char>>, text: Seq<char>)
    ensures
        is_blank(text) ==> text_summary(tool, text, true) == "Failed"@,
        !is_blank(text) ==> text_summary(tool, text, true) == "Failed: "@ + compacted(text),
        occurs_at(text_summary(tool, text, true), "Failed"@, 0),
        text_summary(tool, text, true) != "Running…"@,
        text_summary(tool, text, true) != "Completed"@,
{
    lemma_blank_compacts_to_nothing(text);
    reveal_strlit("Failed");
    reveal_strlit("Failed: ");
    reveal_strlit("Running…");
    reveal_strlit("Completed");
    let all = text_summary(tool, text, true);
    assert(all[0] == 'F');
    assert("Running…"@[0] == 'R' && "Completed"@[0] == 'C');
    assert(all.subrange(0, 6) =~= "Failed"@);
}

/// A success is summed up by what the tool has to say of it, else by the text that
/// it returned, and by a word where it returned none.
pub proof fn lemma_successes_are_told(tool: Seq<char>, text: Seq<char>)
    ensures
        tool == "bash"@ && is_blank(text) ==> text_summary(Some(tool), text, false)
            == "Bash command completed"@,
        tool == "bash"@ && !is_blank(text) ==> text_summary(Some(tool), text, false) == "Bash: "@
            + compacted(text),
        tool != "bash"@ && !is_team_tool(tool) && is_blank(text) ==> text_summary(
            Some(tool),
            text,
            false,
        ) == "Completed"@,
        tool != "bash"@ && !is_team_tool(tool) && !is_blank(text) ==> text_summary(
            Some(tool),
            text,
            false,
        ) == compacted(text),
        is_team_tool(tool) && parsed(text) is None && !is_blank(text) ==> text_summary(
            Some(tool),
            text,
            false,
        ) == compacted(text),
        is_team_tool(tool) && parsed(text) is Some && team_summary(tool, parsed(text)->0) is Some
            ==> text_summary(Some(tool), text, false) == team_summary(tool, parsed(text)->0)->0,
        is_team_tool(tool) && parsed(text) is Some && team_summary(tool, parsed(text)->0) is None
            && !is_blank(text) ==> text_summary(Some(tool), text, false) == compacted(text),
        is_blank(text) ==> text_summary(None, text, false) == "Completed"@,
        !is_blank(text) ==> text_summary(None, text, false) == compacted(text),
{
    lemma_tool_names();
    lemma_blank_compacts_to_nothing(text);
}

/// A failed call is reported with everything that it returned, and never as a
/// success.
pub proof fn lemma_failures_are_reported(
    tool: Option<Seq<char>>,
    text: Seq<char>,
    initial: Option<Seq<char>>,
)
    ensures
        is_blank(text) ==> text_report(tool, text, initial, true)
            == "Failed without a reported message."@,
        !is_blank(text) ==> text_report(tool, text, initial, true) == "Failed:\n"@ + text,
        occurs_at(text_report(tool, text, initial, true), "Failed"@, 0),
{
    lemma_trim_blank(text);
    reveal_strlit("Failed");
    reveal_strlit("Failed:\n");
    reveal_strlit("Failed without a reported message.");
    assert(text_report(tool, text, initial, true).subrange(0, 6) =~= "Failed"@);
}

/// A command is reported under what was said of it when it started, with what it
/// returned; other tools are reported with all of their text.
pub proof fn lemma_successes_are_reported(
    tool: Option<Seq<char>>,
    text: Seq<char>,
    initial: Seq<char>,
)
    ensures
        is_blank(text) ==> text_report(Some("bash"@), text, Some(initial), false) == initial
            + "\nCompleted."@,
        !is_blank(text) ==> text_report(Some("bash"@), text, Some(initial), false) == initial
            + "\nResult: "@ + compacted(text),
        is_blank(text) ==> text_report(Some("bash"@), text, None, false) == "Bash command"@
            + "\nCompleted."@,
        !is_blank(text) ==> text_report(Some("bash"@), text, None, false) == "Bash command"@
            + "\nResult: "@ + compacted(text),
        (tool matches Some(name) ==> name != "bash"@ && !is_team_tool(name)) && is_blank(text)
            ==> text_report(tool, text, Some(initial), false) == "Completed."@,
        (tool matches Some(name) ==> name != "bash"@ && !is_team_tool(name)) && !is_blank(text)
            ==> text_report(tool, text, Some(initial), false) == text,
        tool matches Some(name) && is_team_tool(name) && parsed(text) is Some && team_report(
            name,
            parsed(text)->0,
            Some(initial),
        ) is Some ==> text_report(tool, text, Some(initial), false) == team_report(
            tool->0,
            parsed(text)->0,
            Some(initial),
        )->0,
{
    lemma_tool_names();
    lemma_trim_blank(text);
    lemma_blank_compacts_to_nothing(text);
}

/// What a call of a command is about to do names the command, and says where it is
/// to run in the background.
pub proof fn lemma_command_reports(arguments: JsonView, command: Seq<char>)
    ensures
        arguments.text_at("command"@) == Some(command) && !is_blank(command) && arguments.truth_at(
            "background"@,
        ) == Some(true) ==> call_report("bash"@, Some(arguments)) == "Starting background command: "@
            + compacted(command),
        arguments.text_at("command"@) == Some(command) && !is_blank(command) && arguments.truth_at(
            "background"@,
        ) != Some(true) ==> call_report("bash"@, Some(arguments)) == "Running command: "@
            + compacted(command),
        arguments.text_at("command"@) == Some(command) && is_blank(command) ==> call_report(
            "bash"@,
            Some(arguments),
        ) == "Running Bash command."@,
        arguments.text_at("command"@) is None ==> call_report("bash"@, Some(arguments))
            == "Running Bash command."@,
        call_report("bash"@, None) == "Running Bash command."@,
{
    lemma_blank_compacts_to_nothing(command);
    reveal_strlit("");
    lemma_blank_compacts_to_nothing(""@);
}

/// What a call is about to do names what it is about: the file, the process, the
/// session or the agent of the call's own arguments.
pub proof fn lemma_call_reports_name_their_object(arguments: JsonView, object: Seq<char>)
    ensures
        arguments.text_at("path"@) == Some(object) ==> {
            &&& call_report("read"@, Some(arguments)) == "Reading "@ + object + "."@
            &&& call_report("write"@, Some(arguments)) == "Writing "@ + object + "."@
            &&& call_report("edit"@, Some(arguments)) == "Editing "@ + object + "."@
        },
        arguments.text_at("process_id"@) == Some(object) ==> {
            &&& call_report("read_process"@, Some(arguments)) == "Reading process "@ + object
                + "."@
            &&& call_report("stop_process"@, Some(arguments)) == "Stopping process "@ + object
                + "."@
        },
        arguments.text_at("target"@) == Some(object) ==> {
            &&& call_report("wait_agent"@, Some(arguments)) == "Waiting for "@ + object + "."@
            &&& call_report("interrupt_agent"@, Some(arguments)) == "Interrupting "@ + object
                + "."@
        },
        arguments.text_at("session_id"@) == Some(object) ==> call_report(
            "read_session"@,
            Some(arguments),
        ) == "Reading session "@ + object + "."@,
        arguments.text_at("query"@) == Some(object) && object.len() > 0 ==> call_report(
            "search_sessions"@,
            Some(arguments),
        ) == "Searching sessions for: "@ + compacted(object),
        arguments.text_at("query"@) == Some(object) && object.len() == 0 ==> call_report(
            "search_sessions"@,
            Some(arguments),
        ) == "Searching retained sessions."@,
        call_report("list_processes"@, Some(arguments)) == "Listing background processes."@,
        call_report("list_agents"@, Some(arguments)) == "Listing visible agents."@,
        call_report("read_messages"@, Some(arguments)) == "Reading queued messages."@,
        call_report("list_sessions"@, Some(arguments)) == "Discovering retained sessions."@,
{
    lemma_tool_names();
}

/// Where a call does not say what it is about, a general word stands for it.
pub proof fn lemma_call_reports_without_object(arguments: JsonView)
    ensures
        arguments.text_at("path"@) is None ==> {
            &&& call_report("read"@, Some(arguments)) == "Reading "@ + "file"@ + "."@
            &&& call_report("write"@, Some(arguments)) == "Writing "@ + "file"@ + "."@
            &&& call_report("edit"@, Some(arguments)) == "Editing "@ + "file"@ + "."@
        },
        arguments.text_at("process_id"@) is None ==> {
            &&& call_report("read_process"@, Some(arguments)) == "Reading process "@ + "unknown"@
                + "."@
            &&& call_report("stop_process"@, Some(arguments)) == "Stopping process "@ + "unknown"@
                + "."@
        },
        arguments.text_at("target"@) is None ==> {
            &&& call_report("wait_agent"@, Some(arguments)) == "Waiting for "@ + "agent"@ + "."@
            &&& call_report("interrupt_agent"@, Some(arguments)) == "Interrupting "@ + "agent"@
                + "."@
        },
        arguments.text_at("session_id"@) is None ==> call_report("read_session"@, Some(arguments))
            == "Reading session "@ + "unknown"@ + "."@,
        arguments.text_at("query"@) is None ==> call_report("search_sessions"@, Some(arguments))
            == "Searching retained sessions."@,
{
    lemma_tool_names();
    reveal_strlit("");
}

/// A new agent is announced under its name with its task, and a message with its
/// addressee and all of its text.
pub proof fn lemma_calls_to_agents_are_quoted(
    arguments: JsonView,
    name: Seq<char>,
    text: Seq<char>,
)
    ensures
        arguments.text_at("name"@) == Some(name) && arguments.text_at("task"@) == Some(text)
            && !is_blank(text) ==> call_report("spawn_agent"@, Some(arguments)) == "Starting "@
            + name + ":\n"@ + compacted(text),
        arguments.text_at("name"@) == Some(name) && arguments.text_at("task"@) == Some(text)
            && is_blank(text) ==> call_report("spawn_agent"@, Some(arguments)) == "Starting "@
            + name + "."@,
        arguments.text_at("name"@) == Some(name) && arguments.text_at("task"@) is None
            ==> call_report("spawn_agent"@, Some(arguments)) == "Starting "@ + name + "."@,
        arguments.text_at("target"@) == Some(name) && arguments.text_at("message"@) == Some(text)
            && text.len() > 0 ==> call_report("send_message"@, Some(arguments)) == "Sending to "@
            + name + ":\n"@ + text,
        arguments.text_at("target"@) == Some(name) && arguments.text_at("message"@) == Some(text)
            && text.len() == 0 ==> call_report("send_message"@, Some(arguments))
            == "Sending a message to "@ + name + "."@,
        arguments.text_at("target"@) == Some(name) && arguments.text_at("message"@) is None
            ==> call_report("send_message"@, Some(arguments)) == "Sending a message to "@ + name
            + "."@,
{
    lemma_tool_names();
    lemma_blank_compacts_to_nothing(text);
    reveal_strlit("");
    lemma_blank_compacts_to_nothing(""@);
}

/// A call of any other tool is only said to run.
pub proof fn lemma_other_calls_run(name: Seq<char>, arguments: Option<JsonView>)
    requires
        !is_team_tool(name),
        name != "bash"@,
        name != "read"@,
        name != "write"@,
        name != "edit"@,
    ensures
        call_report(name, arguments) == "Running."@,
{
}

/// A process is reported under its id with its status.
pub proof fn lemma_process_reports(
    result: JsonView,
    process: JsonView,
    id: Seq<char>,
    status: Seq<char>,
    initial: Option<Seq<char>>,
)
    requires
        result.field("process"@) == Some(process),
        process.text_at("id"@) == Some(id),
    ensures
        process.text_at("status"@) == Some(status) ==> team_report("read_process"@, result, initial)
            == Some("Process "@ + id + " · "@ + status),
        process.text_at("status"@) is None ==> team_report("read_process"@, result, initial)
            == Some("Process "@ + id + " · "@ + "unknown"@),
        team_report("stop_process"@, result, initial) == Some("Stopped process "@ + id),
{
    lemma_tool_names();
}

/// A new agent is reported under its name and level, an interrupted one under the
/// name that was given.
pub proof fn lemma_agent_reports(
    result: JsonView,
    name: Seq<char>,
    level: u64,
    initial: Option<Seq<char>>,
)
    ensures
        result.text_at("name"@) == Some(name) && result.unsigned_at("level"@) == Some(level)
            ==> team_report("spawn_agent"@, result, initial) == Some(
            "Created "@ + name + " at level "@ + decimal(level as nat) + "."@,
        ),
        result.text_at("target"@) == Some(name) ==> team_report("interrupt_agent"@, result, initial)
            == Some("Interrupted "@ + name + "."@),
{
    lemma_tool_names();
}

/// The report on a message begins with what was said when it was sent, and tells a
/// message that waits from one that arrived and from one that did not.
pub proof fn lemma_sent_reports(result: JsonView, initial: Seq<char>, count: u64)
    ensures
        result.truth_at("delivered"@) == Some(true) && result.truth_at("queued"@) == Some(true)
            ==> team_report("send_message"@, result, Some(initial)) == Some(
            initial + "\n\nQueued for delivery when the level-0 session resumes."@,
        ),
        result.truth_at("delivered"@) == Some(true) && result.truth_at("queued"@) != Some(true)
            && result.unsigned_at("count"@) == Some(count) ==> team_report(
            "send_message"@,
            result,
            Some(initial),
        ) == Some(initial + "\n\nDelivered to "@ + decimal(count as nat) + " agent(s)."@),
        result.truth_at("delivered"@) == Some(true) && result.truth_at("queued"@) != Some(true)
            && result.unsigned_at("count"@) is None ==> team_report(
            "send_message"@,
            result,
            Some(initial),
        ) == Some(initial + "\n\nDelivered to "@ + decimal(1) + " agent(s)."@),
        result.truth_at("delivered"@) != Some(true) ==> team_report(
            "send_message"@,
            result,
            Some(initial),
        ) == Some(initial),
{
    lemma_tool_names();
}

/// An item that is turned into something is found again among what is kept.
pub proof fn lemma_kept_item<A, B>(v: Seq<A>, f: spec_fn(A) -> Option<B>, i: int)
    requires
        0 <= i < v.len(),
        f(v[i]) is Some,
    ensures
        exists|k: int|
            0 <= k < keep_map(v, f).len() && #[trigger] keep_map(v, f)[k] == f(v[i])->0,
    decreases v.len(),
{
    let all = keep_map(v, f);
    if i == v.len() - 1 {
        assert(all[all.len() - 1] == f(v[i])->0);
    } else {
        lemma_kept_item(v.drop_last(), f, i);
        let head = keep_map(v.drop_last(), f);
        let k = choose|k: int| 0 <= k < head.len() && #[trigger] head[k] == f(v[i])->0;
        assert(all[k] == head[k]);
    }
}

/// What is kept comes from an item.
pub proof fn lemma_kept_from<A, B>(v: Seq<A>, f: spec_fn(A) -> Option<B>, k: int)
    requires
        0 <= k < keep_map(v, f).len(),
    ensures
        exists|i: int| 0 <= i < v.len() && #[trigger] f(v[i]) == Some(keep_map(v, f)[k]),
    decreases v.len(),
{
    let all = keep_map(v, f);
    let head = keep_map(v.drop_last(), f);
    if k < head.len() {
        lemma_kept_from(v.drop_last(), f, k);
        let i = choose|i: int| 0 <= i < v.len() - 1 && #[trigger] f(v.drop_last()[i]) == Some(head[k]);
        assert(f(v[i]) == Some(all[k]));
    } else {
        assert(f(v[v.len() - 1]) == Some(all[k]));
    }
}

/// Every part of a joined text stands in it.
pub proof fn lemma_parts_are_joined(parts: Seq<Seq<char>>, sep: Seq<char>, k: int)
    requires
        0 <= k < parts.len(),
    ensures
        occurs(join(parts, sep), parts[k]),
    decreases parts.len(),
{
    let all = join(parts, sep);
    if parts.len() == 1 {
        assert(all.subrange(0, all.len() as int) =~= parts[k]);
        assert(occurs_at(all, parts[k], 0));
    } else {
        let head = join(parts.drop_last(), sep);
        if k == parts.len() - 1 {
            let at = (head.len() + sep.len()) as int;
            assert(all.subrange(at, at + parts[k].len()) =~= parts[k]);
            assert(occurs_at(all, parts[k], at));
        } else {
            lemma_parts_are_joined(parts.drop_last(), sep, k);
            let at = choose|at: int| #[trigger] occurs_at(head, parts.drop_last()[k], at);
            assert(all.subrange(at, at + parts[k].len()) =~= head.subrange(
                at,
                at + parts[k].len(),
            ));
            assert(occurs_at(all, parts[k], at));
        }
    }
}

/// What is kept of the items of a list stands in the text that they are joined to.
proof fn lemma_kept_is_joined(
    v: Seq<JsonView>,
    f: spec_fn(JsonView) -> Option<Seq<char>>,
    sep: Seq<char>,
    i: int,
)
    requires
        0 <= i < v.len(),
        f(v[i]) is Some,
    ensures
        occurs(join(keep_map(v, f), sep), f(v[i])->0),
        keep_map(v, f).len() > 0,
{
    lemma_kept_item(v, f, i);
    let parts = keep_map(v, f);
    let k = choose|k: int| 0 <= k < parts.len() && #[trigger] parts[k] == f(v[i])->0;
    lemma_parts_are_joined(parts, sep, k);
}

/// Whether a text stands in a report.
pub open spec fn is_told(report: Option<Seq<char>>, text: Seq<char>) -> bool {
    match report {
        Some(report) => occurs(report, text),
        None => false,
    }
}

proof fn lemma_told_behind(start: Seq<char>, rest: Seq<char>, text: Seq<char>)
    requires
        occurs(rest, text),
    ensures
        occurs(start + rest, text),
{
    let at = choose|at: int| #[trigger] occurs_at(rest, text, at);
    let all = start + rest;
    let p = start.len() + at;
    assert(all.subrange(p, p + text.len()) =~= rest.subrange(at, at + text.len()));
    assert(occurs_at(all, text, p));
}

/// Every visible agent that has a name and a level is reported with both, with its
/// status and with its session.
pub proof fn lemma_agents_are_listed(
    result: JsonView,
    agents: Seq<JsonView>,
    i: int,
    name: Seq<char>,
    level: u64,
    status: Seq<char>,
    session: Seq<char>,
)
    requires
        result.items_at("agents"@) == Some(agents),
        0 <= i < agents.len(),
        agents[i].text_at("name"@) == Some(name),
        agents[i].unsigned_at("level"@) == Some(level),
        agents[i].text_at("status"@) == Some(status),
        agents[i].text_at("session_id"@) == Some(session),
    ensures
        is_told(
            team_report("list_agents"@, result, None),
            "- "@ + name + " · level "@ + decimal(level as nat) + " · "@ + status + " · session "@
                + session,
        ),
{
    lemma_tool_names();
    let f = |a: JsonView| crate::protocol::agent_line(a);
    lemma_kept_is_joined(agents, f, "\n"@, i);
    let line = "- "@ + name + " · level "@ + decimal(level as nat) + " · "@ + status + " · session "@
        + session;
    assert(f(agents[i]) == Some(line));
    lemma_told_behind("Visible agents:\n"@, join(keep_map(agents, f), "\n"@), line);
}

/// Every queued message that has a sender and a text is reported with both.
pub proof fn lemma_messages_are_listed(
    result: JsonView,
    messages: Seq<JsonView>,
    i: int,
    sender: Seq<char>,
    text: Seq<char>,
)
    requires
        result.items_at("messages"@) == Some(messages),
        0 <= i < messages.len(),
        messages[i].text_at("sender_name"@) == Some(sender),
        messages[i].text_at("content"@) == Some(text),
    ensures
        is_told(
            team_report("read_messages"@, result, None),
            "- "@ + sender + ": "@ + trim(text),
        ),
{
    lemma_tool_names();
    let f = |m: JsonView| crate::protocol::message_line(m);
    assert(f(messages[i]) == Some("- "@ + sender + ": "@ + trim(text)));
    lemma_kept_is_joined(messages, f, "\n"@, i);
}

/// Where nobody wrote anything, the report says so.
pub proof fn lemma_no_messages(result: JsonView, messages: Seq<JsonView>)
    requires
        result.items_at("messages"@) == Some(messages),
        forall|i: int|
            0 <= i < messages.len() ==> (#[trigger] messages[i]).text_at("sender_name"@) is None
                || messages[i].text_at("content"@) is None,
    ensures
        team_report("read_messages"@, result, None) == Some("No queued messages."@),
{
    lemma_tool_names();
    let f = |m: JsonView| crate::protocol::message_line(m);
    if keep_map(messages, f).len() > 0 {
        lemma_kept_from(messages, f, 0);
    }
}

/// Where no agent has a name and a level, the report says that none is visible.
pub proof fn lemma_no_agents(result: JsonView, agents: Seq<JsonView>)
    requires
        result.items_at("agents"@) == Some(agents),
        forall|i: int|
            0 <= i < agents.len() ==> (#[trigger] agents[i]).text_at("name"@) is None
                || agents[i].unsigned_at("level"@) is None,
    ensures
        team_report("list_agents"@, result, None) == Some("No agents are visible."@),
{
    lemma_tool_names();
    let f = |a: JsonView| crate::protocol::agent_line(a);
    if keep_map(agents, f).len() > 0 {
        lemma_kept_from(agents, f, 0);
    }
}

/// Every retained session is reported with its name, level, status and id, below the
/// number of those shown and of all.
pub proof fn lemma_sessions_are_listed(
    result: JsonView,
    sessions: Seq<JsonView>,
    i: int,
    name: Seq<char>,
    level: u64,
    status: Seq<char>,
    id: Seq<char>,
    pages: JsonView,
    total: u64,
)
    requires
        result.items_at("sessions"@) == Some(sessions),
        0 <= i < sessions.len(),
        sessions[i].text_at("name"@) == Some(name),
        sessions[i].unsigned_at("level"@) == Some(level),
        sessions[i].text_at("status"@) == Some(status),
        sessions[i].text_at("session_id"@) == Some(id),
        result.field("pagination"@) == Some(pages),
        pages.unsigned_at("total"@) == Some(total),
    ensures
        is_told(
            team_report("list_sessions"@, result, None),
            "- "@ + name + " · level "@ + decimal(level as nat) + " · "@ + status + " · "@ + id,
        ),
        ({
            let report = team_report("list_sessions"@, result, None)->0;
            occurs_at(
                report,
                "Retained sessions ("@ + decimal(sessions.len()) + " of "@ + decimal(total as nat)
                    + "):\n"@,
                0,
            )
        }),
{
    lemma_tool_names();
    let f = |s: JsonView| crate::protocol::session_line(s);
    let lines = sessions.map_values(f);
    let line = "- "@ + name + " · level "@ + decimal(level as nat) + " · "@ + status + " · "@ + id;
    assert(lines[i] == line);
    lemma_parts_are_joined(lines, "\n"@, i);
    let start = "Retained sessions ("@ + decimal(sessions.len()) + " of "@ + decimal(total as nat)
        + "):\n"@;
    lemma_told_behind(start, join(lines, "\n"@), line);
    assert((start + join(lines, "\n"@)).subrange(0, start.len() as int) =~= start);
}

/// Every match of a search is reported with its session, role and snippet, below the
/// number of those shown and of all.
pub proof fn lemma_matches_are_listed(
    result: JsonView,
    matches: Seq<JsonView>,
    i: int,
    id: Seq<char>,
    entry: Seq<char>,
    role: Seq<char>,
    snippet: Seq<char>,
)
    requires
        result.items_at("matches"@) == Some(matches),
        0 <= i < matches.len(),
        matches[i].text_at("session_id"@) == Some(id),
        matches[i].text_at("entry_id"@) == Some(entry),
        matches[i].text_at("role"@) == Some(role),
        matches[i].text_at("snippet"@) == Some(snippet),
        result.field("pagination"@) is None,
    ensures
        is_told(
            team_report("search_sessions"@, result, None),
            "- "@ + id + (" · entry "@ + entry) + " · "@ + role + ": "@ + snippet,
        ),
        ({
            let report = team_report("search_sessions"@, result, None)->0;
            occurs_at(
                report,
                "Session matches ("@ + decimal(matches.len()) + " of "@ + decimal(matches.len())
                    + "):\n"@,
                0,
            )
        }),
{
    lemma_tool_names();
    let f = |s: JsonView| crate::protocol::match_line(s);
    let lines = matches.map_values(f);
    let line = "- "@ + id + (" · entry "@ + entry) + " · "@ + role + ": "@ + snippet;
    assert(lines[i] == line);
    lemma_parts_are_joined(lines, "\n"@, i);
    let start = "Session matches ("@ + decimal(matches.len()) + " of "@ + decimal(matches.len())
        + "):\n"@;
    lemma_told_behind(start, join(lines, "\n"@), line);
    assert((start + join(lines, "\n"@)).subrange(0, start.len() as int) =~= start);
}

/// A list that holds nothing is reported as empty, with the number that there are
/// on every page.
pub proof fn lemma_empty_lists(result: JsonView, pages: JsonView, total: u64)
    requires
        result.field("pagination"@) == Some(pages),
        pages.unsigned_at("total"@) == Some(total),
    ensures
        result.items_at("sessions"@) == Some(Seq::<JsonView>::empty()) ==> team_report(
            "list_sessions"@,
            result,
            None,
        ) == Some("No retained sessions found (0 of "@ + decimal(total as nat) + ")."@),
        result.items_at("matches"@) == Some(Seq::<JsonView>::empty()) ==> team_report(
            "search_sessions"@,
            result,
            None,
        ) == Some("No matches found (0 of "@ + decimal(total as nat) + ")."@),
{
    lemma_tool_names();
}

proof fn lemma_joined_headline(headline: Seq<char>, rest: Seq<Seq<char>>, sep: Seq<char>)
    ensures
        occurs_at(join(seq![headline] + rest, sep), headline, 0),
    decreases rest.len(),
{
    let parts = seq![headline] + rest;
    let all = join(parts, sep);
    if rest.len() == 0 {
        assert(all.subrange(0, headline.len() as int) =~= headline);
    } else {
        assert(parts.drop_last() =~= seq![headline] + rest.drop_last());
        lemma_joined_headline(headline, rest.drop_last(), sep);
        let head = join(parts.drop_last(), sep);
        assert(all.subrange(0, headline.len() as int) =~= head.subrange(0, headline.len() as int));
    }
}

/// The report on a waiting begins with how it ended.
pub proof fn lemma_wait_reports_begin(
    result: JsonView,
    agent: JsonView,
    name: Seq<char>,
    status: Seq<char>,
    initial: Option<Seq<char>>,
)
    requires
        result.field("agent"@) == Some(agent),
        agent.text_at("name"@) == Some(name),
        result.text_at("wait_status"@) == Some(status),
    ensures
        team_report("wait_agent"@, result, initial) is Some,
        ({
            let report = team_report("wait_agent"@, result, initial)->0;
            &&& status == "message"@ ==> occurs_at(
                report,
                "Received an update from "@ + name + "."@,
                0,
            )
            &&& status == "completed"@ ==> occurs_at(report, name + " finished."@, 0)
            &&& status == "timeout"@ ==> occurs_at(report, name + " is still running."@, 0)
            &&& status != "message"@ && status != "completed"@ && status != "timeout"@ ==> occurs_at(
                report,
                name + ": "@ + status,
                0,
            )
        }),
{
    lemma_tool_names();
    reveal_strlit("completed");
    reveal_strlit("message");
    reveal_strlit("timeout");
    assert("completed"@.len() == 9 && "message"@.len() == 7 && "timeout"@.len() == 7);
    assert("message"@[0] == 'm' && "timeout"@[0] == 't');
    let headline = crate::protocol::wait_headline(name, status);
    let all = crate::protocol::wait_sections(result, name, status);
    let rest = all.skip(1);
    assert(all[0] == headline);
    assert(all =~= seq![headline] + rest);
    lemma_joined_headline(headline, rest, "\n\n"@);
}

/// What an agent returned and what went wrong with it both stand in the report on
/// waiting for it, each under its own label.
pub proof fn lemma_wait_reports_the_outcome(
    result: JsonView,
    agent: JsonView,
    name: Seq<char>,
    status: Seq<char>,
    outcome: JsonView,
    text: Seq<char>,
)
    requires
        result.field("agent"@) == Some(agent),
        agent.text_at("name"@) == Some(name),
        result.text_at("wait_status"@) == Some(status),
        result.field("outcome"@) == Some(outcome),
        !is_blank(text),
    ensures
        outcome.text_at("output"@) == Some(text) ==> is_told(
            team_report("wait_agent"@, result, None),
            "Returned:\n"@ + trim(text),
        ),
        outcome.text_at("error"@) == Some(text) ==> is_told(
            team_report("wait_agent"@, result, None),
            "Error:\n"@ + trim(text),
        ),
{
    lemma_tool_names();
    lemma_trim_blank(text);
    let all = crate::protocol::wait_sections(result, name, status);
    let head = seq![crate::protocol::wait_headline(name, status)]
        + crate::protocol::wait_messages(result.items_at("messages"@));
    let output = crate::protocol::labelled(outcome.text_at("output"@), "Returned:\n"@);
    let n = head.len() as int;
    if outcome.text_at("output"@) == Some(text) {
        assert(all[n] == output[0]);
        lemma_parts_are_joined(all, "\n\n"@, n);
    }
    if outcome.text_at("error"@) == Some(text) {
        let k = n + output.len();
        let error = crate::protocol::labelled(outcome.text_at("error"@), "Error:\n"@);
        assert(all[k] == error[0]);
        lemma_parts_are_joined(all, "\n\n"@, k);
    }
}

/// A session that was read is reported with its id, the agent's name and level,
/// whether it can be written to, and how much of it there is.
pub proof fn lemma_session_reports(
    result: JsonView,
    agent: JsonView,
    name: Seq<char>,
    level: u64,
    id: Seq<char>,
    entries: Seq<JsonView>,
    access: JsonView,
    selection: JsonView,
    detail: Seq<char>,
)
    requires
        result.field("agent"@) == Some(agent),
        agent.text_at("name"@) == Some(name),
        agent.unsigned_at("level"@) == Some(level),
        result.text_at("session_id"@) == Some(id),
        result.items_at("conversation"@) == Some(entries),
        result.field("access"@) == Some(access),
        result.field("selection"@) == Some(selection),
        selection.text_at("detail"@) == Some(detail),
    ensures
        ({
            let report = team_report("read_session"@, result, None);
            let who = "Session "@ + id + "\n"@ + name + " · level "@ + decimal(level as nat);
            let rights = if access.truth_at("send_message"@) == Some(true) {
                " · message allowed\n"@
            } else {
                " · read-only\n"@
            };
            &&& entries.len() == 0 ==> report == Some(who + rights + "No conversation entries."@)
            &&& entries.len() > 0 && selection.truth_at("truncated"@) == Some(true) ==> report
                == Some(
                who + rights + (decimal(entries.len()) + " "@ + detail
                    + " entries returned (truncated)."@),
            )
            &&& entries.len() > 0 && selection.truth_at("truncated"@) != Some(true) ==> report
                == Some(
                who + rights + (decimal(entries.len()) + " "@ + detail + " entries returned."@),
            )
        }),
        " · message allowed\n"@ != " · read-only\n"@,
        " entries returned (truncated)."@ != " entries returned."@,
{
    lemma_tool_names();
    reveal_strlit(" · message allowed\n");
    reveal_strlit(" · read-only\n");
    reveal_strlit(" entries returned (truncated).");
    reveal_strlit(" entries returned.");
    assert(" · message allowed\n"@.len() != " · read-only\n"@.len());
    assert(" entries returned (truncated)."@.len() != " entries returned."@.len());
}

/// Every text part of a message's content stands in its text.
pub proof fn lemma_content_holds_its_parts(parts: Seq<JsonView>, i: int, text: Seq<char>)
    requires
        0 <= i < parts.len(),
        parts[i].text_at("text"@) == Some(text),
    ensures
        is_told(content_of(Some(JsonView::Array(parts))), text),
{
    let f = |part: JsonView| crate::protocol::part_text(part);
    assert(f(parts[i]) == Some(text));
    lemma_kept_is_joined(parts, f, "\n"@, i);
}

/// A text is its own content, a single text part is the content of its list, and
/// what is neither text nor list has none.
pub proof fn lemma_plain_content(content: JsonView, part: JsonView, text: Seq<char>)
    ensures
        content_of(Some(JsonView::Str(text))) == Some(text),
        part.text_at("text"@) == Some(text) ==> content_of(Some(JsonView::Array(seq![part])))
            == Some(text),
        content_of(Some(content)) is None <==> !(content is Str || content is Array),
        content_of(None) is None,
{
    let f = |part: JsonView| crate::protocol::part_text(part);
    reveal_with_fuel(keep_map, 2);
    assert(seq![part].drop_last() =~= Seq::<JsonView>::empty());
    if part.text_at("text"@) == Some(text) {
        assert(f(part) == Some(text));
        assert(keep_map(seq![part], f) =~= seq![text]);
    }
}

/// Texts and reasoning of a reply stand in its text, reasoning between its tags.
pub proof fn lemma_reply_holds_its_parts(
    message: JsonView,
    parts: Seq<JsonView>,
    i: int,
    text: Seq<char>,
)
    requires
        message.field("content"@) == Some(JsonView::Array(parts)),
        0 <= i < parts.len(),
    ensures
        parts[i].text_at("type"@) != Some("thinking"@) && parts[i].text_at("text"@) == Some(text)
            ==> is_told(Some(reply_text(message)), text),
        parts[i].text_at("type"@) == Some("thinking"@) && parts[i].text_at("thinking"@) == Some(
            text,
        ) && !is_blank(text) ==> is_told(
            Some(reply_text(message)),
            "<thinking>\n"@ + trim(text) + "\n</thinking>"@,
        ),
{
    lemma_trim_blank(text);
    let f = |part: JsonView| crate::protocol::reply_block(part);
    if f(parts[i]) is Some {
        lemma_kept_is_joined(parts, f, "\n\n"@, i);
    }
}

/// A reply whose parts are all without text, or reasoning that is blank, is empty;
/// one that is a text is that text.
pub proof fn lemma_empty_reply(message: JsonView, parts: Seq<JsonView>, text: Seq<char>)
    ensures
        message.field("content"@) == Some(JsonView::Str(text)) ==> reply_text(message) == text,
        message.field("content"@) is None ==> reply_text(message).len() == 0,
        message.field("content"@) == Some(JsonView::Array(parts)) && (forall|i: int|
            0 <= i < parts.len() ==> if (#[trigger] parts[i]).text_at("type"@) == Some(
                "thinking"@,
            ) {
                parts[i].text_at("thinking"@) matches Some(t) ==> is_blank(t)
            } else {
                parts[i].text_at("text"@) is None
            }) ==> reply_text(message).len() == 0,
{
    let f = |part: JsonView| crate::protocol::reply_block(part);
    if message.field("content"@) == Some(JsonView::Array(parts)) && keep_map(parts, f).len() > 0 {
        lemma_kept_from(parts, f, 0);
        let i = choose|i: int|
            0 <= i < parts.len() && #[trigger] f(parts[i]) == Some(keep_map(parts, f)[0]);
        if let Some(t) = parts[i].text_at("thinking"@) {
            lemma_trim_blank(t);
        }
        assert(f(parts[i]) is Some);
    }
}

/// The details of a finished call hold its result, whether it failed, and the
/// arguments that the details of its start recorded. Other events are kept whole.
pub proof fn lemma_details_of_events(event: JsonView, previous: Seq<char>, start: JsonView)
    ensures
        event.text_at("type"@) != Some("tool_execution_end"@) ==> event_details(
            event,
            Some(previous),
        ) == event,
        event.text_at("type"@) == Some("tool_execution_end"@) ==> {
            let details = event_details(event, Some(previous));
            &&& event.field("result"@) is Some ==> details.field("result"@) == event.field(
                "result"@,
            )
            &&& event.field("result"@) is None ==> details.field("result"@) == Some(JsonView::Null)
            &&& details.truth_at("is_error"@) == Some(event.truth_at("isError"@) == Some(true))
            &&& parsed(previous) == Some(start) && start.field("input"@) is Some
                ==> details.field("input"@) == start.field("input"@)
            &&& parsed(previous) == Some(start) && start.field("input"@) is None && start.field(
                "args"@,
            ) is Some ==> details.field("input"@) == start.field("args"@)
            &&& parsed(previous) is None ==> details.field("input"@) == Some(JsonView::Null)
        },
{
    reveal_strlit("input");
    reveal_strlit("result");
    reveal_strlit("is_error");
    assert("input"@.len() == 5 && "result"@.len() == 6 && "is_error"@.len() == 8);
    if event.text_at("type"@) == Some("tool_execution_end"@) {
        let details = event_details(event, Some(previous));
        let m = details->Object_0;
        reveal_with_fuel(crate::json::lookup, 4);
        assert(m.len() == 3);
        assert(m.drop_first()[0] == m[1]);
        assert(m.drop_first().drop_first()[0] == m[2]);
    }
}

/// The figures of a session are those of its report, each from its own place, and
/// none where the report has none.
pub proof fn lemma_metrics_are_reported(value: JsonView, cost: u64, tokens: JsonView, n: u64)
    ensures
        value.unsigned_at("totalMessages"@) == Some(n) ==> metrics_of(value, cost).total_messages
            == n,
        value.unsigned_at("userMessages"@) == Some(n) ==> metrics_of(value, cost).user_messages
            == n,
        value.unsigned_at("assistantMessages"@) == Some(n) ==> metrics_of(
            value,
            cost,
        ).assistant_messages == n,
        value.unsigned_at("toolCalls"@) == Some(n) ==> metrics_of(value, cost).tool_calls == n,
        value.field("tokens"@) == Some(tokens) && tokens.unsigned_at("total"@) == Some(n)
            ==> metrics_of(value, cost).total_tokens == n,
        value.unsigned_at("totalMessages"@) is None ==> metrics_of(value, cost).total_messages == 0,
        value.unsigned_at("userMessages"@) is None ==> metrics_of(value, cost).user_messages == 0,
        value.unsigned_at("assistantMessages"@) is None ==> metrics_of(
            value,
            cost,
        ).assistant_messages == 0,
        value.unsigned_at("toolCalls"@) is None ==> metrics_of(value, cost).tool_calls == 0,
        value.field("tokens"@) is None ==> metrics_of(value, cost).total_tokens == 0,
        metrics_of(value, cost).cost_microusd == cost,
{
}

/// A model is known by its provider and its id and by nothing else. It goes by the
/// name that it is given, and by its id without one; its provider goes by the
/// configured name, else by the one that comes with the model, else by its key.
pub proof fn lemma_models_are_named(
    value: JsonView,
    names: Map<Seq<char>, Seq<char>>,
    provider: Seq<char>,
    id: Seq<char>,
)
    ensures
        model_of(value, names) is Some <==> value.text_at("provider"@) is Some && value.text_at(
            "id"@,
        ) is Some,
        value.text_at("provider"@) == Some(provider) && value.text_at("id"@) == Some(id) ==> {
            let model = model_of(value, names)->0;
            &&& model.provider == provider
            &&& model.id == id
            &&& value.text_at("name"@) is Some ==> Some(model.name) == value.text_at("name"@)
            &&& value.text_at("name"@) is None ==> model.name == id
            &&& names.contains_key(provider) ==> model.provider_name == names[provider]
            &&& !names.contains_key(provider) && value.text_at("providerName"@) is Some ==> Some(
                model.provider_name,
            ) == value.text_at("providerName"@)
            &&& !names.contains_key(provider) && value.text_at("providerName"@) is None
                ==> model.provider_name == provider
        },
{
}

/// Messages are delivered all at once exactly where the mode's name says so.
pub proof fn lemma_modes_are_named(value: Seq<char>)
    ensures
        mode_named(value) == QueueMode::All <==> value == "all"@,
        mode_name(QueueMode::All) == "all"@,
        mode_name(QueueMode::OneAtATime) == "one-at-a-time"@,
{
}

/// A text on one line keeps its words, one space between each two, and is cut behind its
/// eighty-fourth character where it is longer, with an ellipsis for the rest.
pub proof fn lemma_texts_are_compacted(text: Seq<char>)
    ensures
        ({
            let line = join(words(text), " "@);
            &&& line.len() <= 84 ==> compacted(text) == line
            &&& line.len() > 84 ==> compacted(text) == line.take(84) + "…"@
        }),
{
}

/// A text of words alone with single spaces between them is left as it is, where it is
/// short.
pub proof fn lemma_short_words_stay(word: Seq<char>, c: char)
    requires
        0 < word.len() <= 84,
        forall|i: int| 0 <= i < word.len() ==> !is_white_space(#[trigger] word[i]),
        is_white_space(c),
    ensures
        compacted(word) == word,
        compacted(word.push(c)) == word,
        compacted(seq![c] + word) == word,
{
    lemma_single_word(word);
    let behind = word.push(c);
    let before = seq![c] + word;
    assert(before.drop_first() =~= word);
    assert(crate::text::trim_start(before) == crate::text::trim_start(word));
    assert(words(before) =~= words(word));
    lemma_word_before_space(word, c);
}

proof fn lemma_single_word(word: Seq<char>)
    requires
        0 < word.len(),
        forall|i: int| 0 <= i < word.len() ==> !is_white_space(#[trigger] word[i]),
    ensures
        words(word) == seq![word],
{
    lemma_solid_len(word, Seq::empty());
    assert(word + Seq::<char>::empty() =~= word);
    assert(word.take(word.len() as int) =~= word);
    let rest = word.skip(word.len() as int);
    assert(rest =~= Seq::<char>::empty());
    assert(words(rest) =~= Seq::empty());
    assert(words(word) =~= seq![word]);
}

proof fn lemma_word_before_space(word: Seq<char>, c: char)
    requires
        0 < word.len(),
        forall|i: int| 0 <= i < word.len() ==> !is_white_space(#[trigger] word[i]),
        is_white_space(c),
    ensures
        words(word.push(c)) == seq![word],
{
    let all = word.push(c);
    assert(all =~= word + seq![c]);
    lemma_solid_len(word, seq![c]);
    assert(all.first() == word[0]);
    assert(all.take(word.len() as int) =~= word);
    let rest = all.skip(word.len() as int);
    assert(rest =~= seq![c]);
    lemma_words_are_wanting(rest);
    assert(words(rest) =~= Seq::empty());
    assert(words(all) =~= seq![word]);
}

proof fn lemma_solid_len(word: Seq<char>, rest: Seq<char>)
    requires
        forall|i: int| 0 <= i < word.len() ==> !is_white_space(#[trigger] word[i]),
        rest.len() > 0 ==> is_white_space(rest[0]),
    ensures
        crate::text::word_len(word + rest) == word.len(),
    decreases word.len(),
{
    let all = word + rest;
    if word.len() > 0 {
        assert(all.first() == word[0]);
        assert(all.drop_first() =~= word.drop_first() + rest);
        let tail = word.drop_first();
        assert(forall|i: int| 0 <= i < tail.len() ==> #[trigger] tail[i] == word[i + 1]);
        lemma_solid_len(tail, rest);
    }
}

/// Where every item is turned into something, all of it is kept in its order.
proof fn lemma_all_kept<A, B>(v: Seq<A>, f: spec_fn(A) -> Option<B>, w: Seq<B>)
    requires
        v.len() == w.len(),
        forall|i: int| 0 <= i < v.len() ==> f(#[trigger] v[i]) == Some(w[i]),
    ensures
        keep_map(v, f) == w,
    decreases v.len(),
{
    if v.len() == 0 {
        assert(keep_map(v, f) =~= w);
    } else {
        let n = v.len() - 1;
        assert(f(v[n]) == Some(w[n]));
        assert forall|i: int| 0 <= i < n implies f(#[trigger] v.drop_last()[i]) == Some(
            w.drop_last()[i],
        ) by {
            assert(f(v[i]) == Some(w[i]));
        }
        lemma_all_kept(v.drop_last(), f, w.drop_last());
        assert(keep_map(v, f) =~= w);
    }
}

/// The text parts of a content stand below each other, those of a reply with an empty
/// line between them, in their order.
pub proof fn lemma_parts_stand_in_order(
    message: JsonView,
    parts: Seq<JsonView>,
    texts: Seq<Seq<char>>,
)
    requires
        message.field("content"@) == Some(JsonView::Array(parts)),
        parts.len() == texts.len(),
        forall|i: int|
            0 <= i < parts.len() ==> (#[trigger] parts[i]).text_at("text"@) == Some(texts[i])
                && parts[i].text_at("type"@) != Some("thinking"@),
    ensures
        content_of(Some(JsonView::Array(parts))) == Some(join(texts, "\n"@)),
        reply_text(message) == join(texts, "\n\n"@),
        parts.len() == 2 ==> content_of(Some(JsonView::Array(parts))) == Some(
            texts[0] + "\n"@ + texts[1],
        ),
        parts.len() == 2 ==> reply_text(message) == texts[0] + "\n\n"@ + texts[1],
{
    lemma_all_kept(parts, |part: JsonView| crate::protocol::part_text(part), texts);
    lemma_all_kept(parts, |part: JsonView| crate::protocol::reply_block(part), texts);
    reveal_with_fuel(join, 3);
    if texts.len() == 2 {
        assert(texts.drop_last()[0] == texts[0]);
    }
}

/// A part without text leaves a content as it is.
pub proof fn lemma_parts_without_text(parts: Seq<JsonView>, part: JsonView)
    requires
        part.text_at("text"@) is None,
    ensures
        content_of(Some(JsonView::Array(parts.push(part)))) == content_of(
            Some(JsonView::Array(parts)),
        ),
{
    assert(parts.push(part).drop_last() =~= parts);
}

/// A line on a message of an agent: who sent it, and what it says.
pub open spec fn told_by(message: JsonView, line: Seq<char>) -> bool {
    &&& message.text_at("sender_name"@) is Some
    &&& message.text_at("content"@) is Some
    &&& line == "- "@ + message.text_at("sender_name"@)->0 + ": "@ + trim(
        message.text_at("content"@)->0,
    )
}

/// Messages are reported one per line, in their order; those that came while an agent
/// was waited for stand under a heading of their own.
pub proof fn lemma_messages_stand_in_order(
    result: JsonView,
    messages: Seq<JsonView>,
    lines: Seq<Seq<char>>,
    agent: JsonView,
    name: Seq<char>,
    status: Seq<char>,
)
    requires
        result.items_at("messages"@) == Some(messages),
        messages.len() > 0,
        messages.len() == lines.len(),
        forall|i: int| 0 <= i < messages.len() ==> told_by(#[trigger] messages[i], lines[i]),
    ensures
        team_report("read_messages"@, result, None) == Some(join(lines, "\n"@)),
        result.field("agent"@) == Some(agent) && agent.text_at("name"@) == Some(name)
            && result.text_at("wait_status"@) == Some(status) ==> is_told(
            team_report("wait_agent"@, result, None),
            "Messages:\n"@ + join(lines, "\n"@),
        ),
{
    lemma_tool_names();
    let f = |m: JsonView| crate::protocol::message_line(m);
    assert forall|i: int| 0 <= i < messages.len() implies f(#[trigger] messages[i]) == Some(
        lines[i],
    ) by {
        assert(told_by(messages[i], lines[i]));
    }
    lemma_all_kept(messages, f, lines);
    if result.field("agent"@) == Some(agent) && agent.text_at("name"@) == Some(name)
        && result.text_at("wait_status"@) == Some(status) {
        let all = crate::protocol::wait_sections(result, name, status);
        assert(all[1] == "Messages:\n"@ + join(lines, "\n"@));
        lemma_parts_are_joined(all, "\n\n"@, 1);
    }
}

/// Sessions and matches are reported one per line, in their order, below their heading.
pub proof fn lemma_lists_stand_in_order(
    result: JsonView,
    items: Seq<JsonView>,
    lines: Seq<Seq<char>>,
)
    requires
        items.len() > 0,
        items.len() == lines.len(),
        result.field("pagination"@) is None,
    ensures
        result.items_at("sessions"@) == Some(items) && (forall|i: int|
            0 <= i < items.len() ==> #[trigger] lines[i] == crate::protocol::session_line(items[i]))
            ==> team_report("list_sessions"@, result, None) == Some(
            "Retained sessions ("@ + decimal(items.len()) + " of "@ + decimal(items.len()) + "):\n"@
                + join(lines, "\n"@),
        ),
        result.items_at("matches"@) == Some(items) && (forall|i: int|
            0 <= i < items.len() ==> #[trigger] lines[i] == crate::protocol::match_line(items[i]))
            ==> team_report("search_sessions"@, result, None) == Some(
            "Session matches ("@ + decimal(items.len()) + " of "@ + decimal(items.len()) + "):\n"@
                + join(lines, "\n"@),
        ),
        result.items_at("agents"@) == Some(items) && (forall|i: int|
            0 <= i < items.len() ==> Some(#[trigger] lines[i]) == crate::protocol::agent_line(
                items[i],
            )) ==> team_report("list_agents"@, result, None) == Some(
            "Visible agents:\n"@ + join(lines, "\n"@),
        ),
{
    lemma_tool_names();
    let s = items.map_values(|s: JsonView| crate::protocol::session_line(s));
    let m = items.map_values(|s: JsonView| crate::protocol::match_line(s));
    if forall|i: int|
        0 <= i < items.len() ==> #[trigger] lines[i] == crate::protocol::session_line(items[i]) {
        assert(s =~= lines);
    }
    if forall|i: int|
        0 <= i < items.len() ==> #[trigger] lines[i] == crate::protocol::match_line(items[i]) {
        assert(m =~= lines);
    }
    if forall|i: int|
        0 <= i < items.len() ==> Some(#[trigger] lines[i]) == crate::protocol::agent_line(items[i]) {
        let f = |a: JsonView| crate::protocol::agent_line(a);
        assert forall|i: int| 0 <= i < items.len() implies f(#[trigger] items[i]) == Some(
            lines[i],
        ) by {
            assert(Some(lines[i]) == crate::protocol::agent_line(items[i]));
        }
        lemma_all_kept(items, f, lines);
    }
}

/// What an agent, a session or a match does not say of itself is said to be unknown, or
/// stands under a general word.
pub proof fn lemma_what_lines_leave_open(item: JsonView, name: Seq<char>, level: u64)
    ensures
        item.text_at("name"@) == Some(name) && item.unsigned_at("level"@) == Some(level)
            && item.text_at("status"@) is None && item.text_at("session_id"@) is None
            ==> crate::protocol::agent_line(item) == Some(
            "- "@ + name + " · level "@ + decimal(level as nat) + " · "@ + "unknown"@
                + " · session "@ + "unknown"@,
        ),
        item.text_at("name"@) is None && item.unsigned_at("level"@) is None && item.text_at(
            "status"@,
        ) is None && item.text_at("session_id"@) is None ==> crate::protocol::session_line(item)
            == "- "@ + "session"@ + " · level "@ + decimal(0) + " · "@ + "unknown"@ + " · "@
            + "unknown"@,
        item.text_at("session_id"@) is None && item.text_at("entry_id"@) is None && item.text_at(
            "role"@,
        ) is None && item.text_at("snippet"@) is None ==> crate::protocol::match_line(item)
            == "- "@ + "unknown"@ + ""@ + " · "@ + "entry"@ + ": "@ + ""@,
        item.text_at("session_id"@) == Some(name) && item.text_at("entry_id"@) is None
            && item.text_at("role"@) == Some(name) && item.text_at("snippet"@) == Some(name)
            ==> crate::protocol::match_line(item) == "- "@ + name + ""@ + " · "@ + name + ": "@
            + name,
{
}

/// Where nothing was said when a message was sent, or of whom a call is about, a general
/// word stands for it.
pub proof fn lemma_what_calls_leave_open(arguments: JsonView, result: JsonView, text: Seq<char>)
    ensures
        result.truth_at("delivered"@) != Some(true) ==> team_report("send_message"@, result, None)
            == Some("Sending an agent message."@),
        arguments.text_at("name"@) is None && arguments.text_at("task"@) == Some(text) && !is_blank(
            text,
        ) ==> call_report("spawn_agent"@, Some(arguments)) == "Starting "@ + "subagent"@ + ":\n"@
            + compacted(text),
        arguments.text_at("target"@) is None && arguments.text_at("message"@) == Some(text)
            && text.len() > 0 ==> call_report("send_message"@, Some(arguments)) == "Sending to "@
            + "agent"@ + ":\n"@ + text,
        call_report("read"@, None) == "Reading "@ + "file"@ + "."@,
        call_report("wait_agent"@, None) == "Waiting for "@ + "agent"@ + "."@,
        result.field("process"@) is None ==> team_report("stop_process"@, result, None) == Some(
            "Stopped process "@ + "process"@,
        ),
        result.field("process"@) is None ==> team_report("read_process"@, result, None) is None,
{
    lemma_tool_names();
    lemma_blank_compacts_to_nothing(text);
}

} // verus!
