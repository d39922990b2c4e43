//! What the messages of a node say, field by field.
use vstd::prelude::*;

use crate::announce::{tool_announce_json, ToolAnnounceView};
use crate::channels::{call_json, message_json, probe_json, remote_json, wait_json, TOPIC_CLI_RESPONSE};
use crate::commands::{entry_json, tool_entry, LineView};
use crate::cron::{added_json, fired_json, job_json, JobView};
use crate::event_queue::{emit_json, event_json, event_jsons, listen_json, EventView};
use crate::expose::{connected_json, exposed_json, register_json, unexposed_json, ExposeView};
use crate::http::{list_changed_json, refused_json, taken_json};
use crate::json::{
    lemma_fields_2, lemma_fields_3, lemma_fields_4, lemma_fields_5, lemma_fields_6, lemma_member_added,
    lemma_member_kept, lookup, JsonView, NumberView,
};
use crate::manifest::{schema_json, text_values};
use crate::mcp_client::{initialize_json as client_hello, initialized_json, list_json};
use crate::mcp_server::{initialize_json as server_hello, tool_entry as server_entry};
use crate::network::{error_json, found_json, peer_json, tool_json as network_tool};
use crate::peer_table::{PeerView, SummaryView};
use crate::permissions::{exposed, Rule, RuleKey};
use crate::registry::LoadedView;
use crate::router::invoke_json;
use crate::rpc::{call_result, err_response, ok_response};
use crate::spawn::{outcome_json, spawned_json};
use crate::tunnel::opened_json;
use crate::webview::{
    close_json, interaction_json, ok_json, push_json, render_json, rendered_json, snapshot_json as frame_snapshot,
    window_close_json, window_focus_json, window_list_json, window_notify_json, window_open_json, window_resize_json,
    window_set_title_json, FrameView,
};
use crate::window::no_windows_json;
use crate::text::decimal;

verus! {

/// A name that no member has is not found.
proof fn lemma_absent(j: JsonView, key: Seq<char>)
    requires
        j is Object,
        forall|i: int| 0 <= i < j->Object_0.len() ==> (#[trigger] j->Object_0[i]).0 != key,
    ensures
        j.member(key) is None,
    decreases j->Object_0.len(),
{
    let members = j->Object_0;
    if members.len() > 0 {
        assert(members[members.len() - 1].0 != key);
        let head = JsonView::Object(members.drop_last());
        assert forall|i: int| 0 <= i < head->Object_0.len() implies (#[trigger] head->Object_0[i]).0 != key by {
            assert(members[i].0 != key);
        }
        lemma_absent(head, key);
        assert(lookup(members, key) == lookup(members.drop_last(), key));
    }
}

/// An event that a listener gets says what was pushed: topic, source, data and
/// time, under its identifier.
pub proof fn law_events_say_what_was_pushed(e: EventView)
    ensures
        event_json(e).member("data"@) == Some(e.data),
        event_json(e).natural_at("id"@) == Some(e.id),
        event_json(e).text_at("source"@) == Some(e.source),
        event_json(e).text_at("topic"@) == Some(e.topic),
        event_json(e).member("ts"@) == Some(JsonView::Number(NumberView::Float(e.ts))),
{
    reveal_strlit("data");
    reveal_strlit("id");
    reveal_strlit("source");
    reveal_strlit("topic");
    reveal_strlit("ts");
    assert("data"@.len() == 4);
    assert("id"@.len() == 2);
    assert("source"@.len() == 6);
    assert("topic"@.len() == 5);
    assert("ts"@.len() == 2);
    assert("id"@[0] == 'i');
    assert("ts"@[0] == 't');
    lemma_fields_5("data"@, e.data, "id"@, JsonView::Number(NumberView::Unsigned(e.id)), "source"@, JsonView::Text(e.source), "topic"@, JsonView::Text(e.topic), "ts"@, JsonView::Number(NumberView::Float(e.ts)));
    assert(event_json(e)->Object_0 =~= JsonView::object().with("data"@, e.data).with("id"@, JsonView::Number(NumberView::Unsigned(e.id))).with("source"@, JsonView::Text(e.source)).with("topic"@, JsonView::Text(e.topic)).with("ts"@, JsonView::Number(NumberView::Float(e.ts)))->Object_0);
}

/// A listener gets the events and the cursor to go on from; who emits an event
/// gets its identifier.
pub proof fn law_listeners_get_events_and_cursor(events: Seq<EventView>, cursor: int, id: int)
    ensures
        listen_json(events, cursor).natural_at("cursor"@) == Some(cursor),
        listen_json(events, cursor).member("events"@) == Some(JsonView::Array(event_jsons(events))),
        emit_json(id).natural_at("id"@) == Some(id),
        emit_json(id).truth_at("ok"@) == Some(true),
        taken_json(id).natural_at("id"@) == Some(id),
        taken_json(id).truth_at("ok"@) == Some(true),
{
    reveal_strlit("cursor");
    reveal_strlit("events");
    reveal_strlit("id");
    reveal_strlit("ok");
    assert("cursor"@.len() == 6);
    assert("events"@.len() == 6);
    assert("id"@.len() == 2);
    assert("ok"@.len() == 2);
    assert("cursor"@[0] == 'c');
    assert("events"@[0] == 'e');
    assert("id"@[0] == 'i');
    assert("ok"@[0] == 'o');
    lemma_fields_2("cursor"@, JsonView::Number(NumberView::Unsigned(cursor)), "events"@, JsonView::Array(event_jsons(events)));
    assert(listen_json(events, cursor)->Object_0 =~= JsonView::object().with("cursor"@, JsonView::Number(NumberView::Unsigned(cursor))).with("events"@, JsonView::Array(event_jsons(events)))->Object_0);
    lemma_fields_2("id"@, JsonView::Number(NumberView::Unsigned(id)), "ok"@, JsonView::Bool(true));
    assert(emit_json(id)->Object_0 =~= JsonView::object().with("id"@, JsonView::Number(NumberView::Unsigned(id))).with("ok"@, JsonView::Bool(true))->Object_0);
    lemma_fields_2("id"@, JsonView::Number(NumberView::Unsigned(id)), "ok"@, JsonView::Bool(true));
}

/// A job that fires says which it is and hands on the data it was given; who
/// added it, and who lists it, is told its identifier, its label and how often
/// it fires.
pub proof fn law_fired_jobs_say_what_they_are(job: JobView)
    ensures
        fired_json(job).member("data"@) == Some(job.data),
        fired_json(job).natural_at("job_id"@) == Some(job.id),
        fired_json(job).text_at("label"@) == Some(job.label),
        job_json(job).member("data"@) == Some(job.data),
        job_json(job).natural_at("id"@) == Some(job.id),
        job_json(job).natural_at("interval_secs"@) == Some(job.interval_secs),
        job_json(job).text_at("label"@) == Some(job.label),
        added_json(job).natural_at("id"@) == Some(job.id),
        added_json(job).natural_at("interval_secs"@) == Some(job.interval_secs),
        added_json(job).text_at("label"@) == Some(job.label),
{
    reveal_strlit("data");
    reveal_strlit("id");
    reveal_strlit("interval_secs");
    reveal_strlit("job_id");
    reveal_strlit("label");
    assert("data"@.len() == 4);
    assert("id"@.len() == 2);
    assert("interval_secs"@.len() == 13);
    assert("job_id"@.len() == 6);
    assert("label"@.len() == 5);
    lemma_fields_3("data"@, job.data, "job_id"@, JsonView::Number(NumberView::Unsigned(job.id)), "label"@, JsonView::Text(job.label));
    assert(fired_json(job)->Object_0 =~= JsonView::object().with("data"@, job.data).with("job_id"@, JsonView::Number(NumberView::Unsigned(job.id))).with("label"@, JsonView::Text(job.label))->Object_0);
    lemma_fields_4("data"@, job.data, "id"@, JsonView::Number(NumberView::Unsigned(job.id)), "interval_secs"@, JsonView::Number(NumberView::Unsigned(job.interval_secs)), "label"@, JsonView::Text(job.label));
    assert(job_json(job)->Object_0 =~= JsonView::object().with("data"@, job.data).with("id"@, JsonView::Number(NumberView::Unsigned(job.id))).with("interval_secs"@, JsonView::Number(NumberView::Unsigned(job.interval_secs))).with("label"@, JsonView::Text(job.label))->Object_0);
    lemma_fields_3("id"@, JsonView::Number(NumberView::Unsigned(job.id)), "interval_secs"@, JsonView::Number(NumberView::Unsigned(job.interval_secs)), "label"@, JsonView::Text(job.label));
    assert(added_json(job)->Object_0 =~= JsonView::object().with("id"@, JsonView::Number(NumberView::Unsigned(job.id))).with("interval_secs"@, JsonView::Number(NumberView::Unsigned(job.interval_secs))).with("label"@, JsonView::Text(job.label))->Object_0);
}

/// Who spawned a task is told its identifier and tool; the event at its end
/// says the same, and what came out under the name of the outcome.
pub proof fn law_spawned_tasks_say_what_they_ran(id: int, tool: Seq<char>, key: Seq<char>, text: Seq<char>)
    requires
        key != "task_id"@,
        key != "tool"@,
    ensures
        spawned_json(id, tool).text_at("status"@) == Some("spawned"@),
        spawned_json(id, tool).natural_at("task_id"@) == Some(id),
        spawned_json(id, tool).text_at("tool"@) == Some(tool),
        outcome_json(id, tool, key, text).text_at(key) == Some(text),
        outcome_json(id, tool, key, text).natural_at("task_id"@) == Some(id),
        outcome_json(id, tool, key, text).text_at("tool"@) == Some(tool),
{
    reveal_strlit("status");
    reveal_strlit("task_id");
    reveal_strlit("tool");
    assert("status"@.len() == 6);
    assert("task_id"@.len() == 7);
    assert("tool"@.len() == 4);
    lemma_fields_3("status"@, JsonView::Text("spawned"@), "task_id"@, JsonView::Number(NumberView::Unsigned(id)), "tool"@, JsonView::Text(tool));
    assert(spawned_json(id, tool)->Object_0 =~= JsonView::object().with("status"@, JsonView::Text("spawned"@)).with("task_id"@, JsonView::Number(NumberView::Unsigned(id))).with("tool"@, JsonView::Text(tool))->Object_0);
    lemma_fields_3(key, JsonView::Text(text), "task_id"@, JsonView::Number(NumberView::Unsigned(id)), "tool"@, JsonView::Text(tool));
    assert(outcome_json(id, tool, key, text)->Object_0 =~= JsonView::object().with(key, JsonView::Text(text)).with("task_id"@, JsonView::Number(NumberView::Unsigned(id))).with("tool"@, JsonView::Text(tool))->Object_0);
}

/// A tool call carries the tool and the arguments that it was made with.
pub proof fn law_calls_carry_tool_and_arguments(tool: Seq<char>, peer_id: Seq<char>, arguments: JsonView)
    ensures
        call_json(tool, arguments).natural_at("id"@) == Some(1int),
        call_json(tool, arguments).text_at("jsonrpc"@) == Some("2.0"@),
        call_json(tool, arguments).text_at("method"@) == Some("tools/call"@),
        call_json(tool, arguments).member("params"@) == Some(JsonView::object().with("arguments"@, arguments).with("name"@, JsonView::Text(tool))),
        JsonView::object().with("arguments"@, arguments).with("name"@, JsonView::Text(tool)).member("arguments"@) == Some(arguments),
        JsonView::object().with("arguments"@, arguments).with("name"@, JsonView::Text(tool)).text_at("name"@) == Some(tool),
        remote_json(peer_id, tool, arguments).member("arguments"@) == Some(arguments),
        remote_json(peer_id, tool, arguments).text_at("peer_id"@) == Some(peer_id),
        remote_json(peer_id, tool, arguments).text_at("tool"@) == Some(tool),
{
    reveal_strlit("arguments");
    reveal_strlit("id");
    reveal_strlit("jsonrpc");
    reveal_strlit("method");
    reveal_strlit("name");
    reveal_strlit("params");
    reveal_strlit("peer_id");
    reveal_strlit("tool");
    assert("arguments"@.len() == 9);
    assert("id"@.len() == 2);
    assert("jsonrpc"@.len() == 7);
    assert("method"@.len() == 6);
    assert("name"@.len() == 4);
    assert("params"@.len() == 6);
    assert("peer_id"@.len() == 7);
    assert("tool"@.len() == 4);
    assert("method"@[0] == 'm');
    assert("params"@[0] == 'p');
    lemma_fields_4("id"@, JsonView::Number(NumberView::Unsigned(1int)), "jsonrpc"@, JsonView::Text("2.0"@), "method"@, JsonView::Text("tools/call"@), "params"@, JsonView::object().with("arguments"@, arguments).with("name"@, JsonView::Text(tool)));
    lemma_fields_2("arguments"@, arguments, "name"@, JsonView::Text(tool));
    lemma_fields_3("arguments"@, arguments, "peer_id"@, JsonView::Text(peer_id), "tool"@, JsonView::Text(tool));
}

/// A message of the prompt goes out on its own topic with the text that was
/// typed; the answer is waited for on the topic of answers, from the cursor on.
pub proof fn law_messages_carry_their_text(text: Seq<char>, cursor: int)
    ensures
        message_json(text).member("data"@) == Some(JsonView::object().with("text"@, JsonView::Text(text))),
        message_json(text).text_at("topic"@) == Some("channel.cli"@),
        wait_json(cursor).natural_at("after"@) == Some(cursor),
        wait_json(cursor).natural_at("timeout_secs"@) == Some(120int),
        wait_json(cursor).member("topics"@) == Some(JsonView::Array(seq![JsonView::Text("channel.cli.response"@)])),
{
    reveal_strlit("after");
    reveal_strlit("data");
    reveal_strlit("timeout_secs");
    reveal_strlit("topic");
    reveal_strlit("topics");
    assert("after"@.len() == 5);
    assert("data"@.len() == 4);
    assert("timeout_secs"@.len() == 12);
    assert("topic"@.len() == 5);
    assert("topics"@.len() == 6);
    lemma_fields_2("data"@, JsonView::object().with("text"@, JsonView::Text(text)), "topic"@, JsonView::Text("channel.cli"@));
    lemma_fields_3("after"@, JsonView::Number(NumberView::Unsigned(cursor)), "timeout_secs"@, JsonView::Number(NumberView::Unsigned(120int)), "topics"@, JsonView::Array(seq![JsonView::Text("channel.cli.response"@)]));
}

/// A result carries its text and whether the tool failed, over MCP and over
/// `POST /invoke`.
pub proof fn law_results_carry_text_and_failure(text: Seq<char>, is_error: bool)
    ensures
        call_result(text, is_error).member("content"@) == Some(JsonView::Array(seq![JsonView::object().with("text"@, JsonView::Text(text)).with("type"@, JsonView::Text("text"@))])),
        call_result(text, is_error).truth_at("isError"@) == Some(is_error),
        JsonView::object().with("text"@, JsonView::Text(text)).with("type"@, JsonView::Text("text"@)).text_at("text"@) == Some(text),
        JsonView::object().with("text"@, JsonView::Text(text)).with("type"@, JsonView::Text("text"@)).text_at("type"@) == Some("text"@),
        invoke_json(text, is_error).truth_at("is_error"@) == Some(is_error),
        invoke_json(text, is_error).text_at("result"@) == Some(text),
{
    reveal_strlit("content");
    reveal_strlit("isError");
    reveal_strlit("is_error");
    reveal_strlit("result");
    reveal_strlit("text");
    reveal_strlit("type");
    assert("content"@.len() == 7);
    assert("isError"@.len() == 7);
    assert("is_error"@.len() == 8);
    assert("result"@.len() == 6);
    assert("text"@.len() == 4);
    assert("type"@.len() == 4);
    assert("content"@[0] == 'c');
    assert("isError"@[0] == 'i');
    assert("text"@[1] == 'e');
    assert("type"@[1] == 'y');
    lemma_fields_2("content"@, JsonView::Array(seq![JsonView::object().with("text"@, JsonView::Text(text)).with("type"@, JsonView::Text("text"@))]), "isError"@, JsonView::Bool(is_error));
    lemma_fields_2("text"@, JsonView::Text(text), "type"@, JsonView::Text("text"@));
    lemma_fields_2("is_error"@, JsonView::Bool(is_error), "result"@, JsonView::Text(text));
}

/// A response carries the identifier of its request, and its result or its
/// error.
pub proof fn law_responses_carry_their_id(id: JsonView, result: JsonView, code: int, message: Seq<char>)
    ensures
        ok_response(Some(id), result).member("id"@) == Some(id),
        ok_response(Some(id), result).text_at("jsonrpc"@) == Some("2.0"@),
        ok_response(Some(id), result).member("result"@) == Some(result),
        err_response(Some(id), code, message).member("error"@) == Some(JsonView::object().with("code"@, JsonView::Number(NumberView::Negative(code))).with("message"@, JsonView::Text(message))),
        err_response(Some(id), code, message).member("id"@) == Some(id),
        err_response(Some(id), code, message).text_at("jsonrpc"@) == Some("2.0"@),
        JsonView::object().with("code"@, JsonView::Number(NumberView::Negative(code))).with("message"@, JsonView::Text(message)).member("code"@) == Some(JsonView::Number(NumberView::Negative(code))),
        JsonView::object().with("code"@, JsonView::Number(NumberView::Negative(code))).with("message"@, JsonView::Text(message)).text_at("message"@) == Some(message),
{
    reveal_strlit("code");
    reveal_strlit("error");
    reveal_strlit("id");
    reveal_strlit("jsonrpc");
    reveal_strlit("message");
    reveal_strlit("result");
    assert("code"@.len() == 4);
    assert("error"@.len() == 5);
    assert("id"@.len() == 2);
    assert("jsonrpc"@.len() == 7);
    assert("message"@.len() == 7);
    assert("result"@.len() == 6);
    lemma_fields_3("id"@, id, "jsonrpc"@, JsonView::Text("2.0"@), "result"@, result);
    lemma_fields_3("error"@, JsonView::object().with("code"@, JsonView::Number(NumberView::Negative(code))).with("message"@, JsonView::Text(message)), "id"@, id, "jsonrpc"@, JsonView::Text("2.0"@));
    lemma_fields_2("code"@, JsonView::Number(NumberView::Negative(code)), "message"@, JsonView::Text(message));
}

/// Who exposes a port is told its identifier, name and number, and the tool
/// that peers connect with; the bridge is told the name, the number and who may
/// connect.
pub proof fn law_exposed_ports_say_what_they_are(e: ExposeView)
    ensures
        exposed_json(e).text_at("expose_id"@) == Some(e.expose_id),
        exposed_json(e).text_at("name"@) == Some(e.name),
        exposed_json(e).natural_at("port"@) == Some(e.port),
        exposed_json(e).text_at("tool"@) == Some("connect_"@ + e.name),
        register_json(e).text_at("name"@) == Some(e.name),
        register_json(e).member("peers"@) == Some((match e.peers { Some(p) => JsonView::Array(text_values(p)), None => JsonView::Null })),
        register_json(e).natural_at("port"@) == Some(e.port),
{
    reveal_strlit("expose_id");
    reveal_strlit("name");
    reveal_strlit("peers");
    reveal_strlit("port");
    reveal_strlit("tool");
    assert("expose_id"@.len() == 9);
    assert("name"@.len() == 4);
    assert("peers"@.len() == 5);
    assert("port"@.len() == 4);
    assert("tool"@.len() == 4);
    assert("name"@[0] == 'n');
    assert("port"@[0] == 'p');
    assert("tool"@[0] == 't');
    lemma_fields_4("expose_id"@, JsonView::Text(e.expose_id), "name"@, JsonView::Text(e.name), "port"@, JsonView::Number(NumberView::Unsigned(e.port)), "tool"@, JsonView::Text("connect_"@ + e.name));
    assert(exposed_json(e)->Object_0 =~= JsonView::object().with("expose_id"@, JsonView::Text(e.expose_id)).with("name"@, JsonView::Text(e.name)).with("port"@, JsonView::Number(NumberView::Unsigned(e.port))).with("tool"@, JsonView::Text("connect_"@ + e.name))->Object_0);
    lemma_fields_3("name"@, JsonView::Text(e.name), "peers"@, (match e.peers { Some(p) => JsonView::Array(text_values(p)), None => JsonView::Null }), "port"@, JsonView::Number(NumberView::Unsigned(e.port)));
    assert(register_json(e)->Object_0 =~= JsonView::object().with("name"@, JsonView::Text(e.name)).with("peers"@, (match e.peers { Some(p) => JsonView::Array(text_values(p)), None => JsonView::Null })).with("port"@, JsonView::Number(NumberView::Unsigned(e.port)))->Object_0);
}

/// Who connects to an exposed port is told its name and number, and the local
/// port where a tunnel was opened.
pub proof fn law_connected_callers_are_told_the_port(name: Seq<char>, port: int, local_port: int)
    ensures
        connected_json(name, port, Some(local_port)).truth_at("authorized"@) == Some(true),
        connected_json(name, port, Some(local_port)).natural_at("local_port"@) == Some(local_port),
        connected_json(name, port, Some(local_port)).text_at("name"@) == Some(name),
        connected_json(name, port, Some(local_port)).natural_at("port"@) == Some(port),
        connected_json(name, port, None).truth_at("authorized"@) == Some(true),
        connected_json(name, port, None).text_at("name"@) == Some(name),
        connected_json(name, port, None).natural_at("port"@) == Some(port),
        opened_json(local_port).natural_at("local_port"@) == Some(local_port),
        opened_json(local_port).text_at("local_url"@) == Some("http://localhost:"@ + decimal(local_port as nat)),
        unexposed_json(name).text_at("name"@) == Some(name),
        unexposed_json(name).truth_at("ok"@) == Some(true),
{
    reveal_strlit("authorized");
    reveal_strlit("local_port");
    reveal_strlit("local_url");
    reveal_strlit("name");
    reveal_strlit("ok");
    reveal_strlit("port");
    assert("authorized"@.len() == 10);
    assert("local_port"@.len() == 10);
    assert("local_url"@.len() == 9);
    assert("name"@.len() == 4);
    assert("ok"@.len() == 2);
    assert("port"@.len() == 4);
    assert("authorized"@[0] == 'a');
    assert("local_port"@[0] == 'l');
    assert("name"@[0] == 'n');
    assert("port"@[0] == 'p');
    lemma_fields_4("authorized"@, JsonView::Bool(true), "local_port"@, JsonView::Number(NumberView::Unsigned(local_port)), "name"@, JsonView::Text(name), "port"@, JsonView::Number(NumberView::Unsigned(port)));
    assert(connected_json(name, port, Some(local_port))->Object_0 =~= JsonView::object().with("authorized"@, JsonView::Bool(true)).with("local_port"@, JsonView::Number(NumberView::Unsigned(local_port))).with("name"@, JsonView::Text(name)).with("port"@, JsonView::Number(NumberView::Unsigned(port)))->Object_0);
    lemma_fields_3("authorized"@, JsonView::Bool(true), "name"@, JsonView::Text(name), "port"@, JsonView::Number(NumberView::Unsigned(port)));
    assert(connected_json(name, port, None)->Object_0 =~= JsonView::object().with("authorized"@, JsonView::Bool(true)).with("name"@, JsonView::Text(name)).with("port"@, JsonView::Number(NumberView::Unsigned(port)))->Object_0);
    lemma_fields_2("local_port"@, JsonView::Number(NumberView::Unsigned(local_port)), "local_url"@, JsonView::Text("http://localhost:"@ + decimal(local_port as nat)));
    lemma_fields_2("name"@, JsonView::Text(name), "ok"@, JsonView::Bool(true));
    assert(unexposed_json(name)->Object_0 =~= JsonView::object().with("name"@, JsonView::Text(name)).with("ok"@, JsonView::Bool(true))->Object_0);
}

/// A tool is listed with its name, its description and its schema, or its
/// source; for the operator also with whether it is published.
pub proof fn law_listed_tools_say_what_they_are(t: LoadedView, l: LineView, rules: Map<RuleKey, Rule>)
    ensures
        server_entry(t).text_at("description"@) == Some(t.tool.description),
        server_entry(t).member("inputSchema"@) == Some(schema_json(t.tool.schema)),
        server_entry(t).text_at("name"@) == Some(t.tool.name),
        entry_json(t).text_at("description"@) == Some(t.tool.description),
        entry_json(t).text_at("name"@) == Some(t.tool.name),
        entry_json(t).text_at("source"@) == Some(t.source),
        tool_entry(l, rules).text_at("description"@) == Some(l.description),
        tool_entry(l, rules).text_at("name"@) == Some(l.name),
        tool_entry(l, rules).truth_at("published"@) == Some(exposed(rules, l.name)),
        tool_entry(l, rules).text_at("source"@) == Some(l.source),
{
    reveal_strlit("description");
    reveal_strlit("inputSchema");
    reveal_strlit("name");
    reveal_strlit("published");
    reveal_strlit("source");
    assert("description"@.len() == 11);
    assert("inputSchema"@.len() == 11);
    assert("name"@.len() == 4);
    assert("published"@.len() == 9);
    assert("source"@.len() == 6);
    assert("description"@[0] == 'd');
    assert("inputSchema"@[0] == 'i');
    lemma_fields_3("description"@, JsonView::Text(t.tool.description), "inputSchema"@, schema_json(t.tool.schema), "name"@, JsonView::Text(t.tool.name));
    lemma_fields_3("description"@, JsonView::Text(t.tool.description), "name"@, JsonView::Text(t.tool.name), "source"@, JsonView::Text(t.source));
    lemma_fields_4("description"@, JsonView::Text(l.description), "name"@, JsonView::Text(l.name), "published"@, JsonView::Bool(exposed(rules, l.name)), "source"@, JsonView::Text(l.source));
}

/// A peer is shown with its addresses, when it was last seen and how many tools
/// it has; a tool of it with its name and description; what a search finds also
/// with the peer and where it is.
pub proof fn law_peers_are_shown_as_they_are(p: PeerView, t: SummaryView)
    ensures
        peer_json(p).member("addrs"@) == Some(JsonView::Array(text_values(p.addrs))),
        peer_json(p).natural_at("last_seen"@) == Some(p.last_seen),
        peer_json(p).text_at("peer_id"@) == Some(p.peer_id),
        peer_json(p).natural_at("tool_count"@) == Some(p.tools.len() as int),
        network_tool(t).text_at("description"@) == Some(t.description),
        network_tool(t).text_at("name"@) == Some(t.name),
        found_json(p, t).member("addrs"@) == Some(JsonView::Array(text_values(p.addrs))),
        found_json(p, t).text_at("description"@) == Some(t.description),
        found_json(p, t).text_at("peer_id"@) == Some(p.peer_id),
        found_json(p, t).text_at("tool_name"@) == Some(t.name),
{
    reveal_strlit("addrs");
    reveal_strlit("description");
    reveal_strlit("last_seen");
    reveal_strlit("name");
    reveal_strlit("peer_id");
    reveal_strlit("tool_count");
    reveal_strlit("tool_name");
    assert("addrs"@.len() == 5);
    assert("description"@.len() == 11);
    assert("last_seen"@.len() == 9);
    assert("name"@.len() == 4);
    assert("peer_id"@.len() == 7);
    assert("tool_count"@.len() == 10);
    assert("tool_name"@.len() == 9);
    lemma_fields_4("addrs"@, JsonView::Array(text_values(p.addrs)), "last_seen"@, JsonView::Number(NumberView::Unsigned(p.last_seen)), "peer_id"@, JsonView::Text(p.peer_id), "tool_count"@, JsonView::Number(NumberView::Unsigned(p.tools.len() as int)));
    lemma_fields_2("description"@, JsonView::Text(t.description), "name"@, JsonView::Text(t.name));
    lemma_fields_4("addrs"@, JsonView::Array(text_values(p.addrs)), "description"@, JsonView::Text(t.description), "peer_id"@, JsonView::Text(p.peer_id), "tool_name"@, JsonView::Text(t.name));
}

/// A tool is announced with its name, its description and its schema.
pub proof fn law_announced_tools_say_what_they_are(t: ToolAnnounceView)
    ensures
        tool_announce_json(t).text_at("description"@) == Some(t.description),
        tool_announce_json(t).member("inputSchema"@) == Some(t.input_schema),
        tool_announce_json(t).text_at("name"@) == Some(t.name),
{
    reveal_strlit("description");
    reveal_strlit("inputSchema");
    reveal_strlit("name");
    assert("description"@.len() == 11);
    assert("inputSchema"@.len() == 11);
    assert("name"@.len() == 4);
    assert("description"@[0] == 'd');
    assert("inputSchema"@[0] == 'i');
    lemma_fields_3("description"@, JsonView::Text(t.description), "inputSchema"@, t.input_schema, "name"@, JsonView::Text(t.name));
}

/// The host page is told which frame to show, from where, under which title and
/// in which size; who asked for it is told the frame and the page.
pub proof fn law_frames_are_rendered_as_asked(frame_id: Seq<char>, src: Seq<char>, frame: FrameView, port: nat)
    ensures
        render_json(frame_id, src, frame).text_at("frame_id"@) == Some(frame_id),
        render_json(frame_id, src, frame).natural_at("height"@) == Some(frame.height),
        render_json(frame_id, src, frame).text_at("src"@) == Some(src),
        render_json(frame_id, src, frame).text_at("title"@) == Some(frame.title),
        render_json(frame_id, src, frame).text_at("type"@) == Some("render"@),
        render_json(frame_id, src, frame).natural_at("width"@) == Some(frame.width),
        render_json(frame_id, src, frame).text_at("window"@) == frame.window,
        rendered_json(frame_id, src, port).text_at("frame_id"@) == Some(frame_id),
        rendered_json(frame_id, src, port).text_at("frame_url"@) == Some(src),
        rendered_json(frame_id, src, port).text_at("ui_url"@) == Some("http://127.0.0.1:"@ + decimal(port) + "/ui"@),
{
    reveal_strlit("frame_id");
    reveal_strlit("frame_url");
    reveal_strlit("height");
    reveal_strlit("src");
    reveal_strlit("title");
    reveal_strlit("type");
    reveal_strlit("ui_url");
    reveal_strlit("width");
    reveal_strlit("window");
    assert("frame_id"@.len() == 8);
    assert("frame_url"@.len() == 9);
    assert("height"@.len() == 6);
    assert("src"@.len() == 3);
    assert("title"@.len() == 5);
    assert("type"@.len() == 4);
    assert("ui_url"@.len() == 6);
    assert("width"@.len() == 5);
    assert("window"@.len() == 6);
    assert("height"@[0] == 'h');
    assert("title"@[0] == 't');
    assert("width"@[0] == 'w');
    assert("window"@[0] == 'w');
    lemma_fields_6("frame_id"@, JsonView::Text(frame_id), "height"@, JsonView::Number(NumberView::Unsigned(frame.height)), "src"@, JsonView::Text(src), "title"@, JsonView::Text(frame.title), "type"@, JsonView::Text("render"@), "width"@, JsonView::Number(NumberView::Unsigned(frame.width)));
    let base = JsonView::object().with("frame_id"@, JsonView::Text(frame_id)).with("height"@, JsonView::Number(NumberView::Unsigned(frame.height))).with("src"@, JsonView::Text(src)).with("title"@, JsonView::Text(frame.title)).with("type"@, JsonView::Text("render"@)).with("width"@, JsonView::Number(NumberView::Unsigned(frame.width)));
    match frame.window {
        Some(w) => {
            lemma_member_added(base, "window"@, JsonView::Text(w));
            lemma_member_kept(base, "window"@, JsonView::Text(w), "frame_id"@);
            lemma_member_kept(base, "window"@, JsonView::Text(w), "height"@);
            lemma_member_kept(base, "window"@, JsonView::Text(w), "src"@);
            lemma_member_kept(base, "window"@, JsonView::Text(w), "title"@);
            lemma_member_kept(base, "window"@, JsonView::Text(w), "type"@);
            lemma_member_kept(base, "window"@, JsonView::Text(w), "width"@);
        },
        None => {
            lemma_absent(base, "window"@);
        },
    }
    lemma_fields_3("frame_id"@, JsonView::Text(frame_id), "frame_url"@, JsonView::Text(src), "ui_url"@, JsonView::Text("http://127.0.0.1:"@ + decimal(port) + "/ui"@));
}

/// What is pushed to a frame, asked of it or reported by it names the frame and
/// carries what was given.
pub proof fn law_frames_get_their_messages(frame_id: Seq<char>, data: JsonView, format: Seq<char>, request_id: Seq<char>, event: Seq<char>, id: Seq<char>)
    ensures
        push_json(frame_id, data).member("data"@) == Some(data),
        push_json(frame_id, data).text_at("frame_id"@) == Some(frame_id),
        push_json(frame_id, data).text_at("type"@) == Some("push"@),
        close_json(frame_id).text_at("frame_id"@) == Some(frame_id),
        close_json(frame_id).text_at("type"@) == Some("close"@),
        frame_snapshot(frame_id, format, request_id).text_at("format"@) == Some(format),
        frame_snapshot(frame_id, format, request_id).text_at("frame_id"@) == Some(frame_id),
        frame_snapshot(frame_id, format, request_id).text_at("request_id"@) == Some(request_id),
        frame_snapshot(frame_id, format, request_id).text_at("type"@) == Some("snapshot_request"@),
        interaction_json(frame_id, event, id, data).member("data"@) == Some(data),
        interaction_json(frame_id, event, id, data).text_at("event"@) == Some(event),
        interaction_json(frame_id, event, id, data).text_at("frame_id"@) == Some(frame_id),
        interaction_json(frame_id, event, id, data).text_at("id"@) == Some(id),
{
    reveal_strlit("data");
    reveal_strlit("event");
    reveal_strlit("format");
    reveal_strlit("frame_id");
    reveal_strlit("id");
    reveal_strlit("request_id");
    reveal_strlit("type");
    assert("data"@.len() == 4);
    assert("event"@.len() == 5);
    assert("format"@.len() == 6);
    assert("frame_id"@.len() == 8);
    assert("id"@.len() == 2);
    assert("request_id"@.len() == 10);
    assert("type"@.len() == 4);
    assert("data"@[0] == 'd');
    assert("type"@[0] == 't');
    lemma_fields_3("data"@, data, "frame_id"@, JsonView::Text(frame_id), "type"@, JsonView::Text("push"@));
    lemma_fields_2("frame_id"@, JsonView::Text(frame_id), "type"@, JsonView::Text("close"@));
    lemma_fields_4("format"@, JsonView::Text(format), "frame_id"@, JsonView::Text(frame_id), "request_id"@, JsonView::Text(request_id), "type"@, JsonView::Text("snapshot_request"@));
    lemma_fields_4("data"@, data, "event"@, JsonView::Text(event), "frame_id"@, JsonView::Text(frame_id), "id"@, JsonView::Text(id));
}

/// Each message to a window says what is to be done, to which window, and with
/// what.
pub proof fn law_windows_get_their_messages(label: Seq<char>, title: Seq<char>, url: Seq<char>, body: Seq<char>, request_id: Seq<char>, width: int, height: int)
    ensures
        window_open_json(label, title, url, width, height).natural_at("height"@) == Some(height),
        window_open_json(label, title, url, width, height).text_at("label"@) == Some(label),
        window_open_json(label, title, url, width, height).text_at("title"@) == Some(title),
        window_open_json(label, title, url, width, height).text_at("type"@) == Some("window_open"@),
        window_open_json(label, title, url, width, height).text_at("url"@) == Some(url),
        window_open_json(label, title, url, width, height).natural_at("width"@) == Some(width),
        window_close_json(label).text_at("label"@) == Some(label),
        window_close_json(label).text_at("type"@) == Some("window_close"@),
        window_resize_json(label, width, height).natural_at("height"@) == Some(height),
        window_resize_json(label, width, height).text_at("label"@) == Some(label),
        window_resize_json(label, width, height).text_at("type"@) == Some("window_resize"@),
        window_resize_json(label, width, height).natural_at("width"@) == Some(width),
        window_set_title_json(label, title).text_at("label"@) == Some(label),
        window_set_title_json(label, title).text_at("title"@) == Some(title),
        window_set_title_json(label, title).text_at("type"@) == Some("window_set_title"@),
        window_focus_json(label).text_at("label"@) == Some(label),
        window_focus_json(label).text_at("type"@) == Some("window_focus"@),
        window_notify_json(title, body).text_at("body"@) == Some(body),
        window_notify_json(title, body).text_at("title"@) == Some(title),
        window_notify_json(title, body).text_at("type"@) == Some("window_notify"@),
        window_list_json(request_id).text_at("request_id"@) == Some(request_id),
        window_list_json(request_id).text_at("type"@) == Some("window_list_request"@),
{
    reveal_strlit("body");
    reveal_strlit("height");
    reveal_strlit("label");
    reveal_strlit("request_id");
    reveal_strlit("title");
    reveal_strlit("type");
    reveal_strlit("url");
    reveal_strlit("width");
    assert("body"@.len() == 4);
    assert("height"@.len() == 6);
    assert("label"@.len() == 5);
    assert("request_id"@.len() == 10);
    assert("title"@.len() == 5);
    assert("type"@.len() == 4);
    assert("url"@.len() == 3);
    assert("width"@.len() == 5);
    assert("body"@[0] == 'b');
    assert("label"@[0] == 'l');
    assert("title"@[0] == 't');
    assert("type"@[0] == 't');
    assert("width"@[0] == 'w');
    lemma_fields_6("height"@, JsonView::Number(NumberView::Unsigned(height)), "label"@, JsonView::Text(label), "title"@, JsonView::Text(title), "type"@, JsonView::Text("window_open"@), "url"@, JsonView::Text(url), "width"@, JsonView::Number(NumberView::Unsigned(width)));
    lemma_fields_2("label"@, JsonView::Text(label), "type"@, JsonView::Text("window_close"@));
    lemma_fields_4("height"@, JsonView::Number(NumberView::Unsigned(height)), "label"@, JsonView::Text(label), "type"@, JsonView::Text("window_resize"@), "width"@, JsonView::Number(NumberView::Unsigned(width)));
    lemma_fields_3("label"@, JsonView::Text(label), "title"@, JsonView::Text(title), "type"@, JsonView::Text("window_set_title"@));
    lemma_fields_2("label"@, JsonView::Text(label), "type"@, JsonView::Text("window_focus"@));
    lemma_fields_3("body"@, JsonView::Text(body), "title"@, JsonView::Text(title), "type"@, JsonView::Text("window_notify"@));
    lemma_fields_2("request_id"@, JsonView::Text(request_id), "type"@, JsonView::Text("window_list_request"@));
}

/// A client introduces itself by its name and the version of the protocol that
/// it speaks, and the broker by its own.
pub proof fn law_handshakes_say_who_speaks(id: int, client_name: Seq<char>)
    ensures
        client_hello(id, client_name).natural_at("id"@) == Some(id),
        client_hello(id, client_name).text_at("jsonrpc"@) == Some("2.0"@),
        client_hello(id, client_name).text_at("method"@) == Some("initialize"@),
        client_hello(id, client_name).member("params"@) == Some(JsonView::object().with("capabilities"@, JsonView::object()).with("clientInfo"@, JsonView::object().with("name"@, JsonView::Text(client_name)).with("version"@, JsonView::Text("0.1.0"@))).with("protocolVersion"@, JsonView::Text("2024-11-05"@))),
        server_hello().member("capabilities"@) == Some(JsonView::object().with("tools"@, JsonView::object())),
        server_hello().text_at("protocolVersion"@) == Some("2024-11-05"@),
        server_hello().member("serverInfo"@) == Some(JsonView::object().with("name"@, JsonView::Text("clawshake-broker"@)).with("version"@, JsonView::Text("0.1.0"@))),
{
    reveal_strlit("capabilities");
    reveal_strlit("id");
    reveal_strlit("jsonrpc");
    reveal_strlit("method");
    reveal_strlit("params");
    reveal_strlit("protocolVersion");
    reveal_strlit("serverInfo");
    assert("capabilities"@.len() == 12);
    assert("id"@.len() == 2);
    assert("jsonrpc"@.len() == 7);
    assert("method"@.len() == 6);
    assert("params"@.len() == 6);
    assert("protocolVersion"@.len() == 15);
    assert("serverInfo"@.len() == 10);
    assert("method"@[0] == 'm');
    assert("params"@[0] == 'p');
    lemma_fields_4("id"@, JsonView::Number(NumberView::Unsigned(id)), "jsonrpc"@, JsonView::Text("2.0"@), "method"@, JsonView::Text("initialize"@), "params"@, JsonView::object().with("capabilities"@, JsonView::object()).with("clientInfo"@, JsonView::object().with("name"@, JsonView::Text(client_name)).with("version"@, JsonView::Text("0.1.0"@))).with("protocolVersion"@, JsonView::Text("2024-11-05"@)));
    lemma_fields_3("capabilities"@, JsonView::object().with("tools"@, JsonView::object()), "protocolVersion"@, JsonView::Text("2024-11-05"@), "serverInfo"@, JsonView::object().with("name"@, JsonView::Text("clawshake-broker"@)).with("version"@, JsonView::Text("0.1.0"@)));
}

/// The messages that carry nothing of the caller say what they are.
pub proof fn law_notices_say_what_they_are(text: Seq<char>)
    ensures
        list_json().text_at("method"@) == Some("tools/list"@),
        list_json().natural_at("id"@) == Some(1int),
        list_json().text_at("jsonrpc"@) == Some("2.0"@),
        initialized_json().text_at("method"@) == Some("notifications/initialized"@),
        initialized_json().text_at("jsonrpc"@) == Some("2.0"@),
        initialized_json().member("id"@) is None,
        list_changed_json().text_at("method"@) == Some("notifications/tools/list_changed"@),
        list_changed_json().text_at("jsonrpc"@) == Some("2.0"@),
        list_changed_json().member("id"@) is None,
        refused_json(text).text_at("error"@) == Some("Bad request: "@ + text),
        refused_json(text).truth_at("ok"@) == Some(false),
        error_json(text).text_at("error"@) == Some(text),
        ok_json().truth_at("ok"@) == Some(true),
        no_windows_json().items_at("windows"@) == Some(Seq::<JsonView>::empty()),
        probe_json().items_at("topics"@) == Some(seq![JsonView::Text(TOPIC_CLI_RESPONSE@)]),
{
    reveal_strlit("id");
    reveal_strlit("jsonrpc");
    reveal_strlit("method");
    reveal_strlit("params");
    reveal_strlit("error");
    reveal_strlit("ok");
    reveal_strlit("timeout_secs");
    reveal_strlit("topics");
    assert("id"@.len() == 2);
    assert("jsonrpc"@.len() == 7);
    assert("method"@.len() == 6);
    assert("params"@.len() == 6);
    assert("error"@.len() == 5);
    assert("ok"@.len() == 2);
    assert("timeout_secs"@.len() == 12);
    assert("topics"@.len() == 6);
    assert("method"@[0] == 'm');
    assert("params"@[0] == 'p');
    let version = JsonView::Text("2.0"@);
    let listing = JsonView::Text("tools/list"@);
    lemma_fields_4(
        "id"@,
        JsonView::Number(NumberView::Unsigned(1)),
        "jsonrpc"@,
        version,
        "method"@,
        listing,
        "params"@,
        JsonView::object(),
    );
    let ready = JsonView::Text("notifications/initialized"@);
    lemma_fields_3("jsonrpc"@, version, "method"@, ready, "params"@, JsonView::object());
    let changed = JsonView::Text("notifications/tools/list_changed"@);
    lemma_fields_2("jsonrpc"@, version, "method"@, changed);
    lemma_fields_2("error"@, JsonView::Text("Bad request: "@ + text), "ok"@, JsonView::Bool(false));
    lemma_member_added(JsonView::object(), "error"@, JsonView::Text(text));
    lemma_member_added(JsonView::object(), "ok"@, JsonView::Bool(true));
    lemma_member_added(JsonView::object(), "windows"@, JsonView::Array(Seq::empty()));
    lemma_fields_2(
        "timeout_secs"@,
        JsonView::Number(NumberView::Float("0.001"@)),
        "topics"@,
        JsonView::Array(seq![JsonView::Text(TOPIC_CLI_RESPONSE@)]),
    );
    let one = JsonView::object().with("jsonrpc"@, version);
    lemma_member_kept(JsonView::object(), "jsonrpc"@, version, "id"@);
    lemma_member_kept(one, "method"@, ready, "id"@);
    lemma_member_kept(one, "method"@, changed, "id"@);
    lemma_member_kept(one.with("method"@, ready), "params"@, JsonView::object(), "id"@);
}

} // verus!
