//! What the broker makes of manifests, requests and results, told by what a
//! caller can rely on.
use vstd::prelude::*;

use crate::channels::{
    answers_in, answers_of, call_json, content_text, frame_topic, item_texts, repl_step, tool_result, ReplEvent,
};
use crate::json::{
    lemma_fields_2, lemma_fields_3, lemma_member_added, read_json, Field, JsonView, NumberView,
};
use crate::manifest::{
    manifest_from, read_invoke, read_source, schema_tool, tool_from, InvokeView, SourceView, ToolView,
};
use crate::mcp_client::{called, id_after, listed_tools, server_spawn};
use crate::mcp_server::{
    call_answer, initialize_json, law_listing_shows_what_is_shown, shown, shown_tools, step_of, tool_entry,
    tools_list_json, StepView,
};
use crate::messages::{
    law_calls_carry_tool_and_arguments, law_listed_tools_say_what_they_are, law_messages_carry_their_text,
};
use crate::registry::{after_change, server_tools, with_tools, without_source, FileChange, LoadedView};
use crate::rpc::{call_params, call_result, err_response, ok_response, read_request, RequestView};
use crate::shell::{
    all_lowercased, block_reason, builtin_patterns, first_pattern, head, report, shell_refusal, shell_spawn, streams,
    timeout_of, truncated,
};
use crate::spawn::{inner_arguments, spawn_refusal};
use crate::text::{
    joined_by, lemma_joined_hold, lemma_occurs_between, lemma_occurs_in_more, occurs, signed_decimal, trimmed,
};

verus! {

/// The names of the members are told apart.
proof fn lemma_names()
    ensures
        "id"@ != "jsonrpc"@,
        "id"@ != "result"@,
        "jsonrpc"@ != "result"@,
        "error"@ != "id"@,
        "error"@ != "jsonrpc"@,
        "error"@ != "result"@,
        "content"@ != "isError"@,
        "text"@ != "type"@,
        "code"@ != "message"@,
        "arguments"@ != "name"@,
{
    reveal_strlit("id");
    reveal_strlit("jsonrpc");
    reveal_strlit("result");
    reveal_strlit("error");
    reveal_strlit("content");
    reveal_strlit("isError");
    reveal_strlit("text");
    reveal_strlit("type");
    reveal_strlit("code");
    reveal_strlit("message");
    reveal_strlit("arguments");
    reveal_strlit("name");
    assert("id"@.len() == 2 && "jsonrpc"@.len() == 7 && "result"@.len() == 6 && "error"@.len() == 5);
    assert("content"@[0] == 'c' && "isError"@[0] == 'i');
    assert("text"@[1] == 'e' && "type"@[1] == 'y');
    assert("code"@.len() == 4 && "message"@.len() == 7);
    assert("arguments"@.len() == 9 && "name"@.len() == 4);
}

// ---------------------------------------------------------------------------
// Results
// ---------------------------------------------------------------------------

/// What a response to a call holds.
proof fn lemma_result_response(id: Option<JsonView>, text: Seq<char>, is_error: bool)
    ensures
        ({
            let r = ok_response(id, call_result(text, is_error));
            &&& r.member("error"@) is None
            &&& r.member("result"@) == Some(call_result(text, is_error))
            &&& call_result(text, is_error).truth_at("isError"@) == Some(is_error)
            &&& content_text(call_result(text, is_error)) == text
        }),
{
    lemma_names();
    let result = call_result(text, is_error);
    let sent = crate::rpc::id_json(id);
    lemma_fields_3("id"@, sent, "jsonrpc"@, JsonView::Text("2.0"@), "result"@, result);
    let a = JsonView::object().with("id"@, sent);
    let b = a.with("jsonrpc"@, JsonView::Text("2.0"@));
    crate::json::lemma_member_kept(JsonView::object(), "id"@, sent, "error"@);
    crate::json::lemma_member_kept(a, "jsonrpc"@, JsonView::Text("2.0"@), "error"@);
    crate::json::lemma_member_kept(b, "result"@, result, "error"@);
    assert(JsonView::object().member("error"@) is None);
    let item = JsonView::object().with("text"@, JsonView::Text(text)).with("type"@, JsonView::Text("text"@));
    lemma_fields_2("text"@, JsonView::Text(text), "type"@, JsonView::Text("text"@));
    let items = seq![item];
    lemma_fields_2("content"@, JsonView::Array(items), "isError"@, JsonView::Bool(is_error));
    assert(items.drop_last() =~= Seq::empty());
    assert(items.last() == item);
    assert(item_texts(items.drop_last()) =~= Seq::empty());
    assert(item_texts(items) =~= seq![text]);
}

/// What a tool gives is what its caller gets, over either client; what it
/// fails with is an error to the caller, and says the same.
pub proof fn law_results_reach_the_caller(id: Option<JsonView>, text: Seq<char>)
    ensures
        tool_result(ok_response(id, call_result(text, false))) == Ok::<Seq<char>, Seq<char>>(text),
        tool_result(ok_response(id, call_result(text, true))) is Err,
        occurs(tool_result(ok_response(id, call_result(text, true)))->Err_0, text),
        called(ok_response(id, call_result(text, false))) == Ok::<Seq<char>, Seq<char>>(text),
        called(ok_response(id, call_result(text, true))) == Err::<Seq<char>, Seq<char>>(text),
{
    lemma_result_response(id, text, false);
    lemma_result_response(id, text, true);
    lemma_occurs_between("Tool error: "@, text, Seq::empty());
    assert("Tool error: "@ + text + Seq::empty() =~= "Tool error: "@ + text);
}

/// What the router gives for a call reaches the client that made it: a result
/// as it is, an error as a failure that says the tool and the error.
pub proof fn law_outcomes_reach_the_client(id: Option<JsonView>, name: Seq<char>, text: Seq<char>)
    ensures
        called(call_answer(id, name, Ok(text))) == Ok::<Seq<char>, Seq<char>>(text),
        called(call_answer(id, name, Err(text))) is Err,
        occurs(called(call_answer(id, name, Err(text)))->Err_0, text),
        occurs(called(call_answer(id, name, Err(text)))->Err_0, name),
{
    let told = "Tool '"@ + name + "': "@ + text;
    lemma_result_response(id, text, false);
    lemma_result_response(id, told, true);
    lemma_occurs_between("Tool '"@ + name + "': "@, text, Seq::empty());
    assert("Tool '"@ + name + "': "@ + text + Seq::empty() =~= told);
    lemma_occurs_between("Tool '"@, name, "': "@ + text);
    assert("Tool '"@ + name + ("': "@ + text) =~= told);
}

/// An error response is an error to the caller, and says what it says.
pub proof fn law_errors_reach_the_caller(id: Option<JsonView>, code: int, message: Seq<char>)
    ensures
        tool_result(err_response(id, code, message)) is Err,
        occurs(tool_result(err_response(id, code, message))->Err_0, message),
        called(err_response(id, code, message)) is Err,
        occurs(called(err_response(id, code, message))->Err_0, message),
{
    lemma_names();
    let number = JsonView::Number(NumberView::Negative(code));
    lemma_fields_2("code"@, number, "message"@, JsonView::Text(message));
    let e = JsonView::object().with("code"@, number).with("message"@, JsonView::Text(message));
    lemma_fields_3("error"@, e, "id"@, crate::rpc::id_json(id), "jsonrpc"@, JsonView::Text("2.0"@));
    lemma_occurs_between("Broker error: "@, message, Seq::empty());
    assert("Broker error: "@ + message + Seq::empty() =~= "Broker error: "@ + message);
    lemma_occurs_between("MCP error: "@, message, Seq::empty());
    assert("MCP error: "@ + message + Seq::empty() =~= "MCP error: "@ + message);
}

/// Every text of a result is in what the caller gets, in its order.
pub proof fn law_every_text_is_told(result: JsonView, items: Seq<JsonView>, i: int, text: Seq<char>)
    requires
        result.items_at("content"@) == Some(items),
        0 <= i < items.len(),
        items[i].text_at("text"@) == Some(text),
    ensures
        occurs(content_text(result), text),
{
    lemma_item_texts(items, i, text);
    let texts = item_texts(items);
    let k = choose|k: int| 0 <= k < texts.len() && texts[k] == text;
    lemma_joined_hold(texts, "\n"@, k);
}

proof fn lemma_item_texts(items: Seq<JsonView>, i: int, text: Seq<char>)
    requires
        0 <= i < items.len(),
        items[i].text_at("text"@) == Some(text),
    ensures
        item_texts(items).contains(text),
    decreases items.len(),
{
    let before = item_texts(items.drop_last());
    let all = item_texts(items);
    if i < items.len() - 1 {
        lemma_item_texts(items.drop_last(), i, text);
        let k = choose|k: int| 0 <= k < before.len() && before[k] == text;
        assert(all[k] == text);
    } else {
        assert(all[all.len() - 1] == text);
    }
}

// ---------------------------------------------------------------------------
// Requests
// ---------------------------------------------------------------------------

/// A request is read with its method, its parameters and its identifier; one
/// without a method is refused.
pub proof fn law_requests_are_read(j: JsonView, method: Seq<char>, id: JsonView, params: JsonView)
    ensures
        j.text_at("method"@) == Some(method) ==> read_request(j) is Ok && read_request(j)->Ok_0.method == method,
        j.text_at("method"@) == Some(method) && j.member("id"@) == Some(id) && id !is Null ==> read_request(j)->Ok_0.id
            == Some(id),
        j.text_at("method"@) == Some(method) && j.member("params"@) == Some(params) && params !is Null
            ==> read_request(j)->Ok_0.params == Some(params),
        j.text_at("method"@) == Some(method) && j.member("params"@) is None ==> read_request(j)->Ok_0.params is None,
        j.text_at("method"@) is None ==> read_request(j) is Err,
{
}

/// A call that a client makes is dispatched as a call of that tool with those
/// arguments, under the client's identifier.
pub proof fn law_calls_are_dispatched(
    tool: Seq<char>,
    arguments: JsonView,
    id: Option<JsonView>,
    tools: Seq<LoadedView>,
    code_mode: bool,
)
    requires
        arguments is Object,
    ensures
        ({
            let sent = call_json(tool, arguments).member("params"@);
            let req = RequestView { id, method: "tools/call"@, params: sent };
            step_of(req, tools, code_mode) == (StepView::Call { id, name: tool, arguments })
        }),
        ({
            let bare = JsonView::object().with("name"@, JsonView::Text(tool));
            let req = RequestView { id, method: "tools/call"@, params: Some(bare) };
            step_of(req, tools, code_mode) == (StepView::Call { id, name: tool, arguments: JsonView::object() })
        }),
        ({
            let req = RequestView { id, method: "tools/call"@, params: None };
            step_of(req, tools, code_mode) is Reply
        }),
{
    lemma_methods();
    lemma_names();
    law_calls_carry_tool_and_arguments(tool, Seq::empty(), arguments);
    let name = JsonView::Text(tool);
    let bare = JsonView::object().with("name"@, name);
    lemma_member_added(JsonView::object(), "name"@, name);
    crate::json::lemma_member_kept(JsonView::object(), "name"@, name, "arguments"@);
    assert(JsonView::object().member("arguments"@) is None);
    let sent = call_json(tool, arguments).member("params"@);
    assert(call_params(sent) == Some((tool, arguments)));
    assert(call_params(Some(bare)) == Some((tool, JsonView::object())));
}

proof fn lemma_methods()
    ensures
        "tools/call"@ != "initialize"@ && "tools/call"@ != "ping"@ && "tools/call"@ != "tools/list"@,
        "tools/call"@ != "notifications/initialized"@ && "tools/call"@ != "notifications/cancelled"@,
        "tools/list"@ != "initialize"@ && "tools/list"@ != "ping"@,
        "tools/list"@ != "notifications/initialized"@ && "tools/list"@ != "notifications/cancelled"@,
        "ping"@ != "initialize"@,
{
    reveal_strlit("tools/call");
    reveal_strlit("tools/list");
    reveal_strlit("initialize");
    reveal_strlit("ping");
    reveal_strlit("notifications/initialized");
    reveal_strlit("notifications/cancelled");
    assert("tools/call"@.len() == 10 && "tools/call"@[0] == 't' && "tools/call"@[6] == 'c');
    assert("tools/list"@.len() == 10 && "tools/list"@[0] == 't' && "tools/list"@[6] == 'l');
    assert("initialize"@.len() == 10 && "initialize"@[0] == 'i');
    assert("ping"@.len() == 4 && "notifications/initialized"@.len() == 25 && "notifications/cancelled"@.len() == 23);
}

/// A listing shows every tool that is registered and not hidden, with its
/// name, description and schema; in code mode it shows those of code mode only.
pub proof fn law_every_shown_tool_is_listed(
    id: Option<JsonView>,
    params: Option<JsonView>,
    tools: Seq<LoadedView>,
    code_mode: bool,
    t: LoadedView,
)
    requires
        tools.contains(t),
    ensures
        ({
            let req = RequestView { id, method: "tools/list"@, params };
            step_of(req, tools, code_mode) == StepView::Reply(ok_response(id, tools_list_json(tools, code_mode)))
        }),
        tools_list_json(tools, code_mode).items_at("tools"@) is Some,
        !t.hidden && (!code_mode || t.source == "codemode"@) ==> exists|k: int|
            0 <= k < tools_list_json(tools, code_mode).items_at("tools"@)->0.len() && {
                let item = #[trigger] tools_list_json(tools, code_mode).items_at("tools"@)->0[k];
                &&& item.text_at("name"@) == Some(t.tool.name)
                &&& item.text_at("description"@) == Some(t.tool.description)
                &&& item.member("inputSchema"@) == Some(crate::manifest::schema_json(t.tool.schema))
            },
        t.hidden || (code_mode && t.source != "codemode"@) ==> !shown_tools(tools, code_mode).contains(t),
{
    lemma_methods();
    let list = shown_tools(tools, code_mode);
    let items = Seq::new(list.len(), |i: int| tool_entry(list[i]));
    lemma_member_added(JsonView::object(), "tools"@, JsonView::Array(items));
    law_listing_shows_what_is_shown(tools, code_mode, t);
    if shown(t, code_mode) {
        let k = choose|k: int| 0 <= k < list.len() && list[k] == t;
        let any = crate::commands::LineView { name: Seq::empty(), source: Seq::empty(), description: Seq::empty() };
        law_listed_tools_say_what_they_are(t, any, Map::empty());
        assert(tools_list_json(tools, code_mode).items_at("tools"@)->0 =~= items);
        assert(tools_list_json(tools, code_mode).items_at("tools"@)->0[k] == tool_entry(t));
    }
}

/// A greeting is answered with who the broker is, a ping with nothing, and a
/// method that is not known with an error that names it.
pub proof fn law_other_methods_are_answered(req: RequestView, tools: Seq<LoadedView>, code_mode: bool)
    ensures
        req.method == "initialize"@ ==> step_of(req, tools, code_mode) == StepView::Reply(
            ok_response(req.id, initialize_json()),
        ),
        req.method == "ping"@ ==> step_of(req, tools, code_mode) == StepView::Reply(
            ok_response(req.id, JsonView::object()),
        ),
        req.method != "initialize"@ && req.method != "ping"@ && req.method != "tools/list"@ && req.method
            != "tools/call"@ && req.method != "notifications/initialized"@ && req.method
            != "notifications/cancelled"@ ==> step_of(req, tools, code_mode) == StepView::Reply(
            err_response(req.id, -32601, "Method not found: "@ + req.method),
        ),
{
    lemma_methods();
}

/// The tools that a server lists are taken as it lists them.
pub proof fn law_listed_tools_are_taken(response: JsonView, result: JsonView, items: Seq<JsonView>)
    requires
        response.member("result"@) == Some(result),
        result.items_at("tools"@) == Some(items),
    ensures
        listed_tools(response) == items,
{
}

/// A server is started with its command and every argument.
pub proof fn law_servers_are_started_with_their_arguments(command: Seq<char>, args: Seq<Seq<char>>, i: int)
    requires
        0 <= i < args.len(),
    ensures
        server_spawn(command, args, true).program == "cmd"@,
        server_spawn(command, args, true).args.len() == args.len() + 2,
        server_spawn(command, args, true).args[1] == command,
        server_spawn(command, args, true).args[i + 2] == args[i],
        server_spawn(command, args, false).program == "sh"@,
        server_spawn(command, args, false).args[0] == "-c"@,
        command.is_prefix_of(server_spawn(command, args, false).args[1]),
        occurs(server_spawn(command, args, false).args[1], args[i]),
        server_spawn(command, Seq::empty(), false).args[1] == command,
{
    lemma_joined_hold(args, " "@, i);
    let line = command + " "@ + joined_by(args, " "@);
    lemma_occurs_in_more(command + " "@, joined_by(args, " "@), Seq::empty(), args[i]);
    assert(command =~= line.subrange(0, command.len() as int));
}

/// The identifiers of two requests that follow each other differ.
pub proof fn law_identifiers_go_on(id: int)
    requires
        0 <= id <= u64::MAX,
    ensures
        0 <= id_after(id) <= u64::MAX,
        id_after(id) != id,
        id < u64::MAX ==> id_after(id) == id + 1,
{
}

// ---------------------------------------------------------------------------
// The terminal
// ---------------------------------------------------------------------------

/// A line is sent as it was typed, without the space around it; `exit`, `quit`
/// and the end of the input leave; an empty line asks again.
pub proof fn law_lines_are_sent(cursor: int, line: String)
    ensures
        repl_step(cursor, ReplEvent::Line(None)).action is Leave,
        trimmed(line@) == "exit"@ || trimmed(line@) == "quit"@ ==> repl_step(
            cursor,
            ReplEvent::Line(Some(line)),
        ).action is Leave,
        trimmed(line@).len() == 0 ==> repl_step(cursor, ReplEvent::Line(Some(line))).action is Prompt,
        trimmed(line@).len() > 0 && trimmed(line@) != "exit"@ && trimmed(line@) != "quit"@ ==> {
            let action = repl_step(cursor, ReplEvent::Line(Some(line))).action;
            &&& action is Emit
            &&& action->Emit_0.text_at("topic"@) == Some("channel.cli"@)
            &&& action->Emit_0.member("data"@) is Some
            &&& action->Emit_0.member("data"@)->0.text_at("text"@) == Some(trimmed(line@))
        },
{
    reveal_strlit("exit");
    reveal_strlit("quit");
    assert("exit"@.len() == 4 && "quit"@.len() == 4);
    law_messages_carry_their_text(trimmed(line@), cursor);
    lemma_member_added(JsonView::object(), "text"@, JsonView::Text(trimmed(line@)));
}

/// Every answer that has arrived is shown, in order, and the next question
/// goes on behind them.
pub proof fn law_answers_are_shown(cursor: int, text: String, v: JsonView, events: Seq<JsonView>, i: int, next: int)
    requires
        read_json(vstd::utf8::encode_utf8(text@)) == Ok::<JsonView, Seq<char>>(v),
        v.items_at("events"@) == Some(events),
        v.natural_at("cursor"@) == Some(next),
        0 <= i < events.len(),
        events[i].member("data"@) is Some,
        events[i].member("data"@)->0.text_at("text"@) is Some,
    ensures
        ({
            let step = repl_step(cursor, ReplEvent::Listened(Ok(text)));
            &&& step.cursor == next
            &&& step.answers.contains(events[i].member("data"@)->0.text_at("text"@)->0)
            &&& step.note is None
            &&& step.action is Prompt
        }),
{
    lemma_answers(events, i);
    let said = events[i].member("data"@)->0.text_at("text"@)->0;
    assert(answers_of(v) == answers_in(events));
    let k = choose|k: int| 0 <= k < answers_in(events).len() && answers_in(events)[k] == said;
    assert(answers_of(v).len() > 0);
}

proof fn lemma_answers(events: Seq<JsonView>, i: int)
    requires
        0 <= i < events.len(),
        events[i].member("data"@) is Some,
        events[i].member("data"@)->0.text_at("text"@) is Some,
    ensures
        answers_in(events).contains(events[i].member("data"@)->0.text_at("text"@)->0),
    decreases events.len(),
{
    let said = events[i].member("data"@)->0.text_at("text"@)->0;
    let before = answers_in(events.drop_last());
    let all = answers_in(events);
    if i < events.len() - 1 {
        lemma_answers(events.drop_last(), i);
        let k = choose|k: int| 0 <= k < before.len() && before[k] == said;
        assert(all[k] == said);
    } else {
        assert(all[all.len() - 1] == said);
    }
}

/// The topic of a frame names it, and two frames have two topics.
pub proof fn law_frames_have_their_topics(a: Seq<char>, b: Seq<char>)
    ensures
        a.is_suffix_of(frame_topic(a)),
        "channel.ui."@.is_prefix_of(frame_topic(a)),
        frame_topic(a) == frame_topic(b) ==> a == b,
{
    let t = frame_topic(a);
    let head = "channel.ui."@;
    assert(t.subrange(t.len() - a.len(), t.len() as int) =~= a);
    assert(t.subrange(0, head.len() as int) =~= head);
    if t == frame_topic(b) {
        assert(t.skip(head.len() as int) =~= a);
        assert(frame_topic(b).skip(head.len() as int) =~= b);
    }
}

// ---------------------------------------------------------------------------
// Tasks
// ---------------------------------------------------------------------------

/// A registered tool can be spawned, `spawn` itself excepted, with the
/// arguments that were given for it.
pub proof fn law_registered_tools_can_be_spawned(arguments: JsonView, tools: Map<Seq<char>, LoadedView>)
    ensures
        spawn_refusal(arguments, tools) is None <==> arguments.text_at("tool"@) is Some && arguments.text_at("tool"@)->0
            != "spawn"@ && tools.contains_key(arguments.text_at("tool"@)->0),
        arguments.member("arguments"@) is Some ==> inner_arguments(arguments) == arguments.member("arguments"@)->0,
        arguments.member("arguments"@) is None ==> inner_arguments(arguments) == JsonView::Object(Seq::empty()),
{
}

// ---------------------------------------------------------------------------
// The shell
// ---------------------------------------------------------------------------

proof fn lemma_pattern(lower: Seq<char>, patterns: Seq<Seq<char>>)
    ensures
        0 <= first_pattern(lower, patterns) <= patterns.len(),
        first_pattern(lower, patterns) < patterns.len() <==> exists|i: int|
            0 <= i < patterns.len() && occurs(lower, #[trigger] patterns[i]),
    decreases patterns.len(),
{
    if patterns.len() > 0 {
        let rest = patterns.skip(1);
        lemma_pattern(lower, rest);
        if exists|i: int| 0 <= i < patterns.len() && occurs(lower, #[trigger] patterns[i]) {
            let i = choose|i: int| 0 <= i < patterns.len() && occurs(lower, #[trigger] patterns[i]);
            if i > 0 {
                assert(rest[i - 1] == patterns[i]);
            }
        }
        if exists|i: int| 0 <= i < rest.len() && occurs(lower, #[trigger] rest[i]) {
            let i = choose|i: int| 0 <= i < rest.len() && occurs(lower, #[trigger] rest[i]);
            assert(patterns[i + 1] == rest[i]);
        }
        if occurs(lower, patterns[0]) {
            assert(exists|i: int| 0 <= i < patterns.len() && occurs(lower, #[trigger] patterns[i]));
        }
    }
}

/// A command that would erase a disk, overwrite one, or stop the machine is
/// blocked, wherever in the line it stands.
pub proof fn law_dangerous_commands_are_blocked(
    lower: Seq<char>,
    extra: Seq<Seq<char>>,
    extra_lower: Seq<Seq<char>>,
)
    requires
        occurs(lower, "rm -rf /"@) || occurs(lower, "mkfs"@) || occurs(lower, "dd if="@) || occurs(
            lower,
            ":(){ :|:& };:"@,
        ) || occurs(lower, "shutdown"@) || occurs(lower, "reboot"@) || occurs(lower, "halt"@) || occurs(
            lower,
            "init 0"@,
        ) || occurs(lower, "init 6"@) || occurs(lower, "> /dev/sd"@) || occurs(lower, "> /dev/nvme"@) || occurs(
            lower,
            "format c:"@,
        ),
    ensures
        block_reason(lower, extra, extra_lower) is Some,
{
    let p = builtin_patterns();
    lemma_pattern(lower, p);
    assert(p[0] == "rm -rf /"@ && p[2] == "mkfs"@ && p[3] == "dd if="@ && p[4] == ":(){ :|:& };:"@);
    assert(p[5] == "shutdown"@ && p[6] == "reboot"@ && p[7] == "halt"@ && p[8] == "init 0"@);
    assert(p[9] == "init 6"@ && p[10] == "> /dev/sd"@ && p[11] == "> /dev/nvme"@ && p[12] == "format c:"@);
}

/// A command that no built-in and no configured pattern stands in is run.
pub proof fn law_other_commands_are_run(arguments: JsonView, command: Seq<char>, patterns: Seq<Seq<char>>)
    requires
        arguments.text_at("command"@) == Some(command),
        forall|i: int|
            0 <= i < builtin_patterns().len() ==> !occurs(
                crate::text::lowercased(command),
                #[trigger] builtin_patterns()[i],
            ),
        forall|i: int|
            0 <= i < patterns.len() ==> !occurs(
                crate::text::lowercased(command),
                crate::text::lowercased(#[trigger] patterns[i]),
            ),
    ensures
        shell_refusal(arguments, patterns) is None,
{
    let lower = crate::text::lowercased(command);
    lemma_pattern(lower, builtin_patterns());
    lemma_pattern(lower, all_lowercased(patterns));
    assert forall|i: int| 0 <= i < all_lowercased(patterns).len() implies !occurs(
        lower,
        #[trigger] all_lowercased(patterns)[i],
    ) by {
        assert(all_lowercased(patterns)[i] == crate::text::lowercased(patterns[i]));
    }
}

/// The system shell gets the command as it is; on Windows, behind what makes
/// it print UTF-8.
pub proof fn law_shell_gets_the_command(command: Seq<char>)
    ensures
        shell_spawn(command, false).program == "sh"@,
        shell_spawn(command, false).args == seq!["-c"@, command],
        shell_spawn(command, true).program == "powershell"@,
        command.is_suffix_of(shell_spawn(command, true).args.last()),
        shell_spawn(command, true).args.contains("-NonInteractive"@),
{
    let s = shell_spawn(command, true);
    let last = s.args.last();
    assert(last.subrange(last.len() - command.len(), last.len() as int) =~= command);
    assert(s.args[1] == "-NonInteractive"@);
}

/// A call may ask for a shorter or longer time than the configured one, but
/// for no more than five minutes.
pub proof fn law_timeouts_are_bounded(arguments: JsonView, default_secs: int)
    ensures
        timeout_of(arguments, default_secs) <= 300,
        arguments.natural_at("timeout_secs"@) is Some && arguments.natural_at("timeout_secs"@)->0 <= 300 ==> timeout_of(
            arguments,
            default_secs,
        ) == arguments.natural_at("timeout_secs"@)->0,
        arguments.natural_at("timeout_secs"@) is None && default_secs <= 300 ==> timeout_of(arguments, default_secs)
            == default_secs,
{
}

/// What a command printed is reported, both what it printed and what it
/// complained of, and its exit code where it failed.
pub proof fn law_output_is_reported(exit_code: int, stdout: Seq<char>, stderr: Seq<char>)
    ensures
        stdout.len() > 0 ==> occurs(report(exit_code, stdout, stderr), stdout),
        stderr.len() > 0 ==> occurs(report(exit_code, stdout, stderr), stderr),
        exit_code != 0 ==> ("\n\n[exit code: "@ + signed_decimal(exit_code) + "]"@).is_suffix_of(
            report(exit_code, stdout, stderr),
        ),
        exit_code == 0 && stderr.len() == 0 && stdout.len() > 0 ==> report(exit_code, stdout, stderr) == stdout,
{
    let none = Seq::<char>::empty();
    let both = streams(stdout, stderr);
    let sep = "\n--- stderr ---\n"@;
    lemma_occurs_between(none, stdout, none);
    assert(none + stdout + none =~= stdout);
    lemma_occurs_between(none, stderr, none);
    assert(none + stderr + none =~= stderr);
    if stdout.len() > 0 && stderr.len() > 0 {
        lemma_occurs_between(none, stdout, sep + stderr);
        assert(none + stdout + (sep + stderr) =~= both);
        lemma_occurs_between(stdout + sep, stderr, none);
        assert(stdout + sep + stderr + none =~= both);
    }
    let tail = "\n\n[exit code: "@ + signed_decimal(exit_code) + "]"@;
    if exit_code != 0 {
        if stdout.len() > 0 {
            lemma_occurs_in_more(none, both, tail, stdout);
        }
        if stderr.len() > 0 {
            lemma_occurs_in_more(none, both, tail, stderr);
        }
        let all = report(exit_code, stdout, stderr);
        assert(both + tail =~= all);
        assert(all.subrange(all.len() - tail.len(), all.len() as int) =~= tail);
    }
}

/// What is cut is the end of the text, and only where it is too long.
pub proof fn law_only_long_output_is_cut(s: Seq<char>, max: int)
    requires
        max >= 0,
    ensures
        vstd::utf8::encode_utf8(s).len() <= max ==> truncated(s, max) == s,
        head(s, max).is_prefix_of(s),
        head(s, max).is_prefix_of(truncated(s, max)),
{
    lemma_head_is_prefix(s, max);
    let h = head(s, max);
    let t = truncated(s, max);
    if vstd::utf8::encode_utf8(s).len() > max {
        assert(h =~= t.subrange(0, h.len() as int));
    } else {
        assert(h =~= t.subrange(0, h.len() as int));
    }
}

proof fn lemma_head_is_prefix(s: Seq<char>, max: int)
    ensures
        head(s, max).is_prefix_of(s),
    decreases s.len(),
{
    if s.len() == 0 || vstd::utf8::encode_utf8(s).len() <= max {
        assert(s =~= s.subrange(0, s.len() as int));
    } else {
        lemma_head_is_prefix(s.drop_last(), max);
        let h = head(s, max);
        assert(h =~= s.drop_last().subrange(0, h.len() as int));
        assert(s.drop_last().subrange(0, h.len() as int) =~= s.subrange(0, h.len() as int));
    }
}

// ---------------------------------------------------------------------------
// Manifests
// ---------------------------------------------------------------------------

/// A tool that a manifest declares is there as it is declared; where it
/// declares a name twice, the later one counts.
pub proof fn law_tools_are_loaded_as_declared(
    m: Map<Seq<char>, LoadedView>,
    tools: Seq<ToolView>,
    source: Seq<char>,
    i: int,
)
    requires
        0 <= i < tools.len(),
        forall|k: int| i < k < tools.len() ==> (#[trigger] tools[k]).name != tools[i].name,
    ensures
        with_tools(m, tools, source).contains_key(tools[i].name),
        with_tools(m, tools, source)[tools[i].name] == (LoadedView { tool: tools[i], source, hidden: false }),
    decreases tools.len(),
{
    let before = tools.drop_last();
    if i < tools.len() - 1 {
        assert forall|k: int| i < k < before.len() implies (#[trigger] before[k]).name != before[i].name by {
            assert(tools[k].name != tools[i].name);
        }
        law_tools_are_loaded_as_declared(m, before, source, i);
        assert(tools[tools.len() - 1].name != tools[i].name);
    }
}

/// A changed manifest file replaces what it declared before; a removed one
/// takes it away; what other files declared stays.
pub proof fn law_changed_files_are_followed(
    m: Map<Seq<char>, LoadedView>,
    stem: Seq<char>,
    change: FileChange,
    name: Seq<char>,
)
    ensures
        change is Removed ==> (after_change(m, stem, change).contains_key(name) <==> m.contains_key(name)
            && m[name].source != stem),
        change is Other ==> after_change(m, stem, change) == m,
        change matches FileChange::Written(None) ==> after_change(m, stem, change) == m,
        change matches FileChange::Written(Some(manifest)) ==> {
            let declared = exists|i: int| 0 <= i < manifest@.tools.len() && (#[trigger] manifest@.tools[i]).name == name;
            &&& declared ==> after_change(m, stem, change).contains_key(name) && after_change(
                m,
                stem,
                change,
            )[name].source == stem
            &&& !declared ==> (after_change(m, stem, change).contains_key(name) <==> m.contains_key(name)
                && m[name].source != stem)
            &&& !declared && after_change(m, stem, change).contains_key(name) ==> after_change(m, stem, change)[name]
                == m[name]
        },
{
    match change {
        FileChange::Written(Some(manifest)) => {
            crate::registry::law_loaded_tools_are_there(without_source(m, stem), manifest@.tools, stem, name);
        },
        _ => {},
    }
}

/// A tool that a server lists is called through that server, and is otherwise
/// as the server describes it.
pub proof fn law_server_tools_are_called_there(listed: Seq<JsonView>, server: Seq<char>, i: int)
    requires
        0 <= i < listed.len(),
        schema_tool(listed[i]) is Some,
    ensures
        exists|k: int|
            0 <= k < server_tools(listed, server).len() && {
                let t = #[trigger] server_tools(listed, server)[k];
                &&& t.name == schema_tool(listed[i])->0.name
                &&& t.description == schema_tool(listed[i])->0.description
                &&& t.schema == schema_tool(listed[i])->0.schema
                &&& t.invoke == (InvokeView::Mcp { server_key: server })
            },
    decreases listed.len(),
{
    let before = server_tools(listed.drop_last(), server);
    let all = server_tools(listed, server);
    let wanted = schema_tool(listed[i])->0;
    if i < listed.len() - 1 {
        law_server_tools_are_called_there(listed.drop_last(), server, i);
        assert(listed.drop_last()[i] == listed[i]);
        let k = choose|k: int|
            0 <= k < before.len() && {
                let t = #[trigger] before[k];
                &&& t.name == wanted.name
                &&& t.description == wanted.description
                &&& t.schema == wanted.schema
                &&& t.invoke == (InvokeView::Mcp { server_key: server })
            };
        assert(all[k] == before[k]);
    } else {
        assert(all[all.len() - 1].name == wanted.name);
    }
}

/// The names of the ways to invoke a tool, and of the transports.
proof fn lemma_kinds()
    ensures
        "deeplink"@ != "cli"@ && "deeplink"@ != "http"@ && "deeplink"@ != "apple_script"@ && "deeplink"@
            != "applescript"@ && "deeplink"@ != "power_shell"@ && "deeplink"@ != "powershell"@,
        "cli"@ != "http"@ && "cli"@ != "apple_script"@ && "cli"@ != "applescript"@ && "cli"@ != "power_shell"@ && "cli"@
            != "powershell"@,
        "http"@ != "apple_script"@ && "http"@ != "applescript"@ && "http"@ != "power_shell"@ && "http"@ != "powershell"@,
        "apple_script"@ != "power_shell"@ && "apple_script"@ != "powershell"@,
        "applescript"@ != "power_shell"@ && "applescript"@ != "powershell"@,
        "stdio"@ != "http"@,
{
    reveal_strlit("deeplink");
    reveal_strlit("cli");
    reveal_strlit("http");
    reveal_strlit("apple_script");
    reveal_strlit("applescript");
    reveal_strlit("power_shell");
    reveal_strlit("powershell");
    reveal_strlit("stdio");
    assert("deeplink"@.len() == 8 && "cli"@.len() == 3 && "http"@.len() == 4 && "stdio"@.len() == 5);
    assert("apple_script"@.len() == 12 && "applescript"@.len() == 11 && "applescript"@[0] == 'a');
    assert("power_shell"@.len() == 11 && "power_shell"@[0] == 'p' && "powershell"@.len() == 10);
}

/// A tool is invoked in the way that its manifest names, with what it says
/// there; a way that is not known is refused.
pub proof fn law_invocations_are_read(j: JsonView, text: Seq<char>, args: Seq<Seq<char>>)
    requires
        j is Object,
    ensures
        j.text_at("type"@) == Some("cli"@) && j.text_at("command"@) == Some(text) && j.texts_field("args"@)
            == Field::Value(args) && j.member("shell"@) is None ==> read_invoke(j) == Some(
            InvokeView::Cli { command: text, args, shell: false },
        ),
        j.text_at("type"@) == Some("cli"@) && j.text_at("command"@) == Some(text) && j.member("args"@) is None
            && j.truth_at("shell"@) == Some(true) ==> read_invoke(j) == Some(
            InvokeView::Cli { command: text, args: Seq::empty(), shell: true },
        ),
        j.text_at("type"@) == Some("http"@) && j.text_at("url"@) == Some(text) && j.text_at("method"@) is Some
            && j.member("headers"@) is None ==> read_invoke(j) == Some(
            InvokeView::Http { url: text, method: j.text_at("method"@), headers: Seq::empty() },
        ),
        j.text_at("type"@) == Some("deeplink"@) && j.text_at("template"@) == Some(text) ==> read_invoke(j) == Some(
            InvokeView::Deeplink { template: text },
        ),
        (j.text_at("type"@) == Some("applescript"@) || j.text_at("type"@) == Some("apple_script"@)) && j.text_at(
            "script"@,
        ) == Some(text) ==> read_invoke(j) == Some(InvokeView::AppleScript { script: text }),
        (j.text_at("type"@) == Some("powershell"@) || j.text_at("type"@) == Some("power_shell"@)) && j.text_at(
            "script"@,
        ) == Some(text) ==> read_invoke(j) == Some(InvokeView::PowerShell { script: text }),
        j.text_at("type"@) is None ==> read_invoke(j) is None,
{
    lemma_kinds();
    let none = Seq::<(Seq<char>, Seq<char>)>::empty();
    assert(Seq::new(
        Seq::<(Seq<char>, JsonView)>::empty().len(),
        |i: int| (Seq::<(Seq<char>, JsonView)>::empty()[i].0, Seq::<(Seq<char>, JsonView)>::empty()[i].1->Text_0),
    ) =~= none);
}

/// A server is reached in the way that its manifest names.
pub proof fn law_servers_are_read(j: JsonView, text: Seq<char>, args: Seq<Seq<char>>)
    requires
        j is Object,
    ensures
        j.text_at("transport"@) == Some("stdio"@) && j.text_at("command"@) == Some(text) && j.texts_field("args"@)
            == Field::Value(args) ==> read_source(j) == Some(SourceView::Stdio { command: text, args }),
        j.text_at("transport"@) == Some("http"@) && j.text_at("url"@) == Some(text) ==> read_source(j) == Some(
            SourceView::Http { url: text },
        ),
{
    lemma_kinds();
}

/// A tool is read with the name, the description, the schema and the
/// invocation that its manifest gives.
pub proof fn law_tools_are_read(j: JsonView)
    requires
        tool_from(j) is Some,
    ensures
        j.text_at("name"@) == Some(tool_from(j)->0.name),
        j.text_at("description"@) == Some(tool_from(j)->0.description),
        j.member("invoke"@) is Some && read_invoke(j.member("invoke"@)->0) == Some(tool_from(j)->0.invoke),
        j.member("inputSchema"@) is Some ==> crate::manifest::read_schema(j.member("inputSchema"@)->0) == Some(
            tool_from(j)->0.schema,
        ),
        j.text_at("requires"@) is Some ==> tool_from(j)->0.needs == j.text_at("requires"@),
        j.member("requires"@) is None ==> tool_from(j)->0.needs is None,
{
}

/// A manifest holds every tool that it lists, in order; it cannot be read
/// where one of them cannot.
pub proof fn law_manifests_hold_their_tools(j: JsonView, items: Seq<JsonView>, i: int)
    requires
        j.items_at("tools"@) == Some(items),
        0 <= i < items.len(),
    ensures
        manifest_from(j) is Some ==> manifest_from(j)->0.tools.len() == items.len(),
        manifest_from(j) is Some ==> crate::manifest::read_tool(items[i]) == Some(manifest_from(j)->0.tools[i]),
        crate::manifest::read_tool(items[i]) is None ==> manifest_from(j) is None,
{
}

} // verus!
