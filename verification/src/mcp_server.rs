//! The MCP server: what each request is answered.
//!
//! Tool calls are carried out by the router; everything else is answered here.
use vstd::prelude::*;

use crate::json::{items_view, json_option, printed, read_json, Json, JsonView};
use crate::manifest::schema_json;
use crate::registry::{loaded_view, LoadedTool, LoadedView, ManifestRegistry};
use crate::rpc::{
    call_params, call_result, err_response, ok_response, read_call_params, read_request, respond, respond_error,
    tool_call_result, JsonRpcRequest, RequestView, INVALID_PARAMS, METHOD_NOT_FOUND, PARSE_ERROR,
};
use crate::text::{chars_of, same, trim, trimmed};

verus! {

/// The protocol that is spoken.
pub const PROTOCOL_VERSION: &'static str = "2024-11-05";

/// The version of this server.
pub const SERVER_VERSION: &'static str = "0.1.0";

/// What is done with a request.
pub enum McpStep {
    /// It is answered.
    Reply(Json),
    /// It is a notification: nothing is answered.
    Silent,
    /// The tool is called, and [`call_response`] answers.
    Call { id: Option<Json>, name: String, arguments: Json },
}

/// The model of [`McpStep`].
pub enum StepView {
    Reply(JsonView),
    Silent,
    Call { id: Option<JsonView>, name: Seq<char>, arguments: JsonView },
}

impl View for McpStep {
    type V = StepView;

    open spec fn view(&self) -> StepView {
        match self {
            McpStep::Reply(j) => StepView::Reply(j@),
            McpStep::Silent => StepView::Silent,
            McpStep::Call { id, name, arguments } => StepView::Call {
                id: json_option(*id),
                name: name@,
                arguments: arguments@,
            },
        }
    }
}

/// What `initialize` is answered.
pub open spec fn initialize_json() -> JsonView {
    JsonView::object().with("capabilities"@, JsonView::object().with("tools"@, JsonView::object())).with(
        "protocolVersion"@,
        JsonView::Text(PROTOCOL_VERSION@),
    ).with(
        "serverInfo"@,
        JsonView::object().with("name"@, JsonView::Text("clawshake-broker"@)).with(
            "version"@,
            JsonView::Text(SERVER_VERSION@),
        ),
    )
}

/// Whether a tool is shown in `tools/list`: in code mode only the tools of code
/// mode are, and hidden tools never.
pub open spec fn shown(t: LoadedView, code_mode: bool) -> bool {
    !t.hidden && (!code_mode || t.source == "codemode"@)
}

/// A tool as `tools/list` shows it.
pub open spec fn tool_entry(t: LoadedView) -> JsonView {
    JsonView::object().with("description"@, JsonView::Text(t.tool.description)).with(
        "inputSchema"@,
        schema_json(t.tool.schema),
    ).with("name"@, JsonView::Text(t.tool.name))
}

/// The tools that `tools/list` shows, in order.
pub open spec fn shown_tools(tools: Seq<LoadedView>, code_mode: bool) -> Seq<LoadedView>
    decreases tools.len(),
{
    if tools.len() == 0 {
        Seq::empty()
    } else {
        let before = shown_tools(tools.drop_last(), code_mode);
        if shown(tools.last(), code_mode) {
            before.push(tools.last())
        } else {
            before
        }
    }
}

/// What `tools/list` is answered.
pub open spec fn tools_list_json(tools: Seq<LoadedView>, code_mode: bool) -> JsonView {
    let list = shown_tools(tools, code_mode);
    JsonView::object().with("tools"@, JsonView::Array(Seq::new(list.len(), |i: int| tool_entry(list[i]))))
}

/// What is done with a request, with the tools as they are.
pub open spec fn step_of(req: RequestView, tools: Seq<LoadedView>, code_mode: bool) -> StepView {
    if req.method == "initialize"@ {
        StepView::Reply(ok_response(req.id, initialize_json()))
    } else if req.method == "ping"@ {
        StepView::Reply(ok_response(req.id, JsonView::object()))
    } else if req.method == "notifications/initialized"@ || req.method == "notifications/cancelled"@ {
        StepView::Silent
    } else if req.method == "tools/list"@ {
        StepView::Reply(ok_response(req.id, tools_list_json(tools, code_mode)))
    } else if req.method == "tools/call"@ {
        match call_params(req.params) {
            Some((name, arguments)) => StepView::Call { id: req.id, name, arguments },
            None => StepView::Reply(
                err_response(req.id, INVALID_PARAMS as int, "tools/call requires {name, arguments}"@),
            ),
        }
    } else {
        StepView::Reply(err_response(req.id, METHOD_NOT_FOUND as int, "Method not found: "@ + req.method))
    }
}

/// A tool as `tools/list` shows it.
fn entry_of(t: &LoadedTool) -> (r: Json)
    ensures
        r@ == tool_entry(t@),
{
    Json::object().with("description", Json::text(t.tool.description.as_str())).with(
        "inputSchema",
        t.tool.input_schema.to_json(),
    ).with("name", Json::text(t.tool.name.as_str()))
}

/// What `tools/list` is answered.
pub fn tools_list(registry: &ManifestRegistry, code_mode: bool) -> (r: Json)
    requires
        registry.wf(),
    ensures
        r@ == tools_list_json(registry.listed(), code_mode),
{
    let tools = registry.all();
    let ghost all = loaded_view(tools@);
    let ghost mut kept: Seq<LoadedView> = Seq::empty();
    let mut entries: Vec<Json> = Vec::new();
    let mut i: usize = 0;
    assert(all.take(0) =~= Seq::empty());
    assert(items_view(entries@) =~= Seq::new(kept.len(), |k: int| tool_entry(kept[k])));
    while i < tools.len()
        invariant
            i <= tools@.len(),
            all == loaded_view(tools@),
            kept == shown_tools(all.take(i as int), code_mode),
            items_view(entries@) == Seq::new(kept.len(), |k: int| tool_entry(kept[k])),
        decreases tools@.len() - i,
    {
        assert(all.take(i + 1).drop_last() =~= all.take(i as int));
        assert(all.take(i + 1).last() == tools@[i as int]@);
        if !tools[i].hidden && (!code_mode || same(tools[i].source.as_str(), "codemode")) {
            let ghost was = items_view(entries@);
            entries.push(entry_of(&tools[i]));
            proof {
                kept = kept.push(tools@[i as int]@);
            }
            assert(items_view(entries@) =~= was.push(tool_entry(tools@[i as int]@)));
            assert(items_view(entries@) =~= Seq::new(kept.len(), |k: int| tool_entry(kept[k])));
        }
        i += 1;
    }
    assert(all.take(i as int) =~= all);
    Json::object().with("tools", Json::array(entries))
}

/// Handles one request.
pub fn handle(req: &JsonRpcRequest, registry: &ManifestRegistry, code_mode: bool) -> (r: McpStep)
    requires
        registry.wf(),
    ensures
        r@ == step_of(req@, registry.listed(), code_mode),
{
    let method = req.method.as_str();
    if same(method, "initialize") {
        let info = Json::object().with("name", Json::text("clawshake-broker")).with(
            "version",
            Json::text(SERVER_VERSION),
        );
        let result = Json::object().with("capabilities", Json::object().with("tools", Json::object())).with(
            "protocolVersion",
            Json::text(PROTOCOL_VERSION),
        ).with("serverInfo", info);
        McpStep::Reply(respond(&req.id, result))
    } else if same(method, "ping") {
        McpStep::Reply(respond(&req.id, Json::object()))
    } else if same(method, "notifications/initialized") || same(method, "notifications/cancelled") {
        McpStep::Silent
    } else if same(method, "tools/list") {
        McpStep::Reply(respond(&req.id, tools_list(registry, code_mode)))
    } else if same(method, "tools/call") {
        match read_call_params(&req.params) {
            Some((name, arguments)) => {
                let id = match &req.id {
                    Some(v) => Some(v.clone()),
                    None => None,
                };
                McpStep::Call { id, name, arguments }
            },
            None => McpStep::Reply(respond_error(&req.id, INVALID_PARAMS, "tools/call requires {name, arguments}")),
        }
    } else {
        let mut e = "Method not found: ".to_owned();
        e.push_str(method);
        McpStep::Reply(respond_error(&req.id, METHOD_NOT_FOUND, e.as_str()))
    }
}

/// What a tool call is answered.
pub open spec fn call_answer(id: Option<JsonView>, name: Seq<char>, outcome: Result<Seq<char>, Seq<char>>) -> JsonView {
    match outcome {
        Ok(text) => ok_response(id, call_result(text, false)),
        Err(e) => ok_response(id, call_result("Tool '"@ + name + "': "@ + e, true)),
    }
}

/// The response to a tool call: an error is told in the result.
pub fn call_response(id: &Option<Json>, name: &str, outcome: &Result<String, String>) -> (r: Json)
    ensures
        r@ == call_answer(
            json_option(*id),
            name@,
            match outcome {
                Ok(t) => Ok(t@),
                Err(e) => Err(e@),
            },
        ),
{
    match outcome {
        Ok(text) => respond(id, tool_call_result(text.as_str(), false)),
        Err(e) => {
            let mut text = "Tool '".to_owned();
            text.push_str(name);
            text.push_str("': ");
            text.push_str(e.as_str());
            respond(id, tool_call_result(text.as_str(), true))
        },
    }
}

/// What is done with a text that should be a request.
pub open spec fn text_step(text: Seq<char>, tools: Seq<LoadedView>, code_mode: bool) -> StepView {
    match read_json(vstd::utf8::encode_utf8(text)) {
        Err(e) => StepView::Reply(err_response(None, PARSE_ERROR as int, "Parse error: "@ + e)),
        Ok(v) => match read_request(v) {
            Err(e) => StepView::Reply(err_response(None, PARSE_ERROR as int, "Parse error: "@ + e)),
            Ok(req) => step_of(req, tools, code_mode),
        },
    }
}

/// The answer to a text that is no request.
fn parse_failure(error: &str) -> (r: McpStep)
    ensures
        r@ == StepView::Reply(err_response(None, PARSE_ERROR as int, "Parse error: "@ + error@)),
{
    let mut e = "Parse error: ".to_owned();
    e.push_str(error);
    McpStep::Reply(respond_error(&None, PARSE_ERROR, e.as_str()))
}

/// Handles a text that should be a request.
pub fn handle_text(text: &str, registry: &ManifestRegistry, code_mode: bool) -> (r: McpStep)
    requires
        registry.wf(),
    ensures
        r@ == text_step(text@, registry.listed(), code_mode),
{
    match Json::read(text) {
        Err(e) => parse_failure(e.as_str()),
        Ok(v) => match JsonRpcRequest::from_json(&v) {
            Err(e) => parse_failure(e.as_str()),
            Ok(req) => handle(&req, registry, code_mode),
        },
    }
}

/// Handles a line of the stdio transport; an empty one says nothing.
pub fn handle_line(line: &str, registry: &ManifestRegistry, code_mode: bool) -> (r: McpStep)
    requires
        registry.wf(),
    ensures
        r@ == (if trimmed(line@).len() == 0 {
            StepView::Silent
        } else {
            text_step(trimmed(line@), registry.listed(), code_mode)
        }),
{
    let text = trim(line);
    if chars_of(text.as_str()).len() == 0 {
        return McpStep::Silent;
    }
    handle_text(text.as_str(), registry, code_mode)
}

/// A response as a line of the stdio transport.
pub fn response_line(response: &Json) -> (r: String)
    ensures
        r@ == printed(response@) + "\n"@,
{
    let mut line = response.to_text();
    line.push_str("\n");
    line
}

// ---------------------------------------------------------------------------
// Laws
// ---------------------------------------------------------------------------

/// `tools/list` shows a tool exactly if it is registered and shown: in code
/// mode only the tools of code mode, and no hidden tool at all.
pub proof fn law_listing_shows_what_is_shown(tools: Seq<LoadedView>, code_mode: bool, t: LoadedView)
    ensures
        shown_tools(tools, code_mode).contains(t) <==> tools.contains(t) && shown(t, code_mode),
    decreases tools.len(),
{
    if tools.len() > 0 {
        let head = tools.drop_last();
        law_listing_shows_what_is_shown(head, code_mode, t);
        let before = shown_tools(head, code_mode);
        let all = shown_tools(tools, code_mode);
        if all.contains(t) {
            let i = choose|i: int| 0 <= i < all.len() && all[i] == t;
            if i < before.len() {
                assert(before[i] == t);
                let k = choose|k: int| 0 <= k < head.len() && head[k] == t;
                assert(tools[k] == t);
            } else {
                assert(tools[tools.len() - 1] == t);
            }
        }
        if tools.contains(t) && shown(t, code_mode) {
            let k = choose|k: int| 0 <= k < tools.len() && tools[k] == t;
            if k < head.len() {
                assert(head[k] == t);
                let i = choose|i: int| 0 <= i < before.len() && before[i] == t;
                assert(all[i] == t);
            } else {
                assert(all[all.len() - 1] == t);
            }
        }
    }
}

/// Every request that is answered is answered under its own identifier, and
/// every method but the two notifications is answered or called.
pub proof fn law_requests_are_answered(req: RequestView, tools: Seq<LoadedView>, code_mode: bool)
    ensures
        step_of(req, tools, code_mode) is Silent <==> req.method == "notifications/initialized"@ || req.method
            == "notifications/cancelled"@,
        step_of(req, tools, code_mode) matches StepView::Reply(j) ==> (exists|result: JsonView|
            j == ok_response(req.id, result)) || (exists|code: int, message: Seq<char>|
            j == err_response(req.id, code, message)),
        step_of(req, tools, code_mode) matches StepView::Call { id, .. } ==> id == req.id && req.method
            == "tools/call"@,
{
    reveal_strlit("initialize");
    reveal_strlit("ping");
    reveal_strlit("notifications/initialized");
    reveal_strlit("notifications/cancelled");
    assert("initialize"@.len() == 10);
    assert("ping"@.len() == 4);
    assert("notifications/initialized"@.len() == 25);
    assert("notifications/cancelled"@.len() == 23);
    let step = step_of(req, tools, code_mode);
    if req.method == "initialize"@ {
        assert(step == StepView::Reply(ok_response(req.id, initialize_json())));
    } else if req.method == "ping"@ {
        assert(step == StepView::Reply(ok_response(req.id, JsonView::object())));
    } else if req.method == "notifications/initialized"@ || req.method == "notifications/cancelled"@ {
    } else if req.method == "tools/list"@ {
        assert(step == StepView::Reply(ok_response(req.id, tools_list_json(tools, code_mode))));
    } else if req.method == "tools/call"@ {
        if call_params(req.params) is None {
            assert(step == StepView::Reply(
                err_response(req.id, INVALID_PARAMS as int, "tools/call requires {name, arguments}"@),
            ));
        }
    } else {
        assert(step == StepView::Reply(
            err_response(req.id, METHOD_NOT_FOUND as int, "Method not found: "@ + req.method),
        ));
    }
}

/// A line that is no request is answered with a parse error and no identifier;
/// a request is answered as what it asks.
pub proof fn law_lines_are_answered(text: Seq<char>, tools: Seq<LoadedView>, code_mode: bool, v: JsonView)
    ensures
        read_json(vstd::utf8::encode_utf8(text)) is Err ==> text_step(text, tools, code_mode) == StepView::Reply(
            err_response(
                None,
                -32700,
                "Parse error: "@ + read_json(vstd::utf8::encode_utf8(text))->Err_0,
            ),
        ),
        read_json(vstd::utf8::encode_utf8(text)) == Ok::<JsonView, Seq<char>>(v) && read_request(v) is Err
            ==> text_step(text, tools, code_mode) == StepView::Reply(
            err_response(None, -32700, "Parse error: "@ + read_request(v)->Err_0),
        ),
        read_json(vstd::utf8::encode_utf8(text)) == Ok::<JsonView, Seq<char>>(v) && read_request(v) is Ok
            ==> text_step(text, tools, code_mode) == step_of(read_request(v)->Ok_0, tools, code_mode),
{
}

} // verus!
