//! Built-in tools that ship with the broker.
//!
//! They are registered directly at startup.  Event, general, cron and webview
//! tools are always there; memory tools where memory is on, code-mode tools
//! where code mode is, and network tools where the bridge is running.
use vstd::prelude::*;

use crate::cron::{
    cron_add_definition, cron_definitions, cron_list_definition, cron_remove_definition, cron_tool_definitions,
};
use crate::json::{items_view, lemma_member_added, lemma_member_kept, texts_view, Json, JsonView};
use crate::manifest::{read_schema, schema_tool, text_values, tools_view, InvokeView, SchemaView, Tool, ToolView};
use crate::mcp_server::shown;
use crate::memory::{
    memory_append_definition, memory_definitions, memory_embed_definition, memory_ingest_definition,
    memory_procedural_definition, memory_recall_definition, memory_tool_definitions,
};
use crate::registry::{law_loaded_tools_are_there, with_tools, LoadedView, ManifestRegistry};
use crate::router::{tool_name, Handler};
use crate::schema::{
    define, definition, hidden_definition, inputs, text_list, text_list_schema, typed, typed_schema, untyped,
    untyped_schema,
};
use crate::shell::{shell_definition, tool_definition};
use crate::spawn::{spawn_definition, spawn_tool_definition};
use crate::webview::{
    ui_close_definition, ui_push_definition, ui_render_definition, ui_snapshot_definition, webview_definitions,
    webview_tool_definitions,
};
use crate::window::{
    window_close_definition, window_focus_definition, window_list_definition, window_notify_definition,
    window_open_definition, window_resize_definition, window_set_title_definition,
};

verus! {

// ---------------------------------------------------------------------------
// From definitions to tools
// ---------------------------------------------------------------------------

/// The tools that a list of definitions describes.
pub open spec fn tools_of(defs: Seq<JsonView>) -> Seq<ToolView>
    decreases defs.len(),
{
    if defs.len() == 0 {
        Seq::empty()
    } else {
        let before = tools_of(defs.drop_last());
        match schema_tool(defs.last()) {
            Some(t) => before.push(t),
            None => before,
        }
    }
}

/// The tools that a list of definitions describes.
pub fn read_tools(defs: &Vec<Json>) -> (r: Vec<Tool>)
    ensures
        tools_view(r@) == tools_of(items_view(defs@)),
{
    let ghost all = items_view(defs@);
    let mut out: Vec<Tool> = Vec::new();
    let mut i: usize = 0;
    assert(all.take(0) =~= Seq::empty());
    assert(tools_view(out@) =~= Seq::empty());
    while i < defs.len()
        invariant
            i <= defs@.len(),
            all == items_view(defs@),
            tools_view(out@) == tools_of(all.take(i as int)),
        decreases defs@.len() - i,
    {
        assert(all.take(i + 1).drop_last() =~= all.take(i as int));
        assert(all.take(i + 1).last() == defs@[i as int]@);
        match Tool::from_json_schema(&defs[i]) {
            Some(t) => {
                let ghost was = tools_view(out@);
                let ghost v = t@;
                out.push(t);
                assert(tools_view(out@) =~= was.push(v));
            },
            None => {},
        }
        i += 1;
    }
    assert(all.take(i as int) =~= all);
    out
}

/// Adds tools from one source, one after the other.
fn register_tools(registry: &mut ManifestRegistry, tools: Vec<Tool>, source: &str)
    requires
        old(registry).wf(),
    ensures
        final(registry).wf(),
        final(registry)@ == with_tools(old(registry)@, tools_view(tools@), source@),
{
    let ghost start = registry@;
    let ghost all = tools_view(tools@);
    let mut i: usize = 0;
    assert(all.take(0) =~= Seq::empty());
    while i < tools.len()
        invariant
            registry.wf(),
            i <= tools@.len(),
            all == tools_view(tools@),
            registry@ == with_tools(start, all.take(i as int), source@),
        decreases tools@.len() - i,
    {
        assert(all.take(i + 1).drop_last() =~= all.take(i as int));
        assert(all.take(i + 1).last() == tools@[i as int]@);
        registry.register_builtin(tools[i].clone(), source);
        i += 1;
    }
    assert(all.take(i as int) =~= all);
}

/// Whether a definition is of a hidden tool.
pub open spec fn is_hidden(def: JsonView) -> bool {
    def.truth_at("hidden"@) == Some(true)
}

/// The tools with those of the memory definitions added; some of them hidden.
pub open spec fn with_memory_tools(m: Map<Seq<char>, LoadedView>, defs: Seq<JsonView>) -> Map<Seq<char>, LoadedView>
    decreases defs.len(),
{
    if defs.len() == 0 {
        m
    } else {
        let before = with_memory_tools(m, defs.drop_last());
        match schema_tool(defs.last()) {
            Some(t) => before.insert(
                t.name,
                LoadedView { tool: t, source: "memory"@, hidden: is_hidden(defs.last()) },
            ),
            None => before,
        }
    }
}

/// Adds the memory tools.
fn register_memory_tools(registry: &mut ManifestRegistry)
    requires
        old(registry).wf(),
    ensures
        final(registry).wf(),
        final(registry)@ == with_memory_tools(old(registry)@, memory_definitions()),
{
    let defs = memory_tool_definitions();
    let ghost start = registry@;
    let ghost all = items_view(defs@);
    let mut i: usize = 0;
    assert(all.take(0) =~= Seq::empty());
    while i < defs.len()
        invariant
            registry.wf(),
            i <= defs@.len(),
            all == items_view(defs@),
            registry@ == with_memory_tools(start, all.take(i as int)),
        decreases defs@.len() - i,
    {
        assert(all.take(i + 1).drop_last() =~= all.take(i as int));
        assert(all.take(i + 1).last() == defs@[i as int]@);
        match Tool::from_json_schema(&defs[i]) {
            Some(t) => {
                let hidden = match defs[i].bool_at("hidden") {
                    Some(b) => b,
                    None => false,
                };
                registry.register_builtin_hidden(t, "memory", hidden);
            },
            None => {},
        }
        i += 1;
    }
    assert(all.take(i as int) =~= all);
}

/// The tools after the built-in ones have been registered.
pub open spec fn with_builtins(
    m: Map<Seq<char>, LoadedView>,
    code_mode: bool,
    bridge_available: bool,
    memory: bool,
) -> Map<Seq<char>, LoadedView> {
    let events = with_tools(m, tools_of(event_definitions()), "events"@);
    let general = with_tools(events, tools_of(seq![shell_definition(), spawn_definition()]), "general"@);
    let cron = with_tools(general, tools_of(cron_definitions()), "cron"@);
    let webview = with_tools(cron, tools_of(webview_definitions()), "webview"@);
    let remembering = if memory {
        with_memory_tools(webview, memory_definitions())
    } else {
        webview
    };
    let coding = if code_mode {
        with_tools(remembering, tools_of(codemode_definitions()), "codemode"@)
    } else {
        remembering
    };
    if bridge_available {
        with_tools(coding, tools_of(network_definitions()), "network"@)
    } else {
        coding
    }
}

/// Registers all built-in tools.
pub fn register(registry: &mut ManifestRegistry, code_mode: bool, bridge_available: bool, memory: bool)
    requires
        old(registry).wf(),
    ensures
        final(registry).wf(),
        final(registry)@ == with_builtins(old(registry)@, code_mode, bridge_available, memory),
{
    register_tools(registry, read_tools(&event_tool_definitions()), "events");
    let mut general: Vec<Json> = Vec::new();
    general.push(tool_definition());
    general.push(spawn_tool_definition());
    assert(items_view(general@) =~= seq![shell_definition(), spawn_definition()]);
    register_tools(registry, read_tools(&general), "general");
    register_tools(registry, read_tools(&cron_tool_definitions()), "cron");
    register_tools(registry, read_tools(&webview_tool_definitions()), "webview");
    if memory {
        register_memory_tools(registry);
    }
    if code_mode {
        register_tools(registry, read_tools(&codemode_tool_definitions()), "codemode");
    }
    if bridge_available {
        register_tools(registry, read_tools(&network_tool_schemas()), "network");
    }
}

// ---------------------------------------------------------------------------
// Event tools
// ---------------------------------------------------------------------------

/// What `listen` does.
pub const LISTEN_TEXT: &'static str = "Block until events matching the given topics arrive. Returns an array of events and a cursor for resumption. Use this to wait for filesystem changes, peer messages, webhook deliveries, or any other event. Call with no topics to receive all events. The cursor enables efficient polling — pass the returned cursor as 'after' in the next call to only receive new events. Omitting 'after' defaults to HEAD, so only events emitted after this call are returned.";

/// The `after` parameter of `listen`.
pub const LISTEN_AFTER: &'static str = "Cursor (event ID). Only return events with id > after. Omit to start from now (no history replay). Pass 0 to replay all buffered events.";

/// The `timeout_secs` parameter of `listen`.
pub const LISTEN_TIMEOUT_SECS: &'static str = "Max seconds to wait. 0 = block indefinitely. Default: 0";

/// The `topics` parameter of `listen`.
pub const LISTEN_TOPICS: &'static str = "Topic prefixes to filter on (e.g. ['fs', 'peer']). Empty or omitted = all topics.";

/// What `emit` does.
pub const EMIT_TEXT: &'static str = "Push an event into the local event queue. Other listeners on this node can receive it via listen(). Use dot-separated topic names (e.g. 'task.complete', 'msg.agent'). To send events to a remote peer, use network_call(peer_id, 'emit', {topic, data}) instead.";

/// The `data` parameter of `emit`.
pub const EMIT_DATA: &'static str = "Arbitrary JSON payload";

/// The `topic` parameter of `emit`.
pub const EMIT_TOPIC: &'static str = "Event topic, e.g. 'task.complete', 'msg.agent'";

/// The definition of `listen`.
pub open spec fn listen_definition() -> JsonView {
    definition(
        "listen"@,
        LISTEN_TEXT@,
        JsonView::object()
            .with("after"@, typed("number"@, LISTEN_AFTER@))
            .with("timeout_secs"@, typed("number"@, LISTEN_TIMEOUT_SECS@))
            .with("topics"@, text_list(LISTEN_TOPICS@)),
        Some(Seq::empty()),
    )
}

/// The definition of `emit`.
pub open spec fn emit_definition() -> JsonView {
    definition(
        "emit"@,
        EMIT_TEXT@,
        JsonView::object()
            .with("data"@, untyped(EMIT_DATA@))
            .with("topic"@, typed("string"@, EMIT_TOPIC@)),
        Some(seq!["topic"@, "data"@]),
    )
}

/// The definition of `listen`.
fn define_listen() -> (r: Json)
    ensures
        r@ == listen_definition(),
{
    let required: Vec<String> = Vec::new();
    assert(texts_view(required@) =~= Seq::empty());
    define(
        "listen",
        LISTEN_TEXT,
        Json::object()
            .with("after", typed_schema("number", LISTEN_AFTER))
            .with("timeout_secs", typed_schema("number", LISTEN_TIMEOUT_SECS))
            .with("topics", text_list_schema(LISTEN_TOPICS)),
        Some(required),
    )
}

/// The definition of `emit`.
fn define_emit() -> (r: Json)
    ensures
        r@ == emit_definition(),
{
    let mut required: Vec<String> = Vec::new();
    required.push("topic".to_owned());
    required.push("data".to_owned());
    assert(texts_view(required@) =~= seq!["topic"@, "data"@]);
    define(
        "emit",
        EMIT_TEXT,
        Json::object()
            .with("data", untyped_schema(EMIT_DATA))
            .with("topic", typed_schema("string", EMIT_TOPIC)),
        Some(required),
    )
}

/// The definitions of the event tools.
pub open spec fn event_definitions() -> Seq<JsonView> {
    seq![listen_definition(), emit_definition()]
}

/// The definitions of the event tools.
pub fn event_tool_definitions() -> (r: Vec<Json>)
    ensures
        items_view(r@) == event_definitions(),
{
    let mut out: Vec<Json> = Vec::new();
    out.push(define_listen());
    out.push(define_emit());
    assert(items_view(out@) =~= event_definitions());
    out
}

// ---------------------------------------------------------------------------
// Code-mode tools
// ---------------------------------------------------------------------------

/// What `run_code` does.
pub const RUN_CODE_TEXT: &'static str = "Execute a JavaScript script that can call any available tool as an async function. Use describe_tools first to discover the JS API. Intermediate results stay in the JS runtime and only console.log() output is returned. This is dramatically more token-efficient for multi-step workflows.";

/// The `script` parameter of `run_code`.
pub const RUN_CODE_SCRIPT: &'static str = "JavaScript code to execute. All tool functions are pre-loaded as async functions. Wrap multi-step logic in a single script. Output is collected from console.log() calls. A top-level return value is also automatically printed, so both styles work: `console.log(result)` and `return result`.";

/// What `describe_tools` does.
pub const DESCRIBE_TOOLS_TEXT: &'static str = "Search available tools and return their JavaScript API definitions for use with run_code. Call with no query to list all tool categories. Call with a query to get specific tool function signatures.";

/// The `query` parameter of `describe_tools`.
pub const DESCRIBE_TOOLS_QUERY: &'static str = "Filter tools by name, source, or description substring. Omit for category summary.";

/// The definition of `run_code`.
pub open spec fn run_code_definition() -> JsonView {
    definition(
        "run_code"@,
        RUN_CODE_TEXT@,
        JsonView::object()
            .with("script"@, typed("string"@, RUN_CODE_SCRIPT@)),
        Some(seq!["script"@]),
    )
}

/// The definition of `describe_tools`.
pub open spec fn describe_tools_definition() -> JsonView {
    definition(
        "describe_tools"@,
        DESCRIBE_TOOLS_TEXT@,
        JsonView::object()
            .with("query"@, typed("string"@, DESCRIBE_TOOLS_QUERY@)),
        Some(Seq::empty()),
    )
}

/// The definition of `run_code`.
fn define_run_code() -> (r: Json)
    ensures
        r@ == run_code_definition(),
{
    let mut required: Vec<String> = Vec::new();
    required.push("script".to_owned());
    assert(texts_view(required@) =~= seq!["script"@]);
    define(
        "run_code",
        RUN_CODE_TEXT,
        Json::object()
            .with("script", typed_schema("string", RUN_CODE_SCRIPT)),
        Some(required),
    )
}

/// The definition of `describe_tools`.
fn define_describe_tools() -> (r: Json)
    ensures
        r@ == describe_tools_definition(),
{
    let required: Vec<String> = Vec::new();
    assert(texts_view(required@) =~= Seq::empty());
    define(
        "describe_tools",
        DESCRIBE_TOOLS_TEXT,
        Json::object()
            .with("query", typed_schema("string", DESCRIBE_TOOLS_QUERY)),
        Some(required),
    )
}

/// The definitions of the code-mode tools.
pub open spec fn codemode_definitions() -> Seq<JsonView> {
    seq![run_code_definition(), describe_tools_definition()]
}

/// The definitions of the code-mode tools.
pub fn codemode_tool_definitions() -> (r: Vec<Json>)
    ensures
        items_view(r@) == codemode_definitions(),
{
    let mut out: Vec<Json> = Vec::new();
    out.push(define_run_code());
    out.push(define_describe_tools());
    assert(items_view(out@) =~= codemode_definitions());
    out
}

// ---------------------------------------------------------------------------
// Network tools
// ---------------------------------------------------------------------------

/// What `network_peers` does.
pub const NETWORK_PEERS_TEXT: &'static str = "List all discovered bridge nodes on the network with their peer IDs, addresses, and last-seen timestamps.";

/// What `network_tools` does.
pub const NETWORK_TOOLS_TEXT: &'static str = "Progressive tool discovery for a remote peer. Without a query, returns a flat list of the peer's published tool names. With a query, returns matching tools with their full name, description, and inputSchema.";

/// The `peer_id` parameter of `network_tools`.
pub const NETWORK_TOOLS_PEER_ID: &'static str = "libp2p peer ID string (from network_peers)";

/// The `query` parameter of `network_tools`.
pub const NETWORK_TOOLS_QUERY: &'static str = "Filter tools by name or description substring. Omit for a flat name list.";

/// What `network_search` does.
pub const NETWORK_SEARCH_TEXT: &'static str = "Search for tools across all known peers by tool name or description substring.";

/// The `query` parameter of `network_search`.
pub const NETWORK_SEARCH_QUERY: &'static str = "Case-insensitive substring to match against tool names and descriptions";

/// What `network_ping` does.
pub const NETWORK_PING_TEXT: &'static str = "Check whether a peer currently has an active connection to this node.";

/// The `peer_id` parameter of `network_ping`.
pub const NETWORK_PING_PEER_ID: &'static str = "libp2p peer ID string";

/// What `network_call` does.
pub const NETWORK_CALL_TEXT: &'static str = "Invoke a tool on a specific remote peer over the P2P network and return its result.";

/// The `arguments` parameter of `network_call`.
pub const NETWORK_CALL_ARGUMENTS: &'static str = "Arguments to pass to the tool. Must match the tool's inputSchema.";

/// The `peer_id` parameter of `network_call`.
pub const NETWORK_CALL_PEER_ID: &'static str = "libp2p peer ID string of the target peer";

/// The `tool` parameter of `network_call`.
pub const NETWORK_CALL_TOOL: &'static str = "Tool name to invoke on the remote peer";

/// What `network_record` does.
pub const NETWORK_RECORD_TEXT: &'static str = "Fetch the raw DHT announcement record for a peer directly from the Kademlia DHT (live, not cached).";

/// The `peer_id` parameter of `network_record`.
pub const NETWORK_RECORD_PEER_ID: &'static str = "libp2p peer ID string (from network_peers)";

/// What `network_expose` does.
pub const NETWORK_EXPOSE_TEXT: &'static str = "Expose a local TCP port to the P2P network. Registers a connect_{name} tool that remote peers can call to establish a tunneled connection.";

/// The `description` parameter of `network_expose`.
pub const NETWORK_EXPOSE_DESCRIPTION: &'static str = "Optional human-readable description of the exposed service.";

/// The `name` parameter of `network_expose`.
pub const NETWORK_EXPOSE_NAME: &'static str = "Short name for the expose (e.g. 'jupyter', 'preview')";

/// The `peers` parameter of `network_expose`.
pub const NETWORK_EXPOSE_PEERS: &'static str = "Optional peer ID allowlist. If omitted, any connected peer can connect.";

/// The `port` parameter of `network_expose`.
pub const NETWORK_EXPOSE_PORT: &'static str = "Local TCP port to expose";

/// What `network_unexpose` does.
pub const NETWORK_UNEXPOSE_TEXT: &'static str = "Stop exposing a previously shared port. Unregisters the connect_{name} tool and tears down any active tunnels.";

/// The `name` parameter of `network_unexpose`.
pub const NETWORK_UNEXPOSE_NAME: &'static str = "Name of the expose to remove (the same name passed to network_expose).";

/// What `network_models` does.
pub const NETWORK_MODELS_TEXT: &'static str = "List AI models available on the peer-to-peer network.";

/// The `peer_id` parameter of `network_models`.
pub const NETWORK_MODELS_PEER_ID: &'static str = "Filter to models from a specific peer. Omit to list models from all peers.";

/// The definition of `network_peers`.
pub open spec fn network_peers_definition() -> JsonView {
    definition(
        "network_peers"@,
        NETWORK_PEERS_TEXT@,
        JsonView::object(),
        Some(Seq::empty()),
    )
}

/// The definition of `network_tools`.
pub open spec fn network_tools_definition() -> JsonView {
    definition(
        "network_tools"@,
        NETWORK_TOOLS_TEXT@,
        JsonView::object()
            .with("peer_id"@, typed("string"@, NETWORK_TOOLS_PEER_ID@))
            .with("query"@, typed("string"@, NETWORK_TOOLS_QUERY@)),
        Some(seq!["peer_id"@]),
    )
}

/// The definition of `network_search`.
pub open spec fn network_search_definition() -> JsonView {
    definition(
        "network_search"@,
        NETWORK_SEARCH_TEXT@,
        JsonView::object()
            .with("query"@, typed("string"@, NETWORK_SEARCH_QUERY@)),
        Some(seq!["query"@]),
    )
}

/// The definition of `network_ping`.
pub open spec fn network_ping_definition() -> JsonView {
    definition(
        "network_ping"@,
        NETWORK_PING_TEXT@,
        JsonView::object()
            .with("peer_id"@, typed("string"@, NETWORK_PING_PEER_ID@)),
        Some(seq!["peer_id"@]),
    )
}

/// The definition of `network_call`.
pub open spec fn network_call_definition() -> JsonView {
    definition(
        "network_call"@,
        NETWORK_CALL_TEXT@,
        JsonView::object()
            .with("arguments"@, typed("object"@, NETWORK_CALL_ARGUMENTS@))
            .with("peer_id"@, typed("string"@, NETWORK_CALL_PEER_ID@))
            .with("tool"@, typed("string"@, NETWORK_CALL_TOOL@)),
        Some(seq!["peer_id"@, "tool"@]),
    )
}

/// The definition of `network_record`.
pub open spec fn network_record_definition() -> JsonView {
    definition(
        "network_record"@,
        NETWORK_RECORD_TEXT@,
        JsonView::object()
            .with("peer_id"@, typed("string"@, NETWORK_RECORD_PEER_ID@)),
        Some(seq!["peer_id"@]),
    )
}

/// The definition of `network_expose`.
pub open spec fn network_expose_definition() -> JsonView {
    definition(
        "network_expose"@,
        NETWORK_EXPOSE_TEXT@,
        JsonView::object()
            .with("description"@, typed("string"@, NETWORK_EXPOSE_DESCRIPTION@))
            .with("name"@, typed("string"@, NETWORK_EXPOSE_NAME@))
            .with("peers"@, text_list(NETWORK_EXPOSE_PEERS@))
            .with("port"@, typed("integer"@, NETWORK_EXPOSE_PORT@)),
        Some(seq!["port"@, "name"@]),
    )
}

/// The definition of `network_unexpose`.
pub open spec fn network_unexpose_definition() -> JsonView {
    definition(
        "network_unexpose"@,
        NETWORK_UNEXPOSE_TEXT@,
        JsonView::object()
            .with("name"@, typed("string"@, NETWORK_UNEXPOSE_NAME@)),
        Some(seq!["name"@]),
    )
}

/// The definition of `network_models`.
pub open spec fn network_models_definition() -> JsonView {
    definition(
        "network_models"@,
        NETWORK_MODELS_TEXT@,
        JsonView::object()
            .with("peer_id"@, typed("string"@, NETWORK_MODELS_PEER_ID@)),
        None,
    )
}

/// The definition of `network_peers`.
fn define_network_peers() -> (r: Json)
    ensures
        r@ == network_peers_definition(),
{
    let required: Vec<String> = Vec::new();
    assert(texts_view(required@) =~= Seq::empty());
    define(
        "network_peers",
        NETWORK_PEERS_TEXT,
        Json::object(),
        Some(required),
    )
}

/// The definition of `network_tools`.
fn define_network_tools() -> (r: Json)
    ensures
        r@ == network_tools_definition(),
{
    let mut required: Vec<String> = Vec::new();
    required.push("peer_id".to_owned());
    assert(texts_view(required@) =~= seq!["peer_id"@]);
    define(
        "network_tools",
        NETWORK_TOOLS_TEXT,
        Json::object()
            .with("peer_id", typed_schema("string", NETWORK_TOOLS_PEER_ID))
            .with("query", typed_schema("string", NETWORK_TOOLS_QUERY)),
        Some(required),
    )
}

/// The definition of `network_search`.
fn define_network_search() -> (r: Json)
    ensures
        r@ == network_search_definition(),
{
    let mut required: Vec<String> = Vec::new();
    required.push("query".to_owned());
    assert(texts_view(required@) =~= seq!["query"@]);
    define(
        "network_search",
        NETWORK_SEARCH_TEXT,
        Json::object()
            .with("query", typed_schema("string", NETWORK_SEARCH_QUERY)),
        Some(required),
    )
}

/// The definition of `network_ping`.
fn define_network_ping() -> (r: Json)
    ensures
        r@ == network_ping_definition(),
{
    let mut required: Vec<String> = Vec::new();
    required.push("peer_id".to_owned());
    assert(texts_view(required@) =~= seq!["peer_id"@]);
    define(
        "network_ping",
        NETWORK_PING_TEXT,
        Json::object()
            .with("peer_id", typed_schema("string", NETWORK_PING_PEER_ID)),
        Some(required),
    )
}

/// The definition of `network_call`.
fn define_network_call() -> (r: Json)
    ensures
        r@ == network_call_definition(),
{
    let mut required: Vec<String> = Vec::new();
    required.push("peer_id".to_owned());
    required.push("tool".to_owned());
    assert(texts_view(required@) =~= seq!["peer_id"@, "tool"@]);
    define(
        "network_call",
        NETWORK_CALL_TEXT,
        Json::object()
            .with("arguments", typed_schema("object", NETWORK_CALL_ARGUMENTS))
            .with("peer_id", typed_schema("string", NETWORK_CALL_PEER_ID))
            .with("tool", typed_schema("string", NETWORK_CALL_TOOL)),
        Some(required),
    )
}

/// The definition of `network_record`.
fn define_network_record() -> (r: Json)
    ensures
        r@ == network_record_definition(),
{
    let mut required: Vec<String> = Vec::new();
    required.push("peer_id".to_owned());
    assert(texts_view(required@) =~= seq!["peer_id"@]);
    define(
        "network_record",
        NETWORK_RECORD_TEXT,
        Json::object()
            .with("peer_id", typed_schema("string", NETWORK_RECORD_PEER_ID)),
        Some(required),
    )
}

/// The definition of `network_expose`.
fn define_network_expose() -> (r: Json)
    ensures
        r@ == network_expose_definition(),
{
    let mut required: Vec<String> = Vec::new();
    required.push("port".to_owned());
    required.push("name".to_owned());
    assert(texts_view(required@) =~= seq!["port"@, "name"@]);
    define(
        "network_expose",
        NETWORK_EXPOSE_TEXT,
        Json::object()
            .with("description", typed_schema("string", NETWORK_EXPOSE_DESCRIPTION))
            .with("name", typed_schema("string", NETWORK_EXPOSE_NAME))
            .with("peers", text_list_schema(NETWORK_EXPOSE_PEERS))
            .with("port", typed_schema("integer", NETWORK_EXPOSE_PORT)),
        Some(required),
    )
}

/// The definition of `network_unexpose`.
fn define_network_unexpose() -> (r: Json)
    ensures
        r@ == network_unexpose_definition(),
{
    let mut required: Vec<String> = Vec::new();
    required.push("name".to_owned());
    assert(texts_view(required@) =~= seq!["name"@]);
    define(
        "network_unexpose",
        NETWORK_UNEXPOSE_TEXT,
        Json::object()
            .with("name", typed_schema("string", NETWORK_UNEXPOSE_NAME)),
        Some(required),
    )
}

/// The definition of `network_models`.
fn define_network_models() -> (r: Json)
    ensures
        r@ == network_models_definition(),
{
    define(
        "network_models",
        NETWORK_MODELS_TEXT,
        Json::object()
            .with("peer_id", typed_schema("string", NETWORK_MODELS_PEER_ID)),
        None,
    )
}

/// The definitions of the network tools.
pub open spec fn network_definitions() -> Seq<JsonView> {
    seq![network_peers_definition(), network_tools_definition(), network_search_definition(), network_ping_definition(), network_call_definition(), network_record_definition(), network_expose_definition(), network_unexpose_definition(), network_models_definition()]
}

/// The definitions of the network tools.
pub fn network_tool_schemas() -> (r: Vec<Json>)
    ensures
        items_view(r@) == network_definitions(),
{
    let mut out: Vec<Json> = Vec::new();
    out.push(define_network_peers());
    out.push(define_network_tools());
    out.push(define_network_search());
    out.push(define_network_ping());
    out.push(define_network_call());
    out.push(define_network_record());
    out.push(define_network_expose());
    out.push(define_network_unexpose());
    out.push(define_network_models());
    assert(items_view(out@) =~= network_definitions());
    out
}

// ---------------------------------------------------------------------------
// Laws
// ---------------------------------------------------------------------------

/// The tool that a definition describes.
pub open spec fn defined_tool(
    name: Seq<char>,
    text: Seq<char>,
    properties: Seq<(Seq<char>, JsonView)>,
    required: Option<Seq<Seq<char>>>,
) -> ToolView {
    ToolView {
        name,
        description: text,
        schema: SchemaView {
            schema_type: "object"@,
            properties,
            required: match required {
                Some(names) => names,
                None => Seq::empty(),
            },
        },
        needs: None,
        invoke: InvokeView::InProcess,
    }
}

proof fn lemma_keys_differ()
    ensures
        "name"@ != "inputSchema"@,
        "name"@ != "description"@,
        "name"@ != "hidden"@,
        "inputSchema"@ != "description"@,
        "hidden"@ != "description"@,
        "hidden"@ != "inputSchema"@,
        "type"@ != "required"@,
        "type"@ != "properties"@,
        "required"@ != "properties"@,
{
    reveal_strlit("name");
    reveal_strlit("inputSchema");
    reveal_strlit("description");
    reveal_strlit("hidden");
    reveal_strlit("type");
    reveal_strlit("required");
    reveal_strlit("properties");
    assert("name"@.len() == 4);
    assert("inputSchema"@.len() == 11);
    assert("description"@.len() == 11);
    assert("inputSchema"@[0] == 'i');
    assert("description"@[0] == 'd');
    assert("hidden"@.len() == 6);
    assert("type"@.len() == 4);
    assert("required"@.len() == 8);
    assert("properties"@.len() == 10);
}

proof fn lemma_inputs_read(properties: Seq<(Seq<char>, JsonView)>, required: Option<Seq<Seq<char>>>)
    ensures
        read_schema(inputs(JsonView::Object(properties), required)) == Some(
            SchemaView {
                schema_type: "object"@,
                properties,
                required: match required {
                    Some(names) => names,
                    None => Seq::empty(),
                },
            },
        ),
{
    lemma_keys_differ();
    let props = JsonView::Object(properties);
    let start = JsonView::object().with("properties"@, props);
    lemma_member_added(JsonView::object(), "properties"@, props);
    lemma_member_kept(JsonView::object(), "properties"@, props, "required"@);
    assert(JsonView::object().member("required"@) is None);
    let middle = match required {
        Some(names) => start.with("required"@, JsonView::Array(text_values(names))),
        None => start,
    };
    if required is Some {
        let list = JsonView::Array(text_values(required->0));
        lemma_member_added(start, "required"@, list);
        lemma_member_kept(start, "required"@, list, "properties"@);
    }
    let whole = middle.with("type"@, JsonView::Text("object"@));
    lemma_member_added(middle, "type"@, JsonView::Text("object"@));
    lemma_member_kept(middle, "type"@, JsonView::Text("object"@), "required"@);
    lemma_member_kept(middle, "type"@, JsonView::Text("object"@), "properties"@);
    if required is Some {
        let items = text_values(required->0);
        assert(Seq::new(items.len(), |i: int| items[i]->Text_0) =~= required->0);
    }
}

/// Every definition that is built here describes a tool that the broker
/// handles itself, with the name, text and parameters that it was built from.
pub proof fn law_definitions_describe_tools(
    name: Seq<char>,
    text: Seq<char>,
    properties: Seq<(Seq<char>, JsonView)>,
    required: Option<Seq<Seq<char>>>,
)
    ensures
        schema_tool(definition(name, text, JsonView::Object(properties), required)) == Some(
            defined_tool(name, text, properties, required),
        ),
        schema_tool(hidden_definition(name, text, JsonView::Object(properties), required)) == Some(
            defined_tool(name, text, properties, required),
        ),
        !is_hidden(definition(name, text, JsonView::Object(properties), required)),
        is_hidden(hidden_definition(name, text, JsonView::Object(properties), required)),
{
    lemma_keys_differ();
    lemma_inputs_read(properties, required);
    let schema = inputs(JsonView::Object(properties), required);
    let t = JsonView::Text(text);
    let first = JsonView::object().with("description"@, t);
    lemma_member_added(JsonView::object(), "description"@, t);
    lemma_member_kept(JsonView::object(), "description"@, t, "hidden"@);
    assert(JsonView::object().member("hidden"@) is None);
    let second = first.with("inputSchema"@, schema);
    lemma_member_added(first, "inputSchema"@, schema);
    lemma_member_kept(first, "inputSchema"@, schema, "description"@);
    lemma_member_kept(first, "inputSchema"@, schema, "hidden"@);
    let third = second.with("name"@, JsonView::Text(name));
    lemma_member_added(second, "name"@, JsonView::Text(name));
    lemma_member_kept(second, "name"@, JsonView::Text(name), "description"@);
    lemma_member_kept(second, "name"@, JsonView::Text(name), "inputSchema"@);
    lemma_member_kept(second, "name"@, JsonView::Text(name), "hidden"@);
    let h1 = first.with("hidden"@, JsonView::Bool(true));
    lemma_member_added(first, "hidden"@, JsonView::Bool(true));
    lemma_member_kept(first, "hidden"@, JsonView::Bool(true), "description"@);
    let h2 = h1.with("inputSchema"@, schema);
    lemma_member_added(h1, "inputSchema"@, schema);
    lemma_member_kept(h1, "inputSchema"@, schema, "description"@);
    lemma_member_kept(h1, "inputSchema"@, schema, "hidden"@);
    lemma_member_added(h2, "name"@, JsonView::Text(name));
    lemma_member_kept(h2, "name"@, JsonView::Text(name), "description"@);
    lemma_member_kept(h2, "name"@, JsonView::Text(name), "inputSchema"@);
    lemma_member_kept(h2, "name"@, JsonView::Text(name), "hidden"@);
}

/// A list of definitions that each describe a tool describes as many tools, in
/// their order.
proof fn lemma_tools_of(defs: Seq<JsonView>)
    requires
        forall|i: int| 0 <= i < defs.len() ==> schema_tool(#[trigger] defs[i]) is Some,
    ensures
        tools_of(defs).len() == defs.len(),
        forall|i: int| 0 <= i < defs.len() ==> Some(#[trigger] tools_of(defs)[i]) == schema_tool(defs[i]),
    decreases defs.len(),
{
    if defs.len() > 0 {
        assert forall|i: int| 0 <= i < defs.drop_last().len() implies schema_tool(
            #[trigger] defs.drop_last()[i],
        ) is Some by {
            assert(schema_tool(defs[i]) is Some);
        }
        lemma_tools_of(defs.drop_last());
        assert(schema_tool(defs[defs.len() - 1]) is Some);
        assert forall|i: int| 0 <= i < defs.len() implies Some(#[trigger] tools_of(defs)[i]) == schema_tool(
            defs[i],
        ) by {
            if i < defs.len() - 1 {
                assert(tools_of(defs)[i] == tools_of(defs.drop_last())[i]);
            }
        }
    }
}

/// A tool that was registered stays unless another with its name takes its
/// place.
proof fn lemma_with_tools_keeps(
    m: Map<Seq<char>, LoadedView>,
    tools: Seq<ToolView>,
    source: Seq<char>,
    name: Seq<char>,
)
    requires
        m.contains_key(name),
    ensures
        with_tools(m, tools, source).contains_key(name),
    decreases tools.len(),
{
    if tools.len() > 0 {
        lemma_with_tools_keeps(m, tools.drop_last(), source, name);
    }
}

proof fn lemma_with_memory_keeps(m: Map<Seq<char>, LoadedView>, defs: Seq<JsonView>, name: Seq<char>)
    requires
        m.contains_key(name),
    ensures
        with_memory_tools(m, defs).contains_key(name),
    decreases defs.len(),
{
    if defs.len() > 0 {
        lemma_with_memory_keeps(m, defs.drop_last(), name);
    }
}

proof fn lemma_with_tools_adds(
    m: Map<Seq<char>, LoadedView>,
    tools: Seq<ToolView>,
    source: Seq<char>,
    i: int,
)
    requires
        0 <= i < tools.len(),
    ensures
        with_tools(m, tools, source).contains_key(tools[i].name),
    decreases tools.len(),
{
    if i < tools.len() - 1 {
        lemma_with_tools_adds(m, tools.drop_last(), source, i);
    }
}

/// The event tools are always available, whatever else is registered.
pub proof fn law_event_tools_are_always_there(
    m: Map<Seq<char>, LoadedView>,
    code_mode: bool,
    bridge_available: bool,
    memory: bool,
)
    ensures
        with_builtins(m, code_mode, bridge_available, memory).contains_key("listen"@),
        with_builtins(m, code_mode, bridge_available, memory).contains_key("emit"@),
{
    let defs = event_definitions();
    law_definitions_describe_tools(
        "listen"@,
        LISTEN_TEXT@,
        JsonView::object().with("after"@, typed("number"@, LISTEN_AFTER@)).with(
            "timeout_secs"@,
            typed("number"@, LISTEN_TIMEOUT_SECS@),
        ).with("topics"@, text_list(LISTEN_TOPICS@))->Object_0,
        Some(Seq::empty()),
    );
    law_definitions_describe_tools(
        "emit"@,
        EMIT_TEXT@,
        JsonView::object().with("data"@, untyped(EMIT_DATA@)).with(
            "topic"@,
            typed("string"@, EMIT_TOPIC@),
        )->Object_0,
        Some(seq!["topic"@, "data"@]),
    );
    assert(defs[0] == listen_definition());
    assert(defs[1] == emit_definition());
    assert(schema_tool(defs[0]) is Some);
    assert(schema_tool(defs[1]) is Some);
    lemma_tools_of(defs);
    let tools = tools_of(defs);
    assert(tools[0].name == "listen"@);
    assert(tools[1].name == "emit"@);
    let m1 = with_tools(m, tools, "events"@);
    lemma_with_tools_adds(m, tools, "events"@, 0);
    lemma_with_tools_adds(m, tools, "events"@, 1);
    lemma_rest_keeps(m1, code_mode, bridge_available, memory, "listen"@);
    lemma_rest_keeps(m1, code_mode, bridge_available, memory, "emit"@);
}

proof fn lemma_rest_keeps(
    events: Map<Seq<char>, LoadedView>,
    code_mode: bool,
    bridge_available: bool,
    memory: bool,
    name: Seq<char>,
)
    requires
        events.contains_key(name),
    ensures
        ({
            let general = with_tools(events, tools_of(seq![shell_definition(), spawn_definition()]), "general"@);
            let cron = with_tools(general, tools_of(cron_definitions()), "cron"@);
            let webview = with_tools(cron, tools_of(webview_definitions()), "webview"@);
            let remembering = if memory {
                with_memory_tools(webview, memory_definitions())
            } else {
                webview
            };
            let coding = if code_mode {
                with_tools(remembering, tools_of(codemode_definitions()), "codemode"@)
            } else {
                remembering
            };
            let all = if bridge_available {
                with_tools(coding, tools_of(network_definitions()), "network"@)
            } else {
                coding
            };
            all.contains_key(name)
        }),
{
    let general = with_tools(events, tools_of(seq![shell_definition(), spawn_definition()]), "general"@);
    lemma_with_tools_keeps(events, tools_of(seq![shell_definition(), spawn_definition()]), "general"@, name);
    let cron = with_tools(general, tools_of(cron_definitions()), "cron"@);
    lemma_with_tools_keeps(general, tools_of(cron_definitions()), "cron"@, name);
    let webview = with_tools(cron, tools_of(webview_definitions()), "webview"@);
    lemma_with_tools_keeps(cron, tools_of(webview_definitions()), "webview"@, name);
    lemma_with_memory_keeps(webview, memory_definitions(), name);
    let remembering = if memory {
        with_memory_tools(webview, memory_definitions())
    } else {
        webview
    };
    lemma_with_tools_keeps(remembering, tools_of(codemode_definitions()), "codemode"@, name);
    let coding = if code_mode {
        with_tools(remembering, tools_of(codemode_definitions()), "codemode"@)
    } else {
        remembering
    };
    lemma_with_tools_keeps(coding, tools_of(network_definitions()), "network"@, name);
}

/// A definition whose name starts with `c`.
spec fn starts_with(def: JsonView, c: char) -> bool {
    def.text_at("name"@) is Some && def.text_at("name"@)->0.len() > 0 && def.text_at("name"@)->0[0] == c
}

proof fn lemma_tools_start_with(defs: Seq<JsonView>, c: char)
    requires
        forall|i: int| 0 <= i < defs.len() ==> starts_with(#[trigger] defs[i], c),
    ensures
        forall|i: int|
            0 <= i < tools_of(defs).len() ==> (#[trigger] tools_of(defs)[i]).name.len() > 0 && tools_of(defs)[i].name[0]
                == c,
    decreases defs.len(),
{
    if defs.len() > 0 {
        let head = defs.drop_last();
        assert forall|i: int| 0 <= i < head.len() implies starts_with(#[trigger] head[i], c) by {
            assert(starts_with(defs[i], c));
        }
        lemma_tools_start_with(head, c);
        assert(starts_with(defs[defs.len() - 1], c));
        assert forall|i: int| 0 <= i < tools_of(defs).len() implies (#[trigger] tools_of(defs)[i]).name.len() > 0
            && tools_of(defs)[i].name[0] == c by {
            if i < tools_of(head).len() {
                assert(tools_of(defs)[i] == tools_of(head)[i]);
            }
        }
    }
}

proof fn lemma_network_names()
    ensures
        forall|i: int|
            0 <= i < tools_of(network_definitions()).len() ==> (#[trigger] tools_of(network_definitions())[i]).name.len()
                > 0 && tools_of(network_definitions())[i].name[0] == 'n',
{
    let defs = network_definitions();
    assert forall|i: int| 0 <= i < defs.len() implies starts_with(#[trigger] defs[i], 'n') by {
        reveal_strlit("network_peers");
        reveal_strlit("network_tools");
        reveal_strlit("network_search");
        reveal_strlit("network_ping");
        reveal_strlit("network_call");
        reveal_strlit("network_record");
        reveal_strlit("network_expose");
        reveal_strlit("network_unexpose");
        reveal_strlit("network_models");
        let def = defs[i];
        let members = def->Object_0;
        assert(members.len() == 3);
        let name = members[2].1->Text_0;
        let before = JsonView::Object(members.drop_last());
        assert(def->Object_0 =~= before.with("name"@, JsonView::Text(name))->Object_0);
        lemma_member_added(before, "name"@, JsonView::Text(name));
    }
    lemma_tools_start_with(defs, 'n');
}

/// Tools from one source are registered under that source, and the others stay
/// as they were.
proof fn lemma_sources_after(m: Map<Seq<char>, LoadedView>, tools: Seq<ToolView>, source: Seq<char>, name: Seq<char>)
    ensures
        with_tools(m, tools, source).contains_key(name) ==> with_tools(m, tools, source)[name].source == source || (
        m.contains_key(name) && with_tools(m, tools, source)[name] == m[name]),
    decreases tools.len(),
{
    if tools.len() > 0 {
        lemma_sources_after(m, tools.drop_last(), source, name);
    }
}

proof fn lemma_memory_sources(m: Map<Seq<char>, LoadedView>, defs: Seq<JsonView>, name: Seq<char>)
    ensures
        with_memory_tools(m, defs).contains_key(name) ==> with_memory_tools(m, defs)[name].source == "memory"@ || (
        m.contains_key(name) && with_memory_tools(m, defs)[name] == m[name]),
    decreases defs.len(),
{
    if defs.len() > 0 {
        lemma_memory_sources(m, defs.drop_last(), name);
    }
}

proof fn lemma_sources_differ()
    ensures
        "codemode"@ != "events"@,
        "codemode"@ != "general"@,
        "codemode"@ != "cron"@,
        "codemode"@ != "webview"@,
        "codemode"@ != "memory"@,
        "codemode"@ != "network"@,
{
    reveal_strlit("codemode");
    reveal_strlit("events");
    reveal_strlit("general");
    reveal_strlit("cron");
    reveal_strlit("webview");
    reveal_strlit("memory");
    reveal_strlit("network");
    assert("codemode"@.len() == 8);
    assert("events"@.len() == 6);
    assert("general"@.len() == 7);
    assert("cron"@.len() == 4);
    assert("webview"@.len() == 7);
    assert("memory"@.len() == 6);
    assert("network"@.len() == 7);
}

/// In code mode exactly two of the built-in tools are shown, `run_code` and
/// `describe_tools`, whatever else is registered.
pub proof fn law_code_mode_shows_two_tools(
    m: Map<Seq<char>, LoadedView>,
    bridge_available: bool,
    memory: bool,
    name: Seq<char>,
)
    requires
        forall|n: Seq<char>| #[trigger] m.contains_key(n) ==> m[n].source != "codemode"@,
    ensures
        ({
            let all = with_builtins(m, true, bridge_available, memory);
            all.contains_key(name) && shown(all[name], true) <==> name == "run_code"@ || name == "describe_tools"@
        }),
{
    lemma_sources_differ();
    let events = with_tools(m, tools_of(event_definitions()), "events"@);
    lemma_sources_after(m, tools_of(event_definitions()), "events"@, name);
    let general_tools = tools_of(seq![shell_definition(), spawn_definition()]);
    let general = with_tools(events, general_tools, "general"@);
    lemma_sources_after(events, general_tools, "general"@, name);
    let cron = with_tools(general, tools_of(cron_definitions()), "cron"@);
    lemma_sources_after(general, tools_of(cron_definitions()), "cron"@, name);
    let webview = with_tools(cron, tools_of(webview_definitions()), "webview"@);
    lemma_sources_after(cron, tools_of(webview_definitions()), "webview"@, name);
    lemma_memory_sources(webview, memory_definitions(), name);
    let remembering = if memory {
        with_memory_tools(webview, memory_definitions())
    } else {
        webview
    };
    assert(remembering.contains_key(name) ==> remembering[name].source != "codemode"@);
    let defs = codemode_definitions();
    let tools = tools_of(defs);
    law_definitions_describe_tools(
        "run_code"@,
        RUN_CODE_TEXT@,
        JsonView::object().with("script"@, typed("string"@, RUN_CODE_SCRIPT@))->Object_0,
        Some(seq!["script"@]),
    );
    law_definitions_describe_tools(
        "describe_tools"@,
        DESCRIBE_TOOLS_TEXT@,
        JsonView::object().with("query"@, typed("string"@, DESCRIBE_TOOLS_QUERY@))->Object_0,
        Some(Seq::empty()),
    );
    assert(defs[0] == run_code_definition());
    assert(defs[1] == describe_tools_definition());
    assert(schema_tool(defs[0]) is Some && schema_tool(defs[1]) is Some);
    lemma_tools_of(defs);
    assert(tools[0].name == "run_code"@ && tools[1].name == "describe_tools"@);
    let coding = with_tools(remembering, tools, "codemode"@);
    law_loaded_tools_are_there(remembering, tools, "codemode"@, name);
    let mine = name == "run_code"@ || name == "describe_tools"@;
    if mine {
        assert(exists|i: int| 0 <= i < tools.len() && (#[trigger] tools[i]).name == name);
    } else {
        assert(!exists|i: int| 0 <= i < tools.len() && (#[trigger] tools[i]).name == name);
    }
    assert(coding.contains_key(name) && coding[name].source == "codemode"@ <==> mine);
    lemma_code_tools_are_visible(remembering, tools, name);
    if bridge_available {
        let network = tools_of(network_definitions());
        law_loaded_tools_are_there(coding, network, "network"@, name);
        lemma_network_names();
        if mine {
            reveal_strlit("run_code");
            reveal_strlit("describe_tools");
            assert(name[0] != 'n');
            assert(!exists|i: int| 0 <= i < network.len() && (#[trigger] network[i]).name == name);
        }
    }
}

/// Tools that are registered in this way are not hidden.
proof fn lemma_code_tools_are_visible(m: Map<Seq<char>, LoadedView>, tools: Seq<ToolView>, name: Seq<char>)
    ensures
        (exists|i: int| 0 <= i < tools.len() && (#[trigger] tools[i]).name == name) ==> !with_tools(
            m,
            tools,
            "codemode"@,
        )[name].hidden,
    decreases tools.len(),
{
    if tools.len() > 0 {
        let head = tools.drop_last();
        lemma_code_tools_are_visible(m, head, name);
        if (exists|i: int| 0 <= i < tools.len() && (#[trigger] tools[i]).name == name) && tools.last().name != name {
            let i = choose|i: int| 0 <= i < tools.len() && (#[trigger] tools[i]).name == name;
            assert(head[i].name == name);
        }
    }
}

/// The name of a definition is its last member.
proof fn lemma_name_is_last(def: JsonView)
    requires
        def is Object,
        def->Object_0.len() > 0,
        def->Object_0.last().0 == "name"@,
    ensures
        def.member("name"@) == Some(def->Object_0.last().1),
{
}

/// The definition of each built-in tool carries the name by which the router
/// finds its handler.
pub proof fn law_definitions_carry_the_names_of_their_handlers()
    ensures
        listen_definition().text_at("name"@) == Some(tool_name(Handler::Listen)),
        emit_definition().text_at("name"@) == Some(tool_name(Handler::Emit)),
        shell_definition().text_at("name"@) == Some(tool_name(Handler::Shell)),
        spawn_definition().text_at("name"@) == Some(tool_name(Handler::Spawn)),
        cron_add_definition().text_at("name"@) == Some(tool_name(Handler::CronAdd)),
        cron_list_definition().text_at("name"@) == Some(tool_name(Handler::CronList)),
        cron_remove_definition().text_at("name"@) == Some(tool_name(Handler::CronRemove)),
        ui_render_definition().text_at("name"@) == Some(tool_name(Handler::UiRender)),
        ui_push_definition().text_at("name"@) == Some(tool_name(Handler::UiPush)),
        ui_snapshot_definition().text_at("name"@) == Some(tool_name(Handler::UiSnapshot)),
        ui_close_definition().text_at("name"@) == Some(tool_name(Handler::UiClose)),
        window_open_definition().text_at("name"@) == Some(tool_name(Handler::WindowOpen)),
        window_close_definition().text_at("name"@) == Some(tool_name(Handler::WindowClose)),
        window_resize_definition().text_at("name"@) == Some(tool_name(Handler::WindowResize)),
        window_set_title_definition().text_at("name"@) == Some(tool_name(Handler::WindowSetTitle)),
        window_focus_definition().text_at("name"@) == Some(tool_name(Handler::WindowFocus)),
        window_notify_definition().text_at("name"@) == Some(tool_name(Handler::WindowNotify)),
        window_list_definition().text_at("name"@) == Some(tool_name(Handler::WindowList)),
        memory_recall_definition().text_at("name"@) == Some(tool_name(Handler::MemoryRecall)),
        memory_procedural_definition().text_at("name"@) == Some(tool_name(Handler::MemoryProcedural)),
        memory_append_definition().text_at("name"@) == Some(tool_name(Handler::MemoryAppend)),
        memory_ingest_definition().text_at("name"@) == Some(tool_name(Handler::MemoryIngest)),
        memory_embed_definition().text_at("name"@) == Some(tool_name(Handler::MemoryEmbed)),
        run_code_definition().text_at("name"@) == Some(tool_name(Handler::RunCode)),
        describe_tools_definition().text_at("name"@) == Some(tool_name(Handler::DescribeTools)),
        network_expose_definition().text_at("name"@) == Some(tool_name(Handler::Expose)),
        network_unexpose_definition().text_at("name"@) == Some(tool_name(Handler::Unexpose)),
{
    lemma_name_is_last(listen_definition());
    lemma_name_is_last(emit_definition());
    lemma_name_is_last(shell_definition());
    lemma_name_is_last(spawn_definition());
    lemma_name_is_last(cron_add_definition());
    lemma_name_is_last(cron_list_definition());
    lemma_name_is_last(cron_remove_definition());
    lemma_name_is_last(ui_render_definition());
    lemma_name_is_last(ui_push_definition());
    lemma_name_is_last(ui_snapshot_definition());
    lemma_name_is_last(ui_close_definition());
    lemma_name_is_last(window_open_definition());
    lemma_name_is_last(window_close_definition());
    lemma_name_is_last(window_resize_definition());
    lemma_name_is_last(window_set_title_definition());
    lemma_name_is_last(window_focus_definition());
    lemma_name_is_last(window_notify_definition());
    lemma_name_is_last(window_list_definition());
    lemma_name_is_last(memory_recall_definition());
    lemma_name_is_last(memory_procedural_definition());
    lemma_name_is_last(memory_append_definition());
    lemma_name_is_last(memory_ingest_definition());
    lemma_name_is_last(memory_embed_definition());
    lemma_name_is_last(run_code_definition());
    lemma_name_is_last(describe_tools_definition());
    lemma_name_is_last(network_expose_definition());
    lemma_name_is_last(network_unexpose_definition());
}

/// A definition whose properties are an object describes a tool that the
/// broker handles itself, under its name.
proof fn lemma_definitions_define()
    ensures
        forall|name: Seq<char>, text: Seq<char>, properties: JsonView, required: Option<Seq<Seq<char>>>|
            properties is Object ==> (schema_tool(#[trigger] definition(name, text, properties, required)) matches Some(t)
                && t.name == name && t.description == text && t.invoke is InProcess),
        forall|name: Seq<char>, text: Seq<char>, properties: JsonView, required: Option<Seq<Seq<char>>>|
            properties is Object ==> (schema_tool(#[trigger] hidden_definition(name, text, properties, required)) matches Some(t)
                && t.name == name && t.description == text && t.invoke is InProcess),
{
    assert forall|name: Seq<char>, text: Seq<char>, properties: JsonView, required: Option<Seq<Seq<char>>>|
        properties is Object implies (schema_tool(#[trigger] definition(name, text, properties, required)) matches Some(t)
                && t.name == name && t.description == text && t.invoke is InProcess) by {
        law_definitions_describe_tools(name, text, properties->Object_0, required);
    }
    assert forall|name: Seq<char>, text: Seq<char>, properties: JsonView, required: Option<Seq<Seq<char>>>|
        properties is Object implies (schema_tool(#[trigger] hidden_definition(name, text, properties, required)) matches Some(t)
                && t.name == name && t.description == text && t.invoke is InProcess) by {
        law_definitions_describe_tools(name, text, properties->Object_0, required);
    }
}

/// A tool is registered that the broker handles itself.
pub open spec fn handled(m: Map<Seq<char>, LoadedView>, name: Seq<char>) -> bool {
    m.contains_key(name) && m[name].tool.invoke is InProcess
}

/// Registering the tools of some definitions makes each of them one that the
/// broker handles, and leaves those that it handles.
proof fn lemma_registered(m: Map<Seq<char>, LoadedView>, defs: Seq<JsonView>, source: Seq<char>, name: Seq<char>)
    ensures
        handled(m, name) ==> handled(with_tools(m, tools_of(defs), source), name),
        (exists|i: int|
            0 <= i < defs.len() && schema_tool(#[trigger] defs[i]) is Some && schema_tool(defs[i])->0.name == name)
            ==> handled(with_tools(m, tools_of(defs), source), name),
    decreases defs.len(),
{
    if defs.len() > 0 {
        let head = defs.drop_last();
        lemma_registered(m, head, source, name);
        match schema_tool(defs.last()) {
            Some(t) => {
                assert(tools_of(defs).drop_last() =~= tools_of(head));
                assert(tools_of(defs).last() == t);
            },
            None => {},
        }
        if exists|i: int|
            0 <= i < defs.len() && schema_tool(#[trigger] defs[i]) is Some && schema_tool(defs[i])->0.name == name {
            let i = choose|i: int|
                0 <= i < defs.len() && schema_tool(#[trigger] defs[i]) is Some && schema_tool(defs[i])->0.name == name;
            if i < head.len() {
                assert(head[i] == defs[i]);
            }
        }
    }
}

proof fn lemma_memory_registered(m: Map<Seq<char>, LoadedView>, defs: Seq<JsonView>, name: Seq<char>)
    ensures
        handled(m, name) ==> handled(with_memory_tools(m, defs), name),
        (exists|i: int|
            0 <= i < defs.len() && schema_tool(#[trigger] defs[i]) is Some && schema_tool(defs[i])->0.name == name)
            ==> handled(with_memory_tools(m, defs), name),
    decreases defs.len(),
{
    if defs.len() > 0 {
        let head = defs.drop_last();
        lemma_memory_registered(m, head, name);
        if exists|i: int|
            0 <= i < defs.len() && schema_tool(#[trigger] defs[i]) is Some && schema_tool(defs[i])->0.name == name {
            let i = choose|i: int|
                0 <= i < defs.len() && schema_tool(#[trigger] defs[i]) is Some && schema_tool(defs[i])->0.name == name;
            if i < head.len() {
                assert(head[i] == defs[i]);
            }
        }
    }
}

/// Every built-in tool is registered under the name of its handler, where its
/// part of the broker is on: the events, the shell, the jobs and the frames
/// always, the memory, code mode and the network where they are.
pub proof fn law_builtin_tools_are_registered(
    m: Map<Seq<char>, LoadedView>,
    code_mode: bool,
    bridge_available: bool,
    memory: bool,
    h: Handler,
)
    ensures
        h is Listen || h is Emit || h is Shell || h is Spawn || h is CronAdd || h is CronList || h is CronRemove || h
            is UiRender || h is UiPush || h is UiSnapshot || h is UiClose ==> handled(
            with_builtins(m, code_mode, bridge_available, memory),
            tool_name(h),
        ),
        memory && (h is MemoryRecall || h is MemoryProcedural || h is MemoryAppend || h is MemoryIngest || h
            is MemoryEmbed) ==> handled(with_builtins(m, code_mode, bridge_available, memory), tool_name(h)),
        code_mode && (h is RunCode || h is DescribeTools) ==> handled(
            with_builtins(m, code_mode, bridge_available, memory),
            tool_name(h),
        ),
        bridge_available && (h is Expose || h is Unexpose) ==> handled(
            with_builtins(m, code_mode, bridge_available, memory),
            tool_name(h),
        ),
{
    lemma_definitions_define();
    let name = tool_name(h);
    let (e, c, w, me, co, n) = (
        event_definitions(),
        cron_definitions(),
        webview_definitions(),
        memory_definitions(),
        codemode_definitions(),
        network_definitions(),
    );
    let g = seq![shell_definition(), spawn_definition()];
    assert(e[0] == listen_definition() && e[1] == emit_definition());
    assert(g[0] == shell_definition() && g[1] == spawn_definition());
    assert(c[0] == cron_add_definition() && c[1] == cron_list_definition() && c[2] == cron_remove_definition());
    assert(w[0] == ui_render_definition() && w[1] == ui_push_definition());
    assert(w[2] == ui_snapshot_definition() && w[3] == ui_close_definition());
    assert(me[0] == memory_recall_definition() && me[1] == memory_procedural_definition());
    assert(me[2] == memory_append_definition() && me[3] == memory_ingest_definition());
    assert(me[4] == memory_embed_definition());
    assert(co[0] == run_code_definition() && co[1] == describe_tools_definition());
    assert(n[6] == network_expose_definition() && n[7] == network_unexpose_definition());
    let events = with_tools(m, tools_of(e), "events"@);
    let general = with_tools(events, tools_of(g), "general"@);
    let cron = with_tools(general, tools_of(c), "cron"@);
    let webview = with_tools(cron, tools_of(w), "webview"@);
    let remembering = if memory {
        with_memory_tools(webview, me)
    } else {
        webview
    };
    let coding = if code_mode {
        with_tools(remembering, tools_of(co), "codemode"@)
    } else {
        remembering
    };
    lemma_registered(m, e, "events"@, name);
    lemma_registered(events, g, "general"@, name);
    lemma_registered(general, c, "cron"@, name);
    lemma_registered(cron, w, "webview"@, name);
    lemma_memory_registered(webview, me, name);
    lemma_registered(remembering, co, "codemode"@, name);
    lemma_registered(coding, n, "network"@, name);
}

} // verus!
