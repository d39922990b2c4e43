//! The router: from a tool call to the work that carries it out.
//!
//! The permission check, the lookup and the choice of the handler stand here;
//! the work itself (processes, requests, the network) is done outside, and in
//! the modules of the built-in tools.
use vstd::prelude::*;

use crate::identity::AgentId;
use crate::json::{Json, JsonView};
use crate::manifest::{copy_pairs, InvokeConfig, InvokeView};
use crate::permissions::{effective, key, Decision, PermissionStore, Rule, RuleKey};
use crate::process::{
    all_filled_in, batch_file, command_spawn, deeplink_url, filled_in, kept_args, plan_applescript, plan_command,
    plan_powershell,
};
use crate::registry::{LoadedView, ManifestRegistry};
use crate::shell::{Spawn, SpawnView};
use crate::table::NameSet;
use crate::template::{argument_texts, pairs_view, Escape};
use crate::text::{lowercased, same, starts_with};
use crate::web_call::{method_asked, plan_request, Method, Payload, Request};

verus! {

// ---------------------------------------------------------------------------
// Handlers of built-in tools
// ---------------------------------------------------------------------------

/// What handles a built-in tool.
#[derive(Debug, Clone, Copy, PartialEq, Eq, Structural)]
pub enum Handler {
    Emit,
    Listen,
    RunCode,
    DescribeTools,
    Expose,
    Unexpose,
    /// A `connect_*` tool.
    Connect,
    /// Another `network_*` tool: the bridge does it.
    Network,
    Shell,
    Spawn,
    CronAdd,
    CronList,
    CronRemove,
    MemoryRecall,
    MemoryProcedural,
    MemoryAppend,
    MemoryIngest,
    MemoryEmbed,
    UiRender,
    UiPush,
    UiSnapshot,
    UiClose,
    WindowOpen,
    WindowClose,
    WindowResize,
    WindowSetTitle,
    WindowFocus,
    WindowNotify,
    WindowList,
}

/// The handler that a name stands for.
pub open spec fn named_handler(name: Seq<char>) -> Option<Handler> {
    if name == "emit"@ {
        Some(Handler::Emit)
    } else if name == "listen"@ {
        Some(Handler::Listen)
    } else if name == "run_code"@ {
        Some(Handler::RunCode)
    } else if name == "describe_tools"@ {
        Some(Handler::DescribeTools)
    } else if name == "network_expose"@ {
        Some(Handler::Expose)
    } else if name == "network_unexpose"@ {
        Some(Handler::Unexpose)
    } else if name == "shell"@ {
        Some(Handler::Shell)
    } else if name == "spawn"@ {
        Some(Handler::Spawn)
    } else if name == "cron_add"@ {
        Some(Handler::CronAdd)
    } else if name == "cron_list"@ {
        Some(Handler::CronList)
    } else if name == "cron_remove"@ {
        Some(Handler::CronRemove)
    } else if name == "ui_render"@ {
        Some(Handler::UiRender)
    } else if name == "ui_push"@ {
        Some(Handler::UiPush)
    } else if name == "ui_snapshot"@ {
        Some(Handler::UiSnapshot)
    } else if name == "ui_close"@ {
        Some(Handler::UiClose)
    } else if name == "window_open"@ {
        Some(Handler::WindowOpen)
    } else if name == "window_close"@ {
        Some(Handler::WindowClose)
    } else if name == "window_resize"@ {
        Some(Handler::WindowResize)
    } else if name == "window_set_title"@ {
        Some(Handler::WindowSetTitle)
    } else if name == "window_focus"@ {
        Some(Handler::WindowFocus)
    } else if name == "window_notify"@ {
        Some(Handler::WindowNotify)
    } else if name == "window_list"@ {
        Some(Handler::WindowList)
    } else {
        None
    }
}

/// The handler of a memory tool.
pub open spec fn memory_handler(name: Seq<char>) -> Option<Handler> {
    if name == "memory_recall"@ {
        Some(Handler::MemoryRecall)
    } else if name == "memory_procedural"@ {
        Some(Handler::MemoryProcedural)
    } else if name == "memory_append"@ {
        Some(Handler::MemoryAppend)
    } else if name == "memory_ingest"@ {
        Some(Handler::MemoryIngest)
    } else if name == "memory_embed"@ {
        Some(Handler::MemoryEmbed)
    } else {
        None
    }
}

/// What handles a built-in tool: the handler of its name, or of its prefix.
pub open spec fn handler_of(name: Seq<char>, memory: bool) -> Result<Handler, Seq<char>> {
    match named_handler(name) {
        Some(h) => Ok(h),
        None => if "connect_"@.is_prefix_of(name) {
            Ok(Handler::Connect)
        } else if "network_"@.is_prefix_of(name) {
            Ok(Handler::Network)
        } else if "memory_"@.is_prefix_of(name) {
            if !memory {
                Err("memory subsystem is disabled (no [memory] config)"@)
            } else {
                match memory_handler(name) {
                    Some(h) => Ok(h),
                    None => Err("unknown memory tool '"@ + name + "'"@),
                }
            }
        } else {
            Err("in-process tool '"@ + name + "' has no registered handler in the router"@)
        },
    }
}

/// The handler that a name stands for.
fn find_named(name: &str) -> (r: Option<Handler>)
    ensures
        r == named_handler(name@),
{
    if same(name, "emit") {
        Some(Handler::Emit)
    } else if same(name, "listen") {
        Some(Handler::Listen)
    } else if same(name, "run_code") {
        Some(Handler::RunCode)
    } else if same(name, "describe_tools") {
        Some(Handler::DescribeTools)
    } else if same(name, "network_expose") {
        Some(Handler::Expose)
    } else if same(name, "network_unexpose") {
        Some(Handler::Unexpose)
    } else if same(name, "shell") {
        Some(Handler::Shell)
    } else if same(name, "spawn") {
        Some(Handler::Spawn)
    } else if same(name, "cron_add") {
        Some(Handler::CronAdd)
    } else if same(name, "cron_list") {
        Some(Handler::CronList)
    } else if same(name, "cron_remove") {
        Some(Handler::CronRemove)
    } else if same(name, "ui_render") {
        Some(Handler::UiRender)
    } else if same(name, "ui_push") {
        Some(Handler::UiPush)
    } else if same(name, "ui_snapshot") {
        Some(Handler::UiSnapshot)
    } else if same(name, "ui_close") {
        Some(Handler::UiClose)
    } else if same(name, "window_open") {
        Some(Handler::WindowOpen)
    } else if same(name, "window_close") {
        Some(Handler::WindowClose)
    } else if same(name, "window_resize") {
        Some(Handler::WindowResize)
    } else if same(name, "window_set_title") {
        Some(Handler::WindowSetTitle)
    } else if same(name, "window_focus") {
        Some(Handler::WindowFocus)
    } else if same(name, "window_notify") {
        Some(Handler::WindowNotify)
    } else if same(name, "window_list") {
        Some(Handler::WindowList)
    } else {
        None
    }
}

/// The handler of a memory tool.
fn find_memory(name: &str) -> (r: Option<Handler>)
    ensures
        r == memory_handler(name@),
{
    if same(name, "memory_recall") {
        Some(Handler::MemoryRecall)
    } else if same(name, "memory_procedural") {
        Some(Handler::MemoryProcedural)
    } else if same(name, "memory_append") {
        Some(Handler::MemoryAppend)
    } else if same(name, "memory_ingest") {
        Some(Handler::MemoryIngest)
    } else if same(name, "memory_embed") {
        Some(Handler::MemoryEmbed)
    } else {
        None
    }
}

/// What handles a built-in tool.
pub fn find_handler(name: &str, memory: bool) -> (r: Result<Handler, String>)
    ensures
        match r {
            Ok(h) => handler_of(name@, memory) == Ok::<Handler, Seq<char>>(h),
            Err(e) => handler_of(name@, memory) == Err::<Handler, Seq<char>>(e@),
        },
{
    match find_named(name) {
        Some(h) => return Ok(h),
        None => {},
    }
    if starts_with(name, "connect_") {
        return Ok(Handler::Connect);
    }
    if starts_with(name, "network_") {
        return Ok(Handler::Network);
    }
    if starts_with(name, "memory_") {
        if !memory {
            return Err("memory subsystem is disabled (no [memory] config)".to_owned());
        }
        return match find_memory(name) {
            Some(h) => Ok(h),
            None => {
                let mut e = "unknown memory tool '".to_owned();
                e.push_str(name);
                e.push_str("'");
                Err(e)
            },
        };
    }
    let mut e = "in-process tool '".to_owned();
    e.push_str(name);
    e.push_str("' has no registered handler in the router");
    Err(e)
}

// ---------------------------------------------------------------------------
// Plans
// ---------------------------------------------------------------------------

/// The work that carries a tool call out.
pub enum Work {
    /// Run a command.
    Run { command: String, process: Spawn },
    /// Make a request, with the headers of the manifest.
    Fetch { request: Request, headers: Vec<(String, String)> },
    /// Open a URL.
    Open(String),
    AppleScript(Spawn),
    PowerShell(Spawn),
    /// Pass the call to a running MCP server.
    CallServer(String),
    /// A built-in tool.
    Local(Handler),
}

/// The model of [`Work`].
pub enum WorkView {
    Run { command: Seq<char>, process: SpawnView },
    Fetch {
        method: Method,
        url: Seq<char>,
        /// The query; nothing where the arguments go into the body.
        query: Option<Seq<(Seq<char>, Seq<char>)>>,
        headers: Seq<(Seq<char>, Seq<char>)>,
    },
    Open(Seq<char>),
    AppleScript(SpawnView),
    PowerShell(SpawnView),
    CallServer(Seq<char>),
    Local(Handler),
}

/// The query of a request.
pub open spec fn query_of(p: Payload) -> Option<Seq<(Seq<char>, Seq<char>)>> {
    match p {
        Payload::Query(pairs) => Some(pairs_view(pairs@)),
        Payload::Body => None,
    }
}

impl View for Work {
    type V = WorkView;

    open spec fn view(&self) -> WorkView {
        match self {
            Work::Run { command, process } => WorkView::Run { command: command@, process: process@ },
            Work::Fetch { request, headers } => WorkView::Fetch {
                method: request.method,
                url: request.url@,
                query: query_of(request.payload),
                headers: pairs_view(headers@),
            },
            Work::Open(url) => WorkView::Open(url@),
            Work::AppleScript(s) => WorkView::AppleScript(s@),
            Work::PowerShell(s) => WorkView::PowerShell(s@),
            Work::CallServer(k) => WorkView::CallServer(k@),
            Work::Local(h) => WorkView::Local(*h),
        }
    }
}

/// The machine the broker runs on.
#[derive(Debug, Clone, Copy, PartialEq, Eq, Structural)]
pub enum Platform {
    Windows,
    MacOs,
    Other,
}

/// The process for a command.
pub open spec fn command_process(
    command: Seq<char>,
    args: Seq<Seq<char>>,
    shell: bool,
    arguments: JsonView,
    platform: Platform,
) -> SpawnView {
    let program = filled_in(command, arguments, Escape::Verbatim);
    let windows = platform is Windows;
    command_spawn(
        program,
        kept_args(all_filled_in(args, arguments), 0),
        shell || (windows && batch_file(lowercased(program))),
        windows,
    )
}

/// The work for a tool that is invoked in this way.
pub open spec fn work_of(
    name: Seq<char>,
    invoke: InvokeView,
    arguments: JsonView,
    servers: Set<Seq<char>>,
    memory: bool,
    platform: Platform,
) -> Result<WorkView, Seq<char>> {
    match invoke {
        InvokeView::Cli { command, args, shell } => Ok(
            WorkView::Run { command, process: command_process(command, args, shell, arguments, platform) },
        ),
        InvokeView::Http { url, method, headers } => {
            let m = method_asked(method);
            Ok(
                WorkView::Fetch {
                    method: m,
                    url: filled_in(url, arguments, Escape::Verbatim),
                    query: if m is Get || m is Delete {
                        Some(argument_texts(arguments))
                    } else {
                        None
                    },
                    headers,
                },
            )
        },
        InvokeView::Deeplink { template } => Ok(WorkView::Open(filled_in(template, arguments, Escape::Verbatim))),
        InvokeView::AppleScript { script } => if platform is MacOs {
            Ok(
                WorkView::AppleScript(
                    SpawnView {
                        program: "osascript"@,
                        args: seq!["-e"@, filled_in(script, arguments, Escape::AppleScript)],
                    },
                ),
            )
        } else {
            Err("AppleScript tools are only supported on macOS. This tool cannot run on the current platform."@)
        },
        InvokeView::PowerShell { script } => Ok(
            WorkView::PowerShell(
                SpawnView {
                    program: "powershell"@,
                    args: seq![
                        "-NoProfile"@,
                        "-NonInteractive"@,
                        "-Command"@,
                        filled_in(script, arguments, Escape::PowerShell),
                    ],
                },
            ),
        ),
        InvokeView::Mcp { server_key } => if servers.contains(server_key) {
            Ok(WorkView::CallServer(server_key))
        } else {
            Err(
                "its MCP server ('"@ + server_key
                    + "') is not running. The node operator may need to restart the broker."@,
            )
        },
        InvokeView::InProcess => match handler_of(name, memory) {
            Ok(h) => Ok(WorkView::Local(h)),
            Err(e) => Err(e),
        },
    }
}

/// Plans the work for a tool that is invoked in this way.
pub fn plan_work(
    name: &str,
    invoke: &InvokeConfig,
    arguments: &Json,
    servers: &NameSet,
    memory: bool,
    platform: Platform,
) -> (r: Result<Work, String>)
    requires
        servers.wf(),
    ensures
        match r {
            Ok(w) => work_of(name@, invoke@, arguments@, servers@, memory, platform) == Ok::<WorkView, Seq<char>>(w@),
            Err(e) => work_of(name@, invoke@, arguments@, servers@, memory, platform) == Err::<WorkView, Seq<char>>(
                e@,
            ),
        },
{
    match invoke {
        InvokeConfig::Cli { command, args, shell } => {
            let process = plan_command(command.as_str(), args, *shell, arguments, platform == Platform::Windows);
            Ok(Work::Run { command: command.clone(), process })
        },
        InvokeConfig::Http { url, method, headers } => {
            let asked = match method {
                Some(m) => Some(m.as_str()),
                None => None,
            };
            let request = plan_request(url.as_str(), asked, arguments);
            Ok(Work::Fetch { request, headers: copy_pairs(headers) })
        },
        InvokeConfig::Deeplink { template } => Ok(Work::Open(deeplink_url(template.as_str(), arguments))),
        InvokeConfig::AppleScript { script } => match plan_applescript(
            script.as_str(),
            arguments,
            platform == Platform::MacOs,
        ) {
            Ok(s) => Ok(Work::AppleScript(s)),
            Err(e) => Err(e),
        },
        InvokeConfig::PowerShell { script } => Ok(Work::PowerShell(plan_powershell(script.as_str(), arguments))),
        InvokeConfig::Mcp { server_key } => {
            if servers.contains(server_key.as_str()) {
                Ok(Work::CallServer(server_key.clone()))
            } else {
                let mut e = "its MCP server ('".to_owned();
                e.push_str(server_key.as_str());
                e.push_str("') is not running. The node operator may need to restart the broker.");
                Err(e)
            }
        },
        InvokeConfig::InProcess => match find_handler(name, memory) {
            Ok(h) => Ok(Work::Local(h)),
            Err(e) => Err(e),
        },
    }
}

// ---------------------------------------------------------------------------
// Dispatch
// ---------------------------------------------------------------------------

/// What a tool call leads to.
pub open spec fn dispatched(
    name: Seq<char>,
    arguments: JsonView,
    rules: Map<RuleKey, Rule>,
    tools: Map<Seq<char>, LoadedView>,
    servers: Set<Seq<char>>,
    memory: bool,
    platform: Platform,
) -> Result<WorkView, Seq<char>> {
    if effective(rules, AgentId::Local, name) is Deny {
        Err("Permission denied: '"@ + name + "'"@)
    } else if !tools.contains_key(name) {
        Err("no tool with this name is registered on the node. Re-check available tools via tools/list."@)
    } else {
        work_of(name, tools[name].tool.invoke, arguments, servers, memory, platform)
    }
}

/// The rules after a tool call: a local caller who would be asked is allowed
/// from then on.
pub open spec fn rules_after(rules: Map<RuleKey, Rule>, name: Seq<char>, now: i64) -> Map<RuleKey, Rule> {
    if effective(rules, AgentId::Local, name) is Ask {
        rules.insert(key("local"@, name), Rule { decision: Decision::Allow, granted_at: Some(now) })
    } else {
        rules
    }
}

/// Dispatches a tool call of a local caller: checks the permission, looks the
/// tool up and plans the work.
pub fn dispatch(
    tool_name: &str,
    arguments: &Json,
    permissions: &mut PermissionStore,
    registry: &ManifestRegistry,
    servers: &NameSet,
    memory: bool,
    platform: Platform,
    now: i64,
) -> (r: Result<Work, String>)
    requires
        old(permissions).wf(),
        registry.wf(),
        servers.wf(),
    ensures
        final(permissions).wf(),
        final(permissions)@ == rules_after(old(permissions)@, tool_name@, now),
        match r {
            Ok(w) => dispatched(
                tool_name@,
                arguments@,
                old(permissions)@,
                registry@,
                servers@,
                memory,
                platform,
            ) == Ok::<WorkView, Seq<char>>(w@),
            Err(e) => dispatched(
                tool_name@,
                arguments@,
                old(permissions)@,
                registry@,
                servers@,
                memory,
                platform,
            ) == Err::<WorkView, Seq<char>>(e@),
        },
{
    match permissions.check(&AgentId::Local, tool_name) {
        Decision::Allow => {},
        Decision::Deny => {
            let mut e = "Permission denied: '".to_owned();
            e.push_str(tool_name);
            e.push_str("'");
            return Err(e);
        },
        Decision::Ask => {
            permissions.set("local", tool_name, Decision::Allow, now);
        },
    }
    match registry.get(tool_name) {
        Some(loaded) => plan_work(tool_name, &loaded.tool.invoke, arguments, servers, memory, platform),
        None => Err(
            "no tool with this name is registered on the node. Re-check available tools via tools/list.".to_owned(),
        ),
    }
}

// ---------------------------------------------------------------------------
// POST /invoke
// ---------------------------------------------------------------------------

/// What a `POST /invoke` is answered.
pub open spec fn invoke_json(result: Seq<char>, is_error: bool) -> JsonView {
    JsonView::object().with("is_error"@, JsonView::Bool(is_error)).with("result"@, JsonView::Text(result))
}

/// The body of a `POST /invoke`.
pub struct InvokeBody {
    pub tool: String,
    pub arguments: Json,
}

/// The arguments of an invocation: an empty object where they are none.
pub open spec fn object_or_empty(j: JsonView) -> JsonView {
    if j is Object {
        j
    } else {
        JsonView::object()
    }
}

/// The tool and the arguments of an invocation, or why its body was refused.
pub fn invoke_request(body: Result<InvokeBody, String>) -> (r: Result<(String, Json), String>)
    ensures
        match body {
            Ok(b) => r is Ok && r->Ok_0.0@ == b.tool@ && r->Ok_0.1@ == object_or_empty(b.arguments@),
            Err(e) => r is Err && r->Err_0@ == "Bad request: "@ + e@,
        },
{
    match body {
        Ok(b) => {
            let arguments = if b.arguments.as_object().is_some() {
                b.arguments
            } else {
                Json::object()
            };
            Ok((b.tool, arguments))
        },
        Err(e) => {
            let mut t = "Bad request: ".to_owned();
            t.push_str(e.as_str());
            Err(t)
        },
    }
}

/// What a `POST /invoke` is answered.
pub fn invoke_reply(outcome: &Result<String, String>) -> (r: Json)
    ensures
        r@ == (match outcome {
            Ok(t) => invoke_json(t@, false),
            Err(e) => invoke_json(e@, true),
        }),
{
    match outcome {
        Ok(t) => Json::object().with("is_error", Json::Bool(false)).with("result", Json::text(t.as_str())),
        Err(e) => Json::object().with("is_error", Json::Bool(true)).with("result", Json::text(e.as_str())),
    }
}

// ---------------------------------------------------------------------------
// Laws
// ---------------------------------------------------------------------------

/// The name under which a built-in tool is called, by its handler; for the
/// tunnels, and for what the bridge does, what such names start with.
pub open spec fn tool_name(h: Handler) -> Seq<char> {
    match h {
        Handler::Emit => "emit"@,
        Handler::Listen => "listen"@,
        Handler::RunCode => "run_code"@,
        Handler::DescribeTools => "describe_tools"@,
        Handler::Expose => "network_expose"@,
        Handler::Unexpose => "network_unexpose"@,
        Handler::Connect => "connect_"@,
        Handler::Network => "network_"@,
        Handler::Shell => "shell"@,
        Handler::Spawn => "spawn"@,
        Handler::CronAdd => "cron_add"@,
        Handler::CronList => "cron_list"@,
        Handler::CronRemove => "cron_remove"@,
        Handler::MemoryRecall => "memory_recall"@,
        Handler::MemoryProcedural => "memory_procedural"@,
        Handler::MemoryAppend => "memory_append"@,
        Handler::MemoryIngest => "memory_ingest"@,
        Handler::MemoryEmbed => "memory_embed"@,
        Handler::UiRender => "ui_render"@,
        Handler::UiPush => "ui_push"@,
        Handler::UiSnapshot => "ui_snapshot"@,
        Handler::UiClose => "ui_close"@,
        Handler::WindowOpen => "window_open"@,
        Handler::WindowClose => "window_close"@,
        Handler::WindowResize => "window_resize"@,
        Handler::WindowSetTitle => "window_set_title"@,
        Handler::WindowFocus => "window_focus"@,
        Handler::WindowNotify => "window_notify"@,
        Handler::WindowList => "window_list"@,
    }
}

/// A text has the first character of what it starts with.
proof fn lemma_prefix_first(p: Seq<char>, t: Seq<char>)
    requires
        p.len() > 1,
    ensures
        p.is_prefix_of(t) ==> t.len() > 1 && t[0] == p[0] && t[1] == p[1],
{
    if p.is_prefix_of(t) {
        assert(t[0] == t.subrange(0, p.len() as int)[0]);
        assert(t[1] == t.subrange(0, p.len() as int)[1]);
    }
}

/// The built-in names are told apart.
proof fn lemma_names_differ()
    ensures
        "emit"@.len() == 4,
        "listen"@.len() == 6,
        "run_code"@.len() == 8,
        "describe_tools"@.len() == 14,
        "network_expose"@.len() == 14,
        "network_unexpose"@.len() == 16,
        "connect_"@.len() == 8,
        "network_"@.len() == 8,
        "shell"@.len() == 5,
        "spawn"@.len() == 5,
        "cron_add"@.len() == 8,
        "cron_list"@.len() == 9,
        "cron_remove"@.len() == 11,
        "memory_recall"@.len() == 13,
        "memory_procedural"@.len() == 17,
        "memory_append"@.len() == 13,
        "memory_ingest"@.len() == 13,
        "memory_embed"@.len() == 12,
        "ui_render"@.len() == 9,
        "ui_push"@.len() == 7,
        "ui_snapshot"@.len() == 11,
        "ui_close"@.len() == 8,
        "window_open"@.len() == 11,
        "window_close"@.len() == 12,
        "window_resize"@.len() == 13,
        "window_set_title"@.len() == 16,
        "window_focus"@.len() == 12,
        "window_notify"@.len() == 13,
        "window_list"@.len() == 11,
        "run_code"@[0] == 'r',
        "connect_"@[0] == 'c',
        "network_"@[0] == 'n',
        "cron_add"@[0] == 'c',
        "ui_close"@[0] == 'u',
        "describe_tools"@[0] == 'd',
        "network_expose"@[0] == 'n',
        "network_unexpose"@[0] == 'n',
        "window_set_title"@[0] == 'w',
        "connect_"@[1] == 'o',
        "cron_add"@[1] == 'r',
        "shell"@[1] == 'h',
        "spawn"@[1] == 'p',
        "cron_list"@[0] == 'c',
        "ui_render"@[0] == 'u',
        "cron_remove"@[0] == 'c',
        "ui_snapshot"@[0] == 'u',
        "window_open"@[0] == 'w',
        "window_list"@[0] == 'w',
        "memory_recall"@[7] == 'r',
        "memory_append"@[7] == 'a',
        "memory_ingest"@[7] == 'i',
        "memory_recall"@[0] == 'm',
        "window_resize"@[0] == 'w',
        "window_notify"@[0] == 'w',
        "memory_append"@[0] == 'm',
        "memory_ingest"@[0] == 'm',
        "memory_embed"@[0] == 'm',
        "window_close"@[0] == 'w',
        "window_focus"@[0] == 'w',
        "window_open"@[7] == 'o',
        "window_list"@[7] == 'l',
        "window_close"@[7] == 'c',
        "window_focus"@[7] == 'f',
        "window_resize"@[7] == 'r',
        "window_notify"@[7] == 'n',
{
    reveal_strlit("emit");
    reveal_strlit("listen");
    reveal_strlit("run_code");
    reveal_strlit("describe_tools");
    reveal_strlit("network_expose");
    reveal_strlit("network_unexpose");
    reveal_strlit("connect_");
    reveal_strlit("network_");
    reveal_strlit("shell");
    reveal_strlit("spawn");
    reveal_strlit("cron_add");
    reveal_strlit("cron_list");
    reveal_strlit("cron_remove");
    reveal_strlit("memory_recall");
    reveal_strlit("memory_procedural");
    reveal_strlit("memory_append");
    reveal_strlit("memory_ingest");
    reveal_strlit("memory_embed");
    reveal_strlit("ui_render");
    reveal_strlit("ui_push");
    reveal_strlit("ui_snapshot");
    reveal_strlit("ui_close");
    reveal_strlit("window_open");
    reveal_strlit("window_close");
    reveal_strlit("window_resize");
    reveal_strlit("window_set_title");
    reveal_strlit("window_focus");
    reveal_strlit("window_notify");
    reveal_strlit("window_list");
}

/// Every built-in tool is handled by its own handler.
pub proof fn law_names_reach_their_handlers(h: Handler, memory: bool)
    requires
        h is MemoryRecall || h is MemoryProcedural || h is MemoryAppend || h is MemoryIngest || h is MemoryEmbed
            ==> memory,
    ensures
        handler_of(tool_name(h), memory) == Ok::<Handler, Seq<char>>(h),
{
    reveal_strlit("emit");
    reveal_strlit("listen");
    reveal_strlit("run_code");
    reveal_strlit("describe_tools");
    reveal_strlit("network_expose");
    reveal_strlit("network_unexpose");
    reveal_strlit("connect_");
    reveal_strlit("network_");
    reveal_strlit("shell");
    reveal_strlit("spawn");
    reveal_strlit("cron_add");
    reveal_strlit("cron_list");
    reveal_strlit("cron_remove");
    reveal_strlit("memory_recall");
    reveal_strlit("memory_procedural");
    reveal_strlit("memory_append");
    reveal_strlit("memory_ingest");
    reveal_strlit("memory_embed");
    reveal_strlit("ui_render");
    reveal_strlit("ui_push");
    reveal_strlit("ui_snapshot");
    reveal_strlit("ui_close");
    reveal_strlit("window_open");
    reveal_strlit("window_close");
    reveal_strlit("window_resize");
    reveal_strlit("window_set_title");
    reveal_strlit("window_focus");
    reveal_strlit("window_notify");
    reveal_strlit("window_list");
    reveal_strlit("memory_");
    lemma_names_differ();
    let name = tool_name(h);
    lemma_prefix_first("connect_"@, name);
    lemma_prefix_first("network_"@, name);
    if h is Connect {
        assert("connect_"@ =~= name.take(8));
    }
    if h is Network {
        assert("network_"@ =~= name.take(8));
    }
    if h is MemoryRecall || h is MemoryProcedural || h is MemoryAppend || h is MemoryIngest || h is MemoryEmbed {
        assert("memory_"@ =~= name.take(7));
    }
}

/// Each handler has one name: what a built-in tool is called leads back to it.
pub proof fn law_handlers_have_their_names(name: Seq<char>, memory: bool)
    requires
        handler_of(name, memory) is Ok,
    ensures
        ({
            let h = handler_of(name, memory)->Ok_0;
            if h is Connect || h is Network {
                tool_name(h).is_prefix_of(name)
            } else {
                name == tool_name(h)
            }
        }),
{
}

/// Whatever a tool of a tunnel is called behind `connect_`, it opens one; and
/// whatever else starts with `network_` goes to the bridge, but for the two
/// tools that the broker handles itself.
pub proof fn law_prefixes_reach_their_handlers(rest: Seq<char>, memory: bool)
    ensures
        handler_of("connect_"@ + rest, memory) == Ok::<Handler, Seq<char>>(Handler::Connect),
        rest != "expose"@ && rest != "unexpose"@ ==> handler_of("network_"@ + rest, memory) == Ok::<
            Handler,
            Seq<char>,
        >(Handler::Network),
{
    reveal_strlit("emit");
    reveal_strlit("listen");
    reveal_strlit("run_code");
    reveal_strlit("describe_tools");
    reveal_strlit("network_expose");
    reveal_strlit("network_unexpose");
    reveal_strlit("connect_");
    reveal_strlit("network_");
    reveal_strlit("shell");
    reveal_strlit("spawn");
    reveal_strlit("cron_add");
    reveal_strlit("cron_list");
    reveal_strlit("cron_remove");
    reveal_strlit("memory_recall");
    reveal_strlit("memory_procedural");
    reveal_strlit("memory_append");
    reveal_strlit("memory_ingest");
    reveal_strlit("memory_embed");
    reveal_strlit("ui_render");
    reveal_strlit("ui_push");
    reveal_strlit("ui_snapshot");
    reveal_strlit("ui_close");
    reveal_strlit("window_open");
    reveal_strlit("window_close");
    reveal_strlit("window_resize");
    reveal_strlit("window_set_title");
    reveal_strlit("window_focus");
    reveal_strlit("window_notify");
    reveal_strlit("window_list");
    reveal_strlit("expose");
    reveal_strlit("unexpose");
    let a = "connect_"@ + rest;
    let b = "network_"@ + rest;
    assert("connect_"@ =~= a.take(8));
    assert("network_"@ =~= b.take(8));
    assert(a[0] == 'c' && a[1] == 'o');
    assert(b[0] == 'n' && b[1] == 'e');
    if b == "network_expose"@ {
        assert(rest =~= b.skip(8));
        assert("network_expose"@.skip(8) =~= "expose"@);
    }
    if b == "network_unexpose"@ {
        assert(rest =~= b.skip(8));
        assert("network_unexpose"@.skip(8) =~= "unexpose"@);
    }
    assert(!("connect_"@.is_prefix_of(b))) by {
        if "connect_"@.is_prefix_of(b) {
            assert(b.take(8)[0] == 'c');
        }
    }
}

/// Without a memory no memory tool is handled.
pub proof fn law_no_memory_no_memory_tools(rest: Seq<char>)
    ensures
        handler_of("memory_"@ + rest, false) is Err,
{
    reveal_strlit("emit");
    reveal_strlit("listen");
    reveal_strlit("run_code");
    reveal_strlit("describe_tools");
    reveal_strlit("network_expose");
    reveal_strlit("network_unexpose");
    reveal_strlit("connect_");
    reveal_strlit("network_");
    reveal_strlit("shell");
    reveal_strlit("spawn");
    reveal_strlit("cron_add");
    reveal_strlit("cron_list");
    reveal_strlit("cron_remove");
    reveal_strlit("memory_recall");
    reveal_strlit("memory_procedural");
    reveal_strlit("memory_append");
    reveal_strlit("memory_ingest");
    reveal_strlit("memory_embed");
    reveal_strlit("ui_render");
    reveal_strlit("ui_push");
    reveal_strlit("ui_snapshot");
    reveal_strlit("ui_close");
    reveal_strlit("window_open");
    reveal_strlit("window_close");
    reveal_strlit("window_resize");
    reveal_strlit("window_set_title");
    reveal_strlit("window_focus");
    reveal_strlit("window_notify");
    reveal_strlit("window_list");
    reveal_strlit("memory_");
    let a = "memory_"@ + rest;
    assert("memory_"@ =~= a.take(7));
    assert(a[0] == 'm');
    lemma_prefix_first("connect_"@, a);
    lemma_prefix_first("network_"@, a);
}

/// A denied tool is not run, whatever else holds, and the rules stay as they
/// are.
pub proof fn law_denied_tools_are_not_run(
    name: Seq<char>,
    arguments: JsonView,
    rules: Map<RuleKey, Rule>,
    tools: Map<Seq<char>, LoadedView>,
    servers: Set<Seq<char>>,
    memory: bool,
    platform: Platform,
    now: i64,
)
    requires
        effective(rules, AgentId::Local, name) is Deny,
    ensures
        dispatched(name, arguments, rules, tools, servers, memory, platform) == Err::<WorkView, Seq<char>>(
            "Permission denied: '"@ + name + "'"@,
        ),
        rules_after(rules, name, now) == rules,
{
}

/// A tool is run only where it is registered; the caller who was asked once is
/// allowed from then on.
pub proof fn law_allowed_once_is_allowed(
    name: Seq<char>,
    arguments: JsonView,
    rules: Map<RuleKey, Rule>,
    tools: Map<Seq<char>, LoadedView>,
    servers: Set<Seq<char>>,
    memory: bool,
    platform: Platform,
    now: i64,
)
    requires
        dispatched(name, arguments, rules, tools, servers, memory, platform) is Ok,
    ensures
        tools.contains_key(name),
        effective(rules_after(rules, name, now), AgentId::Local, name) is Allow,
        rules_after(rules_after(rules, name, now), name, now) == rules_after(rules, name, now),
{
    let after = rules_after(rules, name, now);
    if effective(rules, AgentId::Local, name) is Ask {
        assert(after.contains_key(key("local"@, name)));
        assert(after[key("local"@, name)].decision is Allow);
    }
}

/// A tool that runs a command is run with its own command, filled in, and what
/// stays of its arguments.
pub proof fn law_commands_are_run(
    name: Seq<char>,
    command: Seq<char>,
    args: Seq<Seq<char>>,
    arguments: JsonView,
    servers: Set<Seq<char>>,
    memory: bool,
    platform: Platform,
)
    requires
        platform !is Windows,
    ensures
        ({
            let invoke = InvokeView::Cli { command, args, shell: false };
            let w = work_of(name, invoke, arguments, servers, memory, platform);
            &&& w is Ok
            &&& w->Ok_0 is Run
            &&& w->Ok_0->Run_command == command
            &&& w->Ok_0->Run_process.program == filled_in(command, arguments, Escape::Verbatim)
            &&& w->Ok_0->Run_process.args == kept_args(all_filled_in(args, arguments), 0)
        }),
        ({
            let invoke = InvokeView::Cli { command, args, shell: true };
            let w = work_of(name, invoke, arguments, servers, memory, platform);
            w is Ok && w->Ok_0 is Run && w->Ok_0->Run_process.program == "sh"@
        }),
{
}

/// A tool that makes a request makes it where its manifest says, with the
/// headers of the manifest; a GET or DELETE has every argument in its query,
/// any other method has them in its body.
pub proof fn law_requests_carry_the_arguments(
    name: Seq<char>,
    url: Seq<char>,
    method: Option<Seq<char>>,
    headers: Seq<(Seq<char>, Seq<char>)>,
    arguments: JsonView,
    servers: Set<Seq<char>>,
    memory: bool,
    platform: Platform,
)
    ensures
        ({
            let invoke = InvokeView::Http { url, method, headers };
            let w = work_of(name, invoke, arguments, servers, memory, platform);
            &&& w is Ok
            &&& w->Ok_0 is Fetch
            &&& w->Ok_0->Fetch_method == method_asked(method)
            &&& w->Ok_0->Fetch_url == filled_in(url, arguments, Escape::Verbatim)
            &&& w->Ok_0->Fetch_headers == headers
            &&& method_asked(method) is Get || method_asked(method) is Delete ==> w->Ok_0->Fetch_query == Some(
                argument_texts(arguments),
            )
            &&& method_asked(method) is Put || method_asked(method) is Post ==> w->Ok_0->Fetch_query is None
        }),
{
}

/// A tool of an MCP server is called there while the server runs, and fails
/// where it does not.
pub proof fn law_server_tools_go_to_their_server(
    name: Seq<char>,
    server_key: Seq<char>,
    arguments: JsonView,
    servers: Set<Seq<char>>,
    memory: bool,
    platform: Platform,
)
    ensures
        ({
            let w = work_of(name, InvokeView::Mcp { server_key }, arguments, servers, memory, platform);
            &&& servers.contains(server_key) ==> w is Ok && w->Ok_0 == WorkView::CallServer(server_key)
            &&& !servers.contains(server_key) ==> w is Err
        }),
{
}

/// A script is run by its own interpreter, with the arguments escaped for it;
/// AppleScript runs on macOS only.  A link is opened as it is filled in.
pub proof fn law_scripts_are_run_escaped(
    name: Seq<char>,
    script: Seq<char>,
    arguments: JsonView,
    servers: Set<Seq<char>>,
    memory: bool,
    platform: Platform,
)
    ensures
        ({
            let w = work_of(name, InvokeView::AppleScript { script }, arguments, servers, memory, platform);
            &&& w is Ok <==> platform is MacOs
            &&& w is Ok ==> w->Ok_0 is AppleScript && w->Ok_0->AppleScript_0.program == "osascript"@
                && w->Ok_0->AppleScript_0.args.len() == 2 && w->Ok_0->AppleScript_0.args[0] == "-e"@
                && w->Ok_0->AppleScript_0.args[1] == filled_in(script, arguments, Escape::AppleScript)
        }),
        ({
            let w = work_of(name, InvokeView::PowerShell { script }, arguments, servers, memory, platform);
            &&& w is Ok && w->Ok_0 is PowerShell
            &&& w->Ok_0->PowerShell_0.program == "powershell"@
            &&& w->Ok_0->PowerShell_0.args.last() == filled_in(script, arguments, Escape::PowerShell)
            &&& w->Ok_0->PowerShell_0.args.contains("-NonInteractive"@)
        }),
        work_of(name, InvokeView::Deeplink { template: script }, arguments, servers, memory, platform) == Ok::<
            WorkView,
            Seq<char>,
        >(WorkView::Open(filled_in(script, arguments, Escape::Verbatim))),
{
    let w = work_of(name, InvokeView::PowerShell { script }, arguments, servers, memory, platform);
    assert(w->Ok_0->PowerShell_0.args[1] == "-NonInteractive"@);
}

/// A registered built-in tool that the local caller may use is handled by the
/// handler of its name; one that is not registered is not run.
pub proof fn law_builtin_calls_are_handled(
    h: Handler,
    arguments: JsonView,
    rules: Map<RuleKey, Rule>,
    tools: Map<Seq<char>, LoadedView>,
    servers: Set<Seq<char>>,
    platform: Platform,
    other: Seq<char>,
)
    requires
        effective(rules, AgentId::Local, tool_name(h)) !is Deny,
        tools.contains_key(tool_name(h)),
        tools[tool_name(h)].tool.invoke is InProcess,
        !tools.contains_key(other),
    ensures
        dispatched(tool_name(h), arguments, rules, tools, servers, true, platform) == Ok::<WorkView, Seq<char>>(
            WorkView::Local(h),
        ),
        dispatched(other, arguments, rules, tools, servers, true, platform) is Err,
{
    law_names_reach_their_handlers(h, true);
}

} // verus!
