//! The generic `spawn` tool: any tool call, run in the background.
//!
//! `spawn` accepts a tool name and its arguments and answers with a task
//! identifier at once.  When the inner tool completes, an event tells the
//! outcome: topic `task.done` with the result, or `task.failed` with the error.
use vstd::prelude::*;

use crate::event_queue::{pushed, EventQueue};
use crate::json::{printed_pretty, texts_view, Json, JsonView, NumberView};
use crate::registry::{LoadedView, ManifestRegistry};
use crate::schema::{define, definition, typed, typed_schema};
use crate::text::{decimal, decimal_text, same};

verus! {

/// Gives out task identifiers, from one upwards.
pub struct TaskIds {
    next: u64,
}

impl View for TaskIds {
    type V = int;

    closed spec fn view(&self) -> int {
        self.next as int
    }
}

impl TaskIds {
    /// No identifier was given out yet.
    pub fn new() -> (r: TaskIds)
        ensures
            r@ == 1,
    {
        TaskIds { next: 1 }
    }

    /// Whether there is an identifier left to give.
    pub fn has_room(&self) -> (r: bool)
        ensures
            r == (self@ < u64::MAX),
    {
        self.next < u64::MAX
    }

    /// The next identifier.
    pub fn next_task_id(&mut self) -> (r: u64)
        requires
            old(self)@ < u64::MAX,
        ensures
            r == old(self)@,
            final(self)@ == old(self)@ + 1,
    {
        let id: u64 = self.next;
        self.next = id + 1;
        id
    }
}

/// Why a call of `spawn` is refused, if it is.
pub open spec fn spawn_refusal(arguments: JsonView, tools: Map<Seq<char>, LoadedView>) -> Option<Seq<char>> {
    match arguments.text_at("tool"@) {
        None => Some("missing required field: tool"@),
        Some(tool) => if tool == "spawn"@ {
            Some("cannot spawn 'spawn' — use the inner tool name directly"@)
        } else if !tools.contains_key(tool) {
            Some(
                "tool '"@ + tool
                    + "' is not registered — check tools/list. spawn only dispatches to registered tools."@,
            )
        } else {
            None
        },
    }
}

/// The arguments for the inner tool: those given, or none.
pub open spec fn inner_arguments(arguments: JsonView) -> JsonView {
    match arguments.member("arguments"@) {
        Some(a) => a,
        None => JsonView::Object(Seq::empty()),
    }
}

/// What the caller of `spawn` is answered.
pub open spec fn spawned_json(id: int, tool: Seq<char>) -> JsonView {
    JsonView::Object(
        seq![
            ("status"@, JsonView::Text("spawned"@)),
            ("task_id"@, JsonView::Number(NumberView::Unsigned(id))),
            ("tool"@, JsonView::Text(tool)),
        ],
    )
}

/// A tool call to be run in the background.
pub struct Task {
    pub id: u64,
    pub tool: String,
    pub arguments: Json,
}

/// Handles a `spawn` call: the task to launch, and the answer.  The tool is
/// looked up first, so that a typo is told at once.
pub fn handle(arguments: &Json, registry: &ManifestRegistry, ids: &mut TaskIds) -> (r: Result<(Task, String), String>)
    requires
        registry.wf(),
        old(ids)@ < u64::MAX,
    ensures
        match spawn_refusal(arguments@, registry@) {
            Some(e) => r is Err && r->Err_0@ == e && final(ids)@ == old(ids)@,
            None => {
                let tool = arguments@.text_at("tool"@)->0;
                &&& r is Ok
                &&& r->Ok_0.0.id == old(ids)@
                &&& r->Ok_0.0.tool@ == tool
                &&& r->Ok_0.0.arguments@ == inner_arguments(arguments@)
                &&& r->Ok_0.1@ == printed_pretty(spawned_json(old(ids)@, tool))
                &&& final(ids)@ == old(ids)@ + 1
            },
        },
{
    let tool = match arguments.str_at("tool") {
        Some(t) => t,
        None => return Err("missing required field: tool".to_owned()),
    };
    if same(tool, "spawn") {
        return Err("cannot spawn 'spawn' — use the inner tool name directly".to_owned());
    }
    let inner = match arguments.get("arguments") {
        Some(a) => a.clone(),
        None => Json::object(),
    };
    if registry.get(tool).is_none() {
        let mut e = "tool '".to_owned();
        e.push_str(tool);
        e.push_str("' is not registered — check tools/list. spawn only dispatches to registered tools.");
        return Err(e);
    }
    let id: u64 = ids.next_task_id();
    let reply = Json::object().with("status", Json::text("spawned")).with("task_id", Json::natural(id)).with(
        "tool",
        Json::text(tool),
    );
    assert(reply@->Object_0 =~= spawned_json(id as int, tool@)->Object_0);
    Ok((Task { id, tool: tool.to_owned(), arguments: inner }, reply.to_pretty_text()))
}

/// The payload that tells the outcome of a task.
pub open spec fn outcome_json(id: int, tool: Seq<char>, key: Seq<char>, text: Seq<char>) -> JsonView {
    JsonView::Object(
        seq![
            (key, JsonView::Text(text)),
            ("task_id"@, JsonView::Number(NumberView::Unsigned(id))),
            ("tool"@, JsonView::Text(tool)),
        ],
    )
}

/// Tells the outcome of a task: an event goes into the queue.
pub fn finish(id: u64, tool: &str, outcome: &Result<String, String>, queue: &mut EventQueue, ts: &str)
    requires
        old(queue).wf(),
        old(queue)@.next_id < u64::MAX,
    ensures
        final(queue).wf(),
        final(queue)@ == (match outcome {
            Ok(text) => pushed(
                old(queue)@,
                "task.done"@,
                "spawn:"@ + decimal(id as nat),
                outcome_json(id as int, tool@, "result"@, text@),
                ts@,
            ),
            Err(e) => pushed(
                old(queue)@,
                "task.failed"@,
                "spawn:"@ + decimal(id as nat),
                outcome_json(id as int, tool@, "error"@, e@),
                ts@,
            ),
        }),
{
    let mut source = "spawn:".to_owned();
    source.push_str(decimal_text(id).as_str());
    match outcome {
        Ok(text) => {
            let data = Json::object().with("result", Json::text(text.as_str())).with("task_id", Json::natural(id)).with(
                "tool",
                Json::text(tool),
            );
            assert(data@->Object_0 =~= outcome_json(id as int, tool@, "result"@, text@)->Object_0);
            let _ = queue.push("task.done", source.as_str(), data, ts);
        },
        Err(e) => {
            let data = Json::object().with("error", Json::text(e.as_str())).with("task_id", Json::natural(id)).with(
                "tool",
                Json::text(tool),
            );
            assert(data@->Object_0 =~= outcome_json(id as int, tool@, "error"@, e@)->Object_0);
            let _ = queue.push("task.failed", source.as_str(), data, ts);
        },
    }
}

// ---------------------------------------------------------------------------
// Definitions
// ---------------------------------------------------------------------------

/// What `spawn` does.
pub const SPAWN_TEXT: &'static str = "Run any tool asynchronously in the background. Returns a task_id immediately. The result arrives as an event: listen for topic 'task.done' or 'task.failed' with matching task_id. Use this for parallel execution (spawn N tools, listen for N results), long-running operations, or fire-and-forget jobs.";

/// The `arguments` parameter of `spawn`.
pub const SPAWN_ARGUMENTS: &'static str = "Arguments to pass to the tool. Must match the tool's inputSchema. Omit or pass {} for tools with no required arguments.";

/// The `tool` parameter of `spawn`.
pub const SPAWN_TOOL: &'static str = "Name of the tool to invoke (e.g. 'shell', 'run_code', 'web_fetch').";

/// The definition of `spawn`.
pub open spec fn spawn_definition() -> JsonView {
    definition(
        "spawn"@,
        SPAWN_TEXT@,
        JsonView::object()
            .with("arguments"@, typed("object"@, SPAWN_ARGUMENTS@))
            .with("tool"@, typed("string"@, SPAWN_TOOL@)),
        Some(seq!["tool"@]),
    )
}

/// The definition of `spawn`.
pub fn spawn_tool_definition() -> (r: Json)
    ensures
        r@ == spawn_definition(),
{
    let mut required: Vec<String> = Vec::new();
    required.push("tool".to_owned());
    assert(texts_view(required@) =~= seq!["tool"@]);
    define(
        "spawn",
        SPAWN_TEXT,
        Json::object()
            .with("arguments", typed_schema("object", SPAWN_ARGUMENTS))
            .with("tool", typed_schema("string", SPAWN_TOOL)),
        Some(required),
    )
}

} // verus!
