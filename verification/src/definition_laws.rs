//! What the built-in tools take, by the definitions that their callers see.
use vstd::prelude::*;

use crate::builtins::{
    defined_tool, describe_tools_definition, emit_definition, is_hidden, law_definitions_describe_tools,
    listen_definition, network_call_definition, network_expose_definition, network_models_definition,
    network_peers_definition, network_ping_definition, network_record_definition, network_search_definition,
    network_tools_definition, network_unexpose_definition, run_code_definition,
};
use crate::cron::{cron_add_definition, cron_list_definition, cron_remove_definition};
use crate::json::{lemma_fields_2, lemma_fields_3, JsonView};
use crate::manifest::schema_tool;
use crate::memory::{
    memory_append_definition, memory_embed_definition, memory_ingest_definition, memory_procedural_definition,
    memory_recall_definition,
};
use crate::network::{
    bridge_network_call_definition, bridge_network_describe_definition, bridge_network_peers_definition,
    bridge_network_ping_definition, bridge_network_search_definition, bridge_network_tools_definition,
};
use crate::schema::{choice, definition, hidden_definition, text_list, typed};
use crate::shell::shell_definition;
use crate::spawn::spawn_definition;
use crate::webview::{ui_close_definition, ui_push_definition, ui_render_definition, ui_snapshot_definition};
use crate::window::{
    window_close_definition, window_focus_definition, window_list_definition, window_notify_definition,
    window_open_definition, window_resize_definition, window_set_title_definition,
};

verus! {

/// The tool of a definition takes a parameter of this type.
pub open spec fn takes(def: JsonView, name: Seq<char>, kind: Seq<char>) -> bool {
    schema_tool(def) is Some && exists|i: int|
        0 <= i < schema_tool(def)->0.schema.properties.len() && (#[trigger] schema_tool(def)->0.schema.properties[i]).0
            == name && schema_tool(def)->0.schema.properties[i].1.text_at("type"@) == Some(kind)
}

/// The tool of a definition takes a parameter of any type.
pub open spec fn takes_any(def: JsonView, name: Seq<char>) -> bool {
    schema_tool(def) is Some && exists|i: int|
        0 <= i < schema_tool(def)->0.schema.properties.len() && (#[trigger] schema_tool(def)->0.schema.properties[i]).0
            == name
}

/// The tool of a definition takes so many parameters, and cannot do without
/// these.
pub open spec fn needs(def: JsonView, count: nat, names: Seq<Seq<char>>) -> bool {
    schema_tool(def) is Some && schema_tool(def)->0.schema.properties.len() == count && schema_tool(
        def,
    )->0.schema.required == names
}

/// A definition describes the tool that it was made for.
proof fn lemma_definitions()
    ensures
        forall|name: Seq<char>, text: Seq<char>, properties: JsonView, required: Option<Seq<Seq<char>>>|
            properties is Object ==> schema_tool(#[trigger] definition(name, text, properties, required)) == Some(
                defined_tool(name, text, properties->Object_0, required),
            ) && !is_hidden(definition(name, text, properties, required)),
        forall|name: Seq<char>, text: Seq<char>, properties: JsonView, required: Option<Seq<Seq<char>>>|
            properties is Object ==> schema_tool(#[trigger] hidden_definition(name, text, properties, required))
                == Some(defined_tool(name, text, properties->Object_0, required)) && is_hidden(
                hidden_definition(name, text, properties, required),
            ),
{
    assert forall|name: Seq<char>, text: Seq<char>, properties: JsonView, required: Option<Seq<Seq<char>>>|
        properties is Object implies schema_tool(#[trigger] definition(name, text, properties, required)) == Some(
        defined_tool(name, text, properties->Object_0, required),
    ) && !is_hidden(definition(name, text, properties, required)) by {
        law_definitions_describe_tools(name, text, properties->Object_0, required);
    }
    assert forall|name: Seq<char>, text: Seq<char>, properties: JsonView, required: Option<Seq<Seq<char>>>|
        properties is Object implies schema_tool(#[trigger] hidden_definition(name, text, properties, required))
        == Some(defined_tool(name, text, properties->Object_0, required)) && is_hidden(
        hidden_definition(name, text, properties, required),
    ) by {
        law_definitions_describe_tools(name, text, properties->Object_0, required);
    }
}

/// A parameter has the type that it is described with.
proof fn lemma_types()
    ensures
        forall|kind: Seq<char>, text: Seq<char>| (#[trigger] typed(kind, text)).text_at("type"@) == Some(kind),
        forall|text: Seq<char>| (#[trigger] text_list(text)).text_at("type"@) == Some("array"@),
        forall|first: Seq<char>, second: Seq<char>, text: Seq<char>|
            (#[trigger] choice(first, second, text)).text_at("type"@) == Some("string"@),
{
    reveal_strlit("description");
    reveal_strlit("type");
    reveal_strlit("items");
    reveal_strlit("enum");
    assert("description"@.len() == 11 && "type"@.len() == 4 && "items"@.len() == 5 && "enum"@.len() == 4);
    assert("type"@[0] == 't' && "enum"@[0] == 'e');
    assert forall|kind: Seq<char>, text: Seq<char>| (#[trigger] typed(kind, text)).text_at("type"@) == Some(kind) by {
        lemma_fields_2("description"@, JsonView::Text(text), "type"@, JsonView::Text(kind));
    }
    assert forall|text: Seq<char>| (#[trigger] text_list(text)).text_at("type"@) == Some("array"@) by {
        lemma_fields_3(
            "description"@,
            JsonView::Text(text),
            "items"@,
            JsonView::object().with("type"@, JsonView::Text("string"@)),
            "type"@,
            JsonView::Text("array"@),
        );
    }
    assert forall|first: Seq<char>, second: Seq<char>, text: Seq<char>|
        (#[trigger] choice(first, second, text)).text_at("type"@) == Some("string"@) by {
        lemma_fields_3(
            "description"@,
            JsonView::Text(text),
            "enum"@,
            JsonView::Array(seq![JsonView::Text(first), JsonView::Text(second)]),
            "type"@,
            JsonView::Text("string"@),
        );
    }
}

/// The event tools: what each takes, and what it cannot do without.
pub proof fn law_event_tools_take()
    ensures
        needs(listen_definition(), 3, Seq::empty()),
        takes(listen_definition(), "after"@, "number"@),
        takes(listen_definition(), "timeout_secs"@, "number"@),
        takes(listen_definition(), "topics"@, "array"@),
        needs(emit_definition(), 2, seq!["topic"@, "data"@]),
        takes_any(emit_definition(), "data"@),
        takes(emit_definition(), "topic"@, "string"@),
{
    lemma_definitions();
    lemma_types();
    assert(schema_tool(listen_definition())->0.schema.properties[0].0 == "after"@);
    assert(schema_tool(listen_definition())->0.schema.properties[1].0 == "timeout_secs"@);
    assert(schema_tool(listen_definition())->0.schema.properties[2].0 == "topics"@);
    assert(schema_tool(emit_definition())->0.schema.properties[0].0 == "data"@);
    assert(schema_tool(emit_definition())->0.schema.properties[1].0 == "topic"@);
}

/// The tools of code mode: what each takes, and what it cannot do without.
pub proof fn law_code_tools_take()
    ensures
        needs(run_code_definition(), 1, seq!["script"@]),
        takes(run_code_definition(), "script"@, "string"@),
        needs(describe_tools_definition(), 1, Seq::empty()),
        takes(describe_tools_definition(), "query"@, "string"@),
{
    lemma_definitions();
    lemma_types();
    assert(schema_tool(run_code_definition())->0.schema.properties[0].0 == "script"@);
    assert(schema_tool(describe_tools_definition())->0.schema.properties[0].0 == "query"@);
}

/// The network tools: what each takes, and what it cannot do without.
pub proof fn law_network_tools_take()
    ensures
        needs(network_peers_definition(), 0, Seq::empty()),
        needs(network_tools_definition(), 2, seq!["peer_id"@]),
        takes(network_tools_definition(), "peer_id"@, "string"@),
        takes(network_tools_definition(), "query"@, "string"@),
        needs(network_search_definition(), 1, seq!["query"@]),
        takes(network_search_definition(), "query"@, "string"@),
        needs(network_ping_definition(), 1, seq!["peer_id"@]),
        takes(network_ping_definition(), "peer_id"@, "string"@),
        needs(network_call_definition(), 3, seq!["peer_id"@, "tool"@]),
        takes(network_call_definition(), "arguments"@, "object"@),
        takes(network_call_definition(), "peer_id"@, "string"@),
        takes(network_call_definition(), "tool"@, "string"@),
        needs(network_record_definition(), 1, seq!["peer_id"@]),
        takes(network_record_definition(), "peer_id"@, "string"@),
        needs(network_expose_definition(), 4, seq!["port"@, "name"@]),
        takes(network_expose_definition(), "description"@, "string"@),
        takes(network_expose_definition(), "name"@, "string"@),
        takes(network_expose_definition(), "peers"@, "array"@),
        takes(network_expose_definition(), "port"@, "integer"@),
        needs(network_unexpose_definition(), 1, seq!["name"@]),
        takes(network_unexpose_definition(), "name"@, "string"@),
        needs(network_models_definition(), 1, Seq::empty()),
        takes(network_models_definition(), "peer_id"@, "string"@),
{
    lemma_definitions();
    lemma_types();
    assert(schema_tool(network_tools_definition())->0.schema.properties[0].0 == "peer_id"@);
    assert(schema_tool(network_tools_definition())->0.schema.properties[1].0 == "query"@);
    assert(schema_tool(network_search_definition())->0.schema.properties[0].0 == "query"@);
    assert(schema_tool(network_ping_definition())->0.schema.properties[0].0 == "peer_id"@);
    assert(schema_tool(network_call_definition())->0.schema.properties[0].0 == "arguments"@);
    assert(schema_tool(network_call_definition())->0.schema.properties[1].0 == "peer_id"@);
    assert(schema_tool(network_call_definition())->0.schema.properties[2].0 == "tool"@);
    assert(schema_tool(network_record_definition())->0.schema.properties[0].0 == "peer_id"@);
    assert(schema_tool(network_expose_definition())->0.schema.properties[0].0 == "description"@);
    assert(schema_tool(network_expose_definition())->0.schema.properties[1].0 == "name"@);
    assert(schema_tool(network_expose_definition())->0.schema.properties[2].0 == "peers"@);
    assert(schema_tool(network_expose_definition())->0.schema.properties[3].0 == "port"@);
    assert(schema_tool(network_unexpose_definition())->0.schema.properties[0].0 == "name"@);
    assert(schema_tool(network_models_definition())->0.schema.properties[0].0 == "peer_id"@);
}

/// The tools for jobs: what each takes, and what it cannot do without.
pub proof fn law_job_tools_take()
    ensures
        needs(cron_add_definition(), 3, seq!["label"@, "interval_secs"@]),
        takes_any(cron_add_definition(), "data"@),
        takes(cron_add_definition(), "interval_secs"@, "number"@),
        takes(cron_add_definition(), "label"@, "string"@),
        needs(cron_list_definition(), 0, Seq::empty()),
        needs(cron_remove_definition(), 1, seq!["id"@]),
        takes(cron_remove_definition(), "id"@, "number"@),
{
    lemma_definitions();
    lemma_types();
    assert(schema_tool(cron_add_definition())->0.schema.properties[0].0 == "data"@);
    assert(schema_tool(cron_add_definition())->0.schema.properties[1].0 == "interval_secs"@);
    assert(schema_tool(cron_add_definition())->0.schema.properties[2].0 == "label"@);
    assert(schema_tool(cron_remove_definition())->0.schema.properties[0].0 == "id"@);
}

/// The shell and the tasks: what each takes, and what it cannot do without.
pub proof fn law_general_tools_take()
    ensures
        needs(shell_definition(), 3, seq!["command"@]),
        takes(shell_definition(), "command"@, "string"@),
        takes(shell_definition(), "timeout_secs"@, "number"@),
        takes(shell_definition(), "workdir"@, "string"@),
        needs(spawn_definition(), 2, seq!["tool"@]),
        takes(spawn_definition(), "arguments"@, "object"@),
        takes(spawn_definition(), "tool"@, "string"@),
{
    lemma_definitions();
    lemma_types();
    assert(schema_tool(shell_definition())->0.schema.properties[0].0 == "command"@);
    assert(schema_tool(shell_definition())->0.schema.properties[1].0 == "timeout_secs"@);
    assert(schema_tool(shell_definition())->0.schema.properties[2].0 == "workdir"@);
    assert(schema_tool(spawn_definition())->0.schema.properties[0].0 == "arguments"@);
    assert(schema_tool(spawn_definition())->0.schema.properties[1].0 == "tool"@);
}

/// The memory tools: what each takes, and what it cannot do without.
pub proof fn law_memory_tools_take()
    ensures
        needs(memory_recall_definition(), 2, seq!["query"@]),
        takes(memory_recall_definition(), "limit"@, "number"@),
        takes(memory_recall_definition(), "query"@, "string"@),
        !is_hidden(memory_recall_definition()),
        needs(memory_procedural_definition(), 0, Seq::empty()),
        is_hidden(memory_procedural_definition()),
        needs(memory_append_definition(), 5, seq!["role"@, "content"@]),
        takes(memory_append_definition(), "content"@, "string"@),
        takes(memory_append_definition(), "name"@, "string"@),
        takes(memory_append_definition(), "op"@, "string"@),
        takes(memory_append_definition(), "reason"@, "string"@),
        takes(memory_append_definition(), "role"@, "string"@),
        is_hidden(memory_append_definition()),
        needs(memory_ingest_definition(), 0, Seq::empty()),
        is_hidden(memory_ingest_definition()),
        needs(memory_embed_definition(), 0, Seq::empty()),
        is_hidden(memory_embed_definition()),
{
    lemma_definitions();
    lemma_types();
    assert(schema_tool(memory_recall_definition())->0.schema.properties[0].0 == "limit"@);
    assert(schema_tool(memory_recall_definition())->0.schema.properties[1].0 == "query"@);
    assert(schema_tool(memory_append_definition())->0.schema.properties[0].0 == "content"@);
    assert(schema_tool(memory_append_definition())->0.schema.properties[1].0 == "name"@);
    assert(schema_tool(memory_append_definition())->0.schema.properties[2].0 == "op"@);
    assert(schema_tool(memory_append_definition())->0.schema.properties[3].0 == "reason"@);
    assert(schema_tool(memory_append_definition())->0.schema.properties[4].0 == "role"@);
}

/// The tools for frames: what each takes, and what it cannot do without.
pub proof fn law_frame_tools_take()
    ensures
        needs(ui_render_definition(), 8, Seq::empty()),
        takes(ui_render_definition(), "css"@, "string"@),
        takes(ui_render_definition(), "frame_id"@, "string"@),
        takes(ui_render_definition(), "height"@, "number"@),
        takes(ui_render_definition(), "html"@, "string"@),
        takes(ui_render_definition(), "js"@, "string"@),
        takes(ui_render_definition(), "src"@, "string"@),
        takes(ui_render_definition(), "title"@, "string"@),
        takes(ui_render_definition(), "width"@, "number"@),
        needs(ui_push_definition(), 3, seq!["frame_id"@, "data"@]),
        takes_any(ui_push_definition(), "data"@),
        takes(ui_push_definition(), "frame_id"@, "string"@),
        takes(ui_push_definition(), "selector"@, "string"@),
        needs(ui_snapshot_definition(), 2, seq!["frame_id"@]),
        takes(ui_snapshot_definition(), "format"@, "string"@),
        takes(ui_snapshot_definition(), "frame_id"@, "string"@),
        needs(ui_close_definition(), 1, seq!["frame_id"@]),
        takes(ui_close_definition(), "frame_id"@, "string"@),
{
    lemma_definitions();
    lemma_types();
    assert(schema_tool(ui_render_definition())->0.schema.properties[0].0 == "css"@);
    assert(schema_tool(ui_render_definition())->0.schema.properties[1].0 == "frame_id"@);
    assert(schema_tool(ui_render_definition())->0.schema.properties[2].0 == "height"@);
    assert(schema_tool(ui_render_definition())->0.schema.properties[3].0 == "html"@);
    assert(schema_tool(ui_render_definition())->0.schema.properties[4].0 == "js"@);
    assert(schema_tool(ui_render_definition())->0.schema.properties[5].0 == "src"@);
    assert(schema_tool(ui_render_definition())->0.schema.properties[6].0 == "title"@);
    assert(schema_tool(ui_render_definition())->0.schema.properties[7].0 == "width"@);
    assert(schema_tool(ui_push_definition())->0.schema.properties[0].0 == "data"@);
    assert(schema_tool(ui_push_definition())->0.schema.properties[1].0 == "frame_id"@);
    assert(schema_tool(ui_push_definition())->0.schema.properties[2].0 == "selector"@);
    assert(schema_tool(ui_snapshot_definition())->0.schema.properties[0].0 == "format"@);
    assert(schema_tool(ui_snapshot_definition())->0.schema.properties[1].0 == "frame_id"@);
    assert(schema_tool(ui_close_definition())->0.schema.properties[0].0 == "frame_id"@);
}

/// The tools of the bridge: what each takes, and what it cannot do without.
pub proof fn law_bridge_tools_take()
    ensures
        needs(bridge_network_peers_definition(), 0, Seq::empty()),
        needs(bridge_network_tools_definition(), 1, seq!["peer_id"@]),
        takes(bridge_network_tools_definition(), "peer_id"@, "string"@),
        needs(bridge_network_search_definition(), 1, seq!["query"@]),
        takes(bridge_network_search_definition(), "query"@, "string"@),
        needs(bridge_network_describe_definition(), 2, seq!["peer_id"@, "tool_name"@]),
        takes(bridge_network_describe_definition(), "peer_id"@, "string"@),
        takes(bridge_network_describe_definition(), "tool_name"@, "string"@),
        needs(bridge_network_ping_definition(), 1, seq!["peer_id"@]),
        takes(bridge_network_ping_definition(), "peer_id"@, "string"@),
        needs(bridge_network_call_definition(), 3, seq!["peer_id"@, "tool"@]),
        takes(bridge_network_call_definition(), "arguments"@, "object"@),
        takes(bridge_network_call_definition(), "peer_id"@, "string"@),
        takes(bridge_network_call_definition(), "tool"@, "string"@),
{
    lemma_definitions();
    lemma_types();
    assert(schema_tool(bridge_network_tools_definition())->0.schema.properties[0].0 == "peer_id"@);
    assert(schema_tool(bridge_network_search_definition())->0.schema.properties[0].0 == "query"@);
    assert(schema_tool(bridge_network_describe_definition())->0.schema.properties[0].0 == "peer_id"@);
    assert(schema_tool(bridge_network_describe_definition())->0.schema.properties[1].0 == "tool_name"@);
    assert(schema_tool(bridge_network_ping_definition())->0.schema.properties[0].0 == "peer_id"@);
    assert(schema_tool(bridge_network_call_definition())->0.schema.properties[0].0 == "arguments"@);
    assert(schema_tool(bridge_network_call_definition())->0.schema.properties[1].0 == "peer_id"@);
    assert(schema_tool(bridge_network_call_definition())->0.schema.properties[2].0 == "tool"@);
}

/// The tools for windows: what each takes, and what it cannot do without.
pub proof fn law_window_tools_take()
    ensures
        needs(window_open_definition(), 5, Seq::empty()),
        takes(window_open_definition(), "height"@, "number"@),
        takes(window_open_definition(), "label"@, "string"@),
        takes(window_open_definition(), "title"@, "string"@),
        takes(window_open_definition(), "url"@, "string"@),
        takes(window_open_definition(), "width"@, "number"@),
        needs(window_close_definition(), 1, Seq::empty()),
        takes(window_close_definition(), "label"@, "string"@),
        needs(window_resize_definition(), 3, seq!["width"@, "height"@]),
        takes(window_resize_definition(), "height"@, "number"@),
        takes(window_resize_definition(), "label"@, "string"@),
        takes(window_resize_definition(), "width"@, "number"@),
        needs(window_set_title_definition(), 2, seq!["title"@]),
        takes(window_set_title_definition(), "label"@, "string"@),
        takes(window_set_title_definition(), "title"@, "string"@),
        needs(window_focus_definition(), 1, Seq::empty()),
        takes(window_focus_definition(), "label"@, "string"@),
        needs(window_notify_definition(), 2, seq!["title"@]),
        takes(window_notify_definition(), "body"@, "string"@),
        takes(window_notify_definition(), "title"@, "string"@),
        needs(window_list_definition(), 0, Seq::empty()),
{
    lemma_definitions();
    lemma_types();
    assert(schema_tool(window_open_definition())->0.schema.properties[0].0 == "height"@);
    assert(schema_tool(window_open_definition())->0.schema.properties[1].0 == "label"@);
    assert(schema_tool(window_open_definition())->0.schema.properties[2].0 == "title"@);
    assert(schema_tool(window_open_definition())->0.schema.properties[3].0 == "url"@);
    assert(schema_tool(window_open_definition())->0.schema.properties[4].0 == "width"@);
    assert(schema_tool(window_close_definition())->0.schema.properties[0].0 == "label"@);
    assert(schema_tool(window_resize_definition())->0.schema.properties[0].0 == "height"@);
    assert(schema_tool(window_resize_definition())->0.schema.properties[1].0 == "label"@);
    assert(schema_tool(window_resize_definition())->0.schema.properties[2].0 == "width"@);
    assert(schema_tool(window_set_title_definition())->0.schema.properties[0].0 == "label"@);
    assert(schema_tool(window_set_title_definition())->0.schema.properties[1].0 == "title"@);
    assert(schema_tool(window_focus_definition())->0.schema.properties[0].0 == "label"@);
    assert(schema_tool(window_notify_definition())->0.schema.properties[0].0 == "body"@);
    assert(schema_tool(window_notify_definition())->0.schema.properties[1].0 == "title"@);
}

} // verus!
