//! Code mode: the shim and the descriptions of tools.
use clawshake::codemode::{
    generate_filtered_shim, generate_shim, invoke_describe_tools, param_hint_from_schema, run_code_program,
    run_code_result, safe_js_ident, ScriptEnd, ShimCache,
};
use clawshake::json::Json;
use clawshake::manifest::{InputSchema, InvokeConfig, Tool};
use clawshake::registry::{LoadedTool, ManifestRegistry};

fn make_loaded_tool(name: &str, source: &str, description: &str) -> LoadedTool {
    LoadedTool {
        tool: Tool {
            name: name.to_string(),
            description: description.to_string(),
            input_schema: Default::default(),
            needs: None,
            invoke: InvokeConfig::InProcess,
        },
        source: source.to_string(),
        hidden: false,
    }
}

fn make_registry(tools: Vec<LoadedTool>) -> ManifestRegistry {
    let mut registry = ManifestRegistry::new();
    for lt in tools {
        registry.register_builtin(lt.tool, &lt.source);
    }
    registry
}

#[test]
fn shim_contains_call_helper() {
    let tools = vec![make_loaded_tool("some_tool", "misc", "does stuff")];
    let shim = generate_shim(7474, &tools);
    assert!(
        shim.full_js.contains("async function _call(name, args)"),
        "shim must define _call: {}",
        shim.full_js
    );
    assert!(shim.full_js.contains("fetch"), "shim must use fetch");
}

#[test]
fn shim_flat_function_names() {
    let tools = vec![
        make_loaded_tool("network_peers", "network", "list peers"),
        make_loaded_tool("network_ping", "network", "ping a peer"),
    ];
    let shim = generate_shim(7474, &tools);
    assert!(
        shim.full_js
            .contains("const network_peers = (args) => _call('network_peers', args);"),
        "flat const declaration expected:\n{}",
        shim.full_js
    );
    assert!(
        shim.full_js
            .contains("const network_ping = (args) => _call('network_ping', args);"),
        "flat const declaration expected:\n{}",
        shim.full_js
    );
    assert!(
        !shim.full_js.contains("const network = {"),
        "must NOT use namespace objects:\n{}",
        shim.full_js
    );
}

#[test]
fn shim_category_summary_flat_names() {
    let tools = vec![
        make_loaded_tool("network_peers", "network", "list peers"),
        make_loaded_tool("network_ping", "network", "ping a peer"),
    ];
    let shim = generate_shim(7474, &tools);
    assert!(
        shim.categories.contains("network (2 tools)"),
        "categories must list tool count:\n{}",
        shim.categories
    );
    assert!(
        shim.categories.contains("network_peers"),
        "categories must show flat tool names:\n{}",
        shim.categories
    );
    assert!(
        !shim.categories.contains("network."),
        "categories must not use dot-notation:\n{}",
        shim.categories
    );
}

#[test]
fn shim_skips_codemode_tools() {
    let tools = vec![
        make_loaded_tool("run_code", "codemode", "run JS"),
        make_loaded_tool("real_tool", "my_source", "a real tool"),
    ];
    let shim = generate_shim(7474, &tools);
    assert!(
        !shim.full_js.contains("run_code"),
        "codemode tools must be skipped:\n{}",
        shim.full_js
    );
    assert!(
        shim.full_js.contains("real_tool"),
        "other tools must be included:\n{}",
        shim.full_js
    );
}

#[test]
fn shim_safe_js_ident() {
    let tools = vec![make_loaded_tool("my-tool", "src", "hyphenated")];
    let shim = generate_shim(7474, &tools);
    assert!(
        shim.full_js.contains("const my_tool ="),
        "hyphen must become underscore in JS ident:\n{}",
        shim.full_js
    );
    assert!(
        shim.full_js.contains("_call('my-tool'"),
        "original MCP name must be preserved in _call:\n{}",
        shim.full_js
    );
}

#[test]
fn describe_tools_no_query_returns_categories() {
    let registry = make_registry(vec![
        make_loaded_tool("mail_send", "mail", "Send mail"),
        make_loaded_tool("notes_create", "notes", "Create note"),
    ]);
    let mut cache = ShimCache::new();
    let output = invoke_describe_tools(None, &mut cache, &registry, 7474);
    assert!(
        output.contains("mail"),
        "should list mail category:\n{output}"
    );
    assert!(
        output.contains("notes"),
        "should list notes category:\n{output}"
    );
}

#[test]
fn describe_tools_with_query_returns_filtered_js() {
    let schema = InputSchema {
        schema_type: "object".to_string(),
        properties: vec![(
            "peer_id".to_string(),
            Json::from_text(r#"{"type": "string"}"#).unwrap(),
        )],
        required: vec!["peer_id".to_string()],
    };
    let network_tool = LoadedTool {
        tool: Tool {
            name: "network_peers".to_string(),
            description: "List peers".to_string(),
            input_schema: schema,
            needs: None,
            invoke: InvokeConfig::InProcess,
        },
        source: "network".to_string(),
        hidden: false,
    };
    let registry = make_registry(vec![
        network_tool,
        make_loaded_tool("mail_send", "mail", "Send mail"),
    ]);
    let mut cache = ShimCache::new();
    let output = invoke_describe_tools(Some("network"), &mut cache, &registry, 7474);
    assert!(
        output.contains("network_peers"),
        "network tool expected:\n{output}"
    );
    assert!(
        !output.contains("mail_send"),
        "mail tool must be filtered out:\n{output}"
    );
    assert!(
        output.contains("peer_id"),
        "@param hint must include the 'peer_id' property name:\n{output}"
    );
}

#[test]
fn describe_tools_no_match_returns_message() {
    let registry = make_registry(vec![make_loaded_tool("mail_send", "mail", "Send mail")]);
    let mut cache = ShimCache::new();
    let output = invoke_describe_tools(Some("nonexistent"), &mut cache, &registry, 7474);
    assert!(
        output.contains("No tools matching"),
        "expected 'No tools matching' message:\n{output}"
    );
}

#[test]
fn queries_match_any_of_their_words() {
    let tools = vec![
        make_loaded_tool("mail_send", "mail", "Send mail"),
        make_loaded_tool("notes_create", "notes", "Create NOTE"),
        make_loaded_tool("other", "misc", "else"),
    ];
    let found = generate_filtered_shim(&tools, "  MAIL\tnote ");
    assert!(found.starts_with("// Use these functions inside run_code's script parameter:\n\n"));
    assert!(found.contains("mail_send") && found.contains("notes_create") && !found.contains("other"));
}

#[test]
fn identifiers_are_safe() {
    assert_eq!(safe_js_ident(""), "_unnamed");
    assert_eq!(safe_js_ident("2fast"), "_2fast");
    assert_eq!(safe_js_ident("a.b-c$d_é"), "a_b_c$d__");
}

#[test]
fn hints_follow_the_schema() {
    assert_eq!(param_hint_from_schema(&InputSchema::default()), "");
    let schema = InputSchema {
        schema_type: "object".to_string(),
        properties: vec![
            ("a".to_string(), Json::from_text(r#"{"type":"string"}"#).unwrap()),
            ("b".to_string(), Json::from_text("{}").unwrap()),
        ],
        required: vec!["a".to_string()],
    };
    let hint = param_hint_from_schema(&schema);
    assert!(hint.contains("a") && hint.contains("b?"), "{hint}");
}

#[test]
fn shims_follow_the_registry() {
    let mut registry = make_registry(vec![make_loaded_tool("one", "s", "d")]);
    let mut cache = ShimCache::new();
    let first = cache.get_or_generate(1, &registry);
    assert!(first.full_js.starts_with("const _BROKER = 'http://127.0.0.1:1';\n"));
    registry.register_builtin(make_loaded_tool("two", "s", "d").tool, "s");
    assert_eq!(first.categories, "- s (1 tools): one\n");
    let second = cache.get_or_generate(1, &registry);
    assert_eq!(second.categories, "- s (2 tools): one, two\n");
    assert!(second.full_js.contains("const two = "));
    cache.invalidate();
    assert_eq!(cache.get_or_generate(1, &registry).categories, "- s (2 tools): one, two\n");
}

#[test]
fn scripts_run_behind_the_shim() {
    let registry = make_registry(vec![make_loaded_tool("one", "s", "d")]);
    let mut cache = ShimCache::new();
    let program = run_code_program("return 1;", &mut cache, &registry, 7474);
    assert!(program.contains("_call('one', args)") && program.contains("return 1;"), "{program}");
    let ended = |success: bool, out: &str, err: &str| {
        run_code_result(&ScriptEnd::Exited {
            success,
            status: "exit status: 1".to_string(),
            stdout: out.as_bytes().to_vec(),
            stderr: err.as_bytes().to_vec(),
        })
    };
    assert!(ended(true, "42\n", "").unwrap().starts_with("42"));
    assert!(ended(false, "", "boom").unwrap_err().contains("boom"));
    assert!(run_code_result(&ScriptEnd::NotStarted {
        node: "node".to_string(),
        error: "no such file".to_string()
    })
    .is_err());
}

#[test]
fn shims_call_the_port_they_are_asked_for() {
    let registry = make_registry(vec![make_loaded_tool("one", "s", "d")]);
    let mut cache = ShimCache::new();
    let first = cache.get_or_generate(7001, &registry);
    assert!(first.full_js.starts_with("const _BROKER = 'http://127.0.0.1:7001';\n"));
    let second = cache.get_or_generate(7002, &registry);
    assert!(second.full_js.starts_with("const _BROKER = 'http://127.0.0.1:7002';\n"));
    assert_eq!(second.categories, first.categories);
    let program = run_code_program("return 1;", &mut cache, &registry, 7003);
    assert!(program.contains("http://127.0.0.1:7003"), "{program}");
}
