//! The MCP server, the router and the HTTP endpoints.
use clawshake::auth::{check_access, form_token, handle_login_post, Access, Credentials, LoginAnswer};
use clawshake::builtins::register;
use clawshake::event_queue::EventQueue;
use clawshake::http::{endpoint_of, events_handler, list_changed, message_status, open_session, EventBody};
use clawshake::json::Json;
use clawshake::manifest::Manifest;
use clawshake::mcp_server::{call_response, handle_line, handle_text, response_line, tools_list, McpStep};
use clawshake::permissions::{Decision, PermissionStore};
use clawshake::registry::{FileChange, ManifestRegistry};
use clawshake::router::{dispatch, find_handler, invoke_reply, invoke_request, Handler, InvokeBody, Platform, Work};
use clawshake::table::NameSet;

fn json(text: &str) -> Json {
    Json::from_text(text).unwrap()
}

fn builtins(code_mode: bool, bridge: bool, memory: bool) -> ManifestRegistry {
    let mut registry = ManifestRegistry::new();
    register(&mut registry, code_mode, bridge, memory);
    registry
}

fn reply(step: McpStep) -> String {
    match step {
        McpStep::Reply(v) => v.to_text(),
        McpStep::Silent => panic!("an answer is due"),
        McpStep::Call { .. } => panic!("no call is due"),
    }
}

fn listed(registry: &ManifestRegistry, code_mode: bool) -> Vec<String> {
    tools_list(registry, code_mode)
        .get("tools")
        .unwrap()
        .as_array()
        .unwrap()
        .iter()
        .map(|t| t.str_at("name").unwrap().to_string())
        .collect()
}

#[test]
fn requests_are_answered() {
    let registry = builtins(false, false, false);
    assert_eq!(
        reply(handle_text(r#"{"id":1,"jsonrpc":"2.0","method":"initialize"}"#, &registry, false)),
        r#"{"id":1,"jsonrpc":"2.0","result":{"capabilities":{"tools":{}},"protocolVersion":"2024-11-05","serverInfo":{"name":"clawshake-broker","version":"0.1.0"}}}"#
    );
    assert_eq!(
        reply(handle_text(r#"{"id":"p","method":"ping"}"#, &registry, false)),
        r#"{"id":"p","jsonrpc":"2.0","result":{}}"#
    );
    assert_eq!(
        reply(handle_text(r#"{"id":2,"method":"fly"}"#, &registry, false)),
        r#"{"error":{"code":-32601,"message":"Method not found: fly"},"id":2,"jsonrpc":"2.0"}"#
    );
    assert_eq!(
        reply(handle_text(r#"{"id":3,"method":"tools/call","params":{}}"#, &registry, false)),
        r#"{"error":{"code":-32602,"message":"tools/call requires {name, arguments}"},"id":3,"jsonrpc":"2.0"}"#
    );
    assert!(reply(handle_text("{", &registry, false)).contains("\"code\":-32700"));
    assert!(reply(handle_text("{}", &registry, false)).contains("Parse error: missing field `method`"));
    for method in ["notifications/initialized", "notifications/cancelled"] {
        let text = format!("{{\"method\":\"{method}\"}}");
        assert!(matches!(handle_text(&text, &registry, false), McpStep::Silent));
    }
    assert!(matches!(handle_line(" \n", &registry, false), McpStep::Silent));
    assert_eq!(
        reply(handle_line(" {\"id\":1,\"method\":\"ping\"}\r\n", &registry, false)),
        r#"{"id":1,"jsonrpc":"2.0","result":{}}"#
    );
    assert_eq!(response_line(&json("{}")), "{}\n");
}

#[test]
fn tool_calls_are_answered_in_their_result() {
    let registry = builtins(false, false, false);
    match handle_text(
        r#"{"id":4,"method":"tools/call","params":{"name":"emit","arguments":{"topic":"t"}}}"#,
        &registry,
        false,
    ) {
        McpStep::Call { id, name, arguments } => {
            assert_eq!((id, name.as_str()), (Some(json("4")), "emit"));
            assert_eq!(arguments, json(r#"{"topic":"t"}"#));
        }
        _ => panic!("a tool is called"),
    }
    assert_eq!(
        call_response(&Some(json("4")), "emit", &Ok("done".to_string())).to_text(),
        r#"{"id":4,"jsonrpc":"2.0","result":{"content":[{"text":"done","type":"text"}],"isError":false}}"#
    );
    assert_eq!(
        call_response(&None, "emit", &Err("no".to_string())).to_text(),
        r#"{"id":null,"jsonrpc":"2.0","result":{"content":[{"text":"Tool 'emit': no","type":"text"}],"isError":true}}"#
    );
}

#[test]
fn listings_show_what_is_shown() {
    let plain = listed(&builtins(false, false, false), false);
    for name in ["emit", "listen", "shell", "spawn", "cron_add", "ui_render"] {
        assert!(plain.iter().any(|n| n == name), "{name} is always there");
    }
    assert!(!plain.iter().any(|n| n.starts_with("network_") || n.starts_with("memory_") || n == "run_code"));
    let networked = listed(&builtins(false, true, false), false);
    assert!(networked.iter().any(|n| n == "network_call"));
    let coding = listed(&builtins(true, true, true), true);
    assert_eq!(coding, ["describe_tools", "run_code"]);
    let remembering = builtins(false, false, true);
    let shown = listed(&remembering, false);
    let mut hidden = 0;
    for t in remembering.all() {
        if t.hidden {
            hidden += 1;
            assert!(!shown.iter().any(|n| *n == t.tool.name));
        }
    }
    assert!(hidden > 0);
}

#[test]
fn manifests_come_and_go() {
    let mut registry = ManifestRegistry::new();
    let manifest = |name: &str| {
        Manifest::from_text(&format!(
            "{{\"version\":\"1\",\"tools\":[{{\"name\":\"{name}\",\"description\":\"\",\"invoke\":{{\"type\":\"cli\",\"command\":\"echo\"}}}}]}}"
        ))
    };
    registry.handle_event("file", &FileChange::Written(manifest("old")));
    assert!(registry.get("old").is_some());
    registry.handle_event("file", &FileChange::Written(manifest("new")));
    assert!(registry.get("old").is_none() && registry.get("new").is_some());
    registry.handle_event("file", &FileChange::Written(None));
    registry.handle_event("file", &FileChange::Other);
    assert_eq!(registry.tool_count(), 1);
    registry.handle_event("other", &FileChange::Removed);
    assert_eq!(registry.tool_count(), 1);
    registry.handle_event("file", &FileChange::Removed);
    assert_eq!(registry.tool_count(), 0);
}

#[test]
fn builtin_tools_have_handlers() {
    assert_eq!(find_handler("emit", false), Ok(Handler::Emit));
    assert_eq!(find_handler("connect_db", false), Ok(Handler::Connect));
    assert_eq!(find_handler("network_peers", false), Ok(Handler::Network));
    assert_eq!(find_handler("memory_recall", true), Ok(Handler::MemoryRecall));
    assert_eq!(
        find_handler("memory_recall", false),
        Err("memory subsystem is disabled (no [memory] config)".to_string())
    );
    assert_eq!(find_handler("memory_x", true), Err("unknown memory tool 'memory_x'".to_string()));
    assert_eq!(
        find_handler("mystery", true),
        Err("in-process tool 'mystery' has no registered handler in the router".to_string())
    );
}

#[test]
fn local_calls_are_checked_and_planned() {
    let mut registry = ManifestRegistry::new();
    registry.load_manifest(
        &Manifest::from_text(
            r#"{"version":"1","tools":[
                {"name":"say","description":"","invoke":{"type":"cli","command":"echo","args":["{{text}}"]}},
                {"name":"open","description":"","invoke":{"type":"deeplink","template":"x:{{q}}"}},
                {"name":"script","description":"","invoke":{"type":"apple_script","script":"beep"}}]}"#,
        )
        .unwrap(),
        "file",
    );
    let servers = NameSet::new();
    let mut store = PermissionStore::new();
    let mut call = |name: &str, args: &str, store: &mut PermissionStore| {
        dispatch(name, &json(args), store, &registry, &servers, false, Platform::Other, 7)
    };
    match call("say", r#"{"text":"hi"}"#, &mut store) {
        Ok(Work::Run { command, process }) => {
            assert_eq!(command, "echo");
            assert_eq!((process.program.as_str(), process.args), ("echo", vec!["hi".to_string()]));
        }
        _ => panic!("a command is run"),
    }
    // A local caller who would be asked is allowed from then on.
    let rows = store.list();
    assert_eq!(rows.len(), 1);
    assert_eq!((rows[0].agent_id.as_str(), rows[0].resource.as_str()), ("local", "say"));
    assert_eq!((rows[0].decision, rows[0].granted_at), (Decision::Allow, Some(7)));
    match call("open", r#"{"q":"y"}"#, &mut store) {
        Ok(Work::Open(url)) => assert_eq!(url, "x:y"),
        _ => panic!("a link is opened"),
    }
    assert_eq!(
        call("script", "{}", &mut store).err().unwrap(),
        "AppleScript tools are only supported on macOS. This tool cannot run on the current platform."
    );
    assert_eq!(
        call("gone", "{}", &mut store).err().unwrap(),
        "no tool with this name is registered on the node. Re-check available tools via tools/list."
    );
    store.set("local", "say", Decision::Deny, 8);
    assert_eq!(call("say", "{}", &mut store).err().unwrap(), "Permission denied: 'say'");
}

#[test]
fn invocations_are_read_and_answered() {
    let body = |arguments: &str| Ok(InvokeBody { tool: "t".to_string(), arguments: json(arguments) });
    assert_eq!(invoke_request(body(r#"{"a":1}"#)).unwrap(), ("t".to_string(), json(r#"{"a":1}"#)));
    assert_eq!(invoke_request(body("[1]")).unwrap().1, json("{}"));
    assert_eq!(invoke_request(body("null")).unwrap().1, json("{}"));
    assert_eq!(
        invoke_request(Err("missing field `tool` at line 1 column 2".to_string())).unwrap_err(),
        "Bad request: missing field `tool` at line 1 column 2"
    );
    assert_eq!(invoke_reply(&Ok("x".to_string())).to_text(), r#"{"is_error":false,"result":"x"}"#);
    assert_eq!(invoke_reply(&Err("x".to_string())).to_text(), r#"{"is_error":true,"result":"x"}"#);
}

fn access(path: &str, auth: Option<&str>, cookie: Option<&str>, accept: Option<&str>) -> Access {
    check_access(
        &Credentials { path, authorization: auth, cookie, accept },
        Some("secret"),
    )
}

#[test]
fn only_bearers_of_the_token_pass() {
    let open = Credentials { path: "/", authorization: None, cookie: None, accept: None };
    assert_eq!(check_access(&open, None), Access::Pass);
    assert_eq!(access("/ui/login", None, None, None), Access::Pass);
    assert_eq!(access("/", Some("Bearer secret"), None, None), Access::Pass);
    assert_eq!(access("/", Some("Bearer Secret"), None, None), Access::Unauthorized);
    assert_eq!(access("/", Some("secret"), None, None), Access::Unauthorized);
    assert_eq!(access("/", None, Some("a=b; __clawshake_session=secret"), None), Access::Pass);
    assert_eq!(access("/", None, Some("__clawshake_session=other"), None), Access::Unauthorized);
    assert_eq!(access("/", None, Some("__clawshake_sessionsecret"), None), Access::Unauthorized);
    assert_eq!(access("/", None, Some("__clawshake_session2=secret"), None), Access::Unauthorized);
    assert_eq!(access("/", None, Some("__clawshake_session==secret"), None), Access::Unauthorized);
    assert_eq!(access("/ui", None, None, Some("text/html,*/*")), Access::ToLogin);
    assert_eq!(access("/mcp", None, None, Some("application/json")), Access::Unauthorized);
}

#[test]
fn logins_set_the_cookie() {
    assert_eq!(form_token("a=1&token=x+y%26z%3D"), Some("x y&z=".to_string()));
    assert_eq!(form_token("a=1"), None);
    assert_eq!(form_token("token=%2Fa%3d"), Some("%2Fa%3d".to_string()));
    assert_eq!(form_token("token=100%&x"), Some("100%".to_string()));
    assert_eq!(form_token("token=1&token=2"), Some("2".to_string()));
    match handle_login_post("token=secret") {
        LoginAnswer::Welcome { cookie } => {
            assert_eq!(
                cookie,
                "__clawshake_session=secret; Path=/; HttpOnly; SameSite=Strict; Max-Age=31536000"
            );
            let sent = cookie.split(';').next().unwrap();
            assert_eq!(access("/", None, Some(sent), None), Access::Pass);
        }
        LoginAnswer::MissingToken => panic!("there is a token"),
    }
    assert!(matches!(handle_login_post("x"), LoginAnswer::MissingToken));
}

#[test]
fn sessions_take_messages() {
    let mut sessions = NameSet::new();
    let (id, data) = open_session(&mut sessions);
    assert_eq!(data, endpoint_of(&id));
    assert_eq!(data, format!("/messages?sessionId={id}"));
    assert_eq!(message_status(Some(&id), &sessions), 202);
    assert_eq!(message_status(Some("other"), &sessions), 404);
    assert_eq!(message_status(None, &sessions), 400);
    assert_eq!(list_changed(), r#"{"jsonrpc":"2.0","method":"notifications/tools/list_changed"}"#);
}

#[test]
fn events_are_posted() {
    let mut queue = EventQueue::new();
    let post = |source: Option<&str>| {
        Ok(EventBody { topic: "t".to_string(), data: json(r#"{"a":1}"#), source: source.map(str::to_string) })
    };
    let (status, answer) = events_handler(post(None), &mut queue, "9");
    assert_eq!((status, answer.to_text().as_str()), (200, r#"{"id":1,"ok":true}"#));
    events_handler(post(Some("bot")), &mut queue, "9");
    let (events, _) = queue.wait_for(&vec![], 0, false).unwrap();
    assert_eq!((events[0].topic.as_str(), events[0].source.as_str()), ("t", "webhook"));
    assert_eq!((events[1].data.to_text().as_str(), events[1].source.as_str()), (r#"{"a":1}"#, "bot"));
    let (status, answer) = events_handler(Err("EOF".to_string()), &mut queue, "9");
    assert_eq!(status, 400);
    assert_eq!(answer.to_text(), r#"{"error":"Bad request: EOF","ok":false}"#);
    assert_eq!(queue.len(), 2);
}
