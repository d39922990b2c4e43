//! Tunnels, MCP clients and the socket of the bridge.
use clawshake::expose::{expose_with_id, handle_connect, handle_unexpose, ExposeTable};
use clawshake::ipc::{read_response, request_line};
use clawshake::json::Json;
use clawshake::mcp_client::{
    initialize_request, initialized_notification, plan_server, tools_call, tools_list, tools_list_request,
    HttpBackend, LineEnd, StdioBackend, StdioSession,
};
use clawshake::mcp_server::call_response;
use clawshake::permissions::{Decision, PermissionStore};
use clawshake::registry::ManifestRegistry;
use clawshake::tunnel::{
    check_ack, forward, forward_result, handle_inbound_tunnel, invalid_peer, no_backend_response, register_tunnel,
    timed_out, tunnel_header, tunnel_offer, unregister_tunnel, Forward, Inbound, TunnelEntry, TunnelTable,
};

fn json(text: &str) -> Json {
    Json::from_text(text).unwrap()
}

fn text(bytes: Vec<u8>) -> String {
    String::from_utf8(bytes).unwrap()
}

#[test]
fn headers_name_their_tunnels() {
    assert_eq!(text(tunnel_header("_rpc")), r#"{"name":"_rpc"}"#);
    let table = TunnelTable::new();
    assert!(matches!(handle_inbound_tunnel(&tunnel_header("_rpc"), "p", &table), Inbound::Rpc));
}

#[test]
fn inbound_tunnels_follow_the_allowlist() {
    let mut table = TunnelTable::new();
    table.insert("open", TunnelEntry { port: 80, peers: None });
    table.insert("closed", TunnelEntry { port: 81, peers: Some(vec!["friend".to_string()]) });
    let at = |header: &[u8], peer: &str| handle_inbound_tunnel(header, peer, &table);
    assert!(matches!(at(&tunnel_header("open"), "any"), Inbound::Splice { port: 80 }));
    assert!(matches!(at(&tunnel_header("closed"), "friend"), Inbound::Splice { port: 81 }));
    match at(&tunnel_header("closed"), "stranger") {
        Inbound::Refused { reason } => {
            assert_eq!(reason, "peer stranger not in allowlist for tunnel 'closed'")
        }
        _ => panic!("strangers are refused"),
    }
    match at(&tunnel_header("none"), "any") {
        Inbound::Failed { reason } => assert_eq!(reason, "no active tunnel for name 'none'"),
        _ => panic!("there is no such tunnel"),
    }
    match at(b"{}", "any") {
        Inbound::Failed { reason } => assert_eq!(reason, "tunnel header missing 'name' field"),
        _ => panic!("the header has no name"),
    }
    match at(b"{", "any") {
        Inbound::Failed { reason } => assert!(reason.starts_with("parsing tunnel header: ")),
        _ => panic!("the header is no JSON"),
    }
}

#[test]
fn acks_accept_or_reject() {
    assert!(check_ack(1).is_ok());
    assert_eq!(check_ack(0), Err("Tunnel rejected by remote bridge".to_string()));
}

fn call_of(tool: &str) -> Vec<u8> {
    format!("{{\"id\":\"abc\",\"jsonrpc\":\"2.0\",\"method\":\"tools/call\",\"params\":{{\"name\":\"{tool}\"}}}}")
        .into_bytes()
}

#[test]
fn peers_call_only_what_they_may() {
    let mut store = PermissionStore::new();
    store.seed_p2p_deny_default(1);
    store.set("p2p:friend", "list_directory", Decision::Allow, 2);
    let friend = "friend".to_string();
    let other = "other".to_string();
    match forward(&call_of("list_directory"), &friend, &store) {
        Forward::Call { request, id, method } => {
            assert_eq!(method, "tools/call");
            assert_eq!(id, Some(json("\"abc\"")));
            assert_eq!(request.get("params"), Some(&json(r#"{"name":"list_directory"}"#)));
        }
        Forward::Reply(r) => panic!("{}", text(r)),
    }
    for (caller, tool) in [(&other, "list_directory"), (&friend, "shell")] {
        match forward(&call_of(tool), caller, &store) {
            Forward::Reply(r) => {
                let r = json(&text(r));
                assert_eq!(r.str_at("id"), Some("abc"));
                let result = r.get("result").unwrap();
                assert_eq!(result.bool_at("isError"), Some(true));
                assert_eq!(
                    result.get("content").unwrap().as_array().unwrap()[0].str_at("text").unwrap(),
                    format!("Permission denied: peer '{caller}' is not allowed to call '{tool}'. The node operator can grant access with: clawshake permissions allow p2p:{caller} {tool}")
                );
            }
            Forward::Call { .. } => panic!("{caller} may not call {tool}"),
        }
    }
    match forward(b"nonsense", &friend, &store) {
        Forward::Reply(r) => assert_eq!(
            text(r),
            r#"{"error":{"code":-32700,"message":"Parse error"},"id":null,"jsonrpc":"2.0"}"#
        ),
        Forward::Call { .. } => panic!("nonsense is no request"),
    }
    match forward(br#"{"id":1,"method":"tools/list"}"#, &friend, &store) {
        Forward::Reply(r) => assert!(text(r).contains("is not allowed to call 'tools/list'")),
        Forward::Call { .. } => panic!("the method is not allowed"),
    }
}

#[test]
fn callers_get_their_identifiers_back() {
    let id = Some(json("\"abc\""));
    assert_eq!(
        text(forward_result(&id, "m", Ok(json(r#"{"id":7,"jsonrpc":"2.0","result":1}"#)))),
        r#"{"id":"abc","jsonrpc":"2.0","result":1}"#
    );
    assert_eq!(
        text(forward_result(&id, "m", Ok(json(r#"{"jsonrpc":"2.0","result":1}"#)))),
        r#"{"id":"abc","jsonrpc":"2.0","result":1}"#
    );
    assert_eq!(text(forward_result(&id, "m", Ok(Json::Null))), r#"{"id":"abc"}"#);
    assert_eq!(text(forward_result(&None, "m", Ok(json("[7]")))), "[7]");
    assert_eq!(
        text(forward_result(&id, "m", Err("down".to_string()))),
        r#"{"error":{"code":-32603,"message":"The local broker failed to process the request for method 'm': down. This may indicate the broker is misconfigured or the tool is unavailable."},"id":"abc","jsonrpc":"2.0"}"#
    );
    assert_eq!(
        text(no_backend_response()),
        r#"{"error":{"code":-32603,"message":"No MCP backend configured on this node"},"id":null,"jsonrpc":"2.0"}"#
    );
}

#[test]
fn connect_answers_open_tunnels() {
    let mut table = ExposeTable::new();
    let mut registry = ManifestRegistry::new();
    expose_with_id(&json(r#"{"port":3000,"name":"web"}"#), "u", &mut table, &mut registry).unwrap();
    let answer = handle_connect("connect_web", &json(r#"{"local_port":8080}"#), &table);
    let response = call_response(&Some(json("5")), "connect_web", &answer);
    let offer = tunnel_offer(&response.to_bytes()).unwrap();
    assert_eq!(offer.name, "web");
    assert_eq!(offer.local_port, Some(8080));
    assert_eq!(offer.bind_address(), "127.0.0.1:8080");
    let opened = json(&text(offer.opened_response(8080)));
    assert_eq!(opened.u64_at("id"), Some(5));
    let content = opened.get("result").unwrap().get("content").unwrap().as_array().unwrap();
    assert_eq!(
        json(content[0].str_at("text").unwrap()),
        json(r#"{"local_port":8080,"local_url":"http://localhost:8080"}"#)
    );
}

#[test]
fn other_responses_open_no_tunnel() {
    let with = |inner: &str| {
        let r = call_response(&None, "t", &Ok(inner.to_string()));
        tunnel_offer(&r.to_bytes())
    };
    assert!(tunnel_offer(b"junk").is_none());
    assert!(tunnel_offer(b"{}").is_none());
    assert!(tunnel_offer(br#"{"result":{"content":[]}}"#).is_none());
    assert!(with("plain text").is_none());
    assert!(with(r#"{"authorized":false,"port":1}"#).is_none());
    assert!(with(r#"{"authorized":true}"#).is_none());
    let offer = with(r#"{"authorized":true,"port":1,"local_port":65537}"#).unwrap();
    assert_eq!(offer.name, "unknown");
    assert_eq!(offer.local_port, Some(1));
    let offer = with(r#"{"authorized":true,"port":1}"#).unwrap();
    assert_eq!(offer.bind_address(), "127.0.0.1:0");
}

#[test]
fn outbound_failures_are_told() {
    assert_eq!(timed_out("p"), "RPC call to p timed out after 60 s");
    assert_eq!(invalid_peer("x", "bad"), "invalid peer_id 'x': bad");
}

#[test]
fn answers_meet_their_requests() {
    let mut session = StdioSession::new();
    let (first, line) = session.call(json(r#"{"id":"theirs","method":"tools/list"}"#));
    assert_eq!(first, 1);
    assert_eq!(line, "{\"id\":1,\"method\":\"tools/list\"}\n");
    let (second, _) = session.call(json(r#"{"method":"ping"}"#));
    assert_eq!(second, 2);
    match session.on_line(" {\"id\":2,\"result\":{}} \r\n") {
        LineEnd::Answer { id, message } => {
            assert_eq!(id, 2);
            assert_eq!(message, json(r#"{"id":2,"result":{}}"#));
        }
        _ => panic!("the second request is answered"),
    }
    assert!(matches!(session.on_line(r#"{"id":2,"result":{}}"#), LineEnd::Dropped));
    assert!(matches!(session.on_line(r#"{"method":"notify"}"#), LineEnd::Dropped));
    assert!(matches!(session.on_line(" \t\u{3000}\n"), LineEnd::Blank));
    assert!(matches!(session.on_line("{"), LineEnd::Bad(_)));
    session.shutdown();
    assert!(matches!(session.on_line(r#"{"id":1}"#), LineEnd::Dropped));
}

#[test]
fn servers_are_introduced_to() {
    assert_eq!(
        initialize_request(4, "me").to_text(),
        r#"{"id":4,"jsonrpc":"2.0","method":"initialize","params":{"capabilities":{},"clientInfo":{"name":"me","version":"0.1.0"},"protocolVersion":"2024-11-05"}}"#
    );
    assert_eq!(
        initialized_notification().to_text(),
        r#"{"jsonrpc":"2.0","method":"notifications/initialized","params":{}}"#
    );
    assert_eq!(
        tools_list_request().to_text(),
        r#"{"id":1,"jsonrpc":"2.0","method":"tools/list","params":{}}"#
    );
    assert_eq!(tools_list(&json(r#"{"result":{"tools":[{"name":"a"}]}}"#)), vec![json(r#"{"name":"a"}"#)]);
    assert!(tools_list(&json(r#"{"result":{}}"#)).is_empty());
    assert!(tools_list(&json("{}")).is_empty());
}

#[test]
fn call_answers_are_read() {
    assert_eq!(
        tools_call(&json(r#"{"result":{"content":[{"text":"a"},{"image":1},{"text":"b"}]}}"#)),
        Ok("a\nb".to_string())
    );
    assert_eq!(
        tools_call(&json(r#"{"result":{"content":[{"text":"no"}],"isError":true}}"#)),
        Err("no".to_string())
    );
    assert_eq!(tools_call(&json("{}")), Ok(String::new()));
    assert_eq!(tools_call(&json(r#"{"error":{"message":"m"}}"#)), Err("MCP error: m".to_string()));
    assert_eq!(tools_call(&json(r#"{"error":{}}"#)), Err("MCP error: unknown MCP error".to_string()));
}

#[test]
fn servers_are_started_through_a_shell() {
    let args = vec!["-y".to_string(), "pkg".to_string()];
    let unix = plan_server("npx", &args, false);
    assert_eq!((unix.program.as_str(), unix.args), ("sh", vec!["-c".to_string(), "npx -y pkg".to_string()]));
    let windows = plan_server("npx", &args, true);
    assert_eq!(windows.program, "cmd");
    assert_eq!(windows.args, ["/C", "npx", "-y", "pkg"]);
    let bridge = StdioBackend::new("node server.js", false);
    assert_eq!(bridge.process.args, ["-c", "node server.js"]);
    assert_eq!(bridge.client_name, "clawshake-bridge");
    assert_eq!(HttpBackend::new(3000).url, "http://127.0.0.1:3000");
}

#[test]
fn socket_requests_are_lines() {
    assert_eq!(
        request_line("network_peers", json("{}")),
        "{\"method\":\"network_peers\",\"params\":{}}\n"
    );
    assert_eq!(read_response(" {\"peers\":[]}\n"), Ok(json(r#"{"peers":[]}"#)));
    assert!(read_response("").unwrap_err().starts_with("parse response JSON: "));
}

#[test]
fn exposed_ports_are_reached_until_unexposed() {
    let mut exposed = ExposeTable::new();
    let mut registry = ManifestRegistry::new();
    let arguments = json(r#"{"port":3000,"name":"web","peers":["p"]}"#);
    let change = expose_with_id(&arguments, "u", &mut exposed, &mut registry).unwrap();
    let mut table = TunnelTable::new();
    register_tunnel(&change.notice, &mut table).unwrap();
    assert!(matches!(handle_inbound_tunnel(&tunnel_header("web"), "p", &table), Inbound::Splice { port: 3000 }));
    assert!(matches!(handle_inbound_tunnel(&tunnel_header("web"), "q", &table), Inbound::Refused { .. }));
    let change = handle_unexpose(&json(r#"{"name":"web"}"#), &mut exposed, &mut registry).unwrap();
    unregister_tunnel(&change.notice, &mut table);
    assert!(matches!(handle_inbound_tunnel(&tunnel_header("web"), "p", &table), Inbound::Failed { .. }));
    let refused = "tunnel_register needs a name and a port";
    assert_eq!(register_tunnel(&json(r#"{"name":"web"}"#), &mut table).unwrap_err(), refused);
    assert_eq!(register_tunnel(&json(r#"{"name":"web","port":65536}"#), &mut table).unwrap_err(), refused);
    assert_eq!(table.len(), 0);
}
