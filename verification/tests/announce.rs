//! Announcements, models, the table of peers and the network tools.
use clawshake::addr::Multiaddr;
use clawshake::announce::{build_record, on_record_found, AnnouncementRecord, ToolAnnounce};
use clawshake::config::{AdvertiseAll, AdvertiseModels, AdvertiseNone};
use clawshake::json::Json;
use clawshake::models::{query_models, ModelAnnounce};
use clawshake::network::{
    call_result, handle, new_connected_peers, tool_definitions, CallEnd, Handled,
};
use clawshake::peer_table::{PeerInfo, PeerSource, PeerTable, ToolSummary};
use clawshake::permissions::{Decision, PermissionStore};

fn json(text: &str) -> Json {
    Json::from_text(text).unwrap()
}

fn make_record() -> AnnouncementRecord {
    AnnouncementRecord {
        v: 2,
        peer_id: "12D3KooWTestPeer".to_string(),
        tools: vec![
            ToolAnnounce {
                name: "tool_a".to_string(),
                description: "First tool".to_string(),
                input_schema: json(r#"{"type": "object"}"#),
            },
            ToolAnnounce {
                name: "tool_b".to_string(),
                description: "Second tool".to_string(),
                input_schema: json(r#"{"type": "object", "properties": {"q": {"type": "string"}}}"#),
            },
        ],
        models: vec![ModelAnnounce {
            name: "llama3".to_string(),
            context_length: Some(8192),
            params: Some("8B".to_string()),
        }],
        description: Some("Test desktop".to_string()),
        addrs: vec![
            "/ip4/1.2.3.4/tcp/7474".to_string(),
            "/ip4/5.6.7.8/tcp/7474".to_string(),
        ],
        ts: 1_700_000_000,
    }
}

#[test]
fn announcement_round_trip() {
    let original = make_record();
    let bytes = original.to_bytes();
    let decoded = AnnouncementRecord::from_bytes(&bytes).unwrap();

    assert_eq!(decoded.v, original.v);
    assert_eq!(decoded.peer_id, original.peer_id);
    assert_eq!(decoded.tools.len(), 2);
    assert_eq!(decoded.tools[0].name, "tool_a");
    assert_eq!(decoded.tools[1].name, "tool_b");
    assert_eq!(decoded.models.len(), 1);
    assert_eq!(decoded.models[0].name, "llama3");
    assert_eq!(decoded.addrs, original.addrs);
    assert_eq!(decoded.ts, original.ts);
    assert_eq!(decoded.description, Some("Test desktop".to_string()));
}

#[test]
fn announcement_to_peer_info() {
    let record = make_record();
    let info = record.to_peer_info();

    assert_eq!(info.peer_id, "12D3KooWTestPeer");
    assert_eq!(info.description, Some("Test desktop".to_string()));
    assert_eq!(info.addrs.len(), 2);
    assert_eq!(info.tools.len(), 2);
    assert_eq!(info.tools[0].name, "tool_a");
    assert_eq!(info.tools[0].description, "First tool");
    assert!(info.tools[1].input_schema.is_some());
    assert_eq!(info.models.len(), 1);
    assert_eq!(info.models[0].name, "llama3");
    assert_eq!(info.source, PeerSource::Libp2p);
    assert_eq!(info.last_seen, 1_700_000_000);

    let raw = info.raw_record.as_ref().expect("raw_record must be Some");
    assert_eq!(
        raw.str_at("peer_id"),
        Some("12D3KooWTestPeer"),
        "raw_record must contain the serialised peer_id"
    );
    assert_eq!(
        raw.get("tools").unwrap().as_array().unwrap()[0].str_at("name"),
        Some("tool_a"),
        "raw_record tools must preserve tool order and names"
    );
}

#[test]
fn v1_record_without_models() {
    let text = r#"{"v":1,"peer_id":"testpeer","tools":[],"addrs":[],"ts":0}"#;
    let record = AnnouncementRecord::from_json(&json(text)).unwrap();
    assert_eq!(record.v, 1);
    assert!(
        record.models.is_empty(),
        "v1 record must default models to []"
    );
    assert!(
        record.description.is_none(),
        "v1 record must default description to None"
    );
}

#[test]
fn announced_tools_default_their_schema() {
    let tool = ToolAnnounce::from_json(&json(r#"{"name":"t"}"#)).unwrap();
    assert_eq!(tool.description, "");
    assert_eq!(tool.input_schema, json(r#"{"type":"object"}"#));
    assert!(ToolAnnounce::from_json(&json(r#"{"description":"no name"}"#)).is_none());
    assert!(ToolAnnounce::from_json(&json(r#"{"name":"t","description":5}"#)).is_none());
}

#[test]
fn records_are_refused_without_their_fields() {
    assert!(AnnouncementRecord::from_bytes(b"not json").is_none());
    assert!(AnnouncementRecord::from_bytes(br#"{"v":1,"peer_id":"p","tools":[],"addrs":[]}"#).is_none());
    assert!(AnnouncementRecord::from_bytes(br#"{"v":256,"peer_id":"p","tools":[],"addrs":[],"ts":0}"#).is_none());
    assert!(AnnouncementRecord::from_bytes(br#"{"v":1,"peer_id":"p","tools":[{}],"addrs":[],"ts":0}"#).is_none());
}

#[test]
fn only_exposed_tools_are_announced() {
    let mut store = PermissionStore::new();
    store.set("p2p:*", "open_tool", Decision::Allow, 7);
    let tools = vec![
        json(r#"{"name":"open_tool","description":"d","inputSchema":{"type":"object","properties":{}}}"#),
        json(r#"{"name":"closed_tool"}"#),
        json(r#"{"description":"nameless"}"#),
    ];
    let addrs = vec![Multiaddr::from_text("/ip4/1.2.3.4/tcp/1").unwrap()];
    let record = build_record("me", &addrs, Some(&tools), &store, vec![], None, 99);
    assert_eq!(record.v, 1);
    assert_eq!(record.ts, 99);
    assert_eq!(record.addrs, vec!["/ip4/1.2.3.4/tcp/1".to_string()]);
    assert_eq!(record.tools.len(), 1);
    assert_eq!(record.tools[0].name, "open_tool");
    assert_eq!(record.tools[0].description, "d");

    let models = vec![ModelAnnounce { name: "m".to_string(), context_length: None, params: None }];
    let record = build_record("me", &addrs, None, &store, models, Some("desk".to_string()), 99);
    assert_eq!(record.v, 2);
    assert!(record.tools.is_empty());
    assert_eq!(record.description.as_deref(), Some("desk"));
}

#[test]
fn found_records_reach_the_table() {
    let mut table = PeerTable::new();
    assert!(!on_record_found(b"{}", &mut table));
    assert!(table.is_empty());
    assert!(on_record_found(&make_record().to_bytes(), &mut table));
    assert_eq!(table.get("12D3KooWTestPeer").unwrap().tools.len(), 2);
}

#[test]
fn model_announce_minimal() {
    let ann = ModelAnnounce {
        name: "codestral:22b".into(),
        context_length: None,
        params: None,
    };
    let json = ann.to_json().to_text();
    assert!(!json.contains("context_length"));
    assert!(!json.contains("params"));
    assert_eq!(json, r#"{"name":"codestral:22b"}"#);
}

#[test]
fn model_announce_full() {
    let ann = ModelAnnounce {
        name: "llama3.1:70b".into(),
        context_length: Some(131072),
        params: Some("70B".into()),
    };
    let text = ann.to_json().to_text();
    assert!(text.contains("131072"));
    assert!(text.contains("70B"));

    let parsed = ModelAnnounce::from_json(&json(&text)).unwrap();
    assert_eq!(ann, parsed);
}

#[test]
fn models_are_advertised_as_configured() {
    let model = |n: &str| ModelAnnounce { name: n.to_string(), context_length: None, params: None };
    let served = vec![model("a"), model("b")];
    assert_eq!(query_models(Some(&served), &AdvertiseModels::All(AdvertiseAll::All)).len(), 2);
    assert_eq!(query_models(Some(&served), &AdvertiseModels::Nothing(AdvertiseNone::Nothing)).len(), 0);
    let chosen = query_models(Some(&served), &AdvertiseModels::List(vec!["b".to_string()]));
    assert_eq!(chosen, vec![model("b")]);
    assert_eq!(query_models(None, &AdvertiseModels::All(AdvertiseAll::All)).len(), 0);
}

fn make_peer(id: &str, tool_count: usize) -> PeerInfo {
    PeerInfo {
        peer_id: id.to_string(),
        description: None,
        addrs: vec!["/ip4/127.0.0.1/tcp/7474".to_string()],
        tools: (0..tool_count)
            .map(|i| ToolSummary {
                name: format!("tool_{i}"),
                description: String::new(),
                input_schema: None,
            })
            .collect(),
        models: vec![],
        source: PeerSource::Libp2p,
        last_seen: 0,
        raw_record: None,
    }
}

#[test]
fn upsert_and_get() {
    let mut table = PeerTable::new();
    table.upsert(make_peer("peer1", 2));
    let info = table.get("peer1").unwrap();
    assert_eq!(info.peer_id, "peer1");
    assert_eq!(info.tools.len(), 2);
    assert_eq!(info.addrs, ["/ip4/127.0.0.1/tcp/7474"]);
}

#[test]
fn upsert_replaces() {
    let mut table = PeerTable::new();
    table.upsert(make_peer("peer1", 1));
    table.upsert(make_peer("peer1", 3));
    assert_eq!(table.get("peer1").unwrap().tools.len(), 3);
}

#[test]
fn remove() {
    let mut table = PeerTable::new();
    table.upsert(make_peer("peer1", 1));
    table.remove("peer1");
    assert!(table.get("peer1").is_none());
}

#[test]
fn all_returns_all_peers() {
    let mut table = PeerTable::new();
    table.upsert(make_peer("a", 0));
    table.upsert(make_peer("b", 0));
    table.upsert(make_peer("c", 0));
    assert_eq!(table.all().len(), 3);
}

#[test]
fn len_and_is_empty() {
    let mut table = PeerTable::new();
    assert!(table.is_empty());
    assert_eq!(table.len(), 0);
    table.upsert(make_peer("peer1", 0));
    assert!(!table.is_empty());
    assert_eq!(table.len(), 1);
}

fn answer(method: &str, params: &str, table: &PeerTable) -> String {
    let mut connected = new_connected_peers();
    connected.insert("p1");
    match handle(method, Some(json(params)), table, &connected, false) {
        Handled::Answer(v) => v.to_text(),
        Handled::Send(_) => panic!("nothing is to be sent"),
    }
}

fn two_peers() -> PeerTable {
    let mut table = PeerTable::new();
    let mut p = make_peer("p1", 0);
    p.tools.push(ToolSummary {
        name: "Play_Song".to_string(),
        description: "Spotify".to_string(),
        input_schema: None,
    });
    p.last_seen = 12;
    table.upsert(p);
    table.upsert(make_peer("p2", 1));
    table
}

#[test]
fn network_tools_answer_from_the_table() {
    let table = two_peers();
    assert_eq!(
        answer("network.peers", "{}", &table),
        concat_peers(),
    );
    assert_eq!(
        answer("network.tools", r#"{"peer_id":"p1"}"#, &table),
        r#"{"peer_id":"p1","tools":[{"description":"Spotify","name":"Play_Song"}]}"#
    );
    assert_eq!(
        answer("network.search", r#"{"query":"PLAY"}"#, &table),
        r#"{"query":"play","results":[{"addrs":["/ip4/127.0.0.1/tcp/7474"],"description":"Spotify","peer_id":"p1","tool_name":"Play_Song"}]}"#
    );
    assert_eq!(
        answer("network.search", r#"{"query":"spotIFY"}"#, &table),
        r#"{"query":"spotify","results":[{"addrs":["/ip4/127.0.0.1/tcp/7474"],"description":"Spotify","peer_id":"p1","tool_name":"Play_Song"}]}"#
    );
    assert_eq!(
        answer("network.search", r#"{"query":"nothing like it"}"#, &table),
        r#"{"query":"nothing like it","results":[]}"#
    );
    assert_eq!(
        answer("network.describe", r#"{"peer_id":"p1","tool_name":"Play_Song"}"#, &table),
        r#"{"description":"Spotify","peer_id":"p1","tool_name":"Play_Song"}"#
    );
    assert_eq!(
        answer("network.ping", r#"{"peer_id":"p1"}"#, &table),
        r#"{"peer_id":"p1","reachable":true}"#
    );
    assert_eq!(
        answer("network.ping", r#"{"peer_id":"p2"}"#, &table),
        r#"{"peer_id":"p2","reachable":false}"#
    );
}

#[test]
fn records_and_models_of_peers_are_answered() {
    let mut table = two_peers();
    let mut p = make_peer("p3", 0);
    p.raw_record = Some(json(r#"{"v":1}"#));
    p.models.push(ModelAnnounce { name: "qwen2.5:7b".to_string(), context_length: Some(8), params: None });
    table.upsert(p);
    assert_eq!(answer("network.record", r#"{"peer_id":"p3"}"#, &table), r#"{"v":1}"#);
    assert_eq!(
        answer("network.record", r#"{"peer_id":"p1"}"#, &table),
        r#"{"error":"peer p1 has announced no record"}"#
    );
    assert_eq!(
        answer("network.record", r#"{"peer_id":"x"}"#, &table),
        r#"{"error":"peer x not found in table"}"#
    );
    assert_eq!(answer("network.record", "{}", &table), r#"{"error":"missing required parameter: peer_id"}"#);
    let model = r#"[{"context_length":8,"id":"qwen2.5:7b@p3","name":"qwen2.5:7b","peer_id":"p3"}]"#;
    assert_eq!(answer("network.models", "{}", &table), model);
    assert_eq!(answer("network.models", r#"{"peer_id":"p3"}"#, &table), model);
    assert_eq!(answer("network.models", r#"{"peer_id":"p1"}"#, &table), "[]");
}

#[test]
fn announcements_may_be_written_by_position() {
    let text = br#"[2,"p",[["t"]],[["m",9]],null,["a"],7]"#;
    let record = AnnouncementRecord::from_bytes(text).unwrap();
    assert_eq!((record.v, record.peer_id.as_str(), record.ts), (2, "p", 7));
    assert_eq!(record.tools[0].input_schema, json(r#"{"type":"object"}"#));
    assert_eq!(record.models[0].context_length, Some(9));
    assert!(AnnouncementRecord::from_bytes(br#"[2,"p",[],[],null,["a"]]"#).is_none());
}

fn concat_peers() -> String {
    let one = r#"{"addrs":["/ip4/127.0.0.1/tcp/7474"],"last_seen":12,"peer_id":"p1","tool_count":1}"#;
    let two = r#"{"addrs":["/ip4/127.0.0.1/tcp/7474"],"last_seen":0,"peer_id":"p2","tool_count":1}"#;
    format!("{{\"peers\":[{one},{two}]}}")
}

#[test]
fn network_tools_name_their_errors() {
    let table = two_peers();
    let missing = |p: &str| format!("{{\"error\":\"missing required parameter: {p}\"}}");
    assert_eq!(answer("network.tools", "{}", &table), missing("peer_id"));
    assert_eq!(answer("network.search", "{}", &table), missing("query"));
    assert_eq!(answer("network.describe", "{}", &table), missing("peer_id"));
    assert_eq!(answer("network.describe", r#"{"peer_id":"p1"}"#, &table), missing("tool_name"));
    assert_eq!(answer("network.ping", "{}", &table), missing("peer_id"));
    assert_eq!(
        answer("network.tools", r#"{"peer_id":"x"}"#, &table),
        r#"{"error":"peer x not found in table"}"#
    );
    assert_eq!(
        answer("network.describe", r#"{"peer_id":"x","tool_name":"t"}"#, &table),
        r#"{"error":"peer x not found in table"}"#
    );
    assert_eq!(
        answer("network.describe", r#"{"peer_id":"p1","tool_name":"t"}"#, &table),
        r#"{"error":"tool t not found on peer p1"}"#
    );
    assert_eq!(
        answer("network.fly", "{}", &table),
        r#"{"error":"unknown network method: network.fly"}"#
    );
    assert_eq!(
        answer("network.call", r#"{"peer_id":"p1","tool":"t"}"#, &table),
        r#"{"error":"network.call: no P2P call channel available"}"#
    );
}

#[test]
fn network_calls_go_out_and_come_back() {
    let table = two_peers();
    let connected = new_connected_peers();
    let params = json(r#"{"peer_id":"p1","tool":"t","arguments":{"a":1}}"#);
    match handle("network.call", Some(params), &table, &connected, true) {
        Handled::Send(c) => {
            assert_eq!(c.peer_id, "p1");
            assert_eq!(
                String::from_utf8(c.request).unwrap(),
                r#"{"id":1,"jsonrpc":"2.0","method":"tools/call","params":{"arguments":{"a":1},"name":"t"}}"#
            );
        }
        Handled::Answer(_) => panic!("the call is to be sent"),
    }
    for (params, text) in [
        ("{}", r#"{"error":"missing required parameter: peer_id"}"#),
        (r#"{"peer_id":"p1"}"#, r#"{"error":"missing required parameter: tool"}"#),
    ] {
        match handle("network.call", Some(json(params)), &table, &connected, true) {
            Handled::Answer(v) => assert_eq!(v.to_text(), text),
            Handled::Send(_) => panic!("nothing is to be sent"),
        }
    }
    let ended = |end: CallEnd| call_result(&end).to_text();
    assert_eq!(ended(CallEnd::Answered(b"{\"ok\":true}".to_vec())), r#"{"ok":true}"#);
    assert!(ended(CallEnd::Answered(b"{".to_vec())).starts_with(r#"{"error":"failed to parse response from peer: "#));
    assert_eq!(ended(CallEnd::Failed("gone".to_string())), r#"{"error":"P2P call failed: gone"}"#);
    assert_eq!(ended(CallEnd::ChannelClosed), r#"{"error":"network.call: P2P call channel closed"}"#);
    assert_eq!(
        ended(CallEnd::ResponseDropped),
        r#"{"error":"network.call: response channel dropped unexpectedly"}"#
    );
}

#[test]
fn bridge_tools_are_defined() {
    let names: Vec<String> =
        tool_definitions().iter().map(|d| d.str_at("name").unwrap().to_string()).collect();
    assert_eq!(
        names,
        [
            "network.peers",
            "network.tools",
            "network.search",
            "network.describe",
            "network.ping",
            "network.call"
        ]
    );
}
