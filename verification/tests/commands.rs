//! The command line and the start.
use clawshake::commands::{
    add_manifest, format_age, list_tools, loaded_lines, manifest_path, names_in_snapshot, read_registry_snapshot,
    registry_snapshot, remove_manifest, run_permissions_action, snapshot_lines, tool_counts, truncate, validate_manifest, Heading,
    PermissionsAction,
};
use clawshake::json::Json;
use clawshake::manifest::InvokeConfig;
use clawshake::permissions::{Decision, PermissionStore};
use clawshake::registry::ManifestRegistry;
use clawshake::startup::{
    code_mode_active, detect_code_mode, permissions_changed, prepare_broker, resolve_paths, Backend, BrokerConfig,
    FileEvent, McpArgs,
};

#[test]
fn texts_are_cut_to_fit() {
    assert_eq!(truncate("short", 5), "short");
    assert_eq!(truncate("longer", 5), "long…");
    assert_eq!(truncate("éééé", 3), "éé…");
    assert_eq!(truncate("", 0), "");
    assert_eq!(truncate("ab", 1), "…");
}

#[test]
fn ages_are_told_in_words() {
    assert_eq!(format_age(100, 100), "0s ago");
    assert_eq!(format_age(100, 159), "59s ago");
    assert_eq!(format_age(0, 60), "1m ago");
    assert_eq!(format_age(0, 3599), "59m ago");
    assert_eq!(format_age(0, 7200), "2h ago");
    assert_eq!(format_age(50, 10), "0s ago");
}

fn snapshot() -> Vec<Json> {
    let (at, tools) = read_registry_snapshot(
        r#"{"updated_at":7,"tools":[{"name":"a","description":"A tool","source":"s"},{"x":1}]}"#,
    )
    .unwrap();
    assert_eq!(at, 7);
    tools
}

#[test]
fn snapshots_are_read() {
    assert!(read_registry_snapshot("{").is_none());
    assert!(read_registry_snapshot(r#"{"tools":[]}"#).is_none());
    assert!(read_registry_snapshot(r#"{"updated_at":1}"#).is_none());
    assert_eq!(read_registry_snapshot(r#"{"updated_at":"x","tools":[]}"#).unwrap().0, 0);
    assert_eq!(names_in_snapshot(&snapshot()), ["a"]);
}

#[test]
fn tools_are_listed_as_a_table() {
    let mut store = PermissionStore::new();
    store.set("p2p:*", "a", Decision::Allow, 1);
    let lines = snapshot_lines(&snapshot());
    let heading = Heading::Snapshot { age: "5s ago".to_string() };
    let table = list_tools(&lines, &heading, "/m", &store, false);
    let rows: Vec<&str> = table.lines().collect();
    assert_eq!(rows[0], "(registry snapshot — updated 5s ago)");
    assert_eq!(rows[1], format!("{:<30}  {:<5}  Description", "Name", "Pub"));
    assert_eq!(rows[2], "-".repeat(78));
    assert_eq!(rows[3], format!("{:<30}  {:<5}  A tool", "a", "  ✓"));
    assert_eq!(rows[4], format!("{:<30}  {:<5}  ", "", "  ✗"));
    assert_eq!(
        list_tools(&vec![], &Heading::Offline, "/m", &store, false),
        "No tools registered.\nAdd manifests to /m\n"
    );
    let offline = list_tools(&lines, &Heading::Offline, "/m", &store, false);
    assert!(offline.starts_with("(offline — no registry snapshot found, showing manifest scan)\n"));
}

#[test]
fn tools_are_listed_as_json() {
    let store = PermissionStore::new();
    let text = list_tools(&snapshot_lines(&snapshot()), &Heading::Offline, "/m", &store, true);
    assert!(text.ends_with("]\n"));
    assert_eq!(
        Json::from_text(&text).unwrap().to_text(),
        r#"[{"description":"A tool","name":"a","published":false,"source":"s"},{"description":"","name":"","published":false,"source":""}]"#
    );
}

#[test]
fn tools_are_counted() {
    let mut store = PermissionStore::new();
    store.set("p2p:*", "a", Decision::Allow, 1);
    let names = vec!["a".to_string(), "b".to_string()];
    assert_eq!(tool_counts(&names, Some(&store)), (2, 1));
    assert_eq!(tool_counts(&names, None), (2, 0));
}

#[test]
fn manifests_are_checked() {
    let both = r#"{"version":"1.0","tools":[{"name":"t","description":"does it","invoke":{"type":"cli","command":"c"}}],"mcp":{"transport":"http","url":"http://x"}}"#;
    assert_eq!(
        validate_manifest(both, "/d/f.json", "f").unwrap(),
        "✓ f is valid (version 1.0)\n  1 static tool(s):\n    - t: does it\n  MCP source: http (http://x)\n"
    );
    let server = r#"{"version":"2","mcp":{"transport":"stdio","command":"npx"}}"#;
    assert_eq!(
        validate_manifest(server, "/d/f.json", "f").unwrap(),
        "✓ f is valid (version 2)\n  MCP source: stdio (npx)\n"
    );
    assert_eq!(
        validate_manifest("{", "/d/f.json", "f").unwrap_err(),
        "Invalid manifest JSON in /d/f.json"
    );
    assert_eq!(
        validate_manifest(r#"{"version":"1"}"#, "/d/f.json", "f").unwrap_err(),
        "Manifest /d/f.json has no tools and no mcp source — at least one is required"
    );
}

#[test]
fn manifests_are_installed_and_removed() {
    let server = r#"{"version":"2","mcp":{"transport":"stdio","command":"npx"}}"#;
    let done = add_manifest(server, "/d/f.json", Some("f"), "/m").unwrap();
    assert_eq!(done.dest, "/m/f.json");
    assert_eq!(done.told, "Installed f → /m/f.json\n  + MCP source (dynamic tools)\n");
    assert_eq!(
        add_manifest(server, "/", None, "/m").err().unwrap(),
        "Cannot determine file name from /"
    );
    assert!(add_manifest("{", "/d/f.json", Some("f"), "/m").is_err());
    let other = add_manifest(server, "/tmp/calendar.manifest", Some("calendar"), "/m").unwrap();
    assert_eq!(other.dest, "/m/calendar.json");
    assert_eq!(other.dest, manifest_path("calendar", "/m"));
    assert_eq!(other.told, "Installed calendar → /m/calendar.json\n  + MCP source (dynamic tools)\n");
    assert_eq!(manifest_path("f", "/m"), "/m/f.json");
    assert_eq!(remove_manifest("f", "/m", true).unwrap(), "Removed f (/m/f.json)\n");
    assert_eq!(remove_manifest("f", "/m", false).unwrap_err(), "No manifest named \"f\" in /m");
}

#[test]
fn permissions_are_changed_and_listed() {
    let mut store = PermissionStore::new();
    let rule = |a: &str, t: &str| (a.to_string(), t.to_string());
    assert_eq!(run_permissions_action(&PermissionsAction::List, &mut store, 1), "(no rules)\n");
    let (agent_id, tool_name) = rule("p2p:*", "*");
    assert_eq!(
        run_permissions_action(&PermissionsAction::Allow { agent_id, tool_name }, &mut store, 1),
        "✓ allow  p2p:*  *\n"
    );
    let (agent_id, tool_name) = rule("p2p:*", "shell");
    assert_eq!(
        run_permissions_action(&PermissionsAction::Deny { agent_id, tool_name }, &mut store, 2),
        "✓ deny   p2p:*  shell\n"
    );
    let listing = run_permissions_action(&PermissionsAction::List, &mut store, 3);
    let rows: Vec<&str> = listing.lines().collect();
    assert_eq!(rows[0], format!("{:<12}  {:<40}  tool_name", "decision", "agent_id"));
    assert_eq!(rows[1], "-".repeat(72));
    assert_eq!(rows[2], format!("allow  {:<40}  *", "p2p:*"));
    assert_eq!(rows[3], format!("deny  {:<40}  shell", "p2p:*"));
    let (agent_id, tool_name) = rule("p2p:*", "*");
    assert_eq!(
        run_permissions_action(&PermissionsAction::Remove { agent_id, tool_name }, &mut store, 4),
        "✓ removed  p2p:*  *\n"
    );
    assert_eq!(store.list().len(), 1);
}

#[test]
fn paths_stand_under_the_home_directory() {
    let (manifests, db) = resolve_paths("/home/u");
    assert_eq!(manifests, "/home/u/.clawshake/manifests");
    assert_eq!(db, "/home/u/.clawshake/permissions.db");
    assert_eq!(resolve_paths("/").1, "/.clawshake/permissions.db");
}

#[test]
fn code_mode_needs_a_flag_and_node() {
    assert!(code_mode_active(true, true));
    assert!(!code_mode_active(false, true) && !code_mode_active(true, false));
    let (has_node, active) = detect_code_mode(true);
    assert_eq!(active, has_node);
    assert!(!detect_code_mode(false).1);
}

#[test]
fn brokers_start_with_the_builtin_tools() {
    let config = BrokerConfig {
        manifests_dir: "/m".to_string(),
        db_path: "/d".to_string(),
        port: 7475,
        code_mode: true,
        bridge_available: false,
        memory: false,
    };
    let with_node = prepare_broker(&config, true);
    assert_eq!(with_node.port, 7475);
    assert!(with_node.registry.get("run_code").is_some());
    let without_node: ManifestRegistry = prepare_broker(&config, false).registry;
    assert!(without_node.get("run_code").is_none() && without_node.get("emit").is_some());
    let lines = loaded_lines(&without_node.all());
    assert!(lines.iter().any(|l| l.name == "emit" && l.source == "events"));
}

#[test]
fn flags_choose_the_backend() {
    let args = |port: Option<u16>, cmd: Option<&str>| McpArgs {
        mcp_port: port,
        mcp_cmd: cmd.map(|c| c.to_string()),
    };
    assert!(!args(None, None).is_track1() && args(Some(1), None).is_track1() && args(None, Some("c")).is_track1());
    match args(None, Some("node server.js")).build("me", false) {
        Backend::Stdio { process, label } => {
            assert_eq!(process.args, ["-c", "node server.js"]);
            assert_eq!(label, "me");
        }
        _ => panic!("a process is started"),
    }
    match args(Some(3000), None).build("me", false) {
        Backend::Http(b) => assert_eq!(b.url, "http://127.0.0.1:3000"),
        _ => panic!("a port is used"),
    }
    assert!(matches!(args(None, None).build("me", false), Backend::DiscoveryOnly));
}

#[test]
fn changes_of_the_database_are_seen() {
    let names = |n: &str| vec!["other".to_string(), n.to_string()];
    let db = "permissions.db";
    assert!(permissions_changed(&names("permissions.db"), FileEvent::Modified, db));
    assert!(permissions_changed(&names("permissions.db-wal"), FileEvent::Created, db));
    assert!(!permissions_changed(&names("permissions.db-shm"), FileEvent::Modified, db));
    assert!(!permissions_changed(&names("permissions.db"), FileEvent::Other, db));
    assert!(!permissions_changed(&vec![], FileEvent::Modified, db));
}

#[test]
fn the_registry_is_left_for_the_command_line() {
    let mut registry = ManifestRegistry::new();
    let listed = vec![
        Json::from_text(r#"{"name":"read","description":"reads","inputSchema":{"type":"object"}}"#).unwrap(),
        Json::from_text(r#"{"description":"no name"}"#).unwrap(),
    ];
    registry.register_server_tools(&listed, "files");
    assert_eq!(registry.tool_count(), 1);
    let tool = registry.get("read").unwrap();
    assert_eq!(tool.source, "files");
    assert!(matches!(&tool.tool.invoke, InvokeConfig::Mcp { server_key } if server_key == "files"));
    let text = registry_snapshot(&registry.all(), 40);
    assert_eq!(text, r#"{"tools":[{"description":"reads","name":"read","source":"files"}],"updated_at":40}"#);
    let (at, tools) = read_registry_snapshot(&text).unwrap();
    let lines = snapshot_lines(&tools);
    assert_eq!((at, lines.len()), (40, 1));
    assert_eq!((lines[0].name.as_str(), lines[0].source.as_str()), ("read", "files"));
}
