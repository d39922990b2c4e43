//! Manifests.
use clawshake::manifest::{InputSchema, InvokeConfig, Manifest, McpSource};

#[test]
fn parse_static_manifest() {
    let json = r#"{"version":"1","tools":[{"name":"test_tool","description":"A test","inputSchema":{"type":"object","properties":{"query":{"type":"string"}},"required":["query"]},"invoke":{"type":"cli","command":"echo","args":["{{query}}"]}}]}"#;
    let m: Manifest = Manifest::from_text(json).unwrap();
    assert_eq!(m.version, "1");
    assert_eq!(m.tools.len(), 1);
    let tool = &m.tools[0];
    assert_eq!(tool.name, "test_tool");
    assert_eq!(tool.description, "A test");
    assert!(tool.input_schema.properties.iter().any(|p| p.0 == "query"));
    assert_eq!(tool.input_schema.required, vec!["query"]);
    match &tool.invoke {
        InvokeConfig::Cli {
            command,
            args,
            shell,
        } => {
            assert_eq!(command, "echo");
            assert_eq!(args, &["{{query}}"]);
            assert!(!shell);
        }
        other => panic!("expected Cli, got {other:?}"),
    }
}

#[test]
fn parse_mcp_source_stdio() {
    let json = r#"{"version":"1","mcp":{"transport":"stdio","command":"npx","args":["-y","some-server"]}}"#;
    let m: Manifest = Manifest::from_text(json).unwrap();
    assert!(m.tools.is_empty());
    match m.mcp.as_ref().unwrap() {
        McpSource::Stdio { command, args } => {
            assert_eq!(command, "npx");
            assert_eq!(args, &["-y", "some-server"]);
        }
        other => panic!("expected Stdio, got {other:?}"),
    }
}

#[test]
fn parse_mcp_source_http() {
    let json =
        r#"{"version":"1","mcp":{"transport":"http","url":"http://localhost:3000/sse"}}"#;
    let m: Manifest = Manifest::from_text(json).unwrap();
    match m.mcp.as_ref().unwrap() {
        McpSource::Http { url } => assert_eq!(url, "http://localhost:3000/sse"),
        other => panic!("expected Http, got {other:?}"),
    }
}

#[test]
fn parse_all_invoke_types() {
    let json = r#"{"version":"1","tools":[
        {"name":"a","description":"","invoke":{"type":"cli","command":"echo"}},
        {"name":"b","description":"","invoke":{"type":"http","url":"https://example.com"}},
        {"name":"c","description":"","invoke":{"type":"deeplink","template":"myapp://{{q}}"}},
        {"name":"d","description":"","invoke":{"type":"apple_script","script":"tell app\"X\""}},
        {"name":"e","description":"","invoke":{"type":"power_shell","script":"Write-Output hi"}}
    ]}"#;
    let m: Manifest = Manifest::from_text(json).unwrap();
    assert_eq!(m.tools.len(), 5);
    assert!(matches!(m.tools[0].invoke, InvokeConfig::Cli { .. }));
    assert!(matches!(m.tools[1].invoke, InvokeConfig::Http { .. }));
    assert!(matches!(m.tools[2].invoke, InvokeConfig::Deeplink { .. }));
    assert!(matches!(
        m.tools[3].invoke,
        InvokeConfig::AppleScript { .. }
    ));
    assert!(matches!(m.tools[4].invoke, InvokeConfig::PowerShell { .. }));
}

#[test]
fn parse_http_invoke_with_headers() {
    let json = r#"{"version":"1","tools":[{"name":"x","description":"",
        "invoke":{"type":"http","url":"https://api.example.com/{{action}}",
        "method":"DELETE","headers":{"Authorization":"Bearer token123"}}}]}"#;
    let m: Manifest = Manifest::from_text(json).unwrap();
    match &m.tools[0].invoke {
        InvokeConfig::Http {
            method, headers, ..
        } => {
            assert_eq!(method.as_deref(), Some("DELETE"));
            assert_eq!(
                headers.iter().find(|h| h.0 == "Authorization").map(|h| h.1.as_str()),
                Some("Bearer token123")
            );
        }
        other => panic!("expected Http, got {other:?}"),
    }
}

#[test]
fn input_schema_defaults() {
    let json = r#"{"version":"1","tools":[{"name":"t","description":"","invoke":{"type":"cli","command":"x"}}]}"#;
    let m: Manifest = Manifest::from_text(json).unwrap();
    let schema = &m.tools[0].input_schema;
    assert_eq!(schema.schema_type, "object");
    assert!(schema.properties.is_empty());
    assert!(schema.required.is_empty());
}

#[test]
fn parse_cli_shell_flag() {
    let with_shell = r#"{"version":"1","tools":[{"name":"t","description":"","invoke":{"type":"cli","command":"x","shell":true}}]}"#;
    let without_shell = r#"{"version":"1","tools":[{"name":"t","description":"","invoke":{"type":"cli","command":"x"}}]}"#;

    let m1: Manifest = Manifest::from_text(with_shell).unwrap();
    let m2: Manifest = Manifest::from_text(without_shell).unwrap();

    match &m1.tools[0].invoke {
        InvokeConfig::Cli { shell, .. } => assert!(shell),
        _ => panic!("expected Cli"),
    }
    match &m2.tools[0].invoke {
        InvokeConfig::Cli { shell, .. } => assert!(!shell),
        _ => panic!("expected Cli"),
    }
}

#[test]
fn bad_manifests_are_refused() {
    assert!(Manifest::from_text("{").is_none());
    assert!(Manifest::from_text(r#"{"tools":[]}"#).is_none());
    assert!(Manifest::from_text(r#"{"version":"1","tools":[{"name":"x","description":""}]}"#).is_none());
    assert!(Manifest::from_text(
        r#"{"version":"1","tools":[{"name":"x","description":"","invoke":{"type":"in_process"}}]}"#
    )
    .is_none());
}

#[test]
fn schema_reads_back() {
    let m = Manifest::from_text(
        r#"{"version":"1","tools":[{"name":"t","description":"","inputSchema":{"type":"object","properties":{"q":{"type":"string"}},"required":["q"]},"invoke":{"type":"cli","command":"x"}}]}"#,
    )
    .unwrap();
    let schema = &m.tools[0].input_schema;
    let again = InputSchema::from_json(&schema.to_json()).unwrap();
    assert_eq!(again.schema_type, "object");
    assert_eq!(again.required, vec!["q"]);
    assert_eq!(again.properties.len(), 1);
}

#[test]
fn only_builtins_run_in_process() {
    assert!(InvokeConfig::InProcess.is_in_process());
    let server = InvokeConfig::Mcp { server_key: "filesystem".to_string() };
    assert!(!server.is_in_process());
}

#[test]
fn links_and_scripts_have_two_spellings() {
    let text = r#"{"version":"1.0","tools":[
        {"name":"spotify_play","description":"Play a track on Spotify",
         "inputSchema":{"type":"object","properties":{"query":{"type":"string"}},"required":["query"]},
         "invoke":{"type":"deeplink","url":"spotify:search:{{query}}"}},
        {"name":"d","description":"","invoke":{"type":"applescript","script":"beep"}},
        {"name":"e","description":"","invoke":{"type":"powershell","script":"Write-Output hi"}}
    ]}"#;
    let m = Manifest::from_text(text).unwrap();
    match &m.tools[0].invoke {
        InvokeConfig::Deeplink { template } => assert_eq!(template, "spotify:search:{{query}}"),
        other => panic!("expected Deeplink, got {other:?}"),
    }
    assert!(matches!(m.tools[1].invoke, InvokeConfig::AppleScript { .. }));
    assert!(matches!(m.tools[2].invoke, InvokeConfig::PowerShell { .. }));
    let neither = r#"{"version":"1","tools":[{"name":"c","description":"","invoke":{"type":"deeplink"}}]}"#;
    assert!(Manifest::from_text(neither).is_none());
}

#[test]
fn records_may_be_written_by_position() {
    let text = r#"["1",[["t","d",{},null,["cli","echo",["a"]]],["u","d",["object",{"q":1},["q"]],null,["http","u"]]],["stdio","npx"]]"#;
    let m = Manifest::from_text(text).unwrap();
    assert_eq!((m.version.as_str(), m.tools.len()), ("1", 2));
    match &m.tools[0].invoke {
        InvokeConfig::Cli { command, args, shell } => {
            assert_eq!((command.as_str(), args.len(), *shell), ("echo", 1, false));
        }
        other => panic!("expected Cli, got {other:?}"),
    }
    assert_eq!(m.tools[1].input_schema.required, vec!["q"]);
    assert!(matches!(m.mcp, Some(McpSource::Stdio { .. })));
    assert!(Manifest::from_text(r#"["1",[]]"#).is_none());
    assert!(Manifest::from_text(r#"["1",[],null,null]"#).is_none());
    assert!(Manifest::from_text(r#"["1",[],[]]"#).is_none());
    assert!(Manifest::from_text(r#"["1",[],["stdio"]]"#).is_none());
}
