//! Configuration: defaults, reading and command-line overrides.
use clawshake::config::{config_dir, config_file, config_path, load, AdvertiseModels, Config, SandboxNetworkPolicy};

#[test]
fn default_config() {
    let c = Config::default();
    assert!(c.network.bootstrap.is_empty());
    assert!(c.models.endpoint.is_none());
    assert_eq!(c.models.proxy_port, 11435);
    assert!(c.models.advertise.is_none());
}

#[test]
fn parse_full_config() {
    let toml = r#"
[network]
bootstrap = ["/ip4/1.2.3.4/tcp/7474/p2p/12D3KooWabc"]

[models]
endpoint = "http://127.0.0.1:11434"
advertise = "all"
proxy_port = 12345
"#;
    let c: Config = Config::from_toml(toml).unwrap();
    assert_eq!(
        c.network.bootstrap,
        ["/ip4/1.2.3.4/tcp/7474/p2p/12D3KooWabc"]
    );
    assert_eq!(c.models.endpoint.as_deref(), Some("http://127.0.0.1:11434"));
    // Use a non-default value so the assertion fails if TOML parsing is
    // silently skipping the key and returning the default (11435) instead.
    assert_eq!(c.models.proxy_port, 12345);
    assert!(matches!(c.models.advertise, AdvertiseModels::All(_)));
}

#[test]
fn parse_advertise_list() {
    let toml = r#"
[models]
endpoint = "http://localhost:11434"
advertise = ["llama3", "codellama"]
"#;
    let c: Config = Config::from_toml(toml).unwrap();
    match &c.models.advertise {
        AdvertiseModels::List(names) => {
            assert_eq!(names, &["llama3", "codellama"]);
        }
        other => panic!("expected List, got {other:?}"),
    }
}

#[test]
fn parse_advertise_none() {
    let toml = r#"
[models]
endpoint = "http://localhost:11434"
advertise = "none"
"#;
    let c: Config = Config::from_toml(toml).unwrap();
    assert!(matches!(c.models.advertise, AdvertiseModels::Nothing(_)));
}

#[test]
fn parse_minimal_config() {
    let c: Config = Config::from_toml("").unwrap();
    assert!(c.network.bootstrap.is_empty());
    assert!(c.models.endpoint.is_none());
    // proxy_port default must be 11435; a change to the Default impl
    // would silently break the model proxy without this assertion.
    assert_eq!(
        c.models.proxy_port, 11435,
        "default proxy_port must be 11435"
    );
    assert!(
        c.models.advertise.is_none(),
        "default advertise must be None"
    );
    // Tools defaults.
    assert_eq!(c.tools.shell.default_timeout_secs, 30);
    assert_eq!(c.tools.shell.max_output_bytes, 1_048_576);
    assert!(c.tools.shell.blocked_patterns.is_empty());
}

#[test]
fn parse_tools_config() {
    let toml = r#"
[tools.shell]
blocked_patterns = ["custom_danger"]
default_timeout_secs = 60
max_output_bytes = 2097152
"#;
    let c: Config = Config::from_toml(toml).unwrap();
    assert_eq!(c.tools.shell.blocked_patterns, ["custom_danger"]);
    assert_eq!(c.tools.shell.default_timeout_secs, 60);
    assert_eq!(c.tools.shell.max_output_bytes, 2_097_152);
}

// ── Sandbox config tests ──────────────────────────────────────────

#[test]
fn default_sandbox() {
    let c = Config::default();
    assert!(!c.sandbox.enabled);
    assert_eq!(c.sandbox.network, SandboxNetworkPolicy::NoAccess);
    assert_eq!(c.sandbox.memory_bytes, 0);
    assert_eq!(c.sandbox.timeout_secs, 0);
    assert!(c.sandbox.read_only_mounts.is_empty());
}

#[test]
fn parse_sandbox_config() {
    let toml = r#"
[sandbox]
enabled = true
network = "outbound_only"
memory_bytes = 536870912
timeout_secs = 300
read_only_mounts = ["/usr/share/ca-certificates"]
"#;
    let c: Config = Config::from_toml(toml).unwrap();
    assert!(c.sandbox.enabled);
    assert_eq!(c.sandbox.network, SandboxNetworkPolicy::OutboundOnly);
    assert_eq!(c.sandbox.memory_bytes, 536_870_912);
    assert_eq!(c.sandbox.timeout_secs, 300);
    assert_eq!(
        c.sandbox.read_only_mounts,
        ["/usr/share/ca-certificates"]
    );
}

#[test]
fn parse_sandbox_network_allow() {
    let toml = r#"
[sandbox]
network = "allow"
"#;
    let c: Config = Config::from_toml(toml).unwrap();
    assert_eq!(c.sandbox.network, SandboxNetworkPolicy::Allow);
}

// ── Network config tests ──────────────────────────────────────────

#[test]
fn parse_network_listen_port() {
    let toml = r#"
[network]
listen_port = 9999
relay_server = true
identity_path = "/tmp/test.key"
"#;
    let c: Config = Config::from_toml(toml).unwrap();
    assert_eq!(c.network.listen_port, Some(9999));
    assert!(c.network.relay_server);
    assert_eq!(
        c.network.identity_path,
        Some("/tmp/test.key".to_string())
    );
}

// ── CLI override merging tests ────────────────────────────────────

#[test]
fn apply_p2p_overrides_port() {
    let mut c = Config::default();
    // 0 means "not specified" — should not override.
    c.network.listen_port = Some(8888);
    c.apply_p2p_overrides(0, &[], false, None);
    assert_eq!(c.network.listen_port, Some(8888));
    // Non-zero overrides.
    c.apply_p2p_overrides(9999, &[], false, None);
    assert_eq!(c.network.listen_port, Some(9999));
}

#[test]
fn apply_p2p_overrides_boot_peers() {
    let mut c = Config::default();
    c.network.bootstrap = vec!["old".into()];
    // Empty CLI list leaves config intact.
    c.apply_p2p_overrides(0, &[], false, None);
    assert_eq!(c.network.bootstrap, ["old"]);
    // Non-empty replaces entirely.
    c.apply_p2p_overrides(0, &["new1".into(), "new2".into()], false, None);
    assert_eq!(c.network.bootstrap, ["new1", "new2"]);
}

#[test]
fn apply_p2p_overrides_relay_and_identity() {
    let mut c = Config::default();
    assert!(!c.network.relay_server);
    assert!(c.network.identity_path.is_none());

    c.apply_p2p_overrides(0, &[], true, Some("/k.key"));
    assert!(c.network.relay_server);
    assert_eq!(
        c.network.identity_path,
        Some("/k.key".to_string())
    );
}

// ── effective_p2p_port tests ──────────────────────────────────────

#[test]
fn effective_p2p_port_explicit() {
    let mut c = Config::default();
    c.network.listen_port = Some(5555);
    assert_eq!(c.effective_p2p_port(7474), 5555);
}

#[test]
fn effective_p2p_port_relay_default() {
    let mut c = Config::default();
    c.network.relay_server = true;
    // No explicit port + relay_server → relay default.
    assert_eq!(c.effective_p2p_port(7474), 7474);
}

#[test]
fn effective_p2p_port_random() {
    let c = Config::default();
    // No port, no relay → 0 (random).
    assert_eq!(c.effective_p2p_port(7474), 0);
}

// ── More ──────────────────────────────────────────────────────────────

#[test]
fn bad_documents_are_refused() {
    // Not TOML, a value of the wrong type, a port out of range, an unknown word.
    assert!(Config::from_toml("[network").is_none());
    assert!(Config::from_toml("[network]\nrelay_server = 3\n").is_none());
    assert!(Config::from_toml("[network]\nlisten_port = 65536\n").is_none());
    assert!(Config::from_toml("[sandbox]\nnetwork = \"sometimes\"\n").is_none());
    assert!(Config::from_toml("[models]\nadvertise = \"some\"\n").is_none());
}

#[test]
fn empty_document_is_the_default() {
    let read = Config::from_toml("").unwrap();
    let default = Config::default();
    assert_eq!(format!("{read:?}"), format!("{default:?}"));
}

#[test]
fn config_paths() {
    assert_eq!(config_dir(Some("/home/a")), Some("/home/a/.clawshake".to_string()));
    assert_eq!(config_path(Some("/home/a")), Some("/home/a/.clawshake/config.toml".to_string()));
    assert_eq!(config_path(None), None);
    assert_eq!(config_file(Some("/x.toml"), Some("/home/a")), Some("/x.toml".to_string()));
    assert_eq!(config_file(None, Some("/home/a")), Some("/home/a/.clawshake/config.toml".to_string()));
}

#[test]
fn an_endpoint_enables_models() {
    assert!(!Config::default().models.is_enabled());
    let c = Config::from_toml("[models]\nendpoint = \"http://127.0.0.1:11434\"\n").unwrap();
    assert!(c.models.is_enabled());
}

#[test]
fn config_round_trip() {
    let original = Config::default();
    let toml_str = original.to_toml().unwrap();
    let parsed: Config = Config::from_toml(&toml_str).unwrap();
    assert_eq!(parsed.models.proxy_port, original.models.proxy_port);
    assert_eq!(parsed.sandbox.enabled, original.sandbox.enabled);
    assert_eq!(parsed.sandbox.network, original.sandbox.network);
    assert_eq!(
        parsed.tools.shell.default_timeout_secs,
        original.tools.shell.default_timeout_secs
    );
}

#[test]
fn every_setting_round_trips() {
    let mut c = Config::default();
    c.network.description = Some("it's a \"test\" \\ node".to_string());
    c.network.bootstrap = vec!["/ip4/1.2.3.4/tcp/1".to_string(), String::new()];
    c.network.listen_port = Some(65535);
    c.network.relay_server = true;
    c.network.identity_path = Some("C:\\keys\\id.key".to_string());
    c.models.endpoint = Some("http://127.0.0.1:11434".to_string());
    c.models.advertise = AdvertiseModels::List(vec!["llama3".to_string()]);
    c.tools.shell.blocked_patterns = vec!["rm '\"x\"'".to_string()];
    c.tools.shell.default_timeout_secs = 1;
    c.memory.enabled = false;
    c.memory.db_path = Some("/m.db".to_string());
    c.memory.skill_dirs = Some(vec![]);
    c.memory.notes_dir = Some("/n".to_string());
    c.memory.watch.debounce_secs = 9;
    c.memory.ingest.chunk_max_chars = 7;
    c.sandbox.network = SandboxNetworkPolicy::OutboundOnly;
    c.sandbox.read_only_mounts = vec!["/usr".to_string()];
    let text = c.to_toml().unwrap();
    assert!(text.contains("[memory.ingest]\nchunk_max_chars = 7\n"));
    let read = Config::from_toml(&text).unwrap();
    assert_eq!(format!("{read:?}"), format!("{c:?}"));
    assert_eq!(read.to_document(), c.to_document());

    c.sandbox.memory_bytes = u64::MAX;
    let read = Config::from_toml(&c.to_toml().unwrap()).unwrap();
    assert_eq!(read.sandbox.memory_bytes, u64::MAX);
}

#[test]
fn dates_are_no_texts() {
    assert!(Config::from_toml("[network]\ndescription = 1979-05-27\n").is_none());
    assert!(Config::from_toml("[sandbox]\ntimeout_secs = 1.5\n").is_none());
}

#[test]
fn a_missing_file_gives_the_defaults() {
    let c = load(None).unwrap();
    assert_eq!(c.models.proxy_port, 11435);
    assert!(c.models.endpoint.is_none());
    assert!(matches!(c.models.advertise, AdvertiseModels::Nothing(_)));
    assert!(load(Some("[network")).is_none());
}

#[test]
fn an_endpoint_alone_advertises_all_models() {
    let c = load(Some("[models]\nendpoint = \"http://127.0.0.1:11434\"\n")).unwrap();
    assert!(matches!(c.models.advertise, AdvertiseModels::All(_)));
    assert!(!c.models.advertise.is_none());
    assert_eq!(c.models.proxy_port, 11435);
    let c = load(Some("[models]\nproxy_port = 1\n")).unwrap();
    assert!(matches!(c.models.advertise, AdvertiseModels::Nothing(_)));
}

#[test]
fn an_empty_list_advertises_nothing() {
    assert!(AdvertiseModels::List(vec![]).is_none());
    assert!(!AdvertiseModels::List(vec!["llama3".to_string()]).is_none());
}

#[test]
fn sections_may_be_written_by_position() {
    let c = load(Some("network = [\"laptop\", [\"b\"], 7, true]\ntools = [[[\"x\"]]]\n")).unwrap();
    assert_eq!(c.network.description.as_deref(), Some("laptop"));
    assert_eq!(c.network.bootstrap, ["b"]);
    assert_eq!(c.network.listen_port, Some(7));
    assert!(c.network.relay_server && c.network.identity_path.is_none());
    assert_eq!(c.tools.shell.blocked_patterns, ["x"]);
    assert_eq!(c.tools.shell.default_timeout_secs, 30);
    assert!(load(Some("network = [1]\n")).is_none());
    assert!(load(Some("network = 1\n")).is_none());
}
