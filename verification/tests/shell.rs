//! The shell tool.
use clawshake::config::ShellConfig;
use clawshake::json::Json;
use clawshake::shell::{check_blocked, handle, shell_report, timeout_error, truncate_output};

fn json(text: &str) -> Json {
    Json::from_text(text).unwrap()
}

#[test]
fn blocked_commands() {
    assert!(check_blocked("rm -rf /", &[]).is_err());
    assert!(check_blocked("sudo rm -RF /", &[]).is_err()); // case insensitive
    assert!(check_blocked("mkfs.ext4 /dev/sda1", &[]).is_err());
    assert!(check_blocked("dd if=/dev/zero of=/dev/sda", &[]).is_err());
    assert!(check_blocked("shutdown -h now", &[]).is_err());
}

#[test]
fn allowed_commands() {
    assert!(check_blocked("ls -la", &[]).is_ok());
    assert!(check_blocked("rm -rf ./temp", &[]).is_ok()); // relative path is fine
    assert!(check_blocked("echo hello", &[]).is_ok());
    assert!(check_blocked("cargo build", &[]).is_ok());
    assert!(check_blocked("pip install requests", &[]).is_ok());
}

#[test]
fn user_blocked_patterns() {
    let extras = vec!["deploy --force".to_string(), "DROP TABLE".to_string()];
    assert!(check_blocked("deploy --force staging", &extras).is_err());
    assert!(check_blocked("DROP TABLE users", &extras).is_err());
    assert!(check_blocked("deploy staging", &extras).is_ok());
}

#[test]
fn truncation() {
    let max = ShellConfig::default().max_output_bytes;
    let long = "x".repeat(max + 100);
    let result = truncate_output(long.as_bytes(), max);
    assert!(result.len() < long.len());
    assert!(result.contains("truncated"));
}

#[test]
fn basic_execution() {
    let cfg = ShellConfig::default();
    let plan = handle(&json(r#"{"command": "echo hello"}"#), &cfg, false).unwrap();
    assert_eq!(plan.timeout_secs, 30);
    assert_eq!(plan.spawn.args.last().unwrap(), "echo hello");
    let result = shell_report(0, "hello\n", "");
    assert!(result.contains("hello"));
}

#[test]
fn missing_command() {
    let cfg = ShellConfig::default();
    let result = handle(&json("{}"), &cfg, false);
    assert!(result.is_err());
}

#[test]
fn nonzero_exit_code() {
    let cfg = ShellConfig::default();
    let plan = handle(&json(r#"{"command": "exit 1"}"#), &cfg, false).unwrap();
    assert_eq!(plan.spawn.args.last().unwrap(), "exit 1");
    let result = shell_report(1, "", "");
    assert!(result.contains("exit code: 1"));
}

#[test]
fn timeouts_are_capped_and_told() {
    let cfg = ShellConfig::default();
    let plan = handle(&json(r#"{"command": "sleep 9", "timeout_secs": 999999}"#), &cfg, false).unwrap();
    assert!(plan.timeout_secs < 999999);
    assert_eq!(timeout_error(7), "command timed out after 7s");
}

#[test]
fn output_is_cut_between_characters() {
    assert_eq!(truncate_output("ééé".as_bytes(), 2), "é\n\n... (output truncated at 2 bytes)");
    assert_eq!(truncate_output("ééé".as_bytes(), 3), "é\n\n... (output truncated at 3 bytes)");
    assert_eq!(truncate_output("ééé".as_bytes(), 1), "\n\n... (output truncated at 1 bytes)");
    assert_eq!(truncate_output("ééé".as_bytes(), 6), "ééé");
    assert_eq!(truncate_output("a\u{10348}b".as_bytes(), 5), "a\u{10348}\n\n... (output truncated at 5 bytes)");
    assert_eq!(truncate_output(b"", 0), "");
}
