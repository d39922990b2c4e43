//! Processes, requests and memory paths.
use clawshake::config::MemoryConfig;
use clawshake::json::Json;
use clawshake::memory::{
    append_reply, append_request, build_memory_context, embed_reply, ingest_reply, memory_tool_definitions, recall_request,
    watched_dirs, WriteEntry,
};
use clawshake::process::{
    applescript_result, command_result, deeplink_result, deeplink_url, drop_empty_args, plan_applescript,
    plan_command, plan_powershell, powershell_result, Finished,
};
use clawshake::web_call::{plan_request, response_result, Method, Payload};

fn json(text: &str) -> Json {
    Json::from_text(text).unwrap()
}

fn texts(parts: &[&str]) -> Vec<String> {
    parts.iter().map(|p| p.to_string()).collect()
}

fn finished(success: bool, out: &[u8], err: &[u8]) -> Finished {
    Finished {
        success,
        status: "exit status: 2".to_string(),
        stdout: out.to_vec(),
        stderr: err.to_vec(),
    }
}

#[test]
fn commands_are_started_directly_or_in_a_shell() {
    let args = texts(&["-n", "{{text}}"]);
    let direct = plan_command("echo", &args, false, &json(r#"{"text":"a b"}"#), false);
    assert_eq!((direct.program.as_str(), direct.args), ("echo", texts(&["-n", "a b"])));
    let shell = plan_command("echo", &args, true, &json(r#"{"text":"it's"}"#), false);
    assert_eq!((shell.program.as_str(), shell.args[0].as_str()), ("sh", "-c"));
    assert_eq!(shell.args[1], r"'echo' '-n' 'it'\''s'");
    let windows = plan_command("npx.CMD", &texts(&["x"]), false, &json("{}"), true);
    assert_eq!((windows.program.as_str(), windows.args), ("cmd", texts(&["/C", "npx.CMD", "x"])));
    let elsewhere = plan_command("npx.cmd", &texts(&["x"]), false, &json("{}"), false);
    assert_eq!(elsewhere.program, "npx.cmd");
}

#[test]
fn empty_arguments_are_dropped() {
    assert_eq!(drop_empty_args(&texts(&["a", "", "b"])), texts(&["a", "b"]));
    assert!(drop_empty_args(&texts(&["", ""])).is_empty());
}

#[test]
fn outputs_are_trimmed_and_errors_told() {
    assert_eq!(command_result("c", &finished(true, b" out \n\n", b"")), Ok(" out".to_string()));
    assert_eq!(
        command_result("c", &finished(false, b"", b" bad\n")),
        Err("The underlying command (`c`) exited with exit status: 2. stderr: bad. This may indicate a configuration issue on the node or missing dependencies.".to_string())
    );
    assert_eq!(command_result("c", &finished(true, b"a\xffb", b"")), Ok("a\u{fffd}b".to_string()));
    assert_eq!(powershell_result(&finished(true, b"x\r\n", b"")), Ok("x".to_string()));
    assert!(powershell_result(&finished(false, b"", b"e"))
        .unwrap_err()
        .starts_with("The PowerShell script exited with exit status: 2. stderr: e."));
    assert_eq!(applescript_result(&finished(true, b"x\n", b"")), Ok("x".to_string()));
    assert!(applescript_result(&finished(false, b"", b"e"))
        .unwrap_err()
        .starts_with("The AppleScript exited with exit status: 2. stderr: e."));
}

#[test]
fn scripts_are_planned() {
    let p = plan_powershell("Write '{{x}}'", &json(r#"{"x":"it's"}"#));
    assert_eq!(p.program, "powershell");
    assert_eq!(p.args[..3], texts(&["-NoProfile", "-NonInteractive", "-Command"]));
    let a = plan_applescript("beep", &json("{}"), true).unwrap();
    assert_eq!((a.program.as_str(), a.args), ("osascript", texts(&["-e", "beep"])));
    assert!(plan_applescript("beep", &json("{}"), false).is_err());
    assert_eq!(deeplink_url("spotify:search:{{q}}", &json(r#"{"q":"abba"}"#)), "spotify:search:abba");
    assert_eq!(deeplink_result(), r#"{"status":"invoked"}"#);
}

#[test]
fn requests_follow_their_method() {
    let args = json(r#"{"id":"7","n":1}"#);
    let get = plan_request("http://x/{{id}}", Some("get"), &args);
    assert_eq!((get.method, get.url.as_str()), (Method::Get, "http://x/7"));
    match get.payload {
        Payload::Query(pairs) => assert_eq!(
            pairs,
            vec![("id".to_string(), "7".to_string()), ("n".to_string(), "1".to_string())]
        ),
        Payload::Body => panic!("the arguments go into the query"),
    }
    assert_eq!(plan_request("u", Some("Delete"), &args).method, Method::Delete);
    assert_eq!(plan_request("u", Some("put"), &args).method, Method::Put);
    assert_eq!(plan_request("u", Some("patch"), &args).method, Method::Post);
    assert!(matches!(plan_request("u", None, &args).payload, Payload::Body));
    assert_eq!(plan_request("u", None, &args).method, Method::Post);
    assert_eq!(response_result(true, "200 OK", "b".to_string()), Ok("b".to_string()));
    assert_eq!(
        response_result(false, "404 Not Found", "gone".to_string()),
        Err("HTTP 404 Not Found: gone".to_string())
    );
}

#[test]
fn memory_paths_have_defaults() {
    let mut cfg = MemoryConfig::default();
    cfg.notes_dir = Some("/elsewhere".to_string());
    let context = build_memory_context("/h/.clawshake", Some("/h"), &cfg);
    assert_eq!(context.db_path, "/h/.clawshake/memory.db");
    assert_eq!(context.transcript_dir, "/h/.clawshake/log");
    assert_eq!(context.notes_dir, "/elsewhere");
    assert_eq!(context.skill_dirs, ["/h/.clawshake/skills", "/h/.agents/skills"]);
    assert_eq!(
        watched_dirs(&context, "/h/.clawshake"),
        ["/h/.clawshake/log", "/h/.clawshake/notes", "/h/.clawshake/skills", "/h/.agents/skills"]
    );
    assert_eq!(build_memory_context("d", None, &cfg).skill_dirs[1], "./.agents/skills");
}

#[test]
fn memory_requests_are_read() {
    assert_eq!(recall_request(&json(r#"{"query":"q","limit":3}"#)), ("q".to_string(), 3));
    assert_eq!(recall_request(&json("{}")), (String::new(), 10));
    match append_request(&json(r#"{"role":"user","content":"hi"}"#)) {
        Ok(WriteEntry::Message { role, content }) => assert_eq!((role.as_str(), content.as_str()), ("user", "hi")),
        _ => panic!("a message is written"),
    }
    assert!(matches!(append_request(&json(r#"{"op":"reset"}"#)), Ok(WriteEntry::Reset { .. })));
    assert_eq!(
        append_request(&json("{}")).err().unwrap(),
        "memory_append requires at least 'role' + 'content', or 'name' + 'content'"
    );
    assert_eq!(append_reply(), "ok");
    assert_eq!(ingest_reply(3), "3 chunks ingested");
    assert_eq!(embed_reply(0), "0 chunks embedded");
    assert_eq!(memory_tool_definitions().len(), 5);
}
