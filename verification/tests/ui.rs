//! Frames, windows and the terminal channel.
use clawshake::channels::{
    cursor_of, extract_tool_result, parse_ui_response_frame_id, remote_call_params, remote_call_result, ui_response_topic,
    ui_topic, Repl, ReplAction, ReplEvent,
};
use clawshake::event_queue::EventQueue;
use clawshake::json::Json;
use clawshake::webview::{
    handle_close, handle_push, handle_render, on_message, render_with_id, replay, snapshot_result, snapshot_with_id,
    ui_frame_content, ui_push_for, FrameAnswer, FrameStore, Reaction, SnapshotEnd,
};
use clawshake::window::{
    handle_list, handle_notify, handle_open, handle_resize, handle_set_title, list_result, window_tool_definitions,
    ListStart,
};

fn json(text: &str) -> Json {
    Json::from_text(text).unwrap()
}

#[test]
fn response_topics_read_back() {
    assert_eq!(ui_topic("f1"), "channel.ui.f1");
    assert_eq!(ui_response_topic("f1"), "channel.ui.f1.response");
    assert_eq!(parse_ui_response_frame_id("channel.ui.f1.response"), Some("f1".to_string()));
    assert_eq!(parse_ui_response_frame_id("channel.ui.f1"), None);
    assert_eq!(parse_ui_response_frame_id("channel.ui..response"), None);
    assert_eq!(parse_ui_response_frame_id("channel.cli.response"), None);
}

#[test]
fn broker_answers_are_read() {
    assert_eq!(
        extract_tool_result(&json(r#"{"result":{"content":[{"text":"a"},{"text":"b"}]}}"#)),
        Ok("a\nb".to_string())
    );
    assert_eq!(
        extract_tool_result(&json(r#"{"result":{"isError":true,"content":[{"text":"x"}]}}"#)),
        Err("Tool error: x".to_string())
    );
    assert_eq!(
        extract_tool_result(&json(r#"{"error":{"message":"m"}}"#)),
        Err("Broker error: m".to_string())
    );
    assert_eq!(extract_tool_result(&json(r#"{"error":{}}"#)), Err("Broker error: unknown error".to_string()));
    assert_eq!(extract_tool_result(&json("{}")), Err("Missing result in broker response".to_string()));
    assert_eq!(
        remote_call_params("p", "t", json("{}")).to_text(),
        r#"{"arguments":{},"peer_id":"p","tool":"t"}"#
    );
    assert_eq!(remote_call_result(&json(r#"{"error":"e"}"#)), Err("Remote call failed: e".to_string()));
    assert_eq!(remote_call_result(&json(r#"{"result":"r"}"#)), Ok("r".to_string()));
    assert_eq!(cursor_of(r#"{"cursor":12}"#), 12);
    assert_eq!(cursor_of("junk"), 0);
}

#[test]
fn the_terminal_sends_and_waits() {
    let mut repl = Repl { cursor: 3 };
    let step = repl.step(&ReplEvent::Line(Some("  hello \n".to_string())));
    match step.action {
        ReplAction::Emit(arguments) => assert!(arguments.to_text().contains("hello")),
        _ => panic!("the message is sent"),
    }
    assert!(matches!(repl.step(&ReplEvent::Emitted(Ok(()))).action, ReplAction::Listen(_)));
    let step = repl.step(&ReplEvent::Listened(Ok(
        r#"{"cursor":9,"events":[{"data":{"text":"hi"}},{"data":{}}]}"#.to_string()
    )));
    assert_eq!(step.answers, ["hi"]);
    assert_eq!(repl.cursor, 9);
    let step = repl.step(&ReplEvent::Listened(Ok(r#"{"cursor":9,"events":[]}"#.to_string())));
    assert_eq!(step.note.as_deref(), Some("(no response within timeout)"));
    let step = repl.step(&ReplEvent::Listened(Err("x".to_string())));
    assert_eq!(step.note.as_deref(), Some("Error waiting for response: x"));
    let step = repl.step(&ReplEvent::Emitted(Err("x".to_string())));
    assert_eq!(step.note.as_deref(), Some("Error sending message: x"));
    assert!(matches!(repl.step(&ReplEvent::Line(Some(" \u{2003}".to_string()))).action, ReplAction::Prompt));
    for last in [Some("exit".to_string()), Some(" quit ".to_string()), None] {
        let step = repl.step(&ReplEvent::Line(last));
        assert!(matches!(step.action, ReplAction::Leave));
        assert_eq!(step.note.as_deref(), Some("Goodbye."));
    }
    assert_eq!(repl.cursor, 9);
}

#[test]
fn rendered_frames_are_there() {
    let mut store = FrameStore::new();
    let (reply, message) =
        render_with_id(&json(r#"{"html":"<p>hi</p>","css":"p{}","js":"go()"}"#), "f1", &mut store, 7475).unwrap();
    assert_eq!(
        json(&reply),
        json(r#"{"frame_id":"f1","frame_url":"http://127.0.0.1:7475/ui/frame/f1","ui_url":"http://127.0.0.1:7475/ui"}"#)
    );
    assert_eq!(
        message.to_text(),
        r#"{"frame_id":"f1","height":600,"src":"http://127.0.0.1:7475/ui/frame/f1","title":"Agent UI","type":"render","width":800}"#
    );
    match ui_frame_content("f1", &store) {
        FrameAnswer::Page(page) => assert!(page.contains("<p>hi</p>") && page.contains("p{}") && page.contains("go()")),
        _ => panic!("the page is served"),
    }
    render_with_id(&json(r#"{"src":"https://example.org"}"#), "f2", &mut store, 7475).unwrap();
    match ui_frame_content("f2", &store) {
        FrameAnswer::Redirect(url) => assert_eq!(url, "https://example.org"),
        _ => panic!("the page is elsewhere"),
    }
    assert!(matches!(ui_frame_content("f3", &store), FrameAnswer::NotFound));
    assert_eq!(replay(&store, 7475).len(), 2);
    let (pushed, _) = handle_push(&json(r#"{"frame_id":"f1","data":1}"#), &store).unwrap();
    assert_eq!(pushed, r#"{"ok":true}"#);
    let with = r##"{"frame_id":"f1","selector":"#a","data":{"html":"x","selector":"#b"}}"##;
    let (_, update) = handle_push(&json(with), &store).unwrap();
    assert_eq!(
        update.to_text(),
        r##"{"data":{"html":"x","selector":"#a"},"frame_id":"f1","type":"push"}"##
    );
    handle_close(&json(r#"{"frame_id":"f1"}"#), &mut store).unwrap();
    assert!(store.get("f1").is_none());
    assert_eq!(
        handle_push(&json(r#"{"frame_id":"f1"}"#), &store).err().unwrap(),
        "no open frame with id 'f1' — call ui_render first"
    );
}

#[test]
fn frames_get_fresh_identifiers() {
    let mut store = FrameStore::new();
    handle_render(&json(r#"{"html":"a"}"#), &mut store, 1).unwrap();
    handle_render(&json(r#"{"html":"b"}"#), &mut store, 1).unwrap();
    assert_eq!(store.list_all().len(), 2);
}

#[test]
fn frame_refusals_are_told() {
    let mut store = FrameStore::new();
    let mut refused = |a: &str| render_with_id(&json(a), "f", &mut store, 1).err().unwrap();
    assert_eq!(refused("{}"), "either 'html' or 'src' is required");
    assert_eq!(
        refused(r#"{"html":"a","src":"b"}"#),
        "'html' and 'src' are mutually exclusive — provide one or the other"
    );
    assert_eq!(handle_push(&json("{}"), &store).err().unwrap(), "missing required field: frame_id");
    assert_eq!(
        handle_close(&json("{}"), &mut store).err().unwrap(),
        "missing required field: frame_id"
    );
    assert_eq!(
        snapshot_with_id(&json(r#"{"frame_id":"f"}"#), "r", &mut store).err().unwrap(),
        "no open frame with id 'f'"
    );
}

#[test]
fn snapshots_are_answered_once() {
    let mut store = FrameStore::new();
    let mut queue = EventQueue::new();
    render_with_id(&json(r#"{"html":"a"}"#), "f", &mut store, 1).unwrap();
    let asked = snapshot_with_id(&json(r#"{"frame_id":"f"}"#), "r1", &mut store).unwrap();
    assert!(asked.to_text().contains("\"request_id\":\"r1\""));
    let answer = r#"{"type":"snapshot_response","request_id":"r1","result":"text"}"#;
    match on_message(answer, &mut store, &mut queue, 1, "5") {
        Reaction::Snapshot { request_id, outcome } => {
            assert_eq!(request_id, "r1");
            assert_eq!(outcome, Ok("text".to_string()));
        }
        _ => panic!("the snapshot is answered"),
    }
    assert!(matches!(on_message(answer, &mut store, &mut queue, 1, "5"), Reaction::Done));
    assert_eq!(
        snapshot_result(&SnapshotEnd::Answered(Ok("t".to_string()))),
        Ok("{\n  \"snapshot\": \"t\"\n}".to_string())
    );
    assert_eq!(
        snapshot_result(&SnapshotEnd::Answered(Err("e".to_string()))),
        Err("snapshot failed: e".to_string())
    );
    assert_eq!(
        snapshot_result(&SnapshotEnd::Disconnected),
        Err("snapshot response channel closed — host page disconnected".to_string())
    );
    assert_eq!(
        snapshot_result(&SnapshotEnd::TimedOut),
        Err("snapshot timed out after 10s — is the /ui page open in a browser?".to_string())
    );
}

#[test]
fn interactions_become_events() {
    let mut store = FrameStore::new();
    let mut queue = EventQueue::new();
    render_with_id(&json(r#"{"html":"a"}"#), "f", &mut store, 1).unwrap();
    on_message(
        r#"{"type":"interaction","frame_id":"f","event":"click","id":"b","data":7}"#,
        &mut store,
        &mut queue,
        1,
        "5",
    );
    let (events, _) = queue.wait_for(&vec![], 0, false).unwrap();
    assert_eq!(events[0].topic, "channel.ui.f");
    assert_eq!(
        events[0].data.to_text(),
        r#"{"data":7,"event":"click","frame_id":"f","id":"b"}"#
    );
    assert!(matches!(on_message(r#"["replay_request"]"#, &mut store, &mut queue, 1, "5"), Reaction::Send(_)));
    match on_message(r#"{"type":"replay_request"}"#, &mut store, &mut queue, 1, "5") {
        Reaction::Send(messages) => assert_eq!(messages.len(), 1),
        _ => panic!("the frames are shown again"),
    }
    on_message(r#"{"type":"close","frame_id":"f"}"#, &mut store, &mut queue, 1, "5");
    assert!(store.get("f").is_none());
    assert!(matches!(on_message("junk", &mut store, &mut queue, 1, "5"), Reaction::Done));
    assert_eq!(queue.len(), 1);

    queue.push("channel.ui.f.response", "agent", json(r#"{"x":1}"#), "6");
    let (events, _) = queue.wait_for(&vec!["channel.ui.f.response".to_string()], 0, false).unwrap();
    assert_eq!(
        ui_push_for(&events[0]).unwrap().to_text(),
        r#"{"data":{"x":1},"frame_id":"f","type":"push"}"#
    );
}

#[test]
fn windows_are_opened_and_listed() {
    let (reply, message) = handle_open(&json("{}"));
    assert_eq!(reply, r#"{"label":"new","ok":true}"#);
    let text = message.to_text();
    assert!(text.contains("\"url\":\"/ui?window=new\"") && text.contains("\"width\":1200"), "{text}");
    let (_, message) = handle_open(&json(r#"{"width":4294967297}"#));
    assert!(message.to_text().contains("\"width\":1"));
    assert_eq!(handle_resize(&json("{}")).err().unwrap(), "missing required field: width");
    assert_eq!(handle_resize(&json(r#"{"width":1}"#)).err().unwrap(), "missing required field: height");
    assert_eq!(handle_set_title(&json("{}")).err().unwrap(), "missing required field: title");
    assert_eq!(handle_notify(&json("{}")).err().unwrap(), "missing required field: title");
    let mut store = FrameStore::new();
    assert!(matches!(handle_list(&mut store, false), ListStart::Answer(_)));
    let id = match handle_list(&mut store, true) {
        ListStart::Ask { request_id, message } => {
            assert!(message.to_text().contains(&request_id));
            request_id
        }
        ListStart::Answer(_) => panic!("the page is asked"),
    };
    let mut queue = EventQueue::new();
    let answer = format!("{{\"type\":\"window_list_response\",\"request_id\":\"{id}\",\"windows\":[1]}}");
    match on_message(&answer, &mut store, &mut queue, 1, "5") {
        Reaction::Windows { request_id, windows } => {
            assert_eq!(request_id, id);
            assert!(list_result(Some(&windows)).contains('1'));
        }
        _ => panic!("the request is answered"),
    }
    assert_eq!(window_tool_definitions().len(), 7);
}
