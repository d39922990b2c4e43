//! The event queue.
use clawshake::event_queue::{invoke_emit, invoke_listen, listen_request, EventQueue, Patience, DEFAULT_MAX_SIZE};
use clawshake::json::Json;

const TS: &str = "1700000000.5";

fn json(text: &str) -> Json {
    Json::from_text(text).unwrap()
}

#[test]
fn push_and_read() {
    let mut q = EventQueue::new();
    let id1 = q.push("fs.changed", "watcher", json(r#"{"path": "/tmp/a"}"#), TS);
    let id2 = q.push("fs.created", "watcher", json(r#"{"path": "/tmp/b"}"#), TS);

    let (events, cursor) = q.wait_for(&vec![], 0, true).unwrap();
    assert_eq!(events.len(), 2);
    assert_eq!(cursor, id2);

    // After cursor should skip the first event.
    let (events, _) = q.wait_for(&vec![], id1, true).unwrap();
    assert_eq!(events.len(), 1);
    assert_eq!(events[0].id, id2);
}

#[test]
fn topic_prefix_filter() {
    let mut q = EventQueue::new();
    q.push("fs.changed", "watcher", json("{}"), TS);
    q.push("peer.online", "p2p", json("{}"), TS);

    let (events, _) = q.wait_for(&vec!["fs".to_string()], 0, true).unwrap();
    assert_eq!(events.len(), 1);
    assert_eq!(events[0].topic, "fs.changed");
}

#[test]
fn ring_buffer_eviction() {
    let mut q = EventQueue::new();
    // Push more than DEFAULT_MAX_SIZE events.
    for i in 0..DEFAULT_MAX_SIZE + 10 {
        q.push("test", "test", Json::natural(i as u64), TS);
    }
    assert_eq!(q.len(), DEFAULT_MAX_SIZE);
}

#[test]
fn timeout_returns_empty() {
    let q = EventQueue::new();
    let (events, _) = q.wait_for(&vec![], 0, true).unwrap();
    assert!(events.is_empty());
}

#[test]
fn notify_wakes_listener() {
    let mut q = EventQueue::new();
    let topics = vec!["test".to_string()];
    // Nothing yet: the listener waits on.
    assert!(q.wait_for(&topics, 0, false).is_none());
    q.push("test.hello", "test", json(r#"{"msg": "hi"}"#), TS);

    let (events, _) = q.wait_for(&topics, 0, false).unwrap();
    assert_eq!(events.len(), 1);
    assert_eq!(events[0].topic, "test.hello");
}

#[test]
fn listening_starts_from_the_head() {
    let mut q = EventQueue::new();
    q.push("old", "test", Json::Null, TS);
    let request = listen_request(&json("{}"), q.cursor());
    assert_eq!(request.after, 1);
    assert!(matches!(request.patience, Patience::Forever));
    assert!(invoke_listen(&request, &q, false).is_none());
    q.push("new", "test", Json::Null, TS);
    let text = invoke_listen(&request, &q, false).unwrap();
    assert!(text.contains("new"));
    assert!(!text.contains("old"));
    let replay = listen_request(&json(r#"{"after": 0, "timeout_secs": 2}"#), q.cursor());
    assert_eq!(replay.after, 0);
    assert!(matches!(replay.patience, Patience::Seconds(2)));
    assert!(invoke_listen(&replay, &q, false).unwrap().contains("old"));
}

#[test]
fn emitting() {
    let mut q = EventQueue::new();
    assert_eq!(
        invoke_emit(&json(r#"{"data": 1}"#), &mut q, TS).unwrap_err(),
        "missing required field: topic"
    );
    assert_eq!(
        invoke_emit(&json(r#"{"topic": "a.b", "data": {"x": 1}}"#), &mut q, TS).unwrap(),
        r#"{"id":1,"ok":true}"#
    );
    let (events, _) = q.wait_for(&vec![], 0, true).unwrap();
    assert_eq!(
        events[0].to_json().to_text(),
        r#"{"data":{"x":1},"id":1,"source":"agent","topic":"a.b","ts":1700000000.5}"#
    );
}

#[test]
fn the_last_events_are_kept_in_order() {
    let mut q = EventQueue::new();
    let n = DEFAULT_MAX_SIZE as u64 + 10;
    for i in 1..=n {
        assert_eq!(q.push("test", "test", Json::natural(i), TS), i);
    }
    assert_eq!(q.cursor(), n);
    let (events, cursor) = q.wait_for(&vec![], 0, true).unwrap();
    assert_eq!(cursor, n);
    let ids: Vec<u64> = events.iter().map(|e| e.id).collect();
    let last: Vec<u64> = (11..=n).collect();
    assert_eq!(ids, last);
    assert!(events.iter().all(|e| e.data.as_u64() == Some(e.id)));
}
