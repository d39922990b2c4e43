//! Scheduled and background tasks, and shared ports.
use clawshake::cron::{cron_tool_definitions, CronScheduler};
use clawshake::event_queue::EventQueue;
use clawshake::expose::{
    connect_tool, expose_with_id, handle_connect, handle_expose, handle_unexpose, is_good_name, ExposeTable,
};
use clawshake::json::Json;
use clawshake::manifest::{InvokeConfig, Tool};
use clawshake::registry::ManifestRegistry;
use clawshake::spawn::{finish, handle, spawn_tool_definition, TaskIds};

fn json(text: &str) -> Json {
    Json::from_text(text).unwrap()
}

#[test]
fn add_list_remove() {
    let mut sched = CronScheduler::new();

    // Add a job.
    let result = sched
        .handle_add(&json(r#"{"label": "test", "interval_secs": 60}"#))
        .unwrap()
        .reply;
    assert!(result.contains("\"id\": 1"));

    // List should show it.
    let list = sched.handle_list();
    assert!(list.contains("test"));

    // Remove it.
    let removed = sched.handle_remove(&json(r#"{"id": 1}"#)).unwrap().1;
    assert!(removed.contains("Removed"));

    // List should be empty.
    let list = sched.handle_list();
    assert!(list.contains("No cron jobs"));
}

#[test]
fn minimum_interval() {
    let mut sched = CronScheduler::new();
    let result = sched.handle_add(&json(r#"{"label": "fast", "interval_secs": 1}"#));
    assert!(result.is_err());
    assert!(result.err().unwrap().contains(">= 5"));
}

#[test]
fn remove_nonexistent() {
    let mut sched = CronScheduler::new();
    let result = sched.handle_remove(&json(r#"{"id": 999}"#));
    assert!(result.is_err());
}

#[test]
fn cron_refusals_name_the_field() {
    let mut sched = CronScheduler::new();
    let refused = |s: &mut CronScheduler, a: &str| s.handle_add(&json(a)).err().unwrap();
    assert_eq!(refused(&mut sched, "{}"), "missing required field: label");
    assert_eq!(refused(&mut sched, r#"{"label":"x"}"#), "missing required field: interval_secs");
    assert_eq!(
        refused(&mut sched, r#"{"label":"x","interval_secs":4}"#),
        "interval_secs must be >= 5 (got 4)"
    );
    assert_eq!(sched.handle_remove(&json("{}")).unwrap_err(), "missing required field: id");
    assert_eq!(sched.handle_remove(&json(r#"{"id":7}"#)).unwrap_err(), "no cron job with id 7");
    assert!(sched.handle_add(&json(r#"{"label":"x","interval_secs":5}"#)).is_ok());
    assert!(sched.has_room());
    assert_eq!(cron_tool_definitions().len(), 3);
}

#[test]
fn jobs_get_fresh_identifiers_and_fire() {
    let mut sched = CronScheduler::new();
    let first = sched.handle_add(&json(r#"{"label":"a","interval_secs":9,"data":[1]}"#)).unwrap().job;
    sched.handle_remove(&json(r#"{"id":1}"#)).unwrap();
    let second = sched.handle_add(&json(r#"{"label":"b","interval_secs":9}"#)).unwrap().job;
    assert_eq!((first.id, second.id), (1, 2));
    let mut queue = EventQueue::new();
    first.fire(&mut queue, "5");
    let (events, cursor) = queue.wait_for(&vec!["cron.fired".to_string()], 0, false).unwrap();
    assert_eq!(cursor, 1);
    assert_eq!(events[0].topic, "cron.fired");
    assert!(events[0].data.to_text().contains("\"label\":\"a\""));
}

fn registry_with(name: &str) -> ManifestRegistry {
    let mut registry = ManifestRegistry::new();
    registry.register_builtin(
        Tool {
            name: name.to_string(),
            description: String::new(),
            input_schema: Default::default(),
            needs: None,
            invoke: InvokeConfig::InProcess,
        },
        "test",
    );
    registry
}

#[test]
fn spawn_nonexistent_tool_fails_immediately() {
    let registry = ManifestRegistry::new();
    let mut ids = TaskIds::new();
    let result = handle(&json(r#"{"tool": "nonexistent_tool"}"#), &registry, &mut ids);
    assert!(result.is_err());
    assert!(result.err().unwrap().contains("not registered"));
}

#[test]
fn spawn_spawn_is_blocked() {
    let registry = ManifestRegistry::new();
    let mut ids = TaskIds::new();
    let result = handle(&json(r#"{"tool": "spawn"}"#), &registry, &mut ids);
    assert!(result.is_err());
    assert!(result.err().unwrap().contains("cannot spawn"));
}

#[test]
fn missing_tool_field() {
    let registry = ManifestRegistry::new();
    let mut ids = TaskIds::new();
    let result = handle(&json("{}"), &registry, &mut ids);
    assert!(result.is_err());
    assert!(result.err().unwrap().contains("missing"));
}

#[test]
fn spawned_tasks_report_their_outcome() {
    let registry = registry_with("echo");
    let mut ids = TaskIds::new();
    let (task, reply) = handle(&json(r#"{"tool":"echo","arguments":{"x":1}}"#), &registry, &mut ids).unwrap();
    assert_eq!((task.id, task.tool.as_str()), (1, "echo"));
    assert_eq!(task.arguments, json(r#"{"x":1}"#));
    assert_eq!(json(&reply), json(r#"{"status":"spawned","task_id":1,"tool":"echo"}"#));
    let (task, _) = handle(&json(r#"{"tool":"echo"}"#), &registry, &mut ids).unwrap();
    assert_eq!(task.id, 2);
    assert_eq!(task.arguments, json("{}"));

    let mut queue = EventQueue::new();
    finish(1, "echo", &Ok("done".to_string()), &mut queue, "3");
    finish(2, "echo", &Err("broken".to_string()), &mut queue, "4");
    let (events, _) = queue.wait_for(&vec![], 0, false).unwrap();
    assert_eq!(events.len(), 2);
    assert!(events[0].data.to_text().contains("done"));
    assert!(events[1].data.to_text().contains("broken"));
    assert_ne!(events[0].topic, events[1].topic);
    assert_eq!(spawn_tool_definition().str_at("name"), Some("spawn"));
}

#[test]
fn exposed_ports_can_be_connected() {
    let mut table = ExposeTable::new();
    let mut registry = ManifestRegistry::new();
    let arguments = json(r#"{"port":3000,"name":"web","peers":["p1"],"description":"A site"}"#);
    let change = expose_with_id(&arguments, "u-1", &mut table, &mut registry).unwrap();
    assert_eq!(change.notice, json(r#"{"name":"web","peers":["p1"],"port":3000}"#));
    assert_eq!(
        json(&change.reply),
        json(r#"{"expose_id":"expose_u-1","name":"web","port":3000,"tool":"connect_web"}"#)
    );
    assert_eq!(
        registry.get("connect_web").unwrap().tool.description,
        "Connect to web on this peer. A site. Returns a local URL for the tunneled service."
    );
    let answer = handle_connect("connect_web", &json(r#"{"local_port":8080}"#), &table).unwrap();
    assert_eq!(
        json(&answer),
        json(r#"{"authorized":true,"local_port":8080,"name":"web","port":3000}"#)
    );
    assert_eq!(
        expose_with_id(&arguments, "u-2", &mut table, &mut registry).err().unwrap(),
        "an expose with name 'web' already exists — call network_unexpose first"
    );

    let gone = handle_unexpose(&json(r#"{"name":"web"}"#), &mut table, &mut registry).unwrap();
    assert_eq!(gone.notice, json(r#"{"name":"web"}"#));
    assert!(registry.get("connect_web").is_none());
    assert_eq!(
        handle_connect("connect_web", &json("{}"), &table).unwrap_err(),
        "no active expose with name 'web'"
    );
    assert!(expose_with_id(&arguments, "u-3", &mut table, &mut registry).is_ok());
    assert_eq!(table.all().len(), 1);
}

#[test]
fn exposed_ports_get_unique_identifiers() {
    let mut table = ExposeTable::new();
    let mut registry = ManifestRegistry::new();
    handle_expose(&json(r#"{"port":1,"name":"a"}"#), &mut table, &mut registry).unwrap();
    handle_expose(&json(r#"{"port":2,"name":"b"}"#), &mut table, &mut registry).unwrap();
    let (a, b) = (table.get("a").unwrap().expose_id, table.get("b").unwrap().expose_id);
    assert_ne!(a, b);
    for id in [a, b] {
        let uuid = id.strip_prefix("expose_").unwrap();
        assert_eq!(uuid.len(), 36);
        for (i, c) in uuid.chars().enumerate() {
            if [8, 13, 18, 23].contains(&i) {
                assert_eq!(c, '-');
            } else {
                assert!(c.is_ascii_digit() || ('a'..='f').contains(&c));
            }
        }
    }
}

#[test]
fn expose_refusals_name_the_parameter() {
    let mut table = ExposeTable::new();
    let mut registry = ManifestRegistry::new();
    let mut refused = |a: &str| {
        expose_with_id(&json(a), "u", &mut table, &mut registry).err().unwrap()
    };
    assert_eq!(refused("{}"), "missing required parameter: port");
    assert_eq!(refused(r#"{"port":65536}"#), "port must be a valid u16 (0–65535)");
    assert_eq!(refused(r#"{"port":1}"#), "missing required parameter: name");
    assert_eq!(
        refused(r#"{"port":1,"name":"a b"}"#),
        "name must be non-empty and contain only alphanumeric characters or underscores"
    );
    assert!(handle_unexpose(&json("{}"), &mut table, &mut registry).is_err());
    assert!(handle_unexpose(&json(r#"{"name":"x"}"#), &mut table, &mut registry).is_err());
    assert_eq!(
        handle_connect("other", &json("{}"), &table).unwrap_err(),
        "unexpected tool name: other"
    );
    assert!(is_good_name("a_1é") && !is_good_name("") && !is_good_name("a-b"));
    assert_eq!(
        connect_tool("db", None).description,
        "Connect to db on this peer. Returns a local URL for the tunneled service."
    );
}
