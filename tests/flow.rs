use std::collections::HashSet;

use proper_rust::{
    bind_for_logging, ChuckApiServiceImpl, ChuckConfig, FlowContext, FlowLogger, JsonEncoder,
    Level, LoggingMeta,
};

fn encoder() -> JsonEncoder {
    JsonEncoder::new(LoggingMeta {
        build_time: "b".to_string(),
        name: "n".to_string(),
        version: "v".to_string(),
    })
}

fn is_uuid_text(s: &str) -> bool {
    s.len() == 36
        && s.chars().enumerate().all(|(i, c)| {
            if i == 8 || i == 13 || i == 18 || i == 23 {
                c == '-'
            } else {
                c.is_ascii_digit() || ('a'..='f').contains(&c)
            }
        })
        && s.as_bytes()[14] == b'4'
        && matches!(s.as_bytes()[19], b'8' | b'9' | b'a' | b'b')
}

#[test]
fn new_context_ids_are_unique() {
    let mut ids = HashSet::new();
    for _ in 0..1000 {
        let fc = FlowContext::new(None::<String>);
        assert!(!fc.flow_id.is_empty());
        assert!(is_uuid_text(&fc.flow_id));
        ids.insert(fc.flow_id);
    }
    assert_eq!(ids.len(), 1000);
}

#[test]
fn new_context_keeps_candidate() {
    let fc = FlowContext::new(Some("abc".to_string()));
    assert_eq!(fc.flow_id, "abc");
    let fc = FlowContext::new("db-flow");
    assert_eq!(fc.flow_id, "db-flow");
}

#[test]
fn new_context_replaces_empty_candidate() {
    let fc = FlowContext::new(Some(String::new()));
    assert!(is_uuid_text(&fc.flow_id));
    let fc = FlowContext::new("");
    assert!(is_uuid_text(&fc.flow_id));
}

#[test]
fn bound_flow_id_reaches_record() {
    let fc = FlowContext::new("req-42");
    let inside = bind_for_logging(&fc, || encoder().encode(Level::Info, "app", "in", None));
    let inside = inside.unwrap();
    assert!(inside.contains("\"flow-id\":\"req-42\""));
    let outside = encoder().encode(Level::Info, "app", "out", None).unwrap();
    assert!(!outside.contains("flow-id"));
}

#[test]
fn binding_restores_previous_id() {
    let outer = FlowContext::new("outer");
    let inner = FlowContext::new("inner");
    let (a, b) = bind_for_logging(&outer, || {
        let a = bind_for_logging(&inner, || encoder().encode(Level::Info, "x", "m", None));
        let b = encoder().encode(Level::Info, "x", "m", None);
        (a.unwrap(), b.unwrap())
    });
    assert!(a.contains("\"flow-id\":\"inner\""));
    assert!(b.contains("\"flow-id\":\"outer\""));
}

#[test]
fn logger_events_carry_context() {
    let log = FlowLogger::new("app::backend");
    assert_eq!(log.target(), "app::backend");
    let fc = FlowContext::new("my-flow");
    let ev = log.info(&fc, "making api call");
    assert_eq!(ev.level, Level::Info);
    assert_eq!(ev.target, "app::backend");
    assert_eq!(ev.message, "making api call");
    assert_eq!(ev.flow_id, "my-flow");
    let unbound = encoder().encode(ev.level, &ev.target, &ev.message, None).unwrap();
    assert!(!unbound.contains("flow-id"));
    let scoped = FlowLogger::emit(&ev, |e| encoder().encode(e.level, &e.target, &e.message, None));
    assert!(scoped.unwrap().contains("\"flow-id\":\"my-flow\""));
    let after = encoder().encode(Level::Info, "app", "after", None).unwrap();
    assert!(!after.contains("flow-id"));
    let ev = log.error(&fc, "failed");
    assert_eq!(ev.level, Level::Error);
    assert_eq!(ev.message, "failed");
}

#[test]
fn joke_client_keeps_url() {
    let url = "https://api.chucknorris.io/jokes/random";
    let client = ChuckApiServiceImpl::new(ChuckConfig { url: url.to_string() });
    assert_eq!(client.url(), url);
}
