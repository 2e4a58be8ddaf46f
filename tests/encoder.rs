use proper_rust::text::decimal_string;
use proper_rust::{
    CustomJsonEncoderDeserializer, JsonEncoder, JsonEncoderConfig, Level, LogRecord, LoggingMeta,
    Timestamp,
};

fn meta(build_time: &str, name: &str, version: &str) -> LoggingMeta {
    LoggingMeta {
        build_time: build_time.to_string(),
        name: name.to_string(),
        version: version.to_string(),
    }
}

fn record(
    level: Level,
    logger_name: &str,
    message: &str,
    thread: Option<&str>,
    thread_id: u64,
    flow_id: Option<&str>,
) -> LogRecord {
    LogRecord {
        message: message.to_string(),
        level,
        logger_name: logger_name.to_string(),
        thread: thread.map(|t| t.to_string()),
        thread_id,
        flow_id: flow_id.map(|f| f.to_string()),
    }
}

#[test]
fn default() {
    let time = Timestamp { secs: 1458512540, nanos: 644420340 };
    let encoder = JsonEncoder::new(meta("build", "name", "123"));
    let rec = record(
        Level::Debug,
        "target",
        "message",
        Some("proper_rust::flow_logger::test::default"),
        100,
        Some("my-flow-id"),
    );
    let line = encoder.encode_inner(time, &rec).unwrap();
    let expected = "{\"time\":\"2016-03-20T22:22:20.644420340+00:00\",\"message\":\"message\",\
                    \"level\":\"DEBUG\",\"logger_name\":\"target\",\
                    \"thread\":\"proper_rust::flow_logger::test::default\",\"thread_id\":100,\
                    \"flow-id\":\"my-flow-id\",\"app\":\"name\",\"version\":\"123\",\
                    \"build_time\":\"build\"}";
    assert_eq!(expected, line.trim());
}

#[test]
fn fetched_grocery_list_line() {
    let time = Timestamp { secs: 1704067200, nanos: 0 };
    let encoder = JsonEncoder::new(meta("2024-01-01", "svc", "1.0"));
    let rec = record(Level::Info, "app.backend", "Fetched grocery list", Some("main"), 7, None);
    let line = encoder.encode_inner(time, &rec).unwrap();
    assert_eq!(
        line,
        "{\"time\":\"2024-01-01T00:00:00+00:00\",\"message\":\"Fetched grocery list\",\
         \"level\":\"INFO\",\"logger_name\":\"app.backend\",\"thread\":\"main\",\"thread_id\":7,\
         \"app\":\"svc\",\"version\":\"1.0\",\"build_time\":\"2024-01-01\"}\n"
    );
    assert!(line.ends_with('\n'));
    assert_eq!(line.matches('\n').count(), 1);
    assert!(!line.contains("flow-id"));
    let parsed: serde_json::Value = serde_json::from_str(line.trim()).unwrap();
    let object = parsed.as_object().unwrap();
    assert_eq!(object.len(), 9);
    assert_eq!(object["message"], "Fetched grocery list");
    assert_eq!(object["level"], "INFO");
    assert_eq!(object["logger_name"], "app.backend");
    assert_eq!(object["app"], "svc");
    assert_eq!(object["version"], "1.0");
    assert_eq!(object["build_time"], "2024-01-01");
}

#[test]
fn flow_id_present_in_record() {
    let encoder = JsonEncoder::new(meta("b", "n", "v"));
    let rec = record(Level::Info, "app", "hello", None, 1, Some("req-42"));
    let line = encoder.encode_record("t", &rec);
    assert!(line.contains("\"flow-id\":\"req-42\""));
}

#[test]
fn missing_thread_name_is_left_out() {
    let encoder = JsonEncoder::new(meta("b", "n", "v"));
    let rec = record(Level::Warn, "app", "m", None, 0, None);
    let line = encoder.encode_record("t", &rec);
    assert_eq!(
        line,
        "{\"time\":\"t\",\"message\":\"m\",\"level\":\"WARN\",\"logger_name\":\"app\",\
         \"thread_id\":0,\"app\":\"n\",\"version\":\"v\",\"build_time\":\"b\"}\n"
    );
    assert!(!line.contains("\"thread\""));
    assert!(!line.contains("null"));
}

#[test]
fn control_characters_are_escaped() {
    let encoder = JsonEncoder::new(meta("b", "n", "v"));
    let rec = record(Level::Info, "app", "a\u{1}b\tc\rd\u{8}e\u{c}f", None, 0, None);
    let line = encoder.encode_record("t", &rec);
    assert!(line.contains("\"message\":\"a\\u0001b\\tc\\rd\\be\\ff\""));
}

#[test]
fn message_is_escaped() {
    let encoder = JsonEncoder::new(meta("b", "n", "v"));
    let rec = record(Level::Error, "app", "say \"hi\"\nbye\\", None, 3, None);
    let line = encoder.encode_record("t", &rec);
    assert!(line.contains("\"message\":\"say \\\"hi\\\"\\nbye\\\\\""));
    assert_eq!(line.matches('\n').count(), 1);
    let parsed: serde_json::Value = serde_json::from_str(line.trim()).unwrap();
    assert_eq!(parsed["message"], "say \"hi\"\nbye\\");
}

#[test]
fn level_names() {
    assert_eq!(Level::Error.name(), "ERROR");
    assert_eq!(Level::Warn.name(), "WARN");
    assert_eq!(Level::Info.name(), "INFO");
    assert_eq!(Level::Debug.name(), "DEBUG");
    assert_eq!(Level::Trace.name(), "TRACE");
}

#[test]
fn time_out_of_range_gives_none() {
    let encoder = JsonEncoder::new(meta("b", "n", "v"));
    let rec = record(Level::Info, "app", "m", None, 0, None);
    assert_eq!(encoder.encode_inner(Timestamp { secs: i64::MAX, nanos: 0 }, &rec), None);
    assert_eq!(encoder.encode_inner(Timestamp { secs: 0, nanos: 2_000_000_000 }, &rec), None);
}

#[test]
fn epoch_time_text() {
    let encoder = JsonEncoder::new(meta("b", "n", "v"));
    let rec = record(Level::Info, "app", "m", None, 0, None);
    let line = encoder.encode_inner(Timestamp { secs: 0, nanos: 0 }, &rec).unwrap();
    assert!(line.starts_with("{\"time\":\"1970-01-01T00:00:00+00:00\","));
}

#[test]
fn deserializer_builds_encoder_with_meta() {
    let d = CustomJsonEncoderDeserializer::new(meta("bt", "svc", "2.0"));
    let encoder = d.deserialize(JsonEncoderConfig::default());
    let rec = record(Level::Info, "a", "m", None, 0, None);
    let line = encoder.encode_record("t", &rec);
    assert!(line.ends_with("\"app\":\"svc\",\"version\":\"2.0\",\"build_time\":\"bt\"}\n"));
}

#[test]
fn encode_now_has_fields() {
    let encoder = JsonEncoder::new(meta("b", "n", "v"));
    let line = encoder.encode(Level::Info, "app", "now", Some("worker".to_string())).unwrap();
    let parsed: serde_json::Value = serde_json::from_str(line.trim()).unwrap();
    assert_eq!(parsed["message"], "now");
    assert_eq!(parsed["thread"], "worker");
    assert!(parsed["thread_id"].is_u64());
}

#[test]
fn decimal_numbers() {
    assert_eq!(decimal_string(0), "0");
    assert_eq!(decimal_string(9), "9");
    assert_eq!(decimal_string(10), "10");
    assert_eq!(decimal_string(18446744073709551615), "18446744073709551615");
}
