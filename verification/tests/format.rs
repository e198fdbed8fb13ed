use prima_tracing::{ContextInfo, DdContext, DefaultEventFormatter, EventData, Level, SpanData};
use prima_tracing::PrimaJsonVisitor;
use prima_tracing::NopEventFormatter;

fn info() -> ContextInfo {
    ContextInfo::new(
        "myapp".to_string(),
        Some("it".to_string()),
        "dev".to_string(),
    )
}

fn plain_event(level: Level) -> EventData {
    EventData {
        level,
        target: "myapp::module".to_string(),
        file: Some("src/module.rs".to_string()),
        line: Some(42),
        fields: PrimaJsonVisitor::new(),
    }
}

fn span(name: &str) -> SpanData {
    let mut fields = PrimaJsonVisitor::new();
    fields.record_str("scope_tag", name);
    SpanData {
        name: name.to_string(),
        target: "myapp::module".to_string(),
        file: Some("src/module.rs".to_string()),
        line: Some(7),
        fields,
    }
}

fn format(event: &EventData, chain: &Vec<SpanData>, dd: Option<DdContext>) -> serde_json::Value {
    let out = DefaultEventFormatter.format_event_with_timestamp(
        "2024-01-02T03:04:05.000006Z",
        event,
        chain,
        &info(),
        dd,
    );
    serde_json::from_str(&out).expect("output must be valid JSON")
}

#[test]
fn document_has_core_members_without_custom_fields() {
    let event = plain_event(Level::Info);
    let doc = format(&event, &vec![], None);
    assert_eq!(doc["timestamp"], "2024-01-02T03:04:05.000006Z");
    assert_eq!(doc["level"], "info");
    assert_eq!(doc["type"], "myapp");
    assert_eq!(doc["country"], "it");
    assert_eq!(doc["environment"], "dev");
    // No message was recorded, so the member is absent.
    assert!(doc.get("message").is_none());
    let metadata = doc["metadata"].as_object().expect("metadata is an object");
    assert_eq!(metadata["environment"], "dev");
    assert_eq!(metadata["target"], "myapp::module");
    assert_eq!(metadata["file"], "src/module.rs");
    assert_eq!(metadata["line"], 42);
    assert!(metadata["spans"].as_array().expect("spans is an array").is_empty());
    assert!(metadata.get("current_span").is_none());
    assert!(doc.get("dd").is_none());
}

#[test]
fn message_field_is_reported_at_top_level() {
    let mut event = plain_event(Level::Info);
    event.fields.record_debug("message", "hello world");
    let doc = format(&event, &vec![], None);
    assert_eq!(doc["message"], "hello world");
    // The message never appears under metadata.
    assert!(doc["metadata"].get("message").is_none());
}

#[test]
fn string_field_decodes_to_the_exact_string() {
    let mut event = plain_event(Level::Info);
    event.fields.record_str("k", "v");
    let doc = format(&event, &vec![], None);
    assert_eq!(doc["metadata"]["k"], serde_json::Value::String("v".to_string()));
}

#[test]
fn string_field_with_escapes_round_trips() {
    let mut event = plain_event(Level::Info);
    let tricky = "a\"b\\c\nd\te\u{8}f\u{c}g\rh\u{1f}i, caffè";
    event.fields.record_str("k", tricky);
    let doc = format(&event, &vec![], None);
    assert_eq!(doc["metadata"]["k"], serde_json::Value::String(tricky.to_string()));
}

#[test]
fn custom_keys_appear_verbatim_except_message_and_reserved() {
    let mut event = plain_event(Level::Info);
    event.fields.record_str("message", "m");
    event.fields.record_str("log.target", "bridged::target");
    event.fields.record_str("log.file", "bridged.rs");
    event.fields.record_u64("log.line", 9);
    event.fields.record_str("user", "u1");
    event.fields.record_i64("count", -3);
    event.fields.record_u64("size", 18446744073709551615);
    let doc = format(&event, &vec![], None);
    let metadata = doc["metadata"].as_object().unwrap();
    assert_eq!(metadata["user"], "u1");
    assert_eq!(metadata["count"], -3i64);
    assert_eq!(metadata["size"], 18446744073709551615u64);
    assert!(metadata.get("message").is_none());
    assert!(metadata.get("log.target").is_none());
    assert!(metadata.get("log.file").is_none());
    assert!(metadata.get("log.line").is_none());
}

#[test]
fn extreme_integers_render_exactly() {
    let mut event = plain_event(Level::Info);
    event.fields.record_i64("min", i64::MIN);
    event.fields.record_i64("max", i64::MAX);
    event.fields.record_u64("umax", u64::MAX);
    event.fields.record_u64("zero", 0);
    let doc = format(&event, &vec![], None);
    assert_eq!(doc["metadata"]["min"], -9223372036854775808i64);
    assert_eq!(doc["metadata"]["max"], 9223372036854775807i64);
    assert_eq!(doc["metadata"]["umax"], 18446744073709551615u64);
    assert_eq!(doc["metadata"]["zero"], 0);
}

#[test]
fn reserved_fields_fill_missing_callsite_metadata() {
    let mut event = plain_event(Level::Info);
    event.file = None;
    event.line = None;
    event.fields.record_str("log.target", "bridged::target");
    event.fields.record_str("log.file", "bridged.rs");
    event.fields.record_u64("log.line", 9);
    let doc = format(&event, &vec![], None);
    // The bridging target always wins; file and line only fill gaps.
    assert_eq!(doc["metadata"]["target"], "bridged::target");
    assert_eq!(doc["metadata"]["file"], "bridged.rs");
    assert_eq!(doc["metadata"]["line"], 9);
}

#[test]
fn missing_location_defaults_to_dash_and_zero() {
    let mut event = plain_event(Level::Info);
    event.file = None;
    event.line = None;
    let doc = format(&event, &vec![], None);
    assert_eq!(doc["metadata"]["file"], "-");
    assert_eq!(doc["metadata"]["line"], 0);
}

#[test]
fn nested_scopes_are_reported_root_first() {
    let event = plain_event(Level::Info);
    let chain = vec![span("A"), span("B"), span("C")];
    let doc = format(&event, &chain, None);
    let spans = doc["metadata"]["spans"].as_array().expect("spans is an array");
    let names: Vec<&str> = spans.iter().map(|s| s["name"].as_str().unwrap()).collect();
    assert_eq!(names, vec!["A", "B", "C"]);
    assert_eq!(doc["metadata"]["current_span"]["name"], "C");
    assert_eq!(doc["metadata"]["current_span"]["scope_tag"], "C");
    assert_eq!(spans[0]["line"], 7);
    assert_eq!(spans[0]["target"], "myapp::module");
    assert_eq!(spans[0]["file"], "src/module.rs");
}

#[test]
fn bool_field_serializes_as_boolean() {
    let mut event = plain_event(Level::Info);
    event.fields.record_bool("flag", true);
    let doc = format(&event, &vec![], None);
    assert_eq!(doc["metadata"]["flag"], serde_json::Value::Bool(true));
    assert_ne!(doc["metadata"]["flag"], serde_json::Value::String("true".to_string()));
}

#[test]
fn error_event_without_scope_is_complete() {
    let event = plain_event(Level::Error);
    let doc = format(&event, &vec![], None);
    assert_eq!(doc["level"], "error");
    assert!(doc["metadata"].is_object());
    assert!(doc["metadata"]["spans"].as_array().unwrap().is_empty());
}

#[test]
fn dd_block_carries_truncated_trace_id() {
    let event = plain_event(Level::Info);
    let dd = DdContext::from_ids(0x0123456789abcdef_fedcba9876543210u128, 77);
    let doc = format(&event, &vec![], Some(dd));
    assert_eq!(doc["dd"]["trace_id"], 0xfedcba9876543210u64);
    assert_eq!(doc["dd"]["span_id"], 77u64);
}

#[test]
fn current_timestamp_is_stamped() {
    let event = plain_event(Level::Warn);
    let out = DefaultEventFormatter.format_event(&event, &vec![], &info(), None);
    let doc: serde_json::Value = serde_json::from_str(&out).unwrap();
    let ts = doc["timestamp"].as_str().expect("timestamp is a string");
    // RFC 3339 with microsecond precision, UTC.
    assert!(ts.ends_with('Z'));
    assert!(ts.len() >= 27);
    assert_eq!(&ts[4..5], "-");
    assert_eq!(doc["level"], "warn");
}

#[test]
fn nop_formatter_emits_nothing() {
    let event = plain_event(Level::Info);
    let out = NopEventFormatter {}.format_event(&event, &vec![], &info(), None);
    assert!(out.is_empty());
}

#[test]
fn encoder_agrees_with_reference_on_strings() {
    for s in [
        "",
        "plain",
        "with \"quotes\" and \\ backslash",
        "control \u{0} \u{1} \u{1f} chars",
        "newline\nand\ttab",
        "unicode → ñ € 漢字",
    ] {
        let mut event = plain_event(Level::Info);
        event.fields.record_str("s", s);
        let doc = format(&event, &vec![], None);
        assert_eq!(doc["metadata"]["s"].as_str().unwrap(), s);
    }
}

#[test]
fn country_may_be_absent() {
    let event = plain_event(Level::Info);
    let out = DefaultEventFormatter.format_event_with_timestamp(
        "2024-01-02T03:04:05.000006Z",
        &event,
        &vec![],
        &ContextInfo::new("myapp".to_string(), None, "dev".to_string()),
        None,
    );
    let doc: serde_json::Value = serde_json::from_str(&out).unwrap();
    assert!(doc["country"].is_null());
}
