use prima_tracing::{PrimaJsonStorage, PrimaJsonVisitor, Value};

#[test]
fn last_write_wins() {
    let mut store = PrimaJsonVisitor::new();
    store.record_i64("a", 1);
    store.record_i64("a", 2);
    let fields = store.fields();
    assert_eq!(fields.len(), 1);
    assert_eq!(fields[0].0, "a");
    assert_eq!(fields[0].1, Value::I64(2));
}

#[test]
fn distinct_keys_keep_insertion_order() {
    let mut store = PrimaJsonVisitor::new();
    store.record_str("first", "1");
    store.record_bool("second", false);
    store.record_u64("third", 3);
    store.record_str("first", "one");
    let keys: Vec<&str> = store.fields().iter().map(|e| e.0.as_str()).collect();
    assert_eq!(keys, vec!["first", "second", "third"]);
    assert_eq!(store.fields()[0].1, Value::Str("one".to_string()));
}

#[test]
fn typed_get_returns_matching_shapes_only() {
    let mut store = PrimaJsonVisitor::new();
    store.record_str("s", "text");
    store.record_debug("d", "Debugged");
    store.record_u64("n", 300);
    store.record_i64("i", -5);
    store.record_bool("b", true);

    // String-shaped reads: natively recorded strings and fallback text.
    assert_eq!(store.get::<String>("s"), Some("text".to_string()));
    assert_eq!(store.get::<String>("d"), Some("Debugged".to_string()));
    assert_eq!(store.get::<String>("n"), None);
    assert_eq!(store.get::<String>("missing"), None);

    // Number-shaped reads: non-negative integers, truncated to 32 bits.
    assert_eq!(store.get::<u32>("n"), Some(300));
    assert_eq!(store.get::<u32>("i"), None);
    assert_eq!(store.get::<u32>("s"), None);
    assert_eq!(store.get::<u32>("b"), None);
}

#[test]
fn typed_get_truncates_wide_numbers() {
    let mut store = PrimaJsonVisitor::new();
    store.record_u64("wide", 0x1_0000_0002);
    assert_eq!(store.get::<u32>("wide"), Some(2));
}

#[test]
fn get_value_finds_recorded_entries() {
    let mut store = PrimaJsonVisitor::new();
    store.record_bool("flag", true);
    assert_eq!(store.get_value("flag"), Some(&Value::Bool(true)));
    assert_eq!(store.get_value("other"), None);
}

#[test]
fn storage_layer_merges_batches() {
    let _layer = prima_tracing::json::storage::layer();
    let mut store = PrimaJsonVisitor::new();
    PrimaJsonStorage::apply_record(
        &mut store,
        &vec![
            ("a".to_string(), Value::I64(1)),
            ("b".to_string(), Value::Str("x".to_string())),
        ],
    );
    PrimaJsonStorage::apply_record(
        &mut store,
        &vec![
            ("a".to_string(), Value::I64(7)),
            ("c".to_string(), Value::Bool(false)),
        ],
    );
    assert_eq!(store.get_value("a"), Some(&Value::I64(7)));
    assert_eq!(store.get_value("b"), Some(&Value::Str("x".to_string())));
    assert_eq!(store.get_value("c"), Some(&Value::Bool(false)));
}
