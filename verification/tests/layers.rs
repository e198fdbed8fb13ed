use prima_tracing::layer::error::ErrorLayer;
use prima_tracing::layer::{AttributeSet, KubeEnvLayer, VersionLayer};
use prima_tracing::Level;

fn chain() -> Vec<String> {
    vec!["E1".to_string(), "E2".to_string(), "E3".to_string()]
}

#[test]
fn error_chain_enriches_active_scope() {
    let enrichment = ErrorLayer
        .on_event(Level::Error, true, &Some(chain()))
        .expect("an error event with an active scope enriches it");

    let mut scope = AttributeSet::new();
    scope.apply(&enrichment.scope_attributes);
    assert_eq!(scope.get("error.message"), Some(&"E1".to_string()));
    assert_eq!(scope.get("error.type"), Some(&"Error".to_string()));
    assert_eq!(scope.get("error.kind"), Some(&"Error".to_string()));
    assert_eq!(scope.get("error.stack"), Some(&"E1\nE2\nE3".to_string()));
    assert_eq!(enrichment.status_message, "E1");

    let ex: Vec<(&str, &str)> = enrichment
        .exception_attributes
        .iter()
        .map(|e| (e.0.as_str(), e.1.as_str()))
        .collect();
    assert_eq!(
        ex,
        vec![
            ("exception.type", "Error"),
            ("exception.message", "E1"),
            ("exception.stacktrace", "E1\nE2\nE3"),
            ("error.type", "Error"),
            ("error.message", "E1"),
        ]
    );
}

#[test]
fn enrichment_without_scope_is_a_silent_noop() {
    assert!(ErrorLayer.on_event(Level::Error, false, &Some(chain())).is_none());
}

#[test]
fn enrichment_ignores_non_error_levels() {
    assert!(ErrorLayer.on_event(Level::Info, true, &Some(chain())).is_none());
    assert!(ErrorLayer.on_event(Level::Warn, true, &Some(chain())).is_none());
}

#[test]
fn enrichment_needs_an_attached_error() {
    assert!(ErrorLayer.on_event(Level::Error, true, &None).is_none());
    assert!(ErrorLayer.on_event(Level::Error, true, &Some(vec![])).is_none());
}

#[test]
fn single_error_reduces_to_its_own_message() {
    let enrichment = ErrorLayer
        .on_event(Level::Error, true, &Some(vec!["lonely".to_string()]))
        .unwrap();
    let mut scope = AttributeSet::new();
    scope.apply(&enrichment.scope_attributes);
    assert_eq!(scope.get("error.stack"), Some(&"lonely".to_string()));
    assert_eq!(scope.get("error.message"), Some(&"lonely".to_string()));
}

#[test]
fn attribute_set_overwrites_on_repeat() {
    let mut scope = AttributeSet::new();
    scope.insert("error.message", "first".to_string());
    scope.insert("error.message", "second".to_string());
    assert_eq!(scope.get("error.message"), Some(&"second".to_string()));
    assert_eq!(scope.attributes().len(), 1);
}

#[test]
fn kube_env_skips_absent_values() {
    let layer = KubeEnvLayer::new(
        Some("shop".to_string()),
        None,
        Some("1.2.3".to_string()),
        None,
    );
    let attrs = layer.span_attributes();
    let got: Vec<(&str, &str)> = attrs.iter().map(|e| (e.0.as_str(), e.1.as_str())).collect();
    assert_eq!(
        got,
        vec![("kube_app_part_of", "shop"), ("kube_app_version", "1.2.3")]
    );
}

#[test]
fn kube_env_with_all_values_emits_all_four() {
    let layer = KubeEnvLayer::new(
        Some("a".to_string()),
        Some("b".to_string()),
        Some("c".to_string()),
        Some("d".to_string()),
    );
    assert_eq!(layer.span_attributes().len(), 4);
}

#[test]
fn version_layer_stamps_both_version_keys() {
    let layer = VersionLayer { version: Some("3.2.1".to_string()) };
    let got: Vec<(String, String)> = layer.span_attributes();
    assert_eq!(
        got,
        vec![
            ("version".to_string(), "3.2.1".to_string()),
            ("service.version".to_string(), "3.2.1".to_string()),
        ]
    );
    let empty = VersionLayer { version: None };
    assert!(empty.span_attributes().is_empty());
}
