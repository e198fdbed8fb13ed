use prima_tracing::telemetry::normalize_collector_url;
use prima_tracing::{builder, Country, Environment};
use prima_tracing::NopEventFormatter;

#[test]
fn normalize_collector_url_test() {
    let base = "http://localhost:8080";
    let expected = "http://localhost:8080/v1/traces";

    assert_eq!(normalize_collector_url(base), expected);

    let with_trailing_slash = format!("{}/", base);
    assert_eq!(
        normalize_collector_url(with_trailing_slash.as_str()),
        expected
    );

    let complete = format!("{}/v1/traces", base);
    assert_eq!(normalize_collector_url(complete.as_str()), expected);
}

#[test]
fn normalize_handles_endpoint_with_trailing_slash() {
    assert_eq!(
        normalize_collector_url("http://jaeger:55681/v1/traces/"),
        "http://jaeger:55681/v1/traces"
    );
}

#[test]
fn builder_collects_the_whole_configuration() {
    let config = builder("pricing")
        .with_country(Country::It)
        .with_env(Environment::Production)
        .with_version("9.9.9".to_string())
        .with_telemetry("http://collector:4318".to_string(), "pricing-traces".to_string())
        .build();

    assert_eq!(config.service, "pricing");
    assert_eq!(config.country, Country::It);
    assert_eq!(config.env, Environment::Production);
    assert_eq!(config.version, Some("9.9.9".to_string()));
    let telemetry = config.telemetry.expect("telemetry was configured");
    assert_eq!(telemetry.collector_url, "http://collector:4318");
    assert_eq!(telemetry.service_name, "pricing-traces");
}

#[test]
fn builder_swaps_the_formatter() {
    let config = builder("svc")
        .with_custom_json_formatter(NopEventFormatter {})
        .with_country(Country::Common)
        .with_env(Environment::Dev)
        .build();
    let _formatter: NopEventFormatter = config.json_formatter;
    assert_eq!(config.telemetry.is_none(), true);
    assert_eq!(config.version, None);
}

#[test]
fn country_parses_every_known_name() {
    assert_eq!(Country::from_str("common").unwrap(), Country::Common);
    assert_eq!(Country::from_str("it").unwrap(), Country::It);
    assert_eq!(Country::from_str("es").unwrap(), Country::Es);
    assert_eq!(Country::from_str("uk").unwrap(), Country::Uk);
    assert_eq!(Country::It.as_str(), "it");
    assert_eq!(Country::Common.as_str(), "common");
}

#[test]
fn unknown_country_is_rejected_with_its_input() {
    let err = Country::from_str("fr").unwrap_err();
    assert_eq!(
        err.message(),
        "fr is not a valid country string. Allowed strings are 'common', 'it', 'es' and 'uk'."
    );
    assert!(Country::from_str("IT").is_err());
    assert!(Country::from_str("").is_err());
}

#[test]
fn environment_parses_every_known_name() {
    assert_eq!(Environment::from_str("dev").unwrap(), Environment::Dev);
    assert_eq!(Environment::from_str("staging").unwrap(), Environment::Staging);
    assert_eq!(
        Environment::from_str("production").unwrap(),
        Environment::Production
    );
    assert_eq!(Environment::Staging.as_str(), "staging");
}

#[test]
fn unknown_environment_is_rejected_with_its_input() {
    let err = Environment::from_str("qa").unwrap_err();
    assert_eq!(
        err.message(),
        "qa is not a valid environment string. Allowed strings are 'dev', 'staging' and 'production'."
    );
}
