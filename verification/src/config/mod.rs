//! Subscriber configuration: the typestate builder that collects the
//! service name, country, environment, version, telemetry endpoint and
//! formatter before a subscriber can be assembled.

pub mod country;
pub mod environment;

pub use country::{Country, CountryParseError};
pub use environment::{Environment, EnvironmentParseError};

use vstd::prelude::*;
use vstd::string::StringExecFns;

use crate::json::formatter::DefaultEventFormatter;

verus! {

/// `SubscriberConfig` configuration built via [`SubscriberConfigBuilder`].
/// It contains
/// - Application env
/// - Telemetry config
/// - JSON formatter
pub struct SubscriberConfig<T> {
    pub country: Country,
    pub env: Environment,
    pub telemetry: Option<TelemetryConfig>,
    pub service: String,
    pub version: Option<String>,
    pub json_formatter: T,
}

/// The telemetry collector endpoint and the service name included in
/// exported traces.
pub struct TelemetryConfig {
    pub collector_url: String,
    pub service_name: String,
}

/// Builder state: no country chosen yet.
pub struct WithoutCountry;

/// Builder state: the chosen country.
pub struct WithCountry(pub(crate) Country);

/// Builder state: no environment chosen yet.
pub struct WithoutEnvironment;

/// Builder state: the chosen environment.
pub struct WithEnvironment(pub(crate) Environment);

impl WithCountry {
    /// The chosen country.
    pub closed spec fn spec_value(self) -> Country {
        self.0
    }
}

impl WithEnvironment {
    /// The chosen environment.
    pub closed spec fn spec_value(self) -> Environment {
        self.0
    }
}

/// Collects a subscriber's configuration. The country and environment are
/// tracked in the type: only a builder that has both can build.
pub struct SubscriberConfigBuilder<F, C, E> {
    country: C,
    env: E,
    telemetry: Option<TelemetryConfig>,
    service: String,
    version: Option<String>,
    formatter: F,
}

/// Create a [`SubscriberConfigBuilder`].
pub fn builder(service: &str) -> (r: SubscriberConfigBuilder<
    DefaultEventFormatter,
    WithoutCountry,
    WithoutEnvironment,
>)
    ensures
        r.spec_service() == service@,
        r.spec_telemetry() is None,
        r.spec_version() is None,
{
    SubscriberConfigBuilder::<DefaultEventFormatter, WithoutCountry, WithoutEnvironment>::new(
        service,
    )
}

impl<F, C, E> SubscriberConfigBuilder<F, C, E> {
    /// The configured service name.
    pub closed spec fn spec_service(self) -> Seq<char> {
        self.service@
    }

    /// The configured version, when one was set.
    pub closed spec fn spec_version(self) -> Option<String> {
        self.version
    }

    /// The configured telemetry endpoint, when one was set.
    pub closed spec fn spec_telemetry(self) -> Option<TelemetryConfig> {
        self.telemetry
    }

    /// The chosen country state.
    pub closed spec fn spec_country(self) -> C {
        self.country
    }

    /// The chosen environment state.
    pub closed spec fn spec_env(self) -> E {
        self.env
    }

    /// The configured formatter.
    pub closed spec fn spec_formatter(self) -> F {
        self.formatter
    }

    /// Set the application version.
    pub fn with_version(self, version: String) -> (r: Self)
        ensures
            r.spec_version() == Some(version),
            r.spec_service() == self.spec_service(),
            r.spec_telemetry() == self.spec_telemetry(),
            r.spec_country() == self.spec_country(),
            r.spec_env() == self.spec_env(),
            r.spec_formatter() == self.spec_formatter(),
    {
        let mut this = self;
        this.version = Some(version);
        this
    }

    /// Set the telemetry collector URL and the service name included in
    /// telemetry traces.
    pub fn with_telemetry(self, collector_url: String, service_name: String) -> (r: Self)
        ensures
            r.spec_telemetry() matches Some(t) && t.collector_url == collector_url
                && t.service_name == service_name,
            r.spec_service() == self.spec_service(),
            r.spec_version() == self.spec_version(),
            r.spec_country() == self.spec_country(),
            r.spec_env() == self.spec_env(),
            r.spec_formatter() == self.spec_formatter(),
    {
        let mut this = self;
        this.telemetry = Some(TelemetryConfig { collector_url, service_name });
        this
    }

    /// Set the custom JSON formatter to be used for structured output.
    pub fn with_custom_json_formatter<G>(self, formatter: G) -> (r: SubscriberConfigBuilder<
        G,
        C,
        E,
    >)
        ensures
            r.spec_formatter() == formatter,
            r.spec_service() == self.spec_service(),
            r.spec_version() == self.spec_version(),
            r.spec_telemetry() == self.spec_telemetry(),
            r.spec_country() == self.spec_country(),
            r.spec_env() == self.spec_env(),
    {
        SubscriberConfigBuilder {
            formatter,
            country: self.country,
            env: self.env,
            service: self.service,
            version: self.version,
            telemetry: self.telemetry,
        }
    }
}

impl<F> SubscriberConfigBuilder<F, WithoutCountry, WithoutEnvironment> {
    /// Create a [`SubscriberConfigBuilder`].
    pub fn new(service: &str) -> (r: SubscriberConfigBuilder<
        DefaultEventFormatter,
        WithoutCountry,
        WithoutEnvironment,
    >)
        ensures
            r.spec_service() == service@,
            r.spec_telemetry() is None,
            r.spec_version() is None,
    {
        Self::_new(service, DefaultEventFormatter)
    }

    fn _new<G>(service: &str, formatter: G) -> (r: SubscriberConfigBuilder<
        G,
        WithoutCountry,
        WithoutEnvironment,
    >)
        ensures
            r.spec_service() == service@,
            r.spec_telemetry() is None,
            r.spec_version() is None,
            r.spec_formatter() == formatter,
    {
        SubscriberConfigBuilder {
            service: service.to_owned(),
            country: WithoutCountry,
            env: WithoutEnvironment,
            telemetry: None,
            version: None,
            formatter,
        }
    }
}

impl<F, E> SubscriberConfigBuilder<F, WithoutCountry, E> {
    /// Set the country in which the application is running.
    pub fn with_country(self, country: Country) -> (r: SubscriberConfigBuilder<F, WithCountry, E>)
        ensures
            r.spec_country().spec_value() == country,
            r.spec_service() == self.spec_service(),
            r.spec_version() == self.spec_version(),
            r.spec_telemetry() == self.spec_telemetry(),
            r.spec_env() == self.spec_env(),
            r.spec_formatter() == self.spec_formatter(),
    {
        SubscriberConfigBuilder {
            country: WithCountry(country),
            env: self.env,
            telemetry: self.telemetry,
            service: self.service,
            version: self.version,
            formatter: self.formatter,
        }
    }
}

impl<F, C> SubscriberConfigBuilder<F, C, WithoutEnvironment> {
    /// Set the environment in which the application is running.
    pub fn with_env(self, env: Environment) -> (r: SubscriberConfigBuilder<F, C, WithEnvironment>)
        ensures
            r.spec_env().spec_value() == env,
            r.spec_service() == self.spec_service(),
            r.spec_version() == self.spec_version(),
            r.spec_telemetry() == self.spec_telemetry(),
            r.spec_country() == self.spec_country(),
            r.spec_formatter() == self.spec_formatter(),
    {
        SubscriberConfigBuilder {
            country: self.country,
            env: WithEnvironment(env),
            telemetry: self.telemetry,
            service: self.service,
            version: self.version,
            formatter: self.formatter,
        }
    }
}

impl<F> SubscriberConfigBuilder<F, WithCountry, WithEnvironment> {
    /// Build a [`SubscriberConfig`].
    pub fn build(self) -> (r: SubscriberConfig<F>)
        ensures
            r.country == self.spec_country().spec_value(),
            r.env == self.spec_env().spec_value(),
            r.telemetry == self.spec_telemetry(),
            r.service@ == self.spec_service(),
            r.version == self.spec_version(),
            r.json_formatter == self.spec_formatter(),
    {
        SubscriberConfig {
            country: self.country.0,
            env: self.env.0,
            telemetry: self.telemetry,
            service: self.service,
            version: self.version,
            json_formatter: self.formatter,
        }
    }
}

} // verus!
