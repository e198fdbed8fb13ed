//! Structured diagnostics: typed field capture, JSON event formatting with
//! scope context, error-chain enrichment, and subscriber configuration.
//!
//! A [`PrimaJsonVisitor`] store collects the named values recorded on an
//! event or scope, later writes to a key replacing earlier ones. The
//! [`DefaultEventFormatter`] renders one event, its store and the active
//! scope chain into a fixed JSON document whose exact text is given by the
//! specification functions of [`json::formatter`]. Error-level events are
//! evaluated by [`layer::ErrorLayer`], which turns an error's cause chain
//! into exportable scope attributes and a structured exception sub-event.
//! [`builder`] collects a subscriber's configuration; the country and the
//! environment are tracked in the builder's type, so only a complete
//! configuration can build.

pub mod config;
pub mod json;
pub mod layer;
pub mod macros;
pub mod subscriber;
pub mod telemetry;
pub mod text;

pub use crate::config::{
    builder, Country, CountryParseError, Environment, EnvironmentParseError, SubscriberConfig,
    SubscriberConfigBuilder,
};
pub use crate::json::formatter::{DdContext, DefaultEventFormatter, EventData, Level, SpanData};
pub use crate::json::storage::{FromValue, PrimaJsonStorage, PrimaJsonVisitor};
pub use crate::json::value::Value;
pub use crate::subscriber::{ContextInfo, NopEventFormatter, Tracing, Uninstall};
