//! The sink-side capability types: process context handed to every
//! formatting call, the uninstall guard, and the no-op formatter.

use vstd::prelude::*;

use crate::json::formatter::{DdContext, EventData, SpanData};

verus! {

pub struct Tracing;

/// Uninstall guard for doing work at shutdown. In the plain configuration
/// there is nothing to release; the telemetry-enabled shell owns its own
/// guard that shuts the exporter down.
pub struct Uninstall;

/// Information about the current app context like name or environment.
/// Immutable once the sink is installed.
pub struct ContextInfo {
    app_name: String,
    country: Option<String>,
    environment: String,
}

/// The view of an optional string.
pub open spec fn view_opt_string(o: Option<String>) -> Option<Seq<char>> {
    match o {
        Some(s) => Some(s@),
        None => None,
    }
}

impl ContextInfo {
    pub closed spec fn spec_app_name(self) -> Seq<char> {
        self.app_name@
    }

    pub closed spec fn spec_country(self) -> Option<Seq<char>> {
        view_opt_string(self.country)
    }

    pub closed spec fn spec_environment(self) -> Seq<char> {
        self.environment@
    }

    pub fn new(app_name: String, country: Option<String>, environment: String) -> (r: Self)
        ensures
            r.spec_app_name() == app_name@,
            r.spec_country() == view_opt_string(country),
            r.spec_environment() == environment@,
    {
        ContextInfo { app_name, country, environment }
    }

    pub fn app_name(&self) -> (r: &String)
        ensures
            r@ == self.spec_app_name(),
    {
        &self.app_name
    }

    pub fn country(&self) -> (r: &Option<String>)
        ensures
            view_opt_string(*r) == self.spec_country(),
    {
        &self.country
    }

    pub fn environment(&self) -> (r: &String)
        ensures
            r@ == self.spec_environment(),
    {
        &self.environment
    }
}

/// The degenerate formatter: emits an empty buffer for every event, for use
/// when structured output is disabled.
pub struct NopEventFormatter {}

impl NopEventFormatter {
    /// Formats an event to nothing.
    pub fn format_event(
        &self,
        event: &EventData,
        chain: &Vec<SpanData>,
        info: &ContextInfo,
        dd: Option<DdContext>,
    ) -> (r: String)
        ensures
            r@ == Seq::<char>::empty(),
    {
        String::new()
    }
}

} // verus!
