//! Telemetry endpoint handling: normalization of the configured collector
//! URL to the exporter's expected shape.

use vstd::prelude::*;
use vstd::string::StringExecFns;

use crate::text::{spec_has_suffix, spec_strip_suffix, strip_suffix_str};

verus! {

/// The normalized collector endpoint: any trailing slash is removed, a
/// trailing `/v1/traces` segment is removed for compatibility with
/// configurations that carry it, a remaining trailing slash is removed,
/// and the `/v1/traces` segment is appended.
pub open spec fn spec_normalized_url(s: Seq<char>) -> Seq<char> {
    let t1 = spec_strip_suffix(s, "/"@);
    let t2 = if spec_has_suffix(t1, "/v1/traces"@) {
        t1.take(t1.len() - "/v1/traces"@.len())
    } else {
        s
    };
    let t3 = spec_strip_suffix(t2, "/"@);
    t3 + "/v1/traces"@
}

/// Normalizes the configured collector URL to end in exactly one
/// `/v1/traces` segment.
pub fn normalize_collector_url(collector_url: &str) -> (r: String)
    ensures
        r@ == spec_normalized_url(collector_url@),
{
    let t1 = match strip_suffix_str(collector_url, "/") {
        Some(t) => t,
        None => collector_url,
    };
    let t2 = match strip_suffix_str(t1, "/v1/traces") {
        Some(t) => t,
        None => collector_url,
    };
    let t3 = match strip_suffix_str(t2, "/") {
        Some(t) => t,
        None => t2,
    };
    let mut out = t3.to_owned();
    out.append("/v1/traces");
    out
}

} // verus!
