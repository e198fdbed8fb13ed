//! Static attribute injection of the service version onto each new scope.

use vstd::prelude::*;
use vstd::string::StringExecFns;

use crate::layer::AttrEntries;
use crate::text::pairs_view;

verus! {

/// Stamps the configured application version, when one is set, onto every
/// new scope's exportable attributes.
pub struct VersionLayer {
    pub version: Option<String>,
}

impl VersionLayer {
    /// The attributes stamped onto a newly created scope: both version keys
    /// when a version is set, nothing otherwise.
    pub open spec fn spec_attributes(self) -> AttrEntries {
        match self.version {
            Some(v) => seq![("version"@, v@), ("service.version"@, v@)],
            None => Seq::empty(),
        }
    }

    /// Computes the attributes for a newly created scope.
    pub fn span_attributes(&self) -> (r: Vec<(String, String)>)
        ensures
            pairs_view(r@) == self.spec_attributes(),
    {
        let mut out: Vec<(String, String)> = Vec::new();
        if let Some(v) = &self.version {
            out.push((String::from_str("version"), v.clone()));
            out.push((String::from_str("service.version"), v.clone()));
        }
        proof {
            assert(pairs_view(out@) =~= self.spec_attributes());
        }
        out
    }
}

} // verus!
