//! Static attribute injection of deployment identifiers: fixed process-wide
//! values stamped onto each scope at creation.

use vstd::prelude::*;
use vstd::string::StringExecFns;

use crate::layer::{opt_attr, AttrEntries};
use crate::text::pairs_view;

verus! {

/// Deployment identifiers sourced from the environment at construction
/// time, added to every new scope's exportable attributes.
pub struct KubeEnvLayer {
    pub kube_app_part_of: Option<String>,
    pub kube_app_managed_by: Option<String>,
    pub kube_app_version: Option<String>,
    pub kube_app_instance: Option<String>,
}

impl KubeEnvLayer {
    /// The attributes stamped onto a newly created scope: one entry per
    /// present value, in a fixed order; absent values are skipped.
    pub open spec fn spec_attributes(self) -> AttrEntries {
        opt_attr("kube_app_part_of"@, self.kube_app_part_of) + opt_attr(
            "kube_app_managed_by"@,
            self.kube_app_managed_by,
        ) + opt_attr("kube_app_version"@, self.kube_app_version) + opt_attr(
            "kube_app_instance"@,
            self.kube_app_instance,
        )
    }

    /// An injector holding the given identifiers.
    pub fn new(
        kube_app_part_of: Option<String>,
        kube_app_managed_by: Option<String>,
        kube_app_version: Option<String>,
        kube_app_instance: Option<String>,
    ) -> (r: Self)
        ensures
            r.kube_app_part_of == kube_app_part_of,
            r.kube_app_managed_by == kube_app_managed_by,
            r.kube_app_version == kube_app_version,
            r.kube_app_instance == kube_app_instance,
    {
        KubeEnvLayer { kube_app_part_of, kube_app_managed_by, kube_app_version, kube_app_instance }
    }

    /// Computes the attributes for a newly created scope.
    pub fn span_attributes(&self) -> (r: Vec<(String, String)>)
        ensures
            pairs_view(r@) == self.spec_attributes(),
    {
        let mut out: Vec<(String, String)> = Vec::new();
        if let Some(v) = &self.kube_app_part_of {
            out.push((String::from_str("kube_app_part_of"), v.clone()));
        }
        proof {
            assert(pairs_view(out@) =~= opt_attr("kube_app_part_of"@, self.kube_app_part_of));
        }
        if let Some(v) = &self.kube_app_managed_by {
            out.push((String::from_str("kube_app_managed_by"), v.clone()));
        }
        proof {
            assert(pairs_view(out@) =~= opt_attr("kube_app_part_of"@, self.kube_app_part_of)
                + opt_attr("kube_app_managed_by"@, self.kube_app_managed_by));
        }
        if let Some(v) = &self.kube_app_version {
            out.push((String::from_str("kube_app_version"), v.clone()));
        }
        proof {
            assert(pairs_view(out@) =~= opt_attr("kube_app_part_of"@, self.kube_app_part_of)
                + opt_attr("kube_app_managed_by"@, self.kube_app_managed_by) + opt_attr(
                "kube_app_version"@,
                self.kube_app_version,
            ));
        }
        if let Some(v) = &self.kube_app_instance {
            out.push((String::from_str("kube_app_instance"), v.clone()));
        }
        proof {
            assert(pairs_view(out@) =~= self.spec_attributes());
        }
        out
    }
}

} // verus!
