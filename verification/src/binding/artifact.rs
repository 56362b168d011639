//! Binding targets and generated artifact types.
use vstd::prelude::*;

use crate::capabilities::evaluate::CapabilityReport;
use crate::text::str_eq;

verus! {

/// Supported orchestrator binding targets.
#[derive(Debug, Clone, Copy, PartialEq, Eq, Structural)]
pub enum BindingTarget {
    /// Apache Airflow DAG scaffold.
    Airflow,
    /// Dagster Definitions / job scaffold.
    Dagster,
    /// Prefect flow scaffold.
    Prefect,
    /// Temporal workflow stub (experimental).
    Temporal,
    /// Kubernetes Job / CronJob manifests (experimental).
    Kubernetes,
}

impl BindingTarget {
    /// Wire-form / CLI name.
    pub open spec fn label(self) -> Seq<char> {
        match self {
            BindingTarget::Airflow => "airflow"@,
            BindingTarget::Dagster => "dagster"@,
            BindingTarget::Prefect => "prefect"@,
            BindingTarget::Temporal => "temporal"@,
            BindingTarget::Kubernetes => "kubernetes"@,
        }
    }

    /// Wire-form / CLI name for this target.
    pub fn as_str(self) -> (r: &'static str)
        ensures
            r@ == self.label(),
    {
        match self {
            BindingTarget::Airflow => {
                proof { reveal_strlit("airflow"); }
                "airflow"
            },
            BindingTarget::Dagster => {
                proof { reveal_strlit("dagster"); }
                "dagster"
            },
            BindingTarget::Prefect => {
                proof { reveal_strlit("prefect"); }
                "prefect"
            },
            BindingTarget::Temporal => {
                proof { reveal_strlit("temporal"); }
                "temporal"
            },
            BindingTarget::Kubernetes => {
                proof { reveal_strlit("kubernetes"); }
                "kubernetes"
            },
        }
    }

    /// Returns whether this target is documented as experimental.
    pub fn is_experimental(self) -> (r: bool)
        ensures
            r == (self == BindingTarget::Temporal || self == BindingTarget::Kubernetes),
    {
        match self {
            BindingTarget::Temporal | BindingTarget::Kubernetes => true,
            _ => false,
        }
    }

    /// All supported binding targets in stable order.
    pub fn all() -> (r: Vec<BindingTarget>)
        ensures
            r@ == seq![BindingTarget::Airflow, BindingTarget::Dagster, BindingTarget::Prefect, BindingTarget::Temporal, BindingTarget::Kubernetes],
    {
        let r = vec![BindingTarget::Airflow, BindingTarget::Dagster, BindingTarget::Prefect, BindingTarget::Temporal, BindingTarget::Kubernetes];
        assert(r@ =~= seq![BindingTarget::Airflow, BindingTarget::Dagster, BindingTarget::Prefect, BindingTarget::Temporal, BindingTarget::Kubernetes]);
        r
    }

    /// Target named `s`: a wire-form name, or `k8s` for Kubernetes.
    pub open spec fn named(s: Seq<char>) -> Option<BindingTarget> {
        if s == "airflow"@ {
            Some(BindingTarget::Airflow)
        } else if s == "dagster"@ {
            Some(BindingTarget::Dagster)
        } else if s == "prefect"@ {
            Some(BindingTarget::Prefect)
        } else if s == "temporal"@ {
            Some(BindingTarget::Temporal)
        } else if s == "kubernetes"@ || s == "k8s"@ {
            Some(BindingTarget::Kubernetes)
        } else {
            None
        }
    }

    /// Parse a target name (`FromStr`); the error names the accepted values.
    pub fn from_name(s: &str) -> (r: Result<BindingTarget, String>)
        ensures
            match BindingTarget::named(s@) {
                Some(t) => r == Ok::<BindingTarget, String>(t),
                None => r matches Err(e) && e@ == "unknown binding target `"@ + s@
                    + "`; expected one of: airflow, dagster, prefect, temporal, kubernetes"@,
            },
    {
        if str_eq(s, "airflow") {
            Ok(BindingTarget::Airflow)
        } else if str_eq(s, "dagster") {
            Ok(BindingTarget::Dagster)
        } else if str_eq(s, "prefect") {
            Ok(BindingTarget::Prefect)
        } else if str_eq(s, "temporal") {
            Ok(BindingTarget::Temporal)
        } else if str_eq(s, "kubernetes") || str_eq(s, "k8s") {
            Ok(BindingTarget::Kubernetes)
        } else {
            let mut message = String::from_str("unknown binding target `");
            crate::text::push_str(&mut message, s);
            crate::text::push_str(&mut message, "`; expected one of: airflow, dagster, prefect, temporal, kubernetes");
            Err(message)
        }
    }
}

/// A single generated orchestration artifact file.
#[derive(Debug)]
pub struct BindingFile {
    /// Path relative to the binding output root (POSIX-style separators).
    pub relative_path: String,
    /// IANA media type (for example `text/x-python` or `application/yaml`).
    pub media_type: String,
    /// Full file contents.
    pub content: String,
}

impl BindingFile {
    /// Construct a binding file.
    pub fn new(relative_path: &str, media_type: &str, content: String) -> (r: BindingFile)
        ensures
            r.relative_path@ == relative_path@,
            r.media_type@ == media_type@,
            r.content == content,
    {
        BindingFile {
            relative_path: String::from_str(relative_path),
            media_type: String::from_str(media_type),
            content,
        }
    }
}

/// Bundle of platform-specific artifacts produced by a successful bind.
#[derive(Debug)]
pub struct BindingBundle {
    /// Target orchestrator adapter.
    pub target: BindingTarget,
    /// Source pipeline contract identifier.
    pub contract_id: String,
    /// Source pipeline contract version.
    pub contract_version: String,
    /// Capability profile identity used for the binding gate.
    pub profile_identity: String,
    /// Generated artifact files.
    pub files: Vec<BindingFile>,
    /// Capability match report from the pre-binding evaluation.
    pub capability: CapabilityReport,
}

} // verus!
