//! Security metadata: portable references and integrity pointers.
use vstd::prelude::*;

use super::extension::ExtensionMap;

verus! {

/// Declarative security metadata attached to a Pipeline Contract.
#[derive(Debug)]
pub struct SecurityMetadata {
    /// External secret references (URIs or vault paths). Must not embed secret values.
    pub secret_refs: Vec<SecretReference>,
    /// Integrity references (hashes, signatures, or attestation pointers).
    pub integrity_refs: Vec<IntegrityReference>,
    /// Optional security domain / isolation annotation.
    pub security_domain: Option<String>,
    /// Optional audit policy identifier or reference.
    pub audit_policy_ref: Option<String>,
    /// Extension fields.
    pub extensions: ExtensionMap,
}

/// Reference to an externally managed secret.
#[derive(Debug)]
pub struct SecretReference {
    /// Stable identifier for this secret reference.
    pub id: String,
    /// External locator (URI, vault path, or provider reference).
    pub loc: String,
    /// Optional provider hint (for example `vault` or `aws-secrets-manager`).
    pub provider: Option<String>,
    /// Extension fields.
    pub extensions: ExtensionMap,
}

/// Integrity reference for tamper detection / attestation.
#[derive(Debug)]
pub struct IntegrityReference {
    /// Algorithm or kind (for example `sha256` or `cosign`).
    pub kind: String,
    /// Digest, signature reference, or external locator (not an embedded key).
    pub value: String,
    /// Extension fields.
    pub extensions: ExtensionMap,
}

} // verus!
