use vstd::prelude::*;

verus! {

/// Every failure the lifecycle core can report.  Variants that point at a
/// particular input carry it, so a caller can tell which annotation key was
/// repeated, which store name was unknown, or which bundle entry was corrupt.
#[derive(Debug, PartialEq, Eq)]
pub enum PolicyError {
    /// The locator had a recognized scheme but an empty remainder, or was
    /// empty altogether.
    InvalidReference,
    /// Both a verification-config file and discrete verification flags were
    /// supplied; they are mutually exclusive.
    ConflictingVerificationInputs,
    /// A structured verification configuration broke its schema.
    InvalidVerificationConfig,
    /// The same annotation key was supplied twice; carries the key.
    DuplicateAnnotationKey(String),
    /// A verified flow was requested but no trust predicate was produced.
    EmptyVerificationPolicy,
    /// The artifact's evidence does not satisfy the verification policy.
    VerificationFailed,
    /// A registry collaborator reported a failure.
    RegistryError,
    /// A filesystem or transport collaborator reported a failure.
    IoError,
    /// A store entry's content no longer hashes to its recorded digest;
    /// carries the policy name.
    CorruptEntry(String),
    /// A store operation named a policy the manifest does not hold; carries
    /// the name.
    UnknownPolicyName(String),
    /// A bundle entry failed its digest check on import; carries the entry's
    /// name.
    CorruptBundle(String),
    /// The policy-evaluator collaborator reported a failure.
    EvaluationError,
}

} // verus!
