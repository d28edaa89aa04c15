use vstd::prelude::*;
use crate::assoc::{has_key, lookup};
use crate::errors::PolicyError;
use crate::policy::{build, build_err, build_ok, VerificationInputs, VerificationPolicy};
use crate::reference::{parse_locator, policy_name, resolve, name_of, PolicyReference};
use crate::store::{
    put_entry, store_put, store_record_push, store_remove, store_wf, Store, StoreEntry,
};
use crate::verify::{policy_satisfied, verify, ArtifactEvidence};

verus! {

/// The runtime a policy is executed with.
#[derive(Clone, Copy, PartialEq, Eq, Structural, Debug)]
pub enum ExecutionMode {
    Opa,
    Gatekeeper,
    Kubewarden,
}

/// True exactly when the two strings hold the same characters.
fn str_eq(a: &str, b: &str) -> (r: bool)
    ensures
        r == (a@ == b@),
{
    let sa = a.to_owned();
    let sb = b.to_owned();
    sa == sb
}

/// Reads the execution-mode flag; a flag that names no runtime is refused.
pub fn execution_mode_from_flag(flag: &str) -> (r: Option<ExecutionMode>)
    ensures
        flag@ == "opa"@ ==> r == Some(ExecutionMode::Opa),
        flag@ == "gatekeeper"@ ==> r == Some(ExecutionMode::Gatekeeper),
        flag@ == "kubewarden"@ ==> r == Some(ExecutionMode::Kubewarden),
        flag@ != "opa"@ && flag@ != "gatekeeper"@ && flag@ != "kubewarden"@ ==> r is None,
{
    proof {
        reveal_strlit("opa");
        reveal_strlit("gatekeeper");
        reveal_strlit("kubewarden");
        assert("opa"@.len() == 3 && "gatekeeper"@.len() == 10 && "kubewarden"@.len() == 10);
        assert("gatekeeper"@ != "kubewarden"@) by {
            assert("gatekeeper"@[0] == 'g' && "kubewarden"@[0] == 'k');
        }
    }
    if str_eq(flag, "opa") {
        Some(ExecutionMode::Opa)
    } else if str_eq(flag, "gatekeeper") {
        Some(ExecutionMode::Gatekeeper)
    } else if str_eq(flag, "kubewarden") {
        Some(ExecutionMode::Kubewarden)
    } else {
        None
    }
}

/// The pure front half of a pull: resolve the locator and, when
/// verification inputs were given, assemble the trust policy.  Fetching is
/// the transport collaborator's step and happens between this and
/// `pull_commit`.
pub fn pull_plan(locator: &str, inputs: Option<&VerificationInputs>) -> (r: Result<
    (PolicyReference, Option<VerificationPolicy>),
    PolicyError,
>)
    ensures
        match r {
            Ok(plan) => parse_locator(locator@) == Some(plan.0@) && match inputs {
                Some(inp) => plan.1 matches Some(p) && build_ok(*inp, p@),
                None => plan.1 is None,
            },
            Err(e) => if parse_locator(locator@) is None {
                e matches PolicyError::InvalidReference
            } else {
                inputs matches Some(inp) && build_err(*inp, e)
            },
        },
{
    let reference = match resolve(locator) {
        Ok(p) => p,
        Err(e) => {
            return Err(e);
        },
    };
    match inputs {
        None => Ok((reference, None)),
        Some(inp) => match build(inp) {
            Ok(p) => Ok((reference, Some(p))),
            Err(e) => Err(e),
        },
    }
}

/// The pure front half of an explicit verify: resolve the locator and
/// assemble the trust policy, which here is mandatory — an empty policy is
/// an error, unlike for an unverified pull.
pub fn verify_plan(locator: &str, inputs: &VerificationInputs) -> (r: Result<
    (PolicyReference, VerificationPolicy),
    PolicyError,
>)
    ensures
        match r {
            Ok(plan) => parse_locator(locator@) == Some(plan.0@) && build_ok(*inputs, plan.1@),
            Err(e) => if parse_locator(locator@) is None {
                e matches PolicyError::InvalidReference
            } else {
                build_err(*inputs, e)
            },
        },
{
    let reference = match resolve(locator) {
        Ok(p) => p,
        Err(e) => {
            return Err(e);
        },
    };
    match build(inputs) {
        Ok(p) => Ok((reference, p)),
        Err(e) => Err(e),
    }
}

/// A resolved run: where the policy comes from, the trust policy to hold it
/// to, and the runtime to execute it with.
#[derive(Debug)]
pub struct RunPlan {
    pub reference: PolicyReference,
    pub policy: Option<VerificationPolicy>,
    pub mode: ExecutionMode,
}

/// The pure front half of a run: a pull plan plus the choice of runtime,
/// defaulting to the native one when no flag was given.  Evaluation itself
/// is the policy-evaluator collaborator's step.
pub fn run_plan(locator: &str, inputs: Option<&VerificationInputs>, mode_flag: Option<&str>) -> (r:
    Result<RunPlan, PolicyError>)
    ensures
        match r {
            Ok(plan) => {
                &&& parse_locator(locator@) == Some(plan.reference@)
                &&& match inputs {
                    Some(inp) => plan.policy matches Some(p) && build_ok(*inp, p@),
                    None => plan.policy is None,
                }
                &&& match mode_flag {
                    None => plan.mode == ExecutionMode::Kubewarden,
                    Some(f) => (f@ == "opa"@ ==> plan.mode == ExecutionMode::Opa) && (f@
                        == "gatekeeper"@ ==> plan.mode == ExecutionMode::Gatekeeper) && (f@
                        == "kubewarden"@ ==> plan.mode == ExecutionMode::Kubewarden) && (f@
                        != "opa"@ && f@ != "gatekeeper"@ && f@ != "kubewarden"@ ==> false),
                }
            },
            Err(e) => {
                ||| (parse_locator(locator@) is None && e matches PolicyError::InvalidReference)
                ||| (inputs matches Some(inp) && build_err(*inp, e))
                ||| (mode_flag matches Some(f) && f@ != "opa"@ && f@ != "gatekeeper"@ && f@
                    != "kubewarden"@ && e matches PolicyError::EvaluationError)
            },
        },
{
    let mode = match mode_flag {
        None => ExecutionMode::Kubewarden,
        Some(f) => match execution_mode_from_flag(f) {
            Some(m) => m,
            None => {
                return Err(PolicyError::EvaluationError);
            },
        },
    };
    match pull_plan(locator, inputs) {
        Ok((reference, policy)) => Ok(RunPlan { reference, policy, mode }),
        Err(e) => Err(e),
    }
}

/// The back half of a pull: with a trust policy in force, hold the fetched
/// artifact's evidence to it, then record the bytes in the store under the
/// reference's stable name.  A failing verification leaves the store
/// untouched.
pub fn pull_commit(
    store: &mut Store,
    reference: &PolicyReference,
    policy: Option<&VerificationPolicy>,
    evidence: Option<&ArtifactEvidence>,
    bytes: Vec<u8>,
) -> (r: Result<StoreEntry, PolicyError>)
    requires
        store_wf(old(store)@),
        policy is Some ==> evidence is Some,
    ensures
        store_wf(final(store)@),
        match r {
            Ok(e) => {
                &&& (policy matches Some(p) ==> evidence matches Some(ev) && policy_satisfied(
                    p@,
                    ev@,
                ))
                &&& final(store)@ == store_put(
                    old(store)@,
                    name_of(reference@),
                    bytes@,
                    reference@,
                    policy is Some,
                )
                &&& e@ == put_entry(old(store)@.root, bytes@, reference@, policy is Some)
            },
            Err(err) => {
                &&& err matches PolicyError::VerificationFailed
                &&& policy matches Some(p) && evidence matches Some(ev) && !policy_satisfied(
                    p@,
                    ev@,
                )
                &&& final(store)@ == old(store)@
            },
        },
{
    let verified = match policy {
        None => false,
        Some(p) => {
            match evidence {
                Some(ev) => {
                    match verify(p, ev) {
                        Ok(()) => true,
                        Err(e) => {
                            return Err(e);
                        },
                    }
                },
                None => {
                    proof {
                        assert(false);
                    }
                    return Err(PolicyError::VerificationFailed);
                },
            }
        },
    };
    let name = policy_name(reference);
    let entry = store.put(&name, bytes, reference, verified);
    Ok(entry)
}

/// The push gate: an artifact may be pushed when it carries its metadata
/// annotations, or when the caller forces the push.  This is a policy-level
/// allow/deny gate, not a trust predicate.
pub fn push_allowed(annotated: bool, force: bool) -> (r: bool)
    ensures
        r == (annotated || force),
{
    annotated || force
}

/// The back half of a push: note the tag the named policy was pushed under.
pub fn push_commit(store: &mut Store, name: &String, tag: String) -> (r: Result<(), PolicyError>)
    requires
        store_wf(old(store)@),
    ensures
        store_wf(final(store)@),
        final(store)@ == store_record_push(old(store)@, name@, tag@),
        match r {
            Ok(_) => has_key(old(store)@.manifest, name@),
            Err(e) => !has_key(old(store)@.manifest, name@) && (
            e matches PolicyError::UnknownPolicyName(n) && n@ == name@),
        },
{
    if store.record_push(name, tag) {
        Ok(())
    } else {
        Err(PolicyError::UnknownPolicyName(name.clone()))
    }
}

/// The rm command: drop the named policy, failing when the store does not
/// hold it.
pub fn rm(store: &mut Store, name: &String) -> (r: Result<(), PolicyError>)
    requires
        store_wf(old(store)@),
    ensures
        store_wf(final(store)@),
        final(store)@ == store_remove(old(store)@, name@),
        match r {
            Ok(_) => has_key(old(store)@.manifest, name@),
            Err(e) => !has_key(old(store)@.manifest, name@) && (
            e matches PolicyError::UnknownPolicyName(n) && n@ == name@),
        },
{
    if store.remove(name) {
        Ok(())
    } else {
        Err(PolicyError::UnknownPolicyName(name.clone()))
    }
}

/// The digest command's local half: the recorded digest of a stored policy.
pub fn stored_digest(store: &Store, name: &String) -> (r: Result<String, PolicyError>)
    requires
        store_wf(store@),
    ensures
        match r {
            Ok(d) => has_key(store@.manifest, name@) && d@ == lookup(
                store@.manifest,
                name@,
            ).digest,
            Err(e) => !has_key(store@.manifest, name@) && (
            e matches PolicyError::UnknownPolicyName(n) && n@ == name@),
        },
{
    match store.get(name) {
        Some(entry) => Ok(entry.digest.clone()),
        None => Err(PolicyError::UnknownPolicyName(name.clone())),
    }
}

} // verus!
