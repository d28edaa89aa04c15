use policy_lifecycle::errors::PolicyError;
use policy_lifecycle::orchestrator::{
    execution_mode_from_flag, pull_commit, pull_plan, push_allowed, push_commit, rm, run_plan,
    stored_digest, verify_plan, ExecutionMode,
};
use policy_lifecycle::policy::VerificationInputs;
use policy_lifecycle::reference::{resolve, Scheme};
use policy_lifecycle::store::Store;
use policy_lifecycle::verify::ArtifactEvidence;

fn key_inputs() -> VerificationInputs {
    VerificationInputs {
        config: None,
        key_paths: vec![String::from("a.pub")],
        fulcio_cert_paths: Vec::new(),
        rekor_key_path: None,
        cert_email: None,
        cert_oidc_issuer: None,
        github_owner: None,
        github_repo: None,
        annotations: Vec::new(),
    }
}

fn evidence(keys: Vec<&str>) -> ArtifactEvidence {
    ArtifactEvidence {
        signer_keys: keys.into_iter().map(String::from).collect(),
        certificates: Vec::new(),
        annotations: Vec::new(),
    }
}

#[test]
fn pull_plan_resolves_and_builds() {
    let inputs = key_inputs();
    let (reference, policy) = pull_plan("registry://host/p:v1", Some(&inputs)).unwrap();
    assert_eq!(reference.scheme, Scheme::Registry);
    assert_eq!(reference.location, "host/p:v1");
    assert_eq!(policy.unwrap().keys, vec![String::from("a.pub")]);
}

#[test]
fn pull_plan_without_inputs_skips_the_policy() {
    let (_, policy) = pull_plan("registry://host/p:v1", None).unwrap();
    assert!(policy.is_none());
}

#[test]
fn pull_plan_propagates_a_bad_locator() {
    assert!(matches!(
        pull_plan("", Some(&key_inputs())),
        Err(PolicyError::InvalidReference)
    ));
}

#[test]
fn verify_plan_demands_a_nonempty_policy() {
    let mut inputs = key_inputs();
    inputs.key_paths.clear();
    assert!(matches!(
        verify_plan("registry://host/p:v1", &inputs),
        Err(PolicyError::EmptyVerificationPolicy)
    ));
}

#[test]
fn pull_commit_stores_a_verified_artifact() {
    let mut store = Store::new(String::from("/root/store"));
    let reference = resolve("registry://host/p:v1").unwrap();
    let inputs = key_inputs();
    let (_, policy) = pull_plan("registry://host/p:v1", Some(&inputs)).unwrap();
    let ev = evidence(vec!["a.pub"]);
    let entry = pull_commit(
        &mut store,
        &reference,
        policy.as_ref(),
        Some(&ev),
        b"policy-a".to_vec(),
    )
    .unwrap();
    assert_eq!(entry.digest, "98f96dc6716efcb5");
    assert!(entry.verified);
    let got = store.get(&String::from("registry://host/p:v1")).unwrap();
    assert_eq!(got.digest, "98f96dc6716efcb5");
    assert!(got.verified);
}

#[test]
fn pull_commit_rejects_unverified_bytes_and_keeps_the_store() {
    let mut store = Store::new(String::from("/root/store"));
    let reference = resolve("registry://host/p:v1").unwrap();
    let inputs = key_inputs();
    let (_, policy) = pull_plan("registry://host/p:v1", Some(&inputs)).unwrap();
    let ev = evidence(vec!["unrelated.pub"]);
    let r = pull_commit(
        &mut store,
        &reference,
        policy.as_ref(),
        Some(&ev),
        b"policy-a".to_vec(),
    );
    assert!(matches!(r, Err(PolicyError::VerificationFailed)));
    assert!(store.list().is_empty());
}

#[test]
fn pull_commit_without_a_policy_stores_unverified() {
    let mut store = Store::new(String::from("/root/store"));
    let reference = resolve("some/local/file.wasm").unwrap();
    let entry = pull_commit(&mut store, &reference, None, None, b"policy-b".to_vec()).unwrap();
    assert!(!entry.verified);
    assert!(store.get(&String::from("file://some/local/file.wasm")).is_some());
}

#[test]
fn execution_modes_parse_exactly() {
    assert_eq!(execution_mode_from_flag("opa"), Some(ExecutionMode::Opa));
    assert_eq!(
        execution_mode_from_flag("gatekeeper"),
        Some(ExecutionMode::Gatekeeper)
    );
    assert_eq!(
        execution_mode_from_flag("kubewarden"),
        Some(ExecutionMode::Kubewarden)
    );
    assert_eq!(execution_mode_from_flag("wasi"), None);
}

#[test]
fn run_plan_defaults_to_the_native_runtime() {
    let plan = run_plan("registry://host/p:v1", None, None).unwrap();
    assert_eq!(plan.mode, ExecutionMode::Kubewarden);
    let plan = run_plan("registry://host/p:v1", None, Some("opa")).unwrap();
    assert_eq!(plan.mode, ExecutionMode::Opa);
    assert!(matches!(
        run_plan("registry://host/p:v1", None, Some("nope")),
        Err(PolicyError::EvaluationError)
    ));
}

#[test]
fn push_gate_requires_annotations_unless_forced() {
    assert!(push_allowed(true, false));
    assert!(push_allowed(false, true));
    assert!(push_allowed(true, true));
    assert!(!push_allowed(false, false));
}

#[test]
fn push_commit_records_the_tag() {
    let mut store = Store::new(String::from("/root/store"));
    let reference = resolve("registry://host/p:v1").unwrap();
    let name = String::from("registry://host/p:v1");
    pull_commit(&mut store, &reference, None, None, b"policy-a".to_vec()).unwrap();
    push_commit(&mut store, &name, String::from("host/p:v1")).unwrap();
    assert_eq!(
        store.get(&name).unwrap().pushed_tag,
        Some(String::from("host/p:v1"))
    );
    assert!(matches!(
        push_commit(&mut store, &String::from("missing"), String::from("t")),
        Err(PolicyError::UnknownPolicyName(_))
    ));
}

#[test]
fn rm_drops_a_held_name_and_refuses_an_unknown_one() {
    let mut store = Store::new(String::from("/root/store"));
    let reference = resolve("registry://host/p:v1").unwrap();
    let name = String::from("registry://host/p:v1");
    pull_commit(&mut store, &reference, None, None, b"policy-a".to_vec()).unwrap();
    rm(&mut store, &name).unwrap();
    assert!(store.get(&name).is_none());
    match rm(&mut store, &name) {
        Err(PolicyError::UnknownPolicyName(n)) => assert_eq!(n, name),
        other => panic!("unexpected result: {:?}", other),
    }
}

#[test]
fn stored_digest_answers_for_held_names_only() {
    let mut store = Store::new(String::from("/root/store"));
    let reference = resolve("registry://host/p:v1").unwrap();
    let name = String::from("registry://host/p:v1");
    pull_commit(&mut store, &reference, None, None, b"policy-a".to_vec()).unwrap();
    assert_eq!(stored_digest(&store, &name).unwrap(), "98f96dc6716efcb5");
    assert!(matches!(
        stored_digest(&store, &String::from("missing")),
        Err(PolicyError::UnknownPolicyName(_))
    ));
}
