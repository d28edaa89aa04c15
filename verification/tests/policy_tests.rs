use policy_lifecycle::errors::PolicyError;
use policy_lifecycle::policy::{build, KeylessIdentity, VerificationInputs, VerificationPolicy};

fn empty_inputs() -> VerificationInputs {
    VerificationInputs {
        config: None,
        key_paths: Vec::new(),
        fulcio_cert_paths: Vec::new(),
        rekor_key_path: None,
        cert_email: None,
        cert_oidc_issuer: None,
        github_owner: None,
        github_repo: None,
        annotations: Vec::new(),
    }
}

fn some_config() -> VerificationPolicy {
    VerificationPolicy {
        keys: vec![String::from("key.pub")],
        keyless: None,
        annotations: vec![(String::from("env"), String::from("prod"))],
    }
}

#[test]
fn config_and_discrete_flags_conflict() {
    let mut inputs = empty_inputs();
    inputs.config = Some(some_config());
    inputs.key_paths = vec![String::from("other.pub")];
    assert!(matches!(
        build(&inputs),
        Err(PolicyError::ConflictingVerificationInputs)
    ));
}

#[test]
fn config_and_annotation_flag_conflict() {
    let mut inputs = empty_inputs();
    inputs.config = Some(some_config());
    inputs.annotations = vec![String::from("env=prod")];
    assert!(matches!(
        build(&inputs),
        Err(PolicyError::ConflictingVerificationInputs)
    ));
}

#[test]
fn config_alone_is_taken_as_given() {
    let mut inputs = empty_inputs();
    inputs.config = Some(some_config());
    let p = build(&inputs).unwrap();
    assert_eq!(p.keys, vec![String::from("key.pub")]);
    assert!(p.keyless.is_none());
    assert_eq!(
        p.annotations,
        vec![(String::from("env"), String::from("prod"))]
    );
}

#[test]
fn config_with_repeated_annotation_key_is_invalid() {
    let mut inputs = empty_inputs();
    inputs.config = Some(VerificationPolicy {
        keys: vec![String::from("key.pub")],
        keyless: None,
        annotations: vec![
            (String::from("env"), String::from("prod")),
            (String::from("env"), String::from("dev")),
        ],
    });
    assert!(matches!(
        build(&inputs),
        Err(PolicyError::InvalidVerificationConfig)
    ));
}

#[test]
fn empty_config_is_refused() {
    let mut inputs = empty_inputs();
    inputs.config = Some(VerificationPolicy {
        keys: Vec::new(),
        keyless: None,
        annotations: Vec::new(),
    });
    assert!(matches!(
        build(&inputs),
        Err(PolicyError::EmptyVerificationPolicy)
    ));
}

#[test]
fn no_inputs_at_all_is_an_empty_policy() {
    let inputs = empty_inputs();
    assert!(matches!(
        build(&inputs),
        Err(PolicyError::EmptyVerificationPolicy)
    ));
}

#[test]
fn rekor_key_alone_produces_no_predicate() {
    let mut inputs = empty_inputs();
    inputs.rekor_key_path = Some(String::from("rekor.pub"));
    assert!(matches!(
        build(&inputs),
        Err(PolicyError::EmptyVerificationPolicy)
    ));
}

#[test]
fn repeated_keys_become_alternatives() {
    let mut inputs = empty_inputs();
    inputs.key_paths = vec![String::from("a.pub"), String::from("b.pub")];
    let p = build(&inputs).unwrap();
    assert_eq!(p.keys, vec![String::from("a.pub"), String::from("b.pub")]);
    assert!(p.keyless.is_none());
    assert!(p.annotations.is_empty());
}

#[test]
fn identity_flags_fold_into_one_keyless_predicate() {
    let mut inputs = empty_inputs();
    inputs.fulcio_cert_paths = vec![String::from("fulcio-1.pem"), String::from("fulcio-2.pem")];
    inputs.rekor_key_path = Some(String::from("rekor.pub"));
    inputs.cert_email = Some(String::from("dev@example.com"));
    let p = build(&inputs).unwrap();
    let k: &KeylessIdentity = p.keyless.as_ref().unwrap();
    assert_eq!(
        k.fulcio_roots,
        vec![String::from("fulcio-1.pem"), String::from("fulcio-2.pem")]
    );
    assert_eq!(k.rekor_key, Some(String::from("rekor.pub")));
    assert_eq!(k.expected_email, Some(String::from("dev@example.com")));
    assert_eq!(k.expected_oidc_issuer, None);
    assert_eq!(k.expected_github_owner, None);
    assert_eq!(k.expected_github_repo, None);
}

#[test]
fn annotations_are_split_at_the_first_separator() {
    let mut inputs = empty_inputs();
    inputs.annotations = vec![String::from("env=prod"), String::from("note=a=b")];
    let p = build(&inputs).unwrap();
    assert_eq!(
        p.annotations,
        vec![
            (String::from("env"), String::from("prod")),
            (String::from("note"), String::from("a=b")),
        ]
    );
}

#[test]
fn repeated_annotation_key_is_reported() {
    let mut inputs = empty_inputs();
    inputs.annotations = vec![String::from("env=prod"), String::from("env=dev")];
    match build(&inputs) {
        Err(PolicyError::DuplicateAnnotationKey(k)) => assert_eq!(k, "env"),
        other => panic!("unexpected result: {:?}", other),
    }
}

#[test]
fn annotation_without_separator_is_invalid() {
    let mut inputs = empty_inputs();
    inputs.annotations = vec![String::from("no-separator")];
    assert!(matches!(
        build(&inputs),
        Err(PolicyError::InvalidVerificationConfig)
    ));
}
