use policy_lifecycle::errors::PolicyError;
use policy_lifecycle::policy::{build, VerificationInputs};
use policy_lifecycle::verify::{verify, ArtifactEvidence, CertificateClaim};

fn inputs_with(keys: Vec<&str>, annotations: Vec<&str>) -> VerificationInputs {
    VerificationInputs {
        config: None,
        key_paths: keys.into_iter().map(String::from).collect(),
        fulcio_cert_paths: Vec::new(),
        rekor_key_path: None,
        cert_email: None,
        cert_oidc_issuer: None,
        github_owner: None,
        github_repo: None,
        annotations: annotations.into_iter().map(String::from).collect(),
    }
}

fn evidence_with(keys: Vec<&str>, annotations: Vec<(&str, &str)>) -> ArtifactEvidence {
    ArtifactEvidence {
        signer_keys: keys.into_iter().map(String::from).collect(),
        certificates: Vec::new(),
        annotations: annotations
            .into_iter()
            .map(|(k, v)| (String::from(k), String::from(v)))
            .collect(),
    }
}

#[test]
fn no_matching_signature_fails() {
    let p = build(&inputs_with(vec!["a.pub", "b.pub"], vec![])).unwrap();
    let e = evidence_with(vec!["c.pub"], vec![]);
    assert!(matches!(verify(&p, &e), Err(PolicyError::VerificationFailed)));
}

#[test]
fn no_signature_at_all_fails() {
    let p = build(&inputs_with(vec!["a.pub"], vec![])).unwrap();
    let e = evidence_with(vec![], vec![]);
    assert!(matches!(verify(&p, &e), Err(PolicyError::VerificationFailed)));
}

#[test]
fn one_matching_signature_among_alternatives_succeeds() {
    let p = build(&inputs_with(vec!["a.pub", "b.pub"], vec![])).unwrap();
    let e = evidence_with(vec!["b.pub"], vec![]);
    assert!(verify(&p, &e).is_ok());
}

#[test]
fn second_key_with_annotation_succeeds() {
    // two alternative keys and one required annotation; the artifact is
    // signed by only the second key and carries the annotation
    let p = build(&inputs_with(vec!["first.pub", "second.pub"], vec!["env=prod"])).unwrap();
    let e = evidence_with(vec!["second.pub"], vec![("env", "prod"), ("team", "infra")]);
    assert!(verify(&p, &e).is_ok());
}

#[test]
fn missing_annotation_fails_despite_valid_signature() {
    let p = build(&inputs_with(vec!["first.pub", "second.pub"], vec!["env=prod"])).unwrap();
    let e = evidence_with(vec!["second.pub"], vec![("team", "infra")]);
    assert!(matches!(verify(&p, &e), Err(PolicyError::VerificationFailed)));
}

#[test]
fn annotation_value_must_match_too() {
    let p = build(&inputs_with(vec!["first.pub"], vec!["env=prod"])).unwrap();
    let e = evidence_with(vec!["first.pub"], vec![("env", "dev")]);
    assert!(matches!(verify(&p, &e), Err(PolicyError::VerificationFailed)));
}

#[test]
fn keyless_predicate_needs_a_matching_certificate() {
    let mut inputs = inputs_with(vec![], vec![]);
    inputs.fulcio_cert_paths = vec![String::from("root.pem")];
    inputs.cert_email = Some(String::from("dev@example.com"));
    let p = build(&inputs).unwrap();
    let mut e = evidence_with(vec![], vec![]);
    // certificate from the right root but binding another email
    e.certificates = vec![CertificateClaim {
        issuer_root: String::from("root.pem"),
        email: Some(String::from("other@example.com")),
        oidc_issuer: None,
        github_owner: None,
        github_repo: None,
        logged: false,
    }];
    assert!(matches!(verify(&p, &e), Err(PolicyError::VerificationFailed)));
    // the same certificate with the expected email
    e.certificates = vec![CertificateClaim {
        issuer_root: String::from("root.pem"),
        email: Some(String::from("dev@example.com")),
        oidc_issuer: None,
        github_owner: None,
        github_repo: None,
        logged: false,
    }];
    assert!(verify(&p, &e).is_ok());
}

#[test]
fn rekor_key_demands_a_logged_signing_event() {
    let mut inputs = inputs_with(vec![], vec![]);
    inputs.fulcio_cert_paths = vec![String::from("root.pem")];
    inputs.rekor_key_path = Some(String::from("rekor.pub"));
    let p = build(&inputs).unwrap();
    let mut e = evidence_with(vec![], vec![]);
    e.certificates = vec![CertificateClaim {
        issuer_root: String::from("root.pem"),
        email: None,
        oidc_issuer: None,
        github_owner: None,
        github_repo: None,
        logged: false,
    }];
    assert!(matches!(verify(&p, &e), Err(PolicyError::VerificationFailed)));
    e.certificates[0].logged = true;
    assert!(verify(&p, &e).is_ok());
}
