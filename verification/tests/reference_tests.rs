use policy_lifecycle::errors::PolicyError;
use policy_lifecycle::reference::{policy_name, resolve, PolicyReference, Scheme};

#[test]
fn registry_prefix_is_stripped() {
    let r = resolve("registry://ghcr.io/kubewarden/safe-labels:v1").unwrap();
    assert_eq!(r.scheme, Scheme::Registry);
    assert_eq!(r.location, "ghcr.io/kubewarden/safe-labels:v1");
    assert!(r.digest.is_none());
}

#[test]
fn https_prefix_is_stripped() {
    let r = resolve("https://example.com/policy.wasm").unwrap();
    assert_eq!(r.scheme, Scheme::Https);
    assert_eq!(r.location, "example.com/policy.wasm");
}

#[test]
fn file_prefix_is_stripped() {
    let r = resolve("file:///tmp/policy.wasm").unwrap();
    assert_eq!(r.scheme, Scheme::File);
    assert_eq!(r.location, "/tmp/policy.wasm");
}

#[test]
fn bare_path_is_kept_whole() {
    let r = resolve("policies/mine.wasm").unwrap();
    assert_eq!(r.scheme, Scheme::File);
    assert_eq!(r.location, "policies/mine.wasm");
}

#[test]
fn prefix_like_interior_is_not_a_scheme() {
    let r = resolve("dir/registry://odd").unwrap();
    assert_eq!(r.scheme, Scheme::File);
    assert_eq!(r.location, "dir/registry://odd");
}

#[test]
fn empty_locator_is_invalid() {
    assert!(matches!(resolve(""), Err(PolicyError::InvalidReference)));
}

#[test]
fn prefix_with_empty_remainder_is_invalid() {
    assert!(matches!(
        resolve("registry://"),
        Err(PolicyError::InvalidReference)
    ));
    assert!(matches!(
        resolve("https://"),
        Err(PolicyError::InvalidReference)
    ));
    assert!(matches!(
        resolve("file://"),
        Err(PolicyError::InvalidReference)
    ));
}

#[test]
fn policy_name_restores_the_scheme_prefix() {
    let r = resolve("registry://ghcr.io/kw/p:v1").unwrap();
    assert_eq!(policy_name(&r), "registry://ghcr.io/kw/p:v1");
    let b = resolve("just/a/path.wasm").unwrap();
    assert_eq!(policy_name(&b), "file://just/a/path.wasm");
}

#[test]
fn policy_name_of_a_built_reference() {
    let r = PolicyReference {
        scheme: Scheme::Https,
        location: String::from("host/p.wasm"),
        digest: None,
    };
    assert_eq!(policy_name(&r), "https://host/p.wasm");
}
