use policy_lifecycle::errors::PolicyError;
use policy_lifecycle::sources::{HostOptions, RegistryCredential, SourceConfig};

fn host(name: &str, insecure: bool, ca: Option<&[u8]>) -> (String, HostOptions) {
    (
        String::from(name),
        HostOptions { insecure, custom_ca: ca.map(|b| b.to_vec()) },
    )
}

#[test]
fn hosts_answer_their_overrides() {
    let config = SourceConfig::from_entries(
        vec![
            host("registry.local:5000", true, None),
            host("corp.example.com", false, Some(b"ca-pem-bytes")),
        ],
        vec![(
            String::from("corp.example.com"),
            RegistryCredential {
                username: String::from("robot"),
                password: String::from("SECRET-REDACTED"),
            },
        )],
    )
    .unwrap();
    assert!(config.is_insecure(&String::from("registry.local:5000")));
    assert!(!config.is_insecure(&String::from("corp.example.com")));
    assert!(!config.is_insecure(&String::from("unknown.io")));
    assert_eq!(
        config.custom_ca_for(&String::from("corp.example.com")),
        Some(&b"ca-pem-bytes".to_vec())
    );
    assert!(config.custom_ca_for(&String::from("registry.local:5000")).is_none());
    let cred = config.credentials_for(&String::from("corp.example.com")).unwrap();
    assert_eq!(cred.username, "robot");
    assert!(config.credentials_for(&String::from("registry.local:5000")).is_none());
}

#[test]
fn empty_config_is_all_defaults() {
    let config = SourceConfig::empty();
    assert!(!config.is_insecure(&String::from("anything")));
    assert!(config.custom_ca_for(&String::from("anything")).is_none());
    assert!(config.credentials_for(&String::from("anything")).is_none());
}

#[test]
fn repeated_host_is_a_malformed_file() {
    let r = SourceConfig::from_entries(
        vec![host("registry.local", true, None), host("registry.local", false, None)],
        Vec::new(),
    );
    assert!(matches!(r, Err(PolicyError::IoError)));
}
