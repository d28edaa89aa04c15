use policy_lifecycle::bundle::{export, import, Bundle};
use policy_lifecycle::errors::PolicyError;
use policy_lifecycle::reference::resolve;
use policy_lifecycle::store::Store;

fn filled_store() -> Store {
    let mut store = Store::new(String::from("/root/store"));
    let r = resolve("registry://host/a").unwrap();
    store.put(&String::from("a"), b"policy-a".to_vec(), &r, false);
    let r = resolve("registry://host/b").unwrap();
    store.put(&String::from("b"), b"policy-b".to_vec(), &r, false);
    store
}

#[test]
fn export_writes_one_line_per_name_and_one_file_per_digest() {
    let store = filled_store();
    let b = export(&store, &vec![String::from("a"), String::from("b")]).unwrap();
    assert_eq!(b.entries.len(), 2);
    assert_eq!(b.entries[0].name, "a");
    assert_eq!(b.entries[0].digest, "98f96dc6716efcb5");
    assert_eq!(b.entries[0].relative_path, "98f96dc6716efcb5");
    assert_eq!(b.entries[1].name, "b");
    assert_eq!(b.entries[1].digest, "98f96ac6716ef79c");
    assert_eq!(b.files.len(), 2);
    assert_eq!(b.files[0].0, "98f96dc6716efcb5");
    assert_eq!(b.files[0].1, b"policy-a".to_vec());
}

#[test]
fn export_shares_a_file_between_names_with_one_digest() {
    let mut store = Store::new(String::from("/root/store"));
    let r = resolve("registry://host/a").unwrap();
    store.put(&String::from("a"), b"policy-a".to_vec(), &r, false);
    store.put(&String::from("copy"), b"policy-a".to_vec(), &r, false);
    let b = export(&store, &vec![String::from("a"), String::from("copy")]).unwrap();
    assert_eq!(b.entries.len(), 2);
    assert_eq!(b.files.len(), 1);
}

#[test]
fn export_of_an_unknown_name_fails_whole() {
    let store = filled_store();
    match export(&store, &vec![String::from("a"), String::from("nope")]) {
        Err(PolicyError::UnknownPolicyName(n)) => assert_eq!(n, "nope"),
        other => panic!("unexpected result: {:?}", other),
    }
}

#[test]
fn round_trip_reproduces_digests() {
    let store = filled_store();
    let names = vec![String::from("a"), String::from("b")];
    let bundle = export(&store, &names).unwrap();
    let mut fresh = Store::new(String::from("/other/root"));
    let restored = import(&mut fresh, &bundle).unwrap();
    assert_eq!(restored.len(), 2);
    for name in &names {
        let old = store.get(name).unwrap();
        let new = fresh.get(name).unwrap();
        assert_eq!(old.digest, new.digest);
    }
    assert_eq!(
        fresh.content_of(&String::from("98f96dc6716efcb5")).unwrap(),
        &b"policy-a".to_vec()
    );
}

#[test]
fn import_overwrites_an_existing_name() {
    let store = filled_store();
    let bundle = export(&store, &vec![String::from("a")]).unwrap();
    let mut other = Store::new(String::from("/other/root"));
    let r = resolve("registry://elsewhere/a").unwrap();
    other.put(&String::from("a"), b"policy-b".to_vec(), &r, true);
    import(&mut other, &bundle).unwrap();
    let got = other.get(&String::from("a")).unwrap();
    assert_eq!(got.digest, "98f96dc6716efcb5");
    assert!(!got.verified);
}

#[test]
fn corrupt_bundle_fails_whole_and_leaves_store_untouched() {
    let store = filled_store();
    let names = vec![String::from("a"), String::from("b")];
    let mut bundle = export(&store, &names).unwrap();
    // tamper with the second archived file
    bundle.files[1].1 = b"tampered".to_vec();
    let mut target = Store::new(String::from("/other/root"));
    let r = resolve("registry://host/c").unwrap();
    target.put(&String::from("c"), b"policy-a".to_vec(), &r, false);
    let before: Vec<String> = target.list().iter().map(|e| e.digest.clone()).collect();
    match import(&mut target, &bundle) {
        Err(PolicyError::CorruptBundle(n)) => assert_eq!(n, "b"),
        other => panic!("unexpected result: {:?}", other),
    }
    let after: Vec<String> = target.list().iter().map(|e| e.digest.clone()).collect();
    assert_eq!(before, after);
    assert_eq!(after, vec![String::from("98f96dc6716efcb5")]);
    assert!(target.get(&String::from("a")).is_none());
}

#[test]
fn bundle_with_a_missing_file_is_corrupt() {
    let store = filled_store();
    let mut bundle = export(&store, &vec![String::from("a")]).unwrap();
    bundle.files.clear();
    let mut target = Store::new(String::from("/other/root"));
    assert!(matches!(
        import(&mut target, &bundle),
        Err(PolicyError::CorruptBundle(_))
    ));
    assert!(target.list().is_empty());
}

#[test]
fn bundle_with_repeated_names_is_corrupt() {
    let store = filled_store();
    let one = export(&store, &vec![String::from("a")]).unwrap();
    let twice = Bundle {
        entries: vec![
            policy_lifecycle::bundle::BundleEntry {
                name: one.entries[0].name.clone(),
                digest: one.entries[0].digest.clone(),
                relative_path: one.entries[0].relative_path.clone(),
            },
            policy_lifecycle::bundle::BundleEntry {
                name: one.entries[0].name.clone(),
                digest: one.entries[0].digest.clone(),
                relative_path: one.entries[0].relative_path.clone(),
            },
        ],
        files: vec![(one.files[0].0.clone(), one.files[0].1.clone())],
    };
    let mut target = Store::new(String::from("/other/root"));
    assert!(matches!(
        import(&mut target, &twice),
        Err(PolicyError::CorruptBundle(_))
    ));
}
