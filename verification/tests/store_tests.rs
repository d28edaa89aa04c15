use policy_lifecycle::digest::compute_digest;
use policy_lifecycle::errors::PolicyError;
use policy_lifecycle::reference::{resolve, PolicyReference};
use policy_lifecycle::store::{Store, StoreEntry};

fn reference(locator: &str) -> PolicyReference {
    resolve(locator).unwrap()
}

fn snapshot(store: &Store) -> Vec<(String, String)> {
    store
        .list()
        .iter()
        .map(|e| (e.digest.clone(), e.local_path.clone()))
        .collect()
}

#[test]
fn digest_of_empty_bytes() {
    assert_eq!(compute_digest(&Vec::new()), "cbf29ce484222325");
}

#[test]
fn digest_of_one_byte() {
    assert_eq!(compute_digest(&vec![b'a']), "af63dc4c8601ec8c");
}

#[test]
fn put_records_a_content_addressed_entry() {
    let mut store = Store::new(String::from("/root/store"));
    let bytes = b"policy-a".to_vec();
    let d = compute_digest(&bytes);
    assert_eq!(d, "98f96dc6716efcb5");
    let entry = store.put(
        &String::from("foo"),
        bytes,
        &reference("registry://host/foo"),
        true,
    );
    assert_eq!(entry.digest, d);
    assert_eq!(entry.local_path, format!("/root/store/{}", d));
    assert!(entry.verified);
    assert!(entry.pushed_tag.is_none());
    let got: &StoreEntry = store.get(&String::from("foo")).unwrap();
    assert_eq!(got.digest, d);
    assert_eq!(got.local_path, "/root/store/98f96dc6716efcb5");
    assert_eq!(store.content_of(&d).unwrap(), &b"policy-a".to_vec());
}

#[test]
fn get_of_an_unknown_name_is_none() {
    let store = Store::new(String::from("/root/store"));
    assert!(store.get(&String::from("missing")).is_none());
}

#[test]
fn put_twice_with_identical_bytes_changes_nothing() {
    let mut store = Store::new(String::from("/root/store"));
    let name = String::from("foo");
    let r = reference("registry://host/foo");
    store.put(&name, b"policy-a".to_vec(), &r, false);
    let before = snapshot(&store);
    store.put(&name, b"policy-a".to_vec(), &r, false);
    let after = snapshot(&store);
    assert_eq!(before, after);
    assert_eq!(store.list().len(), 1);
    assert_eq!(
        store.content_of(&String::from("98f96dc6716efcb5")).unwrap(),
        &b"policy-a".to_vec()
    );
}

#[test]
fn put_with_new_bytes_overwrites_and_drops_the_old_content() {
    let mut store = Store::new(String::from("/root/store"));
    let name = String::from("foo");
    let r = reference("registry://host/foo");
    store.put(&name, b"policy-a".to_vec(), &r, false);
    store.put(&name, b"policy-b".to_vec(), &r, false);
    assert_eq!(store.list().len(), 1);
    let got = store.get(&name).unwrap();
    assert_eq!(got.digest, "98f96ac6716ef79c");
    // the overwritten content is gone, the new one present
    assert!(store.content_of(&String::from("98f96dc6716efcb5")).is_none());
    assert!(store.content_of(&String::from("98f96ac6716ef79c")).is_some());
}

#[test]
fn remove_deletes_entry_and_unshared_content() {
    let mut store = Store::new(String::from("/root/store"));
    let name = String::from("foo");
    let r = reference("registry://host/foo");
    store.put(&name, b"policy-a".to_vec(), &r, false);
    let d = String::from("98f96dc6716efcb5");
    assert!(store.remove(&name));
    assert!(store.get(&name).is_none());
    assert!(store.content_of(&d).is_none());
    assert!(!store.remove(&name));
}

#[test]
fn remove_keeps_content_shared_with_another_name() {
    let mut store = Store::new(String::from("/root/store"));
    let r = reference("registry://host/foo");
    store.put(&String::from("foo"), b"policy-a".to_vec(), &r, false);
    store.put(&String::from("bar"), b"policy-a".to_vec(), &r, false);
    let d = String::from("98f96dc6716efcb5");
    assert!(store.remove(&String::from("foo")));
    // "bar" still references the digest, so the content stays
    assert!(store.content_of(&d).is_some());
    assert!(store.remove(&String::from("bar")));
    assert!(store.content_of(&d).is_none());
}

#[test]
fn list_keeps_insertion_order() {
    let mut store = Store::new(String::from("/root/store"));
    let r = reference("registry://host/x");
    store.put(&String::from("one"), b"policy-a".to_vec(), &r, false);
    store.put(&String::from("two"), b"policy-b".to_vec(), &r, false);
    store.put(&String::from("one"), b"policy-b".to_vec(), &r, false);
    let names = store.names();
    assert_eq!(names, vec![String::from("one"), String::from("two")]);
    let digests: Vec<String> = store.list().iter().map(|e| e.digest.clone()).collect();
    // overwriting "one" kept its position
    assert_eq!(digests, vec![
        String::from("98f96ac6716ef79c"),
        String::from("98f96ac6716ef79c")
    ]);
}

#[test]
fn get_verified_accepts_a_sound_entry() {
    let mut store = Store::new(String::from("/root/store"));
    let name = String::from("foo");
    store.put(
        &name,
        b"policy-a".to_vec(),
        &reference("registry://host/foo"),
        false,
    );
    let got = store.get_verified(&name).unwrap().unwrap();
    assert_eq!(got.digest, "98f96dc6716efcb5");
}

#[test]
fn get_verified_reports_a_corrupt_entry() {
    // a restored store whose content no longer hashes to its recorded digest
    let entry = StoreEntry {
        digest: String::from("98f96dc6716efcb5"),
        local_path: String::from("/root/store/98f96dc6716efcb5"),
        source_reference: reference("registry://host/foo"),
        verified: false,
        pushed_tag: None,
    };
    let store = Store::restore(
        String::from("/root/store"),
        vec![(String::from("foo"), entry)],
        vec![(String::from("98f96dc6716efcb5"), b"tampered".to_vec())],
    )
    .unwrap();
    match store.get_verified(&String::from("foo")) {
        Err(PolicyError::CorruptEntry(n)) => assert_eq!(n, "foo"),
        other => panic!("unexpected result: {:?}", other),
    }
    // plain get trusts the manifest and still answers
    assert!(store.get(&String::from("foo")).is_some());
}

#[test]
fn restore_refuses_a_duplicated_name() {
    let mk = |d: &str| StoreEntry {
        digest: String::from(d),
        local_path: format!("/root/store/{}", d),
        source_reference: reference("registry://host/foo"),
        verified: false,
        pushed_tag: None,
    };
    let r = Store::restore(
        String::from("/root/store"),
        vec![
            (String::from("foo"), mk("98f96dc6716efcb5")),
            (String::from("foo"), mk("98f96ac6716ef79c")),
        ],
        vec![
            (String::from("98f96dc6716efcb5"), b"policy-a".to_vec()),
            (String::from("98f96ac6716ef79c"), b"policy-b".to_vec()),
        ],
    );
    assert!(matches!(r, Err(PolicyError::CorruptEntry(_))));
}

#[test]
fn restore_refuses_an_entry_without_content() {
    let entry = StoreEntry {
        digest: String::from("98f96dc6716efcb5"),
        local_path: String::from("/root/store/98f96dc6716efcb5"),
        source_reference: reference("registry://host/foo"),
        verified: false,
        pushed_tag: None,
    };
    let r = Store::restore(
        String::from("/root/store"),
        vec![(String::from("foo"), entry)],
        Vec::new(),
    );
    assert!(matches!(r, Err(PolicyError::CorruptEntry(_))));
}

#[test]
fn record_push_notes_the_tag() {
    let mut store = Store::new(String::from("/root/store"));
    let name = String::from("foo");
    store.put(
        &name,
        b"policy-a".to_vec(),
        &reference("registry://host/foo"),
        false,
    );
    assert!(store.record_push(&name, String::from("host/foo:v1")));
    let got = store.get(&name).unwrap();
    assert_eq!(got.pushed_tag, Some(String::from("host/foo:v1")));
    assert!(!store.record_push(&String::from("missing"), String::from("t")));
}
