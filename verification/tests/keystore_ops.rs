use crypto_keystore::error::{CryptoKeystoreError, MissingKeyErrorKind};
use crypto_keystore::keystore::CryptoKeystore;
use crypto_keystore::store::Record;

fn open_store() -> CryptoKeystore {
    let key = vec![7u8, 7, 7, 7];
    CryptoKeystore::open("test-db", &key).expect("open must succeed on a non-empty key")
}

fn record(id: &[u8], payload: &[u8]) -> Record {
    Record { identity: id.to_vec(), payload: payload.to_vec(), secondary: None }
}

#[test]
fn open_rejects_empty_key() {
    let r = CryptoKeystore::open("test-db", &Vec::new());
    assert!(matches!(r, Err(CryptoKeystoreError::MlsKeyStoreError(_))));
}

#[test]
fn open_migrates_to_target_version() {
    let ks = open_store();
    assert_eq!(ks.schema_version(), 2);
    assert_eq!(ks.count(MissingKeyErrorKind::MlsGroup), 0);
    assert_eq!(ks.count(MissingKeyErrorKind::ProteusIdentity), 0);
}

#[test]
fn migration_is_idempotent() {
    let mut ks = open_store();
    ks.insert(MissingKeyErrorKind::MlsGroup, record(b"g1", b"state"))
        .unwrap();
    ks.migrate();
    ks.migrate();
    assert_eq!(ks.schema_version(), 2);
    let found = ks
        .find_by_identity(MissingKeyErrorKind::MlsGroup, &b"g1".to_vec())
        .expect("record must survive re-migration");
    assert_eq!(found.payload, b"state".to_vec());
    assert_eq!(ks.count(MissingKeyErrorKind::MlsGroup), 1);
}

#[test]
fn insert_then_find_returns_equal_record() {
    let mut ks = open_store();
    ks.insert(MissingKeyErrorKind::MlsCredential, record(b"alice", b"cred"))
        .unwrap();
    let found = ks
        .find_by_identity(MissingKeyErrorKind::MlsCredential, &b"alice".to_vec())
        .expect("inserted record must be found");
    assert_eq!(found.identity, b"alice".to_vec());
    assert_eq!(found.payload, b"cred".to_vec());
}

#[test]
fn duplicate_insert_fails_and_changes_nothing() {
    let mut ks = open_store();
    ks.insert(MissingKeyErrorKind::MlsCredential, record(b"alice", b"one"))
        .unwrap();
    let r = ks.insert(MissingKeyErrorKind::MlsCredential, record(b"alice", b"two"));
    assert!(matches!(r, Err(CryptoKeystoreError::AlreadyExists)));
    let found = ks
        .find_by_identity(MissingKeyErrorKind::MlsCredential, &b"alice".to_vec())
        .unwrap();
    assert_eq!(found.payload, b"one".to_vec());
    assert_eq!(ks.count(MissingKeyErrorKind::MlsCredential), 1);
}

#[test]
fn upsert_replaces_by_identity() {
    let mut ks = open_store();
    ks.insert(MissingKeyErrorKind::MlsCredential, record(b"alice", b"one"))
        .unwrap();
    ks.upsert(MissingKeyErrorKind::MlsCredential, record(b"alice", b"two"));
    let found = ks
        .find_by_identity(MissingKeyErrorKind::MlsCredential, &b"alice".to_vec())
        .unwrap();
    assert_eq!(found.payload, b"two".to_vec());
    assert_eq!(ks.count(MissingKeyErrorKind::MlsCredential), 1);
}

#[test]
fn delete_is_idempotent() {
    let mut ks = open_store();
    ks.insert(MissingKeyErrorKind::MlsGroup, record(b"g", b"s")).unwrap();
    ks.delete(MissingKeyErrorKind::MlsGroup, &b"g".to_vec()).unwrap();
    assert!(ks.find_by_identity(MissingKeyErrorKind::MlsGroup, &b"g".to_vec()).is_none());
    // a second delete of the same identity still succeeds
    ks.delete(MissingKeyErrorKind::MlsGroup, &b"g".to_vec()).unwrap();
    assert!(ks.find_by_identity(MissingKeyErrorKind::MlsGroup, &b"g".to_vec()).is_none());
}

#[test]
fn find_unique_is_never_ambiguous() {
    let mut ks = open_store();
    let kind = MissingKeyErrorKind::E2eiAcmeCA;
    assert!(matches!(
        ks.find_unique(kind),
        Err(CryptoKeystoreError::MissingKeyInStore(MissingKeyErrorKind::E2eiAcmeCA))
    ));
    ks.insert(kind, record(b"ca", b"pem")).unwrap();
    let rec = ks.find_unique(kind).unwrap();
    assert_eq!(rec.payload, b"pem".to_vec());
    ks.insert(kind, record(b"ca2", b"pem2")).unwrap();
    assert!(matches!(ks.find_unique(kind), Err(CryptoKeystoreError::ImplementationError)));
}

#[test]
fn find_by_secondary_key_filters_in_order() {
    let mut ks = open_store();
    let kind = MissingKeyErrorKind::MlsPendingMessages;
    let group: Vec<u8> = b"group-1".to_vec();
    let m1 = Record { identity: b"m1".to_vec(), payload: b"p1".to_vec(), secondary: Some(group.clone()) };
    let m2 = Record { identity: b"m2".to_vec(), payload: b"p2".to_vec(), secondary: Some(b"group-2".to_vec()) };
    let m3 = Record { identity: b"m3".to_vec(), payload: b"p3".to_vec(), secondary: Some(group.clone()) };
    ks.insert(kind, m1).unwrap();
    ks.insert(kind, m2).unwrap();
    ks.insert(kind, m3).unwrap();
    let hits = ks.find_by_secondary_key(kind, &group);
    assert_eq!(hits.len(), 2);
    assert_eq!(hits[0].identity, b"m1".to_vec());
    assert_eq!(hits[1].identity, b"m3".to_vec());
}

#[test]
fn transaction_commits_all_buffered_mutations() {
    let mut ks = open_store();
    let kind = MissingKeyErrorKind::MlsKeyPackageBundle;
    ks.insert(kind, record(b"old", b"x")).unwrap();
    let mut tx = ks.begin_transaction();
    tx.insert(kind, record(b"kp1", b"a"));
    tx.upsert(kind, record(b"kp2", b"b"));
    tx.delete(kind, b"old".to_vec());
    tx.finish(&mut ks).expect("commit must succeed");
    assert_eq!(ks.count(kind), 2);
    assert!(ks.find_by_identity(kind, &b"old".to_vec()).is_none());
    assert!(ks.find_by_identity(kind, &b"kp1".to_vec()).is_some());
    assert!(ks.find_by_identity(kind, &b"kp2".to_vec()).is_some());
}

#[test]
fn failed_transaction_applies_nothing_and_names_the_mutation() {
    let mut ks = open_store();
    let kind = MissingKeyErrorKind::MlsKeyPackageBundle;
    ks.insert(kind, record(b"kp1", b"a")).unwrap();
    let mut tx = ks.begin_transaction();
    tx.insert(kind, record(b"kp2", b"b"));
    tx.insert(kind, record(b"kp1", b"clash"));
    tx.delete(kind, b"kp2".to_vec());
    let err = tx.finish(&mut ks).unwrap_err();
    assert!(matches!(err, CryptoKeystoreError::TransactionAborted { failed_index: 1 }));
    // all-or-nothing: the first insert was rolled back too
    assert_eq!(ks.count(kind), 1);
    assert!(ks.find_by_identity(kind, &b"kp2".to_vec()).is_none());
    let untouched = ks.find_by_identity(kind, &b"kp1".to_vec()).unwrap();
    assert_eq!(untouched.payload, b"a".to_vec());
}

#[test]
fn empty_transaction_commits_cleanly() {
    let mut ks = open_store();
    let tx = ks.begin_transaction();
    tx.finish(&mut ks).unwrap();
    assert_eq!(ks.total_count(), 0);
}

#[test]
fn recover_rebuilds_identical_contents_from_persisted_bytes() {
    let mut ks = open_store();
    ks.insert(MissingKeyErrorKind::MlsGroup, record(b"g1", b"state-1")).unwrap();
    ks.insert(
        MissingKeyErrorKind::MlsPendingMessages,
        Record {
            identity: b"m1".to_vec(),
            payload: b"hello".to_vec(),
            secondary: Some(b"g1".to_vec()),
        },
    )
    .unwrap();
    let revived = ks.recover();
    assert_eq!(revived.schema_version(), 2);
    assert_eq!(revived.total_count(), ks.total_count());
    let g = revived
        .find_by_identity(MissingKeyErrorKind::MlsGroup, &b"g1".to_vec())
        .expect("group must survive recovery");
    assert_eq!(g.payload, b"state-1".to_vec());
    let m = revived
        .find_by_identity(MissingKeyErrorKind::MlsPendingMessages, &b"m1".to_vec())
        .unwrap();
    assert_eq!(m.secondary, Some(b"g1".to_vec()));
}

#[test]
fn recover_starts_a_new_redaction_session() {
    let mut ks = open_store();
    ks.insert(MissingKeyErrorKind::MlsGroup, record(b"g1", b"s")).unwrap();
    let revived = ks.recover();
    assert_eq!(revived.salt().len(), 32);
}

#[test]
fn backend_reports_atomic_commits() {
    let ks = open_store();
    assert!(ks.commits_atomically());
}

#[test]
fn mutation_buffer_length_is_visible() {
    let ks = open_store();
    let mut tx = ks.begin_transaction();
    assert_eq!(tx.len(), 0);
    tx.insert(MissingKeyErrorKind::MlsGroup, record(b"a", b"b"));
    assert_eq!(tx.len(), 1);
}
