use crypto_keystore::contract::{
    check_dispotent, check_idempotent, validate_entity_description, validate_marker,
    validate_markers, ContractViolation, EffectDirection, EntityDeriveError, FieldDescription,
    OperationMarker, OperationShape,
};
use crypto_keystore::error::{CryptoKeystoreError, MissingKeyErrorKind, ProteusErrorKind};
use crypto_keystore::keystore::CryptoKeystore;
use crypto_keystore::store::Record;

fn shape(adds: usize, removes: usize) -> OperationShape {
    OperationShape { has_keystore_param: true, adds, removes }
}

#[test]
fn net_insertion_is_rejected_as_idempotent_and_accepted_as_dispotent() {
    // an operation that adds two records and removes one
    let op = shape(2, 1);
    assert_eq!(
        validate_marker(OperationMarker::Idempotent, op),
        Err(ContractViolation::UnbalancedEffect)
    );
    assert_eq!(
        validate_marker(OperationMarker::Dispotent(EffectDirection::InsertionDominant), op),
        Ok(())
    );
    assert_eq!(
        validate_marker(OperationMarker::Dispotent(EffectDirection::DeletionDominant), op),
        Err(ContractViolation::DirectionMismatch)
    );
}

#[test]
fn balanced_operations_are_idempotent_not_dispotent() {
    let op = shape(3, 3);
    assert_eq!(validate_marker(OperationMarker::Idempotent, op), Ok(()));
    assert_eq!(
        validate_marker(OperationMarker::Dispotent(EffectDirection::InsertionDominant), op),
        Err(ContractViolation::NoNetEffect)
    );
}

#[test]
fn durable_needs_the_keystore_parameter() {
    let mut op = shape(0, 0);
    assert_eq!(validate_marker(OperationMarker::Durable, op), Ok(()));
    op.has_keystore_param = false;
    assert_eq!(
        validate_marker(OperationMarker::Durable, op),
        Err(ContractViolation::MissingKeystoreParameter)
    );
}

#[test]
fn idempotent_and_dispotent_conflict() {
    let markers = vec![
        OperationMarker::Idempotent,
        OperationMarker::Dispotent(EffectDirection::InsertionDominant),
    ];
    assert_eq!(validate_markers(&markers, shape(2, 1)), Err(ContractViolation::ConflictingMarkers));
    let fine = vec![OperationMarker::Durable, OperationMarker::Idempotent];
    assert_eq!(validate_markers(&fine, shape(1, 1)), Ok(()));
    let broken = vec![OperationMarker::Durable, OperationMarker::Idempotent];
    assert_eq!(validate_markers(&broken, shape(2, 1)), Err(ContractViolation::UnbalancedEffect));
}

#[test]
fn entity_description_needs_exactly_one_identity_field() {
    let id = FieldDescription { is_identity: true, is_secondary_key: false };
    let plain = FieldDescription { is_identity: false, is_secondary_key: false };
    let secondary = FieldDescription { is_identity: false, is_secondary_key: true };

    assert_eq!(validate_entity_description(&vec![plain, id, secondary]), Ok(1));
    assert_eq!(
        validate_entity_description(&vec![plain, secondary]),
        Err(EntityDeriveError::NoIdentityField)
    );
    assert_eq!(
        validate_entity_description(&vec![id, plain, id]),
        Err(EntityDeriveError::MultipleIdentityFields)
    );
    assert_eq!(validate_entity_description(&Vec::new()), Err(EntityDeriveError::NoIdentityField));
}

#[test]
fn count_hooks_see_population_changes() {
    let key = vec![1u8];
    let mut ks = CryptoKeystore::open("hooks", &key).unwrap();
    let before = ks.total_count();
    assert_eq!(before, 0);

    // a balanced create-then-destroy pair is idempotent for the population
    ks.insert(
        MissingKeyErrorKind::MlsGroup,
        Record { identity: b"g".to_vec(), payload: b"s".to_vec(), secondary: None },
    )
    .unwrap();
    ks.delete(MissingKeyErrorKind::MlsGroup, &b"g".to_vec()).unwrap();
    assert_eq!(check_idempotent(before, &ks), Ok(()));

    // a net insertion is dispotent, insertion-dominant, and its inverse
    // restores the count
    ks.insert(
        MissingKeyErrorKind::MlsKeyPackageBundle,
        Record { identity: b"kp".to_vec(), payload: b"p".to_vec(), secondary: None },
    )
    .unwrap();
    assert_eq!(ks.total_count(), 1);
    assert_eq!(
        check_idempotent(before, &ks),
        Err(ContractViolation::UnbalancedEffect)
    );
    assert_eq!(check_dispotent(before, &ks, EffectDirection::InsertionDominant), Ok(()));
    assert_eq!(
        check_dispotent(before, &ks, EffectDirection::DeletionDominant),
        Err(ContractViolation::DirectionMismatch)
    );
    ks.delete(MissingKeyErrorKind::MlsKeyPackageBundle, &b"kp".to_vec()).unwrap();
    assert_eq!(check_idempotent(before, &ks), Ok(()));
    assert_eq!(
        check_dispotent(before, &ks, EffectDirection::InsertionDominant),
        Err(ContractViolation::NoNetEffect)
    );
}

#[test]
fn missing_key_kinds_have_their_labels() {
    assert_eq!(MissingKeyErrorKind::MlsKeyPackageBundle.label(), "MLS KeyPackageBundle");
    assert_eq!(MissingKeyErrorKind::E2eiRefreshToken.label(), "OIDC refresh token");
    assert_eq!(MissingKeyErrorKind::MlsPendingGroup.label(), "MLS Persisted Pending Group");
    assert_eq!(MissingKeyErrorKind::ProteusPrekey.label(), "Proteus PreKey");
}

#[test]
fn proteus_error_codes_follow_the_mapping() {
    let missing_prekey =
        CryptoKeystoreError::MissingKeyInStore(MissingKeyErrorKind::ProteusPrekey);
    assert_eq!(missing_prekey.code(), ProteusErrorKind::PreKeyNotFound);
    let missing_session =
        CryptoKeystoreError::MissingKeyInStore(MissingKeyErrorKind::ProteusSession);
    assert_eq!(missing_session.code(), ProteusErrorKind::SessionStateNotFoundForTag);
    let missing_identity =
        CryptoKeystoreError::MissingKeyInStore(MissingKeyErrorKind::ProteusIdentity);
    assert_eq!(missing_identity.code(), ProteusErrorKind::Unknown);
    assert_eq!(CryptoKeystoreError::LockPoisonError.code(), ProteusErrorKind::OtherSystemError);
    assert_eq!(CryptoKeystoreError::BlobTooBig.code(), ProteusErrorKind::IoError);
    assert_eq!(CryptoKeystoreError::FromUtf8Error.code(), ProteusErrorKind::DecodeError);
    assert_eq!(
        CryptoKeystoreError::InvalidKeySize { expected: 32, actual: 16, key: String::from("k") }
            .code(),
        ProteusErrorKind::InvalidArrayLen
    );
}
