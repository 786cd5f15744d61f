//! The closed error taxonomy shared by the keystore and the transaction
//! context. Backend-specific failures are mapped into these variants at the
//! keystore boundary, so no platform-specific error type crosses into the
//! protocol layer: variants that wrap a platform error carry its rendered
//! text instead.

use vstd::prelude::*;

verus! {

/// Names the entity collection whose record was requested but absent.
///
/// One variant per entity kind the keystore can hold; the same enum doubles
/// as the collection identifier throughout the crate, which makes collection
/// names unique across entity types by construction.
#[derive(Clone, Copy, Debug, PartialEq, Eq, Hash, Structural)]
pub enum MissingKeyErrorKind {
    MlsKeyPackageBundle,
    MlsSignatureKeyPair,
    MlsHpkePrivateKey,
    MlsEncryptionKeyPair,
    MlsEpochEncryptionKeyPair,
    MlsPskBundle,
    MlsCredential,
    MlsGroup,
    MlsPendingGroup,
    MlsPendingMessages,
    E2eiEnrollment,
    E2eiRefreshToken,
    E2eiAcmeCA,
    E2eiIntermediateCert,
    E2eiCrl,
    ProteusPrekey,
    ProteusSession,
    ProteusIdentity,
}

/// How many entity kinds (and therefore collections) exist.
pub const ENTITY_KIND_COUNT: usize = 18;

impl MissingKeyErrorKind {
    /// Position of this kind's collection inside an open keystore.
    pub open spec fn spec_index(self) -> int {
        match self {
            MissingKeyErrorKind::MlsKeyPackageBundle => 0,
            MissingKeyErrorKind::MlsSignatureKeyPair => 1,
            MissingKeyErrorKind::MlsHpkePrivateKey => 2,
            MissingKeyErrorKind::MlsEncryptionKeyPair => 3,
            MissingKeyErrorKind::MlsEpochEncryptionKeyPair => 4,
            MissingKeyErrorKind::MlsPskBundle => 5,
            MissingKeyErrorKind::MlsCredential => 6,
            MissingKeyErrorKind::MlsGroup => 7,
            MissingKeyErrorKind::MlsPendingGroup => 8,
            MissingKeyErrorKind::MlsPendingMessages => 9,
            MissingKeyErrorKind::E2eiEnrollment => 10,
            MissingKeyErrorKind::E2eiRefreshToken => 11,
            MissingKeyErrorKind::E2eiAcmeCA => 12,
            MissingKeyErrorKind::E2eiIntermediateCert => 13,
            MissingKeyErrorKind::E2eiCrl => 14,
            MissingKeyErrorKind::ProteusPrekey => 15,
            MissingKeyErrorKind::ProteusSession => 16,
            MissingKeyErrorKind::ProteusIdentity => 17,
        }
    }

    pub fn index(&self) -> (r: usize)
        ensures
            r as int == self.spec_index(),
            r < ENTITY_KIND_COUNT,
    {
        match self {
            MissingKeyErrorKind::MlsKeyPackageBundle => 0,
            MissingKeyErrorKind::MlsSignatureKeyPair => 1,
            MissingKeyErrorKind::MlsHpkePrivateKey => 2,
            MissingKeyErrorKind::MlsEncryptionKeyPair => 3,
            MissingKeyErrorKind::MlsEpochEncryptionKeyPair => 4,
            MissingKeyErrorKind::MlsPskBundle => 5,
            MissingKeyErrorKind::MlsCredential => 6,
            MissingKeyErrorKind::MlsGroup => 7,
            MissingKeyErrorKind::MlsPendingGroup => 8,
            MissingKeyErrorKind::MlsPendingMessages => 9,
            MissingKeyErrorKind::E2eiEnrollment => 10,
            MissingKeyErrorKind::E2eiRefreshToken => 11,
            MissingKeyErrorKind::E2eiAcmeCA => 12,
            MissingKeyErrorKind::E2eiIntermediateCert => 13,
            MissingKeyErrorKind::E2eiCrl => 14,
            MissingKeyErrorKind::ProteusPrekey => 15,
            MissingKeyErrorKind::ProteusSession => 16,
            MissingKeyErrorKind::ProteusIdentity => 17,
        }
    }

    /// The entity kind whose collection sits at position `i`.
    pub fn from_index(i: usize) -> (r: MissingKeyErrorKind)
        requires
            i < ENTITY_KIND_COUNT,
        ensures
            r.spec_index() == i as int,
    {
        if i == 0 {
            MissingKeyErrorKind::MlsKeyPackageBundle
        } else if i == 1 {
            MissingKeyErrorKind::MlsSignatureKeyPair
        } else if i == 2 {
            MissingKeyErrorKind::MlsHpkePrivateKey
        } else if i == 3 {
            MissingKeyErrorKind::MlsEncryptionKeyPair
        } else if i == 4 {
            MissingKeyErrorKind::MlsEpochEncryptionKeyPair
        } else if i == 5 {
            MissingKeyErrorKind::MlsPskBundle
        } else if i == 6 {
            MissingKeyErrorKind::MlsCredential
        } else if i == 7 {
            MissingKeyErrorKind::MlsGroup
        } else if i == 8 {
            MissingKeyErrorKind::MlsPendingGroup
        } else if i == 9 {
            MissingKeyErrorKind::MlsPendingMessages
        } else if i == 10 {
            MissingKeyErrorKind::E2eiEnrollment
        } else if i == 11 {
            MissingKeyErrorKind::E2eiRefreshToken
        } else if i == 12 {
            MissingKeyErrorKind::E2eiAcmeCA
        } else if i == 13 {
            MissingKeyErrorKind::E2eiIntermediateCert
        } else if i == 14 {
            MissingKeyErrorKind::E2eiCrl
        } else if i == 15 {
            MissingKeyErrorKind::ProteusPrekey
        } else if i == 16 {
            MissingKeyErrorKind::ProteusSession
        } else {
            MissingKeyErrorKind::ProteusIdentity
        }
    }

    /// The human-readable name of the missing entity kind.
    pub open spec fn spec_label(self) -> Seq<char> {
        match self {
            MissingKeyErrorKind::MlsKeyPackageBundle => "MLS KeyPackageBundle"@,
            MissingKeyErrorKind::MlsSignatureKeyPair => "MLS SignatureKeyPair"@,
            MissingKeyErrorKind::MlsHpkePrivateKey => "MLS HpkePrivateKey"@,
            MissingKeyErrorKind::MlsEncryptionKeyPair => "MLS EncryptionKeyPair"@,
            MissingKeyErrorKind::MlsEpochEncryptionKeyPair => "MLS Epoch EncryptionKeyPair"@,
            MissingKeyErrorKind::MlsPskBundle => "MLS PreSharedKeyBundle"@,
            MissingKeyErrorKind::MlsCredential => "MLS CredentialBundle"@,
            MissingKeyErrorKind::MlsGroup => "MLS Persisted Group"@,
            MissingKeyErrorKind::MlsPendingGroup => "MLS Persisted Pending Group"@,
            MissingKeyErrorKind::MlsPendingMessages => "MLS Pending Messages"@,
            MissingKeyErrorKind::E2eiEnrollment => "End-to-end identity enrollment"@,
            MissingKeyErrorKind::E2eiRefreshToken => "OIDC refresh token"@,
            MissingKeyErrorKind::E2eiAcmeCA => "End-to-end identity root trust anchor CA cert"@,
            MissingKeyErrorKind::E2eiIntermediateCert => "End-to-end identity intermediate CA cert"@,
            MissingKeyErrorKind::E2eiCrl => "End-to-end identity CRL"@,
            MissingKeyErrorKind::ProteusPrekey => "Proteus PreKey"@,
            MissingKeyErrorKind::ProteusSession => "Proteus Session"@,
            MissingKeyErrorKind::ProteusIdentity => "Proteus Identity"@,
        }
    }

    pub fn label(&self) -> (r: String)
        ensures
            r@ == self.spec_label(),
    {
        match self {
            MissingKeyErrorKind::MlsKeyPackageBundle => String::from_str("MLS KeyPackageBundle"),
            MissingKeyErrorKind::MlsSignatureKeyPair => String::from_str("MLS SignatureKeyPair"),
            MissingKeyErrorKind::MlsHpkePrivateKey => String::from_str("MLS HpkePrivateKey"),
            MissingKeyErrorKind::MlsEncryptionKeyPair => String::from_str("MLS EncryptionKeyPair"),
            MissingKeyErrorKind::MlsEpochEncryptionKeyPair => String::from_str(
                "MLS Epoch EncryptionKeyPair",
            ),
            MissingKeyErrorKind::MlsPskBundle => String::from_str("MLS PreSharedKeyBundle"),
            MissingKeyErrorKind::MlsCredential => String::from_str("MLS CredentialBundle"),
            MissingKeyErrorKind::MlsGroup => String::from_str("MLS Persisted Group"),
            MissingKeyErrorKind::MlsPendingGroup => String::from_str(
                "MLS Persisted Pending Group",
            ),
            MissingKeyErrorKind::MlsPendingMessages => String::from_str("MLS Pending Messages"),
            MissingKeyErrorKind::E2eiEnrollment => String::from_str(
                "End-to-end identity enrollment",
            ),
            MissingKeyErrorKind::E2eiRefreshToken => String::from_str("OIDC refresh token"),
            MissingKeyErrorKind::E2eiAcmeCA => String::from_str(
                "End-to-end identity root trust anchor CA cert",
            ),
            MissingKeyErrorKind::E2eiIntermediateCert => String::from_str(
                "End-to-end identity intermediate CA cert",
            ),
            MissingKeyErrorKind::E2eiCrl => String::from_str("End-to-end identity CRL"),
            MissingKeyErrorKind::ProteusPrekey => String::from_str("Proteus PreKey"),
            MissingKeyErrorKind::ProteusSession => String::from_str("Proteus Session"),
            MissingKeyErrorKind::ProteusIdentity => String::from_str("Proteus Identity"),
        }
    }
}

/// Error codes understood by the Proteus layer.
///
/// Mirrors, as plain data, the code set that the Proteus error-code trait
/// expects; the host-facing layer converts these into that trait's own type.
#[derive(Clone, Copy, Debug, PartialEq, Eq, Structural)]
pub enum ProteusErrorKind {
    Unknown,
    PreKeyNotFound,
    SessionStateNotFoundForTag,
    DecodeError,
    OtherSystemError,
    IoError,
    InvalidArrayLen,
}

/// Everything that can go wrong inside the keystore.
///
/// Variants that in a platform build wrap a backend error type (database,
/// object store, system keychain, ...) carry that error's rendered text, so
/// the taxonomy stays closed and platform-free.
#[derive(Clone, Debug, PartialEq, Eq)]
pub enum CryptoKeystoreError {
    MissingKeyInStore(MissingKeyErrorKind),
    KeyReprError(String),
    TryFromSliceError(String),
    LockPoisonError,
    ImplementationError,
    OutOfKeyPackageBundles,
    IncorrectApiUsage(String),
    SignatureKeyPairDoesNotBelongToCredential,
    AlreadyExists,
    BlobTooBig,
    KeyStoreValueTransformError(String),
    IoError(String),
    TimeError(String),
    ChannelError(String),
    WasmExecutorError,
    RexieError(String),
    RexieTimeoutError,
    AesGcmError,
    SerdeWasmBindgenError(String),
    DbError(String),
    DbMigrationError(String),
    InvalidKeySize { expected: usize, actual: usize, key: String },
    ParseIntError(String),
    NoFreePrekeyId,
    MlsKeyStoreError(String),
    HexDecodeError(String),
    FromUtf8Error,
    HexSaltDecodeError(String),
    SecurityFrameworkError(String),
    JsError(String),
    NotImplemented,
    TimestampError,
    NotFound(String, String),
    /// An atomic commit was rolled back; nothing was applied. The index says
    /// which buffered mutation failed.
    TransactionAborted { failed_index: usize },
}

impl CryptoKeystoreError {
    /// True for the errors that the Proteus layer knows a code for; the
    /// remaining variants never reach that layer.
    pub open spec fn proteus_mappable(self) -> bool {
        match self {
            CryptoKeystoreError::MissingKeyInStore(k) => {
                ||| k == MissingKeyErrorKind::ProteusPrekey
                ||| k == MissingKeyErrorKind::ProteusSession
                ||| k == MissingKeyErrorKind::ProteusIdentity
            },
            CryptoKeystoreError::KeyReprError(_) => true,
            CryptoKeystoreError::TryFromSliceError(_) => true,
            CryptoKeystoreError::LockPoisonError => true,
            CryptoKeystoreError::BlobTooBig => true,
            CryptoKeystoreError::KeyStoreValueTransformError(_) => true,
            CryptoKeystoreError::IoError(_) => true,
            CryptoKeystoreError::DbError(_) => true,
            CryptoKeystoreError::DbMigrationError(_) => true,
            CryptoKeystoreError::InvalidKeySize { .. } => true,
            CryptoKeystoreError::ParseIntError(_) => true,
            CryptoKeystoreError::HexDecodeError(_) => true,
            CryptoKeystoreError::FromUtf8Error => true,
            _ => false,
        }
    }

    /// The Proteus error code this error maps to.
    pub open spec fn spec_code(self) -> ProteusErrorKind
        recommends
            self.proteus_mappable(),
    {
        match self {
            CryptoKeystoreError::MissingKeyInStore(k) => {
                if k == MissingKeyErrorKind::ProteusPrekey {
                    ProteusErrorKind::PreKeyNotFound
                } else if k == MissingKeyErrorKind::ProteusSession {
                    ProteusErrorKind::SessionStateNotFoundForTag
                } else {
                    ProteusErrorKind::Unknown
                }
            },
            CryptoKeystoreError::KeyReprError(_) => ProteusErrorKind::DecodeError,
            CryptoKeystoreError::TryFromSliceError(_) => ProteusErrorKind::DecodeError,
            CryptoKeystoreError::LockPoisonError => ProteusErrorKind::OtherSystemError,
            CryptoKeystoreError::BlobTooBig => ProteusErrorKind::IoError,
            CryptoKeystoreError::KeyStoreValueTransformError(_) => ProteusErrorKind::DecodeError,
            CryptoKeystoreError::IoError(_) => ProteusErrorKind::IoError,
            CryptoKeystoreError::DbError(_) => ProteusErrorKind::IoError,
            CryptoKeystoreError::DbMigrationError(_) => ProteusErrorKind::IoError,
            CryptoKeystoreError::InvalidKeySize { .. } => ProteusErrorKind::InvalidArrayLen,
            CryptoKeystoreError::ParseIntError(_) => ProteusErrorKind::DecodeError,
            CryptoKeystoreError::HexDecodeError(_) => ProteusErrorKind::DecodeError,
            CryptoKeystoreError::FromUtf8Error => ProteusErrorKind::DecodeError,
            _ => ProteusErrorKind::Unknown,
        }
    }

    /// Translate this error for the Proteus layer.
    ///
    /// Only errors from the Proteus flows have a defined code, hence the
    /// precondition; asking for the code of any other variant is a bug in
    /// the caller.
    pub fn code(&self) -> (r: ProteusErrorKind)
        requires
            self.proteus_mappable(),
        ensures
            r == self.spec_code(),
    {
        match self {
            CryptoKeystoreError::MissingKeyInStore(k) => {
                match k {
                    MissingKeyErrorKind::ProteusPrekey => ProteusErrorKind::PreKeyNotFound,
                    MissingKeyErrorKind::ProteusSession => {
                        ProteusErrorKind::SessionStateNotFoundForTag
                    },
                    _ => ProteusErrorKind::Unknown,
                }
            },
            CryptoKeystoreError::KeyReprError(_) => ProteusErrorKind::DecodeError,
            CryptoKeystoreError::TryFromSliceError(_) => ProteusErrorKind::DecodeError,
            CryptoKeystoreError::LockPoisonError => ProteusErrorKind::OtherSystemError,
            CryptoKeystoreError::BlobTooBig => ProteusErrorKind::IoError,
            CryptoKeystoreError::KeyStoreValueTransformError(_) => ProteusErrorKind::DecodeError,
            CryptoKeystoreError::IoError(_) => ProteusErrorKind::IoError,
            CryptoKeystoreError::DbError(_) => ProteusErrorKind::IoError,
            CryptoKeystoreError::DbMigrationError(_) => ProteusErrorKind::IoError,
            CryptoKeystoreError::InvalidKeySize { .. } => ProteusErrorKind::InvalidArrayLen,
            CryptoKeystoreError::ParseIntError(_) => ProteusErrorKind::DecodeError,
            CryptoKeystoreError::HexDecodeError(_) => ProteusErrorKind::DecodeError,
            CryptoKeystoreError::FromUtf8Error => ProteusErrorKind::DecodeError,
            _ => ProteusErrorKind::Unknown,
        }
    }
}

/// A specialized Result for the keystore functions.
pub type CryptoKeystoreResult<T> = Result<T, CryptoKeystoreError>;

} // verus!
