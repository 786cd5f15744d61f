//! The OIDC refresh token, stored through the keystore to benefit from
//! encryption at rest.
//!
//! The token's collection holds at most one live record, always under the
//! same identity: `replace` overwrites it, `find` retrieves it through the
//! at-most-one lookup. Token text is wiped from memory when it is turned
//! into its persisted form.

use vstd::prelude::*;

use crate::error::{CryptoKeystoreError, MissingKeyErrorKind};
use crate::keystore::CryptoKeystore;
use crate::store::{has_id, id_index, upsert_spec, Record, RecordModel};
use crate::textenc::string_from_utf8;
use crate::wipe::wipe_string;
use vstd::utf8::{decode_utf8, encode_utf8, valid_utf8};

verus! {

/// An OIDC refresh token.
#[derive(Debug)]
pub struct RefreshToken(pub String);

impl View for RefreshToken {
    type V = Seq<char>;

    open spec fn view(&self) -> Seq<char> {
        self.0@
    }
}

/// The persisted entity form of the refresh token: its UTF-8 bytes.
pub struct E2eiRefreshToken {
    pub content: Vec<u8>,
}

/// The one identity under which the token record is stored, making the
/// collection a singleton.
pub open spec fn token_identity() -> Seq<u8> {
    encode_utf8("refresh-token"@)
}

/// The identity bytes of the token record.
pub fn token_identity_bytes() -> (r: Vec<u8>)
    ensures
        r@ == token_identity(),
{
    ("refresh-token").as_bytes_vec()
}

impl E2eiRefreshToken {
    /// The entity persisting `token`; the token text is wiped from memory
    /// once its bytes are captured.
    pub fn from_token(token: RefreshToken) -> (r: E2eiRefreshToken)
        ensures
            r.content@ == encode_utf8(token@),
    {
        let mut t = token;
        let content = t.0.as_str().as_bytes_vec();
        wipe_string(&mut t.0);
        E2eiRefreshToken { content }
    }
}

impl RefreshToken {
    /// The token text.
    pub fn as_str(&self) -> (r: &str)
        ensures
            r@ == self@,
    {
        self.0.as_str()
    }

    /// Scrub the token text from memory.
    pub fn zeroize(&mut self)
        ensures
            final(self)@.len() == 0,
    {
        wipe_string(&mut self.0);
    }

    /// The token carried by a persisted entity; fails, as data corruption,
    /// exactly when the stored bytes are not UTF-8.
    pub fn try_from_entity(entity: E2eiRefreshToken) -> (r: Result<
        RefreshToken,
        CryptoKeystoreError,
    >)
        ensures
            valid_utf8(entity.content@) ==> (r matches Ok(t) && t@ == decode_utf8(
                entity.content@,
            )),
            !valid_utf8(entity.content@) ==> r == Err::<RefreshToken, CryptoKeystoreError>(
                CryptoKeystoreError::FromUtf8Error,
            ),
    {
        match string_from_utf8(entity.content) {
            Some(s) => Ok(RefreshToken(s)),
            None => Err(CryptoKeystoreError::FromUtf8Error),
        }
    }

    /// The current refresh token from the keystore: the sole record of its
    /// collection, decoded. `MissingKeyInStore` when none was ever stored;
    /// `ImplementationError` when the at-most-one convention was broken;
    /// `FromUtf8Error` when the stored bytes are corrupt.
    pub fn find(ks: &CryptoKeystore) -> (r: Result<RefreshToken, CryptoKeystoreError>)
        requires
            ks.ready(),
        ensures
            ({
                let c = ks@.collections[MissingKeyErrorKind::E2eiRefreshToken.spec_index()];
                &&& c.len() == 0 ==> r == Err::<RefreshToken, CryptoKeystoreError>(
                    CryptoKeystoreError::MissingKeyInStore(MissingKeyErrorKind::E2eiRefreshToken),
                )
                &&& c.len() > 1 ==> r == Err::<RefreshToken, CryptoKeystoreError>(
                    CryptoKeystoreError::ImplementationError,
                )
                &&& c.len() == 1 && valid_utf8(c[0].payload) ==> (r matches Ok(t) && t@
                    == decode_utf8(c[0].payload))
                &&& c.len() == 1 && !valid_utf8(c[0].payload) ==> r == Err::<
                    RefreshToken,
                    CryptoKeystoreError,
                >(CryptoKeystoreError::FromUtf8Error)
            }),
    {
        match ks.find_unique(MissingKeyErrorKind::E2eiRefreshToken) {
            Ok(rec) => Self::try_from_entity(E2eiRefreshToken { content: rec.payload }),
            Err(e) => Err(e),
        }
    }

    /// Persist this token as the one live record of its collection,
    /// replacing whatever token was stored before, and consume (and wipe)
    /// the in-memory text.
    pub fn replace(self, ks: &mut CryptoKeystore) -> (r: Result<(), CryptoKeystoreError>)
        requires
            old(ks).ready(),
        ensures
            final(ks).ready(),
            final(ks)@.version == old(ks)@.version,
            final(ks).spec_salt() == old(ks).spec_salt(),
            r == Ok::<(), CryptoKeystoreError>(()),
            final(ks)@.collections == old(ks)@.collections.update(
                MissingKeyErrorKind::E2eiRefreshToken.spec_index(),
                upsert_spec(
                    old(ks)@.collections[MissingKeyErrorKind::E2eiRefreshToken.spec_index()],
                    RecordModel {
                        identity: token_identity(),
                        payload: encode_utf8(self@),
                        secondary: None,
                    },
                ),
            ),
    {
        let entity = E2eiRefreshToken::from_token(self);
        let rec = Record {
            identity: token_identity_bytes(),
            payload: entity.content,
            secondary: None,
        };
        ks.upsert(MissingKeyErrorKind::E2eiRefreshToken, rec);
        Ok(())
    }
}

/// Replacing into a collection that holds at most one record, and only
/// ever under the token identity, leaves exactly one record: the new one.
/// Together with `find`'s contract this is the replace-then-find story:
/// after `replace(t)`, `find` returns `t` and the collection's size is 1.
pub proof fn lemma_replace_keeps_singleton(c: Seq<RecordModel>, r: RecordModel)
    requires
        c.len() <= 1,
        forall|i: int| 0 <= i < c.len() ==> #[trigger] c[i].identity == r.identity,
    ensures
        upsert_spec(c, r).len() == 1,
        upsert_spec(c, r)[0] == r,
{
    if c.len() == 0 {
        assert(!has_id(c, r.identity));
    } else {
        assert(c[0].identity == r.identity);
        assert(has_id(c, r.identity));
        let i = id_index(c, r.identity);
        assert(i == 0);
    }
}

/// Replace-then-find, end to end on the model: replacing a token into a
/// collection kept at one record at most — always under the token
/// identity — leaves exactly one record, the at-most-one lookup returns
/// exactly that record, and its payload decodes back to the very token
/// that was stored.
pub proof fn lemma_replace_then_find(c: Seq<RecordModel>, token: Seq<char>)
    requires
        c.len() <= 1,
        forall|i: int| 0 <= i < c.len() ==> #[trigger] c[i].identity == token_identity(),
    ensures
        ({
            let rec = RecordModel {
                identity: token_identity(),
                payload: encode_utf8(token),
                secondary: None,
            };
            let c2 = upsert_spec(c, rec);
            &&& c2.len() == 1
            &&& crate::store::find_unique_spec(c2, MissingKeyErrorKind::E2eiRefreshToken)
                == Ok::<RecordModel, CryptoKeystoreError>(rec)
            &&& valid_utf8(rec.payload)
            &&& decode_utf8(rec.payload) == token
        }),
{
    let rec = RecordModel {
        identity: token_identity(),
        payload: encode_utf8(token),
        secondary: None,
    };
    lemma_replace_keeps_singleton(c, rec);
    lemma_token_round_trip(token);
}

/// Round trip: a token turned into its persisted entity and read back is
/// the same token.
pub proof fn lemma_token_round_trip(token: Seq<char>)
    ensures
        valid_utf8(encode_utf8(token)),
        decode_utf8(encode_utf8(token)) == token,
{
    vstd::utf8::encode_utf8_valid_utf8(token);
    vstd::utf8::encode_utf8_decode_utf8(token);
}

} // verus!
