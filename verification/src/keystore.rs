//! The platform-independent keystore façade.
//!
//! One keystore handle owns one open backend connection: a vector of entity
//! collections, one per entity kind, created by versioned schema migrations
//! that run when the store is opened. All typed entity operations go
//! through this façade; payload encryption at rest and the physical storage
//! primitive live behind it and are out of the model's scope.

use vstd::prelude::*;

use crate::error::{CryptoKeystoreError, MissingKeyErrorKind, ENTITY_KIND_COUNT};
use crate::store::{
    delete_spec, find_spec, find_unique_spec, has_id, unique_ids, upsert_spec, Collection, Record,
    RecordModel,
};
use crate::wipe::wipe_bytes;

use rand::Rng;

verus! {

/// Schema version a freshly opened store is migrated to.
pub const TARGET_SCHEMA_VERSION: u64 = 2;

/// How many collections the first schema version creates.
pub const V1_COLLECTION_COUNT: usize = 14;

/// How many collections each schema version owns. Migrations only ever add
/// collections, so the count is monotone in the version.
pub open spec fn collections_for(version: u64) -> nat {
    if version == 0 {
        0
    } else if version == 1 {
        V1_COLLECTION_COUNT as nat
    } else {
        ENTITY_KIND_COUNT as nat
    }
}

/// The mathematical content of a keystore: its schema version and the
/// record sequences of its collections, indexed by entity kind.
pub struct KeystoreModel {
    pub version: u64,
    pub collections: Seq<Seq<RecordModel>>,
}

/// `cs` extended with fresh empty collections up to `n` of them.
pub open spec fn extend_collections(cs: Seq<Seq<RecordModel>>, n: nat) -> Seq<Seq<RecordModel>> {
    if cs.len() < n {
        cs + Seq::new((n - cs.len()) as nat, |i: int| Seq::<RecordModel>::empty())
    } else {
        cs
    }
}

/// The full migration sequence, as one transition: every pending step up to
/// the target version, applied in ascending order. Each step only creates
/// the collections its version introduced, so contents carry over.
pub open spec fn migrate_spec(m: KeystoreModel) -> KeystoreModel {
    KeystoreModel {
        version: if m.version < TARGET_SCHEMA_VERSION {
            TARGET_SCHEMA_VERSION
        } else {
            m.version
        },
        collections: extend_collections(m.collections, ENTITY_KIND_COUNT as nat),
    }
}

/// Migration monotonicity: a store is never downgraded, nothing already
/// stored is touched, and reapplying the full migration sequence to an
/// already-migrated store changes nothing — so running it twice from a
/// fresh store equals running it once.
pub proof fn lemma_migration_monotone(m: KeystoreModel)
    requires
        m.collections.len() <= ENTITY_KIND_COUNT,
    ensures
        migrate_spec(m).version >= m.version,
        migrate_spec(m).collections.len() == ENTITY_KIND_COUNT,
        forall|k: int|
            0 <= k < m.collections.len() ==> migrate_spec(m).collections[k]
                == m.collections[k],
        forall|k: int|
            m.collections.len() <= k < ENTITY_KIND_COUNT ==> migrate_spec(
                m,
            ).collections[k].len() == 0,
        migrate_spec(migrate_spec(m)) == migrate_spec(m),
{
    let once = migrate_spec(m);
    assert(once.collections.len() == ENTITY_KIND_COUNT);
    assert(migrate_spec(once).collections =~= once.collections);
}

/// Relies on rand::Rng::fill over rand::thread_rng to draw the per-session
/// redaction salt; only the length of the result is promised, nothing of
/// its value — every outcome is possible.
#[verifier::external_body]
fn random_salt() -> (r: Vec<u8>)
    ensures
        r@.len() == 32,
{
    let mut salt = [0u8; 32];
    rand::thread_rng().fill(&mut salt);
    salt.to_vec()
}

/// An open keystore handle: the sole writer gate for all collections.
pub struct CryptoKeystore {
    collections: Vec<Collection>,
    version: u64,
    salt: Vec<u8>,
}

impl View for CryptoKeystore {
    type V = KeystoreModel;

    closed spec fn view(&self) -> KeystoreModel {
        KeystoreModel {
            version: self.version,
            collections: self.collections@.map_values(|c: Collection| c@),
        }
    }
}

impl CryptoKeystore {
    /// Handle invariant: the collection vector matches the schema version,
    /// every collection is duplicate-free, and the session salt is drawn.
    pub open spec fn wf(&self) -> bool {
        &&& self@.version <= TARGET_SCHEMA_VERSION
        &&& self@.collections.len() == collections_for(self@.version)
        &&& forall|k: int|
            0 <= k < self@.collections.len() ==> unique_ids(#[trigger] self@.collections[k])
        &&& self.spec_salt().len() == 32
    }

    /// The per-session redaction salt.
    pub closed spec fn spec_salt(&self) -> Seq<u8> {
        self.salt@
    }

    /// A handle on which every typed entity operation is available: fully
    /// migrated and well-formed.
    pub open spec fn ready(&self) -> bool {
        self.wf() && self@.version == TARGET_SCHEMA_VERSION
    }

    /// Open a store at `location` with a session encryption key, and run
    /// all pending schema migrations; an empty key cannot open anything.
    /// The key only guards the backend's encryption at rest, so it leaves
    /// no trace in the model.
    pub fn open(location: &str, key: &Vec<u8>) -> (r: Result<CryptoKeystore, CryptoKeystoreError>)
        ensures
            match r {
                Ok(ks) => {
                    &&& key@.len() > 0
                    &&& ks.ready()
                    &&& ks@.collections.len() == ENTITY_KIND_COUNT
                    &&& forall|k: int|
                        0 <= k < ENTITY_KIND_COUNT ==> #[trigger] ks@.collections[k].len() == 0
                },
                Err(e) => key@.len() == 0 && (match e {
                    CryptoKeystoreError::MlsKeyStoreError(m) => m@
                        == "cannot open store: empty encryption key"@,
                    _ => false,
                }),
            },
    {
        if key.len() == 0 {
            return Err(
                CryptoKeystoreError::MlsKeyStoreError(
                    String::from_str("cannot open store: empty encryption key"),
                ),
            );
        }
        let mut ks = CryptoKeystore { collections: Vec::new(), version: 0, salt: random_salt() };
        ks.migrate();
        Ok(ks)
    }

    /// Apply every pending migration step in ascending version order. Each
    /// step is idempotent: it creates exactly the collections its version
    /// introduced and nothing else, and never drops or edits records.
    pub fn migrate(&mut self)
        requires
            old(self).wf(),
        ensures
            final(self).wf(),
            final(self).ready(),
            final(self)@ == migrate_spec(old(self)@),
            final(self).spec_salt() == old(self).spec_salt(),
    {
        if self.version < 1 {
            self.grow_collections(V1_COLLECTION_COUNT);
            self.version = 1;
        }
        if self.version < 2 {
            self.grow_collections(ENTITY_KIND_COUNT);
            self.version = 2;
        }
        proof {
            assert(final(self)@.collections =~~= migrate_spec(old(self)@).collections);
        }
    }

    /// Create empty collections until `n` exist; existing ones are kept.
    fn grow_collections(&mut self, n: usize)
        requires
            old(self)@.collections.len() <= n,
        ensures
            final(self)@.collections =~= extend_collections(old(self)@.collections, n as nat),
            final(self)@.version == old(self)@.version,
            final(self).spec_salt() == old(self).spec_salt(),
            final(self)@.collections.len() == n,
    {
        while self.collections.len() < n
            invariant
                old(self)@.collections.len() <= self@.collections.len() <= n,
                self@.collections.len() == self.collections.len(),
                forall|k: int|
                    0 <= k < old(self)@.collections.len() ==> #[trigger] self@.collections[k]
                        == old(self)@.collections[k],
                forall|k: int|
                    old(self)@.collections.len() <= k < self@.collections.len()
                        ==> #[trigger] self@.collections[k].len() == 0,
                self@.version == old(self)@.version,
                self.spec_salt() == old(self).spec_salt(),
            decreases n - self.collections.len(),
        {
            let ghost pre = self@.collections;
            let fresh = Collection::new();
            self.collections.push(fresh);
            proof {
                assert(self@.collections =~= pre.push(fresh@));
            }
        }
        proof {
            assert(final(self)@.collections =~~= extend_collections(
                old(self)@.collections,
                n as nat,
            ));
        }
    }

    /// The schema version currently applied.
    pub fn schema_version(&self) -> (r: u64)
        ensures
            r == self@.version,
    {
        self.version
    }

    /// The per-session redaction salt, for obfuscating identifiers in logs.
    pub fn salt(&self) -> (r: &Vec<u8>)
        ensures
            r@ == self.spec_salt(),
    {
        &self.salt
    }

    /// Close the handle, scrubbing session secrets before release.
    pub fn close(self) {
        let mut ks = self;
        wipe_bytes(&mut ks.salt);
    }

    /// Store a new record in `kind`'s collection; fails with
    /// `AlreadyExists`, changing nothing, if the identity is present.
    pub fn insert(&mut self, kind: MissingKeyErrorKind, rec: Record) -> (r: Result<
        (),
        CryptoKeystoreError,
    >)
        requires
            old(self).ready(),
        ensures
            final(self).ready(),
            final(self)@.version == old(self)@.version,
            final(self).spec_salt() == old(self).spec_salt(),
            ({
                let k = kind.spec_index();
                let c = old(self)@.collections[k];
                if has_id(c, rec@.identity) {
                    r == Err::<(), CryptoKeystoreError>(CryptoKeystoreError::AlreadyExists)
                        && final(self)@ == old(self)@
                } else {
                    r == Ok::<(), CryptoKeystoreError>(()) && final(self)@.collections
                        == old(self)@.collections.update(k, c.push(rec@))
                }
            }),
    {
        let k = kind.index();
        proof {
            assert(self@.collections[kind.spec_index()] == self.collections@[k as int]@);
        }
        let res = self.collections[k].insert(rec);
        proof {
            if !has_id(old(self)@.collections[kind.spec_index()], rec@.identity) {
                assert(final(self)@.collections =~= old(self)@.collections.update(
                    kind.spec_index(),
                    old(self)@.collections[kind.spec_index()].push(rec@),
                ));
            } else {
                assert(final(self)@.collections =~= old(self)@.collections);
            }
        }
        res
    }

    /// Store a record in `kind`'s collection, replacing any record that
    /// carries the same identity.
    pub fn upsert(&mut self, kind: MissingKeyErrorKind, rec: Record)
        requires
            old(self).ready(),
        ensures
            final(self).ready(),
            final(self)@.version == old(self)@.version,
            final(self).spec_salt() == old(self).spec_salt(),
            final(self)@.collections == old(self)@.collections.update(
                kind.spec_index(),
                upsert_spec(old(self)@.collections[kind.spec_index()], rec@),
            ),
    {
        let k = kind.index();
        proof {
            assert(self@.collections[kind.spec_index()] == self.collections@[k as int]@);
        }
        self.collections[k].upsert(rec);
        proof {
            assert(final(self)@.collections =~= old(self)@.collections.update(
                kind.spec_index(),
                upsert_spec(old(self)@.collections[kind.spec_index()], rec@),
            ));
        }
    }

    /// Look a record of kind `kind` up by its identity.
    pub fn find_by_identity(&self, kind: MissingKeyErrorKind, id: &Vec<u8>) -> (r: Option<Record>)
        requires
            self.ready(),
        ensures
            match r {
                Some(rec) => find_spec(self@.collections[kind.spec_index()], id@) == Some(rec@),
                None => find_spec(self@.collections[kind.spec_index()], id@) is None,
            },
    {
        let k = kind.index();
        proof {
            assert(self@.collections[kind.spec_index()] == self.collections@[k as int]@);
        }
        self.collections[k].find_by_identity(id)
    }

    /// The sole record of a collection that holds at most one by protocol
    /// convention; `MissingKeyInStore` when empty, `ImplementationError`
    /// when the at-most-one convention was broken upstream.
    pub fn find_unique(&self, kind: MissingKeyErrorKind) -> (r: Result<
        Record,
        CryptoKeystoreError,
    >)
        requires
            self.ready(),
        ensures
            match r {
                Ok(rec) => find_unique_spec(self@.collections[kind.spec_index()], kind)
                    == Ok::<RecordModel, CryptoKeystoreError>(rec@),
                Err(e) => find_unique_spec(self@.collections[kind.spec_index()], kind)
                    == Err::<RecordModel, CryptoKeystoreError>(e),
            },
    {
        let k = kind.index();
        proof {
            assert(self@.collections[kind.spec_index()] == self.collections@[k as int]@);
        }
        self.collections[k].find_unique(kind)
    }

    /// Remove the record with identity `id` from `kind`'s collection.
    /// Deleting an absent identity is not an error: deletion is idempotent.
    pub fn delete(&mut self, kind: MissingKeyErrorKind, id: &Vec<u8>) -> (r: Result<
        (),
        CryptoKeystoreError,
    >)
        requires
            old(self).ready(),
        ensures
            final(self).ready(),
            final(self)@.version == old(self)@.version,
            final(self).spec_salt() == old(self).spec_salt(),
            r == Ok::<(), CryptoKeystoreError>(()),
            final(self)@.collections == old(self)@.collections.update(
                kind.spec_index(),
                delete_spec(old(self)@.collections[kind.spec_index()], id@),
            ),
    {
        let k = kind.index();
        proof {
            assert(self@.collections[kind.spec_index()] == self.collections@[k as int]@);
        }
        self.collections[k].delete(id);
        proof {
            assert(final(self)@.collections =~= old(self)@.collections.update(
                kind.spec_index(),
                delete_spec(old(self)@.collections[kind.spec_index()], id@),
            ));
        }
        Ok(())
    }

    /// All records of `kind` whose secondary key equals `key`, in insertion
    /// order.
    pub fn find_by_secondary_key(&self, kind: MissingKeyErrorKind, key: &Vec<u8>) -> (r: Vec<
        Record,
    >)
        requires
            self.ready(),
        ensures
            r@.map_values(|x: Record| x@) == self@.collections[kind.spec_index()].filter(
                |m: RecordModel| m.secondary == Some(key@),
            ),
    {
        let k = kind.index();
        proof {
            assert(self@.collections[kind.spec_index()] == self.collections@[k as int]@);
        }
        self.collections[k].find_by_secondary(key)
    }

    /// How many records `kind`'s collection holds.
    pub fn count(&self, kind: MissingKeyErrorKind) -> (r: usize)
        requires
            self.ready(),
        ensures
            r == self@.collections[kind.spec_index()].len(),
    {
        let k = kind.index();
        proof {
            assert(self@.collections[kind.spec_index()] == self.collections@[k as int]@);
        }
        self.collections[k].count()
    }

    /// An owned copy of all collections, for staging a transaction's
    /// mutations away from the live store.
    pub(crate) fn snapshot_collections(&self) -> (r: Vec<Collection>)
        requires
            self.ready(),
        ensures
            r@.map_values(|c: Collection| c@) == self@.collections,
            r@.len() == ENTITY_KIND_COUNT,
            forall|k: int| 0 <= k < r@.len() ==> (#[trigger] r@[k]).wf(),
    {
        let mut out: Vec<Collection> = Vec::new();
        let mut i: usize = 0;
        while i < self.collections.len()
            invariant
                self.ready(),
                i <= self.collections.len(),
                self@.collections.len() == self.collections.len(),
                out@.len() == i,
                forall|j: int|
                    0 <= j < i ==> (#[trigger] out@[j])@ == self@.collections[j],
                forall|k: int| 0 <= k < out@.len() ==> (#[trigger] out@[k]).wf(),
            decreases self.collections.len() - i,
        {
            proof {
                assert(self@.collections[i as int] == self.collections@[i as int]@);
            }
            out.push(self.collections[i].duplicate());
            i += 1;
        }
        proof {
            assert(out@.map_values(|c: Collection| c@) =~= self@.collections);
        }
        out
    }

    /// Swap in a staged collection vector, committing it as one atomic
    /// unit.
    pub(crate) fn install_collections(&mut self, cols: Vec<Collection>)
        requires
            old(self).ready(),
            cols@.len() == ENTITY_KIND_COUNT,
            forall|k: int| 0 <= k < cols@.len() ==> (#[trigger] cols@[k]).wf(),
        ensures
            final(self).ready(),
            final(self)@.version == old(self)@.version,
            final(self).spec_salt() == old(self).spec_salt(),
            final(self)@.collections == cols@.map_values(|c: Collection| c@),
    {
        self.collections = cols;
        proof {
            assert forall|k: int| 0 <= k < final(self)@.collections.len() implies unique_ids(
                #[trigger] final(self)@.collections[k],
            ) by {
                assert(final(self)@.collections[k] == cols@[k]@);
            }
        }
    }

    /// The store as a fresh handle rebuilt purely from the persisted form
    /// of every record: the durability hook. A test harness discards the
    /// in-memory handle after a durable operation and goes on with the
    /// recovered one; behavior must be indistinguishable, which this
    /// function's contract states exactly. The recovered handle starts a
    /// new session, so it draws a new redaction salt.
    pub fn recover(&self) -> (r: CryptoKeystore)
        requires
            self.ready(),
        ensures
            r.ready(),
            r@.version == self@.version,
            r@.collections == self@.collections,
    {
        let mut cols: Vec<Collection> = Vec::new();
        let mut i: usize = 0;
        while i < self.collections.len()
            invariant
                self.ready(),
                i <= self.collections.len(),
                self@.collections.len() == self.collections.len(),
                cols@.len() == i,
                forall|j: int|
                    0 <= j < i ==> (#[trigger] cols@[j])@ == self@.collections[j],
                forall|k: int| 0 <= k < cols@.len() ==> (#[trigger] cols@[k]).wf(),
            decreases self.collections.len() - i,
        {
            proof {
                assert(self@.collections[i as int] == self.collections@[i as int]@);
            }
            cols.push(crate::codec::rebuild_collection(&self.collections[i]));
            i += 1;
        }
        let out = CryptoKeystore { collections: cols, version: self.version, salt: random_salt() };
        proof {
            assert(out@.collections =~= self@.collections);
        }
        out
    }

    /// Whether this backend commits a transaction's mutations as one atomic
    /// unit. The in-memory model does; a backend that cannot must apply
    /// eagerly instead and surface partial failure, never claim atomicity
    /// it does not provide.
    pub fn commits_atomically(&self) -> (r: bool)
        ensures
            r == true,
    {
        true
    }
}

} // verus!
