//! One entity collection: the set of all records of one entity kind.
//!
//! A record couples an identity (the byte key that is stable for the
//! record's lifetime), the encrypted payload, and an optional secondary
//! lookup key. A collection never holds two records with the same identity;
//! every operation below preserves that invariant and is specified against
//! the collection's mathematical view, a sequence of record models.

use vstd::prelude::*;

use crate::error::{CryptoKeystoreError, MissingKeyErrorKind};

verus! {

/// Byte-wise equality of two byte vectors.
pub fn bytes_eq(a: &Vec<u8>, b: &Vec<u8>) -> (r: bool)
    ensures
        r <==> a@ == b@,
{
    if a.len() != b.len() {
        return false;
    }
    let mut i: usize = 0;
    while i < a.len()
        invariant
            i <= a.len(),
            a.len() == b.len(),
            forall|j: int| 0 <= j < i ==> a@[j] == b@[j],
        decreases a.len() - i,
    {
        if a[i] != b[i] {
            return false;
        }
        i += 1;
    }
    proof {
        assert(a@ =~= b@);
    }
    true
}

/// An owned copy of a byte vector, equal to the original.
pub fn copy_bytes(v: &Vec<u8>) -> (r: Vec<u8>)
    ensures
        r@ == v@,
{
    let mut out: Vec<u8> = Vec::new();
    let mut i: usize = 0;
    while i < v.len()
        invariant
            i <= v.len(),
            out@ =~= v@.subrange(0, i as int),
        decreases v.len() - i,
    {
        out.push(v[i]);
        i += 1;
        proof {
            assert(out@ =~= v@.subrange(0, i as int));
        }
    }
    proof {
        assert(v@.subrange(0, v@.len() as int) =~= v@);
    }
    out
}

/// A stored entity record.
pub struct Record {
    /// Unique key of the record within its collection.
    pub identity: Vec<u8>,
    /// The serialized secret, encrypted at rest by the backend.
    pub payload: Vec<u8>,
    /// Optional non-identity lookup key.
    pub secondary: Option<Vec<u8>>,
}

/// The mathematical content of a record.
pub struct RecordModel {
    pub identity: Seq<u8>,
    pub payload: Seq<u8>,
    pub secondary: Option<Seq<u8>>,
}

impl View for Record {
    type V = RecordModel;

    open spec fn view(&self) -> RecordModel {
        RecordModel {
            identity: self.identity@,
            payload: self.payload@,
            secondary: match self.secondary {
                Some(k) => Some(k@),
                None => None,
            },
        }
    }
}

impl Record {
    /// An owned copy whose model equals this record's.
    pub fn duplicate(&self) -> (r: Record)
        ensures
            r@ == self@,
    {
        Record {
            identity: copy_bytes(&self.identity),
            payload: copy_bytes(&self.payload),
            secondary: match &self.secondary {
                Some(k) => Some(copy_bytes(k)),
                None => None,
            },
        }
    }
}

/// No two records of the sequence share an identity.
pub open spec fn unique_ids(c: Seq<RecordModel>) -> bool {
    forall|i: int, j: int|
        0 <= i < j < c.len() ==> #[trigger] c[i].identity != #[trigger] c[j].identity
}

/// Some record of `c` has identity `id`.
pub open spec fn has_id(c: Seq<RecordModel>, id: Seq<u8>) -> bool {
    exists|i: int| 0 <= i < c.len() && #[trigger] c[i].identity == id
}

/// The index of the record with identity `id`.
pub open spec fn id_index(c: Seq<RecordModel>, id: Seq<u8>) -> int
    recommends
        has_id(c, id),
{
    choose|i: int| 0 <= i < c.len() && #[trigger] c[i].identity == id
}

/// What a lookup by identity returns.
pub open spec fn find_spec(c: Seq<RecordModel>, id: Seq<u8>) -> Option<RecordModel> {
    if has_id(c, id) {
        Some(c[id_index(c, id)])
    } else {
        None
    }
}

/// The collection after an insert-or-replace of `r`.
pub open spec fn upsert_spec(c: Seq<RecordModel>, r: RecordModel) -> Seq<RecordModel> {
    if has_id(c, r.identity) {
        c.update(id_index(c, r.identity), r)
    } else {
        c.push(r)
    }
}

/// The collection after a deletion of identity `id`; absent ids change
/// nothing (deletion is idempotent).
pub open spec fn delete_spec(c: Seq<RecordModel>, id: Seq<u8>) -> Seq<RecordModel> {
    if has_id(c, id) {
        c.remove(id_index(c, id))
    } else {
        c
    }
}

/// What `find_unique` returns on a collection of kind `kind`: the sole
/// record, or `MissingKeyInStore` when none exists, or — as a signal of an
/// implementation bug upstream — `ImplementationError` when several do.
pub open spec fn find_unique_spec(c: Seq<RecordModel>, kind: MissingKeyErrorKind) -> Result<
    RecordModel,
    CryptoKeystoreError,
> {
    if c.len() == 0 {
        Err(CryptoKeystoreError::MissingKeyInStore(kind))
    } else if c.len() == 1 {
        Ok(c[0])
    } else {
        Err(CryptoKeystoreError::ImplementationError)
    }
}

/// In a duplicate-free sequence the index of an identity is unique.
pub proof fn lemma_id_index_is(c: Seq<RecordModel>, i: int)
    requires
        unique_ids(c),
        0 <= i < c.len(),
    ensures
        has_id(c, c[i].identity),
        id_index(c, c[i].identity) == i,
{
    let id = c[i].identity;
    assert(has_id(c, id));
    let j = id_index(c, id);
    if i < j {
        assert(c[i].identity != c[j].identity);
    } else if j < i {
        assert(c[j].identity != c[i].identity);
    }
}

/// The set of all records of one entity kind.
pub struct Collection {
    records: Vec<Record>,
}

impl View for Collection {
    type V = Seq<RecordModel>;

    closed spec fn view(&self) -> Seq<RecordModel> {
        self.records@.map_values(|r: Record| r@)
    }
}

impl Collection {
    /// The collection invariant: identities are unique.
    pub open spec fn wf(&self) -> bool {
        unique_ids(self@)
    }

    /// A fresh, empty collection, as schema migration creates it.
    pub fn new() -> (r: Collection)
        ensures
            r@ =~= Seq::<RecordModel>::empty(),
            r.wf(),
    {
        Collection { records: Vec::new() }
    }

    /// An owned copy whose view equals this collection's.
    pub fn duplicate(&self) -> (r: Collection)
        ensures
            r@ == self@,
    {
        let mut recs: Vec<Record> = Vec::new();
        let mut i: usize = 0;
        while i < self.records.len()
            invariant
                i <= self.records.len(),
                recs@.len() == i,
                self@.len() == self.records.len(),
                forall|j: int| 0 <= j < i ==> (#[trigger] recs@[j])@ == self@[j],
            decreases self.records.len() - i,
        {
            recs.push(self.records[i].duplicate());
            i += 1;
        }
        let out = Collection { records: recs };
        proof {
            assert(out@ =~= self@);
        }
        out
    }

    /// The record at position `i`, in insertion order.
    pub fn get(&self, i: usize) -> (r: &Record)
        requires
            i < self@.len(),
        ensures
            r@ == self@[i as int],
    {
        &self.records[i]
    }

    /// How many records the collection holds.
    pub fn count(&self) -> (r: usize)
        ensures
            r == self@.len(),
    {
        self.records.len()
    }

    /// Index of the record with identity `id`, if any.
    fn find_index(&self, id: &Vec<u8>) -> (r: Option<usize>)
        requires
            self.wf(),
        ensures
            match r {
                Some(i) => i < self@.len() && self@[i as int].identity == id@ && id_index(
                    self@,
                    id@,
                ) == i as int && has_id(self@, id@),
                None => !has_id(self@, id@),
            },
    {
        let mut i: usize = 0;
        while i < self.records.len()
            invariant
                self.wf(),
                i <= self@.len(),
                self@.len() == self.records.len(),
                forall|j: int| 0 <= j < i ==> #[trigger] self@[j].identity != id@,
            decreases self.records.len() - i,
        {
            if bytes_eq(&self.records[i].identity, id) {
                proof {
                    lemma_id_index_is(self@, i as int);
                }
                return Some(i);
            }
            i += 1;
        }
        proof {
            assert forall|k: int| 0 <= k < self@.len() implies #[trigger] self@[k].identity
                != id@ by {}
        }
        None
    }

    /// Store a new record; fails — changing nothing — if its identity is
    /// already present, rather than silently overwriting.
    pub fn insert(&mut self, rec: Record) -> (r: Result<(), CryptoKeystoreError>)
        requires
            old(self).wf(),
        ensures
            final(self).wf(),
            has_id(old(self)@, rec@.identity) ==> r == Err::<(), CryptoKeystoreError>(
                CryptoKeystoreError::AlreadyExists,
            ) && final(self)@ == old(self)@,
            !has_id(old(self)@, rec@.identity) ==> r == Ok::<(), CryptoKeystoreError>(())
                && final(self)@ == old(self)@.push(rec@),
    {
        match self.find_index(&rec.identity) {
            Some(_) => Err(CryptoKeystoreError::AlreadyExists),
            None => {
                self.records.push(rec);
                proof {
                    assert(self@ =~= old(self)@.push(rec@));
                    assert forall|i: int, j: int| 0 <= i < j < self@.len() implies #[trigger] self@[i].identity
                        != #[trigger] self@[j].identity by {
                        if j == self@.len() - 1 {
                            assert(self@[i] == old(self)@[i]);
                        }
                    }
                }
                Ok(())
            },
        }
    }

    /// Store a record, replacing any record with the same identity.
    pub fn upsert(&mut self, rec: Record)
        requires
            old(self).wf(),
        ensures
            final(self).wf(),
            final(self)@ == upsert_spec(old(self)@, rec@),
    {
        match self.find_index(&rec.identity) {
            Some(i) => {
                self.records.remove(i);
                self.records.insert(i, rec);
                proof {
                    assert(self@ =~= old(self)@.update(i as int, rec@));
                    assert forall|a: int, b: int| 0 <= a < b < self@.len() implies #[trigger] self@[a].identity
                        != #[trigger] self@[b].identity by {
                        if a != i && b != i {
                            assert(self@[a] == old(self)@[a]);
                            assert(self@[b] == old(self)@[b]);
                        } else if a == i {
                            assert(self@[b] == old(self)@[b]);
                            assert(old(self)@[i as int].identity == rec@.identity);
                        } else {
                            assert(self@[a] == old(self)@[a]);
                            assert(old(self)@[i as int].identity == rec@.identity);
                        }
                    }
                }
            },
            None => {
                self.records.push(rec);
                proof {
                    assert(self@ =~= old(self)@.push(rec@));
                    assert forall|a: int, b: int| 0 <= a < b < self@.len() implies #[trigger] self@[a].identity
                        != #[trigger] self@[b].identity by {
                        if b == self@.len() - 1 {
                            assert(self@[a] == old(self)@[a]);
                        }
                    }
                }
            },
        }
    }

    /// Look a record up by its identity.
    pub fn find_by_identity(&self, id: &Vec<u8>) -> (r: Option<Record>)
        requires
            self.wf(),
        ensures
            match r {
                Some(rec) => find_spec(self@, id@) == Some(rec@),
                None => find_spec(self@, id@) is None,
            },
    {
        match self.find_index(id) {
            Some(i) => Some(self.records[i].duplicate()),
            None => None,
        }
    }

    /// Remove the record with identity `id`; removing an absent identity
    /// succeeds and changes nothing.
    pub fn delete(&mut self, id: &Vec<u8>)
        requires
            old(self).wf(),
        ensures
            final(self).wf(),
            final(self)@ == delete_spec(old(self)@, id@),
    {
        match self.find_index(id) {
            Some(i) => {
                self.records.remove(i);
                proof {
                    assert(self@ =~= old(self)@.remove(i as int));
                    assert forall|a: int, b: int| 0 <= a < b < self@.len() implies #[trigger] self@[a].identity
                        != #[trigger] self@[b].identity by {
                        let oa = if a < i { a } else { a + 1 };
                        let ob = if b < i { b } else { b + 1 };
                        assert(self@[a] == old(self)@[oa]);
                        assert(self@[b] == old(self)@[ob]);
                    }
                }
            },
            None => {},
        }
    }

    /// The sole record of a collection that by protocol convention holds at
    /// most one.
    pub fn find_unique(&self, kind: MissingKeyErrorKind) -> (r: Result<
        Record,
        CryptoKeystoreError,
    >)
        requires
            self.wf(),
        ensures
            match r {
                Ok(rec) => find_unique_spec(self@, kind) == Ok::<RecordModel, CryptoKeystoreError>(
                    rec@,
                ),
                Err(e) => find_unique_spec(self@, kind) == Err::<RecordModel, CryptoKeystoreError>(
                    e,
                ),
            },
    {
        if self.records.len() == 0 {
            Err(CryptoKeystoreError::MissingKeyInStore(kind))
        } else if self.records.len() == 1 {
            Ok(self.records[0].duplicate())
        } else {
            Err(CryptoKeystoreError::ImplementationError)
        }
    }

    /// All records whose secondary key equals `key`, in insertion order.
    pub fn find_by_secondary(&self, key: &Vec<u8>) -> (r: Vec<Record>)
        requires
            self.wf(),
        ensures
            r@.map_values(|x: Record| x@) == self@.filter(
                |m: RecordModel| m.secondary == Some(key@),
            ),
    {
        let mut out: Vec<Record> = Vec::new();
        let mut i: usize = 0;
        proof {
            reveal_with_fuel(Seq::filter, 1);
            assert(self@.subrange(0, 0).filter(|m: RecordModel| m.secondary == Some(key@))
                =~= Seq::<RecordModel>::empty());
        }
        while i < self.records.len()
            invariant
                i <= self@.len(),
                self@.len() == self.records.len(),
                out@.map_values(|x: Record| x@) =~= self@.subrange(0, i as int).filter(
                    |m: RecordModel| m.secondary == Some(key@),
                ),
            decreases self.records.len() - i,
        {
            let ghost pre = self@.subrange(0, i as int);
            let ghost post = self@.subrange(0, i as int + 1);
            proof {
                assert(post.drop_last() =~= pre);
                assert(post.last() == self@[i as int]);
                reveal_with_fuel(Seq::filter, 2);
            }
            let matches_key = match &self.records[i].secondary {
                Some(k) => bytes_eq(k, key),
                None => false,
            };
            if matches_key {
                out.push(self.records[i].duplicate());
                proof {
                    assert(out@.map_values(|x: Record| x@) =~= post.filter(
                        |m: RecordModel| m.secondary == Some(key@),
                    ));
                }
            } else {
                proof {
                    assert(out@.map_values(|x: Record| x@) =~= post.filter(
                        |m: RecordModel| m.secondary == Some(key@),
                    ));
                }
            }
            i += 1;
        }
        proof {
            assert(self@.subrange(0, self@.len() as int) =~= self@);
        }
        out
    }
}

/// Inserting a fresh identity then looking it up returns exactly the
/// inserted record, and leaves every other lookup unchanged.
pub proof fn lemma_find_after_insert(c: Seq<RecordModel>, r: RecordModel, other: Seq<u8>)
    requires
        unique_ids(c),
        !has_id(c, r.identity),
    ensures
        find_spec(c.push(r), r.identity) == Some(r),
        other != r.identity ==> find_spec(c.push(r), other) == find_spec(c, other),
{
    let c2 = c.push(r);
    assert(unique_ids(c2)) by {
        assert forall|i: int, j: int| 0 <= i < j < c2.len() implies #[trigger] c2[i].identity
            != #[trigger] c2[j].identity by {
            if j == c2.len() - 1 {
                assert(c2[i] == c[i]);
            }
        }
    }
    assert(c2[c.len() as int].identity == r.identity);
    lemma_id_index_is(c2, c.len() as int);
    if other != r.identity {
        if has_id(c, other) {
            let i = id_index(c, other);
            assert(c2[i] == c[i]);
            lemma_id_index_is(c, i);
            lemma_id_index_is(c2, i);
        } else {
            if has_id(c2, other) {
                let i = id_index(c2, other);
                assert(i == c2.len() - 1);
                assert(c2[i].identity == r.identity);
            }
        }
    }
}

/// After a deletion the identity is gone, and a second deletion of the same
/// identity succeeds without changing anything: deletion is idempotent.
pub proof fn lemma_delete_idempotent(c: Seq<RecordModel>, id: Seq<u8>)
    requires
        unique_ids(c),
    ensures
        find_spec(delete_spec(c, id), id) is None,
        delete_spec(delete_spec(c, id), id) == delete_spec(c, id),
{
    let d = delete_spec(c, id);
    if has_id(c, id) {
        let i = id_index(c, id);
        lemma_id_index_is(c, i);
        assert(d =~= c.remove(i));
        assert forall|k: int| 0 <= k < d.len() implies #[trigger] d[k].identity != id by {
            let ok = if k < i {
                k
            } else {
                k + 1
            };
            assert(d[k] == c[ok]);
            if ok < i {
                assert(c[ok].identity != c[i].identity);
            } else {
                assert(c[i].identity != c[ok].identity);
            }
        }
        assert(!has_id(d, id));
    } else {
        assert(!has_id(d, id));
    }
}

/// Appending a record with a fresh identity keeps identities unique.
pub proof fn lemma_push_unique(c: Seq<RecordModel>, r: RecordModel)
    requires
        unique_ids(c),
        !has_id(c, r.identity),
    ensures
        unique_ids(c.push(r)),
{
    let c2 = c.push(r);
    assert forall|i: int, j: int| 0 <= i < j < c2.len() implies #[trigger] c2[i].identity
        != #[trigger] c2[j].identity by {
        if j == c2.len() - 1 {
            assert(c2[i] == c[i]);
        }
    }
}

/// The whole life of an entity, as callers see it: once inserted it is
/// found, equal to what was inserted, until deleted; after the deletion it
/// is gone; and deleting it again still succeeds and changes nothing.
pub proof fn lemma_entity_lifecycle(c: Seq<RecordModel>, r: RecordModel)
    requires
        unique_ids(c),
        !has_id(c, r.identity),
    ensures
        find_spec(c.push(r), r.identity) == Some(r),
        find_spec(delete_spec(c.push(r), r.identity), r.identity) is None,
        delete_spec(delete_spec(c.push(r), r.identity), r.identity) == delete_spec(
            c.push(r),
            r.identity,
        ),
{
    lemma_find_after_insert(c, r, r.identity);
    lemma_push_unique(c, r);
    lemma_delete_idempotent(c.push(r), r.identity);
}

/// The at-most-one contract of `find_unique`: on a collection kept at no
/// more than one live record it returns that record exactly, or
/// `MissingKeyInStore` when none was ever inserted — never anything
/// ambiguous.
pub proof fn lemma_find_unique_at_most_one(c: Seq<RecordModel>, kind: MissingKeyErrorKind)
    requires
        c.len() <= 1,
    ensures
        c.len() == 1 ==> find_unique_spec(c, kind) == Ok::<RecordModel, CryptoKeystoreError>(c[0]),
        c.len() == 0 ==> find_unique_spec(c, kind) == Err::<RecordModel, CryptoKeystoreError>(
            CryptoKeystoreError::MissingKeyInStore(kind),
        ),
{
}

} // verus!
