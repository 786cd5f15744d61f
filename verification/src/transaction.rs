//! Transaction scoping: a buffered, single-owner sequence of keystore
//! mutations with an explicit commit.
//!
//! A context holds no entities of its own — only the mutations to apply.
//! `finish` consumes the context (so a finished transaction can never be
//! reused) and commits against an in-memory backend that supports true
//! atomic multi-statement commit: either every buffered mutation applies,
//! or the store is left exactly as it was and the error names the first
//! mutation that failed. A context that is dropped without `finish` commits
//! nothing.

use vstd::prelude::*;

use crate::error::{CryptoKeystoreError, MissingKeyErrorKind};
use crate::keystore::CryptoKeystore;
use crate::store::{delete_spec, has_id, upsert_spec, Record, RecordModel};

verus! {

/// One buffered keystore mutation.
pub enum Mutation {
    /// Store a new record; fails if the identity is already present.
    Insert(MissingKeyErrorKind, Record),
    /// Store a record, replacing any with the same identity.
    Upsert(MissingKeyErrorKind, Record),
    /// Remove the record with this identity, if any.
    Delete(MissingKeyErrorKind, Vec<u8>),
}

/// The mathematical content of a buffered mutation.
pub enum MutationModel {
    Insert(MissingKeyErrorKind, RecordModel),
    Upsert(MissingKeyErrorKind, RecordModel),
    Delete(MissingKeyErrorKind, Seq<u8>),
}

impl View for Mutation {
    type V = MutationModel;

    open spec fn view(&self) -> MutationModel {
        match self {
            Mutation::Insert(k, r) => MutationModel::Insert(*k, r@),
            Mutation::Upsert(k, r) => MutationModel::Upsert(*k, r@),
            Mutation::Delete(k, id) => MutationModel::Delete(*k, id@),
        }
    }
}

/// One mutation applied to the collections of a store; `None` when it
/// cannot apply (an insert whose identity is already present).
pub open spec fn apply_mutation(cs: Seq<Seq<RecordModel>>, m: MutationModel) -> Option<
    Seq<Seq<RecordModel>>,
> {
    match m {
        MutationModel::Insert(kind, r) => {
            let k = kind.spec_index();
            if has_id(cs[k], r.identity) {
                None
            } else {
                Some(cs.update(k, cs[k].push(r)))
            }
        },
        MutationModel::Upsert(kind, r) => {
            let k = kind.spec_index();
            Some(cs.update(k, upsert_spec(cs[k], r)))
        },
        MutationModel::Delete(kind, id) => {
            let k = kind.spec_index();
            Some(cs.update(k, delete_spec(cs[k], id)))
        },
    }
}

/// A whole mutation sequence applied in order; `None` as soon as any
/// mutation cannot apply.
pub open spec fn apply_all(cs: Seq<Seq<RecordModel>>, ops: Seq<MutationModel>) -> Option<
    Seq<Seq<RecordModel>>,
>
    decreases ops.len(),
{
    if ops.len() == 0 {
        Some(cs)
    } else {
        match apply_mutation(cs, ops[0]) {
            None => None,
            Some(c2) => apply_all(c2, ops.drop_first()),
        }
    }
}

/// Index of the first mutation that cannot apply; meaningful only when
/// `apply_all` is `None`.
pub open spec fn fail_index(cs: Seq<Seq<RecordModel>>, ops: Seq<MutationModel>) -> int
    decreases ops.len(),
{
    if ops.len() == 0 {
        0
    } else {
        match apply_mutation(cs, ops[0]) {
            None => 0,
            Some(c2) => 1 + fail_index(c2, ops.drop_first()),
        }
    }
}

/// How appending one mutation composes with applying the sequence before
/// it.
pub proof fn lemma_apply_all_push(
    cs: Seq<Seq<RecordModel>>,
    ops: Seq<MutationModel>,
    op: MutationModel,
)
    ensures
        apply_all(cs, ops) is Some ==> apply_all(cs, ops.push(op)) == apply_mutation(
            apply_all(cs, ops).unwrap(),
            op,
        ),
        apply_all(cs, ops) is Some && apply_mutation(apply_all(cs, ops).unwrap(), op) is None
            ==> fail_index(cs, ops.push(op)) == ops.len(),
        apply_all(cs, ops) is None ==> apply_all(cs, ops.push(op)) is None && fail_index(
            cs,
            ops.push(op),
        ) == fail_index(cs, ops),
    decreases ops.len(),
{
    reveal_with_fuel(apply_all, 3);
    reveal_with_fuel(fail_index, 3);
    if ops.len() == 0 {
        assert(ops.push(op)[0] == op);
        assert(ops.push(op).drop_first() =~= Seq::<MutationModel>::empty());
    } else {
        assert(ops.push(op)[0] == ops[0]);
        assert(ops.push(op).drop_first() =~= ops.drop_first().push(op));
        match apply_mutation(cs, ops[0]) {
            None => {},
            Some(c2) => {
                lemma_apply_all_push(c2, ops.drop_first(), op);
            },
        }
    }
}

/// A sequence that already fails on its first `i` mutations fails as a
/// whole, at that same mutation, whatever follows.
pub proof fn lemma_fail_prefix(cs: Seq<Seq<RecordModel>>, ops: Seq<MutationModel>, i: int)
    requires
        0 <= i <= ops.len(),
        apply_all(cs, ops.take(i)) is None,
    ensures
        apply_all(cs, ops) is None,
        fail_index(cs, ops) == fail_index(cs, ops.take(i)),
    decreases ops.len(),
{
    reveal_with_fuel(apply_all, 3);
    reveal_with_fuel(fail_index, 3);
    if i == 0 {
        assert(ops.take(0) =~= Seq::<MutationModel>::empty());
    } else {
        assert(ops.take(i)[0] == ops[0]);
        match apply_mutation(cs, ops[0]) {
            None => {},
            Some(c2) => {
                assert(ops.take(i).drop_first() =~= ops.drop_first().take(i - 1));
                lemma_fail_prefix(c2, ops.drop_first(), i - 1);
            },
        }
    }
}

/// A context buffering the mutations of one logical operation.
pub struct TransactionContext {
    ops: Vec<Mutation>,
}

impl View for TransactionContext {
    type V = Seq<MutationModel>;

    closed spec fn view(&self) -> Seq<MutationModel> {
        self.ops@.map_values(|m: Mutation| m@)
    }
}

impl CryptoKeystore {
    /// Start a transaction: a fresh context with nothing buffered. The
    /// context is bound to whatever keystore `finish` is later given; one
    /// context must serve exactly one logical operation.
    pub fn begin_transaction(&self) -> (r: TransactionContext)
        ensures
            r@ =~= Seq::<MutationModel>::empty(),
    {
        TransactionContext { ops: Vec::new() }
    }
}

impl TransactionContext {
    /// Buffer an insert of `rec` into `kind`'s collection.
    pub fn insert(&mut self, kind: MissingKeyErrorKind, rec: Record)
        ensures
            final(self)@ =~= old(self)@.push(MutationModel::Insert(kind, rec@)),
    {
        let ghost pre = self@;
        self.ops.push(Mutation::Insert(kind, rec));
        proof {
            assert(final(self)@ =~= pre.push(MutationModel::Insert(kind, rec@)));
        }
    }

    /// Buffer an insert-or-replace of `rec` into `kind`'s collection.
    pub fn upsert(&mut self, kind: MissingKeyErrorKind, rec: Record)
        ensures
            final(self)@ =~= old(self)@.push(MutationModel::Upsert(kind, rec@)),
    {
        let ghost pre = self@;
        self.ops.push(Mutation::Upsert(kind, rec));
        proof {
            assert(final(self)@ =~= pre.push(MutationModel::Upsert(kind, rec@)));
        }
    }

    /// Buffer a deletion of identity `id` from `kind`'s collection.
    pub fn delete(&mut self, kind: MissingKeyErrorKind, id: Vec<u8>)
        ensures
            final(self)@ =~= old(self)@.push(MutationModel::Delete(kind, id@)),
    {
        let ghost pre = self@;
        self.ops.push(Mutation::Delete(kind, id));
        proof {
            assert(final(self)@ =~= pre.push(MutationModel::Delete(kind, id@)));
        }
    }

    /// How many mutations are buffered.
    pub fn len(&self) -> (r: usize)
        ensures
            r == self@.len(),
    {
        self.ops.len()
    }

    /// Commit every buffered mutation as one atomic unit, consuming the
    /// context.
    ///
    /// Either all mutations apply, in order, or none does: on failure the
    /// keystore is exactly as before and the error names the first
    /// mutation that could not apply. This honest all-or-nothing guarantee
    /// holds because the backend commits atomically
    /// (`CryptoKeystore::commits_atomically`); a backend without that
    /// capability would have to apply eagerly and surface partial failure
    /// instead.
    #[verifier::loop_isolation(false)]
    pub fn finish(self, ks: &mut CryptoKeystore) -> (r: Result<(), CryptoKeystoreError>)
        requires
            old(ks).ready(),
        ensures
            final(ks).ready(),
            final(ks)@.version == old(ks)@.version,
            final(ks).spec_salt() == old(ks).spec_salt(),
            match r {
                Ok(()) => apply_all(old(ks)@.collections, self@) == Some(
                    final(ks)@.collections,
                ),
                Err(e) => {
                    &&& apply_all(old(ks)@.collections, self@) is None
                    &&& final(ks)@ == old(ks)@
                    &&& match e {
                        CryptoKeystoreError::TransactionAborted { failed_index } => {
                            failed_index as int == fail_index(old(ks)@.collections, self@)
                        },
                        _ => false,
                    }
                },
            },
    {
        let ghost cs0 = ks@.collections;
        let ghost opsm = self@;
        let mut work = ks.snapshot_collections();
        let ops = self.ops;
        let mut i: usize = 0;
        proof {
            assert(opsm.take(0) =~= Seq::<MutationModel>::empty());
        }
        while i < ops.len()
            invariant
                old(ks).ready(),
                ks == old(ks),
                i <= ops.len(),
                ops@.len() == opsm.len(),
                opsm =~= ops@.map_values(|m: Mutation| m@),
                cs0 == old(ks)@.collections,
                work@.len() == crate::error::ENTITY_KIND_COUNT,
                forall|k: int| 0 <= k < work@.len() ==> (#[trigger] work@[k]).wf(),
                apply_all(cs0, opsm.take(i as int)) == Some(
                    work@.map_values(|c: crate::store::Collection| c@),
                ),
            decreases ops.len() - i,
        {
            let ghost wpre = work@.map_values(|c: crate::store::Collection| c@);
            proof {
                assert(opsm.take(i as int).push(opsm[i as int]) =~= opsm.take(i as int + 1));
                lemma_apply_all_push(cs0, opsm.take(i as int), opsm[i as int]);
            }
            match &ops[i] {
                Mutation::Insert(kind, rec) => {
                    let k = kind.index();
                    proof {
                        assert(wpre[kind.spec_index()] == work@[k as int]@);
                    }
                    let res = work[k].insert(rec.duplicate());
                    match res {
                        Ok(_) => {
                            proof {
                                assert(work@.map_values(|c: crate::store::Collection| c@)
                                    =~= wpre.update(
                                    kind.spec_index(),
                                    wpre[kind.spec_index()].push(rec@),
                                ));
                            }
                        },
                        Err(_) => {
                            proof {
                                assert(apply_mutation(wpre, opsm[i as int]) is None);
                                lemma_fail_prefix(cs0, opsm, i as int + 1);
                                assert(fail_index(cs0, opsm.take(i as int + 1)) == i as int);
                            }
                            return Err(
                                CryptoKeystoreError::TransactionAborted { failed_index: i },
                            );
                        },
                    }
                },
                Mutation::Upsert(kind, rec) => {
                    let k = kind.index();
                    proof {
                        assert(wpre[kind.spec_index()] == work@[k as int]@);
                    }
                    work[k].upsert(rec.duplicate());
                    proof {
                        assert(work@.map_values(|c: crate::store::Collection| c@) =~= wpre.update(
                            kind.spec_index(),
                            upsert_spec(wpre[kind.spec_index()], rec@),
                        ));
                    }
                },
                Mutation::Delete(kind, id) => {
                    let k = kind.index();
                    proof {
                        assert(wpre[kind.spec_index()] == work@[k as int]@);
                    }
                    work[k].delete(id);
                    proof {
                        assert(work@.map_values(|c: crate::store::Collection| c@) =~= wpre.update(
                            kind.spec_index(),
                            delete_spec(wpre[kind.spec_index()], id@),
                        ));
                    }
                },
            }
            i += 1;
        }
        proof {
            assert(opsm.take(opsm.len() as int) =~= opsm);
        }
        ks.install_collections(work);
        Ok(())
    }
}

} // verus!
