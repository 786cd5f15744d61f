//! Operational contracts over protocol operations.
//!
//! Every state-mutating protocol operation is classified by its effect on
//! keystore content: *durable* (its effects must survive losing all
//! in-memory state), *idempotent* (the entity population is the same size
//! before and after), or *dispotent* (the population size changes, in a
//! declared direction that a paired inverse operation undoes). The
//! classification is validated when the operation is declared — an
//! impossible marker is a build-time error, not a runtime one — and a test
//! harness checks the counts, and simulated recovery, at run time through
//! the hooks here.

use vstd::prelude::*;

use crate::error::{MissingKeyErrorKind, ENTITY_KIND_COUNT};
use crate::keystore::CryptoKeystore;
use crate::store::{has_id, unique_ids, RecordModel};
use crate::transaction::{apply_all, apply_mutation, MutationModel};

verus! {

/// Which way a dispotent operation moves the entity population.
#[derive(Clone, Copy, Debug, PartialEq, Eq, Structural)]
pub enum EffectDirection {
    /// The operation creates more than it destroys.
    InsertionDominant,
    /// The operation destroys more than it creates.
    DeletionDominant,
}

/// The behavioral marker an operation is declared with.
#[derive(Clone, Copy, Debug, PartialEq, Eq, Structural)]
pub enum OperationMarker {
    /// All protocol state the operation touched must be recoverable from
    /// the keystore alone.
    Durable,
    /// The operation leaves the entity population size unchanged; it may
    /// create and destroy internally but always compensates.
    Idempotent,
    /// The operation changes the entity population size, in the declared
    /// direction; its declared inverse restores the prior count.
    Dispotent(EffectDirection),
}

/// What an operation's declaration exposes to the contract generator: how
/// many records it creates and destroys on its nominal path, and whether
/// its signature carries the keystore-backed provider that reloading state
/// requires (an explicit parameter, never an ambient global).
#[derive(Clone, Copy, Debug, PartialEq, Eq, Structural)]
pub struct OperationShape {
    pub has_keystore_param: bool,
    pub adds: usize,
    pub removes: usize,
}

/// Why a declaration was rejected at build time.
#[derive(Clone, Copy, Debug, PartialEq, Eq, Structural)]
pub enum ContractViolation {
    /// A durable operation does not expose the keystore dependency needed
    /// to reload state.
    MissingKeystoreParameter,
    /// An idempotent operation declares a net change of the population.
    UnbalancedEffect,
    /// A dispotent operation declares no net change of the population.
    NoNetEffect,
    /// A dispotent operation's declared direction contradicts its effect.
    DirectionMismatch,
    /// One operation carries both the idempotent and the dispotent marker.
    ConflictingMarkers,
}

/// When one marker fits one operation shape.
pub open spec fn marker_fits(marker: OperationMarker, shape: OperationShape) -> bool {
    match marker {
        OperationMarker::Durable => shape.has_keystore_param,
        OperationMarker::Idempotent => shape.adds == shape.removes,
        OperationMarker::Dispotent(dir) => shape.adds != shape.removes && (match dir {
            EffectDirection::InsertionDominant => shape.adds > shape.removes,
            EffectDirection::DeletionDominant => shape.adds < shape.removes,
        }),
    }
}

/// Validate one marker against the operation it is attached to; rejecting
/// happens here, when the operation is declared, never at run time.
pub fn validate_marker(marker: OperationMarker, shape: OperationShape) -> (r: Result<
    (),
    ContractViolation,
>)
    ensures
        r is Ok <==> marker_fits(marker, shape),
        match r {
            Ok(()) => true,
            Err(v) => match marker {
                OperationMarker::Durable => v == ContractViolation::MissingKeystoreParameter,
                OperationMarker::Idempotent => v == ContractViolation::UnbalancedEffect,
                OperationMarker::Dispotent(_) => (shape.adds == shape.removes ==> v
                    == ContractViolation::NoNetEffect) && (shape.adds != shape.removes ==> v
                    == ContractViolation::DirectionMismatch),
            },
        },
{
    match marker {
        OperationMarker::Durable => {
            if shape.has_keystore_param {
                Ok(())
            } else {
                Err(ContractViolation::MissingKeystoreParameter)
            }
        },
        OperationMarker::Idempotent => {
            if shape.adds == shape.removes {
                Ok(())
            } else {
                Err(ContractViolation::UnbalancedEffect)
            }
        },
        OperationMarker::Dispotent(dir) => {
            if shape.adds == shape.removes {
                Err(ContractViolation::NoNetEffect)
            } else {
                let fits = match dir {
                    EffectDirection::InsertionDominant => shape.adds > shape.removes,
                    EffectDirection::DeletionDominant => shape.adds < shape.removes,
                };
                if fits {
                    Ok(())
                } else {
                    Err(ContractViolation::DirectionMismatch)
                }
            }
        },
    }
}

/// Whether the list carries an idempotent marker.
pub open spec fn has_idempotent(ms: Seq<OperationMarker>) -> bool {
    exists|i: int| 0 <= i < ms.len() && ms[i] == OperationMarker::Idempotent
}

/// Whether the list carries a dispotent marker.
pub open spec fn has_dispotent(ms: Seq<OperationMarker>) -> bool {
    exists|i: int| 0 <= i < ms.len() && ms[i] is Dispotent
}

/// Validate a whole marker list: idempotent and dispotent exclude each
/// other, and every marker must fit the operation.
pub fn validate_markers(markers: &Vec<OperationMarker>, shape: OperationShape) -> (r: Result<
    (),
    ContractViolation,
>)
    ensures
        r is Ok <==> !(has_idempotent(markers@) && has_dispotent(markers@)) && (forall|i: int|
            0 <= i < markers@.len() ==> marker_fits(#[trigger] markers@[i], shape)),
        has_idempotent(markers@) && has_dispotent(markers@) ==> r == Err::<(), ContractViolation>(
            ContractViolation::ConflictingMarkers,
        ),
{
    let mut saw_idempotent = false;
    let mut saw_dispotent = false;
    let mut i: usize = 0;
    while i < markers.len()
        invariant
            i <= markers@.len(),
            saw_idempotent <==> has_idempotent(markers@.take(i as int)),
            saw_dispotent <==> has_dispotent(markers@.take(i as int)),
        decreases markers@.len() - i,
    {
        let ghost pre = markers@.take(i as int);
        let m = markers[i];
        match m {
            OperationMarker::Idempotent => {
                saw_idempotent = true;
            },
            OperationMarker::Dispotent(_) => {
                saw_dispotent = true;
            },
            OperationMarker::Durable => {},
        }
        i += 1;
        proof {
            let cur = markers@.take(i as int);
            assert(cur =~= pre.push(markers@[i - 1]));
            assert(has_idempotent(cur) <==> (has_idempotent(pre) || markers@[i - 1]
                == OperationMarker::Idempotent)) by {
                if has_idempotent(cur) {
                    let j = choose|j: int|
                        0 <= j < cur.len() && cur[j] == OperationMarker::Idempotent;
                    if j < pre.len() {
                        assert(pre[j] == OperationMarker::Idempotent);
                        assert(has_idempotent(pre));
                    }
                }
                if has_idempotent(pre) {
                    let j = choose|j: int|
                        0 <= j < pre.len() && pre[j] == OperationMarker::Idempotent;
                    assert(cur[j] == OperationMarker::Idempotent);
                    assert(has_idempotent(cur));
                }
                if markers@[i - 1] == OperationMarker::Idempotent {
                    assert(cur[i - 1] == OperationMarker::Idempotent);
                    assert(has_idempotent(cur));
                }
            }
            assert(has_dispotent(cur) <==> (has_dispotent(pre) || markers@[i - 1] is Dispotent))
                by {
                if has_dispotent(cur) {
                    let j = choose|j: int| 0 <= j < cur.len() && cur[j] is Dispotent;
                    if j < pre.len() {
                        assert(pre[j] is Dispotent);
                        assert(has_dispotent(pre));
                    }
                }
                if has_dispotent(pre) {
                    let j = choose|j: int| 0 <= j < pre.len() && pre[j] is Dispotent;
                    assert(cur[j] is Dispotent);
                    assert(has_dispotent(cur));
                }
                if markers@[i - 1] is Dispotent {
                    assert(cur[i - 1] is Dispotent);
                    assert(has_dispotent(cur));
                }
            }
        }
    }
    proof {
        assert(markers@.take(markers@.len() as int) =~= markers@);
    }
    if saw_idempotent && saw_dispotent {
        return Err(ContractViolation::ConflictingMarkers);
    }
    let mut k: usize = 0;
    while k < markers.len()
        invariant
            k <= markers@.len(),
            !(has_idempotent(markers@) && has_dispotent(markers@)),
            forall|j: int| 0 <= j < k ==> marker_fits(#[trigger] markers@[j], shape),
        decreases markers@.len() - k,
    {
        match validate_marker(markers[k], shape) {
            Ok(()) => {},
            Err(v) => {
                return Err(v);
            },
        }
        k += 1;
    }
    Ok(())
}

/// One field of a declarative entity description, as the entity derivation
/// sees it: marked as the identity, as a secondary lookup key, or neither.
#[derive(Clone, Copy, Debug, PartialEq, Eq, Structural)]
pub struct FieldDescription {
    pub is_identity: bool,
    pub is_secondary_key: bool,
}

/// Why an entity description was rejected when its storage contract was
/// derived.
#[derive(Clone, Copy, Debug, PartialEq, Eq, Structural)]
pub enum EntityDeriveError {
    /// No field is marked as the identity.
    NoIdentityField,
    /// More than one field is marked as the identity.
    MultipleIdentityFields,
}

/// Derive the storage contract of an entity description: accepted exactly
/// when one single field carries the identity mark, returning that field's
/// position. A description with zero or several identity fields is
/// rejected here, when the entity is declared — never at run time.
pub fn validate_entity_description(fields: &Vec<FieldDescription>) -> (r: Result<
    usize,
    EntityDeriveError,
>)
    ensures
        match r {
            Ok(i) => (i as int) < fields@.len() && fields@[i as int].is_identity && (forall|j: int|
                0 <= j < fields@.len() && j != i as int
                    ==> !(#[trigger] fields@[j]).is_identity),
            Err(e) => match e {
                EntityDeriveError::NoIdentityField => forall|j: int|
                    0 <= j < fields@.len() ==> !(#[trigger] fields@[j]).is_identity,
                EntityDeriveError::MultipleIdentityFields => exists|a: int, b: int|
                    0 <= a < b < fields@.len() && (#[trigger] fields@[a]).is_identity && (
                    #[trigger] fields@[b]).is_identity,
            },
        },
{
    let mut found: Option<usize> = None;
    let mut i: usize = 0;
    while i < fields.len()
        invariant
            i <= fields@.len(),
            match found {
                Some(f) => (f as int) < i && fields@[f as int].is_identity && (forall|j: int|
                    0 <= j < i && j != f as int ==> !(#[trigger] fields@[j]).is_identity),
                None => forall|j: int| 0 <= j < i ==> !(#[trigger] fields@[j]).is_identity,
            },
        decreases fields@.len() - i,
    {
        if fields[i].is_identity {
            match found {
                Some(f) => {
                    return Err(EntityDeriveError::MultipleIdentityFields);
                },
                None => {
                    found = Some(i);
                },
            }
        }
        i += 1;
    }
    match found {
        Some(f) => Ok(f),
        None => Err(EntityDeriveError::NoIdentityField),
    }
}

/// The whole entity population of a store: the record count summed over
/// all collections.
pub open spec fn total_records(cs: Seq<Seq<RecordModel>>) -> nat
    decreases cs.len(),
{
    if cs.len() == 0 {
        0
    } else {
        total_records(cs.drop_last()) + cs.last().len()
    }
}

/// Exchanging one collection changes the total by exactly the difference
/// of the two collection sizes.
pub proof fn lemma_total_update(cs: Seq<Seq<RecordModel>>, k: int, c: Seq<RecordModel>)
    requires
        0 <= k < cs.len(),
    ensures
        total_records(cs.update(k, c)) + cs[k].len() == total_records(cs) + c.len(),
    decreases cs.len(),
{
    let u = cs.update(k, c);
    if k == cs.len() - 1 {
        assert(u.drop_last() =~= cs.drop_last());
    } else {
        assert(u.drop_last() =~= cs.drop_last().update(k, c));
        assert(u.last() == cs.last());
        lemma_total_update(cs.drop_last(), k, c);
    }
}

impl CryptoKeystore {
    /// The entity population of the whole store, as the contract hooks
    /// count it.
    pub fn total_count(&self) -> (r: u128)
        requires
            self.ready(),
        ensures
            r == total_records(self@.collections),
    {
        let mut total: u128 = 0;
        let mut i: usize = 0;
        proof {
            assert(self@.collections.subrange(0, 0) =~= Seq::<Seq<RecordModel>>::empty());
        }
        while i < ENTITY_KIND_COUNT
            invariant
                self.ready(),
                i <= ENTITY_KIND_COUNT,
                total == total_records(self@.collections.subrange(0, i as int)),
                total <= (i as u128) * 0xffff_ffff_ffff_ffffu128,
            decreases ENTITY_KIND_COUNT - i,
        {
            let kind = MissingKeyErrorKind::from_index(i);
            let n = self.count(kind);
            proof {
                let pre = self@.collections.subrange(0, i as int);
                let post = self@.collections.subrange(0, i as int + 1);
                assert(post.drop_last() =~= pre);
                assert(post.last() == self@.collections[i as int]);
            }
            total = total + (n as u128);
            i += 1;
        }
        proof {
            assert(self@.collections.subrange(0, ENTITY_KIND_COUNT as int)
                =~= self@.collections);
        }
        total
    }
}

/// The runtime check behind the idempotent marker: the population size
/// after the operation must equal the size before it.
pub fn check_idempotent(before: u128, ks: &CryptoKeystore) -> (r: Result<(), ContractViolation>)
    requires
        ks.ready(),
    ensures
        r is Ok <==> before == total_records(ks@.collections),
        r is Err ==> r == Err::<(), ContractViolation>(ContractViolation::UnbalancedEffect),
{
    let after = ks.total_count();
    if after == before {
        Ok(())
    } else {
        Err(ContractViolation::UnbalancedEffect)
    }
}

/// The runtime check behind the dispotent marker: the population size must
/// have moved in the declared direction.
pub fn check_dispotent(before: u128, ks: &CryptoKeystore, direction: EffectDirection) -> (r:
    Result<(), ContractViolation>)
    requires
        ks.ready(),
    ensures
        r is Ok <==> (match direction {
            EffectDirection::InsertionDominant => total_records(ks@.collections) > before,
            EffectDirection::DeletionDominant => total_records(ks@.collections) < before,
        }),
        r is Err && total_records(ks@.collections) == before ==> r == Err::<
            (),
            ContractViolation,
        >(ContractViolation::NoNetEffect),
        r is Err && total_records(ks@.collections) != before ==> r == Err::<
            (),
            ContractViolation,
        >(ContractViolation::DirectionMismatch),
{
    let after = ks.total_count();
    let ok = match direction {
        EffectDirection::InsertionDominant => after > before,
        EffectDirection::DeletionDominant => after < before,
    };
    if ok {
        Ok(())
    } else if after == before {
        Err(ContractViolation::NoNetEffect)
    } else {
        Err(ContractViolation::DirectionMismatch)
    }
}

/// A balanced create-then-destroy pair is idempotent for the store: the
/// two mutations commit, and the store — so in particular the entity
/// population size — is exactly as before.
pub proof fn lemma_balanced_pair_is_idempotent(
    cs: Seq<Seq<RecordModel>>,
    kind: MissingKeyErrorKind,
    r: RecordModel,
)
    requires
        0 <= kind.spec_index() < cs.len(),
        unique_ids(cs[kind.spec_index()]),
        !has_id(cs[kind.spec_index()], r.identity),
    ensures
        apply_all(
            cs,
            seq![MutationModel::Insert(kind, r), MutationModel::Delete(kind, r.identity)],
        ) == Some(cs),
{
    reveal_with_fuel(apply_all, 4);
    lemma_dispotent_inverse(cs, kind, r);
    let ops = seq![MutationModel::Insert(kind, r), MutationModel::Delete(kind, r.identity)];
    assert(ops[0] == MutationModel::Insert(kind, r));
    let c1 = apply_mutation(cs, ops[0]).unwrap();
    assert(ops.drop_first() =~= seq![MutationModel::Delete(kind, r.identity)]);
    assert(ops.drop_first()[0] == MutationModel::Delete(kind, r.identity));
    assert(ops.drop_first().drop_first() =~= Seq::<MutationModel>::empty());
}

/// An insertion-dominant mutation and its inverse: inserting a fresh
/// record raises the population by exactly one, and deleting that same
/// record afterwards restores not only the count but the whole store.
/// This is the dispotent-then-inverse law; read with `lemma_total_update`
/// it also shows why a balanced create-then-destroy pair is idempotent for
/// the population size.
pub proof fn lemma_dispotent_inverse(
    cs: Seq<Seq<RecordModel>>,
    kind: MissingKeyErrorKind,
    r: RecordModel,
)
    requires
        0 <= kind.spec_index() < cs.len(),
        unique_ids(cs[kind.spec_index()]),
        !has_id(cs[kind.spec_index()], r.identity),
    ensures
        apply_mutation(cs, MutationModel::Insert(kind, r)) matches Some(c1) && total_records(c1)
            == total_records(cs) + 1 && apply_mutation(
            c1,
            MutationModel::Delete(kind, r.identity),
        ) == Some(cs),
{
    let k = kind.spec_index();
    let col1 = cs[k].push(r);
    let c1 = cs.update(k, col1);
    assert(apply_mutation(cs, MutationModel::Insert(kind, r)) == Some(c1));
    lemma_total_update(cs, k, col1);
    assert(unique_ids(col1)) by {
        assert forall|a: int, b: int| 0 <= a < b < col1.len() implies #[trigger] col1[a].identity
            != #[trigger] col1[b].identity by {
            if b == col1.len() - 1 {
                assert(col1[a] == cs[k][a]);
            }
        }
    }
    assert(col1[col1.len() - 1].identity == r.identity);
    crate::store::lemma_id_index_is(col1, col1.len() - 1);
    assert(has_id(col1, r.identity));
    let deleted = crate::store::delete_spec(col1, r.identity);
    assert(deleted =~= cs[k]);
    assert(c1[k] == col1);
    assert(apply_mutation(c1, MutationModel::Delete(kind, r.identity)) == Some(
        c1.update(k, deleted),
    ));
    assert(c1.update(k, deleted) =~= cs);
}

} // verus!
