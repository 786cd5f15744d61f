//! The boundary to the MLS protocol crate.
//!
//! Protocol values (proposals, senders, queued proposals) are opaque here:
//! the conversions below only tell their variants apart and move plain
//! values out, one arm per variant. Everything said about the resulting
//! kinds — their display names, their redaction — is verified on the
//! crate's own types in `obfuscate`.

use vstd::prelude::*;

use crate::obfuscate::{ProposalKind, SenderKind};

verus! {

#[verifier::external_type_specification]
#[verifier::external_body]
pub struct ExProposal(openmls::prelude::Proposal);

#[verifier::external_type_specification]
#[verifier::external_body]
pub struct ExSender(openmls::prelude::Sender);

#[verifier::external_type_specification]
#[verifier::external_body]
pub struct ExQueuedProposal(openmls::group::QueuedProposal);

/// Relies on openmls's Proposal enum: one arm per variant, naming which
/// variant the value is and nothing of its contents.
#[verifier::external_body]
fn proposal_kind(p: &openmls::prelude::Proposal) -> ProposalKind {
    match p {
        openmls::prelude::Proposal::Add(_) => ProposalKind::Add,
        openmls::prelude::Proposal::Update(_) => ProposalKind::Update,
        openmls::prelude::Proposal::Remove(_) => ProposalKind::Remove,
        openmls::prelude::Proposal::PreSharedKey(_) => ProposalKind::PreSharedKey,
        openmls::prelude::Proposal::ReInit(_) => ProposalKind::ReInit,
        openmls::prelude::Proposal::ExternalInit(_) => ProposalKind::ExternalInit,
        openmls::prelude::Proposal::GroupContextExtensions(_) => {
            ProposalKind::GroupContextExtensions
        },
        openmls::prelude::Proposal::SelfRemove => ProposalKind::SelfRemove,
        openmls::prelude::Proposal::Custom(_) => ProposalKind::Custom,
    }
}

/// Relies on QueuedProposal::proposal: hands out a reference to the queued
/// proposal's body, unchanged.
#[verifier::external_body]
fn queued_proposal_body(q: &openmls::group::QueuedProposal) -> &openmls::prelude::Proposal {
    q.proposal()
}

/// Relies on openmls's Sender enum: one arm per variant; a member's leaf
/// index moves out as its number, an external sender's index as its
/// rendering.
#[verifier::external_body]
fn sender_kind(s: &openmls::prelude::Sender) -> SenderKind {
    match s {
        openmls::prelude::Sender::Member(index) => SenderKind::Member(index.u32()),
        openmls::prelude::Sender::External(index) => {
            SenderKind::External(format!("{index:?}"))
        },
        openmls::prelude::Sender::NewMemberProposal => SenderKind::NewMemberProposal,
        openmls::prelude::Sender::NewMemberCommit => SenderKind::NewMemberCommit,
    }
}

/// The log text of an MLS proposal: its variant name, nothing else.
pub fn obfuscate_proposal(p: &openmls::prelude::Proposal) -> (r: String)
    ensures
        exists|k: ProposalKind| r@ == k.spec_label(),
{
    let kind = proposal_kind(p);
    let label = kind.label();
    proof {
        assert(label@ == kind.spec_label());
    }
    label
}

/// The log text of a queued proposal: that of its body.
pub fn obfuscate_queued_proposal(q: &openmls::group::QueuedProposal) -> (r: String)
    ensures
        exists|k: ProposalKind| r@ == k.spec_label(),
{
    obfuscate_proposal(queued_proposal_body(q))
}

/// The log text of a message sender: its variant, and for a member its
/// leaf index.
pub fn obfuscate_sender(s: &openmls::prelude::Sender) -> (r: String)
    ensures
        exists|k: SenderKind| r@ == k.spec_label(),
{
    let kind = sender_kind(s);
    let label = kind.label();
    proof {
        assert(label@ == kind.spec_label());
    }
    label
}

} // verus!
