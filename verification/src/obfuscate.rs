//! Redaction of privacy-sensitive identifiers for logging.
//!
//! Conversation and client identifiers must never reach a log in
//! cleartext. What may be logged is a salted, truncated hash rendered as
//! hex: deterministic within one keystore session, so log lines can be
//! correlated, but salted with a fresh per-session salt, so correlation
//! does not survive a restart and the hash cannot become a pseudo-id.

use vstd::prelude::*;

use crate::client_id::ClientId;
use crate::hexcode::{hex_encode, hex_of};
use crate::store::copy_bytes;
use crate::textenc::{dec_chars, u64_to_dec};
use sha2::Digest;

verus! {

/// What sha2's Sha256 digest returns: a function of the input bytes alone,
/// never stated further here.
pub uninterp spec fn sha256_of(input: Seq<u8>) -> Seq<u8>;

/// Relies on sha2::Sha256 through its one-shot digest: the result depends
/// on the input bytes alone and is 32 bytes long.
#[verifier::external_body]
fn sha256(input: &Vec<u8>) -> (r: Vec<u8>)
    ensures
        r@ == sha256_of(input@),
        r@.len() == 32,
{
    sha2::Sha256::digest(input).to_vec()
}

/// The loggable alias of a sensitive byte string: the salted digest,
/// truncated to ten bytes.
pub fn compute_hash(salt: &Vec<u8>, bytes: &Vec<u8>) -> (r: Vec<u8>)
    ensures
        r@ == sha256_of(salt@ + bytes@).take(10),
        r@.len() == 10,
{
    let mut input = copy_bytes(salt);
    let mut rest = copy_bytes(bytes);
    input.append(&mut rest);
    let mut digest = sha256(&input);
    digest.truncate(10);
    proof {
        assert(digest@ =~= sha256_of(salt@ + bytes@).take(10));
    }
    digest
}

/// The loggable alias, rendered: ten salted digest bytes as twenty hex
/// digits.
pub open spec fn spec_redacted(salt: Seq<u8>, bytes: Seq<u8>) -> Seq<char> {
    hex_of(sha256_of(salt + bytes).take(10))
}

/// The hex rendering of `compute_hash`, which is what actually reaches a
/// log line.
pub fn redacted_hex(salt: &Vec<u8>, bytes: &Vec<u8>) -> (r: String)
    ensures
        r@ == spec_redacted(salt@, bytes@),
{
    let h = compute_hash(salt, bytes);
    hex_encode(&h)
}

/// A value that knows how to describe itself for a log line without
/// revealing anything sensitive, given the session's redaction salt.
pub trait Obfuscate {
    fn obfuscate_text(&self, salt: &Vec<u8>) -> String;
}

/// A conversation (group) identifier: privacy-sensitive, never logged in
/// cleartext.
#[derive(Debug)]
pub struct ConversationId(pub Vec<u8>);

impl View for ConversationId {
    type V = Seq<u8>;

    open spec fn view(&self) -> Seq<u8> {
        self.0@
    }
}

impl ConversationId {
    /// The redacted alias of this conversation id.
    pub fn obfuscated(&self, salt: &Vec<u8>) -> (r: String)
        ensures
            r@ == spec_redacted(salt@, self@),
    {
        redacted_hex(salt, &self.0)
    }
}

impl Obfuscate for ConversationId {
    fn obfuscate_text(&self, salt: &Vec<u8>) -> String {
        self.obfuscated(salt)
    }
}

impl ClientId {
    /// The redacted alias of this client id.
    pub fn obfuscated(&self, salt: &Vec<u8>) -> (r: String)
        ensures
            r@ == spec_redacted(salt@, self@),
    {
        redacted_hex(salt, self.as_bytes())
    }
}

impl Obfuscate for ClientId {
    fn obfuscate_text(&self, salt: &Vec<u8>) -> String {
        self.obfuscated(salt)
    }
}

/// The variant of an MLS proposal, stripped of its contents: all a log
/// line may carry of it.
#[derive(Clone, Copy, Debug, PartialEq, Eq, Structural)]
pub enum ProposalKind {
    Add,
    Update,
    Remove,
    PreSharedKey,
    ReInit,
    ExternalInit,
    GroupContextExtensions,
    SelfRemove,
    Custom,
}

impl ProposalKind {
    /// The variant's display name.
    pub open spec fn spec_label(self) -> Seq<char> {
        match self {
            ProposalKind::Add => "Add"@,
            ProposalKind::Update => "Update"@,
            ProposalKind::Remove => "Remove"@,
            ProposalKind::PreSharedKey => "PreSharedKey"@,
            ProposalKind::ReInit => "ReInit"@,
            ProposalKind::ExternalInit => "ExternalInit"@,
            ProposalKind::GroupContextExtensions => "GroupContextExtensions"@,
            ProposalKind::SelfRemove => "SelfRemove"@,
            ProposalKind::Custom => "Custom"@,
        }
    }

    pub fn label(&self) -> (r: String)
        ensures
            r@ == self.spec_label(),
    {
        match self {
            ProposalKind::Add => String::from_str("Add"),
            ProposalKind::Update => String::from_str("Update"),
            ProposalKind::Remove => String::from_str("Remove"),
            ProposalKind::PreSharedKey => String::from_str("PreSharedKey"),
            ProposalKind::ReInit => String::from_str("ReInit"),
            ProposalKind::ExternalInit => String::from_str("ExternalInit"),
            ProposalKind::GroupContextExtensions => String::from_str("GroupContextExtensions"),
            ProposalKind::SelfRemove => String::from_str("SelfRemove"),
            ProposalKind::Custom => String::from_str("Custom"),
        }
    }
}

impl Obfuscate for ProposalKind {
    fn obfuscate_text(&self, _salt: &Vec<u8>) -> String {
        self.label()
    }
}

/// The sender of an MLS framed message, reduced to what a log line may
/// carry: the variant, and for members the leaf index.
#[derive(Debug)]
pub enum SenderKind {
    /// A group member, by leaf index.
    Member(u32),
    /// An external sender; carries the rendering of its extension index.
    External(String),
    NewMemberProposal,
    NewMemberCommit,
}

impl SenderKind {
    /// The display text of the sender.
    pub open spec fn spec_label(self) -> Seq<char> {
        match self {
            SenderKind::Member(n) => "Member"@ + dec_chars(n as nat),
            SenderKind::External(s) => "External"@ + s@,
            SenderKind::NewMemberProposal => "NewMemberProposal"@,
            SenderKind::NewMemberCommit => "NewMemberCommit"@,
        }
    }

    pub fn label(&self) -> (r: String)
        ensures
            r@ == self.spec_label(),
    {
        match self {
            SenderKind::Member(n) => {
                let mut s = String::from_str("Member");
                let d = u64_to_dec(*n as u64);
                s.append(d.as_str());
                s
            },
            SenderKind::External(idx) => {
                let mut s = String::from_str("External");
                s.append(idx.as_str());
                s
            },
            SenderKind::NewMemberProposal => String::from_str("NewMemberProposal"),
            SenderKind::NewMemberCommit => String::from_str("NewMemberCommit"),
        }
    }
}

impl Obfuscate for SenderKind {
    fn obfuscate_text(&self, _salt: &Vec<u8>) -> String {
        self.label()
    }
}

/// Key material that lets a joiner decrypt past messages: its client id is
/// redacted, its secret never shown at all.
pub struct HistorySecret {
    pub client_id: ClientId,
    pub key_package: Vec<u8>,
}

impl HistorySecret {
    /// The log rendering: the redacted client id and a placeholder for the
    /// secret.
    pub fn obfuscated(&self, salt: &Vec<u8>) -> (r: String)
        ensures
            r@ == "HistorySecret { client_id: "@ + spec_redacted(salt@, self.client_id@)
                + ", key_package: \"<secret>\" }"@,
    {
        let mut s = String::from_str("HistorySecret { client_id: ");
        let alias = self.client_id.obfuscated(salt);
        s.append(alias.as_str());
        s.append(", key_package: \"<secret>\" }");
        s
    }
}

impl Obfuscate for HistorySecret {
    fn obfuscate_text(&self, salt: &Vec<u8>) -> String {
        self.obfuscated(salt)
    }
}

/// Wrapper that substitutes a value's redacted alias wherever it would be
/// rendered: the only way a sensitive value reaches a log line.
pub struct Obfuscated<T>(pub T);

impl<T> From<T> for Obfuscated<T> {
    fn from(value: T) -> (r: Self) {
        Obfuscated(value)
    }
}

impl<T> vstd::std_specs::convert::FromSpecImpl<T> for Obfuscated<T> {
    open spec fn obeys_from_spec() -> bool {
        true
    }

    open spec fn from_spec(value: T) -> Self {
        Obfuscated(value)
    }
}

impl<T: Obfuscate> Obfuscated<T> {
    /// Wrap a value for logging.
    pub fn new(value: T) -> Obfuscated<T> {
        Obfuscated(value)
    }

    /// The text that may be logged in the value's place.
    pub fn to_log_string(&self, salt: &Vec<u8>) -> String {
        self.0.obfuscate_text(salt)
    }
}

} // verus!
