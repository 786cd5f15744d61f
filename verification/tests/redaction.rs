use crypto_keystore::client_id::ClientId;
use crypto_keystore::keystore::CryptoKeystore;
use crypto_keystore::mlsext::obfuscate_sender;
use crypto_keystore::obfuscate::{
    redacted_hex, ConversationId, HistorySecret, Obfuscated, ProposalKind, SenderKind,
};
use crypto_keystore::textenc::u64_to_dec;
use openmls::prelude::{LeafNodeIndex, Sender};

#[test]
fn redaction_is_the_salted_truncated_digest() {
    // with an empty salt this is the first ten bytes of SHA-256("abc")
    let salt: Vec<u8> = Vec::new();
    let alias = redacted_hex(&salt, &b"abc".to_vec());
    assert_eq!(alias, "ba7816bf8f01cfea4141");
    assert_eq!(alias.len(), 20);
}

#[test]
fn redaction_is_deterministic_within_a_session_and_salted_across() {
    let key = vec![9u8];
    let ks1 = CryptoKeystore::open("a", &key).unwrap();
    let ks2 = CryptoKeystore::open("b", &key).unwrap();
    let id = ConversationId(b"conversation-42".to_vec());
    let a1 = id.obfuscated(ks1.salt());
    let a2 = id.obfuscated(ks1.salt());
    assert_eq!(a1, a2);
    assert_eq!(a1.len(), 20);
    // the alias never shows the identifier itself
    assert!(!a1.contains("conversation"));
    // a fresh session draws a fresh salt, so correlation does not survive
    let b1 = id.obfuscated(ks2.salt());
    assert_ne!(a1, b1);
}

#[test]
fn client_id_obfuscation_matches_conversation_id_scheme() {
    let salt = vec![1u8, 2, 3];
    let client = ClientId::from(b"client-7".to_vec());
    let conv = ConversationId(b"client-7".to_vec());
    assert_eq!(client.obfuscated(&salt), conv.obfuscated(&salt));
}

#[test]
fn obfuscated_wrapper_logs_the_alias() {
    let salt = vec![5u8; 32];
    let id = ConversationId(b"team".to_vec());
    let direct = id.obfuscated(&salt);
    let wrapped = Obfuscated::new(id);
    assert_eq!(wrapped.to_log_string(&salt), direct);
}

#[test]
fn proposal_kinds_log_only_their_names() {
    assert_eq!(ProposalKind::Add.label(), "Add");
    assert_eq!(ProposalKind::Update.label(), "Update");
    assert_eq!(ProposalKind::Remove.label(), "Remove");
    assert_eq!(ProposalKind::PreSharedKey.label(), "PreSharedKey");
    assert_eq!(ProposalKind::ReInit.label(), "ReInit");
    assert_eq!(ProposalKind::ExternalInit.label(), "ExternalInit");
    assert_eq!(ProposalKind::GroupContextExtensions.label(), "GroupContextExtensions");
    assert_eq!(ProposalKind::SelfRemove.label(), "SelfRemove");
    assert_eq!(ProposalKind::Custom.label(), "Custom");
}

#[test]
fn sender_kinds_log_variant_and_index() {
    assert_eq!(SenderKind::Member(40).label(), "Member40");
    assert_eq!(SenderKind::Member(0).label(), "Member0");
    assert_eq!(SenderKind::NewMemberProposal.label(), "NewMemberProposal");
    assert_eq!(SenderKind::NewMemberCommit.label(), "NewMemberCommit");
}

#[test]
fn openmls_sender_values_obfuscate_through_the_boundary() {
    let member = Sender::Member(LeafNodeIndex::new(40));
    assert_eq!(obfuscate_sender(&member), "Member40");
    assert_eq!(obfuscate_sender(&Sender::NewMemberCommit), "NewMemberCommit");
    assert_eq!(obfuscate_sender(&Sender::NewMemberProposal), "NewMemberProposal");
}

#[test]
fn history_secret_hides_its_key_package() {
    let salt = vec![3u8; 32];
    let secret = HistorySecret {
        client_id: ClientId::from(b"client-1".to_vec()),
        key_package: b"super-secret-bytes".to_vec(),
    };
    let text = secret.obfuscated(&salt);
    let alias = ClientId::from(b"client-1".to_vec()).obfuscated(&salt);
    assert_eq!(text, format!("HistorySecret {{ client_id: {alias}, key_package: \"<secret>\" }}"));
    assert!(!text.contains("super-secret"));
}

#[test]
fn decimal_rendering_matches_display() {
    assert_eq!(u64_to_dec(0), "0");
    assert_eq!(u64_to_dec(7), "7");
    assert_eq!(u64_to_dec(40), "40");
    assert_eq!(u64_to_dec(1203), "1203");
    assert_eq!(u64_to_dec(u64::MAX), u64::MAX.to_string());
}

#[test]
fn client_id_hex_rendering_and_parsing() {
    let id = ClientId::from(vec![0xde, 0xad, 0x01]);
    assert_eq!(id.hex_string(), "dead01");
    // hex text parses back to the same bytes
    let parsed = ClientId::from_str("dead01");
    assert_eq!(parsed.as_bytes(), id.as_bytes());
    // uppercase hex is accepted too
    let upper = ClientId::from_str("DEAD01");
    assert_eq!(upper.as_bytes(), id.as_bytes());
    // non-hex text falls back to its raw bytes
    let raw = ClientId::from_str("not-hex!");
    assert_eq!(raw.as_bytes(), &b"not-hex!".to_vec());
    // odd-length hex is not hex
    let odd = ClientId::from_str("abc");
    assert_eq!(odd.as_bytes(), &b"abc".to_vec());
}

#[test]
fn client_id_conversions() {
    let id = ClientId::from_bytes(b"alice-desktop");
    let bytes: Vec<u8> = id.duplicate().into();
    assert_eq!(bytes, b"alice-desktop".to_vec());
    assert_eq!(id.as_bytes(), &b"alice-desktop".to_vec());
}
