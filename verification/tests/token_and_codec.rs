use crypto_keystore::codec::{decode_record, encode_record};
use crypto_keystore::error::{CryptoKeystoreError, MissingKeyErrorKind};
use crypto_keystore::keystore::CryptoKeystore;
use crypto_keystore::refresh_token::{E2eiRefreshToken, RefreshToken};
use crypto_keystore::store::Record;

fn open_store() -> CryptoKeystore {
    let key = vec![1u8, 2, 3];
    CryptoKeystore::open("token-db", &key).unwrap()
}

#[test]
fn refresh_token_replace_then_find_unique() {
    let mut ks = open_store();
    let kind = MissingKeyErrorKind::E2eiRefreshToken;

    RefreshToken(String::from("abc123")).replace(&mut ks).unwrap();
    let t = RefreshToken::find(&ks).unwrap();
    assert_eq!(t.as_str(), "abc123");
    assert_eq!(ks.count(kind), 1);

    RefreshToken(String::from("xyz789")).replace(&mut ks).unwrap();
    let t2 = RefreshToken::find(&ks).unwrap();
    assert_eq!(t2.as_str(), "xyz789");
    // exactly one record exists in that collection at all times
    assert_eq!(ks.count(kind), 1);
}

#[test]
fn refresh_token_find_on_empty_store_is_missing_key() {
    let ks = open_store();
    let r = RefreshToken::find(&ks);
    assert!(matches!(
        r,
        Err(CryptoKeystoreError::MissingKeyInStore(MissingKeyErrorKind::E2eiRefreshToken))
    ));
}

#[test]
fn refresh_token_entity_round_trip() {
    let token = RefreshToken(String::from("s3cr3t-token-\u{00e9}\u{00e8}"));
    let entity = E2eiRefreshToken::from_token(token);
    let back = RefreshToken::try_from_entity(entity).unwrap();
    assert_eq!(back.as_str(), "s3cr3t-token-\u{00e9}\u{00e8}");
}

#[test]
fn refresh_token_rejects_corrupt_bytes() {
    let entity = E2eiRefreshToken { content: vec![0xff, 0xfe, 0x41] };
    let r = RefreshToken::try_from_entity(entity);
    assert!(matches!(r, Err(CryptoKeystoreError::FromUtf8Error)));
}

#[test]
fn refresh_token_zeroize_clears_text() {
    let mut token = RefreshToken(String::from("very-secret"));
    token.zeroize();
    assert_eq!(token.as_str(), "");
}

#[test]
fn record_codec_round_trip_without_secondary() {
    let rec = Record { identity: b"id-1".to_vec(), payload: b"payload".to_vec(), secondary: None };
    let bytes = encode_record(&rec);
    let back = decode_record(&bytes).expect("an encoded record must decode");
    assert_eq!(back.identity, b"id-1".to_vec());
    assert_eq!(back.payload, b"payload".to_vec());
    assert_eq!(back.secondary, None);
}

#[test]
fn record_codec_round_trip_with_secondary() {
    let rec = Record {
        identity: vec![0, 1, 2],
        payload: Vec::new(),
        secondary: Some(b"group".to_vec()),
    };
    let bytes = encode_record(&rec);
    let back = decode_record(&bytes).unwrap();
    assert_eq!(back.identity, vec![0, 1, 2]);
    assert_eq!(back.payload, Vec::<u8>::new());
    assert_eq!(back.secondary, Some(b"group".to_vec()));
}

#[test]
fn record_codec_layout_is_length_prefixed() {
    let rec = Record { identity: vec![0xaa], payload: vec![0xbb, 0xcc], secondary: None };
    let bytes = encode_record(&rec);
    let expected: Vec<u8> = vec![
        1, 0, 0, 0, 0, 0, 0, 0, 0xaa, // identity
        2, 0, 0, 0, 0, 0, 0, 0, 0xbb, 0xcc, // payload
        0, // no secondary key
    ];
    assert_eq!(bytes, expected);
}

#[test]
fn record_codec_rejects_truncated_and_trailing_bytes() {
    let rec = Record { identity: vec![1], payload: vec![2], secondary: None };
    let mut bytes = encode_record(&rec);
    let mut trailing = bytes.clone();
    trailing.push(0);
    assert!(decode_record(&trailing).is_none());
    bytes.pop();
    assert!(decode_record(&bytes).is_none());
    assert!(decode_record(&vec![1, 2, 3]).is_none());
}
