use base64::Engine;
use ed25519_dalek::{Signature, Signer, SigningKey};
use job_orchestrator::crypto::{hash_payload, metadata_message, sign_metadata, verify_metadata, ServerKeys};
use job_orchestrator::ids::{job_id_text, parse_job_id};
use job_orchestrator::error::AppError;
use job_orchestrator::json::{JsonMember, JsonValue};

const KEY_HEX: &str = "0101010101010101010101010101010101010101010101010101010101010101";

fn b64(bytes: &[u8]) -> String {
    base64::engine::general_purpose::STANDARD.encode(bytes)
}

#[test]
fn job_id_text_is_hyphenated_lowercase() {
    let id: u128 = 0x0123456789abcdef0123456789ABCDEF;
    assert_eq!(job_id_text(id), "01234567-89ab-cdef-0123-456789abcdef");
    assert_eq!(job_id_text(id), uuid::Uuid::from_u128(id).to_string());
    assert_eq!(job_id_text(0), "00000000-0000-0000-0000-000000000000");
}

#[test]
fn metadata_message_format() {
    assert_eq!(
        metadata_message(1, "sum", "abc"),
        "00000000-0000-0000-0000-000000000001|sum|abc"
    );
}

#[test]
fn payload_hash_is_sha256_of_canonical_json() {
    let value = JsonValue::Object(vec![
        JsonMember {
            key: "b".to_string(),
            value: JsonValue::Array(vec![
                JsonValue::Bool(true),
                JsonValue::Null,
                JsonValue::Str("x\"y".to_string()),
            ]),
        },
        JsonMember { key: "a".to_string(), value: JsonValue::Number("1".to_string()) },
    ]);
    assert_eq!(
        hash_payload(&value),
        "dd0abe9107fede51c2c13bebf0cf873bf81b520fd39e4e025c00269d47297996"
    );
    assert_eq!(
        hash_payload(&JsonValue::Object(vec![])),
        "44136fa355b3678a1146ad16f7e8649e94fb4fc21fe77e8310c060f61caaff8a"
    );
}

#[test]
fn server_keys_from_hex() {
    let keys = ServerKeys::from_hex(KEY_HEX).ok().unwrap();
    let dalek = SigningKey::from_bytes(&[1u8; 32]);
    assert_eq!(keys.secret, [1u8; 32]);
    assert_eq!(keys.public_key, dalek.verifying_key().to_bytes());
    assert_eq!(keys.public_key_b64, b64(&dalek.verifying_key().to_bytes()));
    let upper = ServerKeys::from_hex(&"AB".repeat(32)).ok().unwrap();
    assert_eq!(upper.secret, [0xabu8; 32]);
}

#[test]
fn server_keys_reject_bad_hex() {
    match ServerKeys::from_hex("abc") {
        Err(AppError::Config(m)) => assert!(m.starts_with("invalid JOB_SIGNING_KEY: ")),
        _ => panic!("odd length must be refused"),
    }
    match ServerKeys::from_hex(&"zz".repeat(32)) {
        Err(AppError::Config(m)) => assert!(m.starts_with("invalid JOB_SIGNING_KEY: ")),
        _ => panic!("non-hex must be refused"),
    }
    match ServerKeys::from_hex(&"01".repeat(31)) {
        Err(AppError::Config(m)) => assert_eq!(m, "JOB_SIGNING_KEY must be 32 bytes hex"),
        _ => panic!("31 bytes must be refused"),
    }
}

#[test]
fn sign_metadata_matches_ed25519() {
    let secret = [1u8; 32];
    let sig = sign_metadata(&secret, 42, "sum", "deadbeef");
    let message = metadata_message(42, "sum", "deadbeef");
    let expected: Signature = SigningKey::from_bytes(&secret).sign(message.as_bytes());
    assert_eq!(sig, b64(&expected.to_bytes()));
}

#[test]
fn signed_metadata_verifies() {
    let keys = ServerKeys::from_hex(KEY_HEX).ok().unwrap();
    let sig = sign_metadata(&keys.secret, 7, "echo", "feed");
    assert!(matches!(verify_metadata(&keys.public_key, 7, "echo", "feed", &sig), Ok(true)));
}

#[test]
fn altered_metadata_does_not_verify() {
    let keys = ServerKeys::from_hex(KEY_HEX).ok().unwrap();
    let sig = sign_metadata(&keys.secret, 7, "echo", "feed");
    assert!(matches!(verify_metadata(&keys.public_key, 7, "echo", "fee0", &sig), Ok(false)));
    assert!(matches!(verify_metadata(&keys.public_key, 8, "echo", "feed", &sig), Ok(false)));
}

#[test]
fn malformed_signatures_are_bad_requests() {
    let keys = ServerKeys::from_hex(KEY_HEX).ok().unwrap();
    match verify_metadata(&keys.public_key, 7, "echo", "feed", "%%%") {
        Err(AppError::BadRequest(m)) => assert!(m.starts_with("invalid signature encoding: ")),
        _ => panic!("bad base64 must be refused"),
    }
    match verify_metadata(&keys.public_key, 7, "echo", "feed", &b64(&[0u8; 10])) {
        Err(AppError::BadRequest(m)) => assert!(m.starts_with("invalid signature bytes: ")),
        _ => panic!("short signature must be refused"),
    }
}

#[test]
fn job_ids_parse_back() {
    let id: u128 = 0xfeedface_0000_4000_8000_0123456789ab;
    assert_eq!(parse_job_id(&job_id_text(id)).ok(), Some(id));
    assert_eq!(parse_job_id("FEEDFACE-0000-4000-8000-0123456789AB").ok(), Some(id));
    let err = parse_job_id("not-a-uuid").err().unwrap();
    assert_eq!(err.message, "invalid job_id format");
}

#[test]
fn payload_hash_ignores_member_order() {
    let m = |k: &str, v: &str| JsonMember { key: k.to_string(), value: JsonValue::Str(v.to_string()) };
    let one = JsonValue::Object(vec![m("x", "1"), m("y", "2"), m("k", "v")]);
    let two = JsonValue::Object(vec![m("k", "v"), m("y", "2"), m("x", "1")]);
    assert_eq!(hash_payload(&one), hash_payload(&two));
    assert_eq!(
        hash_payload(&JsonValue::Object(vec![m("k", "v")])),
        "666c1aa02e8068c6d5cc1d3295009432c16790bec28ec8ce119d0d1a18d61319"
    );
}
