use base64::Engine;
use ed25519_dalek::{Signer, SigningKey, VerifyingKey};
use job_orchestrator::error::RpcCode;
use job_orchestrator::interceptor::{signature_interceptor, verify_ed25519_signature};

fn encode(bytes: &[u8]) -> String {
    base64::engine::general_purpose::STANDARD.encode(bytes)
}

#[test]
fn test_signature_verification() {
    // Generate a keypair
    let signing_key = SigningKey::from_bytes(&[1u8; 32]);
    let verifying_key = VerifyingKey::from(&signing_key);

    // Sign a message
    let message = "test message";
    let signature = signing_key.sign(message.as_bytes());

    // Encode for transmission
    let sig_b64 = encode(&signature.to_bytes());
    let pk_b64 = encode(&verifying_key.to_bytes());

    // Verify
    assert!(verify_ed25519_signature(&sig_b64, &pk_b64, message).is_ok());

    // Wrong message should fail
    assert!(verify_ed25519_signature(&sig_b64, &pk_b64, "wrong message").is_err());
}

#[test]
fn wrong_message_is_unauthenticated() {
    let signing_key = SigningKey::from_bytes(&[7u8; 32]);
    let sig_b64 = encode(&signing_key.sign(b"hello").to_bytes());
    let pk_b64 = encode(&signing_key.verifying_key().to_bytes());
    let err = verify_ed25519_signature(&sig_b64, &pk_b64, "hullo").unwrap_err();
    assert_eq!(err.code, RpcCode::Unauthenticated);
    assert_eq!(err.message, "signature verification failed");
}

#[test]
fn public_key_that_is_not_base64_is_rejected() {
    let err = verify_ed25519_signature("AAAA", "not base64!", "m").unwrap_err();
    assert_eq!(err.code, RpcCode::InvalidArgument);
    assert!(err.message.starts_with("invalid public key encoding: "));
}

#[test]
fn public_key_of_wrong_length_is_rejected() {
    let err = verify_ed25519_signature("AAAA", &encode(&[0u8; 31]), "m").unwrap_err();
    assert_eq!(err.code, RpcCode::InvalidArgument);
    assert_eq!(err.message, "public key must be 32 bytes");
}

#[test]
fn public_key_off_the_curve_is_rejected() {
    let mut bad = None;
    for first in 0u8..=255 {
        let mut candidate = [0u8; 32];
        candidate[0] = first;
        candidate[31] = 0x7f;
        if VerifyingKey::from_bytes(&candidate).is_err() {
            bad = Some(candidate);
            break;
        }
    }
    let bad = bad.expect("some encoding does not decompress");
    let err = verify_ed25519_signature("AAAA", &encode(&bad), "m").unwrap_err();
    assert_eq!(err.code, RpcCode::InvalidArgument);
    assert!(err.message.starts_with("invalid public key: "));
}

#[test]
fn signature_that_is_not_base64_is_rejected() {
    let signing_key = SigningKey::from_bytes(&[3u8; 32]);
    let pk_b64 = encode(&signing_key.verifying_key().to_bytes());
    let err = verify_ed25519_signature("***", &pk_b64, "m").unwrap_err();
    assert_eq!(err.code, RpcCode::InvalidArgument);
    assert!(err.message.starts_with("invalid signature encoding: "));
}

#[test]
fn signature_of_wrong_length_is_rejected() {
    let signing_key = SigningKey::from_bytes(&[3u8; 32]);
    let pk_b64 = encode(&signing_key.verifying_key().to_bytes());
    let err = verify_ed25519_signature(&encode(&[1u8; 63]), &pk_b64, "m").unwrap_err();
    assert_eq!(err.code, RpcCode::InvalidArgument);
    assert!(err.message.starts_with("invalid signature: "));
}

#[test]
fn interceptor_lets_unsigned_requests_through() {
    assert!(signature_interceptor(None, None, None).is_ok());
}

#[test]
fn interceptor_rejects_partial_headers() {
    let err = signature_interceptor(Some("a"), None, Some("m")).unwrap_err();
    assert_eq!(err.code, RpcCode::InvalidArgument);
    assert_eq!(
        err.message,
        "signature verification requires x-signature, x-public-key, and x-message headers"
    );
    assert!(signature_interceptor(None, Some("a"), None).is_err());
}

#[test]
fn interceptor_verifies_full_headers() {
    let signing_key = SigningKey::from_bytes(&[9u8; 32]);
    let sig_b64 = encode(&signing_key.sign(b"payload").to_bytes());
    let pk_b64 = encode(&signing_key.verifying_key().to_bytes());
    assert!(signature_interceptor(Some(&sig_b64), Some(&pk_b64), Some("payload")).is_ok());
    let err = signature_interceptor(Some(&sig_b64), Some(&pk_b64), Some("other")).unwrap_err();
    assert_eq!(err.code, RpcCode::Unauthenticated);
}

#[test]
fn headers_signed_with_the_server_key_pass() {
    let keys = job_orchestrator::crypto::ServerKeys::from_hex(&"07".repeat(32)).ok().unwrap();
    let signing_key = SigningKey::from_bytes(&keys.secret);
    for message in ["", "hello", "id|type|hash", "ünïcode"] {
        let sig = encode(&signing_key.sign(message.as_bytes()).to_bytes());
        assert!(verify_ed25519_signature(&sig, &keys.public_key_b64, message).is_ok());
        assert!(signature_interceptor(Some(&sig), Some(&keys.public_key_b64), Some(message)).is_ok());
    }
}
