//! The orchestrator's cryptographic authority: the SHA-256 payload hash over canonical
//! JSON, Ed25519 signatures over job metadata, and the encodings around them.

use vstd::prelude::*;
use vstd::utf8::encode_utf8;
use base64::Engine;
use ed25519_dalek::Signer;
use ed25519_dalek::Verifier;
use sha2::Digest;
use crate::error::{AppError, concat_str};
use crate::json::{JsonMember, JsonValue, canonical_json, canonical_text, distinct_keys, json_equiv, json_wf};
use crate::json_laws::{lemma_canonical_equiv, lemma_canonical_ignores_member_order};
use crate::ids::{job_id_text, uuid_text};
use crate::text::{hex_encode, hex_lower, is_lower_hex_digit, lemma_hex_lower_shape};

verus! {

// ---------------------------------------------------------------------------
// Names for what the outside cryptography computes.
// ---------------------------------------------------------------------------

/// The SHA-256 digest of a byte string.
pub uninterp spec fn sha256_of(data: Seq<u8>) -> Seq<u8>;

/// The Ed25519 public key (compressed point) of a 32-byte secret key.
pub uninterp spec fn ed25519_public_key_of(secret: Seq<u8>) -> Seq<u8>;

/// The Ed25519 signature of `msg` under a 32-byte secret key.
pub uninterp spec fn ed25519_signature_of(secret: Seq<u8>, msg: Seq<u8>) -> Seq<u8>;

/// Whether `pk` decompresses to a curve point and `sig` passes ed25519-dalek's
/// strict verification of `msg` under it.
pub uninterp spec fn ed25519_strict_accepts(pk: Seq<u8>, msg: Seq<u8>, sig: Seq<u8>) -> bool;

/// Whether `pk` decompresses to a curve point, so that it is an Ed25519 verifying key.
pub uninterp spec fn ed25519_key_decodes(pk: Seq<u8>) -> bool;

/// Whether `pk` decompresses to a curve point and `sig` passes ed25519-dalek's
/// ordinary (non-strict) verification of `msg` under it.
pub uninterp spec fn ed25519_accepts(pk: Seq<u8>, msg: Seq<u8>, sig: Seq<u8>) -> bool;

// ---------------------------------------------------------------------------
// Encodings stated in full.
// ---------------------------------------------------------------------------

/// The character of the standard base64 alphabet for a 6-bit value.
pub open spec fn b64_char(i: int) -> char {
    if i < 26 {
        (i + 65) as char
    } else if i < 52 {
        (i - 26 + 97) as char
    } else if i < 62 {
        (i - 52 + 48) as char
    } else if i == 62 {
        '+'
    } else {
        '/'
    }
}

/// Standard base64 (RFC 4648 alphabet) with `=` padding.
pub open spec fn base64_text(b: Seq<u8>) -> Seq<char>
    decreases b.len(),
{
    if b.len() == 0 {
        Seq::empty()
    } else {
        let b0 = b[0] as int;
        let b1 = if b.len() > 1 { b[1] as int } else { 0 };
        let b2 = if b.len() > 2 { b[2] as int } else { 0 };
        if b.len() == 1 {
            seq![b64_char(b0 / 4), b64_char((b0 % 4) * 16), '=', '=']
        } else if b.len() == 2 {
            seq![b64_char(b0 / 4), b64_char((b0 % 4) * 16 + b1 / 16), b64_char((b1 % 16) * 4), '=']
        } else {
            seq![
                b64_char(b0 / 4),
                b64_char((b0 % 4) * 16 + b1 / 16),
                b64_char((b1 % 16) * 4 + b2 / 64),
                b64_char(b2 % 64),
            ] + base64_text(b.skip(3))
        }
    }
}

/// The value of a hexadecimal digit of either case, if it is one.
pub open spec fn hex_digit_value(c: char) -> Option<u8> {
    if '0' <= c && c <= '9' {
        Some((c as int - 48) as u8)
    } else if 'a' <= c && c <= 'f' {
        Some((c as int - 87) as u8)
    } else if 'A' <= c && c <= 'F' {
        Some((c as int - 55) as u8)
    } else {
        None
    }
}

/// The bytes that a text of hexadecimal digit pairs stands for, if it is one.
pub open spec fn hex_decoded(s: Seq<char>) -> Option<Seq<u8>>
    decreases s.len(),
{
    if s.len() == 0 {
        Some(Seq::empty())
    } else if s.len() == 1 {
        None
    } else {
        match (hex_digit_value(s[0]), hex_digit_value(s[1]), hex_decoded(s.skip(2))) {
            (Some(h), Some(l), Some(rest)) => Some(seq![(h * 16 + l) as u8] + rest),
            _ => None,
        }
    }
}

// ---------------------------------------------------------------------------
// Trusted calls.
// ---------------------------------------------------------------------------

/// Trusted: `sha2::Sha256` (new, update, finalize) over `data`; the digest is named
/// `sha256_of` and is 32 bytes long.
#[verifier::external_body]
fn sha256_digest(data: &[u8]) -> (res: Vec<u8>)
    ensures
        res@ == sha256_of(data@),
        res@.len() == 32,
{
    let mut hasher = sha2::Sha256::new();
    hasher.update(data);
    hasher.finalize().to_vec()
}

/// Trusted: `ed25519_dalek::SigningKey::from_bytes(secret).verifying_key().to_bytes()`;
/// the 32-byte result is named `ed25519_public_key_of`. It is the compression of a curve
/// point, so `VerifyingKey::from_bytes` decompresses it again: it decodes.
#[verifier::external_body]
fn ed25519_public_key(secret: &[u8; 32]) -> (res: Vec<u8>)
    ensures
        res@ == ed25519_public_key_of(secret@),
        res@.len() == 32,
        ed25519_key_decodes(res@),
{
    ed25519_dalek::SigningKey::from_bytes(secret).verifying_key().to_bytes().to_vec()
}

/// The compressed encoding of the identity point of edwards25519 (y = 1, x = 0).
pub open spec fn ed25519_identity_encoding() -> Seq<u8> {
    seq![1u8] + Seq::new(31, |i: int| 0u8)
}

/// Trusted: `ed25519_dalek::SigningKey::from_bytes(secret).sign(msg).to_bytes()`, which
/// is deterministic (RFC 8032); the 64-byte result is named `ed25519_signature_of`.
///
/// The signature `R || s` has `R = [r]B` for the nonce `r` and `s = k·a + r` reduced, so
/// the recomputation `[s]B - [k]A` in `verify` gives back `R`: ordinary verification
/// under the signer's public key accepts it. `verify_strict` also rejects a signature
/// whose `R` is of small order; `R` lies in the prime-order subgroup, so that happens
/// only when `R` is the identity point (`r ≡ 0 mod ℓ`), and the public key of a clamped
/// secret is never of small order. Strict acceptance is therefore stated only for
/// signatures whose first half is not the identity's encoding; that the hash never
/// gives such a nonce is left unsaid.
#[verifier::external_body]
fn ed25519_sign(secret: &[u8; 32], msg: &[u8]) -> (res: Vec<u8>)
    ensures
        res@ == ed25519_signature_of(secret@, msg@),
        res@.len() == 64,
        ed25519_accepts(ed25519_public_key_of(secret@), msg@, res@),
        res@.subrange(0, 32) != ed25519_identity_encoding() ==> ed25519_strict_accepts(
            ed25519_public_key_of(secret@),
            msg@,
            res@,
        ),
{
    ed25519_dalek::SigningKey::from_bytes(secret).sign(msg).to_bytes().to_vec()
}

/// Trusted: `ed25519_dalek::VerifyingKey::from_bytes(pk)` followed, when it succeeds,
/// by `verify_strict(msg, &Signature::from_bytes(sig))`; the outcome is named
/// `ed25519_strict_accepts`.
#[verifier::external_body]
fn ed25519_verify_strict(pk: &[u8; 32], msg: &[u8], sig: &[u8; 64]) -> (res: bool)
    ensures
        res == ed25519_strict_accepts(pk@, msg@, sig@),
{
    match ed25519_dalek::VerifyingKey::from_bytes(pk) {
        Ok(key) => key.verify_strict(msg, &ed25519_dalek::Signature::from_bytes(sig)).is_ok(),
        Err(_) => false,
    }
}

/// Trusted: `ed25519_dalek::VerifyingKey::from_bytes(pk)`; whether it succeeds is named
/// `ed25519_key_decodes`. On failure the error's text is returned, and what that text
/// says is not stated.
#[verifier::external_body]
pub(crate) fn ed25519_verifying_key_check(pk: &[u8; 32]) -> (res: Result<(), String>)
    ensures
        res is Ok <==> ed25519_key_decodes(pk@),
{
    ed25519_dalek::VerifyingKey::from_bytes(pk).map(|_| ()).map_err(|e| e.to_string())
}

/// Trusted: `ed25519_dalek::VerifyingKey::from_bytes(pk)` followed, when it succeeds,
/// by `Verifier::verify(msg, &Signature::from_bytes(sig))`; the outcome is named
/// `ed25519_accepts`.
#[verifier::external_body]
pub(crate) fn ed25519_verify(pk: &[u8; 32], msg: &[u8], sig: &[u8; 64]) -> (res: bool)
    ensures
        res == ed25519_accepts(pk@, msg@, sig@),
{
    match ed25519_dalek::VerifyingKey::from_bytes(pk) {
        Ok(key) => key.verify(msg, &ed25519_dalek::Signature::from_bytes(sig)).is_ok(),
        Err(_) => false,
    }
}

/// Trusted: `ed25519_dalek::Signature::from_slice(bytes)` and `to_bytes`: it succeeds
/// exactly on 64-byte input and keeps the bytes; on failure the error's text is
/// returned, and what that text says is not stated.
#[verifier::external_body]
pub(crate) fn ed25519_signature_from_slice(bytes: &[u8]) -> (res: Result<[u8; 64], String>)
    ensures
        res is Ok <==> bytes@.len() == 64,
        res is Ok ==> res->Ok_0@ == bytes@,
{
    ed25519_dalek::Signature::from_slice(bytes).map(|s| s.to_bytes()).map_err(|e| e.to_string())
}

/// Trusted: `base64::engine::general_purpose::STANDARD.encode(bytes)`, standard
/// alphabet with padding.
#[verifier::external_body]
pub(crate) fn base64_encode(bytes: &[u8]) -> (res: String)
    ensures
        res@ == base64_text(bytes@),
{
    base64::engine::general_purpose::STANDARD.encode(bytes)
}

/// Trusted: `base64::engine::general_purpose::STANDARD.decode(text)`. The engine
/// requires canonical padding and rejects trailing bits, so it succeeds exactly on
/// the texts that `base64_text` produces, and gives back the bytes encoded. On
/// failure the error's text is returned, and what that text says is not stated.
#[verifier::external_body]
pub(crate) fn base64_decode(text: &str) -> (res: Result<Vec<u8>, String>)
    ensures
        res is Ok ==> base64_text(res->Ok_0@) == text@,
        forall|b: Seq<u8>| #[trigger] base64_text(b) == text@ ==> (res is Ok && res->Ok_0@ == b),
{
    base64::engine::general_purpose::STANDARD.decode(text).map_err(|e| e.to_string())
}

/// Trusted: `hex::decode(text)`, which accepts pairs of hex digits of either case.
/// On failure the error's text is returned, and what that text says is not stated.
#[verifier::external_body]
fn hex_decode(text: &str) -> (res: Result<Vec<u8>, String>)
    ensures
        res is Ok <==> hex_decoded(text@) is Some,
        res is Ok ==> Some(res->Ok_0@) == hex_decoded(text@),
{
    hex::decode(text).map_err(|e| e.to_string())
}


// ---------------------------------------------------------------------------
// Job metadata.
// ---------------------------------------------------------------------------

/// The signed metadata of a job: `id|job_type|payload_hash`.
pub open spec fn metadata_text(id: u128, job_type: Seq<char>, payload_hash: Seq<char>) -> Seq<char> {
    uuid_text(id) + seq!['|'] + job_type + seq!['|'] + payload_hash
}

/// The payload hash of a JSON value: lowercase hex of the SHA-256 digest of the UTF-8
/// bytes of its canonical text.
pub open spec fn payload_hash_text(value: JsonValue) -> Seq<char> {
    hex_lower(sha256_of(encode_utf8(canonical_text(value))))
}

/// The metadata signature text: base64 of the Ed25519 signature of the metadata bytes.
pub open spec fn metadata_signature_text(
    secret: Seq<u8>,
    id: u128,
    job_type: Seq<char>,
    payload_hash: Seq<char>,
) -> Seq<char> {
    base64_text(ed25519_signature_of(secret, encode_utf8(metadata_text(id, job_type, payload_hash))))
}

/// Whether `e` is a bad-request error whose detail starts with `prefix`.
pub open spec fn is_bad_request_with(e: AppError, prefix: Seq<char>) -> bool {
    e matches AppError::BadRequest(m) && prefix.len() <= m@.len() && m@.subrange(0, prefix.len() as int) == prefix
}

/// Whether `e` is a configuration error whose detail starts with `prefix`.
pub open spec fn is_config_error_with(e: AppError, prefix: Seq<char>) -> bool {
    e matches AppError::Config(m) && prefix.len() <= m@.len() && m@.subrange(0, prefix.len() as int) == prefix
}

/// The metadata text that is signed for a job: `id|job_type|payload_hash`.
pub fn metadata_message(job_id: u128, job_type: &str, payload_hash: &str) -> (res: String)
    ensures
        res@ == metadata_text(job_id, job_type@, payload_hash@),
        res@ == uuid_text(job_id) + "|"@ + job_type@ + "|"@ + payload_hash@,
{
    proof {
        lemma_metadata_text_parts(job_id, job_type@, payload_hash@);
    }
    proof {
        reveal_strlit("|");
    }
    let mut out = job_id_text(job_id);
    out.append("|");
    out.append(job_type);
    out.append("|");
    out.append(payload_hash);
    assert(out@ =~= metadata_text(job_id, job_type@, payload_hash@));
    out
}

/// The payload hash of a JSON value: lowercase hex SHA-256 of its canonical text.
pub fn hash_payload(value: &JsonValue) -> (res: String)
    ensures
        res@ == payload_hash_text(*value),
        res@ == hex_lower(sha256_of(encode_utf8(canonical_text(*value)))),
        res@.len() == 64,
        forall|i: int| 0 <= i < res@.len() ==> is_lower_hex_digit(#[trigger] res@[i]),
{
    let canonical = canonical_json(value);
    let digest = sha256_digest(canonical.as_str().as_bytes());
    proof {
        lemma_hex_lower_shape(digest@);
    }
    hex_encode(digest.as_slice())
}

/// What is known of the Ed25519 signature of `msg` under `secret` once it has been made:
/// it is 64 bytes long, ordinary verification under the secret's public key accepts it,
/// and so does strict verification unless its first half encodes the identity point.
pub open spec fn ed25519_signature_sound(secret: Seq<u8>, msg: Seq<u8>) -> bool {
    let sig = ed25519_signature_of(secret, msg);
    let pk = ed25519_public_key_of(secret);
    &&& sig.len() == 64
    &&& ed25519_accepts(pk, msg, sig)
    &&& sig.subrange(0, 32) != ed25519_identity_encoding() ==> ed25519_strict_accepts(pk, msg, sig)
}

/// Signs the metadata of a job with the server's secret key and returns the signature
/// in standard base64.
pub fn sign_metadata(secret: &[u8; 32], job_id: u128, job_type: &str, payload_hash: &str) -> (res: String)
    ensures
        res@ == metadata_signature_text(secret@, job_id, job_type@, payload_hash@),
        ed25519_signature_sound(secret@, encode_utf8(metadata_text(job_id, job_type@, payload_hash@))),
{
    let message = metadata_message(job_id, job_type, payload_hash);
    let signature = ed25519_sign(secret, message.as_str().as_bytes());
    base64_encode(signature.as_slice())
}

/// Copies a 64-byte signature out of a slice of that length.
pub(crate) fn to_array_64(bytes: &[u8]) -> (res: [u8; 64])
    requires
        bytes@.len() == 64,
    ensures
        res@ == bytes@,
{
    let mut out = [0u8; 64];
    let mut i: usize = 0;
    while i < 64
        invariant
            i <= 64,
            bytes@.len() == 64,
            forall|j: int| 0 <= j < i ==> out@[j] == bytes@[j],
        decreases 64 - i,
    {
        out[i] = bytes[i];
        i = i + 1;
    }
    assert(out@ =~= bytes@);
    out
}

/// Copies a 32-byte key out of a slice of that length.
pub(crate) fn to_array_32(bytes: &[u8]) -> (res: [u8; 32])
    requires
        bytes@.len() == 32,
    ensures
        res@ == bytes@,
{
    let mut out = [0u8; 32];
    let mut i: usize = 0;
    while i < 32
        invariant
            i <= 32,
            bytes@.len() == 32,
            forall|j: int| 0 <= j < i ==> out@[j] == bytes@[j],
        decreases 32 - i,
    {
        out[i] = bytes[i];
        i = i + 1;
    }
    assert(out@ =~= bytes@);
    out
}

/// What checking a metadata signature text answers: a bad request when the text is not
/// standard base64, or not of 64 bytes; otherwise whether strict Ed25519 verification
/// accepts the signature over `id|job_type|payload_hash` under `public_key`.
pub open spec fn metadata_check(
    public_key: Seq<u8>,
    job_id: u128,
    job_type: Seq<char>,
    payload_hash: Seq<char>,
    signature_b64: Seq<char>,
    res: Result<bool, AppError>,
) -> bool {
    &&& (forall|b: Seq<u8>| #[trigger] base64_text(b) != signature_b64) ==> res is Err && is_bad_request_with(
        res->Err_0,
        "invalid signature encoding: "@,
    )
    &&& forall|b: Seq<u8>|
        #[trigger] base64_text(b) == signature_b64 && b.len() != 64 ==> res is Err && is_bad_request_with(
            res->Err_0,
            "invalid signature bytes: "@,
        )
    &&& forall|b: Seq<u8>|
        #[trigger] base64_text(b) == signature_b64 && b.len() == 64 ==> res == Ok::<bool, AppError>(
            ed25519_strict_accepts(public_key, encode_utf8(metadata_text(job_id, job_type, payload_hash)), b),
        )
}

/// Checks a base64 metadata signature against the server's public key.
///
/// A signature text that is not canonical standard base64 is a bad request whose
/// detail starts with `invalid signature encoding: `; one that decodes to other than
/// 64 bytes is a bad request whose detail starts with `invalid signature bytes: `.
/// Otherwise the answer is whether strict Ed25519 verification accepts the decoded
/// signature over `id|job_type|payload_hash`.
pub fn verify_metadata(
    public_key: &[u8; 32],
    job_id: u128,
    job_type: &str,
    payload_hash: &str,
    signature_b64: &str,
) -> (res: Result<bool, AppError>)
    ensures
        metadata_check(public_key@, job_id, job_type@, payload_hash@, signature_b64@, res),
{
    let message = metadata_message(job_id, job_type, payload_hash);
    let decoded = base64_decode(signature_b64);
    let bytes = match decoded {
        Ok(bytes) => bytes,
        Err(e) => {
            let detail = concat_str("invalid signature encoding: ", e.as_str());
            assert(detail@.subrange(0, "invalid signature encoding: "@.len() as int) =~= "invalid signature encoding: "@);
            return Err(AppError::BadRequest(detail));
        },
    };
    let signature = match ed25519_signature_from_slice(bytes.as_slice()) {
        Ok(s) => s,
        Err(e) => {
            let detail = concat_str("invalid signature bytes: ", e.as_str());
            assert(detail@.subrange(0, "invalid signature bytes: "@.len() as int) =~= "invalid signature bytes: "@);
            return Err(AppError::BadRequest(detail));
        },
    };
    Ok(ed25519_verify_strict(public_key, message.as_str().as_bytes(), &signature))
}

/// The server's signing material: the Ed25519 secret key, its public key, and the
/// public key in standard base64 as it is handed to clients.
pub struct ServerKeys {
    pub secret: [u8; 32],
    pub public_key: [u8; 32],
    pub public_key_b64: String,
}

impl ServerKeys {
    /// Whether the public parts are those of the secret key (a key that decodes).
    pub open spec fn derived(self) -> bool {
        &&& self.public_key@ == ed25519_public_key_of(self.secret@)
        &&& ed25519_key_decodes(self.public_key@)
        &&& self.public_key_b64@ == base64_text(self.public_key@)
    }

    /// The server keys from the hex text of a 32-byte Ed25519 secret key.
    ///
    /// Text that is not pairs of hex digits is a configuration error whose detail starts
    /// with `invalid JOB_SIGNING_KEY: `; hex of other than 32 bytes is the configuration
    /// error `JOB_SIGNING_KEY must be 32 bytes hex`.
    pub fn from_hex(signing_key_hex: &str) -> (res: Result<ServerKeys, AppError>)
        ensures
            hex_decoded(signing_key_hex@) is None ==> res is Err && is_config_error_with(
                res->Err_0,
                "invalid JOB_SIGNING_KEY: "@,
            ),
            hex_decoded(signing_key_hex@) is Some && hex_decoded(signing_key_hex@)->0.len() != 32
                ==> res is Err && res->Err_0 is Config
                && res->Err_0->Config_0@ == "JOB_SIGNING_KEY must be 32 bytes hex"@,
            hex_decoded(signing_key_hex@) is Some && hex_decoded(signing_key_hex@)->0.len() == 32
                ==> res is Ok && res->Ok_0.secret@ == hex_decoded(signing_key_hex@)->0
                && res->Ok_0.derived(),
    {
        let bytes = match hex_decode(signing_key_hex) {
            Ok(b) => b,
            Err(e) => {
                let detail = concat_str("invalid JOB_SIGNING_KEY: ", e.as_str());
                assert(detail@.subrange(0, "invalid JOB_SIGNING_KEY: "@.len() as int) =~= "invalid JOB_SIGNING_KEY: "@);
                return Err(AppError::Config(detail));
            },
        };
        if bytes.len() != 32 {
            return Err(AppError::Config(String::from_str("JOB_SIGNING_KEY must be 32 bytes hex")));
        }
        let secret = to_array_32(bytes.as_slice());
        let public = ed25519_public_key(&secret);
        let public_key = to_array_32(public.as_slice());
        let public_key_b64 = base64_encode(public.as_slice());
        Ok(ServerKeys { secret, public_key, public_key_b64 })
    }
}


/// A metadata signature that `sign_metadata` made always decodes when it is checked: the
/// check answers with strict Ed25519 verification of that very signature over the same
/// metadata, never with an encoding error.
pub proof fn lemma_signed_metadata_check(
    secret: Seq<u8>,
    public_key: Seq<u8>,
    job_id: u128,
    job_type: Seq<char>,
    payload_hash: Seq<char>,
    res: Result<bool, AppError>,
)
    requires
        ed25519_signature_of(secret, encode_utf8(metadata_text(job_id, job_type, payload_hash))).len() == 64,
        metadata_check(
            public_key,
            job_id,
            job_type,
            payload_hash,
            metadata_signature_text(secret, job_id, job_type, payload_hash),
            res,
        ),
    ensures
        res == Ok::<bool, AppError>(
            ed25519_strict_accepts(
                public_key,
                encode_utf8(metadata_text(job_id, job_type, payload_hash)),
                ed25519_signature_of(secret, encode_utf8(metadata_text(job_id, job_type, payload_hash))),
            ),
        ),
{
    let sig = ed25519_signature_of(secret, encode_utf8(metadata_text(job_id, job_type, payload_hash)));
    assert(base64_text(sig) == metadata_signature_text(secret, job_id, job_type, payload_hash));
}

/// Sign, then check: a metadata signature made with a secret key is accepted when it is
/// checked against that key's public key, over the same `id|job_type|payload_hash`. (The
/// one signature excepted is one whose first half encodes the identity point, which strict
/// verification refuses.)
pub proof fn lemma_sign_then_verify(
    secret: Seq<u8>,
    job_id: u128,
    job_type: Seq<char>,
    payload_hash: Seq<char>,
    res: Result<bool, AppError>,
)
    requires
        ed25519_signature_sound(secret, encode_utf8(metadata_text(job_id, job_type, payload_hash))),
        ed25519_signature_of(secret, encode_utf8(metadata_text(job_id, job_type, payload_hash))).subrange(0, 32)
            != ed25519_identity_encoding(),
        metadata_check(
            ed25519_public_key_of(secret),
            job_id,
            job_type,
            payload_hash,
            metadata_signature_text(secret, job_id, job_type, payload_hash),
            res,
        ),
    ensures
        res == Ok::<bool, AppError>(true),
{
    lemma_signed_metadata_check(secret, ed25519_public_key_of(secret), job_id, job_type, payload_hash, res);
}

/// The signed metadata is the job id's hyphenated text, `|`, the job type, `|`, and the
/// whole payload hash.
pub proof fn lemma_metadata_text_parts(id: u128, job_type: Seq<char>, payload_hash: Seq<char>)
    ensures
        metadata_text(id, job_type, payload_hash) == uuid_text(id) + "|"@ + job_type + "|"@ + payload_hash,
        metadata_text(id, job_type, payload_hash).len() == uuid_text(id).len() + job_type.len()
            + payload_hash.len() + 2,
{
    reveal_strlit("|");
    assert(metadata_text(id, job_type, payload_hash) =~= uuid_text(id) + "|"@ + job_type + "|"@ + payload_hash);
}

/// The signature covers every character of the payload hash: for one job id and job
/// type, different payload hashes give different signed messages.
pub proof fn lemma_metadata_text_injective_in_hash(id: u128, job_type: Seq<char>, h1: Seq<char>, h2: Seq<char>)
    requires
        metadata_text(id, job_type, h1) == metadata_text(id, job_type, h2),
    ensures
        h1 == h2,
{
    let front = uuid_text(id) + seq!['|'] + job_type + seq!['|'];
    assert(metadata_text(id, job_type, h1) =~= front + h1);
    assert(metadata_text(id, job_type, h2) =~= front + h2);
    assert(h1 =~= (front + h1).skip(front.len() as int));
    assert(h2 =~= (front + h2).skip(front.len() as int));
}

/// The payload hash is taken over the UTF-8 bytes of the canonical text: it is the
/// lowercase hex of the SHA-256 digest of `encode_utf8(canonical_text(value))`.
pub proof fn lemma_payload_hash_over_utf8(value: JsonValue)
    ensures
        payload_hash_text(value) == hex_lower(sha256_of(encode_utf8(canonical_text(value)))),
{
}

/// The payload hash of an object does not depend on the order in which its members are
/// given, as long as no two members share a key.
pub proof fn lemma_payload_hash_ignores_member_order(m1: Vec<JsonMember>, m2: Vec<JsonMember>)
    requires
        m1@.to_multiset() == m2@.to_multiset(),
        distinct_keys(m1@),
    ensures
        payload_hash_text(JsonValue::Object(m1)) == payload_hash_text(JsonValue::Object(m2)),
{
    lemma_canonical_ignores_member_order(m1, m2);
}

/// The payload hash ignores the order of object members at every depth: two well-formed
/// payloads that are the same up to that order hash alike.
pub proof fn lemma_payload_hash_equiv(a: JsonValue, b: JsonValue)
    requires
        json_wf(a),
        json_wf(b),
        json_equiv(a, b),
    ensures
        payload_hash_text(a) == payload_hash_text(b),
{
    lemma_canonical_equiv(a, b);
}

} // verus!
