//! Request authentication for the RPC front end: an optional Ed25519 signature over a
//! message, carried in three request headers.

use vstd::prelude::*;
use vstd::utf8::encode_utf8;
use crate::crypto::{
    base64_decode, base64_text, ed25519_accepts, ed25519_key_decodes, ed25519_public_key_of,
    ed25519_signature_from_slice, ed25519_signature_of, ed25519_signature_sound, ed25519_verify,
    ed25519_verifying_key_check, to_array_32, to_array_64,
};
use crate::error::{RpcCode, RpcStatus, concat_str};

verus! {

/// Whether `st` has code `code` and a message that starts with `prefix`.
pub open spec fn status_with(st: RpcStatus, code: RpcCode, prefix: Seq<char>) -> bool {
    &&& st.code == code
    &&& prefix.len() <= st.message@.len()
    &&& st.message@.subrange(0, prefix.len() as int) == prefix
}

/// Whether `st` has code `code` and exactly the message `msg`.
pub open spec fn status_is(st: RpcStatus, code: RpcCode, msg: Seq<char>) -> bool {
    st.code == code && st.message@ == msg
}

/// Whether `text` is the standard base64 text of some bytes.
pub open spec fn is_base64(text: Seq<char>) -> bool {
    exists|b: Seq<u8>| #[trigger] base64_text(b) == text
}

/// What the signature check answers for a signature text, a public-key text and a
/// message: the failure it names, or whether ordinary Ed25519 verification accepts.
pub open spec fn signature_check(
    signature_b64: Seq<char>,
    public_key_b64: Seq<char>,
    message: Seq<char>,
    res: Result<(), RpcStatus>,
) -> bool {
    &&& !is_base64(public_key_b64) ==> res is Err && status_with(
        res->Err_0,
        RpcCode::InvalidArgument,
        "invalid public key encoding: "@,
    )
    &&& forall|pk: Seq<u8>|
        #[trigger] base64_text(pk) == public_key_b64 ==> {
            &&& pk.len() != 32 ==> res is Err && status_is(
                res->Err_0,
                RpcCode::InvalidArgument,
                "public key must be 32 bytes"@,
            )
            &&& pk.len() == 32 && !ed25519_key_decodes(pk) ==> res is Err && status_with(
                res->Err_0,
                RpcCode::InvalidArgument,
                "invalid public key: "@,
            )
            &&& pk.len() == 32 && ed25519_key_decodes(pk) && !is_base64(signature_b64) ==> res is Err
                && status_with(res->Err_0, RpcCode::InvalidArgument, "invalid signature encoding: "@)
            &&& forall|sig: Seq<u8>|
                #[trigger] base64_text(sig) == signature_b64 && pk.len() == 32 && ed25519_key_decodes(pk)
                    ==> {
                    &&& sig.len() != 64 ==> res is Err && status_with(
                        res->Err_0,
                        RpcCode::InvalidArgument,
                        "invalid signature: "@,
                    )
                    &&& sig.len() == 64 ==> (res is Ok <==> ed25519_accepts(pk, encode_utf8(message), sig))
                    &&& sig.len() == 64 && res is Err ==> status_is(
                        res->Err_0,
                        RpcCode::Unauthenticated,
                        "signature verification failed"@,
                    )
                }
        }
}

fn status_with_detail(code: RpcCode, prefix: &str, detail: &str) -> (res: RpcStatus)
    ensures
        status_with(res, code, prefix@),
{
    let message = concat_str(prefix, detail);
    assert(message@.subrange(0, prefix@.len() as int) =~= prefix@);
    RpcStatus { code, message }
}

/// Verifies a base64 Ed25519 signature of `message` under a base64 public key.
///
/// The public key must be standard base64 of 32 bytes that decompress to a curve
/// point, and the signature standard base64 of 64 bytes; each failure is an
/// invalid-argument status naming what was wrong. A signature that ordinary Ed25519
/// verification rejects gives the unauthenticated status `signature verification failed`.
pub fn verify_ed25519_signature(signature_b64: &str, public_key_b64: &str, message: &str) -> (res:
    Result<(), RpcStatus>)
    ensures
        signature_check(signature_b64@, public_key_b64@, message@, res),
{
    let pk_bytes = match base64_decode(public_key_b64) {
        Ok(b) => b,
        Err(e) => {
            return Err(status_with_detail(RpcCode::InvalidArgument, "invalid public key encoding: ", e.as_str()));
        },
    };
    if pk_bytes.len() != 32 {
        return Err(RpcStatus {
            code: RpcCode::InvalidArgument,
            message: String::from_str("public key must be 32 bytes"),
        });
    }
    let pk_array = to_array_32(pk_bytes.as_slice());
    match ed25519_verifying_key_check(&pk_array) {
        Ok(()) => {},
        Err(e) => {
            return Err(status_with_detail(RpcCode::InvalidArgument, "invalid public key: ", e.as_str()));
        },
    }
    let sig_bytes = match base64_decode(signature_b64) {
        Ok(b) => b,
        Err(e) => {
            return Err(status_with_detail(RpcCode::InvalidArgument, "invalid signature encoding: ", e.as_str()));
        },
    };
    let signature = match ed25519_signature_from_slice(sig_bytes.as_slice()) {
        Ok(s) => s,
        Err(e) => {
            return Err(status_with_detail(RpcCode::InvalidArgument, "invalid signature: ", e.as_str()));
        },
    };
    if ed25519_verify(&pk_array, message.as_bytes(), &signature) {
        Ok(())
    } else {
        Err(RpcStatus {
            code: RpcCode::Unauthenticated,
            message: String::from_str("signature verification failed"),
        })
    }
}

/// The header check of the RPC front end. With all three of `x-signature`,
/// `x-public-key` and `x-message` the signature is verified; with none of them the
/// request passes unauthenticated; with only some of them it is rejected.
pub fn signature_interceptor(
    signature_b64: Option<&str>,
    public_key_b64: Option<&str>,
    message: Option<&str>,
) -> (res: Result<(), RpcStatus>)
    ensures
        signature_b64 is None && public_key_b64 is None && message is None ==> res is Ok,
        signature_b64 is Some && public_key_b64 is Some && message is Some ==> signature_check(
            signature_b64->0@,
            public_key_b64->0@,
            message->0@,
            res,
        ),
        !(signature_b64 is None && public_key_b64 is None && message is None) && !(signature_b64 is Some
            && public_key_b64 is Some && message is Some) ==> res is Err && status_is(
            res->Err_0,
            RpcCode::InvalidArgument,
            "signature verification requires x-signature, x-public-key, and x-message headers"@,
        ),
{
    match (signature_b64, public_key_b64, message) {
        (Some(sig), Some(pk), Some(msg)) => verify_ed25519_signature(sig, pk, msg),
        (None, None, None) => Ok(()),
        _ => Err(RpcStatus {
            code: RpcCode::InvalidArgument,
            message: String::from_str(
                "signature verification requires x-signature, x-public-key, and x-message headers",
            ),
        }),
    }
}

/// Sign, then check the headers: a message whose signature was made with a secret key
/// passes the header check when the headers carry, in standard base64, that signature
/// and the secret's public key (a 32-byte key that decodes), since ordinary Ed25519
/// verification accepts a signature made with the key.
pub proof fn lemma_signed_headers_pass(secret: Seq<u8>, message: Seq<char>, res: Result<(), RpcStatus>)
    requires
        ed25519_signature_sound(secret, encode_utf8(message)),
        ed25519_public_key_of(secret).len() == 32,
        ed25519_key_decodes(ed25519_public_key_of(secret)),
        signature_check(
            base64_text(ed25519_signature_of(secret, encode_utf8(message))),
            base64_text(ed25519_public_key_of(secret)),
            message,
            res,
        ),
    ensures
        res is Ok,
{
    let pk = ed25519_public_key_of(secret);
    let sig = ed25519_signature_of(secret, encode_utf8(message));
    assert(base64_text(pk) == base64_text(pk));
    assert(base64_text(sig) == base64_text(sig));
}

} // verus!
