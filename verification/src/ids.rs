//! Job ids: 128-bit values shown in the hyphenated UUID form.

use vstd::prelude::*;
use crate::error::{RpcCode, RpcStatus};
use crate::text::{hex_fixed, lemma_hex_fixed_shape, lemma_hex_fixed_split, pow16, push_hex_fixed};

verus! {

/// A job id in the hyphenated lowercase form `xxxxxxxx-xxxx-xxxx-xxxx-xxxxxxxxxxxx`,
/// most significant digit first.
pub open spec fn uuid_text(id: u128) -> Seq<char> {
    hex_fixed(id as nat / 0x1_0000_0000_0000_0000_0000_0000, 8) + seq!['-']
        + hex_fixed(id as nat / 0x1_0000_0000_0000_0000_0000, 4) + seq!['-']
        + hex_fixed(id as nat / 0x1_0000_0000_0000_0000, 4) + seq!['-']
        + hex_fixed(id as nat / 0x1_0000_0000_0000, 4) + seq!['-'] + hex_fixed(id as nat, 12)
}

/// The hyphenated text of a job id.
pub fn job_id_text(id: u128) -> (res: String)
    ensures
        res@ == uuid_text(id),
{
    proof {
        reveal_strlit("-");
    }
    let mut out = String::new();
    push_hex_fixed(&mut out, id / 0x1_0000_0000_0000_0000_0000_0000, 8);
    out.append("-");
    push_hex_fixed(&mut out, id / 0x1_0000_0000_0000_0000_0000, 4);
    out.append("-");
    push_hex_fixed(&mut out, id / 0x1_0000_0000_0000_0000, 4);
    out.append("-");
    push_hex_fixed(&mut out, id / 0x1_0000_0000_0000, 4);
    out.append("-");
    push_hex_fixed(&mut out, id, 12);
    assert(out@ =~= uuid_text(id));
    out
}

/// The value of a UUID text, if `uuid::Uuid::parse_str` accepts it.
pub uninterp spec fn uuid_value_of(text: Seq<char>) -> Option<u128>;

/// Trusted: `uuid::Uuid::parse_str(text)` and `as_u128`; the outcome, a function of the
/// text alone, is named `uuid_value_of`. The parser accepts, among other forms, the
/// hyphenated form of any UUID in either case, and gives back its value.
#[verifier::external_body]
fn uuid_parse(text: &str) -> (res: Option<u128>)
    ensures
        res == uuid_value_of(text@),
        forall|id: u128| #[trigger] uuid_text(id) == text@ ==> res == Some(id),
{
    uuid::Uuid::parse_str(text).ok().map(|u| u.as_u128())
}

/// A job id from its text; text that the UUID parser refuses is an invalid-argument
/// status `invalid job_id format`. The hyphenated text of an id gives back that id.
pub fn parse_job_id(text: &str) -> (res: Result<u128, RpcStatus>)
    ensures
        res is Ok <==> uuid_value_of(text@) is Some,
        res is Ok ==> res->Ok_0 == uuid_value_of(text@)->0,
        forall|id: u128| #[trigger] uuid_text(id) == text@ ==> res == Ok::<u128, RpcStatus>(id),
        res is Err ==> res->Err_0.code == RpcCode::InvalidArgument && res->Err_0.message@
            == "invalid job_id format"@,
{
    match uuid_parse(text) {
        Some(id) => Ok(id),
        None => Err(
            RpcStatus { code: RpcCode::InvalidArgument, message: String::from_str("invalid job_id format") },
        ),
    }
}

/// The hyphenated text of a job id is its 32 lowercase hex digits, most significant
/// first, with `-` after the 8th, 12th, 16th and 20th: 36 characters in all.
pub proof fn lemma_uuid_text_digits(id: u128)
    ensures
        ({
            let h = hex_fixed(id as nat, 32);
            uuid_text(id) == h.subrange(0, 8) + "-"@ + h.subrange(8, 12) + "-"@ + h.subrange(12, 16) + "-"@
                + h.subrange(16, 20) + "-"@ + h.subrange(20, 32)
        }),
        uuid_text(id).len() == 36,
{
    reveal_strlit("-");
    reveal_with_fuel(pow16, 25);
    let v = id as nat;
    assert(pow16(24) == 0x1_0000_0000_0000_0000_0000_0000nat);
    assert(pow16(20) == 0x1_0000_0000_0000_0000_0000nat);
    assert(pow16(16) == 0x1_0000_0000_0000_0000nat);
    assert(pow16(12) == 0x1_0000_0000_0000nat);
    lemma_hex_fixed_split(v, 8, 24);
    lemma_hex_fixed_split(v, 4, 20);
    lemma_hex_fixed_split(v, 4, 16);
    lemma_hex_fixed_split(v, 4, 12);
    let g0 = hex_fixed(v / pow16(24), 8);
    let g1 = hex_fixed(v / pow16(20), 4);
    let g2 = hex_fixed(v / pow16(16), 4);
    let g3 = hex_fixed(v / pow16(12), 4);
    let g4 = hex_fixed(v, 12);
    lemma_hex_fixed_shape(v / pow16(24), 8);
    lemma_hex_fixed_shape(v / pow16(20), 4);
    lemma_hex_fixed_shape(v / pow16(16), 4);
    lemma_hex_fixed_shape(v / pow16(12), 4);
    lemma_hex_fixed_shape(v, 12);
    let h = hex_fixed(v, 32);
    assert(h =~= g0 + (g1 + (g2 + (g3 + g4))));
    assert(h.subrange(0, 8) =~= g0);
    assert(h.subrange(8, 12) =~= g1);
    assert(h.subrange(12, 16) =~= g2);
    assert(h.subrange(16, 20) =~= g3);
    assert(h.subrange(20, 32) =~= g4);
    assert(uuid_text(id) =~= h.subrange(0, 8) + "-"@ + h.subrange(8, 12) + "-"@ + h.subrange(12, 16) + "-"@
        + h.subrange(16, 20) + "-"@ + h.subrange(20, 32));
}

} // verus!
