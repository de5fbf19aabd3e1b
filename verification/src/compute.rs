//! The deterministic compute contract: the result that an honest compute module
//! reports for a job, and its FNV-1a 64-bit checksum.

use vstd::prelude::*;
use crate::text::{hex_fixed, push_hex_fixed};
use crate::job::VerificationStatus;

verus! {

/// FNV-1a 64-bit offset basis.
pub const FNV_OFFSET: u64 = 0xcbf29ce484222325;

/// FNV-1a 64-bit prime.
pub const FNV_PRIME: u64 = 0x100000001b3;

/// FNV-1a 64 over a byte sequence: xor each byte in, then multiply by the prime
/// modulo 2^64.
pub open spec fn fnv1a64(bytes: Seq<u8>) -> u64
    decreases bytes.len(),
{
    if bytes.len() == 0 {
        FNV_OFFSET
    } else {
        let h = fnv1a64(bytes.drop_last());
        (((h ^ (bytes.last() as u64)) as nat * FNV_PRIME as nat) % 0x1_0000_0000_0000_0000nat) as u64
    }
}

/// The checksum text: the FNV-1a 64 hash of the UTF-8 bytes of `input`, as 16
/// zero-padded lowercase hex digits.
pub open spec fn checksum_text(input: Seq<char>) -> Seq<char> {
    hex_fixed(fnv1a64(vstd::utf8::encode_utf8(input)) as nat, 16)
}

/// FNV-1a 64 of the UTF-8 bytes of `input`, formatted as 16 lowercase hex digits.
pub fn checksum_fnv1a64(input: &str) -> (res: String)
    ensures
        res@ == checksum_text(input@),
{
    let bytes = input.as_bytes();
    let mut hash: u64 = FNV_OFFSET;
    let mut i: usize = 0;
    while i < bytes.len()
        invariant
            i <= bytes@.len(),
            bytes@ == vstd::utf8::encode_utf8(input@),
            hash == fnv1a64(bytes@.take(i as int)),
        decreases bytes@.len() - i,
    {
        assert(bytes@.take((i + 1) as int).drop_last() =~= bytes@.take(i as int));
        hash = hash ^ (bytes[i] as u64);
        hash = hash.wrapping_mul(FNV_PRIME);
        i = i + 1;
    }
    assert(bytes@.take(i as int) =~= bytes@);
    let mut out = String::new();
    push_hex_fixed(&mut out, hash as u128, 16);
    assert(out@ =~= checksum_text(input@));
    out
}


/// What the compute module reports for a job.
pub struct ComputeOutput {
    pub result: String,
    pub checksum: String,
    pub algorithm: String,
}

/// The result that an honest compute module reports: `processed|job_type|payload_b64`.
pub open spec fn expected_text(job_type: Seq<char>, payload_b64: Seq<char>) -> Seq<char> {
    "processed|"@ + job_type + "|"@ + payload_b64
}

/// Whether a compute output is the one an honest compute module gives for the job:
/// the expected result, its FNV-1a 64 checksum, and the algorithm name `fnv1a-64`.
pub open spec fn output_matches(output: ComputeOutput, job_type: Seq<char>, payload_b64: Seq<char>) -> bool {
    &&& output.result@ == expected_text(job_type, payload_b64)
    &&& output.checksum@ == checksum_text(expected_text(job_type, payload_b64))
    &&& output.algorithm@ == "fnv1a-64"@
}

/// The result an honest compute module reports for a job.
pub fn expected_result(job_type: &str, payload_b64: &str) -> (res: String)
    ensures
        res@ == expected_text(job_type@, payload_b64@),
{
    let mut out = String::from_str("processed|");
    out.append(job_type);
    out.append("|");
    out.append(payload_b64);
    out
}

/// Judges a compute output: `Verified` when it is exactly the honest output for the
/// job, `Invalid` otherwise.
pub fn verify_compute_output(output: &ComputeOutput, job_type: &str, payload_b64: &str) -> (res:
    VerificationStatus)
    ensures
        res == (if output_matches(*output, job_type@, payload_b64@) {
            VerificationStatus::Verified
        } else {
            VerificationStatus::Invalid
        }),
        res == VerificationStatus::Verified <==> ({
            &&& output.result@ == "processed|"@ + job_type@ + "|"@ + payload_b64@
            &&& output.checksum@ == checksum_text(output.result@)
            &&& output.algorithm@ == "fnv1a-64"@
        }),
{
    proof {
        lemma_output_matches_exactly(*output, job_type@, payload_b64@);
    }
    let expected = expected_result(job_type, payload_b64);
    let expected_checksum = checksum_fnv1a64(expected.as_str());
    let algorithm = String::from_str("fnv1a-64");
    if output.result == expected && output.checksum == expected_checksum && output.algorithm == algorithm {
        VerificationStatus::Verified
    } else {
        VerificationStatus::Invalid
    }
}

/// The honest output for a job is judged `Verified`.
pub proof fn lemma_honest_output_verifies(output: ComputeOutput, job_type: Seq<char>, payload_b64: Seq<char>)
    requires
        output.result@ == expected_text(job_type, payload_b64),
        output.checksum@ == checksum_text(expected_text(job_type, payload_b64)),
        output.algorithm@ == "fnv1a-64"@,
    ensures
        output_matches(output, job_type, payload_b64),
{
}

/// What an output must be to be judged the honest one for a job: its result is
/// `processed|`, the job type, `|` and the base64 payload; its checksum is the FNV-1a 64
/// text of that very result; and it names `fnv1a-64`. Every such output is judged so.
pub proof fn lemma_output_matches_exactly(output: ComputeOutput, job_type: Seq<char>, payload_b64: Seq<char>)
    ensures
        output_matches(output, job_type, payload_b64) <==> ({
            &&& output.result@ == "processed|"@ + job_type + "|"@ + payload_b64
            &&& output.checksum@ == checksum_text(output.result@)
            &&& output.algorithm@ == "fnv1a-64"@
        }),
{
}

/// One output is the honest output of one job only: an output judged honest for two jobs
/// with the same job type was for the same base64 payload, and with the same payload,
/// for the same job type.
pub proof fn lemma_output_matches_one_job(
    output: ComputeOutput,
    t1: Seq<char>,
    p1: Seq<char>,
    t2: Seq<char>,
    p2: Seq<char>,
)
    requires
        output_matches(output, t1, p1),
        output_matches(output, t2, p2),
    ensures
        t1 == t2 ==> p1 == p2,
        p1 == p2 ==> t1 == t2,
{
    lemma_output_matches_exactly(output, t1, p1);
    lemma_output_matches_exactly(output, t2, p2);
    let r = output.result@;
    if t1 == t2 {
        let front = "processed|"@ + t1 + "|"@;
        assert(r == front + p1);
        assert(r == front + p2);
        assert(p1 =~= r.skip(front.len() as int));
        assert(p2 =~= r.skip(front.len() as int));
    }
    if p1 == p2 {
        let back = "|"@ + p1;
        assert(r =~= "processed|"@ + t1 + back);
        assert(r =~= "processed|"@ + t2 + back);
        assert(t1.len() == t2.len());
        assert(t1 =~= r.subrange("processed|"@.len() as int, ("processed|"@.len() + t1.len()) as int));
        assert(t2 =~= r.subrange("processed|"@.len() as int, ("processed|"@.len() + t2.len()) as int));
    }
}

/// FNV-1a 64 step by step: it starts from the offset basis `0xcbf29ce484222325`, and
/// each further byte is xor-ed in and the hash multiplied by the prime `0x100000001b3`
/// modulo 2^64.
pub proof fn lemma_fnv1a64_steps(bytes: Seq<u8>, b: u8)
    ensures
        fnv1a64(Seq::empty()) == 0xcbf29ce484222325u64,
        fnv1a64(bytes.push(b)) as int == ((fnv1a64(bytes) ^ (b as u64)) as int * 0x100000001b3int)
            % 0x1_0000_0000_0000_0000int,
{
    assert(bytes.push(b).drop_last() =~= bytes);
}

/// The checksum text is 16 lowercase hex digits of the FNV-1a 64 hash of the UTF-8
/// bytes of its input, most significant first.
pub proof fn lemma_checksum_text_parts(input: Seq<char>)
    ensures
        checksum_text(input) == hex_fixed(fnv1a64(vstd::utf8::encode_utf8(input)) as nat, 16),
        checksum_text(input).len() == 16,
{
    crate::text::lemma_hex_fixed_shape(fnv1a64(vstd::utf8::encode_utf8(input)) as nat, 16);
}

} // verus!
