//! Jobs: their lifecycle states, verification statuses, records as they are stored,
//! and the check on job types.

use vstd::prelude::*;
use crate::error::AppError;
use crate::json::JsonValue;

verus! {

/// Where a job stands in its lifecycle.
#[derive(PartialEq, Eq, Structural, Clone, Copy, Debug)]
pub enum JobState {
    Submitted,
    Validated,
    Processing,
    Verified,
    Failed,
}

/// What is known of a job's compute output.
#[derive(PartialEq, Eq, Structural, Clone, Copy, Debug)]
pub enum VerificationStatus {
    Unverified,
    Verified,
    Invalid,
    Failed,
}

impl JobState {
    /// The stored text of the state.
    pub open spec fn text(self) -> Seq<char> {
        match self {
            JobState::Submitted => "SUBMITTED"@,
            JobState::Validated => "VALIDATED"@,
            JobState::Processing => "PROCESSING"@,
            JobState::Verified => "VERIFIED"@,
            JobState::Failed => "FAILED"@,
        }
    }

    /// How far along the lifecycle the state is; the two end states share the last step.
    pub open spec fn rank(self) -> int {
        match self {
            JobState::Submitted => 0,
            JobState::Validated => 1,
            JobState::Processing => 2,
            JobState::Verified => 3,
            JobState::Failed => 3,
        }
    }

    /// The stored text of the state.
    pub fn as_str(&self) -> (res: &'static str)
        ensures
            res@ == self.text(),
    {
        match self {
            JobState::Submitted => "SUBMITTED",
            JobState::Validated => "VALIDATED",
            JobState::Processing => "PROCESSING",
            JobState::Verified => "VERIFIED",
            JobState::Failed => "FAILED",
        }
    }
}

impl VerificationStatus {
    /// The stored text of the status.
    pub open spec fn text(self) -> Seq<char> {
        match self {
            VerificationStatus::Unverified => "UNVERIFIED"@,
            VerificationStatus::Verified => "VERIFIED"@,
            VerificationStatus::Invalid => "INVALID"@,
            VerificationStatus::Failed => "FAILED"@,
        }
    }

    /// The stored text of the status.
    pub fn as_str(&self) -> (res: &'static str)
        ensures
            res@ == self.text(),
    {
        match self {
            VerificationStatus::Unverified => "UNVERIFIED",
            VerificationStatus::Verified => "VERIFIED",
            VerificationStatus::Invalid => "INVALID",
            VerificationStatus::Failed => "FAILED",
        }
    }
}

/// A job submission: its type and payload.
pub struct JobInput {
    pub job_type: String,
    pub payload: JsonValue,
}

/// A job as it is stored.
pub struct JobRecord {
    pub id: u128,
    pub job_type: String,
    pub payload: JsonValue,
    pub state: String,
    pub payload_hash: String,
    pub backend_signature: String,
    pub verification_status: String,
    pub created_at: String,
    pub updated_at: String,
}

/// A change to a stored job; absent fields are left as they are.
pub struct JobUpdate {
    pub state: Option<String>,
    pub verification_status: Option<String>,
    pub updated_at: Option<String>,
}

/// One job with the server's public key.
pub struct JobResponse {
    pub job: JobRecord,
    pub public_key: String,
}

/// All jobs with the server's public key.
pub struct JobListResponse {
    pub jobs: Vec<JobRecord>,
    pub public_key: String,
}

/// Whether a character may appear in a job type: ASCII letters and digits, `-`, `_`.
pub open spec fn job_type_char(c: char) -> bool {
    ('a' <= c && c <= 'z') || ('A' <= c && c <= 'Z') || ('0' <= c && c <= '9') || c == '-' || c == '_'
}

/// Whether a job type is acceptable: not empty, at most 40 bytes, and made of the
/// characters that `job_type_char` allows.
pub open spec fn job_type_ok(job_type: &str) -> bool {
    &&& job_type@.len() > 0
    &&& vstd::utf8::encode_utf8(job_type@).len() <= 40
    &&& forall|i: int| 0 <= i < job_type@.len() ==> job_type_char(#[trigger] job_type@[i])
}

/// The detail of the error for an unacceptable job type.
pub open spec fn job_type_error_text() -> Seq<char> {
    "job_type must be 1-40 chars, alphanumeric plus - or _"@
}

/// Checks a job type: 1 to 40 bytes of ASCII letters, digits, `-` and `_`.
pub fn validate_job_type(job_type: &str) -> (res: Result<(), AppError>)
    ensures
        res is Ok <==> job_type_ok(job_type),
        res is Ok <==> ({
            &&& 0 < job_type@.len() <= 40
            &&& forall|i: int|
                0 <= i < job_type@.len() ==> {
                    let c = #[trigger] job_type@[i];
                    ('a' <= c && c <= 'z') || ('A' <= c && c <= 'Z') || ('0' <= c && c <= '9') || c == '-'
                        || c == '_'
                }
        }),
        res is Err ==> res->Err_0 is BadRequest && res->Err_0->BadRequest_0@ == job_type_error_text(),
{
    proof {
        lemma_job_type_ok_exactly(job_type);
    }
    let mut is_valid = !job_type.is_empty() && job_type.as_bytes().len() <= 40;
    if is_valid {
        let n = job_type.unicode_len();
        let mut i: usize = 0;
        while i < n
            invariant
                n == job_type@.len(),
                i <= n,
                is_valid <==> forall|j: int| 0 <= j < i ==> job_type_char(#[trigger] job_type@[j]),
            decreases n - i,
        {
            let c = job_type.get_char(i);
            let ok = ('a' <= c && c <= 'z') || ('A' <= c && c <= 'Z') || ('0' <= c && c <= '9') || c == '-'
                || c == '_';
            if !ok {
                is_valid = false;
            }
            i = i + 1;
        }
    }
    if is_valid {
        Ok(())
    } else {
        Err(AppError::BadRequest(String::from_str("job_type must be 1-40 chars, alphanumeric plus - or _")))
    }
}

/// The UTF-8 encoding of a text has at least one byte per character, and exactly one
/// when every character is ASCII.
pub proof fn lemma_utf8_len(s: Seq<char>)
    ensures
        vstd::utf8::encode_utf8(s).len() >= s.len(),
        (forall|i: int| 0 <= i < s.len() ==> (#[trigger] s[i] as u32) < 128) ==> vstd::utf8::encode_utf8(s).len()
            == s.len(),
    decreases s.len(),
{
    if s.len() > 0 {
        let d = s.drop_first();
        lemma_utf8_len(d);
        if forall|i: int| 0 <= i < s.len() ==> (#[trigger] s[i] as u32) < 128 {
            assert forall|i: int| 0 <= i < d.len() implies (#[trigger] d[i] as u32) < 128 by {
                assert(d[i] == s[i + 1]);
            }
            assert((s[0] as u32) < 128);
        }
    }
}

/// The job types accepted are exactly the texts of 1 to 40 characters, each an ASCII
/// letter of either case, a digit, `-` or `_`.
pub proof fn lemma_job_type_ok_exactly(job_type: &str)
    ensures
        job_type_ok(job_type) <==> ({
            &&& 0 < job_type@.len() <= 40
            &&& forall|i: int|
                0 <= i < job_type@.len() ==> {
                    let c = #[trigger] job_type@[i];
                    ('a' <= c && c <= 'z') || ('A' <= c && c <= 'Z') || ('0' <= c && c <= '9') || c == '-'
                        || c == '_'
                }
        }),
{
    let s = job_type@;
    lemma_utf8_len(s);
    if forall|i: int|
        0 <= i < s.len() ==> {
            let c = #[trigger] s[i];
            ('a' <= c && c <= 'z') || ('A' <= c && c <= 'Z') || ('0' <= c && c <= '9') || c == '-' || c == '_'
        } {
        assert forall|i: int| 0 <= i < s.len() implies (#[trigger] s[i] as u32) < 128 by {
            let c = s[i];
            assert(('a' <= c && c <= 'z') || ('A' <= c && c <= 'Z') || ('0' <= c && c <= '9') || c == '-' || c == '_');
        }
    }
}

/// The stored texts of the states and statuses, and the place of each state in the
/// lifecycle.
pub proof fn lemma_state_and_status_texts()
    ensures
        JobState::Submitted.text() == "SUBMITTED"@ && JobState::Submitted.rank() == 0,
        JobState::Validated.text() == "VALIDATED"@ && JobState::Validated.rank() == 1,
        JobState::Processing.text() == "PROCESSING"@ && JobState::Processing.rank() == 2,
        JobState::Verified.text() == "VERIFIED"@ && JobState::Verified.rank() == 3,
        JobState::Failed.text() == "FAILED"@ && JobState::Failed.rank() == 3,
        VerificationStatus::Unverified.text() == "UNVERIFIED"@,
        VerificationStatus::Verified.text() == "VERIFIED"@,
        VerificationStatus::Invalid.text() == "INVALID"@,
        VerificationStatus::Failed.text() == "FAILED"@,
{
}

/// The job that a store lookup found, or the not-found error `job not found`.
pub fn job_or_not_found(found: Option<JobRecord>) -> (res: Result<JobRecord, AppError>)
    ensures
        found is Some ==> res == Ok::<JobRecord, AppError>(found->0),
        found is None ==> res is Err && res->Err_0 is NotFound && res->Err_0->NotFound_0@ == "job not found"@,
{
    match found {
        Some(job) => Ok(job),
        None => Err(AppError::NotFound(String::from_str("job not found"))),
    }
}

} // verus!
