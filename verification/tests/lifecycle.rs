use job_orchestrator::compute::{checksum_fnv1a64, expected_result, ComputeOutput};
use job_orchestrator::crypto::{hash_payload, ServerKeys};
use job_orchestrator::error::AppError;
use job_orchestrator::job::{validate_job_type, JobRecord, JobState, VerificationStatus};
use job_orchestrator::json::{canonical_json, JsonValue};
use job_orchestrator::pipeline::{
    JobPipeline, LifecycleEvent, PipelineAction, PipelineEvent, PipelineStep,
};

const KEY_HEX: &str = "0202020202020202020202020202020202020202020202020202020202020202";

fn keys() -> ServerKeys {
    ServerKeys::from_hex(KEY_HEX).ok().unwrap()
}

fn clone_record(r: &JobRecord) -> JobRecord {
    JobRecord {
        id: r.id,
        job_type: r.job_type.clone(),
        payload: JsonValue::Null,
        state: r.state.clone(),
        payload_hash: r.payload_hash.clone(),
        backend_signature: r.backend_signature.clone(),
        verification_status: r.verification_status.clone(),
        created_at: r.created_at.clone(),
        updated_at: r.updated_at.clone(),
    }
}

/// Plays the store: applies inserts and updates to one record and answers with it.
struct Store {
    record: Option<JobRecord>,
}

impl Store {
    fn apply(&mut self, action: &PipelineAction) -> PipelineEvent {
        match action {
            PipelineAction::Insert(r) => {
                self.record = Some(clone_record(r));
            }
            PipelineAction::Update(u) => {
                let r = self.record.as_mut().unwrap();
                if let Some(s) = &u.state {
                    r.state = s.clone();
                }
                if let Some(v) = &u.verification_status {
                    r.verification_status = v.clone();
                }
                if let Some(t) = &u.updated_at {
                    r.updated_at = t.clone();
                }
            }
            _ => panic!("not a store action"),
        }
        PipelineEvent::Stored(clone_record(self.record.as_ref().unwrap()))
    }
}

fn published_states(events: &[LifecycleEvent]) -> Vec<(Option<JobState>, JobState, VerificationStatus)> {
    events.iter().map(|e| (e.previous_state, e.new_state, e.verification_status)).collect()
}

/// Runs a job to its end with the given compute answer; returns the published events,
/// the final answer and the store's last record.
fn run(
    compute: impl Fn(&str, &str) -> Result<ComputeOutput, AppError>,
) -> (Vec<LifecycleEvent>, Result<job_orchestrator::job::JobResponse, AppError>, JobRecord) {
    let keys = keys();
    let (mut pipeline, mut step): (JobPipeline, PipelineStep) =
        JobPipeline::start(&keys, 77, "echo", JsonValue::Object(vec![]), "t0".to_string()).ok().unwrap();
    let mut store = Store { record: None };
    let mut published = Vec::new();
    let mut clock = 1;
    loop {
        if let Some(e) = step.publish.take() {
            published.push(e);
        }
        let event = match &step.action {
            PipelineAction::Finish(_) => break,
            PipelineAction::RunCompute { job_type, payload_b64 } => match compute(job_type, payload_b64) {
                Ok(out) => PipelineEvent::ComputeSucceeded(out),
                Err(e) => PipelineEvent::ComputeFailed(e),
            },
            other => store.apply(other),
        };
        assert!(pipeline.can_accept(&event));
        let (next, next_step) = pipeline.step(event, format!("t{clock}"));
        clock += 1;
        pipeline = next;
        step = next_step;
    }
    let answer = match step.action {
        PipelineAction::Finish(a) => a,
        _ => unreachable!(),
    };
    (published, answer, store.record.unwrap())
}

fn honest(job_type: &str, payload_b64: &str) -> Result<ComputeOutput, AppError> {
    let result = expected_result(job_type, payload_b64);
    let checksum = checksum_fnv1a64(&result);
    Ok(ComputeOutput { result, checksum, algorithm: "fnv1a-64".to_string() })
}

#[test]
fn job_type_checks() {
    assert!(validate_job_type("job-type_1").is_ok());
    assert!(validate_job_type(&"a".repeat(40)).is_ok());
    assert!(validate_job_type(&"a".repeat(41)).is_err());
    assert!(validate_job_type("").is_err());
    assert!(validate_job_type("bad type").is_err());
    assert!(validate_job_type("é").is_err());
    match validate_job_type("x/y") {
        Err(AppError::BadRequest(m)) => {
            assert_eq!(m, "job_type must be 1-40 chars, alphanumeric plus - or _")
        }
        _ => panic!("must be a bad request"),
    }
}

#[test]
fn start_builds_a_signed_submitted_record() {
    let keys = keys();
    let payload = JsonValue::Object(vec![]);
    let (pipeline, step) =
        JobPipeline::start(&keys, 5, "echo", JsonValue::Object(vec![]), "now".to_string()).ok().unwrap();
    assert!(step.publish.is_none());
    assert_eq!(pipeline.payload_b64, "e30=");
    match step.action {
        PipelineAction::Insert(r) => {
            assert_eq!(r.id, 5);
            assert_eq!(r.state, "SUBMITTED");
            assert_eq!(r.verification_status, "UNVERIFIED");
            assert_eq!(r.payload_hash, hash_payload(&payload));
            assert_eq!(r.created_at, "now");
            assert_eq!(r.updated_at, "now");
            assert_eq!(canonical_json(&r.payload), "{}");
        }
        _ => panic!("the first action stores the record"),
    }
}

#[test]
fn start_refuses_a_bad_job_type() {
    let keys = keys();
    assert!(matches!(
        JobPipeline::start(&keys, 5, "no spaces", JsonValue::Null, "now".to_string()),
        Err(AppError::BadRequest(_))
    ));
}

#[test]
fn honest_run_ends_verified() {
    let (published, answer, record) = run(honest);
    assert_eq!(
        published_states(&published),
        vec![
            (None, JobState::Submitted, VerificationStatus::Unverified),
            (Some(JobState::Submitted), JobState::Validated, VerificationStatus::Unverified),
            (Some(JobState::Validated), JobState::Processing, VerificationStatus::Unverified),
            (Some(JobState::Processing), JobState::Verified, VerificationStatus::Verified),
        ]
    );
    assert!(published.iter().all(|e| e.job_id == 77));
    let response = answer.ok().unwrap();
    assert_eq!(response.job.state, "VERIFIED");
    assert_eq!(response.job.verification_status, "VERIFIED");
    assert_eq!(response.public_key, keys().public_key_b64);
    assert_eq!(record.updated_at, "t4");
}

#[test]
fn dishonest_output_ends_failed_invalid() {
    let (published, answer, record) = run(|_, _| {
        Ok(ComputeOutput {
            result: "processed|echo|e30=".to_string(),
            checksum: "0".to_string(),
            algorithm: "fnv1a-64".to_string(),
        })
    });
    assert_eq!(
        published.last().map(|e| (e.new_state, e.verification_status)),
        Some((JobState::Failed, VerificationStatus::Invalid))
    );
    assert!(answer.is_ok());
    assert_eq!(record.state, "FAILED");
    assert_eq!(record.verification_status, "INVALID");
}

#[test]
fn compute_failure_ends_failed_with_the_error() {
    let (published, answer, record) = run(|_, _| Err(AppError::Compute("boom".to_string())));
    assert_eq!(published.len(), 4);
    assert_eq!(
        published.last().map(|e| (e.previous_state, e.new_state, e.verification_status)),
        Some((Some(JobState::Processing), JobState::Failed, VerificationStatus::Failed))
    );
    assert!(matches!(answer, Err(AppError::Compute(m)) if m == "boom"));
    assert_eq!(record.state, "FAILED");
    assert_eq!(record.verification_status, "FAILED");
}

#[test]
fn tampered_record_signature_fails_the_run() {
    let keys = keys();
    let (mut pipeline, mut step) =
        JobPipeline::start(&keys, 9, "echo", JsonValue::Null, "t".to_string()).ok().unwrap();
    let mut store = Store { record: None };
    loop {
        let event = match &step.action {
            PipelineAction::Finish(_) => break,
            PipelineAction::RunCompute { job_type, payload_b64 } => {
                PipelineEvent::ComputeSucceeded(honest(job_type, payload_b64).ok().unwrap())
            }
            other => {
                let ev = store.apply(other);
                match ev {
                    PipelineEvent::Stored(mut r) => {
                        r.payload_hash = "tampered".to_string();
                        PipelineEvent::Stored(r)
                    }
                    e => e,
                }
            }
        };
        let (next, next_step) = pipeline.step(event, "t".to_string());
        pipeline = next;
        step = next_step;
    }
    match step.action {
        PipelineAction::Finish(Err(AppError::Unexpected(m))) => {
            assert_eq!(m, "signature verification failed")
        }
        _ => panic!("a record whose signature does not verify must fail the run"),
    }
}

#[test]
fn store_failure_ends_the_run() {
    let keys = keys();
    let (pipeline, _) = JobPipeline::start(&keys, 1, "echo", JsonValue::Null, "t".to_string()).ok().unwrap();
    let (done, step) = pipeline.step(PipelineEvent::StoreFailed(AppError::Supabase("down".to_string())), "t".to_string());
    assert!(step.publish.is_none());
    assert!(matches!(step.action, PipelineAction::Finish(Err(AppError::Supabase(_)))));
    assert!(!done.can_accept(&PipelineEvent::StoreFailed(AppError::Supabase("x".to_string()))));
}

#[test]
fn pipeline_refuses_out_of_order_events() {
    let keys = keys();
    let (pipeline, _) = JobPipeline::start(&keys, 1, "echo", JsonValue::Null, "t".to_string()).ok().unwrap();
    assert!(!pipeline.can_accept(&PipelineEvent::ComputeFailed(AppError::Compute("x".to_string()))));
}
