//! The job lifecycle as a state machine. A job is stored as `SUBMITTED`, moved to
//! `VALIDATED` and `PROCESSING`, handed to the compute module, and ends `VERIFIED` or
//! `FAILED`; each state change is published once it is stored. The machine decides;
//! the caller stores, publishes and runs the compute module, and reports back.

use vstd::prelude::*;
use vstd::utf8::encode_utf8;
use crate::compute::{ComputeOutput, output_matches, verify_compute_output};
use crate::crypto::{
    ServerKeys, base64_encode, base64_text, ed25519_identity_encoding, ed25519_signature_of,
    ed25519_strict_accepts, hash_payload, metadata_signature_text, metadata_text, payload_hash_text,
    sign_metadata, verify_metadata,
};
use crate::error::AppError;
use crate::job::{
    JobRecord, JobResponse, JobState, JobUpdate, VerificationStatus, job_type_error_text, job_type_ok,
    validate_job_type,
};
use crate::json::{JsonValue, canonical_json, canonical_text};

verus! {

/// Where a pipeline stands: which reply it waits for.
pub enum Stage {
    /// The new record is being stored.
    Inserting,
    /// The record is being moved to `VALIDATED`.
    ToValidated,
    /// The record is being moved to `PROCESSING`.
    ToProcessing,
    /// The compute module is running.
    Computing,
    /// The compute module failed with `error`; the record is being moved to `FAILED`.
    RecordingFailure { error: AppError },
    /// The record is being moved to its end state.
    Finalizing { state: JobState, status: VerificationStatus },
    /// The run is over; `last` is the last state published.
    Done { last: Option<JobState> },
}

/// A state change of a job, as it is published to watchers.
#[derive(Clone, Copy, Debug)]
pub struct LifecycleEvent {
    pub job_id: u128,
    pub previous_state: Option<JobState>,
    pub new_state: JobState,
    pub verification_status: VerificationStatus,
}

/// What the caller is to do next.
pub enum PipelineAction {
    /// Store a new record.
    Insert(JobRecord),
    /// Apply an update to the stored record of the job.
    Update(JobUpdate),
    /// Run the compute module on the job type and the base64 canonical payload.
    RunCompute { job_type: String, payload_b64: String },
    /// The run is over with this answer.
    Finish(Result<JobResponse, AppError>),
}

/// One step: an event to publish first, if any, then the action.
pub struct PipelineStep {
    pub publish: Option<LifecycleEvent>,
    pub action: PipelineAction,
}

/// What the caller reports back.
pub enum PipelineEvent {
    /// The store accepted the insert or update and returned the record.
    Stored(JobRecord),
    /// The store failed.
    StoreFailed(AppError),
    /// The compute module answered.
    ComputeSucceeded(ComputeOutput),
    /// The compute module could not be run or failed.
    ComputeFailed(AppError),
}

/// A job's run through its lifecycle.
pub struct JobPipeline {
    pub stage: Stage,
    pub job_id: u128,
    pub job_type: String,
    pub payload_b64: String,
    pub public_key: [u8; 32],
    pub public_key_b64: String,
}

/// Whether `next` is the state that may be published after `prev` (nothing published
/// yet when `prev` is `None`): the lifecycle only moves one step forward.
pub open spec fn follows(prev: Option<JobState>, next: JobState) -> bool {
    match prev {
        None => next == JobState::Submitted,
        Some(p) => p.rank() < 3 && next.rank() == p.rank() + 1,
    }
}

/// Whether `a` updates the record to `state` with `status` (when given) at time `now`.
pub open spec fn is_update(
    a: PipelineAction,
    state: JobState,
    status: Option<VerificationStatus>,
    now: Seq<char>,
) -> bool {
    &&& a is Update
    &&& a->Update_0.state is Some && a->Update_0.state->0@ == state.text()
    &&& match status {
        None => a->Update_0.verification_status is None,
        Some(s) => a->Update_0.verification_status is Some && a->Update_0.verification_status->0@
            == s.text(),
    }
    &&& a->Update_0.updated_at is Some && a->Update_0.updated_at->0@ == now
}

/// Whether `p` publishes the state change `prev` to `next` with `status` for `job_id`.
pub open spec fn publishes(
    p: Option<LifecycleEvent>,
    job_id: u128,
    prev: Option<JobState>,
    next: JobState,
    status: VerificationStatus,
) -> bool {
    &&& p is Some
    &&& p->0.job_id == job_id
    &&& p->0.previous_state == prev
    &&& p->0.new_state == next
    &&& p->0.verification_status == status
}

/// Whether `status` goes with `state` in a published event: `UNVERIFIED` before the end,
/// `VERIFIED` with `VERIFIED`, and `INVALID` or `FAILED` with `FAILED`.
pub open spec fn status_fits(state: JobState, status: VerificationStatus) -> bool {
    match state {
        JobState::Verified => status == VerificationStatus::Verified,
        JobState::Failed => status == VerificationStatus::Invalid || status == VerificationStatus::Failed,
        _ => status == VerificationStatus::Unverified,
    }
}

/// Whether a step from `before` on `event` to `after` that published `publish` keeps the
/// lifecycle order: an event is published only once the store has answered, names as
/// previous state the last one published, moves one step forward with the status that
/// goes with its state, and becomes the last one published; without an event nothing
/// changes.
pub open spec fn publish_step(
    before: JobPipeline,
    event: PipelineEvent,
    after: JobPipeline,
    publish: Option<LifecycleEvent>,
) -> bool {
    &&& publish is Some ==> {
        &&& event is Stored
        &&& publish->0.job_id == before.job_id
        &&& publish->0.previous_state == before.published()
        &&& follows(before.published(), publish->0.new_state)
        &&& status_fits(publish->0.new_state, publish->0.verification_status)
        &&& after.published() == Some(publish->0.new_state)
    }
    &&& publish is None ==> after.published() == before.published()
    &&& after.job_id == before.job_id
}

/// The events published over a run, in order.
pub open spec fn published_events(pubs: Seq<Option<LifecycleEvent>>) -> Seq<LifecycleEvent>
    decreases pubs.len(),
{
    if pubs.len() == 0 {
        Seq::empty()
    } else {
        let rest = published_events(pubs.drop_last());
        match pubs.last() {
            Some(e) => rest.push(e),
            None => rest,
        }
    }
}

/// Whether a sequence of events is a run of the lifecycle for `job_id`: each event is of
/// that job, names the state of the event before it as previous state (none for the
/// first), follows it, and carries the status that goes with its state.
pub open spec fn valid_run(h: Seq<LifecycleEvent>, job_id: u128) -> bool {
    &&& forall|i: int|
        0 <= i < h.len() ==> (#[trigger] h[i]).job_id == job_id && status_fits(
            h[i].new_state,
            h[i].verification_status,
        )
    &&& h.len() > 0 ==> h[0].previous_state is None && follows(None, h[0].new_state)
    &&& forall|i: int, j: int|
        #![trigger h[i], h[j]]
        0 <= i && j == i + 1 && j < h.len() ==> h[j].previous_state == Some(h[i].new_state) && follows(
            Some(h[i].new_state),
            h[j].new_state,
        )
}

/// The shape of a lifecycle run: at most four events, `SUBMITTED`, `VALIDATED`,
/// `PROCESSING` in that order with status `UNVERIFIED`, then an end event that is
/// `VERIFIED`/`VERIFIED`, `FAILED`/`INVALID` or `FAILED`/`FAILED`.
pub open spec fn run_shape(h: Seq<LifecycleEvent>) -> bool {
    &&& h.len() <= 4
    &&& h.len() > 0 ==> h[0].new_state == JobState::Submitted
    &&& h.len() > 1 ==> h[1].new_state == JobState::Validated
    &&& h.len() > 2 ==> h[2].new_state == JobState::Processing
    &&& forall|i: int| 0 <= i < h.len() && i < 3 ==> (#[trigger] h[i]).verification_status
        == VerificationStatus::Unverified
    &&& h.len() == 4 ==> {
        ||| h[3].new_state == JobState::Verified && h[3].verification_status == VerificationStatus::Verified
        ||| h[3].new_state == JobState::Failed && h[3].verification_status == VerificationStatus::Invalid
        ||| h[3].new_state == JobState::Failed && h[3].verification_status == VerificationStatus::Failed
    }
}

/// Whether each state of a history follows the one before it (the first follows nothing).
pub open spec fn valid_history(h: Seq<JobState>) -> bool {
    forall|i: int| 0 <= i < h.len() ==> follows(if i == 0 { None } else { Some(h[i - 1]) }, #[trigger] h[i])
}

/// Whether the metadata signature text of a record is standard base64 of 64 bytes.
pub open spec fn signature_well_formed(sig_text: Seq<char>) -> bool {
    exists|b: Seq<u8>| b.len() == 64 && #[trigger] base64_text(b) == sig_text
}

/// Whether the metadata signature of a record passes strict verification under `pk`.
pub open spec fn signature_accepted(pk: Seq<u8>, job: JobRecord) -> bool {
    exists|b: Seq<u8>|
        b.len() == 64 && #[trigger] base64_text(b) == job.backend_signature@ && ed25519_strict_accepts(
            pk,
            encode_utf8(metadata_text(job.id, job.job_type@, job.payload_hash@)),
            b,
        )
}

/// The end state and verification status that a compute output leads to.
pub open spec fn outcome_of(output: ComputeOutput, job_type: Seq<char>, payload_b64: Seq<char>) -> (
    JobState,
    VerificationStatus,
) {
    if output_matches(output, job_type, payload_b64) {
        (JobState::Verified, VerificationStatus::Verified)
    } else {
        (JobState::Failed, VerificationStatus::Invalid)
    }
}

fn update_to(state: JobState, status: Option<VerificationStatus>, now: String) -> (res: PipelineAction)
    ensures
        is_update(res, state, status, now@),
{
    let verification_status = match status {
        Some(s) => Some(String::from_str(s.as_str())),
        None => None,
    };
    PipelineAction::Update(
        JobUpdate { state: Some(String::from_str(state.as_str())), verification_status, updated_at: Some(now) },
    )
}

fn lifecycle_event(
    job_id: u128,
    prev: Option<JobState>,
    next: JobState,
    status: VerificationStatus,
) -> (res: Option<LifecycleEvent>)
    ensures
        publishes(res, job_id, prev, next, status),
{
    Some(LifecycleEvent { job_id, previous_state: prev, new_state: next, verification_status: status })
}

impl JobPipeline {
    /// Whether the pipeline waits for an event of this kind.
    pub open spec fn accepts(self, event: PipelineEvent) -> bool {
        match self.stage {
            Stage::Done { .. } => false,
            Stage::Computing => event is ComputeSucceeded || event is ComputeFailed,
            _ => event is Stored || event is StoreFailed,
        }
    }

    /// Well-formedness: a run only ever finalizes into an end state, with the status
    /// that goes with it.
    pub open spec fn wf(self) -> bool {
        match self.stage {
            Stage::Finalizing { state, status } => (state == JobState::Verified && status
                == VerificationStatus::Verified) || (state == JobState::Failed && status
                == VerificationStatus::Invalid),
            _ => true,
        }
    }

    /// Whether the run is over.
    pub open spec fn is_done(self) -> bool {
        self.stage is Done
    }

    /// The last state that the pipeline has had published.
    pub open spec fn published(self) -> Option<JobState> {
        match self.stage {
            Stage::Inserting => None,
            Stage::ToValidated => Some(JobState::Submitted),
            Stage::ToProcessing => Some(JobState::Validated),
            Stage::Computing => Some(JobState::Processing),
            Stage::RecordingFailure { .. } => Some(JobState::Processing),
            Stage::Finalizing { .. } => Some(JobState::Processing),
            Stage::Done { last } => last,
        }
    }

    /// How many more events the pipeline can take at most.
    pub open spec fn remaining(self) -> nat {
        match self.stage {
            Stage::Inserting => 6,
            Stage::ToValidated => 5,
            Stage::ToProcessing => 4,
            Stage::Computing => 3,
            Stage::RecordingFailure { .. } => 1,
            Stage::Finalizing { .. } => 1,
            Stage::Done { .. } => 0,
        }
    }

    /// Whether the pipeline waits for an event of this kind.
    pub fn can_accept(&self, event: &PipelineEvent) -> (res: bool)
        ensures
            res == self.accepts(*event),
    {
        match self.stage {
            Stage::Done { .. } => false,
            Stage::Computing => match event {
                PipelineEvent::ComputeSucceeded(_) => true,
                PipelineEvent::ComputeFailed(_) => true,
                _ => false,
            },
            _ => match event {
                PipelineEvent::Stored(_) => true,
                PipelineEvent::StoreFailed(_) => true,
                _ => false,
            },
        }
    }

    /// Starts the run of a new job: checks its type, hashes its payload, signs its
    /// metadata, and asks for the `SUBMITTED`, `UNVERIFIED` record to be stored.
    pub fn start(keys: &ServerKeys, job_id: u128, job_type: &str, payload: JsonValue, now: String) -> (res:
        Result<(JobPipeline, PipelineStep), AppError>)
        requires
            keys.derived(),
        ensures
            res is Err <==> !job_type_ok(job_type),
            res is Err ==> res->Err_0 is BadRequest && res->Err_0->BadRequest_0@ == job_type_error_text(),
            res is Ok ==> ({
                let (p, s) = res->Ok_0;
                &&& p.wf()
                &&& p.stage is Inserting
                &&& p.job_id == job_id
                &&& p.job_type@ == job_type@
                &&& p.payload_b64@ == base64_text(encode_utf8(canonical_text(payload)))
                &&& p.public_key == keys.public_key
                &&& p.public_key_b64@ == keys.public_key_b64@
                &&& s.publish is None
                &&& s.action is Insert
                &&& s.action->Insert_0.id == job_id
                &&& s.action->Insert_0.job_type@ == job_type@
                &&& s.action->Insert_0.payload == payload
                &&& s.action->Insert_0.state@ == JobState::Submitted.text()
                &&& s.action->Insert_0.payload_hash@ == payload_hash_text(payload)
                &&& s.action->Insert_0.backend_signature@ == metadata_signature_text(
                    keys.secret@,
                    job_id,
                    job_type@,
                    payload_hash_text(payload),
                )
                &&& s.action->Insert_0.verification_status@ == VerificationStatus::Unverified.text()
                &&& s.action->Insert_0.created_at@ == now@
                &&& s.action->Insert_0.updated_at@ == now@
                // The record's signature checks out under the pipeline's public key.
                &&& signature_well_formed(s.action->Insert_0.backend_signature@)
                &&& ed25519_signature_of(
                    keys.secret@,
                    encode_utf8(metadata_text(job_id, job_type@, payload_hash_text(payload))),
                ).subrange(0, 32) != ed25519_identity_encoding() ==> signature_accepted(
                    p.public_key@,
                    s.action->Insert_0,
                )
            }),
    {
        validate_job_type(job_type)?;
        let payload_hash = hash_payload(&payload);
        let signature = sign_metadata(&keys.secret, job_id, job_type, payload_hash.as_str());
        proof {
            let sig = ed25519_signature_of(
                keys.secret@,
                encode_utf8(metadata_text(job_id, job_type@, payload_hash@)),
            );
            assert(base64_text(sig) == signature@);
        }
        let canonical = canonical_json(&payload);
        let payload_b64 = base64_encode(canonical.as_str().as_bytes());
        let record = JobRecord {
            id: job_id,
            job_type: String::from_str(job_type),
            payload,
            state: String::from_str(JobState::Submitted.as_str()),
            payload_hash,
            backend_signature: signature,
            verification_status: String::from_str(VerificationStatus::Unverified.as_str()),
            created_at: now.clone(),
            updated_at: now,
        };
        let pipeline = JobPipeline {
            stage: Stage::Inserting,
            job_id,
            job_type: String::from_str(job_type),
            payload_b64,
            public_key: keys.public_key,
            public_key_b64: keys.public_key_b64.clone(),
        };
        Ok((pipeline, PipelineStep { publish: None, action: PipelineAction::Insert(record) }))
    }

    /// Takes the caller's report and decides what comes next. `now` is the time at
    /// which any update asked for is stamped.
    ///
    /// Each stored step publishes the state that was just stored and asks for the next:
    /// `SUBMITTED`, `VALIDATED`, `PROCESSING`, then the compute module. A failed compute
    /// run moves the job to `FAILED` with status `FAILED` and ends with the compute
    /// error. A compute output moves it to `VERIFIED`/`VERIFIED` when it is the honest
    /// output, to `FAILED`/`INVALID` otherwise; then the stored record's metadata
    /// signature is checked, and the run ends with the record, or with an error when the
    /// signature does not verify. A store failure ends the run with that error.
    pub fn step(self, event: PipelineEvent, now: String) -> (res: (JobPipeline, PipelineStep))
        requires
            self.wf(),
            self.accepts(event),
        ensures
            res.0.wf(),
            // The lifecycle only moves forward, one state at a time, each state published once.
            res.1.publish is Some ==> {
                &&& res.1.publish->0.job_id == self.job_id
                &&& res.1.publish->0.previous_state == self.published()
                &&& follows(self.published(), res.1.publish->0.new_state)
                &&& res.0.published() == Some(res.1.publish->0.new_state)
            },
            res.1.publish is None ==> res.0.published() == self.published(),
            publish_step(self, event, res.0, res.1.publish),
            res.0.remaining() < self.remaining(),
            res.0.is_done() <==> res.1.action is Finish,
            res.0.job_id == self.job_id,
            res.0.job_type == self.job_type,
            res.0.payload_b64 == self.payload_b64,
            res.0.public_key == self.public_key,
            res.0.public_key_b64 == self.public_key_b64,
            // A store failure ends the run with that failure.
            event is StoreFailed ==> res.1.publish is None && res.1.action is Finish
                && res.1.action->Finish_0 == Err::<JobResponse, AppError>(event->StoreFailed_0),
            // The stored steps.
            self.stage is Inserting && event is Stored ==> res.0.stage is ToValidated && publishes(
                res.1.publish,
                self.job_id,
                None,
                JobState::Submitted,
                VerificationStatus::Unverified,
            ) && is_update(res.1.action, JobState::Validated, None, now@),
            self.stage is ToValidated && event is Stored ==> res.0.stage is ToProcessing && publishes(
                res.1.publish,
                self.job_id,
                Some(JobState::Submitted),
                JobState::Validated,
                VerificationStatus::Unverified,
            ) && is_update(res.1.action, JobState::Processing, None, now@),
            self.stage is ToProcessing && event is Stored ==> res.0.stage is Computing && publishes(
                res.1.publish,
                self.job_id,
                Some(JobState::Validated),
                JobState::Processing,
                VerificationStatus::Unverified,
            ) && res.1.action is RunCompute && res.1.action->RunCompute_job_type == self.job_type
                && res.1.action->RunCompute_payload_b64 == self.payload_b64,
            // The compute module's answer.
            self.stage is Computing && event is ComputeFailed ==> res.1.publish is None
                && res.0.stage == (Stage::RecordingFailure { error: event->ComputeFailed_0 })
                && is_update(
                res.1.action,
                JobState::Failed,
                Some(VerificationStatus::Failed),
                now@,
            ),
            self.stage is Computing && event is ComputeSucceeded ==> ({
                let (state, status) = outcome_of(event->ComputeSucceeded_0, self.job_type@, self.payload_b64@);
                &&& res.1.publish is None
                &&& res.0.stage == (Stage::Finalizing { state, status })
                &&& is_update(res.1.action, state, Some(status), now@)
            }),
            // The end.
            self.stage is RecordingFailure && event is Stored ==> publishes(
                res.1.publish,
                self.job_id,
                Some(JobState::Processing),
                JobState::Failed,
                VerificationStatus::Failed,
            ) && res.1.action is Finish && res.1.action->Finish_0 == Err::<JobResponse, AppError>(
                self.stage->RecordingFailure_error,
            ),
            self.stage is Finalizing && event is Stored ==> ({
                let job = event->Stored_0;
                &&& publishes(
                    res.1.publish,
                    self.job_id,
                    Some(JobState::Processing),
                    self.stage->Finalizing_state,
                    self.stage->Finalizing_status,
                )
                &&& res.1.action is Finish
                &&& (res.1.action->Finish_0 is Ok <==> signature_accepted(self.public_key@, job))
                &&& res.1.action->Finish_0 is Ok ==> res.1.action->Finish_0->Ok_0.job == job
                    && res.1.action->Finish_0->Ok_0.public_key@ == self.public_key_b64@
                &&& signature_well_formed(job.backend_signature@) && !signature_accepted(
                    self.public_key@,
                    job,
                ) ==> res.1.action->Finish_0 is Err && res.1.action->Finish_0->Err_0 is Unexpected
                    && res.1.action->Finish_0->Err_0->Unexpected_0@ == "signature verification failed"@
                &&& !signature_well_formed(job.backend_signature@) ==> res.1.action->Finish_0 is Err
                    && res.1.action->Finish_0->Err_0 is BadRequest
            }),
    {
        let JobPipeline { stage, job_id, job_type, payload_b64, public_key, public_key_b64 } = self;
        match event {
            PipelineEvent::StoreFailed(e) => {
                let last = match stage {
                    Stage::Inserting => None,
                    Stage::ToValidated => Some(JobState::Submitted),
                    Stage::ToProcessing => Some(JobState::Validated),
                    _ => Some(JobState::Processing),
                };
                let next = JobPipeline {
                    stage: Stage::Done { last },
                    job_id,
                    job_type,
                    payload_b64,
                    public_key,
                    public_key_b64,
                };
                (next, PipelineStep { publish: None, action: PipelineAction::Finish(Err(e)) })
            },
            PipelineEvent::ComputeFailed(e) => {
                let next = JobPipeline {
                    stage: Stage::RecordingFailure { error: e },
                    job_id,
                    job_type,
                    payload_b64,
                    public_key,
                    public_key_b64,
                };
                let action = update_to(JobState::Failed, Some(VerificationStatus::Failed), now);
                (next, PipelineStep { publish: None, action })
            },
            PipelineEvent::ComputeSucceeded(output) => {
                let status = verify_compute_output(&output, job_type.as_str(), payload_b64.as_str());
                let state = match status {
                    VerificationStatus::Verified => JobState::Verified,
                    _ => JobState::Failed,
                };
                let action = update_to(state, Some(status), now);
                let next = JobPipeline {
                    stage: Stage::Finalizing { state, status },
                    job_id,
                    job_type,
                    payload_b64,
                    public_key,
                    public_key_b64,
                };
                (next, PipelineStep { publish: None, action })
            },
            PipelineEvent::Stored(job) => {
                match stage {
                    Stage::Inserting => {
                        let publish = lifecycle_event(
                            job_id,
                            None,
                            JobState::Submitted,
                            VerificationStatus::Unverified,
                        );
                        let action = update_to(JobState::Validated, None, now);
                        let next = JobPipeline {
                            stage: Stage::ToValidated,
                            job_id,
                            job_type,
                            payload_b64,
                            public_key,
                            public_key_b64,
                        };
                        (next, PipelineStep { publish, action })
                    },
                    Stage::ToValidated => {
                        let publish = lifecycle_event(
                            job_id,
                            Some(JobState::Submitted),
                            JobState::Validated,
                            VerificationStatus::Unverified,
                        );
                        let action = update_to(JobState::Processing, None, now);
                        let next = JobPipeline {
                            stage: Stage::ToProcessing,
                            job_id,
                            job_type,
                            payload_b64,
                            public_key,
                            public_key_b64,
                        };
                        (next, PipelineStep { publish, action })
                    },
                    Stage::ToProcessing => {
                        let publish = lifecycle_event(
                            job_id,
                            Some(JobState::Validated),
                            JobState::Processing,
                            VerificationStatus::Unverified,
                        );
                        let action = PipelineAction::RunCompute {
                            job_type: job_type.clone(),
                            payload_b64: payload_b64.clone(),
                        };
                        let next = JobPipeline {
                            stage: Stage::Computing,
                            job_id,
                            job_type,
                            payload_b64,
                            public_key,
                            public_key_b64,
                        };
                        (next, PipelineStep { publish, action })
                    },
                    Stage::RecordingFailure { error } => {
                        let publish = lifecycle_event(
                            job_id,
                            Some(JobState::Processing),
                            JobState::Failed,
                            VerificationStatus::Failed,
                        );
                        let next = JobPipeline {
                            stage: Stage::Done { last: Some(JobState::Failed) },
                            job_id,
                            job_type,
                            payload_b64,
                            public_key,
                            public_key_b64,
                        };
                        (next, PipelineStep { publish, action: PipelineAction::Finish(Err(error)) })
                    },
                    Stage::Finalizing { state, status } => {
                        let publish = lifecycle_event(job_id, Some(JobState::Processing), state, status);
                        let checked = verify_metadata(
                            &public_key,
                            job.id,
                            job.job_type.as_str(),
                            job.payload_hash.as_str(),
                            job.backend_signature.as_str(),
                        );
                        let answer = match checked {
                            Ok(true) => Ok(JobResponse { job, public_key: public_key_b64.clone() }),
                            Ok(false) => Err(
                                AppError::Unexpected(String::from_str("signature verification failed")),
                            ),
                            Err(e) => Err(e),
                        };
                        let next = JobPipeline {
                            stage: Stage::Done { last: Some(state) },
                            job_id,
                            job_type,
                            payload_b64,
                            public_key,
                            public_key_b64,
                        };
                        (next, PipelineStep { publish, action: PipelineAction::Finish(answer) })
                    },
                    Stage::Computing | Stage::Done { .. } => {
                        // `accepts` rules out a stored record while computing or after the end.
                        proof {
                            assert(false);
                        }
                        let next = JobPipeline { stage, job_id, job_type, payload_b64, public_key, public_key_b64 };
                        (next, PipelineStep { publish: None, action: PipelineAction::Finish(Err(AppError::Unexpected(String::new()))) })
                    },
                }
            },
        }
    }
}


/// The signature check at the end of a run reads only the id, job type, payload hash and
/// signature of the stored record: a record that the store gives back with those fields
/// as they were inserted is accepted exactly when the inserted one was.
pub proof fn lemma_stored_record_keeps_signature(pk: Seq<u8>, inserted: JobRecord, stored: JobRecord)
    requires
        stored.id == inserted.id,
        stored.job_type@ == inserted.job_type@,
        stored.payload_hash@ == inserted.payload_hash@,
        stored.backend_signature@ == inserted.backend_signature@,
    ensures
        signature_accepted(pk, stored) <==> signature_accepted(pk, inserted),
        signature_well_formed(stored.backend_signature@) <==> signature_well_formed(
            inserted.backend_signature@,
        ),
{
}

/// A history in lifecycle order is a prefix of `SUBMITTED`, `VALIDATED`, `PROCESSING`,
/// then `VERIFIED` or `FAILED`: at most four states.
pub proof fn lemma_history_shape(h: Seq<JobState>)
    requires
        valid_history(h),
    ensures
        h.len() <= 4,
        forall|i: int| 0 <= i < h.len() ==> (#[trigger] h[i]).rank() == i,
        h.len() > 0 ==> h[0] == JobState::Submitted,
        h.len() > 1 ==> h[1] == JobState::Validated,
        h.len() > 2 ==> h[2] == JobState::Processing,
        h.len() > 3 ==> h[3] == JobState::Verified || h[3] == JobState::Failed,
    decreases h.len(),
{
    if h.len() > 0 {
        let d = h.drop_last();
        assert forall|i: int| 0 <= i < d.len() implies follows(
            if i == 0 { None } else { Some(d[i - 1]) },
            #[trigger] d[i],
        ) by {
            assert(d[i] == h[i]);
            if i > 0 {
                assert(d[i - 1] == h[i - 1]);
            }
        }
        lemma_history_shape(d);
        let k = h.len() - 1;
        assert(follows(if k == 0 { None } else { Some(h[k - 1]) }, h[k]));
        if k > 0 {
            assert(h[k - 1] == d[k - 1]);
        }
        assert forall|i: int| 0 <= i < h.len() implies (#[trigger] h[i]).rank() == i by {
            if i < k {
                assert(h[i] == d[i]);
            }
        }
    }
}

/// The events that a run publishes, step by step: each once the store has answered,
/// each a step of a lifecycle run of the pipeline's job, the last one what the pipeline
/// last published.
proof fn lemma_run_valid(ps: Seq<JobPipeline>, evs: Seq<PipelineEvent>, pubs: Seq<Option<LifecycleEvent>>)
    requires
        ps.len() == pubs.len() + 1,
        evs.len() == pubs.len(),
        ps[0].published() is None,
        forall|k: int| 0 <= k < pubs.len() ==> publish_step(ps[k], evs[k], ps[k + 1], #[trigger] pubs[k]),
    ensures
        forall|k: int| 0 <= k < pubs.len() && (#[trigger] pubs[k]) is Some ==> evs[k] is Stored,
        valid_run(published_events(pubs), ps[0].job_id),
        published_events(pubs).len() == 0 <==> ps.last().published() is None,
        published_events(pubs).len() > 0 ==> ps.last().published() == Some(published_events(pubs).last().new_state),
        ps.last().job_id == ps[0].job_id,
    decreases pubs.len(),
{
    let h = published_events(pubs);
    if pubs.len() > 0 {
        let n = pubs.len() - 1;
        let ps0 = ps.drop_last();
        let evs0 = evs.drop_last();
        let pubs0 = pubs.drop_last();
        assert forall|k: int| 0 <= k < pubs0.len() implies publish_step(ps0[k], evs0[k], ps0[k + 1], #[trigger] pubs0[k]) by {
            assert(pubs0[k] == pubs[k]);
            assert(evs0[k] == evs[k]);
            assert(ps0[k] == ps[k] && ps0[k + 1] == ps[k + 1]);
        }
        assert(ps0[0] == ps[0]);
        lemma_run_valid(ps0, evs0, pubs0);
        assert(ps0.last() == ps[n]);
        assert(publish_step(ps[n], evs[n], ps[n + 1], pubs[n]));
        let h0 = published_events(pubs0);
        assert(pubs.last() == pubs[n]);
        if pubs[n] is Some {
            assert(h == h0.push(pubs[n]->0));
            assert(h[h.len() - 1] == pubs[n]->0);
            assert forall|i: int| 0 <= i < h.len() implies (#[trigger] h[i]).job_id == ps[0].job_id
                && status_fits(h[i].new_state, h[i].verification_status) by {
                if i < h0.len() {
                    assert(h[i] == h0[i]);
                }
            }
            if h0.len() > 0 {
                assert(h[0] == h0[0]);
            }
            assert forall|i: int, j: int|
                #![trigger h[i], h[j]]
                0 <= i && j == i + 1 && j < h.len() implies h[j].previous_state == Some(h[i].new_state)
                    && follows(Some(h[i].new_state), h[j].new_state) by {
                assert(h[i] == h0[i]);
                if j < h0.len() {
                    assert(h[j] == h0[j]);
                } else {
                    assert(h0.last() == h0[i]);
                }
            }
        } else {
            assert(h == h0);
        }
        assert(ps.last() == ps[n + 1]);
        assert forall|k: int| 0 <= k < pubs.len() && (#[trigger] pubs[k]) is Some implies evs[k] is Stored by {
            if k < n {
                assert(pubs0[k] == pubs[k]);
                assert(evs0[k] == evs[k]);
            }
        }
    }
}

/// A lifecycle run has the shape of one: a prefix of `SUBMITTED`, `VALIDATED`,
/// `PROCESSING` with status `UNVERIFIED`, then one end event.
pub proof fn lemma_valid_run_shape(h: Seq<LifecycleEvent>, job_id: u128)
    requires
        valid_run(h, job_id),
    ensures
        run_shape(h),
{
    let states = h.map_values(|e: LifecycleEvent| e.new_state);
    assert forall|i: int| 0 <= i < states.len() implies follows(
        if i == 0 { None } else { Some(states[i - 1]) },
        #[trigger] states[i],
    ) by {
        assert(states[i] == h[i].new_state);
        if i > 0 {
            assert(states[i - 1] == h[i - 1].new_state);
            assert(h[i].previous_state == Some(h[i - 1].new_state));
        }
    }
    lemma_history_shape(states);
    assert forall|i: int| 0 <= i < h.len() && i < 3 implies (#[trigger] h[i]).verification_status
        == VerificationStatus::Unverified by {
        assert(states[i] == h[i].new_state);
    }
    if h.len() > 0 {
        assert(states[0] == h[0].new_state);
    }
    if h.len() > 1 {
        assert(states[1] == h[1].new_state);
    }
    if h.len() > 2 {
        assert(states[2] == h[2].new_state);
    }
    if h.len() == 4 {
        assert(states[3] == h[3].new_state);
    }
}

/// Over a whole run the published events keep the lifecycle order: starting from a
/// pipeline that has published nothing, the events that its steps publish, each once the
/// store has answered and each for the run's job, are a prefix of `SUBMITTED`,
/// `VALIDATED`, `PROCESSING` with status `UNVERIFIED`, then one end event:
/// `VERIFIED`/`VERIFIED`, `FAILED`/`INVALID` or `FAILED`/`FAILED`. Each names the state
/// of the one before it as previous state, and the last is what the pipeline last
/// published.
pub proof fn lemma_run_history(
    ps: Seq<JobPipeline>,
    evs: Seq<PipelineEvent>,
    pubs: Seq<Option<LifecycleEvent>>,
)
    requires
        ps.len() == pubs.len() + 1,
        evs.len() == pubs.len(),
        ps[0].published() is None,
        forall|k: int| 0 <= k < pubs.len() ==> publish_step(ps[k], evs[k], ps[k + 1], #[trigger] pubs[k]),
    ensures
        forall|k: int| 0 <= k < pubs.len() && (#[trigger] pubs[k]) is Some ==> evs[k] is Stored,
        valid_run(published_events(pubs), ps[0].job_id),
        run_shape(published_events(pubs)),
        published_events(pubs).len() == 0 <==> ps.last().published() is None,
        published_events(pubs).len() > 0 ==> ps.last().published() == Some(published_events(pubs).last().new_state),
        ps.last().job_id == ps[0].job_id,
{
    lemma_run_valid(ps, evs, pubs);
    lemma_valid_run_shape(published_events(pubs), ps[0].job_id);
}

/// The lifecycle order: the first state published is `SUBMITTED`, then `VALIDATED`,
/// then `PROCESSING`, then `VERIFIED` or `FAILED`, and nothing follows an end state.
pub proof fn lemma_lifecycle_order(next: JobState)
    ensures
        follows(None, next) <==> next == JobState::Submitted,
        follows(Some(JobState::Submitted), next) <==> next == JobState::Validated,
        follows(Some(JobState::Validated), next) <==> next == JobState::Processing,
        follows(Some(JobState::Processing), next) <==> (next == JobState::Verified || next
            == JobState::Failed),
        !follows(Some(JobState::Verified), next),
        !follows(Some(JobState::Failed), next),
{
}

} // verus!
