use job_orchestrator::config::{
    bearer_token, first_job, first_job_if_any, job_list_url, job_row_url, job_select_url, jobs_url, rest_base_url,
    store_status_error, Config, ConfigVars,
};
use job_orchestrator::error::{AppError, RpcCode};
use job_orchestrator::events::{watch_job_decision, BatchTally, WatchDecision};
use job_orchestrator::job::{job_or_not_found, JobRecord, JobState, VerificationStatus};
use job_orchestrator::json::JsonValue;
use job_orchestrator::pipeline::LifecycleEvent;

fn vars() -> ConfigVars {
    ConfigVars {
        bind_addr: None,
        grpc_bind_addr: None,
        supabase_url: Some("https://db.example".to_string()),
        supabase_service_key: Some("key".to_string()),
        signing_key_hex: Some("00".repeat(32)),
        compute_bin: None,
        grpc_server_cert: None,
        grpc_server_key: None,
        grpc_ca_cert: Some("ca.pem".to_string()),
    }
}

fn record(id: u128) -> JobRecord {
    JobRecord {
        id,
        job_type: "echo".to_string(),
        payload: JsonValue::Null,
        state: "SUBMITTED".to_string(),
        payload_hash: String::new(),
        backend_signature: String::new(),
        verification_status: "UNVERIFIED".to_string(),
        created_at: String::new(),
        updated_at: String::new(),
    }
}

#[test]
fn config_defaults() {
    let c = Config::from_vars(vars()).ok().unwrap();
    assert_eq!(c.bind_addr, "127.0.0.1:8080");
    assert_eq!(c.grpc_bind_addr, "127.0.0.1:50051");
    assert_eq!(c.compute_path, "./compute/compute_module");
    assert_eq!(c.supabase_url, "https://db.example");
    assert_eq!(c.grpc_ca_cert, Some("ca.pem".to_string()));
    assert_eq!(c.grpc_server_cert, None);
}

#[test]
fn config_requires_store_and_key() {
    let mut v = vars();
    v.supabase_url = None;
    assert!(matches!(Config::from_vars(v), Err(AppError::Config(m)) if m == "SUPABASE_URL is required"));
    let mut v = vars();
    v.supabase_service_key = None;
    assert!(
        matches!(Config::from_vars(v), Err(AppError::Config(m)) if m == "SUPABASE_SERVICE_ROLE_KEY is required")
    );
    let mut v = vars();
    v.signing_key_hex = None;
    assert!(matches!(Config::from_vars(v), Err(AppError::Config(m)) if m == "JOB_SIGNING_KEY is required"));
}

#[test]
fn store_addresses() {
    assert_eq!(rest_base_url("https://db.example//"), "https://db.example/rest/v1");
    assert_eq!(rest_base_url("https://db.example"), "https://db.example/rest/v1");
    assert_eq!(jobs_url("B"), "B/jobs");
    assert_eq!(job_row_url("B", 1), "B/jobs?id=eq.00000000-0000-0000-0000-000000000001");
    assert_eq!(job_list_url("B"), "B/jobs?select=*&order=created_at.desc");
    assert_eq!(job_select_url("B", 1), "B/jobs?id=eq.00000000-0000-0000-0000-000000000001&select=*");
    assert_eq!(bearer_token("k"), "Bearer k");
}

#[test]
fn store_answers() {
    assert_eq!(first_job(vec![record(1), record(2)]).ok().unwrap().id, 1);
    assert!(matches!(first_job(vec![]), Err(AppError::Supabase(m)) if m == "missing job response"));
    match store_status_error("404 Not Found", "nope") {
        AppError::Supabase(m) => assert_eq!(m, "supabase status 404 Not Found: nope"),
        _ => panic!("must be a store error"),
    }
}

#[test]
fn error_messages_and_statuses() {
    let e = AppError::BadRequest("x".to_string());
    assert_eq!(e.message(), "invalid request: x");
    assert_eq!(e.http_status(), 400);
    let st = e.into_status();
    assert_eq!(st.code, RpcCode::InvalidArgument);
    assert_eq!(st.message, "x");
    assert_eq!(AppError::NotFound("j".to_string()).http_status(), 404);
    assert_eq!(AppError::Supabase("s".to_string()).http_status(), 502);
    assert_eq!(AppError::Compute("c".to_string()).http_status(), 502);
    assert_eq!(AppError::Config("c".to_string()).http_status(), 500);
    assert_eq!(AppError::Supabase("s".to_string()).into_status().code, RpcCode::Unavailable);
    assert_eq!(AppError::Unexpected("u".to_string()).into_status().code, RpcCode::Internal);
    assert_eq!(AppError::Config("c".to_string()).message(), "configuration error: c");
}

#[test]
fn watch_forwards_only_the_watched_job_until_it_ends() {
    let ev = |id, state| LifecycleEvent {
        job_id: id,
        previous_state: None,
        new_state: state,
        verification_status: VerificationStatus::Unverified,
    };
    assert_eq!(watch_job_decision(1, &ev(2, JobState::Submitted)), WatchDecision::Skip);
    assert_eq!(watch_job_decision(1, &ev(1, JobState::Processing)), WatchDecision::Forward);
    assert_eq!(watch_job_decision(1, &ev(1, JobState::Verified)), WatchDecision::ForwardAndStop);
    assert_eq!(watch_job_decision(1, &ev(1, JobState::Failed)), WatchDecision::ForwardAndStop);
    assert_eq!(ev(1, JobState::Failed).previous_state_text(), "");
}

#[test]
fn batch_tally_counts_every_submission() {
    let mut t = BatchTally::new();
    t.record_success(1);
    t.record_failure("bad".to_string());
    t.record_success(2);
    assert_eq!(t.total, 3);
    assert_eq!(t.successful, 2);
    assert_eq!(t.failed, 1);
    assert_eq!(t.total, t.successful + t.failed);
    assert_eq!(t.job_ids[1], "00000000-0000-0000-0000-000000000002");
    assert_eq!(t.errors, vec!["bad".to_string()]);
}

#[test]
fn lookups_that_find_nothing() {
    assert!(first_job_if_any(vec![]).is_none());
    assert_eq!(first_job_if_any(vec![record(4)]).map(|r| r.id), Some(4));
    assert!(matches!(job_or_not_found(None), Err(AppError::NotFound(m)) if m == "job not found"));
    assert_eq!(job_or_not_found(Some(record(3))).ok().map(|r| r.id), Some(3));
}

#[test]
fn state_texts() {
    assert_eq!(JobState::Submitted.as_str(), "SUBMITTED");
    assert_eq!(JobState::Processing.as_str(), "PROCESSING");
    assert_eq!(VerificationStatus::Invalid.as_str(), "INVALID");
    assert!(JobState::Verified.terminal());
    assert!(!JobState::Validated.terminal());
}
