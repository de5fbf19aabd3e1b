//! Server configuration, and the addresses and answers of the job store's REST API.

use vstd::prelude::*;
use crate::ids::{job_id_text, uuid_text};
use crate::error::{AppError, concat_str};
use crate::job::JobRecord;

verus! {

/// The configuration variables as they were found; `None` for one that is not set.
pub struct ConfigVars {
    pub bind_addr: Option<String>,
    pub grpc_bind_addr: Option<String>,
    pub supabase_url: Option<String>,
    pub supabase_service_key: Option<String>,
    pub signing_key_hex: Option<String>,
    pub compute_bin: Option<String>,
    pub grpc_server_cert: Option<String>,
    pub grpc_server_key: Option<String>,
    pub grpc_ca_cert: Option<String>,
}

/// The server configuration.
pub struct Config {
    pub bind_addr: String,
    pub grpc_bind_addr: String,
    pub supabase_url: String,
    pub supabase_service_key: String,
    pub signing_key_hex: String,
    pub compute_path: String,
    pub grpc_server_cert: Option<String>,
    pub grpc_server_key: Option<String>,
    pub grpc_ca_cert: Option<String>,
}

/// The value of an optional variable, or the default.
pub open spec fn or_default(v: Option<String>, default: Seq<char>) -> Seq<char> {
    match v {
        Some(s) => s@,
        None => default,
    }
}

fn value_or(v: Option<String>, default: &str) -> (res: String)
    ensures
        res@ == or_default(v, default@),
{
    match v {
        Some(s) => s,
        None => String::from_str(default),
    }
}

impl Config {
    /// The configuration from its variables. The store URL, the store key and the signing
    /// key are required, in that order; the addresses and the compute module's path
    /// have defaults; the TLS files are optional.
    pub fn from_vars(vars: ConfigVars) -> (res: Result<Config, AppError>)
        ensures
            vars.supabase_url is None ==> res is Err && res->Err_0 is Config
                && res->Err_0->Config_0@ == "SUPABASE_URL is required"@,
            vars.supabase_url is Some && vars.supabase_service_key is None ==> res is Err
                && res->Err_0 is Config && res->Err_0->Config_0@ == "SUPABASE_SERVICE_ROLE_KEY is required"@,
            vars.supabase_url is Some && vars.supabase_service_key is Some && vars.signing_key_hex is None
                ==> res is Err && res->Err_0 is Config && res->Err_0->Config_0@
                == "JOB_SIGNING_KEY is required"@,
            vars.supabase_url is Some && vars.supabase_service_key is Some && vars.signing_key_hex is Some
                ==> res is Ok && ({
                let c = res->Ok_0;
                &&& c.bind_addr@ == or_default(vars.bind_addr, "127.0.0.1:8080"@)
                &&& c.grpc_bind_addr@ == or_default(vars.grpc_bind_addr, "127.0.0.1:50051"@)
                &&& c.supabase_url == vars.supabase_url->0
                &&& c.supabase_service_key == vars.supabase_service_key->0
                &&& c.signing_key_hex == vars.signing_key_hex->0
                &&& c.compute_path@ == or_default(vars.compute_bin, "./compute/compute_module"@)
                &&& c.grpc_server_cert == vars.grpc_server_cert
                &&& c.grpc_server_key == vars.grpc_server_key
                &&& c.grpc_ca_cert == vars.grpc_ca_cert
            }),
    {
        let ConfigVars {
            bind_addr,
            grpc_bind_addr,
            supabase_url,
            supabase_service_key,
            signing_key_hex,
            compute_bin,
            grpc_server_cert,
            grpc_server_key,
            grpc_ca_cert,
        } = vars;
        let bind_addr = value_or(bind_addr, "127.0.0.1:8080");
        let grpc_bind_addr = value_or(grpc_bind_addr, "127.0.0.1:50051");
        let supabase_url = match supabase_url {
            Some(s) => s,
            None => {
                return Err(AppError::Config(String::from_str("SUPABASE_URL is required")));
            },
        };
        let supabase_service_key = match supabase_service_key {
            Some(s) => s,
            None => {
                return Err(AppError::Config(String::from_str("SUPABASE_SERVICE_ROLE_KEY is required")));
            },
        };
        let signing_key_hex = match signing_key_hex {
            Some(s) => s,
            None => {
                return Err(AppError::Config(String::from_str("JOB_SIGNING_KEY is required")));
            },
        };
        let compute_path = value_or(compute_bin, "./compute/compute_module");
        Ok(Config {
            bind_addr,
            grpc_bind_addr,
            supabase_url,
            supabase_service_key,
            signing_key_hex,
            compute_path,
            grpc_server_cert,
            grpc_server_key,
            grpc_ca_cert,
        })
    }
}

/// `s` without its trailing `/` characters.
pub open spec fn trim_trailing_slashes(s: Seq<char>) -> Seq<char>
    decreases s.len(),
{
    if s.len() > 0 && s.last() == '/' {
        trim_trailing_slashes(s.drop_last())
    } else {
        s
    }
}

/// The REST base address of the job store: the store URL without trailing `/`,
/// followed by `/rest/v1`.
pub fn rest_base_url(supabase_url: &str) -> (res: String)
    ensures
        res@ == trim_trailing_slashes(supabase_url@) + "/rest/v1"@,
{
    let mut end = supabase_url.unicode_len();
    let mut trimming = true;
    assert(supabase_url@.take(end as int) =~= supabase_url@);
    while trimming && end > 0
        invariant
            end <= supabase_url@.len(),
            trim_trailing_slashes(supabase_url@) == trim_trailing_slashes(supabase_url@.take(end as int)),
            !trimming ==> trim_trailing_slashes(supabase_url@) == supabase_url@.take(end as int),
        decreases (if trimming { end as int + 1 } else { 0 }),
    {
        if supabase_url.get_char(end - 1) == '/' {
            assert(supabase_url@.take(end as int).drop_last() =~= supabase_url@.take(end - 1));
            end = end - 1;
        } else {
            trimming = false;
        }
    }
    assert(supabase_url@.take(0) =~= Seq::<char>::empty());
    let base = supabase_url.substring_char(0, end);
    assert(base@ =~= supabase_url@.take(end as int));
    concat_str(base, "/rest/v1")
}

/// The address for inserting jobs.
pub fn jobs_url(base: &str) -> (res: String)
    ensures
        res@ == base@ + "/jobs"@,
{
    concat_str(base, "/jobs")
}

/// The address of one job's row.
pub fn job_row_url(base: &str, job_id: u128) -> (res: String)
    ensures
        res@ == base@ + "/jobs?id=eq."@ + uuid_text(job_id),
{
    let mut out = concat_str(base, "/jobs?id=eq.");
    out.append(job_id_text(job_id).as_str());
    out
}

/// The address for listing all jobs, newest first.
pub fn job_list_url(base: &str) -> (res: String)
    ensures
        res@ == base@ + "/jobs?select=*&order=created_at.desc"@,
{
    concat_str(base, "/jobs?select=*&order=created_at.desc")
}

/// The address for reading one job.
pub fn job_select_url(base: &str, job_id: u128) -> (res: String)
    ensures
        res@ == base@ + "/jobs?id=eq."@ + uuid_text(job_id) + "&select=*"@,
{
    let mut out = job_row_url(base, job_id);
    out.append("&select=*");
    out
}

/// The authorization header value for the store's service key.
pub fn bearer_token(service_key: &str) -> (res: String)
    ensures
        res@ == "Bearer "@ + service_key@,
{
    concat_str("Bearer ", service_key)
}

/// The first record of a store answer; an answer without one is a store error.
pub fn first_job(jobs: Vec<JobRecord>) -> (res: Result<JobRecord, AppError>)
    ensures
        jobs@.len() > 0 ==> res == Ok::<JobRecord, AppError>(jobs@[0]),
        jobs@.len() == 0 ==> res is Err && res->Err_0 is Supabase && res->Err_0->Supabase_0@
            == "missing job response"@,
{
    let mut jobs = jobs;
    if jobs.len() == 0 {
        Err(AppError::Supabase(String::from_str("missing job response")))
    } else {
        Ok(jobs.remove(0))
    }
}

/// The first record of a store answer, if there is one.
pub fn first_job_if_any(jobs: Vec<JobRecord>) -> (res: Option<JobRecord>)
    ensures
        jobs@.len() > 0 ==> res == Some(jobs@[0]),
        jobs@.len() == 0 ==> res is None,
{
    let mut jobs = jobs;
    if jobs.len() == 0 {
        None
    } else {
        Some(jobs.remove(0))
    }
}

/// The store error for an answer with an unsuccessful HTTP status.
pub fn store_status_error(status: &str, body: &str) -> (res: AppError)
    ensures
        res is Supabase && res->Supabase_0@ == "supabase status "@ + status@ + ": "@ + body@,
{
    let mut out = concat_str("supabase status ", status);
    out.append(": ");
    out.append(body);
    AppError::Supabase(out)
}

/// Trimming keeps the text up to its last character that is not `/`: the trimmed text
/// is a prefix of `s`, does not end with `/`, and only `/` follows it in `s`.
pub proof fn lemma_trim_trailing_slashes(s: Seq<char>)
    ensures
        trim_trailing_slashes(s).len() <= s.len(),
        s.take(trim_trailing_slashes(s).len() as int) == trim_trailing_slashes(s),
        trim_trailing_slashes(s).len() == 0 || trim_trailing_slashes(s).last() != '/',
        forall|i: int| trim_trailing_slashes(s).len() <= i < s.len() ==> #[trigger] s[i] == '/',
    decreases s.len(),
{
    if s.len() > 0 && s.last() == '/' {
        let d = s.drop_last();
        lemma_trim_trailing_slashes(d);
        let t = trim_trailing_slashes(d);
        assert(s.take(t.len() as int) =~= d.take(t.len() as int));
        assert forall|i: int| t.len() <= i < s.len() implies #[trigger] s[i] == '/' by {
            if i < d.len() {
                assert(d[i] == s[i]);
            }
        }
    } else {
        assert(s.take(s.len() as int) =~= s);
    }
}

} // verus!
