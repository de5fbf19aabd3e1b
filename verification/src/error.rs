//! The orchestrator's error kinds, their messages, and how they surface as an HTTP
//! status or an RPC status.

use vstd::prelude::*;

verus! {

/// What can go wrong while serving a request.
pub enum AppError {
    Config(String),
    BadRequest(String),
    NotFound(String),
    Supabase(String),
    Compute(String),
    Serde(String),
    Io(String),
    Unexpected(String),
}

/// RPC status codes that the orchestrator answers with.
#[derive(PartialEq, Eq, Structural, Clone, Copy, Debug)]
pub enum RpcCode {
    InvalidArgument,
    NotFound,
    Internal,
    Unavailable,
    Unauthenticated,
}

/// An RPC status: a code and a message.
pub struct RpcStatus {
    pub code: RpcCode,
    pub message: String,
}

impl AppError {
    /// The detail text that the error carries.
    pub open spec fn detail(self) -> Seq<char> {
        match self {
            AppError::Config(m) => m@,
            AppError::BadRequest(m) => m@,
            AppError::NotFound(m) => m@,
            AppError::Supabase(m) => m@,
            AppError::Compute(m) => m@,
            AppError::Serde(m) => m@,
            AppError::Io(m) => m@,
            AppError::Unexpected(m) => m@,
        }
    }

    /// The prefix that the error's message starts with.
    pub open spec fn prefix(self) -> Seq<char> {
        match self {
            AppError::Config(_) => "configuration error: "@,
            AppError::BadRequest(_) => "invalid request: "@,
            AppError::NotFound(_) => "not found: "@,
            AppError::Supabase(_) => "supabase error: "@,
            AppError::Compute(_) => "compute error: "@,
            AppError::Serde(_) => "serialization error: "@,
            AppError::Io(_) => "io error: "@,
            AppError::Unexpected(_) => "unexpected error: "@,
        }
    }

    /// The HTTP status code of the error.
    pub open spec fn status_of(self) -> u16 {
        match self {
            AppError::BadRequest(_) => 400,
            AppError::NotFound(_) => 404,
            AppError::Supabase(_) => 502,
            AppError::Compute(_) => 502,
            _ => 500,
        }
    }

    /// The RPC code of the error.
    pub open spec fn rpc_code_of(self) -> RpcCode {
        match self {
            AppError::BadRequest(_) => RpcCode::InvalidArgument,
            AppError::NotFound(_) => RpcCode::NotFound,
            AppError::Supabase(_) => RpcCode::Unavailable,
            _ => RpcCode::Internal,
        }
    }

    /// The error's message: its kind's prefix followed by its detail.
    pub fn message(&self) -> (res: String)
        ensures
            res@ == self.prefix() + self.detail(),
    {
        let (prefix, detail) = match self {
            AppError::Config(m) => (String::from_str("configuration error: "), m),
            AppError::BadRequest(m) => (String::from_str("invalid request: "), m),
            AppError::NotFound(m) => (String::from_str("not found: "), m),
            AppError::Supabase(m) => (String::from_str("supabase error: "), m),
            AppError::Compute(m) => (String::from_str("compute error: "), m),
            AppError::Serde(m) => (String::from_str("serialization error: "), m),
            AppError::Io(m) => (String::from_str("io error: "), m),
            AppError::Unexpected(m) => (String::from_str("unexpected error: "), m),
        };
        let mut out = prefix;
        out.append(detail.as_str());
        out
    }

    /// The HTTP status that an HTTP response for the error carries.
    pub fn http_status(&self) -> (res: u16)
        ensures
            res == self.status_of(),
    {
        match self {
            AppError::BadRequest(_) => 400,
            AppError::NotFound(_) => 404,
            AppError::Config(_) => 500,
            AppError::Supabase(_) => 502,
            AppError::Compute(_) => 502,
            AppError::Serde(_) => 500,
            AppError::Io(_) => 500,
            AppError::Unexpected(_) => 500,
        }
    }

    /// The RPC status for the error: its code, with the detail as message.
    pub fn into_status(self) -> (res: RpcStatus)
        ensures
            res.code == self.rpc_code_of(),
            res.message@ == self.detail(),
    {
        match self {
            AppError::BadRequest(m) => RpcStatus { code: RpcCode::InvalidArgument, message: m },
            AppError::NotFound(m) => RpcStatus { code: RpcCode::NotFound, message: m },
            AppError::Config(m) => RpcStatus { code: RpcCode::Internal, message: m },
            AppError::Supabase(m) => RpcStatus { code: RpcCode::Unavailable, message: m },
            AppError::Compute(m) => RpcStatus { code: RpcCode::Internal, message: m },
            AppError::Serde(m) => RpcStatus { code: RpcCode::Internal, message: m },
            AppError::Io(m) => RpcStatus { code: RpcCode::Internal, message: m },
            AppError::Unexpected(m) => RpcStatus { code: RpcCode::Internal, message: m },
        }
    }
}

/// Appends `b` to a copy of `a`.
pub fn concat_str(a: &str, b: &str) -> (res: String)
    ensures
        res@ == a@ + b@,
{
    let mut out = String::from_str(a);
    out.append(b);
    out
}

/// How each kind of error surfaces: its message prefix, its HTTP status and its RPC
/// code.
pub proof fn lemma_error_surfaces(m: String)
    ensures
        AppError::Config(m).prefix() == "configuration error: "@ && AppError::Config(m).status_of() == 500
            && AppError::Config(m).rpc_code_of() == RpcCode::Internal,
        AppError::BadRequest(m).prefix() == "invalid request: "@ && AppError::BadRequest(m).status_of() == 400
            && AppError::BadRequest(m).rpc_code_of() == RpcCode::InvalidArgument,
        AppError::NotFound(m).prefix() == "not found: "@ && AppError::NotFound(m).status_of() == 404
            && AppError::NotFound(m).rpc_code_of() == RpcCode::NotFound,
        AppError::Supabase(m).prefix() == "supabase error: "@ && AppError::Supabase(m).status_of() == 502
            && AppError::Supabase(m).rpc_code_of() == RpcCode::Unavailable,
        AppError::Compute(m).prefix() == "compute error: "@ && AppError::Compute(m).status_of() == 502
            && AppError::Compute(m).rpc_code_of() == RpcCode::Internal,
        AppError::Serde(m).prefix() == "serialization error: "@ && AppError::Serde(m).status_of() == 500
            && AppError::Serde(m).rpc_code_of() == RpcCode::Internal,
        AppError::Io(m).prefix() == "io error: "@ && AppError::Io(m).status_of() == 500
            && AppError::Io(m).rpc_code_of() == RpcCode::Internal,
        AppError::Unexpected(m).prefix() == "unexpected error: "@ && AppError::Unexpected(m).status_of() == 500
            && AppError::Unexpected(m).rpc_code_of() == RpcCode::Internal,
        AppError::BadRequest(m).detail() == m@ && AppError::Unexpected(m).detail() == m@,
{
}

} // verus!
