//! The request executor's decisions: what a dry run records, and how a
//! transport result becomes a recorded outcome. The transport itself is
//! performed by the caller.

use vstd::prelude::*;
use vstd::string::StringExecFns;

use crate::text::same_text;
use crate::types::{method_name, HttpMethod, RequestResult};

verus! {

/// Seconds a request may take before it counts as timed out.
pub const REQUEST_TIMEOUT_SECS: u64 = 10;

/// Statuses that count as success: 2xx and 3xx.
pub open spec fn is_success_status(status: u16) -> bool {
    200 <= status < 400
}

pub fn success_status(status: u16) -> (r: bool)
    ensures
        r == is_success_status(status),
{
    200 <= status && status < 400
}

/// The range of HTTP status codes a response can carry.
pub open spec fn is_http_status(status: u16) -> bool {
    100 <= status <= 999
}

/// The error text of a request that ran out of time.
pub open spec fn timeout_text() -> Seq<char> {
    "Request timeout"@
}

/// What the transport reported for one request.
#[derive(Debug, Clone)]
pub enum TransportOutcome {
    /// A response arrived with this status, a code from 100 to 999.
    Response { status: u16, elapsed_ms: u64 },
    /// The request could not be carried out.
    Failed { description: String, elapsed_ms: u64 },
    /// No response within the timeout.
    TimedOut { elapsed_ms: u64 },
}

/// The outcome `r` records `t` for a request `method url` of `user`.
pub open spec fn records(r: RequestResult, method: HttpMethod, url: Seq<char>, user: Seq<char>, t: TransportOutcome) -> bool {
    &&& r.method@ == method_name(method)
    &&& r.url@ == url
    &&& r.user_id@ == user
    &&& match t {
        TransportOutcome::Response { status, elapsed_ms } => {
            &&& r.success == is_success_status(status)
            &&& r.status == status
            &&& r.response_time_ms == elapsed_ms
            &&& r.error is None
        },
        TransportOutcome::Failed { description, elapsed_ms } => {
            &&& !r.success
            &&& r.status == 0
            &&& r.response_time_ms == elapsed_ms
            &&& r.error matches Some(e) && e@ == description@
        },
        TransportOutcome::TimedOut { elapsed_ms } => {
            &&& !r.success
            &&& r.status == 0
            &&& r.response_time_ms == elapsed_ms
            &&& r.error matches Some(e) && e@ == timeout_text()
        },
    }
}

/// The recorded outcome of a request the transport carried out.
pub fn request_outcome(method: HttpMethod, url: &str, user_id: &str, t: TransportOutcome) -> (r: RequestResult)
    requires
        t matches TransportOutcome::Response { status, .. } ==> is_http_status(status),
    ensures
        records(r, method, url@, user_id@, t),
{
    let m = String::from_str(method.as_str());
    let u = String::from_str(url);
    let id = String::from_str(user_id);
    match t {
        TransportOutcome::Response { status, elapsed_ms } => RequestResult {
            method: m,
            url: u,
            user_id: id,
            success: success_status(status),
            response_time_ms: elapsed_ms,
            status,
            error: None,
        },
        TransportOutcome::Failed { description, elapsed_ms } => RequestResult {
            method: m,
            url: u,
            user_id: id,
            success: false,
            response_time_ms: elapsed_ms,
            status: 0,
            error: Some(description),
        },
        TransportOutcome::TimedOut { elapsed_ms } => RequestResult {
            method: m,
            url: u,
            user_id: id,
            success: false,
            response_time_ms: elapsed_ms,
            status: 0,
            error: Some(String::from_str("Request timeout")),
        },
    }
}

/// What a dry run records for a request: success with status 200 in no time.
pub open spec fn is_dry_run_outcome(r: RequestResult, method: HttpMethod, url: Seq<char>, user: Seq<char>) -> bool {
    &&& r.method@ == method_name(method)
    &&& r.url@ == url
    &&& r.user_id@ == user
    &&& r.success
    &&& r.status == 200
    &&& r.response_time_ms == 0
    &&& r.error is None
}

pub fn dry_run_outcome(method: HttpMethod, url: &str, user_id: &str) -> (r: RequestResult)
    ensures
        is_dry_run_outcome(r, method, url@, user_id@),
{
    RequestResult {
        method: String::from_str(method.as_str()),
        url: String::from_str(url),
        user_id: String::from_str(user_id),
        success: true,
        response_time_ms: 0,
        status: 200,
        error: None,
    }
}

/// A method name the executor does not know.
#[derive(Debug, Clone)]
pub struct UnsupportedMethod {
    pub name: String,
}

/// Whether `name` names one of the supported methods.
pub open spec fn is_method_name(name: Seq<char>) -> bool {
    name == "GET"@ || name == "POST"@ || name == "PUT"@ || name == "DELETE"@
}

/// The method named `name`; any other name is a configuration fault.
pub fn parse_method(name: &str) -> (r: Result<HttpMethod, UnsupportedMethod>)
    ensures
        r matches Ok(m) ==> method_name(m) == name@,
        r is Err <==> !is_method_name(name@),
        r matches Err(e) ==> e.name@ == name@,
{
    if same_text(name, "GET") {
        Ok(HttpMethod::Get)
    } else if same_text(name, "POST") {
        Ok(HttpMethod::Post)
    } else if same_text(name, "PUT") {
        Ok(HttpMethod::Put)
    } else if same_text(name, "DELETE") {
        Ok(HttpMethod::Delete)
    } else {
        Err(UnsupportedMethod { name: String::from_str(name) })
    }
}

} // verus!
