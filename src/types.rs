//! Data model shared by the scenario runner, the orchestrator and the
//! results aggregator.

use vstd::prelude::*;
use vstd::string::StrSliceExecFns;
use vstd::string::StringExecFns;

verus! {

/// The base URLs of the downstream services a scenario talks to.
#[derive(Debug, Clone)]
pub struct Endpoints {
    pub petlistadoptions: String,
    pub petsearch: String,
    pub payforadoption: String,
    pub petfood: String,
}

pub open spec fn default_petlistadoptions() -> Seq<char> {
    "http://localhost:8080"@
}

pub open spec fn default_petsearch() -> Seq<char> {
    "http://localhost:8081"@
}

pub open spec fn default_payforadoption() -> Seq<char> {
    "http://localhost:8082"@
}

pub open spec fn default_petfood() -> Seq<char> {
    "http://localhost:8083"@
}

/// The configured value when there is one, the default otherwise.
pub open spec fn or_default(v: Option<String>, default: Seq<char>) -> Seq<char> {
    match v {
        Some(s) => s@,
        None => default,
    }
}

fn value_or(v: Option<String>, default: &str) -> (r: String)
    ensures
        r@ == or_default(v, default@),
{
    match v {
        Some(s) => s,
        None => String::from_str(default),
    }
}

impl Endpoints {
    /// Endpoints from optionally configured URLs; each missing one falls back
    /// to its local default.
    pub fn new(
        petlistadoptions: Option<String>,
        petsearch: Option<String>,
        payforadoption: Option<String>,
        petfood: Option<String>,
    ) -> (r: Endpoints)
        ensures
            r.petlistadoptions@ == or_default(petlistadoptions, default_petlistadoptions()),
            r.petsearch@ == or_default(petsearch, default_petsearch()),
            r.payforadoption@ == or_default(payforadoption, default_payforadoption()),
            r.petfood@ == or_default(petfood, default_petfood()),
    {
        Endpoints {
            petlistadoptions: value_or(petlistadoptions, "http://localhost:8080"),
            petsearch: value_or(petsearch, "http://localhost:8081"),
            payforadoption: value_or(payforadoption, "http://localhost:8082"),
            petfood: value_or(petfood, "http://localhost:8083"),
        }
    }

    /// A field-by-field copy.
    pub fn duplicate(&self) -> (r: Endpoints)
        ensures
            r == *self,
    {
        Endpoints {
            petlistadoptions: self.petlistadoptions.clone(),
            petsearch: self.petsearch.clone(),
            payforadoption: self.payforadoption.clone(),
            petfood: self.petfood.clone(),
        }
    }

    /// True when every service URL is empty.
    pub fn is_empty(&self) -> (r: bool)
        ensures
            r == (self.petlistadoptions@.len() == 0 && self.petsearch@.len() == 0
                && self.payforadoption@.len() == 0 && self.petfood@.len() == 0),
    {
        self.petlistadoptions.as_str().unicode_len() == 0
            && self.petsearch.as_str().unicode_len() == 0
            && self.payforadoption.as_str().unicode_len() == 0
            && self.petfood.as_str().unicode_len() == 0
    }
}

/// The HTTP methods a scenario uses.
#[derive(Debug, Clone, Copy, PartialEq, Eq, Structural)]
pub enum HttpMethod {
    Get,
    Post,
    Put,
    Delete,
}

/// The method's name on the wire.
pub open spec fn method_name(m: HttpMethod) -> Seq<char> {
    match m {
        HttpMethod::Get => "GET"@,
        HttpMethod::Post => "POST"@,
        HttpMethod::Put => "PUT"@,
        HttpMethod::Delete => "DELETE"@,
    }
}

impl HttpMethod {
    pub fn as_str(&self) -> (r: &'static str)
        ensures
            r@ == method_name(*self),
    {
        match self {
            HttpMethod::Get => "GET",
            HttpMethod::Post => "POST",
            HttpMethod::Put => "PUT",
            HttpMethod::Delete => "DELETE",
        }
    }
}

/// The recorded outcome of one request.
#[derive(Debug, Clone)]
pub struct RequestResult {
    pub method: String,
    pub url: String,
    pub user_id: String,
    pub success: bool,
    /// Elapsed time in milliseconds.
    pub response_time_ms: u64,
    /// HTTP status, 0 when no response was received.
    pub status: u16,
    pub error: Option<String>,
}

impl RequestResult {
    /// A field-by-field copy.
    pub fn duplicate(&self) -> (r: RequestResult)
        ensures
            r == *self,
    {
        let error = match &self.error {
            Some(e) => Some(e.clone()),
            None => None,
        };
        RequestResult {
            method: self.method.clone(),
            url: self.url.clone(),
            user_id: self.user_id.clone(),
            success: self.success,
            response_time_ms: self.response_time_ms,
            status: self.status,
            error,
        }
    }
}

/// Every recorded request succeeded.
pub open spec fn all_succeeded(rs: Seq<RequestResult>) -> bool {
    forall|i: int| 0 <= i < rs.len() ==> #[trigger] rs[i].success
}

/// The error summary of a failed scenario.
pub open spec fn scenario_failure_text() -> Seq<char> {
    "One or more requests failed"@
}

/// The outcome of one user's scenario.
#[derive(Debug)]
pub struct UserScenarioResult {
    pub user_id: String,
    pub requests: Vec<RequestResult>,
    /// Elapsed time of the whole scenario in milliseconds.
    pub total_time_ms: u64,
    pub success: bool,
    pub error: Option<String>,
}

impl UserScenarioResult {
    /// Success is the conjunction of the outcomes' success, and the error
    /// summary is set exactly when it is false.
    pub open spec fn wf(&self) -> bool {
        &&& self.success == all_succeeded(self.requests@)
        &&& match self.error {
            None => self.success,
            Some(e) => !self.success && e@ == scenario_failure_text(),
        }
    }

    /// The result of a scenario that recorded `requests`.
    pub fn from_requests(user_id: String, requests: Vec<RequestResult>, total_time_ms: u64) -> (r:
        UserScenarioResult)
        ensures
            r.wf(),
            r.user_id == user_id,
            r.requests@ == requests@,
            r.total_time_ms == total_time_ms,
    {
        let n = requests.len();
        let mut all_ok = true;
        let mut i: usize = 0;
        while i < n
            invariant
                n == requests@.len(),
                i <= n,
                all_ok == all_succeeded(requests@.subrange(0, i as int)),
            decreases n - i,
        {
            proof {
                let before = requests@.subrange(0, i as int);
                let after = requests@.subrange(0, i as int + 1);
                assert(after =~= before.push(requests@[i as int]));
                if all_succeeded(before) && requests@[i as int].success {
                    assert forall|j: int| 0 <= j < after.len() implies #[trigger] after[j].success by {
                        if j < i {
                            assert(after[j] == before[j]);
                        }
                    }
                }
                if !requests@[i as int].success {
                    assert(!after[i as int].success);
                }
                if !all_succeeded(before) {
                    let j = choose|j: int| 0 <= j < before.len() && !(#[trigger] before[j].success);
                    assert(!after[j].success);
                }
            }
            all_ok = all_ok && requests[i].success;
            i = i + 1;
        }
        proof {
            assert(requests@.subrange(0, n as int) =~= requests@);
        }
        let error = if all_ok {
            None
        } else {
            Some(String::from_str("One or more requests failed"))
        };
        UserScenarioResult { user_id, requests, total_time_ms, success: all_ok, error }
    }
}

/// Summary statistics of a whole run. Rates are kept in tenths, the
/// precision they are reported with.
#[derive(Debug, Clone, Copy, PartialEq, Eq, Structural)]
pub struct LoadTestResults {
    pub total_requests: usize,
    pub successful_requests: usize,
    pub failed_requests: usize,
    /// Mean elapsed time of the successful requests, in milliseconds.
    pub average_response_time_ms: u64,
    pub total_test_time_ms: u64,
    /// Requests per second, times ten.
    pub requests_per_second_tenths: u64,
    /// Percentage of successful requests, times ten.
    pub success_rate_tenths: u64,
}

/// One pet as the search service lists it.
#[derive(Debug, Clone)]
pub struct Pet {
    pub petid: String,
    pub availability: Option<String>,
    pub cuteness_rate: Option<String>,
    pub petcolor: Option<String>,
    pub pettype: Option<String>,
    pub price: Option<String>,
    pub peturl: Option<String>,
}

/// The parameters of one adoption.
#[derive(Debug, Clone)]
pub struct AdoptionRequest {
    pub pet_id: String,
    pub pet_type: String,
    pub user_id: String,
}

} // verus!
