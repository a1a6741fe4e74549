//! What the server records about each call: which metrics, and under which
//! labels.

use vstd::prelude::*;

use crate::text::str_eq;

verus! {

/// Gauge that carries the server's version and zkVM.
pub const INFO: &'static str = "ere_server_info";

/// Counter of HTTP requests, by method and status.
pub const HTTP_REQUESTS_TOTAL: &'static str = "ere_server_http_requests_total";

/// Histogram of HTTP request durations, by method.
pub const HTTP_REQUEST_DURATION_SECONDS: &'static str = "ere_server_http_request_duration_seconds";

/// Gauge of HTTP requests in flight, by route.
pub const HTTP_REQUESTS_IN_FLIGHT: &'static str = "ere_server_http_requests_in_flight";

/// Counter of executions, by status.
pub const EXECUTE_TOTAL: &'static str = "ere_server_execute_total";

/// Histogram of execution durations.
pub const EXECUTE_DURATION_SECONDS: &'static str = "ere_server_execute_duration_seconds";

/// Counter of executions with cost estimation, by status.
pub const EXECUTE_ESTIMATED_COST_TOTAL: &'static str = "ere_server_execute_estimated_cost_total";

/// Histogram of the durations of executions with cost estimation.
pub const EXECUTE_ESTIMATED_COST_DURATION_SECONDS: &'static str =
    "ere_server_execute_estimated_cost_duration_seconds";

/// Counter of provings, by status.
pub const PROVE_TOTAL: &'static str = "ere_server_prove_total";

/// Histogram of proving durations.
pub const PROVE_DURATION_SECONDS: &'static str = "ere_server_prove_duration_seconds";

/// Histogram of proof sizes in bytes.
pub const PROVE_PROOF_BYTES: &'static str = "ere_server_prove_proof_bytes";

/// Counter of verifications, by status.
pub const VERIFY_TOTAL: &'static str = "ere_server_verify_total";

/// Histogram of verification durations.
pub const VERIFY_DURATION_SECONDS: &'static str = "ere_server_verify_duration_seconds";

/// What one finished call records: one increment of the counter `total`
/// under the label `status`, and its elapsed time in the histogram
/// `duration`.
#[derive(Debug, Clone, Copy)]
pub struct CallRecord {
    pub total: &'static str,
    pub duration: &'static str,
    pub status: &'static str,
}

/// The `status` label of a call's result.
pub open spec fn status_label(ok: bool) -> Seq<char> {
    if ok {
        "success"@
    } else {
        "error"@
    }
}

/// The record of a call that ended with `result`, counted in `total` and
/// timed in `duration`.
pub fn record_call<T, E>(total: &'static str, duration: &'static str, result: &Result<T, E>) -> (r:
    CallRecord)
    ensures
        r.total == total,
        r.duration == duration,
        r.status@ == status_label(result is Ok),
{
    let status = if result.is_ok() {
        "success"
    } else {
        "error"
    };
    CallRecord { total, duration, status }
}

/// The record of an execution that ended with `result`.
pub fn record_execute<T, E>(result: &Result<T, E>) -> (r: CallRecord)
    ensures
        r.total@ == EXECUTE_TOTAL@,
        r.duration@ == EXECUTE_DURATION_SECONDS@,
        r.status@ == status_label(result is Ok),
{
    record_call(EXECUTE_TOTAL, EXECUTE_DURATION_SECONDS, result)
}

/// The record of an execution with cost estimation that ended with `result`.
pub fn record_execute_estimated_cost<T, E>(result: &Result<T, E>) -> (r: CallRecord)
    ensures
        r.total@ == EXECUTE_ESTIMATED_COST_TOTAL@,
        r.duration@ == EXECUTE_ESTIMATED_COST_DURATION_SECONDS@,
        r.status@ == status_label(result is Ok),
{
    record_call(EXECUTE_ESTIMATED_COST_TOTAL, EXECUTE_ESTIMATED_COST_DURATION_SECONDS, result)
}

/// The record of a proving that ended with `result`.
pub fn record_prove<T, E>(result: &Result<T, E>) -> (r: CallRecord)
    ensures
        r.total@ == PROVE_TOTAL@,
        r.duration@ == PROVE_DURATION_SECONDS@,
        r.status@ == status_label(result is Ok),
{
    record_call(PROVE_TOTAL, PROVE_DURATION_SECONDS, result)
}

/// The record of a verification that ended with `result`.
pub fn record_verify<T, E>(result: &Result<T, E>) -> (r: CallRecord)
    ensures
        r.total@ == VERIFY_TOTAL@,
        r.duration@ == VERIFY_DURATION_SECONDS@,
        r.status@ == status_label(result is Ok),
{
    record_call(VERIFY_TOTAL, VERIFY_DURATION_SECONDS, result)
}

/// The histogram and the value that a proof of `len` bytes records.
pub fn record_prove_proof_bytes(len: usize) -> (r: (&'static str, usize))
    ensures
        r.0@ == PROVE_PROOF_BYTES@,
        r.1 == len,
{
    (PROVE_PROOF_BYTES, len)
}

/// The RPC method that a request path names, as the label of its metrics.
pub open spec fn method_of(path: Seq<char>) -> Seq<char> {
    if path == "/twirp/api.ZkvmService/Execute"@ {
        "execute"@
    } else if path == "/twirp/api.ZkvmService/ExecuteEstimatedCost"@ {
        "execute_estimated_cost"@
    } else if path == "/twirp/api.ZkvmService/Prove"@ {
        "prove"@
    } else if path == "/twirp/api.ZkvmService/Verify"@ {
        "verify"@
    } else {
        "unknown"@
    }
}

/// The RPC method that request path `path` names, or `unknown`.
pub fn path_to_method(path: &str) -> (r: &'static str)
    ensures
        r@ == method_of(path@),
{
    if str_eq(path, "/twirp/api.ZkvmService/Execute") {
        "execute"
    } else if str_eq(path, "/twirp/api.ZkvmService/ExecuteEstimatedCost") {
        "execute_estimated_cost"
    } else if str_eq(path, "/twirp/api.ZkvmService/Prove") {
        "prove"
    } else if str_eq(path, "/twirp/api.ZkvmService/Verify") {
        "verify"
    } else {
        "unknown"
    }
}

} // verus!
