//! Health checking: the URL a probe targets, what a probe outcome means,
//! and how a health endpoint's JSON answer becomes the structured
//! response handed to the application's command surface.

use vstd::prelude::*;

use crate::json::{
    json_bool_field, json_parse_ok, json_str_field, parse_json, text_bool_field, text_str_field,
};
use crate::text::{spec_dec, u64_to_dec};

verus! {

/// What a health endpoint reported: a status string plus whatever of the
/// optional context fields the answer carried.
#[derive(Debug)]
pub struct HealthResponse {
    pub status: String,
    pub service: Option<String>,
    pub timestamp: Option<String>,
    pub database: Option<String>,
}

/// Whether an HTTP status code counts as success.
pub open spec fn spec_status_success(status: u16) -> bool {
    200 <= status < 300
}

pub fn status_is_success(status: u16) -> (r: bool)
    ensures
        r == spec_status_success(status),
{
    200 <= status && status < 300
}

/// What one readiness probe means: `None` is a transport failure — the
/// port is not listening, or the request timed out — and maps to "not
/// healthy", never to an error; an answer is healthy exactly when its
/// status is a success.
pub fn health_from_probe(status: Option<u16>) -> (healthy: bool)
    ensures
        healthy == (match status {
            Some(s) => spec_status_success(s),
            None => false,
        }),
{
    match status {
        Some(s) => status_is_success(s),
        None => false,
    }
}

/// The health endpoint of the local compute process on `port`.
pub fn health_url(port: u16) -> (r: String)
    ensures
        r@ == "http://127.0.0.1:"@ + spec_dec(port as int) + "/health"@,
{
    String::from_str("http://127.0.0.1:").concat(u64_to_dec(port as u64).as_str()).concat(
        "/health",
    )
}

/// The remote backend's health endpoint.
pub fn backend_health_url() -> (r: String)
    ensures
        r@ == "http://localhost:8000/api/health/"@,
{
    String::from_str("http://localhost:8000/api/health/")
}

/// Builds the structured health response from the fields read out of the
/// compute process's JSON answer: a missing status string becomes
/// `"unknown"`, and the database flag is spelled out as `"connected"` or
/// `"disconnected"`.
pub fn health_response_from_fields(
    status: Option<String>,
    service: Option<String>,
    timestamp: Option<String>,
    database_connected: Option<bool>,
) -> (r: HealthResponse)
    ensures
        r.status@ == (match status {
            Some(s) => s@,
            None => "unknown"@,
        }),
        r.service == service,
        r.timestamp == timestamp,
        database_connected == Some(true) ==> r.database is Some && r.database->0@
            == "connected"@,
        database_connected == Some(false) ==> r.database is Some && r.database->0@
            == "disconnected"@,
        database_connected is None ==> r.database is None,
{
    let st = match status {
        Some(s) => s,
        None => String::from_str("unknown"),
    };
    let database = match database_connected {
        Some(true) => Some(String::from_str("connected")),
        Some(false) => Some(String::from_str("disconnected")),
        None => None,
    };
    HealthResponse { status: st, service, timestamp, database }
}

/// Interprets the compute process's answer to a health request: a
/// non-success status is a protocol error naming the status, a success
/// whose body is not JSON is a parse error, and a JSON body yields the
/// structured response, its fields pinned to the body's `status`,
/// `service`, `timestamp` and `duckdb_connected` fields.
pub fn interpret_compute_health(status: u16, body: &str) -> (r: Result<HealthResponse, String>)
    ensures
        r is Ok <==> (spec_status_success(status) && json_parse_ok(body@)),
        !spec_status_success(status) ==> (r matches Err(m) && m@
            == "Compute engine returned status: "@ + spec_dec(status as int)),
        spec_status_success(status) && !json_parse_ok(body@) ==> (r matches Err(m)
            && m@.subrange(0, "Failed to parse response: "@.len() as int)
            == "Failed to parse response: "@),
        r matches Ok(h) ==> ({
            &&& h.status@ == (match json_str_field(body@, "status"@) {
                Some(s) => s,
                None => "unknown"@,
            })
            &&& (match json_str_field(body@, "service"@) {
                Some(s) => h.service is Some && h.service->0@ == s,
                None => h.service is None,
            })
            &&& (match json_str_field(body@, "timestamp"@) {
                Some(s) => h.timestamp is Some && h.timestamp->0@ == s,
                None => h.timestamp is None,
            })
            &&& (match json_bool_field(body@, "duckdb_connected"@) {
                Some(true) => h.database is Some && h.database->0@ == "connected"@,
                Some(false) => h.database is Some && h.database->0@ == "disconnected"@,
                None => h.database is None,
            })
        }),
{
    if !status_is_success(status) {
        return Err(
            String::from_str("Compute engine returned status: ").concat(
                u64_to_dec(status as u64).as_str(),
            ),
        );
    }
    match parse_json(body) {
        Ok(_) => {
            let response = health_response_from_fields(
                text_str_field(body, "status"),
                text_str_field(body, "service"),
                text_str_field(body, "timestamp"),
                text_bool_field(body, "duckdb_connected"),
            );
            Ok(response)
        },
        Err(e) => {
            let detail = crate::json::json_error_text(&e);
            let m = String::from_str("Failed to parse response: ").concat(detail.as_str());
            proof {
                assert(m@.subrange(0, "Failed to parse response: "@.len() as int)
                    =~= "Failed to parse response: "@);
            }
            Err(m)
        },
    }
}

/// Interprets the remote backend's answer to a health request: a
/// non-success status is a protocol error naming the status, a success
/// whose body is not JSON is a parse error — reported, never papered over
/// with a default — and a JSON body yields the structured response, its
/// fields pinned to the body's same-named string fields.
pub fn interpret_backend_health(status: u16, body: &str) -> (r: Result<HealthResponse, String>)
    ensures
        r is Ok <==> (spec_status_success(status) && json_parse_ok(body@)),
        !spec_status_success(status) ==> (r matches Err(m) && m@
            == "Backend returned status: "@ + spec_dec(status as int)),
        spec_status_success(status) && !json_parse_ok(body@) ==> (r matches Err(m)
            && m@.subrange(0, "Failed to parse response: "@.len() as int)
            == "Failed to parse response: "@),
        r matches Ok(h) ==> ({
            &&& h.status@ == (match json_str_field(body@, "status"@) {
                Some(s) => s,
                None => "unknown"@,
            })
            &&& (match json_str_field(body@, "service"@) {
                Some(s) => h.service is Some && h.service->0@ == s,
                None => h.service is None,
            })
            &&& (match json_str_field(body@, "timestamp"@) {
                Some(s) => h.timestamp is Some && h.timestamp->0@ == s,
                None => h.timestamp is None,
            })
            &&& (match json_str_field(body@, "database"@) {
                Some(s) => h.database is Some && h.database->0@ == s,
                None => h.database is None,
            })
        }),
{
    if !status_is_success(status) {
        return Err(
            String::from_str("Backend returned status: ").concat(u64_to_dec(status as u64).as_str()),
        );
    }
    match parse_json(body) {
        Ok(_) => {
            let response = HealthResponse {
                status: match text_str_field(body, "status") {
                    Some(s) => s,
                    None => String::from_str("unknown"),
                },
                service: text_str_field(body, "service"),
                timestamp: text_str_field(body, "timestamp"),
                database: text_str_field(body, "database"),
            };
            Ok(response)
        },
        Err(e) => {
            let detail = crate::json::json_error_text(&e);
            let m = String::from_str("Failed to parse response: ").concat(detail.as_str());
            proof {
                assert(m@.subrange(0, "Failed to parse response: "@.len() as int)
                    =~= "Failed to parse response: "@);
            }
            Err(m)
        },
    }
}

/// The one-word summary the command surface offers: any successful health
/// response reads `"Healthy"`, and a failure is passed through unchanged.
pub fn health_check_summary(r: Result<HealthResponse, String>) -> (out: Result<String, String>)
    ensures
        out is Ok <==> r is Ok,
        r is Ok ==> (out matches Ok(s) && s@ == "Healthy"@),
        r matches Err(e) ==> (out matches Err(m) && m == e),
{
    match r {
        Ok(_) => Ok(String::from_str("Healthy")),
        Err(e) => Err(e),
    }
}

/// The transport-failure report for the compute process, carrying the
/// failure's own text.
pub fn compute_unreachable_message(detail: &str) -> (r: String)
    ensures
        r@ == "Compute engine unreachable: "@ + detail@,
{
    String::from_str("Compute engine unreachable: ").concat(detail)
}

/// The transport-failure report for the remote backend.
pub fn backend_unreachable_message(detail: &str) -> (r: String)
    ensures
        r@ == "Backend unreachable: "@ + detail@,
{
    String::from_str("Backend unreachable: ").concat(detail)
}

} // verus!
