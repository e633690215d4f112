//! The API proxy: validating the requested HTTP method, building the
//! target URL from the port read fresh from the supervisor, and turning
//! the response — or the failure to get one — into the value or the
//! descriptive error the command surface reports.

use vstd::prelude::*;

use crate::health::{spec_status_success, status_is_success};
use crate::json::{json_error_text, json_parse_ok, parse_json};
use crate::text::{eq_upper, spec_dec, spec_upper, u64_to_dec};

verus! {

/// The methods the proxy forwards; anything else is rejected before any
/// network call.
#[derive(PartialEq, Eq, Structural, Clone, Copy, Debug)]
pub enum HttpMethod {
    Get,
    Post,
    Put,
    Delete,
    Patch,
}

/// Which accepted method a request names, compared without regard to
/// ASCII case; `None` for everything outside the accepted set.
pub open spec fn spec_parse_method(s: Seq<char>) -> Option<HttpMethod> {
    let u = spec_upper(s);
    if u == "GET"@ {
        Some(HttpMethod::Get)
    } else if u == "POST"@ {
        Some(HttpMethod::Post)
    } else if u == "PUT"@ {
        Some(HttpMethod::Put)
    } else if u == "DELETE"@ {
        Some(HttpMethod::Delete)
    } else if u == "PATCH"@ {
        Some(HttpMethod::Patch)
    } else {
        None
    }
}

pub fn parse_method(method: &str) -> (r: Option<HttpMethod>)
    ensures
        r == spec_parse_method(method@),
{
    if eq_upper(method, "GET") {
        Some(HttpMethod::Get)
    } else if eq_upper(method, "POST") {
        Some(HttpMethod::Post)
    } else if eq_upper(method, "PUT") {
        Some(HttpMethod::Put)
    } else if eq_upper(method, "DELETE") {
        Some(HttpMethod::Delete)
    } else if eq_upper(method, "PATCH") {
        Some(HttpMethod::Patch)
    } else {
        None
    }
}

/// Whether a request of this method carries the optional JSON body:
/// it accompanies POST, PUT and PATCH, and is ignored for GET and DELETE.
pub fn sends_body(m: HttpMethod) -> (r: bool)
    ensures
        r == (m is Post || m is Put || m is Patch),
{
    match m {
        HttpMethod::Post | HttpMethod::Put | HttpMethod::Patch => true,
        HttpMethod::Get | HttpMethod::Delete => false,
    }
}

/// The method's canonical spelling, for the caller that issues the call.
pub fn method_name(m: HttpMethod) -> (r: &'static str)
    ensures
        m is Get ==> r@ == "GET"@,
        m is Post ==> r@ == "POST"@,
        m is Put ==> r@ == "PUT"@,
        m is Delete ==> r@ == "DELETE"@,
        m is Patch ==> r@ == "PATCH"@,
{
    match m {
        HttpMethod::Get => "GET",
        HttpMethod::Post => "POST",
        HttpMethod::Put => "PUT",
        HttpMethod::Delete => "DELETE",
        HttpMethod::Patch => "PATCH",
    }
}

/// The URL a proxied request targets: the local host, the port as given,
/// and the path appended verbatim.
pub fn api_url(port: u16, path: &str) -> (r: String)
    ensures
        r@ == "http://127.0.0.1:"@ + spec_dec(port as int) + path@,
{
    String::from_str("http://127.0.0.1:").concat(u64_to_dec(port as u64).as_str()).concat(path)
}

/// A validated, ready-to-issue request: the accepted method and the full
/// URL.
#[derive(Debug)]
pub struct ProxyPlan {
    pub method: HttpMethod,
    pub url: String,
}

/// Validates a proxied request before any network work: an accepted
/// method yields the plan with the exact URL; anything else fails at once
/// with an error naming the offending method, and no plan — hence no
/// network call — comes out of it.
pub fn plan_proxy_request(method: &str, port: u16, path: &str) -> (r: Result<ProxyPlan, String>)
    ensures
        r is Ok <==> spec_parse_method(method@) is Some,
        r matches Ok(plan) ==> Some(plan.method) == spec_parse_method(method@) && plan.url@
            == "http://127.0.0.1:"@ + spec_dec(port as int) + path@,
        r matches Err(m) ==> m@ == "Invalid HTTP method: "@ + method@,
{
    match parse_method(method) {
        Some(m) => Ok(ProxyPlan { method: m, url: api_url(port, path) }),
        None => Err(String::from_str("Invalid HTTP method: ").concat(method)),
    }
}

/// The protocol-error report for a non-success response: the numeric
/// status, and the response body when it could be read.
pub fn http_error_message(status: u16, body: Option<&String>) -> (r: String)
    ensures
        body matches Some(b) ==> r@ == "Request failed with status "@ + spec_dec(status as int)
            + ": "@ + b@,
        body is None ==> r@ == "Request failed with status: "@ + spec_dec(status as int),
{
    match body {
        Some(b) => String::from_str("Request failed with status ").concat(
            u64_to_dec(status as u64).as_str(),
        ).concat(": ").concat(b.as_str()),
        None => String::from_str("Request failed with status: ").concat(
            u64_to_dec(status as u64).as_str(),
        ),
    }
}

/// The transport-failure report, carrying the failure's own text.
pub fn transport_error_message(detail: &str) -> (r: String)
    ensures
        r@ == "Request failed: "@ + detail@,
{
    String::from_str("Request failed: ").concat(detail)
}

/// Classifies a response once one arrived: `status` is its HTTP status
/// and `body` its text, or the reason the text could not be read. A
/// success with a JSON body passes the parsed body through; a success
/// without one is a parse error; a non-success is a protocol error
/// carrying status and body, so that "reached but rejected" reads
/// differently from "unreachable".
pub fn classify_response(status: u16, body: Result<String, String>) -> (r: Result<
    serde_json::Value,
    String,
>)
    ensures
        (match body {
            Ok(b) => {
                if !spec_status_success(status) {
                    r matches Err(m) && m@ == "Request failed with status "@ + spec_dec(
                        status as int,
                    ) + ": "@ + b@
                } else if json_parse_ok(b@) {
                    r is Ok
                } else {
                    r matches Err(m) && m@.subrange(
                        0,
                        "Failed to parse response: "@.len() as int,
                    ) == "Failed to parse response: "@
                }
            },
            Err(reason) => {
                if !spec_status_success(status) {
                    r matches Err(m) && m@ == "Request failed with status: "@ + spec_dec(
                        status as int,
                    )
                } else {
                    r matches Err(m) && m@ == "Failed to parse response: "@ + reason@
                }
            },
        }),
{
    if !status_is_success(status) {
        let m = match body {
            Ok(b) => http_error_message(status, Some(&b)),
            Err(_) => http_error_message(status, None),
        };
        return Err(m);
    }
    match body {
        Ok(b) => match parse_json(b.as_str()) {
            Ok(value) => Ok(value),
            Err(e) => {
                let detail = json_error_text(&e);
                let m = String::from_str("Failed to parse response: ").concat(detail.as_str());
                proof {
                    assert(m@.subrange(0, "Failed to parse response: "@.len() as int)
                        =~= "Failed to parse response: "@);
                }
                Err(m)
            },
        },
        Err(reason) => Err(String::from_str("Failed to parse response: ").concat(reason.as_str())),
    }
}

} // verus!
