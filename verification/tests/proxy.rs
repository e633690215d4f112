use novem_core::proxy::{
    api_url, classify_response, http_error_message, method_name, parse_method, plan_proxy_request,
    sends_body, transport_error_message, HttpMethod,
};

#[test]
fn trace_is_rejected_before_any_network_work() {
    let r = plan_proxy_request("TRACE", 8765, "/api/v1/run");
    assert_eq!(r.unwrap_err(), "Invalid HTTP method: TRACE");
}

#[test]
fn methods_are_matched_without_regard_to_case() {
    assert_eq!(parse_method("get"), Some(HttpMethod::Get));
    assert_eq!(parse_method("Post"), Some(HttpMethod::Post));
    assert_eq!(parse_method("PUT"), Some(HttpMethod::Put));
    assert_eq!(parse_method("delete"), Some(HttpMethod::Delete));
    assert_eq!(parse_method("pAtCh"), Some(HttpMethod::Patch));
    assert_eq!(parse_method("TRACE"), None);
    assert_eq!(parse_method("HEAD"), None);
    assert_eq!(parse_method(""), None);
}

#[test]
fn plan_carries_method_and_exact_url() {
    let plan = plan_proxy_request("post", 8765, "/api/v1/run").unwrap();
    assert_eq!(plan.method, HttpMethod::Post);
    assert_eq!(plan.url, "http://127.0.0.1:8765/api/v1/run");
}

#[test]
fn api_url_is_exact() {
    assert_eq!(api_url(8765, "/health"), "http://127.0.0.1:8765/health");
    assert_eq!(api_url(80, ""), "http://127.0.0.1:80");
}

#[test]
fn body_accompanies_only_writing_methods() {
    assert!(sends_body(HttpMethod::Post));
    assert!(sends_body(HttpMethod::Put));
    assert!(sends_body(HttpMethod::Patch));
    assert!(!sends_body(HttpMethod::Get));
    assert!(!sends_body(HttpMethod::Delete));
}

#[test]
fn method_names_are_canonical() {
    assert_eq!(method_name(HttpMethod::Get), "GET");
    assert_eq!(method_name(HttpMethod::Delete), "DELETE");
}

#[test]
fn not_found_error_carries_status_and_body() {
    let body = "{\"detail\":\"not found\"}".to_string();
    let err = classify_response(404, Ok(body)).unwrap_err();
    assert!(err.contains("404"));
    assert!(err.contains("not found"));
    assert_eq!(err, "Request failed with status 404: {\"detail\":\"not found\"}");
}

#[test]
fn unreadable_body_reports_status_alone() {
    let err = classify_response(404, Err("read failed".to_string())).unwrap_err();
    assert_eq!(err, "Request failed with status: 404");
}

#[test]
fn successful_json_body_is_passed_through() {
    let value = classify_response(200, Ok("{\"ok\":true,\"n\":3}".to_string())).unwrap();
    let expected: serde_json::Value = serde_json::from_str("{\"ok\":true,\"n\":3}").unwrap();
    assert_eq!(value, expected);
}

#[test]
fn garbled_success_body_is_a_parse_error() {
    let err = classify_response(200, Ok("not json at all".to_string())).unwrap_err();
    assert!(err.starts_with("Failed to parse response: "));
}

#[test]
fn unreadable_success_body_is_a_parse_error_with_the_reason() {
    let err = classify_response(200, Err("connection reset".to_string())).unwrap_err();
    assert_eq!(err, "Failed to parse response: connection reset");
}

#[test]
fn error_message_builders_are_exact() {
    let body = "oops".to_string();
    assert_eq!(http_error_message(502, Some(&body)), "Request failed with status 502: oops");
    assert_eq!(http_error_message(502, None), "Request failed with status: 502");
    assert_eq!(transport_error_message("timed out"), "Request failed: timed out");
}
