use novem_core::health::{
    backend_health_url, backend_unreachable_message, compute_unreachable_message,
    health_check_summary, health_from_probe, health_response_from_fields, health_url,
    interpret_backend_health, interpret_compute_health, status_is_success, HealthResponse,
};

#[test]
fn unreachable_port_is_unhealthy_not_an_error() {
    // No answer at all maps to "not healthy".
    assert!(!health_from_probe(None));
    // And so does any non-success status.
    assert!(!health_from_probe(Some(503)));
    assert!(health_from_probe(Some(200)));
}

#[test]
fn probing_a_dead_port_reports_false_within_the_short_timeout() {
    // Nothing listens on this port; the probe must come back quickly and
    // the outcome must read as unhealthy, never as an error.
    let client = reqwest::blocking::Client::builder()
        .timeout(std::time::Duration::from_secs(2))
        .build()
        .unwrap();
    let started = std::time::Instant::now();
    let status = match client.get("http://127.0.0.1:59997/health").send() {
        Ok(resp) => Some(resp.status().as_u16()),
        Err(_) => None,
    };
    let healthy = health_from_probe(status);
    assert!(!healthy);
    assert!(started.elapsed() < std::time::Duration::from_secs(5));
}

#[test]
fn status_success_is_the_2xx_range() {
    assert!(!status_is_success(199));
    assert!(status_is_success(200));
    assert!(status_is_success(299));
    assert!(!status_is_success(300));
    assert!(!status_is_success(404));
}

#[test]
fn urls_are_exact() {
    assert_eq!(health_url(8765), "http://127.0.0.1:8765/health");
    assert_eq!(backend_health_url(), "http://localhost:8000/api/health/");
}

#[test]
fn missing_fields_get_their_defaults() {
    let r = health_response_from_fields(None, None, None, None);
    assert_eq!(r.status, "unknown");
    assert_eq!(r.service, None);
    assert_eq!(r.timestamp, None);
    assert_eq!(r.database, None);
}

#[test]
fn database_flag_is_spelled_out() {
    let r = health_response_from_fields(Some("healthy".into()), None, None, Some(true));
    assert_eq!(r.database.as_deref(), Some("connected"));
    let r = health_response_from_fields(Some("healthy".into()), None, None, Some(false));
    assert_eq!(r.database.as_deref(), Some("disconnected"));
}

#[test]
fn compute_health_reads_the_answer_fields() {
    let body = "{\"status\":\"healthy\",\"service\":\"compute\",\
                \"timestamp\":\"2024-01-01T00:00:00Z\",\"duckdb_connected\":true}";
    let r = interpret_compute_health(200, body).unwrap();
    assert_eq!(r.status, "healthy");
    assert_eq!(r.service.as_deref(), Some("compute"));
    assert_eq!(r.timestamp.as_deref(), Some("2024-01-01T00:00:00Z"));
    assert_eq!(r.database.as_deref(), Some("connected"));
}

#[test]
fn compute_health_non_success_names_the_status() {
    let err = interpret_compute_health(404, "{}").unwrap_err();
    assert_eq!(err, "Compute engine returned status: 404");
}

#[test]
fn compute_health_garbled_body_is_a_parse_error() {
    let err = interpret_compute_health(200, "<html>").unwrap_err();
    assert!(err.starts_with("Failed to parse response: "));
}

#[test]
fn backend_health_garbled_body_is_a_parse_error() {
    // Unparseable JSON is a protocol error to report, never a default.
    let err = interpret_backend_health(200, "OK").unwrap_err();
    assert!(err.starts_with("Failed to parse response: "));
}

#[test]
fn backend_health_reads_the_answer_fields() {
    let body = "{\"status\":\"ok\",\"service\":\"backend\",\"database\":\"postgres\"}";
    let r = interpret_backend_health(200, body).unwrap();
    assert_eq!(r.status, "ok");
    assert_eq!(r.service.as_deref(), Some("backend"));
    assert_eq!(r.database.as_deref(), Some("postgres"));
}

#[test]
fn backend_health_non_success_names_the_status() {
    let err = interpret_backend_health(500, "").unwrap_err();
    assert_eq!(err, "Backend returned status: 500");
}

#[test]
fn summary_is_healthy_or_the_failure_itself() {
    let ok = HealthResponse {
        status: "healthy".to_string(),
        service: None,
        timestamp: None,
        database: None,
    };
    assert_eq!(health_check_summary(Ok(ok)).unwrap(), "Healthy");
    assert_eq!(
        health_check_summary(Err("down".to_string())).unwrap_err(),
        "down"
    );
}

#[test]
fn unreachable_messages_are_exact() {
    assert_eq!(
        compute_unreachable_message("connection refused"),
        "Compute engine unreachable: connection refused"
    );
    assert_eq!(
        backend_unreachable_message("timed out"),
        "Backend unreachable: timed out"
    );
}
