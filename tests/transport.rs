use memora_cli::api::{
    agents_from_response, check_status, check_store_response, parse_failure, transport_failure,
    AgentsResponse, ApiErrorKind, BatchMemoryResponse, HttpMethod, Operation, CLIENT_TIMEOUT_SECS,
};

#[test]
fn urls_of_operations() {
    let base = "http://localhost:8080";
    assert_eq!(Operation::Search.url(base), "http://localhost:8080/api/search");
    assert_eq!(Operation::Think.url(base), "http://localhost:8080/api/think");
    assert_eq!(Operation::Store { background: false }.url(base), "http://localhost:8080/api/memories/batch");
    assert_eq!(Operation::Store { background: true }.url(base), "http://localhost:8080/api/memories/batch_async");
    assert_eq!(Operation::ListAgents.url(base), "http://localhost:8080/api/agents");
}

#[test]
fn methods_and_timeouts() {
    assert_eq!(Operation::ListAgents.method(), HttpMethod::Get);
    assert_eq!(Operation::Search.method(), HttpMethod::Post);
    assert_eq!(Operation::Store { background: true }.method(), HttpMethod::Post);
    assert_eq!(Operation::Search.timeout_secs(), 120);
    assert_eq!(Operation::Think.timeout_secs(), 120);
    assert_eq!(Operation::Store { background: false }.timeout_secs(), 120);
    assert_eq!(Operation::ListAgents.timeout_secs(), 30);
    assert_eq!(CLIENT_TIMEOUT_SECS, 60);
}

#[test]
fn success_status_passes_body() {
    let r = check_status("u".to_string(), "{}".to_string(), 200, "{\"results\":[]}".to_string());
    assert_eq!(r.ok().unwrap(), "{\"results\":[]}");
    assert!(check_status("u".to_string(), String::new(), 204, String::new()).is_ok());
    assert!(check_status("u".to_string(), String::new(), 299, String::new()).is_ok());
}

#[test]
fn error_status_keeps_body_exactly() {
    let body = "  {\"detail\": \"agent ünknown\"}\n".to_string();
    let e = check_status("http://h/api/search".to_string(), "{\"q\":1}".to_string(), 404, body.clone())
        .err()
        .unwrap();
    assert_eq!(e.response_body, Some(body.clone()));
    assert_eq!(e.response_status, Some(404));
    assert_eq!(e.url, "http://h/api/search");
    assert_eq!(e.request_body, "{\"q\":1}");
    assert_eq!(e.kind, ApiErrorKind::Status);
    assert_eq!(e.message, format!("API returned error status 404: {}", body));
}

#[test]
fn edge_statuses_are_errors() {
    assert!(check_status("u".to_string(), String::new(), 199, String::new()).is_err());
    assert!(check_status("u".to_string(), String::new(), 300, String::new()).is_err());
    let e = check_status("u".to_string(), String::new(), 500, String::new()).err().unwrap();
    assert_eq!(e.response_body, Some(String::new()));
    assert_eq!(e.message, "API returned error status 500: ");
}

#[test]
fn transport_and_parse_failures() {
    let t = transport_failure("u".to_string(), "b".to_string(), "connection refused".to_string());
    assert_eq!(t.kind, ApiErrorKind::Transport);
    assert_eq!(t.response_status, None);
    assert_eq!(t.response_body, None);
    assert_eq!(t.message, "connection refused");
    let p = parse_failure("u".to_string(), "b".to_string(), 200, "not json".to_string(), "expected value".to_string());
    assert_eq!(p.kind, ApiErrorKind::Parse);
    assert_eq!(p.response_body, Some("not json".to_string()));
    assert_eq!(p.message, "Failed to parse API response. Response was: not json (expected value)");
}

#[test]
fn agent_listing_success_keeps_order() {
    let r = agents_from_response(
        "u".to_string(),
        AgentsResponse::Success { agents: vec!["beta".to_string(), "alpha".to_string()] },
    );
    let agents = r.ok().unwrap();
    let ids: Vec<String> = agents.into_iter().map(|a| a.agent_id).collect();
    assert_eq!(ids, vec!["beta".to_string(), "alpha".to_string()]);
}

#[test]
fn agent_listing_error_is_reported() {
    let e = agents_from_response("u".to_string(), AgentsResponse::Error { error: "db down".to_string() })
        .err()
        .unwrap();
    assert_eq!(e.kind, ApiErrorKind::Service);
    assert_eq!(e.message, "Failed to list agents: db down");
}

#[test]
fn store_failure_is_reported() {
    let ok = BatchMemoryResponse { success: true, stored_count: Some(2), error: None, job_id: None };
    assert_eq!(check_store_response("u".to_string(), "b".to_string(), ok).ok().unwrap().stored_count, Some(2));
    let bad = BatchMemoryResponse { success: false, stored_count: None, error: Some("quota".to_string()), job_id: None };
    let e = check_store_response("u".to_string(), "b".to_string(), bad).err().unwrap();
    assert_eq!(e.message, "Failed to store memories: quota");
    let bare = BatchMemoryResponse { success: false, stored_count: None, error: None, job_id: None };
    let e = check_store_response("u".to_string(), "b".to_string(), bare).err().unwrap();
    assert_eq!(e.message, "Failed to store memories: the service reported a failure");
}
