use memora_cli::api::{ApiError, ApiErrorKind, SearchRequest, ThinkRequest};
use memora_cli::commands::{
    default_fact_types, fact_types_or_default, failure_notice, is_affirmative, trimmed, import_found_notice, import_report, job_notices,
    nothing_to_import_notice, NoticeKind, DEFAULT_MAX_TOKENS, DEFAULT_SEARCH_BUDGET, DEFAULT_THINK_BUDGET,
};

#[test]
fn defaults() {
    assert_eq!(default_fact_types(), vec!["world".to_string(), "agent".to_string(), "opinion".to_string()]);
    assert_eq!(DEFAULT_SEARCH_BUDGET, 100);
    assert_eq!(DEFAULT_MAX_TOKENS, 4096);
    assert_eq!(DEFAULT_THINK_BUDGET, 50);
}

#[test]
fn request_builders() {
    let s = SearchRequest::new("bot".to_string(), "q".to_string(), vec!["world".to_string()], 7, 99, true);
    assert_eq!(s.agent_id, "bot");
    assert_eq!(s.query, "q");
    assert_eq!(s.fact_type, vec!["world".to_string()]);
    assert_eq!((s.thinking_budget, s.max_tokens, s.trace), (7, 99, true));
    let t = ThinkRequest::new("bot".to_string(), "why".to_string(), 50);
    assert_eq!((t.agent_id.as_str(), t.query.as_str(), t.thinking_budget), ("bot", "why", 50));
}

#[test]
fn import_reports() {
    let r = import_report(3, true, &Some("job-7".to_string()));
    assert_eq!(r.len(), 2);
    assert_eq!(r[0].kind, NoticeKind::Success);
    assert_eq!(r[0].text, "Queued 3 files for background processing");
    assert_eq!(r[1].text, "Job ID: job-7");
    let r = import_report(12, false, &Some("ignored".to_string()));
    assert_eq!(r.len(), 1);
    assert_eq!(r[0].text, "Successfully stored 12 memories");
    assert!(job_notices(&None).is_empty());
    assert_eq!(import_found_notice(2).text, "Found 2 files to import");
    let w = nothing_to_import_notice();
    assert_eq!(w.kind, NoticeKind::Warning);
    assert_eq!(w.text, "No .txt or .md files found");
}

#[test]
fn failure_report_is_one_line() {
    let e = ApiError {
        url: "http://h/api/think".to_string(),
        request_body: "{}".to_string(),
        response_status: Some(503),
        response_body: Some("busy".to_string()),
        kind: ApiErrorKind::Status,
        message: "API returned error status 503: busy".to_string(),
    };
    let n = failure_notice(&e);
    assert_eq!(n.kind, NoticeKind::Failure);
    assert_eq!(n.text, "API returned error status 503: busy [http://h/api/think]");
}

#[test]
fn failure_report_adds_missing_status_and_body() {
    let parse = ApiError {
        url: "u".to_string(),
        request_body: String::new(),
        response_status: Some(200),
        response_body: Some("oops".to_string()),
        kind: ApiErrorKind::Parse,
        message: "Failed to parse API response. Response was: oops (bad)".to_string(),
    };
    assert_eq!(failure_notice(&parse).text, "Failed to parse API response. Response was: oops (bad) (status 200) [u]");
    let odd = ApiError {
        url: "u".to_string(),
        request_body: String::new(),
        response_status: Some(418),
        response_body: Some("teapot".to_string()),
        kind: ApiErrorKind::Service,
        message: "refused".to_string(),
    };
    assert_eq!(failure_notice(&odd).text, "refused (status 418): teapot [u]");
    let down = ApiError {
        url: "u".to_string(),
        request_body: String::new(),
        response_status: None,
        response_body: None,
        kind: ApiErrorKind::Transport,
        message: "connection refused".to_string(),
    };
    assert_eq!(failure_notice(&down).text, "connection refused [u]");
}

#[test]
fn confirmation_answers() {
    assert!(is_affirmative("y\n"));
    assert!(is_affirmative("  YES "));
    assert!(is_affirmative("Yes"));
    assert!(!is_affirmative("no"));
    assert!(!is_affirmative(""));
    assert!(!is_affirmative("yess"));
}

#[test]
fn fact_types_default_when_none_named() {
    assert_eq!(fact_types_or_default(vec![]), vec!["world".to_string(), "agent".to_string(), "opinion".to_string()]);
    assert_eq!(fact_types_or_default(vec!["opinion".to_string()]), vec!["opinion".to_string()]);
}

#[test]
fn trimming_white_space() {
    assert_eq!(trimmed("\u{3000} yes\t\n"), "yes");
    assert_eq!(trimmed("\u{a0}a b\u{2029}"), "a b");
    assert_eq!(trimmed("   "), "");
    assert_eq!(trimmed("x"), "x");
    assert!(is_affirmative("\u{2003}Y\u{2003}"));
}
