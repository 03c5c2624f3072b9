use memora_cli::api::{Agent, Fact, SearchResponse, ThinkResponse, TraceInfo};
use memora_cli::render::{
    agents_lines, fact_kind, fact_lines, id_column_width_of, preview, search_lines, section_header,
    stored_lines, think_lines, trace_lines, FactKind, Line, Tone,
};

fn texts(lines: &[Line]) -> Vec<String> {
    lines.iter().map(|l| l.text.clone()).collect()
}

fn agents(ids: &[&str]) -> Vec<Agent> {
    ids.iter().map(|s| Agent { agent_id: s.to_string() }).collect()
}

fn fact(text: &str, tag: Option<&str>) -> Fact {
    Fact {
        id: None,
        text: text.to_string(),
        fact_type: tag.map(|t| t.to_string()),
        activation: None,
        context: None,
        event_date: None,
    }
}

#[test]
fn agents_table_width_is_longest_id() {
    let a = agents(&["alpha", "beta-long-name"]);
    assert_eq!(id_column_width_of(&a), 14);
    let t = texts(&agents_lines(&a));
    assert_eq!(t[1], "━━━ Agents (2) ━━━");
    assert_eq!(t[3], format!("  ┌{}┐", "─".repeat(16)));
    assert_eq!(t[4], "  │ Agent ID       │");
    assert_eq!(t[6], "  │ alpha          │");
    assert_eq!(t[7], "  │ beta-long-name │");
    assert_eq!(t[6].chars().count(), t[7].chars().count());
    assert_eq!(t[8], format!("  └{}┘", "─".repeat(16)));
    assert_eq!(t.len(), 10);
}

#[test]
fn agents_table_width_at_least_eight() {
    let a = agents(&["a", "bb"]);
    assert_eq!(id_column_width_of(&a), 8);
    let t = texts(&agents_lines(&a));
    assert_eq!(t[6], "  │ a        │");
    assert_eq!(t[7], "  │ bb       │");
}

#[test]
fn no_agents() {
    let t = texts(&agents_lines(&Vec::new()));
    assert_eq!(t, vec!["".to_string(), "━━━ Agents (0) ━━━".to_string(), "".to_string(), "  No agents found.".to_string()]);
}

#[test]
fn think_output_counts_facts_without_listing_them() {
    let r = ThinkResponse {
        text: "Paris.".to_string(),
        based_on: vec![fact("the capital is Paris", Some("world")), fact("likes travel", Some("agent"))],
        new_opinions: vec!["Paris is lovely".to_string()],
    };
    let lines = think_lines(&r);
    let t = texts(&lines);
    assert!(t.iter().all(|l| !l.contains("the capital is Paris") && !l.contains("likes travel")));
    assert!(t.contains(&"  (Based on 2 facts - use -o json to see details)".to_string()));
    assert!(t.contains(&"━━━ New opinions formed (1) ━━━".to_string()));
    assert!(t.contains(&"  💭 Paris is lovely".to_string()));
    assert_eq!(lines[3].tone, Tone::Answer);
    assert_eq!(t[3], "Paris.");
}

#[test]
fn think_output_without_facts_or_opinions() {
    let r = ThinkResponse { text: "No idea.".to_string(), based_on: vec![], new_opinions: vec![] };
    let t = texts(&think_lines(&r));
    assert_eq!(t, vec!["", "━━━ Answer ━━━", "", "No idea.", ""]);
}

#[test]
fn fact_lines_show_kind_and_details() {
    let mut f = fact("sky is blue", Some("world"));
    f.activation = Some("0.87".to_string());
    f.context = Some("chat".to_string());
    f.event_date = Some("2024-01-02".to_string());
    let lines = fact_lines(&f, true);
    let t = texts(&lines);
    assert_eq!(t, vec!["🌍 [WORLD] (0.87)", "  sky is blue", "  Context: chat", "  Date: 2024-01-02", ""]);
    assert_eq!(lines[0].tone, Tone::Record(FactKind::World));
    let t = texts(&fact_lines(&f, false));
    assert_eq!(t[0], "🌍 [WORLD]");
}

#[test]
fn unknown_fact_kinds() {
    assert_eq!(fact_kind("opinion"), FactKind::Opinion);
    assert_eq!(fact_kind("agent"), FactKind::Agent);
    assert_eq!(fact_kind("World"), FactKind::Unknown);
    let t = texts(&fact_lines(&fact("x", None), true));
    assert_eq!(t[0], "📝 [UNKNOWN]");
    let t = texts(&fact_lines(&fact("x", Some("experience")), true));
    assert_eq!(t[0], "📝 [EXPERIENCE]");
}

#[test]
fn search_results_are_numbered_in_order() {
    let r = SearchResponse {
        results: vec![fact("first", Some("agent")), fact("second", Some("opinion"))],
        trace: Some(TraceInfo { total_time: Some("12.50".to_string()), activation_count: Some(-3) }),
    };
    let t = texts(&search_lines(&r, true));
    assert_eq!(t[1], "━━━ Search Results (2) ━━━");
    assert_eq!(t[3], "  Result #1");
    assert_eq!(t[4], "🤖 [AGENT]");
    assert_eq!(t[5], "  first");
    assert_eq!(t[7], "  Result #2");
    assert_eq!(t[8], "💭 [OPINION]");
    assert!(t.contains(&"  ⏱️  Total time: 12.50ms".to_string()));
    assert!(t.contains(&"  📊 Activation count: -3".to_string()));
    let without = texts(&search_lines(&r, false));
    assert!(!without.iter().any(|l| l.contains("Trace Information")));
}

#[test]
fn empty_search() {
    let r = SearchResponse { results: vec![], trace: None };
    let t = texts(&search_lines(&r, true));
    assert_eq!(t, vec!["", "━━━ Search Results (0) ━━━", "", "  No results found."]);
}

#[test]
fn trace_and_header() {
    let t = texts(&trace_lines(&TraceInfo { total_time: None, activation_count: Some(42) }));
    assert_eq!(t, vec!["", "━━━ Trace Information ━━━", "", "  📊 Activation count: 42", ""]);
    assert_eq!(texts(&section_header("X")), vec!["", "━━━ X ━━━", ""]);
}

#[test]
fn preview_cuts_by_characters() {
    let short = "a".repeat(60);
    assert_eq!(preview(&short), short);
    let long = "b".repeat(61);
    assert_eq!(preview(&long), format!("{}...", "b".repeat(57)));
    let wide = "é".repeat(70);
    assert_eq!(preview(&wide), format!("{}...", "é".repeat(57)));
    assert_eq!(preview(""), "");
}

#[test]
fn stored_report() {
    let t = texts(&stored_lines("doc1", "hello", false));
    assert_eq!(t, vec!["✓ Stored successfully", "  Document ID: doc1", "  Content: hello", ""]);
    let t = texts(&stored_lines("doc1", "hello", true));
    assert_eq!(t[0], "⏳ Queued for background processing");
}

#[test]
fn think_count_line_appears_once() {
    let r = ThinkResponse {
        text: "Yes.".to_string(),
        based_on: vec![fact("a", None), fact("b", None), fact("c", None)],
        new_opinions: vec!["  (Based on".to_string()],
    };
    let t = texts(&think_lines(&r));
    let line = "  (Based on 3 facts - use -o json to see details)".to_string();
    assert_eq!(t.iter().filter(|l| **l == line).count(), 1);
    assert_eq!(t[5], line);
    let none = ThinkResponse { text: "Yes.".to_string(), based_on: vec![], new_opinions: vec![] };
    assert!(!texts(&think_lines(&none)).iter().any(|l| l.starts_with("  (Based on")));
}
