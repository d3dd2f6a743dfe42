use std::path::PathBuf;

use symphony_rust::http::{dashboard, issue_api, json_error, state_api, IssueAnswer};
use symphony_rust::json::Json;
use symphony_rust::keyed::StringMap;
use symphony_rust::model::{
    BlockerRef, CodexTotals, Issue, LiveSession, RetryEntry, RunningEntry, RuntimeState, Timestamp,
};

fn shown() -> RuntimeState {
    let issue = Issue {
        id: "a".to_string(),
        identifier: "ABC-1".to_string(),
        title: "T".to_string(),
        description: None,
        priority: None,
        state: "Todo".to_string(),
        branch_name: None,
        url: None,
        labels: Vec::new(),
        blocked_by: vec![BlockerRef {
            id: None,
            identifier: Some("ABC-0".to_string()),
            state: Some("Done".to_string()),
        }],
        created_at: None,
        updated_at: None,
    };
    let mut running = StringMap::new();
    running.insert(
        "a".to_string(),
        RunningEntry {
            issue_id: "a".to_string(),
            issue_identifier: "ABC-1".to_string(),
            issue,
            attempt: Some(2),
            workspace_path: PathBuf::from("/w/ABC-1"),
            started_at: Timestamp { seconds: 0, nanos: 0 },
            live_session: LiveSession::default(),
        },
    );
    let mut retrying = StringMap::new();
    retrying.insert(
        "b".to_string(),
        RetryEntry {
            issue_id: "b".to_string(),
            identifier: "ABC-2".to_string(),
            attempt: 3,
            due_at: Timestamp { seconds: 60, nanos: 0 },
            due_at_ms: 60_000,
            error: Some("e".to_string()),
        },
    );
    RuntimeState {
        poll_interval_ms: 1,
        max_concurrent_agents: 1,
        running,
        claimed: vec!["a".to_string(), "b".to_string()],
        retrying,
        completed: Vec::new(),
        codex_totals: CodexTotals { input_tokens: 1, output_tokens: 2, total_tokens: 3 },
        codex_rate_limits: None,
        last_error: None,
    }
}

/// The value in compact form, with its members as they stand.
fn printed(value: &Json) -> String {
    match value {
        Json::Array(items) => {
            let items: Vec<String> = items.iter().map(printed).collect();
            format!("[{}]", items.join(","))
        }
        Json::Object(members) => {
            let members: Vec<String> = members
                .iter()
                .map(|(key, value)| format!("{}:{}", Json::text(key).to_text(), printed(value)))
                .collect();
            format!("{{{}}}", members.join(","))
        }
        other => other.to_text(),
    }
}

#[test]
fn the_dashboard_counts() {
    let page = dashboard(&shown());
    assert!(page.starts_with("<!doctype html>"));
    assert!(page.contains("<div class=\"count\">1</div><div>Running</div>"));
    assert!(page.contains("<div class=\"count\">1</div><div>Retrying</div>"));
    assert!(page.contains("<div class=\"count\">3</div><div>Total Tokens</div>"));
    assert!(page.contains("main { max-width: 960px; margin: 0 auto; }"));
    assert!(page.ends_with("</html>"));
}

#[test]
fn the_state_is_shown_as_json() {
    let seconds = Json::parse("1.5").unwrap();
    let text = printed(&state_api(&shown(), "now", seconds).unwrap());
    assert_eq!(
        text,
        r#"{"generated_at":"now","counts":{"running":1,"retrying":1},"running":[{"issue_id":"a","issue_identifier":"ABC-1","issue":{"id":"a","identifier":"ABC-1","title":"T","description":null,"priority":null,"state":"Todo","branch_name":null,"url":null,"labels":[],"blocked_by":[{"id":null,"identifier":"ABC-0","state":"Done"}],"created_at":null,"updated_at":null},"attempt":2,"workspace_path":"/w/ABC-1","started_at":"1970-01-01T00:00:00Z","live_session":{"session_id":null,"thread_id":null,"turn_id":null,"codex_app_server_pid":null,"last_codex_event":null,"last_codex_timestamp":null,"last_codex_message":null,"codex_input_tokens":0,"codex_output_tokens":0,"codex_total_tokens":0,"last_reported_input_tokens":0,"last_reported_output_tokens":0,"last_reported_total_tokens":0,"turn_count":0}}],"retrying":[{"issue_id":"b","identifier":"ABC-2","attempt":3,"due_at":"1970-01-01T00:01:00Z","due_at_ms":60000,"error":"e"}],"codex_totals":{"input_tokens":1,"output_tokens":2,"total_tokens":3,"seconds_running":1.5},"rate_limits":null,"last_error":null}"#
    );
    let mut late = shown();
    let mut entry = late.retrying.remove("b").unwrap();
    entry.due_at_ms = u128::MAX;
    late.retrying.insert("b".to_string(), entry);
    assert!(state_api(&late, "now", Json::Null).is_none());
}

#[test]
fn issues_are_found_by_identifier() {
    let state = shown();
    assert!(matches!(issue_api(&state, "ABC-1"), IssueAnswer::Running(e) if e.issue_id == "a"));
    assert!(matches!(issue_api(&state, "ABC-2"), IssueAnswer::Retrying(e) if e.issue_id == "b"));
    match issue_api(&state, "a") {
        IssueAnswer::Unknown(message) => assert_eq!(message, "unknown issue identifier: a"),
        _ => panic!("something is known"),
    }
    assert_eq!(
        json_error("not_found", "m").to_text(),
        r#"{"error":{"code":"not_found","message":"m"}}"#
    );
}
