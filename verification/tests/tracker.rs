use std::path::PathBuf;

use symphony_rust::config::{
    AgentConfig, CodexConfig, HooksConfig, PollingConfig, ServerConfig, ServiceConfig,
    TrackerConfig, WorkspaceConfig,
};
use symphony_rust::json::Json;
use symphony_rust::keyed::StringMap;
use symphony_rust::model::Timestamp;
use symphony_rust::tracker::{
    accept_payload, accept_status, fetch_candidate_issues, fetch_issue_states_by_ids,
    fetch_issues_by_states, graphql_request, issue_states, linear_graphql_tool, normalize_issue,
    normalize_timed_issue, sample_ids, validate_single_graphql_operation, TrackerError, CANDIDATE_ISSUES_QUERY,
    ISSUE_STATES_QUERY,
};

fn json(text: &str) -> Json {
    Json::parse(text).unwrap()
}

fn config() -> ServiceConfig {
    ServiceConfig {
        workflow_path: PathBuf::from("WORKFLOW.md"),
        workflow_dir: PathBuf::from("."),
        workflow_modified: None,
        prompt_template: String::new(),
        tracker: TrackerConfig {
            kind: Some("linear".to_string()),
            endpoint: "http://example.test".to_string(),
            api_key: Some("token".to_string()),
            project_slug: Some("project".to_string()),
            active_states: vec!["Todo".to_string()],
            terminal_states: vec!["Done".to_string()],
        },
        polling: PollingConfig { interval_ms: 30_000 },
        workspace: WorkspaceConfig { root: PathBuf::from("/tmp/symphony") },
        hooks: HooksConfig::default(),
        agent: AgentConfig {
            max_concurrent_agents: 1,
            max_turns: 20,
            max_retry_backoff_ms: 300_000,
            max_concurrent_agents_by_state: StringMap::new(),
        },
        codex: CodexConfig {
            command: "codex app-server".to_string(),
            approval_policy: None,
            thread_sandbox: None,
            turn_sandbox_policy: None,
            turn_timeout_ms: 1_000,
            read_timeout_ms: 1_000,
            stall_timeout_ms: 300_000,
        },
        server: ServerConfig::default(),
    }
}

#[test]
fn normalizes_issue_payload() {
    let node = json(
        r#"{
            "id": "id",
            "identifier": "ABC-1",
            "title": "Fix",
            "description": null,
            "priority": 1,
            "branchName": "abc-1",
            "url": "https://linear.app/x/issue/ABC-1",
            "createdAt": "2026-01-01T00:00:00Z",
            "updatedAt": "2026-01-02T00:00:00Z",
            "state": { "name": "Todo" },
            "labels": { "nodes": [{ "name": "Bug" }] },
            "inverseRelations": { "nodes": [{ "type": "blocks", "issue": { "id": "b", "identifier": "ABC-0", "state": { "name": "Todo" } } }] }
        }"#,
    );

    let issue = normalize_issue(&node).unwrap();

    assert_eq!(issue.labels, vec!["bug"]);
    assert_eq!(issue.blocked_by[0].identifier.as_deref(), Some("ABC-0"));
    assert_eq!(issue.description, None);
    assert_eq!(issue.priority, Some(1));
    assert_eq!(issue.branch_name.as_deref(), Some("abc-1"));
    assert_eq!(issue.created_at, Some(Timestamp { seconds: 1_767_225_600, nanos: 0 }));
    assert_eq!(issue.updated_at, Some(Timestamp { seconds: 1_767_312_000, nanos: 0 }));
}

#[test]
fn rejects_multiple_graphql_operations() {
    assert!(validate_single_graphql_operation("query A { viewer { id } } mutation B { x }").is_err());
}

#[test]
fn operations_are_whole_words() {
    assert!(validate_single_graphql_operation("query A { queryB mutations }").is_ok());
    assert!(validate_single_graphql_operation("{ viewer { id } }").is_ok());
    let e = validate_single_graphql_operation("query1 subscription2").unwrap_err();
    assert_eq!(
        e.to_text(),
        "linear_unknown_payload reason=linear_graphql accepts exactly one operation"
    );
    let e = validate_single_graphql_operation(" \n").unwrap_err();
    assert_eq!(e.to_text(), "linear_unknown_payload reason=empty GraphQL query");
}

#[test]
fn issues_without_required_parts_are_none() {
    assert!(normalize_issue(&json(r#"{"id":"a","identifier":"b","title":"c"}"#)).is_none());
    let issue = normalize_issue(&json(
        r#"{"id":"a","identifier":"b","title":"c","state":{"name":"S"},"createdAt":"soon","labels":{"nodes":[{},{"name":"ÄB"}]}}"#,
    ))
    .unwrap();
    assert_eq!(issue.created_at, None);
    assert_eq!(issue.labels, vec!["äb"]);
}

#[test]
fn only_blocking_relations_count() {
    let issue = normalize_issue(&json(
        r#"{"id":"a","identifier":"b","title":"c","state":{"name":"S"},"inverseRelations":{"nodes":[
            {"type":"BLOCKS","relatedIssue":{"identifier":"X"}},
            {"type":"related","issue":{"identifier":"Y"}},
            {"type":"blocks","issue":null,"relatedIssue":{"identifier":"Z"}},
            {"type":"blocks"},
            {"type":"blockſ","issue":{"identifier":"W"}}
        ]}}"#,
    ))
    .unwrap();
    assert_eq!(issue.blocked_by.len(), 2);
    assert_eq!(issue.blocked_by[0].identifier.as_deref(), Some("X"));
    assert_eq!(issue.blocked_by[1].identifier, None);
}

#[test]
fn times_are_taken_to_utc() {
    let issue = normalize_issue(&json(
        r#"{"id":"a","identifier":"b","title":"c","state":{"name":"S"},"createdAt":"2026-01-01T01:00:00.25+01:00"}"#,
    ))
    .unwrap();
    assert_eq!(issue.created_at, Some(Timestamp { seconds: 1_767_225_600, nanos: 250_000_000 }));
}

#[test]
fn requests_need_a_tracker_and_a_key() {
    let request = graphql_request(&config(), "q", json(r#"{"a":1}"#)).unwrap();
    assert_eq!(request.endpoint, "http://example.test");
    assert_eq!(request.api_key, "token");
    assert_eq!(request.body.to_text(), r#"{"query":"q","variables":{"a":1}}"#);

    let mut other = config();
    other.tracker.api_key = Some(" ".to_string());
    assert_eq!(
        graphql_request(&other, "q", Json::object()).unwrap_err().to_text(),
        "missing_tracker_api_key"
    );
    other.tracker.kind = Some("jira".to_string());
    assert_eq!(
        graphql_request(&other, "q", Json::object()).unwrap_err().to_text(),
        "unsupported_tracker_kind kind=jira"
    );
    other.tracker.kind = None;
    assert_eq!(
        graphql_request(&other, "q", Json::object()).unwrap_err().to_text(),
        "unsupported_tracker_kind kind="
    );
}

#[test]
fn replies_are_accepted_or_refused() {
    assert!(accept_status(200, String::new()).is_ok());
    assert!(accept_status(299, String::new()).is_ok());
    assert_eq!(
        accept_status(404, "404 Not Found".to_string()).unwrap_err().to_text(),
        "linear_api_status status=404 Not Found"
    );
    assert!(accept_status(300, String::new()).is_err());
    assert_eq!(accept_payload(Ok(json(r#"{"data":1}"#))).unwrap().to_text(), r#"{"data":1}"#);
    assert_eq!(
        accept_payload(Ok(json(r#"{"errors":[{"b":1,"a":2}]}"#))).unwrap_err().to_text(),
        r#"linear_graphql_errors errors=[{"a":2,"b":1}]"#
    );
    assert_eq!(
        accept_payload(Err("down".to_string())).unwrap_err().to_text(),
        "linear_api_request reason=down"
    );
}

#[test]
fn pages_are_put_together() {
    let mut fetch = fetch_candidate_issues(&config()).unwrap();
    let first = fetch.request(&config()).unwrap();
    assert_eq!(
        first.body.at("variables", "after").unwrap().to_text(),
        "null"
    );
    assert_eq!(
        first.body.get("variables").unwrap().to_text(),
        r#"{"after":null,"first":50,"projectSlug":"project","stateNames":["Todo"]}"#
    );
    assert_eq!(first.body.text_at("query").as_deref(), Some(CANDIDATE_ISSUES_QUERY));
    let node = |id: &str| {
        format!(r#"{{"id":"{id}","identifier":"{id}","title":"t","state":{{"name":"Todo"}}}}"#)
    };
    let page = |nodes: String, info: &str| {
        json(&format!(r#"{{"data":{{"issues":{{"nodes":[{nodes}],"pageInfo":{info}}}}}}}"#))
    };
    let more = page(format!("{},{{}}", node("a")), r#"{"hasNextPage":true,"endCursor":"C"}"#);
    assert!(fetch.absorb(&more).unwrap());
    let second = fetch.request(&config()).unwrap();
    assert_eq!(second.body.at("variables", "after").unwrap().to_text(), "\"C\"");
    let and_more =
        page(format!("{},{}", node("b"), node("c")), r#"{"hasNextPage":true,"endCursor":"D"}"#);
    assert!(fetch.absorb(&and_more).unwrap());
    let third = fetch.request(&config()).unwrap();
    assert_eq!(third.body.at("variables", "after").unwrap().to_text(), "\"D\"");
    assert!(!fetch.absorb(&page(node("d"), "{}")).unwrap());
    let ids: Vec<String> = fetch.into_issues().into_iter().map(|i| i.id).collect();
    assert_eq!(ids, vec!["a", "b", "c", "d"]);
}

#[test]
fn broken_pages_are_refused() {
    let refused = |text: &str| {
        let mut fetch = fetch_issues_by_states(&vec!["X".to_string()], &config()).unwrap();
        fetch.absorb(&json(text)).unwrap_err().to_text()
    };
    assert_eq!(refused("{}"), "linear_unknown_payload reason=missing data.issues");
    assert_eq!(
        refused(r#"{"data":{"issues":{}}}"#),
        "linear_unknown_payload reason=missing issues.nodes"
    );
    assert_eq!(
        refused(r#"{"data":{"issues":{"nodes":[]}}}"#),
        "linear_unknown_payload reason=missing issues.pageInfo"
    );
    assert_eq!(
        refused(r#"{"data":{"issues":{"nodes":[],"pageInfo":{"hasNextPage":true}}}}"#),
        "linear_missing_end_cursor"
    );
    let mut other = config();
    other.tracker.project_slug = None;
    let e = fetch_issues_by_states(&Vec::new(), &other).unwrap_err();
    assert_eq!(e.to_text(), "missing_tracker_project_slug");
}

#[test]
fn states_are_reported_by_id() {
    assert!(fetch_issue_states_by_ids(&Vec::new(), &config()).is_none());
    let ids = vec!["a".to_string(), "b".to_string()];
    let request = fetch_issue_states_by_ids(&ids, &config()).unwrap().unwrap();
    assert_eq!(request.body.text_at("query").as_deref(), Some(ISSUE_STATES_QUERY));
    assert_eq!(request.body.get("variables").unwrap().to_text(), r#"{"first":2,"ids":["a","b"]}"#);

    let states = issue_states(&json(
        r#"{"data":{"issues":{"nodes":[{"id":"a","state":{"name":"X"}},{"id":"b"},{"id":"a","identifier":"I","state":{"name":"Y"}}]}}}"#,
    ))
    .unwrap();
    assert_eq!(states.len(), 1);
    assert_eq!(states.get("a").unwrap().state, "Y");
    assert_eq!(states.get("a").unwrap().identifier.as_deref(), Some("I"));
    assert_eq!(
        issue_states(&json("{}")).unwrap_err().to_text(),
        "linear_unknown_payload reason=missing data.issues.nodes"
    );
}

#[test]
fn the_tool_checks_the_query_first() {
    let mut other = config();
    other.tracker.api_key = None;
    assert!(matches!(
        linear_graphql_tool(&other, "", None),
        Err(TrackerError::LinearUnknownPayload(_))
    ));
    assert!(matches!(linear_graphql_tool(&other, "q", None), Err(TrackerError::MissingApiKey)));
    let request = linear_graphql_tool(&config(), "q", Some(json(r#"{"x":true}"#))).unwrap();
    assert_eq!(request.body.to_text(), r#"{"query":"q","variables":{"x":true}}"#);
}

#[test]
fn samples_are_the_first_few() {
    let node = json(r#"{"id":"a","identifier":"b","title":"c","state":{"name":"S"}}"#);
    let issues: Vec<_> = (0..12)
        .map(|n| {
            let mut issue = normalize_issue(&node).unwrap();
            issue.id = n.to_string();
            issue
        })
        .collect();
    let ids = sample_ids(&issues);
    assert_eq!(ids.len(), 10);
    assert_eq!(ids[9], "9");
    assert_eq!(sample_ids(&issues[..3].to_vec()).len(), 3);
}

#[test]
fn given_times_are_kept() {
    let created = Timestamp { seconds: 5, nanos: 0 };
    let node = json(
        r#"{"id":"a","identifier":"b","title":"c","state":{"name":"S"},"priority":2,"createdAt":"2026-01-01T00:00:00Z"}"#,
    );
    let issue = normalize_timed_issue(&node, Some(created), None).unwrap();
    assert_eq!(issue.created_at, Some(created));
    assert_eq!(issue.updated_at, None);
    assert_eq!(issue.priority, Some(2));
    assert!(normalize_timed_issue(&json("{}"), Some(created), None).is_none());
}
