use std::path::{Path, PathBuf};

use symphony_rust::agent::{
    completion_of, continuation_prompt, dynamic_tool_result, event_name, extract_rate_limits,
    extract_thread_id, extract_token_usage, extract_turn_id, find_number, frame,
    parse_linear_graphql_arguments, response_for, tool_reply, turn_result, write_json, AgentError,
    CodexSession, HandleOutcome, Incoming, Launch, LineEvent, Next, Reaction,
};
use symphony_rust::config::{
    AgentConfig, CodexConfig, HooksConfig, PollingConfig, ServerConfig, ServiceConfig,
    TrackerConfig, WorkspaceConfig,
};
use symphony_rust::json::Json;
use symphony_rust::keyed::StringMap;
use symphony_rust::tracker::TrackerError;
use symphony_rust::workspace::{validate_agent_cwd, WorkspaceError};

fn json(text: &str) -> Json {
    Json::parse(text).unwrap()
}

fn config() -> ServiceConfig {
    ServiceConfig {
        workflow_path: PathBuf::from("WORKFLOW.md"),
        workflow_dir: PathBuf::from("."),
        workflow_modified: None,
        prompt_template: String::new(),
        tracker: TrackerConfig {
            kind: Some("linear".to_string()),
            endpoint: "http://example.test".to_string(),
            api_key: Some("token".to_string()),
            project_slug: Some("project".to_string()),
            active_states: vec!["Todo".to_string()],
            terminal_states: vec!["Done".to_string()],
        },
        polling: PollingConfig { interval_ms: 30_000 },
        workspace: WorkspaceConfig { root: PathBuf::from("/tmp/symphony") },
        hooks: HooksConfig::default(),
        agent: AgentConfig {
            max_concurrent_agents: 1,
            max_turns: 20,
            max_retry_backoff_ms: 300_000,
            max_concurrent_agents_by_state: StringMap::new(),
        },
        codex: CodexConfig {
            command: "codex app-server".to_string(),
            approval_policy: Some(Json::text("never")),
            thread_sandbox: Some(Json::text("workspace-write")),
            turn_sandbox_policy: Some(json(r#"{"type":"workspaceWrite"}"#)),
            turn_timeout_ms: 1_000,
            read_timeout_ms: 1_000,
            stall_timeout_ms: 300_000,
        },
        server: ServerConfig::default(),
    }
}

fn session() -> CodexSession {
    CodexSession::start(
        "id".to_string(),
        "ABC-1".to_string(),
        config(),
        PathBuf::from("/tmp/symphony/ABC-1"),
    )
    .unwrap()
}

fn started() -> CodexSession {
    let mut s = session();
    s.launched(Launch::Started { pid: Some(42), stdin: true, stdout: true }).unwrap();
    s.thread_started(&json(r#"{"thread":{"id":"T"}}"#)).unwrap();
    s
}

fn react(message: &str) -> Reaction {
    started().handle_message(&json(message))
}

fn reply_text(r: &Reaction) -> String {
    r.reply.as_ref().unwrap().to_text()
}

#[test]
fn parses_linear_graphql_shorthand() {
    let (query, variables) =
        parse_linear_graphql_arguments(&Json::text("query { viewer { id } }")).unwrap();

    assert_eq!(query, "query { viewer { id } }");
    assert!(variables.is_none());
}

#[test]
fn extracts_absolute_token_usage() {
    let usage = extract_token_usage(
        "thread/tokenUsage/updated",
        &json(r#"{ "usage": { "inputTokens": 10, "outputTokens": 5, "totalTokens": 15 } }"#),
    )
    .unwrap();

    assert_eq!(usage.total_tokens, 15);
    assert!(usage.absolute);
}

#[test]
fn validates_cwd_before_launch() {
    let path = Path::new("/tmp/example");
    assert!(validate_agent_cwd(path, path).is_ok());
}

#[test]
fn tool_arguments_need_a_query_and_an_object() {
    let missing = parse_linear_graphql_arguments(&json(r#"{"query":"  "}"#)).unwrap_err();
    assert_eq!(missing, "linear_graphql requires a non-empty query string");
    let other = parse_linear_graphql_arguments(&json("7")).unwrap_err();
    assert_eq!(other, "linear_graphql requires a non-empty query string");
    let wrong =
        parse_linear_graphql_arguments(&json(r#"{"query":"q","variables":[1]}"#)).unwrap_err();
    assert_eq!(wrong, "linear_graphql variables must be a JSON object");
    let (query, variables) =
        parse_linear_graphql_arguments(&json(r#"{"query":"q","variables":{"a":1}}"#)).unwrap();
    assert_eq!(query, "q");
    assert_eq!(variables.unwrap().to_text(), r#"{"a":1}"#);
}

#[test]
fn token_usage_sums_when_no_total_is_given() {
    let usage = extract_token_usage(
        "turn/completed",
        &json(r#"{"totalTokenUsage":{"prompt_tokens":3,"completion_tokens":4}}"#),
    )
    .unwrap();
    assert_eq!(usage.input_tokens, 3);
    assert_eq!(usage.output_tokens, 4);
    assert_eq!(usage.total_tokens, 7);
    assert!(extract_token_usage("turn/completed", &json(r#"{"inputTokens":1,"outputTokens":2}"#))
        .is_none());
    assert!(extract_token_usage("thread/tokenUsage/updated", &json(r#"{"inputTokens":1}"#))
        .is_none());
}

#[test]
fn numbers_are_found_at_any_depth_and_large_ones_wrap() {
    let keys = vec!["n", "m"];
    assert_eq!(find_number(&json(r#"{"a":[{"x":1},{"m":-5}]}"#), &keys), Some(-5));
    assert_eq!(find_number(&json(r#"{"m":2,"n":1}"#), &keys), Some(1));
    assert_eq!(find_number(&json(r#"{"n":"text","a":{"n":9}}"#), &keys), Some(9));
    assert_eq!(find_number(&json(r#"{"n":18446744073709551615}"#), &keys), Some(-1));
    assert_eq!(find_number(&json(r#"{"n":1.5}"#), &keys), None);
}

#[test]
fn rate_limits_are_found_at_any_depth() {
    assert_eq!(
        extract_rate_limits(&json(r#"{"a":[{"rateLimits":{"x":1}}]}"#)).unwrap().to_text(),
        r#"{"x":1}"#
    );
    assert_eq!(
        extract_rate_limits(&json(r#"{"rateLimits":1,"rate_limits":2}"#)).unwrap().to_text(),
        "2"
    );
    assert!(extract_rate_limits(&json("[1,2]")).is_none());
}

#[test]
fn ids_come_from_the_parameters_or_what_they_hold() {
    assert_eq!(extract_thread_id(&json(r#"{"threadId":"A"}"#)).as_deref(), Some("A"));
    assert_eq!(extract_thread_id(&json(r#"{"thread":{"id":"B"}}"#)).as_deref(), Some("B"));
    assert_eq!(extract_thread_id(&json(r#"{"threadId":1,"thread":{"id":"B"}}"#)), None);
    assert_eq!(extract_turn_id(&json(r#"{"turn":{"id":"C"}}"#)).as_deref(), Some("C"));
}

#[test]
fn events_are_named_after_the_method() {
    let none = json("{}");
    assert_eq!(event_name("thread/started", &none), "session_started");
    assert_eq!(event_name("turn/started", &none), "turn_started");
    assert_eq!(event_name("thread/tokenUsage/updated", &none), "token_usage_updated");
    assert_eq!(event_name("error", &none), "turn_ended_with_error");
    assert_eq!(event_name("other", &none), "notification");
    let status = |s: &str| json(&format!(r#"{{"turn":{{"status":"{s}"}}}}"#));
    assert_eq!(event_name("turn/completed", &status("completed")), "turn_completed");
    assert_eq!(event_name("turn/completed", &status("interrupted")), "turn_cancelled");
    assert_eq!(event_name("turn/completed", &status("failed")), "turn_failed");
    assert_eq!(event_name("turn/completed", &none), "turn_ended_with_error");
}

#[test]
fn approvals_are_granted_for_the_session() {
    for method in ["item/commandExecution/requestApproval", "item/fileChange/requestApproval"] {
        let r = react(&format!(r#"{{"id":7,"method":"{method}","params":{{"x":1}}}}"#));
        assert_eq!(reply_text(&r), r#"{"id":7,"result":{"decision":"acceptForSession"}}"#);
        assert!(matches!(r.next, Next::Outcome(HandleOutcome::Nothing)));
        let update = r.update.unwrap();
        assert_eq!(update.event, "approval_auto_approved");
        assert_eq!(update.message.unwrap().to_text(), r#"{"x":1}"#);
        assert_eq!(update.codex_app_server_pid.as_deref(), Some("42"));
        assert_eq!(update.issue_id, "id");
        assert_eq!(update.issue_identifier, "ABC-1");
    }
}

#[test]
fn requests_for_input_end_the_session() {
    for method in ["item/tool/requestUserInput", "mcpServer/elicitation/request"] {
        let r = react(&format!(r#"{{"id":"a","method":"{method}"}}"#));
        assert_eq!(
            reply_text(&r),
            r#"{"error":{"code":-32000,"message":"Symphony does not provide interactive user input"},"id":"a"}"#
        );
        assert!(matches!(r.next, Next::Fail(AgentError::TurnInputRequired)));
        assert_eq!(r.update.unwrap().event, "turn_input_required");
    }
}

#[test]
fn unknown_requests_are_answered_and_the_session_goes_on() {
    let r = react(r#"{"id":1,"method":"x/y"}"#);
    assert_eq!(
        reply_text(&r),
        r#"{"error":{"code":-32601,"message":"Unsupported Symphony client request: x/y"},"id":1}"#
    );
    assert!(matches!(r.next, Next::Outcome(HandleOutcome::Nothing)));
    let update = r.update.unwrap();
    assert_eq!(update.event, "unsupported_tool_call");
    assert_eq!(update.message.unwrap().to_text(), r#"{"id":1,"method":"x/y"}"#);
}

#[test]
fn tool_calls_go_to_the_tracker_or_fail() {
    let r = react(r#"{"id":1,"method":"item/tool/call","params":{"tool":"other"}}"#);
    assert!(reply_text(&r).contains("unsupported tool: other"));
    assert!(reply_text(&r).contains(r#""success":false"#));

    let r = react(r#"{"id":1,"method":"item/tool/call","params":{"tool":"linear_graphql"}}"#);
    assert!(reply_text(&r).contains("linear_graphql requires a non-empty query string"));

    let r = react(
        r#"{"id":3,"method":"item/tool/call","params":{"tool":"linear_graphql","arguments":"query { a }"}}"#,
    );
    assert!(r.reply.is_none());
    match r.next {
        Next::AskTracker { id, query, variables } => {
            assert_eq!(query, "query { a }");
            assert!(variables.is_none());
            let request = started().ask_tracker(&query, variables).unwrap();
            assert_eq!(request.endpoint, "http://example.test");
            assert_eq!(request.api_key, "token");
            assert_eq!(request.body.to_text(), r#"{"query":"query { a }","variables":{}}"#);
            let reply = tool_reply(id, Ok(json(r#"{"data":1}"#)));
            assert_eq!(
                reply.to_text(),
                r#"{"id":3,"result":{"contentItems":[{"text":"{\n  \"data\": 1\n}","type":"inputText"}],"success":true}}"#
            );
        }
        _ => panic!("the tracker is not asked"),
    }
}

#[test]
fn errors_of_the_tracker_go_to_the_call() {
    let reply = tool_reply(json("3"), Err(TrackerError::MissingApiKey));
    assert_eq!(
        reply.to_text(),
        r#"{"id":3,"result":{"contentItems":[{"text":"{\n  \"error\": \"missing_tracker_api_key\"\n}","type":"inputText"}],"success":false}}"#
    );
}

#[test]
fn payloads_are_laid_out() {
    assert_eq!(
        dynamic_tool_result(true, &json("[1]")).to_text(),
        r#"{"contentItems":[{"text":"[\n  1\n]","type":"inputText"}],"success":true}"#
    );
}

#[test]
fn answers_are_told_apart() {
    match react(r#"{"id":2,"result":{"a":1}}"#).next {
        Next::Outcome(outcome) => {
            assert_eq!(response_for(outcome, 2).unwrap().to_text(), r#"{"a":1}"#)
        }
        _ => panic!("no response"),
    }
    match react(r#"{"id":2,"result":{"a":1}}"#).next {
        Next::Outcome(outcome) => assert!(response_for(outcome, 3).is_none()),
        _ => panic!("no response"),
    }
    match react(r#"{"id":2,"error":{"code":-1,"message":"no"},"result":1}"#).next {
        Next::Fail(e) => {
            assert_eq!(e.to_text(), "response_error method=response code=Some(-1) message=no")
        }
        _ => panic!("no failure"),
    }
    match react(r#"{"id":2,"error":{}}"#).next {
        Next::Fail(e) => assert_eq!(
            e.to_text(),
            "response_error method=response code=None message=unknown response error"
        ),
        _ => panic!("no failure"),
    }
    assert!(react("{}").update.is_none());
}

#[test]
fn notifications_become_updates() {
    let r = react(
        r#"{"method":"thread/tokenUsage/updated","params":{"inputTokens":1,"outputTokens":2,"rateLimits":5}}"#,
    );
    let update = r.update.unwrap();
    assert_eq!(update.event, "token_usage_updated");
    assert_eq!(update.thread_id.as_deref(), Some("T"));
    assert_eq!(update.turn_id, None);
    assert_eq!(update.usage.unwrap().total_tokens, 3);
    assert_eq!(update.rate_limits.unwrap().to_text(), "5");

    match react(r#"{"method":"error","params":{"message":"bad"}}"#).next {
        Next::Fail(e) => assert_eq!(e.to_text(), "turn_failed reason=bad"),
        _ => panic!("no failure"),
    }
    match react(r#"{"method":"error"}"#).next {
        Next::Fail(e) => assert_eq!(e.to_text(), "turn_failed reason=codex error notification"),
        _ => panic!("no failure"),
    }
}

#[test]
fn a_turn_ends_by_its_own_notification() {
    let message = r#"{"method":"turn/completed","params":{"turn":{"id":"U","status":"interrupted","error":{"message":"stop"}}}}"#;
    match react(message).next {
        Next::Outcome(outcome) => {
            let (status, error) = completion_of(outcome, "U").unwrap();
            assert_eq!(status, "interrupted");
            let e = turn_result("U".to_string(), &status, error).unwrap_err();
            assert_eq!(e.to_text(), "turn_cancelled reason=stop");
        }
        _ => panic!("no end"),
    }
    match react(message).next {
        Next::Outcome(outcome) => assert!(completion_of(outcome, "V").is_none()),
        _ => panic!("no end"),
    }
    assert_eq!(turn_result("U".to_string(), "completed", None).unwrap(), "U");
    let e = turn_result("U".to_string(), "interrupted", None).unwrap_err();
    assert_eq!(e.to_text(), "turn_cancelled reason=turn interrupted");
    let e = turn_result("U".to_string(), "odd", None).unwrap_err();
    assert_eq!(e.to_text(), "turn_failed reason=turn status odd");
}

#[test]
fn requests_are_numbered_from_one() {
    let mut s = session();
    let first = s.initialize("0.1.0");
    assert_eq!(first.id, 1);
    assert_eq!(
        first.message.to_text(),
        r#"{"id":1,"method":"initialize","params":{"capabilities":{"experimentalApi":true},"clientInfo":{"name":"symphony-rust","title":"Symphony","version":"0.1.0"}}}"#
    );
    let second = s.start_thread();
    assert_eq!(second.id, 2);
    assert_eq!(
        second.message.to_text(),
        r#"{"id":2,"method":"thread/start","params":{"approvalPolicy":"never","cwd":"/tmp/symphony/ABC-1","ephemeral":true,"sandbox":"workspace-write","serviceName":"symphony","sessionStartSource":"startup"}}"#
    );
    let update = s.thread_started(&json(r#"{"thread":{"id":"T"}}"#)).unwrap();
    assert_eq!(update.event, "session_started");
    assert_eq!(update.thread_id.as_deref(), Some("T"));
    let third = s.run_turn("go");
    assert_eq!(third.id, 3);
    assert_eq!(
        third.message.to_text(),
        r#"{"id":3,"method":"turn/start","params":{"approvalPolicy":"never","cwd":"/tmp/symphony/ABC-1","input":[{"text":"go","type":"text"}],"sandboxPolicy":{"type":"workspaceWrite"},"threadId":"T"}}"#
    );
    let (turn, update) = s.turn_started(&json(r#"{"turn":{"id":"U"}}"#)).unwrap();
    assert_eq!(turn, "U");
    assert_eq!(update.event, "turn_started");
    assert_eq!(
        s.turn_started(&json("{}")).unwrap_err().to_text(),
        "malformed reason=turn/start response missing turn.id"
    );
    assert_eq!(
        s.thread_started(&json("{}")).unwrap_err().to_text(),
        "malformed reason=thread/start response missing thread.id"
    );
}

#[test]
fn a_launch_needs_both_ends() {
    let mut s = session();
    assert_eq!(s.launch().0, "codex app-server");
    assert_eq!(s.launch().1, Path::new("/tmp/symphony/ABC-1"));
    assert_eq!(
        s.launched(Launch::Failed("gone".to_string())).unwrap_err().to_text(),
        "codex_not_found reason=gone"
    );
    assert_eq!(
        s.launched(Launch::Started { pid: None, stdin: false, stdout: true })
            .unwrap_err()
            .to_text(),
        "startup_failed reason=missing stdin"
    );
    assert_eq!(
        s.launched(Launch::Started { pid: None, stdin: true, stdout: false })
            .unwrap_err()
            .to_text(),
        "startup_failed reason=missing stdout"
    );
}

#[test]
fn lines_are_skipped_parsed_or_refused() {
    let s = started();
    assert!(matches!(s.read_message(LineEvent::Line(" \t".to_string())), Incoming::Skip));
    match s.read_message(LineEvent::Line(r#"{"b":1,"a":2}"#.to_string())) {
        Incoming::Message(m) => assert_eq!(m.to_text(), r#"{"a":2,"b":1}"#),
        _ => panic!("no message"),
    }
    match s.read_message(LineEvent::Line("{".to_string())) {
        Incoming::Broken { update, error } => {
            let reason = Json::parse("{").unwrap_err();
            assert_eq!(error.to_text(), format!("malformed reason={reason}"));
            let update = update.unwrap();
            assert_eq!(update.event, "malformed");
            let message = update.message.unwrap();
            assert_eq!(message.text_at("line").as_deref(), Some("{"));
            assert_eq!(message.text_at("error"), Some(reason));
        }
        _ => panic!("no failure"),
    }
    match s.read_message(LineEvent::End) {
        Incoming::Broken { error, .. } => assert_eq!(error.to_text(), "port_exit"),
        _ => panic!("no failure"),
    }
    match s.read_message(LineEvent::Cancelled) {
        Incoming::Broken { error, .. } => assert_eq!(error.to_text(), "cancelled"),
        _ => panic!("no failure"),
    }
    match s.read_message(LineEvent::Failed("x".to_string())) {
        Incoming::Broken { error, .. } => assert_eq!(error.to_text(), "io reason=x"),
        _ => panic!("no failure"),
    }
}

#[test]
fn messages_are_written_as_lines() {
    assert_eq!(write_json(&json(r#"{"a": 1}"#)).unwrap(), b"{\"a\":1}\n");
    assert_eq!(frame(Err("x".to_string())).unwrap_err().to_text(), "io reason=x");
}

#[test]
fn agent_errors_have_messages() {
    let text = |e: AgentError| e.to_text();
    assert_eq!(text(AgentError::ResponseTimeout("m".to_string())), "response_timeout method=m");
    assert_eq!(text(AgentError::TurnTimeout), "turn_timeout");
    assert_eq!(text(AgentError::TurnInputRequired), "turn_input_required");
    let e = AgentError::of_workspace(&WorkspaceError::HookTimeout("before_run"));
    assert_eq!(e.to_text(), "invalid_workspace_cwd reason=hook_timeout hook=before_run");
    assert!(continuation_prompt().starts_with("Continue working on the issue."));
}
