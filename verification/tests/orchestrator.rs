use std::path::PathBuf;

use symphony_rust::agent::AgentUpdate;
use symphony_rust::config::{
    AgentConfig, CodexConfig, ConfigError, HooksConfig, PollingConfig, ServerConfig,
    ServiceConfig, TrackerConfig, WorkspaceConfig,
};
use symphony_rust::json::Json;
use symphony_rust::keyed::StringMap;
use symphony_rust::model::{BlockerRef, Issue, IssueState, Timestamp, TokenUsage};
use symphony_rust::orchestrator::{
    candidate_eligible, has_global_slot, has_state_slot, retry_delay_ms, Effect, RetryOutcome,
    SchedulerState, TerminationAction, WorkerFinished, WorkerStatus,
};
use symphony_rust::ranking::{dispatched_before, sort_candidates};
use symphony_rust::tracker::TrackerError;

fn config() -> ServiceConfig {
    ServiceConfig {
        workflow_path: PathBuf::from("WORKFLOW.md"),
        workflow_dir: PathBuf::from("."),
        workflow_modified: None,
        prompt_template: "{{ issue.title }}".to_string(),
        tracker: TrackerConfig {
            kind: Some("linear".to_string()),
            endpoint: "http://example.test".to_string(),
            api_key: Some("token".to_string()),
            project_slug: Some("project".to_string()),
            active_states: vec!["Todo".to_string(), "In Progress".to_string()],
            terminal_states: vec!["Done".to_string()],
        },
        polling: PollingConfig { interval_ms: 30_000 },
        workspace: WorkspaceConfig { root: PathBuf::from("/tmp/symphony") },
        hooks: HooksConfig { timeout_ms: 60_000, ..HooksConfig::default() },
        agent: AgentConfig {
            max_concurrent_agents: 1,
            max_turns: 20,
            max_retry_backoff_ms: 300_000,
            max_concurrent_agents_by_state: StringMap::new(),
        },
        codex: CodexConfig {
            command: "codex app-server".to_string(),
            approval_policy: None,
            thread_sandbox: None,
            turn_sandbox_policy: None,
            turn_timeout_ms: 1_000,
            read_timeout_ms: 1_000,
            stall_timeout_ms: 300_000,
        },
        server: ServerConfig::default(),
    }
}

fn roomy() -> ServiceConfig {
    let mut c = config();
    c.agent.max_concurrent_agents = 5;
    c
}

fn at(seconds: i64) -> Timestamp {
    Timestamp { seconds, nanos: 0 }
}

fn issue(id: &str, priority: Option<i64>, created: Option<Timestamp>) -> Issue {
    Issue {
        id: id.to_string(),
        identifier: id.to_string(),
        title: "Title".to_string(),
        description: None,
        priority,
        state: "Todo".to_string(),
        branch_name: None,
        url: None,
        labels: Vec::new(),
        blocked_by: Vec::new(),
        created_at: created,
        updated_at: None,
    }
}

fn plain(id: &str) -> Issue {
    issue(id, Some(1), None)
}

/// A scheduler that works on those issues since second 100.
fn working_on(ids: &[&str]) -> SchedulerState {
    let mut state = SchedulerState::default();
    for id in ids {
        let effects = state.dispatch_issue_at(plain(id), Some(4), &roomy(), &at(100));
        assert_eq!(effects.len(), 1);
    }
    state
}

fn finished(id: &str, attempt: Option<u32>, status: WorkerStatus) -> WorkerFinished {
    WorkerFinished {
        issue_id: id.to_string(),
        issue_identifier: id.to_string(),
        attempt,
        started_at: at(100),
        status,
    }
}

fn describe(effects: &[Effect]) -> Vec<String> {
    effects
        .iter()
        .map(|effect| match effect {
            Effect::CancelWorker(id) => format!("cancel {id}"),
            Effect::AbortTimer(id) => format!("abort {id}"),
            Effect::StartTimer { issue_id, delay_ms } => format!("timer {issue_id} {delay_ms}"),
            Effect::StartWorker { issue, attempt, .. } => {
                format!("worker {} {attempt:?}", issue.id)
            }
            Effect::RemoveWorkspace { identifier } => format!("remove {identifier}"),
            Effect::SessionEnded { started_at } => format!("ended {}", started_at.seconds),
        })
        .collect()
}

fn sorted(mut list: Vec<String>) -> Vec<String> {
    list.sort();
    list
}

#[test]
fn sorts_by_priority_created_identifier() {
    let now = at(1_700_000_000);
    let mut issues = vec![
        issue("B", Some(2), Some(now)),
        issue("A", Some(1), Some(now)),
        issue("C", None, None),
    ];

    sort_candidates(&mut issues);

    assert_eq!(issues[0].identifier, "A");
    assert_eq!(issues[2].identifier, "C");
}

#[test]
fn rejects_blocked_todo_issue() {
    let mut issue = issue("A", Some(1), None);
    issue.blocked_by.push(BlockerRef {
        id: Some("B".to_string()),
        identifier: Some("B".to_string()),
        state: Some("Todo".to_string()),
    });

    let state = SchedulerState::default();

    assert!(!candidate_eligible(&state, &issue, &config(), None));
}

#[test]
fn computes_backoff() {
    assert_eq!(retry_delay_ms(1, 300_000), 10_000);
    assert_eq!(retry_delay_ms(2, 300_000), 20_000);
}

#[test]
fn backoff_is_capped() {
    assert_eq!(retry_delay_ms(0, 300_000), 10_000);
    assert_eq!(retry_delay_ms(6, 300_000), 300_000);
    assert_eq!(retry_delay_ms(32, u64::MAX), 21_474_836_480_000);
    assert_eq!(retry_delay_ms(u32::MAX, u64::MAX), 21_474_836_480_000);
    assert_eq!(retry_delay_ms(9, 1), 1);
}

#[test]
fn ties_keep_their_order() {
    let early = at(10);
    let late = at(20);
    let mut first = issue("X", Some(1), Some(late));
    first.id = "first".to_string();
    let mut second = issue("X", Some(1), Some(late));
    second.id = "second".to_string();
    let mut issues = vec![first, issue("Z", Some(1), Some(early)), second, issue("W", Some(1), None)];
    sort_candidates(&mut issues);
    let ids: Vec<&str> = issues.iter().map(|i| i.id.as_str()).collect();
    assert_eq!(ids, vec!["Z", "first", "second", "W"]);
    assert!(dispatched_before(&issues[0], &issues[1]));
    assert!(!dispatched_before(&issues[1], &issues[2]));
    assert!(dispatched_before(&issue("A", None, None), &issue("B", None, None)));
}

#[test]
fn eligibility_has_many_conditions() {
    let state = SchedulerState::default();
    let check = |i: &Issue| candidate_eligible(&state, i, &config(), None);
    assert!(check(&plain("A")));
    let mut i = plain("A");
    i.title = " ".to_string();
    assert!(!check(&i));
    let mut i = plain("A");
    i.state = "Done".to_string();
    assert!(!check(&i));
    i.state = "Backlog".to_string();
    assert!(!check(&i));
    i.state = "IN PROGRESS".to_string();
    assert!(check(&i));
    i.blocked_by.push(BlockerRef::default());
    assert!(check(&i));
    i.state = "TODO".to_string();
    assert!(!check(&i));
    i.blocked_by[0].state = Some("done".to_string());
    assert!(check(&i));
}

#[test]
fn claims_and_slots_keep_issues_out() {
    let state = working_on(&["A"]);
    assert!(!candidate_eligible(&state, &plain("A"), &roomy(), Some("A")));
    assert!(candidate_eligible(&state, &plain("B"), &roomy(), None));
    assert!(!candidate_eligible(&state, &plain("B"), &config(), None));
    assert!(!has_global_slot(&state, &config()));
    let mut limited = roomy();
    limited.agent.max_concurrent_agents_by_state.insert("todo".to_string(), 1);
    assert!(!has_state_slot(&state, "Todo", &limited));
    assert!(has_state_slot(&state, "In Progress", &limited));
    assert!(!candidate_eligible(&state, &plain("B"), &limited, None));
}

#[test]
fn dispatch_stops_at_the_limit() {
    let mut state = SchedulerState::default();
    let mut two = config();
    two.agent.max_concurrent_agents = 2;
    let effects = state.dispatch_candidates(
        vec![plain("A"), plain("A"), plain(".."), plain("B"), plain("C")],
        &two,
    );
    assert_eq!(describe(&effects), vec!["worker A None", "worker B None"]);
    let shown = state.snapshot();
    assert_eq!(shown.running.len(), 2);
    assert_eq!(sorted(shown.claimed), vec!["A", "B"]);
    assert_eq!(
        shown.running.get("A").unwrap().workspace_path,
        PathBuf::from("/tmp/symphony/A")
    );
}

#[test]
fn candidates_are_dispatched_in_order_or_the_error_is_kept() {
    let mut state = SchedulerState::default();
    let effects = state.candidates_fetched(
        Ok(vec![issue("A", Some(3), None), issue("B", Some(1), None)]),
        &config(),
    );
    assert_eq!(describe(&effects), vec!["worker B None"]);
    assert_eq!(state.snapshot().last_error, None);
    let effects = state.candidates_fetched(Err(TrackerError::MissingApiKey), &config());
    assert!(effects.is_empty());
    assert_eq!(state.snapshot().last_error.as_deref(), Some("missing_tracker_api_key"));
}

#[test]
fn settings_are_taken_over() {
    let mut state = SchedulerState::default();
    assert!(state.interval_differs(&config()));
    assert_eq!(state.max_retry_backoff_ms(), 300_000);
    let mut c = config();
    c.agent.max_retry_backoff_ms = 7;
    state.config_refreshed(&Ok(c));
    assert!(!state.interval_differs(&config()));
    assert_eq!(state.max_retry_backoff_ms(), 7);
    assert_eq!(state.snapshot().poll_interval_ms, 30_000);
    assert_eq!(state.snapshot().max_concurrent_agents, 1);
    state.config_refreshed(&Err(ConfigError::Invalid {
        field: "f",
        reason: "r".to_string(),
    }));
    assert_eq!(
        state.snapshot().last_error.as_deref(),
        Some("invalid_config field=f reason=r")
    );
}

#[test]
fn a_worker_that_succeeded_is_looked_at_again() {
    let mut state = working_on(&["A", "B"]);
    let effects = state.worker_finished_at(finished("A", None, WorkerStatus::Succeeded), &at(200));
    assert_eq!(describe(&effects), vec!["ended 100", "timer A 1000"]);
    let shown = state.snapshot();
    assert_eq!(shown.completed, vec!["A"]);
    assert!(!shown.running.contains_key("A"));
    assert!(shown.running.contains_key("B"));
    let entry = shown.retrying.get("A").unwrap();
    assert_eq!(entry.attempt, 1);
    assert_eq!(entry.error, None);
    assert_eq!(entry.due_at, at(201));
    assert_eq!(entry.due_at_ms, 201_000);
    assert_eq!(sorted(shown.claimed), vec!["A", "B"]);
}

#[test]
fn a_worker_that_failed_is_tried_again_later() {
    let mut state = working_on(&["A"]);
    let status = WorkerStatus::Failed("boom".to_string());
    let effects = state.worker_finished_at(finished("A", Some(2), status), &at(200));
    assert_eq!(describe(&effects), vec!["ended 100", "timer A 40000"]);
    let shown = state.snapshot();
    assert_eq!(shown.retrying.get("A").unwrap().attempt, 3);
    assert_eq!(shown.retrying.get("A").unwrap().error.as_deref(), Some("boom"));
    assert!(shown.completed.is_empty());
}

#[test]
fn a_cancelled_worker_frees_its_issue() {
    let mut state = working_on(&["A"]);
    let effects = state.handle_worker_finished(finished("A", None, WorkerStatus::Cancelled));
    assert_eq!(describe(&effects), vec!["ended 100"]);
    let shown = state.snapshot();
    assert!(shown.claimed.is_empty() && shown.retrying.len() == 0 && shown.running.len() == 0);
    let again = state.handle_worker_finished(finished("A", None, WorkerStatus::Succeeded));
    assert!(again.is_empty());
    assert!(state.snapshot().completed.is_empty());
}

#[test]
fn sessions_are_ended_from_outside() {
    let mut state = working_on(&["A", "B", "C"]);
    let effects = state.terminate_running_at(
        "A",
        TerminationAction::Retry("stalled".to_string()),
        &at(300),
    );
    assert_eq!(describe(&effects), vec!["cancel A", "ended 100", "timer A 160000"]);
    let effects = state.terminate_running("B", TerminationAction::ReleaseAndCleanup);
    assert_eq!(describe(&effects), vec!["cancel B", "ended 100", "remove B"]);
    let effects = state.terminate_running("C", TerminationAction::ReleaseOnly);
    assert_eq!(describe(&effects), vec!["cancel C", "ended 100"]);
    assert!(state.terminate_running("C", TerminationAction::ReleaseOnly).is_empty());
    let shown = state.snapshot();
    assert_eq!(shown.claimed, vec!["A"]);
    assert_eq!(shown.retrying.get("A").unwrap().attempt, 5);
}

/// A scheduler in which an issue waits.
fn waiting(id: &str) -> SchedulerState {
    let mut state = working_on(&[id]);
    state.worker_finished_at(finished(id, None, WorkerStatus::Succeeded), &at(200));
    state
}

#[test]
fn a_due_issue_is_dispatched_again() {
    let mut state = waiting("A");
    assert!(state.take_due("Z").is_none());
    let entry = state.take_due("A").unwrap();
    let outcome = RetryOutcome::Fetched {
        candidates: vec![plain("B"), plain("A")],
        config: config(),
    };
    let effects = state.retry_due_at(entry, outcome, &at(300));
    assert_eq!(describe(&effects), vec!["worker A Some(1)"]);
    let shown = state.snapshot();
    assert_eq!(shown.running.get("A").unwrap().started_at, at(300));
    assert_eq!(shown.retrying.len(), 0);
    assert_eq!(shown.claimed, vec!["A"]);
}

#[test]
fn a_due_issue_waits_on_or_is_given_up() {
    let retry = |outcome: RetryOutcome| {
        let mut state = waiting("A");
        let entry = state.take_due("A").unwrap();
        let effects = state.handle_retry_due(entry, outcome);
        (describe(&effects), state.snapshot())
    };
    let (effects, shown) = retry(RetryOutcome::Unconfigured(ConfigError::Invalid {
        field: "f",
        reason: "r".to_string(),
    }));
    assert_eq!(effects, vec!["timer A 1000"]);
    assert_eq!(
        shown.retrying.get("A").unwrap().error.as_deref(),
        Some("invalid_config field=f reason=r")
    );
    let (effects, shown) = retry(RetryOutcome::Unfetched(TrackerError::MissingApiKey));
    assert_eq!(effects, vec!["timer A 10000"]);
    assert_eq!(shown.retrying.get("A").unwrap().attempt, 1);

    let (effects, shown) =
        retry(RetryOutcome::Fetched { candidates: vec![plain("B")], config: config() });
    assert!(effects.is_empty());
    assert!(shown.claimed.is_empty());

    let mut blocked = plain("A");
    blocked.blocked_by.push(BlockerRef::default());
    let (effects, shown) =
        retry(RetryOutcome::Fetched { candidates: vec![blocked], config: config() });
    assert!(effects.is_empty());
    assert!(shown.claimed.is_empty());

    let mut full = config();
    full.agent.max_concurrent_agents = 0;
    let (effects, shown) =
        retry(RetryOutcome::Fetched { candidates: vec![plain("A")], config: full });
    assert_eq!(effects, vec!["timer A 1000"]);
    assert_eq!(
        shown.retrying.get("A").unwrap().error.as_deref(),
        Some("no available orchestrator slots")
    );
}

#[test]
fn reports_of_the_tracker_settle_sessions() {
    let mut state = working_on(&["A", "B", "C", "D"]);
    let report = |id: &str, name: &str| IssueState {
        id: id.to_string(),
        identifier: None,
        state: name.to_string(),
    };
    let mut states = StringMap::new();
    states.insert("A".to_string(), report("A", "done"));
    states.insert("B".to_string(), report("B", "In Progress"));
    states.insert("C".to_string(), report("C", "Backlog"));
    let ids = state.running_ids();
    assert_eq!(sorted(ids.clone()), vec!["A", "B", "C", "D"]);
    let effects = state.reconcile(&ids, &states, &config());
    assert_eq!(
        describe(&effects),
        vec!["cancel A", "ended 100", "remove A", "cancel C", "ended 100"]
    );
    let shown = state.snapshot();
    assert_eq!(sorted(shown.claimed), vec!["B", "D"]);
    assert_eq!(shown.running.get("B").unwrap().issue.state, "In Progress");
    assert_eq!(shown.running.get("D").unwrap().issue.state, "Todo");
}

fn update(id: &str, event: &str) -> AgentUpdate {
    AgentUpdate {
        issue_id: id.to_string(),
        issue_identifier: id.to_string(),
        event: event.to_string(),
        timestamp: at(500),
        codex_app_server_pid: Some("7".to_string()),
        thread_id: None,
        turn_id: None,
        usage: None,
        rate_limits: None,
        message: None,
    }
}

#[test]
fn silent_sessions_are_tried_again() {
    let mut state = working_on(&["A", "B"]);
    state.apply_agent_update(update("B", "notification"));
    let mut off = config();
    off.codex.stall_timeout_ms = 0;
    assert!(state.reconcile_stalls_at(&off, &at(9_000)).is_empty());
    assert!(state.reconcile_stalls_at(&config(), &at(400)).is_empty());
    let effects = state.reconcile_stalls_at(&config(), &Timestamp { seconds: 400, nanos: 1_000_000 });
    assert_eq!(describe(&effects), vec!["cancel A", "ended 100", "timer A 160000"]);
    let shown = state.snapshot();
    assert_eq!(shown.retrying.get("A").unwrap().error.as_deref(), Some("stalled"));
    assert!(shown.running.contains_key("B"));
    assert_eq!(describe(&state.reconcile_stalls(&config()))[0], "cancel B");
}

#[test]
fn updates_are_added_up() {
    let mut state = working_on(&["A"]);
    let usage = |input: i64, output: i64, total: i64, absolute: bool| {
        Some(TokenUsage {
            input_tokens: input,
            output_tokens: output,
            total_tokens: total,
            absolute,
        })
    };
    let mut first = update("A", "turn_started");
    first.thread_id = Some("T".to_string());
    first.turn_id = Some("1".to_string());
    first.usage = usage(10, 5, 15, true);
    first.rate_limits = Some(Json::text("r"));
    state.apply_agent_update(first.clone());
    state.apply_agent_update(first);
    let mut second = update("A", "token_usage_updated");
    second.turn_id = Some("2".to_string());
    second.usage = usage(12, 4, 20, true);
    state.apply_agent_update(second);
    let mut third = update("A", "notification");
    third.usage = usage(1_000, 1_000, 1_000, false);
    state.apply_agent_update(third);
    state.apply_agent_update(update("Z", "turn_started"));
    let shown = state.snapshot();
    assert_eq!(shown.codex_totals.input_tokens, 12);
    assert_eq!(shown.codex_totals.output_tokens, 5);
    assert_eq!(shown.codex_totals.total_tokens, 20);
    assert_eq!(shown.codex_rate_limits.unwrap().to_text(), "\"r\"");
    let live = &shown.running.get("A").unwrap().live_session;
    assert_eq!(live.session_id.as_deref(), Some("T-2"));
    assert_eq!(live.turn_count, 2);
    assert_eq!(live.codex_output_tokens, 4);
    assert_eq!(live.last_codex_event.as_deref(), Some("notification"));
    assert_eq!(live.last_codex_timestamp, Some(at(500)));
}

#[test]
fn stopping_cancels_everything() {
    let mut state = working_on(&["A", "B"]);
    state.worker_finished_at(finished("B", None, WorkerStatus::Succeeded), &at(200));
    assert_eq!(describe(&state.cancel_all_running()), vec!["cancel A", "abort B"]);
}

#[test]
fn a_claimed_issue_is_not_dispatched_twice() {
    let mut state = waiting("A");
    assert!(state.dispatch_issue(plain("A"), None, &roomy()).is_empty());
    assert_eq!(state.snapshot().running.len(), 0);
}

#[test]
fn a_due_issue_stays_claimed_while_it_is_looked_at() {
    let mut state = waiting("A");
    let entry = state.take_due("A").unwrap();
    let shown = state.snapshot();
    assert_eq!(shown.claimed, vec!["A"]);
    assert_eq!(shown.retrying.len(), 0);
    assert_eq!(shown.running.len(), 0);
    let outcome = RetryOutcome::Fetched { candidates: vec![], config: config() };
    state.retry_due_at(entry, outcome, &at(300));
    assert!(state.snapshot().claimed.is_empty());
}

#[test]
fn rising_reports_count_once() {
    let mut state = working_on(&["A"]);
    let report = |count: i64| {
        let mut report = update("A", "token_usage_updated");
        report.usage = Some(TokenUsage {
            input_tokens: count,
            output_tokens: 2 * count,
            total_tokens: 3 * count,
            absolute: true,
        });
        report
    };
    for count in [3, 3, 7, 20, 20] {
        state.apply_agent_update(report(count));
        state.apply_agent_update(update("A", "notification"));
    }
    let totals = state.snapshot().codex_totals;
    assert_eq!((totals.input_tokens, totals.output_tokens, totals.total_tokens), (20, 40, 60));
    state.apply_agent_update(report(20));
    assert_eq!(state.snapshot().codex_totals, totals);
}
