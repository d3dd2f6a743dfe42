use std::path::PathBuf;

use symphony_rust::agent::AgentError;
use symphony_rust::config::{
    AgentConfig, CodexConfig, HooksConfig, PollingConfig, ServerConfig, ServiceConfig,
    TrackerConfig, WorkspaceConfig,
};
use symphony_rust::keyed::StringMap;
use symphony_rust::model::{Issue, IssueState, Timestamp};
use symphony_rust::orchestrator::WorkerStatus;
use symphony_rust::prompt::PromptError;
use symphony_rust::tracker::TrackerError;
use symphony_rust::worker::{run_worker, worker_status, WorkerRun, WorkerStep};
use symphony_rust::workspace::{Workspace, WorkspaceError};

fn config(template: &str, max_turns: u32) -> ServiceConfig {
    ServiceConfig {
        workflow_path: PathBuf::from("WORKFLOW.md"),
        workflow_dir: PathBuf::from("."),
        workflow_modified: None,
        prompt_template: template.to_string(),
        tracker: TrackerConfig {
            kind: Some("linear".to_string()),
            endpoint: "http://example.test".to_string(),
            api_key: Some("token".to_string()),
            project_slug: Some("project".to_string()),
            active_states: vec!["Todo".to_string()],
            terminal_states: vec!["Done".to_string()],
        },
        polling: PollingConfig { interval_ms: 30_000 },
        workspace: WorkspaceConfig { root: PathBuf::from("/w") },
        hooks: HooksConfig {
            before_run: Some("before".to_string()),
            after_run: Some("after".to_string()),
            timeout_ms: 60_000,
            ..HooksConfig::default()
        },
        agent: AgentConfig {
            max_concurrent_agents: 1,
            max_turns,
            max_retry_backoff_ms: 300_000,
            max_concurrent_agents_by_state: StringMap::new(),
        },
        codex: CodexConfig {
            command: "codex app-server".to_string(),
            approval_policy: None,
            thread_sandbox: None,
            turn_sandbox_policy: None,
            turn_timeout_ms: 1_000,
            read_timeout_ms: 1_000,
            stall_timeout_ms: 300_000,
        },
        server: ServerConfig::default(),
    }
}

fn issue() -> Issue {
    Issue {
        id: "id".to_string(),
        identifier: "ABC-1".to_string(),
        title: "Fix it".to_string(),
        description: None,
        priority: None,
        state: "Todo".to_string(),
        branch_name: None,
        url: None,
        labels: Vec::new(),
        blocked_by: Vec::new(),
        created_at: None,
        updated_at: None,
    }
}

fn workspace() -> Workspace {
    Workspace {
        path: PathBuf::from("/w/ABC-1"),
        workspace_key: "ABC-1".to_string(),
        created_now: true,
    }
}

fn run(template: &str, max_turns: u32) -> WorkerRun {
    WorkerRun::begin(issue(), Some(2), config(template, max_turns))
}

fn states(name: &str) -> StringMap<IssueState> {
    let mut map = StringMap::new();
    map.insert(
        "id".to_string(),
        IssueState { id: "id".to_string(), identifier: None, state: name.to_string() },
    );
    map
}

/// What a run winds down with: whether a session is stopped, and the message of
/// its error.
fn wound_down(step: WorkerStep) -> (bool, Option<String>) {
    match step {
        WorkerStep::WindDown { shutdown, after_run, result } => {
            let call = after_run.unwrap();
            assert_eq!(call.hook, "after_run");
            assert_eq!(call.script, "after");
            assert_eq!(call.cwd, PathBuf::from("/w/ABC-1"));
            (shutdown, result.err().map(|e| e.to_text()))
        }
        _ => panic!("the run goes on"),
    }
}

fn input(step: WorkerStep) -> String {
    match step {
        WorkerStep::RunTurn(input) => input,
        _ => panic!("no turn"),
    }
}

#[test]
fn a_run_goes_through_its_turns() {
    let mut run = run("{{ issue.title }} {{ attempt }}", 2);
    match run.workspace_ready(Ok(workspace())) {
        WorkerStep::BeforeRun(call) => {
            assert_eq!(call.hook, "before_run");
            assert_eq!(call.script, "before");
            assert_eq!(call.cwd, PathBuf::from("/w/ABC-1"));
        }
        _ => panic!("no hook"),
    }
    assert!(matches!(run.before_run_done(Ok(())), WorkerStep::StartSession));
    assert_eq!(input(run.session_started(Ok(()))), "Fix it 2");
    assert!(matches!(run.turn_done(Ok("t".to_string())), WorkerStep::AskState));
    assert!(input(run.state_known(Ok(states("TODO")))).starts_with("Continue working"));
    assert_eq!(wound_down(run.turn_done(Ok("t".to_string()))), (true, None));
}

/// What a run does from moment to moment while the tracker reports that its issue
/// is active: the inputs of its turns, the number of its steps, and how it ends.
fn course(mut run: WorkerRun) -> (Vec<String>, u32, (bool, Option<String>)) {
    let mut inputs = Vec::new();
    let mut steps = 0;
    let mut step = run.workspace_ready(Ok(workspace()));
    loop {
        steps += 1;
        step = match step {
            WorkerStep::RenderPrompt { .. } => run.prompt_rendered(Ok("made".to_string())),
            WorkerStep::BeforeRun(_) => run.before_run_done(Ok(())),
            WorkerStep::StartSession => run.session_started(Ok(())),
            WorkerStep::RunTurn(input) => {
                inputs.push(input);
                run.turn_done(Ok("t".to_string()))
            }
            WorkerStep::AskState => run.state_known(Ok(states("Todo"))),
            end => return (inputs, steps, wound_down(end)),
        };
    }
}

#[test]
fn a_run_takes_as_many_turns_as_it_may() {
    let (inputs, steps, end) = course(run("{{ issue.title }}", 3));
    assert_eq!(inputs.len(), 3);
    assert_eq!(inputs[0], "Fix it");
    assert!(inputs[1].starts_with("Continue working"));
    assert_eq!(inputs[1], inputs[2]);
    assert!(steps <= 4 + 2 * 3);
    assert_eq!(end, (true, None));

    let (inputs, steps, end) = course(run("{{ [1] }}", 1));
    assert_eq!(inputs, ["made"]);
    assert_eq!(steps, 5);
    assert_eq!(end, (true, None));
}

#[test]
fn a_template_that_is_not_plain_is_handed_out() {
    let mut first = run("{{ issue.title[::-1] }}", 1);
    match first.workspace_ready(Ok(workspace())) {
        WorkerStep::RenderPrompt { source, context } => {
            assert_eq!(source, "{{ issue.title[::-1] }}");
            assert!(context.to_text().starts_with(r#"{"attempt":2,"issue":{"#));
        }
        _ => panic!("the run goes on"),
    }
    assert!(matches!(
        first.prompt_rendered(Ok("ti xiF".to_string())),
        WorkerStep::BeforeRun(_)
    ));
    assert_eq!(input(first.session_started(Ok(()))), "ti xiF");

    let mut second = run("{{ [1] }}", 1);
    second.workspace_ready(Ok(workspace()));
    assert_eq!(
        wound_down(second.prompt_rendered(Err(PromptError::Render("r".to_string())))),
        (false, Some("startup_failed reason=template_render_error reason=r".to_string()))
    );
}

#[test]
fn a_run_without_a_workspace_is_over() {
    match run("x", 1).workspace_ready(Err(WorkspaceError::HookTimeout("after_create"))) {
        WorkerStep::Finished(Err(e)) => {
            assert_eq!(e.to_text(), "startup_failed reason=hook_timeout hook=after_create")
        }
        _ => panic!("the run goes on"),
    }
}

#[test]
fn failures_wind_a_run_down() {
    let (shutdown, error) = wound_down(run("{{ nope }}", 1).workspace_ready(Ok(workspace())));
    assert!(!shutdown);
    assert!(error.unwrap().starts_with("startup_failed reason=template_render_error reason="));

    let mut run = run("x", 2);
    run.workspace_ready(Ok(workspace()));
    assert_eq!(
        wound_down(run.before_run_done(Err(WorkspaceError::HookTimeout("before_run")))),
        (false, Some("startup_failed reason=hook_timeout hook=before_run".to_string()))
    );
    assert_eq!(
        wound_down(run.session_started(Err(AgentError::PortExit))),
        (false, Some("port_exit".to_string()))
    );
    assert_eq!(
        wound_down(run.turn_done(Err(AgentError::TurnTimeout))),
        (false, Some("turn_timeout".to_string()))
    );
    assert_eq!(
        wound_down(run.state_known(Err(TrackerError::MissingApiKey))),
        (true, Some("turn_failed reason=missing_tracker_api_key".to_string()))
    );
}

#[test]
fn a_run_ends_when_its_issue_is_not_active() {
    let mut run = run("x", 5);
    run.workspace_ready(Ok(workspace()));
    assert_eq!(input(run.session_started(Ok(()))), "x");
    assert_eq!(wound_down(run.state_known(Ok(states("Done")))), (true, None));
    assert_eq!(wound_down(run.state_known(Ok(StringMap::new()))), (true, None));
}

#[test]
fn a_run_without_turns_ends_at_once() {
    let mut run = run("x", 0);
    run.workspace_ready(Ok(workspace()));
    assert_eq!(wound_down(run.session_started(Ok(()))), (true, None));
}

#[test]
fn results_become_statuses() {
    assert!(matches!(worker_status(Ok(())), WorkerStatus::Succeeded));
    assert!(matches!(worker_status(Err(AgentError::Cancelled)), WorkerStatus::Cancelled));
    let finished = run_worker(
        &issue(),
        Some(3),
        Timestamp { seconds: 9, nanos: 0 },
        Err(AgentError::PortExit),
    );
    assert_eq!(finished.issue_id, "id");
    assert_eq!(finished.issue_identifier, "ABC-1");
    assert_eq!(finished.attempt, Some(3));
    assert_eq!(finished.started_at.seconds, 9);
    match finished.status {
        WorkerStatus::Failed(words) => assert_eq!(words, "port_exit"),
        _ => panic!("no failure"),
    }
}

#[test]
fn the_session_is_in_the_workspace_of_the_run() {
    let mut run = run("{{ issue.title }}", 1);
    assert!(run.session().is_none());
    run.workspace_ready(Ok(workspace()));
    let session = run.session().unwrap().unwrap();
    let (command, cwd) = session.launch();
    assert_eq!(command, "codex app-server");
    assert_eq!(cwd, PathBuf::from("/w/ABC-1"));
    assert_eq!(session.config().agent.max_turns, 1);
}
