use std::path::{Path, PathBuf};

use symphony_rust::config::{
    load_service_config, normalize_absolute, normalize_components, ConfigError, ConfigManager,
    Environment, HooksConfig, ServerConfig, ServiceConfig, WorkflowFile,
};
use symphony_rust::keyed::StringMap;
use symphony_rust::workflow::{load_workflow, WorkflowDefinition, WorkflowError};

fn environment() -> Environment {
    let mut vars = StringMap::new();
    vars.insert("HOME".to_string(), "/home/me".to_string());
    vars.insert("TOKEN".to_string(), "secret-value".to_string());
    vars.insert("BLANK".to_string(), "  ".to_string());
    vars.insert("PLACE".to_string(), "/srv/work".to_string());
    Environment {
        vars,
        temp_dir: PathBuf::from("/tmp"),
        current_dir: Some(PathBuf::from("/cwd")),
    }
}

fn workflow(content: &str) -> (WorkflowDefinition, PathBuf, PathBuf) {
    let dir = PathBuf::from("/etc/symphony");
    let path = dir.join("WORKFLOW.md");
    (load_workflow(&path, Some(content)).unwrap(), dir, path)
}

fn configured(front_matter: &str) -> Result<ServiceConfig, ConfigError> {
    let (definition, dir, path) = workflow(&format!("---\n{front_matter}---\nHi"));
    ServiceConfig::from_workflow(path, dir, None, definition, &environment())
}

fn refusal(front_matter: &str) -> String {
    configured(front_matter).unwrap_err().to_text()
}

const GOOD: &str = "tracker:\n  kind: linear\n  api_key: token\n  project_slug: demo\n";

#[test]
fn applies_defaults_and_resolves_workspace_relative_to_workflow() {
    let (definition, dir, path) = workflow(
        "---\ntracker:\n  kind: linear\n  api_key: token\n  project_slug: demo\nworkspace:\n  root: .workspaces\n---\nHi",
    );

    let config =
        ServiceConfig::from_workflow(path, dir, None, definition, &environment()).unwrap();

    assert_eq!(config.polling.interval_ms, 30_000);
    assert_eq!(config.agent.max_turns, 20);
    assert!(config.workspace.root.ends_with(".workspaces"));
    config.validate_for_dispatch().unwrap();
}

#[test]
fn ignores_invalid_per_state_limits() {
    let (definition, dir, path) = workflow(
        "---\ntracker:\n  kind: linear\n  api_key: token\n  project_slug: demo\nagent:\n  max_concurrent_agents_by_state:\n    Todo: 2\n    Bad: 0\n---\nHi",
    );

    let config =
        ServiceConfig::from_workflow(path, dir, None, definition, &environment()).unwrap();

    assert_eq!(config.agent.max_concurrent_agents_by_state.get("todo"), Some(&2));
    assert!(!config.agent.max_concurrent_agents_by_state.contains_key("bad"));
}

#[test]
fn defaults_fill_an_empty_front_matter() {
    let config = configured("{}\n").unwrap();
    assert_eq!(config.workflow_path, PathBuf::from("/etc/symphony/WORKFLOW.md"));
    assert_eq!(config.prompt_template, "Hi");
    assert_eq!(config.tracker.kind, None);
    assert_eq!(config.tracker.endpoint, "https://api.linear.app/graphql");
    assert_eq!(config.tracker.active_states, vec!["Todo", "In Progress"]);
    assert_eq!(
        config.tracker.terminal_states,
        vec!["Closed", "Cancelled", "Canceled", "Duplicate", "Done"]
    );
    assert_eq!(config.workspace.root, PathBuf::from("/tmp/symphony_workspaces"));
    assert_eq!(config.hooks.timeout_ms, 60_000);
    assert_eq!(config.agent.max_concurrent_agents, 10);
    assert_eq!(config.agent.max_retry_backoff_ms, 300_000);
    assert_eq!(config.codex.command, "codex app-server");
    assert_eq!(config.codex.turn_timeout_ms, 3_600_000);
    assert_eq!(config.codex.read_timeout_ms, 5_000);
    assert_eq!(config.codex.stall_timeout_ms, 300_000);
    assert!(config.codex.approval_policy.is_none());
    assert_eq!(config.server.port, None);
}

#[test]
fn settings_are_read() {
    let config = configured(
        "tracker:\n  active_states: [' Doing ', 3, '']\nhooks:\n  before_run: ' make '\n  timeout_ms: 5\ncodex:\n  command: ' run it '\n  approval_policy: never\n  turn_sandbox_policy:\n    type: x\n  stall_timeout_ms: -1\nserver:\n  port: 0\npolling:\n  interval_ms: 7\n",
    )
    .unwrap();
    assert_eq!(config.tracker.active_states, vec!["Doing"]);
    assert_eq!(config.hooks.before_run.as_deref(), Some("make"));
    assert_eq!(config.hooks.timeout_ms, 5);
    assert_eq!(config.codex.command, "run it");
    assert_eq!(config.codex.approval_policy.unwrap().to_text(), "\"never\"");
    assert_eq!(config.codex.turn_sandbox_policy.unwrap().to_text(), "{\"type\":\"x\"}");
    assert_eq!(config.codex.stall_timeout_ms, -1);
    assert_eq!(config.server.port, Some(0));
    assert_eq!(config.polling.interval_ms, 7);
}

#[test]
fn secrets_come_from_the_environment() {
    let key = |text: &str| configured(&format!("tracker:\n  api_key: {text}\n")).unwrap().tracker.api_key;
    assert_eq!(key("$TOKEN").as_deref(), Some("secret-value"));
    assert_eq!(key("$BLANK"), None);
    assert_eq!(key("$MISSING"), None);
    assert_eq!(key("$TO-KEN").as_deref(), Some("$TO-KEN"));
    assert_eq!(key("plain").as_deref(), Some("plain"));
}

#[test]
fn workspace_roots_are_expanded_and_normalized() {
    let root = |text: &str| configured(&format!("workspace:\n  root: {text}\n")).unwrap().workspace.root;
    assert_eq!(root("$PLACE"), PathBuf::from("/srv/work"));
    assert_eq!(root("\"~\""), PathBuf::from("/home/me"));
    assert_eq!(root("~/a/../b"), PathBuf::from("/home/me/b"));
    assert_eq!(root("../w/./x"), PathBuf::from("/etc/w/x"));
    assert_eq!(root("/a/b/.."), PathBuf::from("/a"));
    assert_eq!(root("~x"), PathBuf::from("/etc/symphony/~x"));
    assert_eq!(
        refusal("workspace:\n  root: $NOPE\n"),
        "invalid_config field=workspace.root reason=environment variable NOPE is not set"
    );
}

#[test]
fn a_home_is_needed_for_a_tilde() {
    let (definition, dir, path) = workflow("---\nworkspace:\n  root: ~/x\n---\n");
    let env = Environment {
        vars: StringMap::new(),
        temp_dir: PathBuf::from("/tmp"),
        current_dir: None,
    };
    let e = ServiceConfig::from_workflow(path, dir, None, definition, &env).unwrap_err();
    assert_eq!(
        e.to_text(),
        "invalid_config field=workspace.root reason=HOME is not set for ~ expansion"
    );
}

#[test]
fn bad_numbers_are_refused_in_order() {
    assert_eq!(
        refusal("hooks:\n  timeout_ms: -1\n"),
        "invalid_config field=hooks.timeout_ms reason=must be a non-negative integer"
    );
    assert_eq!(
        refusal("hooks:\n  timeout_ms: 0\nagent:\n  max_turns: 0\n"),
        "invalid_config field=hooks.timeout_ms reason=must be positive"
    );
    assert_eq!(
        refusal("agent:\n  max_concurrent_agents: 0\n"),
        "invalid_config field=max_concurrent_agents reason=must be positive"
    );
    assert_eq!(
        refusal("agent:\n  max_turns: 4294967296\n"),
        "invalid_config field=max_turns reason=must be a positive u32"
    );
    assert_eq!(
        refusal("agent:\n  max_retry_backoff_ms: -3\n"),
        "invalid_config field=max_retry_backoff_ms reason=must be positive"
    );
    assert_eq!(
        refusal("codex:\n  turn_timeout_ms: 0\n"),
        "invalid_config field=turn_timeout_ms reason=must be positive"
    );
    assert_eq!(
        refusal("codex:\n  read_timeout_ms: 0\n"),
        "invalid_config field=read_timeout_ms reason=must be positive"
    );
    assert_eq!(
        refusal("server:\n  port: 65536\npolling:\n  interval_ms: 0\n"),
        "invalid_config field=server.port reason=must be between 0 and 65535"
    );
    assert_eq!(
        refusal("polling:\n  interval_ms: 0\n"),
        "invalid_config field=interval_ms reason=must be positive"
    );
}

#[test]
fn dispatch_needs_a_complete_tracker() {
    let fault = |text: &str| configured(text).unwrap().validate_for_dispatch().unwrap_err().to_text();
    assert_eq!(
        fault("{}\n"),
        "invalid_config field=tracker.kind reason=supported value is linear"
    );
    assert_eq!(
        fault("tracker:\n  kind: linear\n"),
        "invalid_config field=tracker.api_key reason=missing after environment resolution"
    );
    assert_eq!(
        fault("tracker:\n  kind: linear\n  api_key: a\n"),
        "invalid_config field=tracker.project_slug reason=required for linear tracker"
    );
    let mut config = configured(GOOD).unwrap();
    config.codex.command = " ".to_string();
    assert_eq!(
        config.validate_for_dispatch().unwrap_err().to_text(),
        "invalid_config field=codex.command reason=must be non-empty"
    );
}

#[test]
fn later_limits_for_a_state_win() {
    let config = configured(
        "agent:\n  max_concurrent_agents_by_state:\n    Todo: 2\n    TODO: 3\n    7: 4\n    Done: x\n",
    )
    .unwrap();
    assert_eq!(config.agent.max_concurrent_agents_by_state.get("todo"), Some(&3));
    assert_eq!(config.agent.max_concurrent_agents_by_state.len(), 1);
}

fn found(content: Option<&str>) -> WorkflowFile {
    WorkflowFile::Found {
        path: PathBuf::from("/etc/symphony/WORKFLOW.md"),
        modified: None,
        content: content.map(str::to_string),
    }
}

#[test]
fn a_workflow_file_must_be_there() {
    let e = load_service_config(WorkflowFile::Absent(PathBuf::from("x/../W.md")), &environment())
        .unwrap_err();
    assert_eq!(e.to_text(), "missing_workflow_file path=/cwd/W.md");
    let e = load_service_config(WorkflowFile::Unresolved(PathBuf::from("W.md")), &environment())
        .unwrap_err();
    assert_eq!(e.to_text(), "missing_workflow_file path=W.md");
    let e = load_service_config(found(None), &environment()).unwrap_err();
    assert_eq!(e.to_text(), "missing_workflow_file path=/etc/symphony/WORKFLOW.md");
    let e = load_service_config(found(Some("---\n")), &environment()).unwrap_err();
    assert!(matches!(e, ConfigError::Workflow(WorkflowError::ParseError { .. })));
    let config = load_service_config(found(Some("Prompt")), &environment()).unwrap();
    assert_eq!(config.workflow_dir, PathBuf::from("/etc/symphony"));
    assert_eq!(config.prompt_template, "Prompt");
}

fn loaded(front_matter: &str) -> Result<ServiceConfig, ConfigError> {
    load_service_config(found(Some(&format!("---\n{front_matter}---\nHi"))), &environment())
}

#[test]
fn a_failed_reload_keeps_the_configuration() {
    let mut manager = ConfigManager::load_initial(loaded(GOOD)).unwrap();
    assert_eq!(manager.workflow_path(), &PathBuf::from("/etc/symphony/WORKFLOW.md"));
    assert_eq!(manager.last_error(), None);

    let e = manager.refresh_for_dispatch(loaded("{}\n")).unwrap_err();
    assert_eq!(manager.last_error(), Some(e.to_text()));
    assert_eq!(manager.current().tracker.project_slug.as_deref(), Some("demo"));

    let changed = GOOD.replace("demo", "other");
    let config = manager.refresh_for_dispatch(loaded(&changed)).unwrap();
    assert_eq!(config.tracker.project_slug.as_deref(), Some("other"));
    assert_eq!(manager.current().tracker.project_slug.as_deref(), Some("other"));
    assert_eq!(manager.last_error(), None);

    assert!(ConfigManager::load_initial(loaded("{}\n")).is_err());
}

#[test]
fn the_workflow_path_has_a_default() {
    assert_eq!(ConfigManager::workflow_path_from_cli(None), PathBuf::from("WORKFLOW.md"));
    assert_eq!(
        ConfigManager::workflow_path_from_cli(Some(PathBuf::from("a"))),
        PathBuf::from("a")
    );
}

#[test]
fn paths_are_normalized_by_their_components() {
    let normal = |p: &str| normalize_components(Path::new(p));
    assert_eq!(normal("/a/./b/../c"), PathBuf::from("/a/c"));
    assert_eq!(normal("../a"), PathBuf::from("a"));
    assert_eq!(normal("/.."), PathBuf::from("/"));
    assert_eq!(normal(&normal("x/../../y/.").to_string_lossy()), PathBuf::from("y"));
    let mut env = environment();
    assert_eq!(normalize_absolute(PathBuf::from("../a"), &env), PathBuf::from("/a"));
    env.current_dir = None;
    assert_eq!(normalize_absolute(PathBuf::from("b"), &env), PathBuf::from("/b"));
}

#[test]
fn plain_defaults() {
    let hooks = HooksConfig::default();
    assert!(hooks.after_create.is_none() && hooks.timeout_ms == 0);
    assert_eq!(ServerConfig::default().port, None);
}

#[test]
fn the_root_is_absolute_and_normalized() {
    let root = |front_matter: &str| {
        configured(&format!("{GOOD}{front_matter}")).unwrap().workspace.root
    };
    for (setting, expected) in [
        ("/srv/./team:a/../b:c/", "/srv/b:c"),
        ("../ws", "/etc/ws"),
        ("$PLACE", "/srv/work"),
        ("~/x/..", "/home/me"),
    ] {
        let root = root(&format!("workspace:\n  root: \"{setting}\"\n"));
        assert_eq!(root, PathBuf::from(expected));
        assert!(root.is_absolute());
        assert_eq!(normalize_components(&root), root);
    }
    assert_eq!(root(""), PathBuf::from("/tmp/symphony_workspaces"));
}

#[test]
fn normalizing_keeps_names_and_root() {
    let normal = |path: &str| normalize_components(Path::new(path)).display().to_string();
    assert_eq!(normal("/a/./b//c"), "/a/b/c");
    assert_eq!(normal("a/b/../c/.."), "a");
    assert_eq!(normal("../../x"), "x");
    assert_eq!(normal("/.."), "/");
    assert_eq!(normal("a:b/team:c"), "a:b/team:c");
    assert_eq!(normal(""), "");
}
