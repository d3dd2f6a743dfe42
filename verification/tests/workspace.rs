use std::path::{Path, PathBuf};

use symphony_rust::config::HooksConfig;
use symphony_rust::workspace::{
    ensure_inside_root, hook_result, removal_hooked, removal_probed, run_after_run, run_before_run,
    sanitize_workspace_key, validate_agent_cwd, workspace_hooked, workspace_inspected,
    workspace_made, workspace_probed, workspace_removed, EnsureStep, HookOutcome, RemoveStep,
    Workspace, WorkspaceError, WorkspaceManager,
};

fn hooks() -> HooksConfig {
    HooksConfig { timeout_ms: 1_000, ..HooksConfig::default() }
}

/// Walks the way to a workspace, with `there` for what is at its path.
fn ensured(
    manager: &WorkspaceManager,
    identifier: &str,
    hooks: &HooksConfig,
    there: bool,
) -> Result<Workspace, WorkspaceError> {
    let mut step = manager.ensure_workspace();
    loop {
        step = match step {
            EnsureStep::MakeRoot { root } => {
                assert_eq!(root, manager.root());
                manager.root_made(identifier, Ok(()))
            }
            EnsureStep::Probe { key, path } => workspace_probed(key, path, Ok(there)),
            EnsureStep::Inspect { key, path } => workspace_inspected(key, path, Ok(true)),
            EnsureStep::Make { key, path } => workspace_made(key, path, Ok(()), hooks),
            EnsureStep::Hook { key, path, call } => {
                assert_eq!(call.cwd, path);
                assert_eq!(call.hook, "after_create");
                workspace_hooked(key, path, hook_result(&call, HookOutcome::Succeeded))
            }
            EnsureStep::Finished(result) => return result,
        };
    }
}

#[test]
fn sanitizes_workspace_key() {
    assert_eq!(sanitize_workspace_key("ABC-1 bad/name"), "ABC-1_bad_name");
}

#[test]
fn creates_and_reuses_workspace() {
    let manager = WorkspaceManager::new(PathBuf::from("/tmp/symphony"));
    let hooks = hooks();

    let first = ensured(&manager, "ABC-1", &hooks, false).unwrap();
    let second = ensured(&manager, "ABC-1", &hooks, true).unwrap();

    assert!(first.created_now);
    assert!(!second.created_now);
    assert_eq!(first.path, second.path);
}

#[test]
fn keys_are_never_empty_and_stay_as_they_are() {
    assert_eq!(sanitize_workspace_key(""), "_");
    assert_eq!(sanitize_workspace_key("é/ü"), "___");
    let key = sanitize_workspace_key("a b.c-d_E9");
    assert_eq!(key, "a_b.c-d_E9");
    assert_eq!(sanitize_workspace_key(&key), key);
}

#[test]
fn workspaces_lie_below_the_root() {
    let manager = WorkspaceManager::new(PathBuf::from("/tmp/x/../symphony/."));
    assert_eq!(manager.root(), Path::new("/tmp/symphony"));
    let (key, path) = manager.workspace_path("../../etc").unwrap();
    assert_eq!(key, ".._.._etc");
    assert_eq!(path, PathBuf::from("/tmp/symphony/.._.._etc"));
    assert_eq!(manager.workspace_path(".").unwrap().1, PathBuf::from("/tmp/symphony"));
    let e = manager.workspace_path("..").unwrap_err();
    assert_eq!(e.to_text(), "workspace_path_outside_root path=/tmp root=/tmp/symphony");
    assert_ne!(
        manager.workspace_path("a").unwrap().1,
        manager.workspace_path("b").unwrap().1
    );
    assert_eq!(WorkspaceManager::new(PathBuf::from("/")).workspace_path("..").unwrap().1, PathBuf::from("/"));
}

#[test]
fn whole_components_are_compared() {
    assert!(ensure_inside_root(Path::new("/a/b"), Path::new("/a/b/../b/c")).is_ok());
    assert!(ensure_inside_root(Path::new("/a/b"), Path::new("/a/bc")).is_err());
    assert!(ensure_inside_root(Path::new("/a/b"), Path::new("/a/b/../c")).is_err());
    assert!(validate_agent_cwd(Path::new("/a/./b"), Path::new("/a/c/../b")).is_ok());
    let e = validate_agent_cwd(Path::new("/a"), Path::new("/b")).unwrap_err();
    assert_eq!(e.to_text(), "invalid_workspace_cwd cwd=/a workspace_path=/b");
}

#[test]
fn a_new_workspace_runs_its_hook() {
    let manager = WorkspaceManager::new(PathBuf::from("/w"));
    let mut with_hook = hooks();
    with_hook.after_create = Some("git clone".to_string());
    assert!(ensured(&manager, "A", &with_hook, false).unwrap().created_now);
    let path = PathBuf::from("/w/A");
    let step = workspace_hooked(
        "A".to_string(),
        path,
        Err(WorkspaceError::HookTimeout("after_create")),
    );
    assert!(matches!(step, EnsureStep::Finished(Err(WorkspaceError::HookTimeout(_)))));
}

#[test]
fn failures_on_the_way_are_kept() {
    let manager = WorkspaceManager::new(PathBuf::from("/w"));
    let text = |step: EnsureStep| match step {
        EnsureStep::Finished(Err(e)) => e.to_text(),
        _ => panic!("no failure"),
    };
    let path = PathBuf::from("/w/A");
    let key = || "A".to_string();
    assert_eq!(
        text(manager.root_made("A", Err("full".to_string()))),
        "workspace_io path=/w reason=full"
    );
    assert!(text(manager.root_made("..", Ok(()))).starts_with("workspace_path_outside_root"));
    assert_eq!(
        text(workspace_probed(key(), path.clone(), Err("x".to_string()))),
        "workspace_io path=/w/A reason=x"
    );
    assert_eq!(
        text(workspace_inspected(key(), path.clone(), Ok(false))),
        "workspace_path_not_directory path=/w/A"
    );
    assert_eq!(
        text(workspace_inspected(key(), path.clone(), Err("y".to_string()))),
        "workspace_io path=/w/A reason=y"
    );
    assert_eq!(
        text(workspace_made(key(), path, Err("z".to_string()), &hooks())),
        "workspace_io path=/w/A reason=z"
    );
}

#[test]
fn removal_runs_its_hook_and_ignores_it() {
    let manager = WorkspaceManager::new(PathBuf::from("/w"));
    let path = match manager.remove_workspace("A") {
        RemoveStep::Probe { path } => path,
        _ => panic!("no probe"),
    };
    assert_eq!(path, PathBuf::from("/w/A"));
    assert!(matches!(manager.remove_workspace(".."), RemoveStep::Finished(Err(_))));
    assert!(matches!(
        removal_probed(path.clone(), Ok(false), &hooks()),
        RemoveStep::Finished(Ok(()))
    ));
    assert!(matches!(
        removal_probed(path.clone(), Err("x".to_string()), &hooks()),
        RemoveStep::Finished(Err(WorkspaceError::Io { .. }))
    ));
    assert!(matches!(removal_probed(path.clone(), Ok(true), &hooks()), RemoveStep::Remove { .. }));
    let mut with_hook = hooks();
    with_hook.before_remove = Some("save".to_string());
    match removal_probed(path.clone(), Ok(true), &with_hook) {
        RemoveStep::Hook { path, call } => {
            assert_eq!(call.script, "save");
            assert_eq!(call.timeout_ms, 1_000);
            assert!(matches!(removal_hooked(path), RemoveStep::Remove { .. }));
        }
        _ => panic!("no hook"),
    }
    assert!(matches!(workspace_removed(path.clone(), Ok(())), RemoveStep::Finished(Ok(()))));
    assert!(matches!(
        workspace_removed(path, Err("busy".to_string())),
        RemoveStep::Finished(Err(WorkspaceError::Io { .. }))
    ));
}

#[test]
fn hooks_end_in_one_of_four_ways() {
    let mut with_hooks = hooks();
    with_hooks.before_run = Some("b".to_string());
    assert!(run_after_run(Path::new("/w/A"), &with_hooks).is_none());
    let call = run_before_run(Path::new("/w/A"), &with_hooks).unwrap();
    assert_eq!(call.hook, "before_run");
    assert_eq!(call.script, "b");
    let text = |outcome: HookOutcome| hook_result(&call, outcome).unwrap_err().to_text();
    assert!(hook_result(&call, HookOutcome::Succeeded).is_ok());
    assert_eq!(text(HookOutcome::TimedOut), "hook_timeout hook=before_run");
    assert_eq!(text(HookOutcome::Ended(Some(3))), "hook_failed hook=before_run status=3");
    assert_eq!(text(HookOutcome::Ended(None)), "hook_failed hook=before_run status=-1");
    assert_eq!(
        text(HookOutcome::Broken("no sh".to_string())),
        "workspace_io path=/w/A reason=no sh"
    );
}

#[test]
fn the_root_is_never_removed() {
    let manager = WorkspaceManager::new(PathBuf::from("/srv/ws"));
    match manager.remove_workspace(".") {
        RemoveStep::Finished(Err(e)) => {
            assert_eq!(e.to_text(), "workspace_path_outside_root path=/srv/ws root=/srv/ws");
        }
        _ => panic!("the root would be removed"),
    }
    let top = WorkspaceManager::new(PathBuf::from("/"));
    for identifier in [".", ".."] {
        assert!(matches!(
            top.remove_workspace(identifier),
            RemoveStep::Finished(Err(WorkspaceError::OutsideRoot { .. }))
        ));
    }
    match top.remove_workspace("a/b") {
        RemoveStep::Probe { path } => assert_eq!(path, PathBuf::from("/a_b")),
        _ => panic!("no probe"),
    }
}

#[test]
fn a_colon_is_an_ordinary_character() {
    for root in ["/srv/team:a/ws", "/srv/a:b"] {
        let manager = WorkspaceManager::new(PathBuf::from(root));
        assert_eq!(manager.root(), Path::new(root));
        let (_, path) = manager.workspace_path("ABC-1").unwrap();
        assert_eq!(path, Path::new(root).join("ABC-1"));
        assert!(manager.workspace_path("..").is_err());
        assert!(validate_agent_cwd(&path, &path).is_ok());
        assert!(matches!(manager.remove_workspace("."), RemoveStep::Finished(Err(_))));
    }
}
