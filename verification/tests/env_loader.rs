use std::path::{Path, PathBuf};

use symphony_rust::env_loader::{
    dotenv_dirs, dotenv_files, dotenv_paths, note_dotenv, push_unique_dir, DotenvOutcome,
    EnvLoadError,
};

#[test]
fn deduplicates_default_workflow_dir() {
    let cwd = PathBuf::from("/tmp/example");
    let mut dirs = Vec::new();

    push_unique_dir(&mut dirs, &cwd, cwd.clone());
    push_unique_dir(&mut dirs, &cwd, PathBuf::from("."));

    assert_eq!(dirs, vec![cwd]);
}

#[test]
fn the_workflow_directory_comes_second() {
    let cwd = PathBuf::from("/home/me");
    assert_eq!(dotenv_dirs(&cwd, Path::new("WORKFLOW.md")), vec![PathBuf::from("/home/me")]);
    assert_eq!(
        dotenv_dirs(&cwd, Path::new("a/../b/WORKFLOW.md")),
        vec![PathBuf::from("/home/me"), PathBuf::from("/home/me/b")]
    );
    assert_eq!(
        dotenv_dirs(&cwd, Path::new("/srv/WORKFLOW.md")),
        vec![PathBuf::from("/home/me"), PathBuf::from("/srv")]
    );
}

#[test]
fn each_directory_has_two_files() {
    assert_eq!(
        dotenv_paths(&vec![PathBuf::from("/a"), PathBuf::from("/b")]),
        vec![
            PathBuf::from("/a/.env"),
            PathBuf::from("/a/.env.local"),
            PathBuf::from("/b/.env"),
            PathBuf::from("/b/.env.local"),
        ]
    );
    assert_eq!(
        dotenv_files(Ok(PathBuf::from("/a")), Path::new("W.md")).unwrap(),
        vec![PathBuf::from("/a/.env"), PathBuf::from("/a/.env.local")]
    );
    let e = dotenv_files(Err("gone".to_string()), Path::new("W.md")).unwrap_err();
    assert_eq!(e.to_text(), "env_current_dir reason=gone");
}

#[test]
fn a_file_that_cannot_be_parsed_ends_the_loading() {
    let mut loaded = Vec::new();
    note_dotenv(&mut loaded, PathBuf::from("/a"), DotenvOutcome::Absent).unwrap();
    note_dotenv(&mut loaded, PathBuf::from("/b"), DotenvOutcome::Loaded).unwrap();
    let e = note_dotenv(&mut loaded, PathBuf::from("/c"), DotenvOutcome::Failed("bad".to_string()))
        .unwrap_err();
    assert!(matches!(e, EnvLoadError::Parse { .. }));
    assert_eq!(e.to_text(), "env_file_parse path=/c reason=bad");
    assert_eq!(loaded, vec![PathBuf::from("/b")]);
}
