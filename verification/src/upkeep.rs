//! What holds of the workspaces: what they are called, how they come about and how
//! they go away.

use std::path::{Path, PathBuf};
use vstd::prelude::*;
use vstd::utf8::encode_utf8;

use crate::config::HooksConfig;
use crate::json::opt_text;
use crate::paths::{
    buf_parts, path_of, path_words, plain_is_normalized, plain_parts, prefix_free, PartV,
};
use crate::text::int_decimal;
use crate::workspace::{
    calls, follows_inspection, follows_making, follows_presence, follows_probe, follows_removal,
    follows_script, key_is_clean, key_of, tells, workspace_below_root, EnsureStep, HookCall,
    HookOutcome, RemoveStep, WorkspaceError, WorkspaceManager,
};

verus! {

broadcast use vstd::string::group_string_axioms;

/// The key of an issue has as many characters as its identifier, each in its place:
/// ASCII letters, ASCII digits, `.`, `_` and `-` stay what they are, and every other
/// character becomes `_`. An issue without identifier has the key `_`.
pub proof fn key_stands_for_the_identifier(identifier: Seq<char>)
    ensures
        identifier.len() == 0 ==> key_of(identifier) == seq!['_'],
        identifier.len() > 0 ==> key_of(identifier).len() == identifier.len(),
        forall|i: int|
            0 <= i < identifier.len() ==> #[trigger] key_of(identifier)[i] == (if 'a'
                <= identifier[i] <= 'z' || 'A' <= identifier[i] <= 'Z' || '0' <= identifier[i]
                <= '9' || identifier[i] == '.' || identifier[i] == '_' || identifier[i] == '-' {
                identifier[i]
            } else {
                '_'
            }),
{
}

/// The workspace of an issue is the directory right below the root that has the key
/// for its name, where the key is more than dots.
pub proof fn workspace_is_named_by_its_key(
    manager: WorkspaceManager,
    identifier: Seq<char>,
    key: Seq<char>,
    path: PathBuf,
)
    requires
        manager.assigns(identifier, key, path),
        prefix_free(buf_parts(manager.base())),
        plain_parts(buf_parts(manager.base())),
        key != seq!['.'],
        key != seq!['.', '.'],
    ensures
        buf_parts(path) == buf_parts(manager.base()).push(PartV::Normal(encode_utf8(key))),
        identifier.len() > 0 && (forall|i: int|
            0 <= i < identifier.len() ==> 'a' <= #[trigger] identifier[i] <= 'z' || 'A'
                <= identifier[i] <= 'Z' || '0' <= identifier[i] <= '9' || identifier[i] == '-')
            ==> key == identifier,
{
    let base = buf_parts(manager.base());
    plain_is_normalized(base);
    workspace_below_root(base, identifier);
    key_is_clean(identifier);
    if identifier.len() > 0 && (forall|i: int|
        0 <= i < identifier.len() ==> 'a' <= #[trigger] identifier[i] <= 'z' || 'A'
            <= identifier[i] <= 'Z' || '0' <= identifier[i] <= '9' || identifier[i] == '-') {
        key_stands_for_the_identifier(identifier);
        assert(key =~= identifier);
    }
}

/// Where a directory is there already, it is the workspace, and it is not new.
/// Anything else that is there is no workspace.
pub proof fn directory_that_is_there_is_used(
    manager: WorkspaceManager,
    identifier: Seq<char>,
    made: Result<(), String>,
    key: String,
    path: PathBuf,
    step: EnsureStep,
    is_dir: bool,
    last: EnsureStep,
)
    requires
        manager.follows_root(identifier, made, EnsureStep::Probe { key, path }),
        follows_presence(key, path, Ok(true), step),
        step matches EnsureStep::Inspect { key: k, path: p } ==> follows_inspection(
            k,
            p,
            Ok(is_dir),
            last,
        ),
    ensures
        made is Ok,
        step is Inspect,
        key@ == key_of(identifier),
        is_dir ==> {
            &&& last matches EnsureStep::Finished(Ok(workspace))
            &&& workspace.path == path
            &&& workspace.workspace_key@ == key@
            &&& !workspace.created_now
        },
        !is_dir ==> {
            &&& last matches EnsureStep::Finished(Err(WorkspaceError::NotDirectory(p)))
            &&& p == path
        },
{
}

/// The call runs the script in the directory, under that name and no longer than
/// the settings allow.
pub open spec fn runs_in(
    call: HookCall,
    name: Seq<char>,
    script: String,
    directory: &Path,
    hooks: HooksConfig,
) -> bool {
    &&& call.hook@ == name
    &&& call.script@ == script@
    &&& path_of(&call.cwd) == directory
    &&& call.timeout_ms == hooks.timeout_ms
}

/// Where nothing is there, the directory is made. The script for new workspaces is
/// run in it, where there is one, and only then it is the workspace, and new; the
/// workspace that the script fails in is none.
pub proof fn directory_that_is_missing_is_made(
    key: String,
    path: PathBuf,
    step: EnsureStep,
    hooks: HooksConfig,
    made: EnsureStep,
    outcome: HookOutcome,
    result: Result<(), WorkspaceError>,
    last: EnsureStep,
)
    requires
        follows_presence(key, path, Ok(false), step),
        step matches EnsureStep::Make { key: k, path: p } ==> follows_making(
            k,
            p,
            Ok(()),
            hooks,
            made,
        ),
        made matches EnsureStep::Hook { key: k, path: p, call } ==> tells(call, outcome, result)
            && follows_script(k, p, result, last),
        made is Finished ==> last == made,
    ensures
        step is Make,
        match hooks.after_create {
            Some(script) => {
                &&& made matches EnsureStep::Hook { path: p, call, .. }
                &&& p == path
                &&& runs_in(call, "after_create"@, script, path_of(&path), hooks)
            },
            None => made is Finished,
        },
        hooks.after_create is None || outcome is Succeeded <==> last matches EnsureStep::Finished(
            Ok(_),
        ),
        last matches EnsureStep::Finished(Ok(workspace)) ==> {
            &&& workspace.path == path
            &&& workspace.workspace_key@ == key@
            &&& workspace.created_now
        },
{
}

/// What a script comes to is told by its name: that it took too long, that it ended
/// with that exit code, or minus one where it had none, or that it could not be run
/// in its directory.
pub proof fn script_outcome_is_told(
    call: HookCall,
    outcome: HookOutcome,
    result: Result<(), WorkspaceError>,
)
    requires
        tells(call, outcome, result),
    ensures
        outcome is Succeeded <==> result is Ok,
        outcome is TimedOut <==> result matches Err(WorkspaceError::HookTimeout(_)),
        result matches Err(WorkspaceError::HookTimeout(name)) ==> name@ == call.hook@,
        outcome is Ended <==> result matches Err(WorkspaceError::HookFailed { .. }),
        result matches Err(WorkspaceError::HookFailed { hook, status }) ==> {
            &&& hook@ == call.hook@
            &&& outcome->Ended_0 is Some ==> outcome->Ended_0->0 == status
            &&& outcome->Ended_0 is None ==> status == -1
        },
        outcome matches HookOutcome::Broken(why) ==> {
            &&& result matches Err(WorkspaceError::Io { path, reason })
            &&& path == call.cwd
            &&& reason@ == why@
        },
{
}

/// What fails on the disk ends the way to a workspace with the path that it failed
/// at and the reason.
pub proof fn trouble_on_the_disk_is_told(
    manager: WorkspaceManager,
    identifier: Seq<char>,
    key: String,
    path: PathBuf,
    why: String,
    hooks: HooksConfig,
    step: EnsureStep,
)
    ensures
        manager.follows_root(identifier, Err(why), step) ==> (step matches EnsureStep::Finished(
            Err(WorkspaceError::Io { path: p, reason }),
        ) && p == manager.base() && reason@ == why@),
        follows_presence(key, path, Err(why), step) || follows_inspection(
            key,
            path,
            Err(why),
            step,
        ) || follows_making(key, path, Err(why), hooks, step) ==> (
        step matches EnsureStep::Finished(Err(WorkspaceError::Io { path: p, reason })) && p == path
            && reason@ == why@),
{
}

/// A workspace that is there is removed, after the script for workspaces that go
/// away was run in it where there is one; what is not there is left at that.
pub proof fn workspace_goes_away(
    path: PathBuf,
    present: bool,
    hooks: HooksConfig,
    step: RemoveStep,
)
    requires
        follows_probe(path, Ok(present), hooks, step),
    ensures
        !present ==> step == RemoveStep::Finished(Ok(())),
        present ==> match hooks.before_remove {
            Some(script) => {
                &&& step matches RemoveStep::Hook { path: p, call }
                &&& p == path
                &&& runs_in(call, "before_remove"@, script, path_of(&path), hooks)
            },
            None => step matches RemoveStep::Remove { path: p } && p == path,
        },
{
}

/// What fails on the disk ends a removal with the path and the reason; a removal
/// that succeeds is over.
pub proof fn removal_is_told(
    path: PathBuf,
    hooks: HooksConfig,
    removed: Result<(), String>,
    why: String,
    step: RemoveStep,
)
    ensures
        follows_removal(path, removed, step) && removed is Ok ==> step == RemoveStep::Finished(
            Ok(()),
        ),
        follows_probe(path, Err(why), hooks, step) || follows_removal(path, Err(why), step) ==> (
        step matches RemoveStep::Finished(Err(WorkspaceError::Io { path: p, reason })) && p == path
            && reason@ == why@),
{
}

/// A script is run just where there is one.
pub proof fn scripts_run_where_there_are_any(
    call: Option<HookCall>,
    name: Seq<char>,
    script: Option<String>,
    directory: &Path,
    hooks: HooksConfig,
)
    requires
        calls(call, name, opt_text(script), directory, hooks),
    ensures
        call is Some <==> script is Some,
        call matches Some(c) ==> runs_in(c, name, script->0, directory, hooks),
{
}

/// The message of an error begins with its code and names what the error holds.
pub proof fn workspace_errors_in_words(e: WorkspaceError)
    ensures
        match e {
            WorkspaceError::OutsideRoot { path, root } => {
                let end = " root="@ + path_words(path_of(&root));
                &&& ("workspace_path_outside_root path="@ + path_words(path_of(&path))).is_prefix_of(
                    e.words(),
                )
                &&& end.is_suffix_of(e.words())
            },
            WorkspaceError::NotDirectory(path) => {
                &&& "workspace_path_not_directory path="@.is_prefix_of(e.words())
                &&& path_words(path_of(&path)).is_suffix_of(e.words())
            },
            WorkspaceError::Io { path, reason } => {
                let end = " reason="@ + reason@;
                &&& ("workspace_io path="@ + path_words(path_of(&path))).is_prefix_of(e.words())
                &&& end.is_suffix_of(e.words())
            },
            WorkspaceError::HookFailed { hook, status } => {
                let end = " status="@ + int_decimal(status as int);
                &&& ("hook_failed hook="@ + hook@).is_prefix_of(e.words())
                &&& end.is_suffix_of(e.words())
            },
            WorkspaceError::HookTimeout(hook) => {
                &&& "hook_timeout hook="@.is_prefix_of(e.words())
                &&& hook@.is_suffix_of(e.words())
            },
            WorkspaceError::InvalidCwd { cwd, workspace_path } => {
                let end = " workspace_path="@ + path_words(path_of(&workspace_path));
                &&& ("invalid_workspace_cwd cwd="@ + path_words(path_of(&cwd))).is_prefix_of(
                    e.words(),
                )
                &&& end.is_suffix_of(e.words())
            },
        },
{
}

}
