//! Workspaces: one directory for each issue, all of them below one root.

use std::path::{Path, PathBuf};
use vstd::prelude::*;
use vstd::utf8::encode_utf8_decode_utf8;

use crate::config::HooksConfig;
use crate::json::opt_text;
use crate::paths::{
    as_path, buf_parts, join, joined_normalized, key_char, key_part, key_part_is_steady,
    normal_path, normalize_components, normalized, normalized_idempotent, normalized_is_plain,
    parent_parts, path_absolute, path_from_text, path_joined, path_of, path_parts, path_starts,
    path_starts_with, path_text, path_words, plain_is_normalized, plain_parts, prefix_free,
    same_path, same_place, starts_with_parts, text_path, to_buf, PartV,
};
use crate::text::{chars_of, int_decimal, int_text, is_ascii_digit, is_ascii_letter};

verus! {

broadcast use vstd::string::group_string_axioms;

/// Why there is no workspace.
#[derive(Debug)]
pub enum WorkspaceError {
    OutsideRoot { path: PathBuf, root: PathBuf },
    NotDirectory(PathBuf),
    Io { path: PathBuf, reason: String },
    HookFailed { hook: &'static str, status: i32 },
    HookTimeout(&'static str),
    InvalidCwd { cwd: PathBuf, workspace_path: PathBuf },
}

impl WorkspaceError {
    /// The message of the error.
    pub open spec fn words(self) -> Seq<char> {
        match self {
            WorkspaceError::OutsideRoot { path, root } => "workspace_path_outside_root path="@
                + path_words(path_of(&path)) + " root="@ + path_words(path_of(&root)),
            WorkspaceError::NotDirectory(path) => "workspace_path_not_directory path="@
                + path_words(path_of(&path)),
            WorkspaceError::Io { path, reason } => "workspace_io path="@ + path_words(
                path_of(&path),
            ) + " reason="@ + reason@,
            WorkspaceError::HookFailed { hook, status } => "hook_failed hook="@ + hook@
                + " status="@ + int_decimal(status as int),
            WorkspaceError::HookTimeout(hook) => "hook_timeout hook="@ + hook@,
            WorkspaceError::InvalidCwd { cwd, workspace_path } => "invalid_workspace_cwd cwd="@
                + path_words(path_of(&cwd)) + " workspace_path="@ + path_words(
                path_of(&workspace_path),
            ),
        }
    }

    /// The message of the error.
    pub fn to_text(&self) -> (r: String)
        ensures
            r@ == self.words(),
    {
        match self {
            WorkspaceError::OutsideRoot { path, root } => {
                let mut text = "workspace_path_outside_root path=".to_owned();
                text.append(path_text(as_path(path)).as_str());
                text.append(" root=");
                text.append(path_text(as_path(root)).as_str());
                text
            },
            WorkspaceError::NotDirectory(path) => {
                let mut text = "workspace_path_not_directory path=".to_owned();
                text.append(path_text(as_path(path)).as_str());
                text
            },
            WorkspaceError::Io { path, reason } => {
                let mut text = "workspace_io path=".to_owned();
                text.append(path_text(as_path(path)).as_str());
                text.append(" reason=");
                text.append(reason.as_str());
                text
            },
            WorkspaceError::HookFailed { hook, status } => {
                let mut text = "hook_failed hook=".to_owned();
                text.append(*hook);
                text.append(" status=");
                text.append(int_text(*status as i64).as_str());
                text
            },
            WorkspaceError::HookTimeout(hook) => {
                let mut text = "hook_timeout hook=".to_owned();
                text.append(*hook);
                text
            },
            WorkspaceError::InvalidCwd { cwd, workspace_path } => {
                let mut text = "invalid_workspace_cwd cwd=".to_owned();
                text.append(path_text(as_path(cwd)).as_str());
                text.append(" workspace_path=");
                text.append(path_text(as_path(workspace_path)).as_str());
                text
            },
        }
    }

    /// The error is a failure on the disk, at that path and for that reason.
    pub open spec fn is_io(self, path: PathBuf, reason: Seq<char>) -> bool {
        match self {
            WorkspaceError::Io { path: p, reason: r } => p == path && r@ == reason,
            _ => false,
        }
    }
}

/// A character of a key: what is no letter, digit, `.`, `_` or `-` becomes `_`.
pub open spec fn key_char_of(c: char) -> char {
    if key_char(c) {
        c
    } else {
        '_'
    }
}

/// The key of the workspace of an issue.
pub open spec fn key_of(identifier: Seq<char>) -> Seq<char> {
    if identifier.len() == 0 {
        seq!['_']
    } else {
        identifier.map_values(|c: char| key_char_of(c))
    }
}

/// The key of the workspace of an issue.
pub fn sanitize_workspace_key(identifier: &str) -> (r: String)
    ensures
        r@ == key_of(identifier@),
{
    let v = chars_of(identifier);
    let mut key = String::new();
    let mut i: usize = 0;
    while i < v.len()
        invariant
            i <= v@.len(),
            v@ == identifier@,
            key@ == v@.take(i as int).map_values(|c: char| key_char_of(c)),
        decreases v@.len() - i,
    {
        let c = v[i];
        let ghost before = key@;
        if is_ascii_letter(c) || is_ascii_digit(c) || c == '.' || c == '_' || c == '-' {
            key.push(c);
        } else {
            key.push('_');
        }
        assert(key@ =~= v@.take(i + 1).map_values(|c: char| key_char_of(c)));
        i += 1;
    }
    assert(v@.take(v@.len() as int) == v@);
    if v.len() == 0 {
        key.push('_');
        assert(key@ =~= seq!['_']);
    }
    key
}

/// A key is never empty and holds nothing but ASCII letters, digits, `.`, `_`
/// and `-`; a text that is such already is its own key.
pub proof fn key_is_clean(identifier: Seq<char>)
    ensures
        key_of(identifier).len() > 0,
        forall|i: int| 0 <= i < key_of(identifier).len() ==> key_char(#[trigger] key_of(identifier)[i]),
        identifier.len() > 0 && (forall|i: int|
            0 <= i < identifier.len() ==> key_char(#[trigger] identifier[i])) ==> key_of(identifier)
            == identifier,
{
    if identifier.len() > 0 && (forall|i: int|
        0 <= i < identifier.len() ==> key_char(#[trigger] identifier[i])) {
        assert(key_of(identifier) =~= identifier);
    }
}

/// The key of a key is the key.
pub proof fn key_of_key(identifier: Seq<char>)
    ensures
        key_of(key_of(identifier)) == key_of(identifier),
{
    key_is_clean(identifier);
    key_is_clean(key_of(identifier));
}

/// All components of the two paths are steady.
pub open spec fn both_prefix_free(a: &Path, b: &Path) -> bool {
    prefix_free(path_parts(a)) && prefix_free(path_parts(b))
}

/// The path begins with the root, both normalized.
pub open spec fn inside(root: &Path, path: &Path) -> bool {
    path_starts(normal_path(path_parts(path)), normal_path(path_parts(root)))
}

/// The error says that the path, normalized, is not below the root.
pub open spec fn says_outside(e: WorkspaceError, root: &Path, path: &Path) -> bool {
    match e {
        WorkspaceError::OutsideRoot { path: p, root: q } => {
            &&& path_of(&p) == normal_path(path_parts(path))
            &&& path_of(&q) == normal_path(path_parts(root))
            &&& both_prefix_free(root, path) ==> {
                &&& buf_parts(p) == normalized(path_parts(path))
                &&& buf_parts(q) == normalized(path_parts(root))
            }
        },
        _ => false,
    }
}

/// Accepts a path that begins with the root, both normalized. Where all
/// components are steady, these decide.
pub fn ensure_inside_root(root: &Path, path: &Path) -> (r: Result<(), WorkspaceError>)
    ensures
        r is Ok == inside(root, path),
        r matches Err(e) ==> says_outside(e, root, path),
        path_parts(root) == path_parts(path) ==> r is Ok,
        both_prefix_free(root, path) ==> r is Ok == starts_with_parts(
            normalized(path_parts(path)),
            normalized(path_parts(root)),
        ),
{
    proof {
        normalized_is_plain(path_parts(root));
        normalized_is_plain(path_parts(path));
    }
    let root = normalize_components(root);
    let path = normalize_components(path);
    if path_starts_with(&path, &root) {
        Ok(())
    } else {
        Err(WorkspaceError::OutsideRoot { path, root })
    }
}

/// Accepts a working directory that is the workspace, both normalized; every
/// directory is its own workspace. Where all components are steady, these decide.
pub fn validate_agent_cwd(cwd: &Path, workspace_path: &Path) -> (r: Result<(), WorkspaceError>)
    ensures
        r is Ok == same_place(
            normal_path(path_parts(cwd)),
            normal_path(path_parts(workspace_path)),
        ),
        path_parts(cwd) == path_parts(workspace_path) ==> r is Ok,
        both_prefix_free(cwd, workspace_path) ==> r is Ok == (normalized(path_parts(cwd))
            == normalized(path_parts(workspace_path))),
        match r {
            Ok(_) => true,
            Err(WorkspaceError::InvalidCwd { cwd: p, workspace_path: q }) => {
                &&& path_of(&p) == normal_path(path_parts(cwd))
                &&& path_of(&q) == normal_path(path_parts(workspace_path))
                &&& both_prefix_free(cwd, workspace_path) ==> {
                    &&& buf_parts(p) == normalized(path_parts(cwd))
                    &&& buf_parts(q) == normalized(path_parts(workspace_path))
                }
            },
            Err(_) => false,
        },
{
    proof {
        normalized_is_plain(path_parts(cwd));
        normalized_is_plain(path_parts(workspace_path));
    }
    let cwd = normalize_components(cwd);
    let workspace_path = normalize_components(workspace_path);
    if same_path(&cwd, &workspace_path) {
        Ok(())
    } else {
        Err(WorkspaceError::InvalidCwd { cwd, workspace_path })
    }
}

/// Where the workspaces are, and what they are called.
#[derive(Debug)]
pub struct WorkspaceManager {
    root: PathBuf,
}

/// The workspace of an issue.
#[derive(Debug)]
pub struct Workspace {
    pub path: PathBuf,
    pub workspace_key: String,
    pub created_now: bool,
}

impl Clone for WorkspaceManager {
    fn clone(&self) -> (r: WorkspaceManager)
        ensures
            r == *self,
    {
        WorkspaceManager { root: self.root.clone() }
    }
}

impl Clone for Workspace {
    fn clone(&self) -> (r: Workspace)
        ensures
            r.path == self.path,
            r.workspace_key@ == self.workspace_key@,
            r.created_now == self.created_now,
    {
        Workspace {
            path: self.path.clone(),
            workspace_key: self.workspace_key.clone(),
            created_now: self.created_now,
        }
    }
}

/// The components of the path of the workspace with that key.
pub open spec fn workspace_parts(root: Seq<PartV>, key: Seq<char>) -> Seq<PartV> {
    normalized(root.push(key_part(key)))
}

impl WorkspaceManager {
    /// The directory that holds the workspaces.
    pub closed spec fn base(self) -> PathBuf {
        self.root
    }

    /// The components of the directory that holds the workspaces.
    pub open spec fn base_parts(self) -> Seq<PartV> {
        buf_parts(self.base())
    }

    /// The components of the path of the workspace of an issue.
    pub open spec fn parts_for(self, identifier: Seq<char>) -> Seq<PartV> {
        workspace_parts(self.base_parts(), key_of(identifier))
    }

    /// The path of the workspace of an issue: that of the key behind the root,
    /// normalized.
    pub open spec fn place_for(self, identifier: Seq<char>) -> &'static Path {
        normal_path(path_parts(path_joined(path_of(&self.base()), text_path(key_of(identifier)))))
    }

    /// The key and the path are those of the workspace of an issue, which lies
    /// below the root.
    pub open spec fn assigns(self, identifier: Seq<char>, key: Seq<char>, path: PathBuf) -> bool {
        &&& key == key_of(identifier)
        &&& path_of(&path) == self.place_for(identifier)
        &&& inside(path_of(&self.base()), path_of(&path))
        &&& prefix_free(self.base_parts()) ==> {
            &&& buf_parts(path) == self.parts_for(identifier)
            &&& starts_with_parts(buf_parts(path), normalized(self.base_parts()))
        }
    }

    /// The error names the workspace of an issue and the root, both normalized.
    pub open spec fn names_place(self, identifier: Seq<char>, e: WorkspaceError) -> bool {
        match e {
            WorkspaceError::OutsideRoot { path, root } => {
                &&& path_of(&path) == normal_path(path_parts(self.place_for(identifier)))
                &&& path_of(&root) == normal_path(self.base_parts())
                &&& prefix_free(self.base_parts()) ==> {
                    &&& buf_parts(path) == self.parts_for(identifier)
                    &&& buf_parts(root) == normalized(self.base_parts())
                }
            },
            _ => false,
        }
    }

    /// The error says that the workspace of an issue would lie outside the root.
    pub open spec fn refuses(self, identifier: Seq<char>, e: WorkspaceError) -> bool {
        &&& self.names_place(identifier, e)
        &&& !inside(path_of(&self.base()), self.place_for(identifier))
        &&& prefix_free(self.base_parts()) ==> !starts_with_parts(
            self.parts_for(identifier),
            normalized(self.base_parts()),
        )
    }

    /// Workspaces below `root`, normalized.
    pub fn new(root: PathBuf) -> (r: WorkspaceManager)
        ensures
            path_of(&r.base()) == normal_path(buf_parts(root)),
            prefix_free(buf_parts(root)) ==> {
                &&& r.base_parts() == normalized(buf_parts(root))
                &&& path_absolute(path_of(&r.base())) == path_absolute(path_of(&root))
            },
    {
        WorkspaceManager { root: normalize_components(as_path(&root)) }
    }

    /// The directory that holds the workspaces.
    pub fn root(&self) -> (r: &Path)
        ensures
            r == path_of(&self.base()),
    {
        as_path(&self.root)
    }

    /// The key and the path of the workspace of an issue. A path outside the root
    /// is an error.
    pub fn workspace_path(&self, issue_identifier: &str) -> (r: Result<
        (String, PathBuf),
        WorkspaceError,
    >)
        ensures
            match r {
                Ok((key, path)) => self.assigns(issue_identifier@, key@, path),
                Err(e) => self.refuses(issue_identifier@, e),
            },
    {
        let key = sanitize_workspace_key(issue_identifier);
        let name = path_from_text(key.as_str());
        let joined = join(as_path(&self.root), as_path(&name));
        proof {
            key_is_clean(issue_identifier@);
            key_part_is_steady(key@);
            let root = buf_parts(self.root);
            assert(buf_parts(name) == seq![key_part(key@)]);
            assert(root + seq![key_part(key@)] == root.push(key_part(key@)));
            joined_normalized(root, buf_parts(name));
            if prefix_free(root) {
                normalized_is_plain(buf_parts(joined));
                plain_is_normalized(normalized(buf_parts(joined)));
            }
        }
        let path = normalize_components(as_path(&joined));
        match ensure_inside_root(as_path(&self.root), as_path(&path)) {
            Ok(_) => Ok((key, path)),
            Err(e) => Err(e),
        }
    }
}

/// The workspace of an issue lies below the root, however the issue is called:
/// its path starts with that of the root, and is that path with the key behind
/// it unless the key is a single dot, which stands for the root itself. Two dots
/// would lead out of the root, unless there is nothing above it.
pub proof fn workspace_below_root(root: Seq<PartV>, identifier: Seq<char>)
    requires
        plain_parts(root),
    ensures
        ({
            let key = key_of(identifier);
            let parts = workspace_parts(root, key);
            &&& key != seq!['.', '.'] ==> starts_with_parts(parts, root)
            &&& key == seq!['.'] ==> parts == root
            &&& key == seq!['.', '.'] ==> parts == parent_parts(root) && (starts_with_parts(
                parts,
                root,
            ) <==> parent_parts(root) == root)
            &&& key != seq!['.'] && key != seq!['.', '.'] ==> parts == root.push(key_part(key))
        }),
{
    let key = key_of(identifier);
    plain_is_normalized(root);
    assert(root.push(key_part(key)).drop_last() == root);
    assert(root.push(key_part(key)).take(root.len() as int) == root);
    assert(root.take(root.len() as int) == root);
    let a = seq!['.'];
    let b = seq!['.', '.'];
    assert(a.len() == 1 && b.len() == 2);
}

/// Issues with different keys have different workspaces, whatever the keys are,
/// as long as neither leads out of the root.
pub proof fn workspaces_apart(root: Seq<PartV>, a: Seq<char>, b: Seq<char>)
    requires
        plain_parts(root),
        key_of(a) != key_of(b),
        key_of(a) != seq!['.', '.'],
        key_of(b) != seq!['.', '.'],
    ensures
        workspace_parts(root, key_of(a)) != workspace_parts(root, key_of(b)),
{
    workspace_below_root(root, a);
    workspace_below_root(root, b);
    encode_utf8_decode_utf8(key_of(a));
    encode_utf8_decode_utf8(key_of(b));
    let x = root.push(key_part(key_of(a)));
    let y = root.push(key_part(key_of(b)));
    assert(x.last() == key_part(key_of(a)) && y.last() == key_part(key_of(b)));
    assert(x.len() == root.len() + 1 && y.len() == root.len() + 1);
}

/// A script that runs in a workspace.
#[derive(Debug)]
pub struct HookCall {
    pub hook: &'static str,
    pub script: String,
    pub cwd: PathBuf,
    pub timeout_ms: u64,
}

impl HookCall {
    /// The call runs that script under that name in that directory.
    pub open spec fn runs(
        self,
        hook: Seq<char>,
        script: Seq<char>,
        cwd: &Path,
        hooks: HooksConfig,
    ) -> bool {
        &&& self.hook@ == hook
        &&& self.script@ == script
        &&& path_of(&self.cwd) == cwd
        &&& self.timeout_ms == hooks.timeout_ms
    }
}

/// The call is there where the script is.
pub open spec fn calls(
    call: Option<HookCall>,
    hook: Seq<char>,
    script: Option<Seq<char>>,
    cwd: &Path,
    hooks: HooksConfig,
) -> bool {
    match (call, script) {
        (Some(c), Some(s)) => c.runs(hook, s, cwd, hooks),
        (None, None) => true,
        _ => false,
    }
}

fn hook_call(hook: &'static str, script: &Option<String>, cwd: &Path, hooks: &HooksConfig) -> (r:
    Option<HookCall>)
    ensures
        calls(r, hook@, opt_text(*script), cwd, *hooks),
{
    match script {
        Some(script) => Some(
            HookCall {
                hook,
                script: script.clone(),
                cwd: to_buf(cwd),
                timeout_ms: hooks.timeout_ms,
            },
        ),
        None => None,
    }
}

/// What became of a script.
pub enum HookOutcome {
    /// It could not be started, or waiting for it failed, for that reason.
    Broken(String),
    /// It ran longer than it may.
    TimedOut,
    /// It ended well.
    Succeeded,
    /// It ended otherwise, with that exit code where there is one.
    Ended(Option<i32>),
}

/// That is the result of a script of which that became.
pub open spec fn tells(
    call: HookCall,
    outcome: HookOutcome,
    result: Result<(), WorkspaceError>,
) -> bool {
    match outcome {
        HookOutcome::Broken(reason) => result matches Err(e) && e.is_io(call.cwd, reason@),
        HookOutcome::TimedOut => result == Err::<(), WorkspaceError>(
            WorkspaceError::HookTimeout(call.hook),
        ),
        HookOutcome::Succeeded => result is Ok,
        HookOutcome::Ended(code) => match result {
            Err(WorkspaceError::HookFailed { hook, status }) => {
                &&& hook == call.hook
                &&& status == (match code {
                    Some(c) => c as int,
                    None => -1,
                })
            },
            _ => false,
        },
    }
}

/// The result of a script.
pub fn hook_result(call: &HookCall, outcome: HookOutcome) -> (r: Result<(), WorkspaceError>)
    ensures
        tells(*call, outcome, r),
{
    match outcome {
        HookOutcome::Broken(reason) => Err(WorkspaceError::Io { path: call.cwd.clone(), reason }),
        HookOutcome::TimedOut => Err(WorkspaceError::HookTimeout(call.hook)),
        HookOutcome::Succeeded => Ok(()),
        HookOutcome::Ended(code) => Err(
            WorkspaceError::HookFailed {
                hook: call.hook,
                status: match code {
                    Some(c) => c,
                    None => -1,
                },
            },
        ),
    }
}

/// The script that runs before a session, if there is one. Its failure ends the
/// session.
pub fn run_before_run(path: &Path, hooks: &HooksConfig) -> (r: Option<HookCall>)
    ensures
        calls(r, "before_run"@, opt_text(hooks.before_run), path, *hooks),
{
    hook_call("before_run", &hooks.before_run, path, hooks)
}

/// The script that runs after a session, if there is one. Its failure is
/// ignored.
pub fn run_after_run(path: &Path, hooks: &HooksConfig) -> (r: Option<HookCall>)
    ensures
        calls(r, "after_run"@, opt_text(hooks.after_run), path, *hooks),
{
    hook_call("after_run", &hooks.after_run, path, hooks)
}

/// The next thing to do on the way to a workspace.
pub enum EnsureStep {
    /// Make the directory that holds the workspaces, with all above it.
    MakeRoot { root: PathBuf },
    /// Find out whether there is anything at the path.
    Probe { key: String, path: PathBuf },
    /// Find out whether what is at the path is a directory.
    Inspect { key: String, path: PathBuf },
    /// Make the directory.
    Make { key: String, path: PathBuf },
    /// Run the script for new workspaces.
    Hook { key: String, path: PathBuf, call: HookCall },
    /// Nothing more.
    Finished(Result<Workspace, WorkspaceError>),
}

impl EnsureStep {
    /// The workspace is there.
    pub open spec fn is_ready(self, key: String, path: PathBuf, created_now: bool) -> bool {
        self == EnsureStep::Finished(Ok(Workspace { path, workspace_key: key, created_now }))
    }

    /// There is no workspace, for that reason on the disk.
    pub open spec fn has_failed(self, path: PathBuf, reason: Seq<char>) -> bool {
        match self {
            EnsureStep::Finished(Err(e)) => e.is_io(path, reason),
            _ => false,
        }
    }
}

/// The next thing to do on the way to removing a workspace.
pub enum RemoveStep {
    /// Find out whether there is anything at the path.
    Probe { path: PathBuf },
    /// Run the script for workspaces that go away.
    Hook { path: PathBuf, call: HookCall },
    /// Remove the directory with all that it holds.
    Remove { path: PathBuf },
    /// Nothing more.
    Finished(Result<(), WorkspaceError>),
}

impl RemoveStep {
    /// The path that the step is about.
    pub open spec fn target(self) -> Option<PathBuf> {
        match self {
            RemoveStep::Probe { path } => Some(path),
            RemoveStep::Hook { path, call } => Some(path),
            RemoveStep::Remove { path } => Some(path),
            RemoveStep::Finished(_) => None,
        }
    }
}

impl WorkspaceManager {
    /// There is a workspace of an issue to remove: it lies below the root and is
    /// not the root itself.
    pub open spec fn removable(self, identifier: Seq<char>) -> bool {
        &&& inside(path_of(&self.base()), self.place_for(identifier))
        &&& !inside(self.place_for(identifier), path_of(&self.base()))
    }

    /// The path is that of the workspace of an issue, and not that of the root.
    pub open spec fn removes(self, identifier: Seq<char>, path: PathBuf) -> bool {
        &&& self.assigns(identifier, key_of(identifier), path)
        &&& self.removable(identifier)
        &&& buf_parts(path) != self.base_parts()
        &&& prefix_free(self.base_parts()) ==> buf_parts(path).len() > normalized(
            self.base_parts(),
        ).len()
    }

    /// The error says that the workspace of an issue would lie outside the root,
    /// or would be the root.
    pub open spec fn spares(self, identifier: Seq<char>, e: WorkspaceError) -> bool {
        &&& self.names_place(identifier, e)
        &&& !self.removable(identifier)
        &&& prefix_free(self.base_parts()) ==> {
            ||| !starts_with_parts(self.parts_for(identifier), normalized(self.base_parts()))
            ||| self.parts_for(identifier) == normalized(self.base_parts())
        }
    }

    /// That is what follows when the root was made, or could not be.
    pub open spec fn follows_root(
        self,
        identifier: Seq<char>,
        made: Result<(), String>,
        step: EnsureStep,
    ) -> bool {
        match made {
            Ok(_) => match step {
                EnsureStep::Probe { key, path } => self.assigns(identifier, key@, path),
                EnsureStep::Finished(Err(e)) => self.refuses(identifier, e),
                _ => false,
            },
            Err(reason) => step.has_failed(self.base(), reason@),
        }
    }

    /// That is the first step towards removing the workspace of an issue.
    pub open spec fn begins_removal(self, identifier: Seq<char>, step: RemoveStep) -> bool {
        match step {
            RemoveStep::Probe { path } => self.removes(identifier, path),
            RemoveStep::Finished(Err(e)) => self.spares(identifier, e),
            _ => false,
        }
    }
}

impl WorkspaceManager {
    /// The first step towards a workspace.
    pub fn ensure_workspace(&self) -> (r: EnsureStep)
        ensures
            r == (EnsureStep::MakeRoot { root: self.base() }),
    {
        EnsureStep::MakeRoot { root: self.root.clone() }
    }

    /// What follows when the root was made, or could not be.
    pub fn root_made(&self, issue_identifier: &str, made: Result<(), String>) -> (r: EnsureStep)
        ensures
            self.follows_root(issue_identifier@, made, r),
    {
        match made {
            Ok(_) => match self.workspace_path(issue_identifier) {
                Ok((key, path)) => EnsureStep::Probe { key, path },
                Err(e) => EnsureStep::Finished(Err(e)),
            },
            Err(reason) => EnsureStep::Finished(
                Err(WorkspaceError::Io { path: self.root.clone(), reason }),
            ),
        }
    }

    /// The first step towards removing a workspace. The root itself, which is
    /// what an issue called `.` would get, is never removed: that is an error, as
    /// is a path outside the root.
    pub fn remove_workspace(&self, issue_identifier: &str) -> (r: RemoveStep)
        ensures
            self.begins_removal(issue_identifier@, r),
    {
        let path = match self.workspace_path(issue_identifier) {
            Ok((_, path)) => path,
            Err(e) => return RemoveStep::Finished(Err(e)),
        };
        proof {
            let base = self.base_parts();
            if prefix_free(base) {
                key_is_clean(issue_identifier@);
                key_part_is_steady(key_of(issue_identifier@));
                let joined = base.push(key_part(key_of(issue_identifier@)));
                normalized_is_plain(joined);
                normalized_idempotent(joined);
                normalized_is_plain(base);
                let whole = normalized(base);
                let place = normalized(joined);
                assert(whole.take(whole.len() as int) == whole);
                assert(place.take(place.len() as int) == place);
                assert(buf_parts(path) == place);
            }
        }
        match ensure_inside_root(as_path(&path), as_path(&self.root)) {
            Ok(_) => RemoveStep::Finished(
                Err(
                    WorkspaceError::OutsideRoot {
                        path: normalize_components(as_path(&path)),
                        root: normalize_components(as_path(&self.root)),
                    },
                ),
            ),
            Err(_) => RemoveStep::Probe { path },
        }
    }
}

/// That is what follows when it is known whether there is anything at the path.
pub open spec fn follows_presence(
    key: String,
    path: PathBuf,
    present: Result<bool, String>,
    step: EnsureStep,
) -> bool {
    match present {
        Ok(true) => step == (EnsureStep::Inspect { key, path }),
        Ok(false) => step == (EnsureStep::Make { key, path }),
        Err(reason) => step.has_failed(path, reason@),
    }
}

/// What follows when it is known whether there is anything at the path.
pub fn workspace_probed(key: String, path: PathBuf, present: Result<bool, String>) -> (r: EnsureStep)
    ensures
        follows_presence(key, path, present, r),
{
    match present {
        Ok(there) => if there {
            EnsureStep::Inspect { key, path }
        } else {
            EnsureStep::Make { key, path }
        },
        Err(reason) => EnsureStep::Finished(Err(WorkspaceError::Io { path, reason })),
    }
}

/// That is what follows when it is known whether a directory is at the path.
pub open spec fn follows_inspection(
    key: String,
    path: PathBuf,
    is_dir: Result<bool, String>,
    step: EnsureStep,
) -> bool {
    match is_dir {
        Ok(true) => step.is_ready(key, path, false),
        Ok(false) => step == EnsureStep::Finished(Err(WorkspaceError::NotDirectory(path))),
        Err(reason) => step.has_failed(path, reason@),
    }
}

/// What follows when it is known whether a directory is at the path.
pub fn workspace_inspected(key: String, path: PathBuf, is_dir: Result<bool, String>) -> (r:
    EnsureStep)
    ensures
        follows_inspection(key, path, is_dir, r),
{
    match is_dir {
        Ok(dir) => if dir {
            EnsureStep::Finished(
                Ok(Workspace { path, workspace_key: key, created_now: false }),
            )
        } else {
            EnsureStep::Finished(Err(WorkspaceError::NotDirectory(path)))
        },
        Err(reason) => EnsureStep::Finished(Err(WorkspaceError::Io { path, reason })),
    }
}

/// That is what follows when the directory was made, or could not be.
pub open spec fn follows_making(
    key: String,
    path: PathBuf,
    made: Result<(), String>,
    hooks: HooksConfig,
    step: EnsureStep,
) -> bool {
    match made {
        Ok(_) => match opt_text(hooks.after_create) {
            Some(script) => match step {
                EnsureStep::Hook { key: k, path: p, call } => {
                    &&& k == key
                    &&& p == path
                    &&& call.runs("after_create"@, script, path_of(&path), hooks)
                },
                _ => false,
            },
            None => step.is_ready(key, path, true),
        },
        Err(reason) => step.has_failed(path, reason@),
    }
}

/// What follows when the directory was made, or could not be.
pub fn workspace_made(
    key: String,
    path: PathBuf,
    made: Result<(), String>,
    hooks: &HooksConfig,
) -> (r: EnsureStep)
    ensures
        follows_making(key, path, made, *hooks, r),
{
    match made {
        Ok(_) => match hook_call("after_create", &hooks.after_create, as_path(&path), hooks) {
            Some(call) => EnsureStep::Hook { key, path, call },
            None => EnsureStep::Finished(
                Ok(Workspace { path, workspace_key: key, created_now: true }),
            ),
        },
        Err(reason) => EnsureStep::Finished(Err(WorkspaceError::Io { path, reason })),
    }
}

/// That is what follows when the script for new workspaces has run.
pub open spec fn follows_script(
    key: String,
    path: PathBuf,
    result: Result<(), WorkspaceError>,
    step: EnsureStep,
) -> bool {
    match result {
        Ok(_) => step.is_ready(key, path, true),
        Err(e) => step == EnsureStep::Finished(Err::<Workspace, WorkspaceError>(e)),
    }
}

/// What follows when the script for new workspaces has run.
pub fn workspace_hooked(key: String, path: PathBuf, result: Result<(), WorkspaceError>) -> (r:
    EnsureStep)
    ensures
        follows_script(key, path, result, r),
{
    match result {
        Ok(_) => EnsureStep::Finished(
            Ok(Workspace { path, workspace_key: key, created_now: true }),
        ),
        Err(e) => EnsureStep::Finished(Err(e)),
    }
}

/// That is what follows when it is known whether there is a workspace to remove.
pub open spec fn follows_probe(
    path: PathBuf,
    present: Result<bool, String>,
    hooks: HooksConfig,
    step: RemoveStep,
) -> bool {
    match present {
        Ok(true) => match opt_text(hooks.before_remove) {
            Some(script) => match step {
                RemoveStep::Hook { path: p, call } => p == path && call.runs(
                    "before_remove"@,
                    script,
                    path_of(&path),
                    hooks,
                ),
                _ => false,
            },
            None => step == (RemoveStep::Remove { path }),
        },
        Ok(false) => step == RemoveStep::Finished(Ok(())),
        Err(reason) => step matches RemoveStep::Finished(Err(e)) && e.is_io(path, reason@),
    }
}

/// What follows when it is known whether there is a workspace to remove.
pub fn removal_probed(path: PathBuf, present: Result<bool, String>, hooks: &HooksConfig) -> (r:
    RemoveStep)
    ensures
        follows_probe(path, present, *hooks, r),
{
    match present {
        Ok(there) => if there {
            match hook_call("before_remove", &hooks.before_remove, as_path(&path), hooks) {
                Some(call) => RemoveStep::Hook { path, call },
                None => RemoveStep::Remove { path },
            }
        } else {
            RemoveStep::Finished(Ok(()))
        },
        Err(reason) => RemoveStep::Finished(Err(WorkspaceError::Io { path, reason })),
    }
}

/// The script for workspaces that go away has run: whatever came of it, the
/// workspace is removed.
pub fn removal_hooked(path: PathBuf) -> (r: RemoveStep)
    ensures
        r == (RemoveStep::Remove { path }),
{
    RemoveStep::Remove { path }
}

/// That is what follows when the directory was removed, or could not be.
pub open spec fn follows_removal(
    path: PathBuf,
    removed: Result<(), String>,
    step: RemoveStep,
) -> bool {
    match removed {
        Ok(_) => step == RemoveStep::Finished(Ok(())),
        Err(reason) => step matches RemoveStep::Finished(Err(e)) && e.is_io(path, reason@),
    }
}

/// What follows when the directory was removed, or could not be.
pub fn workspace_removed(path: PathBuf, removed: Result<(), String>) -> (r: RemoveStep)
    ensures
        follows_removal(path, removed, r),
{
    match removed {
        Ok(_) => RemoveStep::Finished(Ok(())),
        Err(reason) => RemoveStep::Finished(Err(WorkspaceError::Io { path, reason })),
    }
}

/// No step towards removing the workspace of an issue is about the root, however
/// the issue is called: all of them are about one path, which is that of the
/// issue's own key behind the root.
pub proof fn removal_spares_the_root(
    manager: WorkspaceManager,
    identifier: Seq<char>,
    first: RemoveStep,
    present: Result<bool, String>,
    hooks: HooksConfig,
    second: RemoveStep,
)
    requires
        manager.begins_removal(identifier, first),
        first matches RemoveStep::Probe { path } ==> follows_probe(path, present, hooks, second),
        first is Finished ==> second == first,
    ensures
        first.target() matches Some(path) ==> {
            &&& buf_parts(path) != manager.base_parts()
            &&& inside(path_of(&manager.base()), path_of(&path))
            &&& prefix_free(manager.base_parts()) && plain_parts(manager.base_parts())
                ==> buf_parts(path) == manager.base_parts().push(key_part(key_of(identifier)))
        },
        second.target() matches Some(path) ==> first.target() == Some(path),
{
    if let RemoveStep::Probe { path } = first {
        let base = manager.base_parts();
        if prefix_free(base) && plain_parts(base) {
            plain_is_normalized(base);
            workspace_below_root(base, identifier);
        }
    }
}

/// Removing the workspace of an issue leaves that of every issue with another key
/// alone.
pub proof fn removal_is_own(
    manager: WorkspaceManager,
    identifier: Seq<char>,
    path: PathBuf,
    other: Seq<char>,
    kept: PathBuf,
)
    requires
        prefix_free(manager.base_parts()),
        plain_parts(manager.base_parts()),
        manager.removes(identifier, path),
        manager.assigns(other, key_of(other), kept),
        key_of(identifier) != key_of(other),
    ensures
        buf_parts(path) != buf_parts(kept),
        !starts_with_parts(buf_parts(kept), buf_parts(path)),
{
    let base = manager.base_parts();
    plain_is_normalized(base);
    workspace_below_root(base, identifier);
    workspace_below_root(base, other);
    let x = base.push(key_part(key_of(identifier)));
    let y = base.push(key_part(key_of(other)));
    assert(x.len() == base.len() + 1 && y.len() == base.len() + 1);
    encode_utf8_decode_utf8(key_of(identifier));
    encode_utf8_decode_utf8(key_of(other));
    assert(x.last() == key_part(key_of(identifier)) && y.last() == key_part(key_of(other)));
    assert(y.take(y.len() as int) == y);
}

}
