//! The configuration of the service, read from the front matter of the workflow.

use std::path::{Path, PathBuf};
use std::time::SystemTime;
use vstd::prelude::*;
use vstd::utf8::encode_utf8;

use crate::json::{opt_json, opt_text, Json};
use crate::keyed::StringMap;
use crate::model::{copy_json, copy_text, copy_texts};
use crate::paths::{
    as_path, buf_parts, is_absolute, join, joined_normalized, joined_twice_normalized, key_char,
    key_part, key_part_is_steady, normal_path, normalized, normalized_is_plain, parent,
    parent_parts, path_absolute, path_from_text, path_joined, path_of, path_parent, path_parts,
    plain_is_normalized, plain_parts, prefix_free, rootless, text_path, to_buf, PartV,
};
use crate::text::{
    ascii_digit, ascii_letter, blank, chars_of, is_ascii_digit, is_ascii_letter, is_blank,
    lowercase, same_text, text_of, texts, trimmed,
};
use crate::workflow::{
    front_matter_of, load_workflow, loads, WorkflowDefinition, WorkflowError,
};
use crate::yaml::{json_under, opt_yaml_ref, Yaml, YamlV};

pub use crate::paths::normalize_components;

verus! {

broadcast use vstd::string::group_string_axioms;

/// `std::time::SystemTime`, carried through.
#[verifier::external_type_specification]
#[verifier::external_body]
pub struct ExSystemTime(SystemTime);

/// Where issues come from.
#[derive(Debug)]
pub struct TrackerConfig {
    pub kind: Option<String>,
    pub endpoint: String,
    pub api_key: Option<String>,
    pub project_slug: Option<String>,
    pub active_states: Vec<String>,
    pub terminal_states: Vec<String>,
}

/// How often the tracker is asked.
#[derive(Clone, Copy, Debug, PartialEq, Eq, Structural)]
pub struct PollingConfig {
    pub interval_ms: u64,
}

/// Where workspaces are made.
#[derive(Debug)]
pub struct WorkspaceConfig {
    pub root: PathBuf,
}

/// Scripts that run around the life of a workspace.
#[derive(Debug)]
pub struct HooksConfig {
    pub after_create: Option<String>,
    pub before_run: Option<String>,
    pub after_run: Option<String>,
    pub before_remove: Option<String>,
    pub timeout_ms: u64,
}

/// How many agents run, and for how long.
#[derive(Debug)]
pub struct AgentConfig {
    pub max_concurrent_agents: usize,
    pub max_turns: u32,
    pub max_retry_backoff_ms: u64,
    pub max_concurrent_agents_by_state: StringMap<usize>,
}

/// How the agent is started.
#[derive(Debug)]
pub struct CodexConfig {
    pub command: String,
    pub approval_policy: Option<Json>,
    pub thread_sandbox: Option<Json>,
    pub turn_sandbox_policy: Option<Json>,
    pub turn_timeout_ms: u64,
    pub read_timeout_ms: u64,
    pub stall_timeout_ms: i64,
}

/// Where the status page is served.
#[derive(Clone, Copy, Debug, PartialEq, Eq, Structural)]
pub struct ServerConfig {
    pub port: Option<u16>,
}

/// All settings of the service.
#[derive(Debug)]
pub struct ServiceConfig {
    pub workflow_path: PathBuf,
    pub workflow_dir: PathBuf,
    pub workflow_modified: Option<SystemTime>,
    pub prompt_template: String,
    pub tracker: TrackerConfig,
    pub polling: PollingConfig,
    pub workspace: WorkspaceConfig,
    pub hooks: HooksConfig,
    pub agent: AgentConfig,
    pub codex: CodexConfig,
    pub server: ServerConfig,
}

impl Default for HooksConfig {
    fn default() -> (r: HooksConfig)
        ensures
            r.after_create is None,
            r.before_run is None,
            r.after_run is None,
            r.before_remove is None,
            r.timeout_ms == 0,
    {
        HooksConfig {
            after_create: None,
            before_run: None,
            after_run: None,
            before_remove: None,
            timeout_ms: 0,
        }
    }
}

impl Default for ServerConfig {
    fn default() -> (r: ServerConfig)
        ensures
            r.port is None,
    {
        ServerConfig { port: None }
    }
}

/// Why there is no configuration.
#[derive(Debug)]
pub enum ConfigError {
    Workflow(WorkflowError),
    Invalid { field: &'static str, reason: String },
}

impl ConfigError {
    /// The message of the error.
    pub open spec fn words(self) -> Seq<char> {
        match self {
            ConfigError::Workflow(e) => e.words(),
            ConfigError::Invalid { field, reason } => "invalid_config field="@ + field@
                + " reason="@ + reason@,
        }
    }

    /// The error rejects that field for that reason.
    pub open spec fn rejects(self, field: Seq<char>, reason: Seq<char>) -> bool {
        match self {
            ConfigError::Invalid { field: f, reason: r } => f@ == field && r@ == reason,
            ConfigError::Workflow(_) => false,
        }
    }

    /// The message of the error.
    pub fn to_text(&self) -> (r: String)
        ensures
            r@ == self.words(),
    {
        match self {
            ConfigError::Workflow(e) => e.to_text(),
            ConfigError::Invalid { field, reason } => {
                let mut text = "invalid_config field=".to_owned();
                text.append(*field);
                text.append(" reason=");
                text.append(reason.as_str());
                text
            },
        }
    }

    fn invalid(field: &'static str, reason: &str) -> (r: ConfigError)
        ensures
            r.rejects(field@, reason@),
    {
        ConfigError::Invalid { field, reason: reason.to_owned() }
    }
}

/// What the configuration takes from the process: its variables, as far as they
/// are Unicode, the directory for temporary files, and the current directory
/// where there is one.
#[derive(Debug)]
pub struct Environment {
    pub vars: StringMap<String>,
    pub temp_dir: PathBuf,
    pub current_dir: Option<PathBuf>,
}

impl Environment {
    /// The value of a variable.
    pub open spec fn var_text(self, name: Seq<char>) -> Option<Seq<char>> {
        if self.vars@.contains_key(name) {
            Some(self.vars@[name]@)
        } else {
            None
        }
    }

    /// The current directory, or the root directory where there is none.
    pub open spec fn here(self) -> &'static Path {
        match self.current_dir {
            Some(dir) => path_of(&dir),
            None => text_path("/"@),
        }
    }

    fn var(&self, name: &str) -> (r: Option<String>)
        requires
            self.vars.wf(),
        ensures
            opt_text(r) == self.var_text(name@),
    {
        match self.vars.get(name) {
            Some(value) => Some(value.clone()),
            None => None,
        }
    }
}

/// The section of that name.
pub open spec fn section(root: YamlV, name: Seq<char>) -> Option<YamlV> {
    match root.get(name) {
        Some(v) => if v.as_mapping() is Some {
            Some(v)
        } else {
            None
        },
        None => None,
    }
}

/// The setting of that name in a section.
pub open spec fn setting(section: Option<YamlV>, key: Seq<char>) -> Option<YamlV> {
    match section {
        Some(v) => v.get(key),
        None => None,
    }
}

/// A text without the white space at its ends, where anything is left.
pub open spec fn filled(s: Seq<char>) -> Option<Seq<char>> {
    if blank(s) {
        None
    } else {
        Some(trimmed(s))
    }
}

/// A setting that is a text: without white space at its ends, and not empty.
pub open spec fn text_setting(section: Option<YamlV>, key: Seq<char>) -> Option<Seq<char>> {
    match setting(section, key) {
        Some(v) => match v.as_str() {
            Some(s) => filled(s),
            None => None,
        },
        None => None,
    }
}

/// A setting that is an integer.
pub open spec fn int_setting(section: Option<YamlV>, key: Seq<char>) -> Option<i64> {
    match setting(section, key) {
        Some(v) => v.as_i64(),
        None => None,
    }
}

/// The texts among the items, without white space at their ends; what is no
/// text or holds nothing is skipped.
pub open spec fn filled_texts(items: Seq<YamlV>) -> Seq<Seq<char>>
    decreases items.len(),
{
    if items.len() == 0 {
        Seq::empty()
    } else {
        let before = filled_texts(items.drop_last());
        match items.last().as_str() {
            Some(s) => match filled(s) {
                Some(t) => before.push(t),
                None => before,
            },
            None => before,
        }
    }
}

/// A setting that is a list of texts.
pub open spec fn list_setting(section: Option<YamlV>, key: Seq<char>) -> Option<Seq<Seq<char>>> {
    match setting(section, key) {
        Some(v) => match v.as_sequence() {
            Some(items) => Some(filled_texts(items)),
            None => None,
        },
        None => None,
    }
}

/// The positive limits among the entries, by the name of the state without
/// regard to case. Of two entries for a state the later one counts.
pub open spec fn state_limits(entries: Seq<(YamlV, YamlV)>) -> Map<Seq<char>, usize>
    decreases entries.len(),
{
    if entries.len() == 0 {
        Map::empty()
    } else {
        let before = state_limits(entries.drop_last());
        match (entries.last().0.as_str(), entries.last().1.as_i64()) {
            (Some(state), Some(limit)) => if limit > 0 {
                before.insert(lowercase(state), limit as usize)
            } else {
                before
            },
            _ => before,
        }
    }
}

/// The limits by state that the section of the agent sets.
pub open spec fn limits_setting(section: Option<YamlV>) -> Map<Seq<char>, usize> {
    match setting(section, "max_concurrent_agents_by_state"@) {
        Some(v) => match v.as_mapping() {
            Some(entries) => state_limits(entries),
            None => Map::empty(),
        },
        None => Map::empty(),
    }
}

fn object<'a>(root: &'a Yaml, key: &str) -> (r: Option<&'a Yaml>)
    ensures
        opt_yaml_ref(r) == section(root@, key@),
{
    match root.get(key) {
        Some(v) => match v.as_mapping() {
            Some(_) => Some(v),
            None => None,
        },
        None => None,
    }
}

fn get<'a>(map: Option<&'a Yaml>, key: &str) -> (r: Option<&'a Yaml>)
    ensures
        opt_yaml_ref(r) == setting(opt_yaml_ref(map), key@),
{
    match map {
        Some(map) => map.get(key),
        None => None,
    }
}

fn filled_text(s: &str) -> (r: Option<String>)
    ensures
        opt_text(r) == filled(s@),
{
    let t = s.trim();
    if t.is_empty() {
        None
    } else {
        Some(t.to_owned())
    }
}

fn string(map: Option<&Yaml>, key: &str) -> (r: Option<String>)
    ensures
        opt_text(r) == text_setting(opt_yaml_ref(map), key@),
{
    match get(map, key) {
        Some(v) => match v.as_str() {
            Some(s) => filled_text(s),
            None => None,
        },
        None => None,
    }
}

fn integer(map: Option<&Yaml>, key: &str) -> (r: Option<i64>)
    ensures
        r == int_setting(opt_yaml_ref(map), key@),
{
    match get(map, key) {
        Some(v) => v.as_i64(),
        None => None,
    }
}

fn string_list(map: Option<&Yaml>, key: &str) -> (r: Option<Vec<String>>)
    ensures
        match r {
            Some(list) => list_setting(opt_yaml_ref(map), key@) == Some(texts(list@)),
            None => list_setting(opt_yaml_ref(map), key@) is None,
        },
{
    let value = match get(map, key) {
        Some(v) => v,
        None => return None,
    };
    let values = match value.as_sequence() {
        Some(values) => values,
        None => return None,
    };
    let ghost all = value@.as_sequence()->0;
    let mut list: Vec<String> = Vec::new();
    let mut i: usize = 0;
    assert(texts(list@) =~= filled_texts(all.take(0)));
    while i < values.len()
        invariant
            i <= values@.len(),
            all.len() == values@.len(),
            forall|k: int| 0 <= k < values@.len() ==> all[k] == (#[trigger] values@[k])@,
            texts(list@) == filled_texts(all.take(i as int)),
        decreases values@.len() - i,
    {
        assert(all.take(i + 1).drop_last() == all.take(i as int));
        let ghost before = list@;
        if let Some(s) = values[i].as_str() {
            if let Some(t) = filled_text(s) {
                list.push(t);
                assert(texts(list@) =~= texts(before).push(t@));
            }
        }
        i += 1;
    }
    assert(all.take(all.len() as int) == all);
    Some(list)
}

/// Why a setting that must be positive is not accepted.
pub open spec fn positive_fault(section: Option<YamlV>, key: Seq<char>) -> Option<
    (Seq<char>, Seq<char>),
> {
    match int_setting(section, key) {
        Some(value) => if value > 0 {
            None
        } else {
            Some((key, "must be positive"@))
        },
        None => None,
    }
}

/// Why a setting that must be a positive number of 32 bits is not accepted.
pub open spec fn positive_u32_fault(section: Option<YamlV>, key: Seq<char>) -> Option<
    (Seq<char>, Seq<char>),
> {
    match int_setting(section, key) {
        Some(value) => if 0 < value <= u32::MAX {
            None
        } else {
            Some((key, "must be a positive u32"@))
        },
        None => None,
    }
}

fn positive_usize(map: Option<&Yaml>, key: &'static str, default: usize) -> (r: Result<
    usize,
    ConfigError,
>)
    ensures
        match r {
            Ok(n) => {
                &&& positive_fault(opt_yaml_ref(map), key@) is None
                &&& n == (match int_setting(opt_yaml_ref(map), key@) {
                    Some(value) => value as usize,
                    None => default,
                })
            },
            Err(e) => match positive_fault(opt_yaml_ref(map), key@) {
                Some((field, reason)) => e.rejects(field, reason),
                None => false,
            },
        },
{
    match integer(map, key) {
        Some(value) => if value > 0 {
            Ok(
                #[verifier::truncate]
                (value as usize),
            )
        } else {
            Err(ConfigError::invalid(key, "must be positive"))
        },
        None => Ok(default),
    }
}

fn positive_u32(map: Option<&Yaml>, key: &'static str, default: u32) -> (r: Result<
    u32,
    ConfigError,
>)
    ensures
        match r {
            Ok(n) => {
                &&& positive_u32_fault(opt_yaml_ref(map), key@) is None
                &&& n == (match int_setting(opt_yaml_ref(map), key@) {
                    Some(value) => value as u32,
                    None => default,
                })
            },
            Err(e) => match positive_u32_fault(opt_yaml_ref(map), key@) {
                Some((field, reason)) => e.rejects(field, reason),
                None => false,
            },
        },
{
    match integer(map, key) {
        Some(value) => if value > 0 && value <= u32::MAX as i64 {
            Ok(value as u32)
        } else {
            Err(ConfigError::invalid(key, "must be a positive u32"))
        },
        None => Ok(default),
    }
}

fn positive_u64(map: Option<&Yaml>, key: &'static str, default: u64) -> (r: Result<
    u64,
    ConfigError,
>)
    ensures
        match r {
            Ok(n) => {
                &&& positive_fault(opt_yaml_ref(map), key@) is None
                &&& n == (match int_setting(opt_yaml_ref(map), key@) {
                    Some(value) => value as u64,
                    None => default,
                })
            },
            Err(e) => match positive_fault(opt_yaml_ref(map), key@) {
                Some((field, reason)) => e.rejects(field, reason),
                None => false,
            },
        },
{
    match integer(map, key) {
        Some(value) => if value > 0 {
            Ok(value as u64)
        } else {
            Err(ConfigError::invalid(key, "must be positive"))
        },
        None => Ok(default),
    }
}

fn positive_state_limits(map: Option<&Yaml>) -> (r: StringMap<usize>)
    ensures
        r.wf(),
        r@ == limits_setting(opt_yaml_ref(map)),
{
    let mut limits: StringMap<usize> = StringMap::new();
    let value = match get(map, "max_concurrent_agents_by_state") {
        Some(v) => v,
        None => return limits,
    };
    let entries = match value.as_mapping() {
        Some(entries) => entries,
        None => return limits,
    };
    let ghost all = value@.as_mapping()->0;
    let mut i: usize = 0;
    assert(all.take(0).len() == 0);
    while i < entries.len()
        invariant
            i <= entries@.len(),
            all.len() == entries@.len(),
            forall|k: int|
                0 <= k < entries@.len() ==> all[k] == ((#[trigger] entries@[k]).0@, entries@[k].1@),
            limits.wf(),
            limits@ == state_limits(all.take(i as int)),
        decreases entries@.len() - i,
    {
        assert(all.take(i + 1).drop_last() == all.take(i as int));
        assert(all[i as int] == (entries@[i as int].0@, entries@[i as int].1@));
        if let Some(state) = entries[i].0.as_str() {
            if let Some(limit) = entries[i].1.as_i64() {
                if limit > 0 {
                    limits.insert(
                        state.to_lowercase(),
                        #[verifier::truncate]
                        (limit as usize),
                    );
                }
            }
        }
        i += 1;
    }
    assert(all.take(all.len() as int) == all);
    limits
}

/// A character of the name of a variable.
pub open spec fn name_char(c: char) -> bool {
    c == '_' || ascii_letter(c) || ascii_digit(c)
}

/// The name of the variable that the text stands for: it is a dollar sign and
/// the name.
pub open spec fn variable_of(value: Seq<char>) -> Option<Seq<char>> {
    if value.len() > 1 && value[0] == '$' && (forall|i: int|
        1 <= i < value.len() ==> name_char(#[trigger] value[i])) {
        Some(value.skip(1))
    } else {
        None
    }
}

fn env_name(value: &str) -> (r: Option<String>)
    ensures
        opt_text(r) == variable_of(value@),
{
    let v = chars_of(value);
    if v.len() < 2 || v[0] != '$' {
        return None;
    }
    let mut i: usize = 1;
    while i < v.len()
        invariant
            1 <= i <= v@.len(),
            v@ == value@,
            forall|k: int| 1 <= k < i ==> name_char(#[trigger] v@[k]),
        decreases v@.len() - i,
    {
        if !(v[i] == '_' || is_ascii_letter(v[i]) || is_ascii_digit(v[i])) {
            assert(!name_char(value@[i as int]));
            return None;
        }
        i += 1;
    }
    assert(v@.subrange(1, v@.len() as int) == value@.skip(1));
    Some(text_of(&v, 1, v.len()))
}

/// A secret: a text that names a variable stands for its value, which must hold
/// more than white space.
pub open spec fn secret_of(value: Option<Seq<char>>, env: Environment) -> Option<Seq<char>> {
    match value {
        Some(text) => match variable_of(text) {
            Some(name) => match env.var_text(name) {
                Some(resolved) => if blank(resolved) {
                    None
                } else {
                    Some(resolved)
                },
                None => None,
            },
            None => Some(text),
        },
        None => None,
    }
}

fn resolve_secret(value: Option<String>, env: &Environment) -> (r: Option<String>)
    requires
        env.vars.wf(),
    ensures
        opt_text(r) == secret_of(opt_text(value), *env),
{
    match value {
        Some(text) => match env_name(text.as_str()) {
            Some(name) => match env.var(name.as_str()) {
                Some(resolved) => if is_blank(resolved.as_str()) {
                    None
                } else {
                    Some(resolved)
                },
                None => None,
            },
            None => Some(text),
        },
        None => None,
    }
}

/// A path with its variable, or with its leading `~`, replaced; or the reason
/// why that cannot be done.
pub open spec fn expanded(value: Seq<char>, env: Environment) -> Result<Seq<char>, Seq<char>> {
    match variable_of(value) {
        Some(name) => match env.var_text(name) {
            Some(text) => Ok(text),
            None => Err("environment variable "@ + name + " is not set"@),
        },
        None => if value.len() > 0 && value[0] == '~' && (value.len() == 1 || value[1] == '/') {
            match env.var_text("HOME"@) {
                Some(home) => Ok(home + value.skip(1)),
                None => Err("HOME is not set for ~ expansion"@),
            }
        } else {
            Ok(value)
        },
    }
}

fn expand(value: &str, env: &Environment) -> (r: Result<String, String>)
    requires
        env.vars.wf(),
    ensures
        match r {
            Ok(text) => expanded(value@, *env) == Ok::<Seq<char>, Seq<char>>(text@),
            Err(reason) => expanded(value@, *env) == Err::<Seq<char>, Seq<char>>(reason@),
        },
{
    match env_name(value) {
        Some(name) => match env.var(name.as_str()) {
            Some(text) => Ok(text),
            None => {
                let mut reason = "environment variable ".to_owned();
                reason.append(name.as_str());
                reason.append(" is not set");
                Err(reason)
            },
        },
        None => {
            let v = chars_of(value);
            if v.len() > 0 && v[0] == '~' && (v.len() == 1 || v[1] == '/') {
                match env.var("HOME") {
                    Some(home) => {
                        let mut text = home;
                        let rest = text_of(&v, 1, v.len());
                        assert(rest@ == value@.skip(1));
                        text.append(rest.as_str());
                        Ok(text)
                    },
                    None => Err("HOME is not set for ~ expansion".to_owned()),
                }
            } else {
                Ok(value.to_owned())
            }
        },
    }
}

/// The path is absolute, or can be taken below the current directory, and all
/// components are steady.
pub open spec fn anchored(path: &Path, env: Environment) -> bool {
    &&& prefix_free(path_parts(path))
    &&& path_absolute(path) || (rootless(path_parts(path)) && prefix_free(path_parts(env.here())))
}

/// The path is absolute, or the current directory is.
pub open spec fn fixed(path: &Path, env: Environment) -> bool {
    path_absolute(path) || path_absolute(env.here())
}

/// The path as an absolute one: where it is not, it is joined to the current
/// directory.
pub open spec fn absolute_path(path: &Path, env: Environment) -> &'static Path {
    if path_absolute(path) {
        path
    } else {
        path_joined(env.here(), path)
    }
}

/// The components of the absolute path, normalized: a path that is not absolute
/// lies below the current directory.
pub open spec fn absolute_parts(path: &Path, env: Environment) -> Seq<PartV> {
    if path_absolute(path) {
        normalized(path_parts(path))
    } else {
        normalized(path_parts(env.here()) + path_parts(path))
    }
}

/// The components below `base` as an absolute path, normalized.
pub open spec fn placed_parts(base: &Path, parts: Seq<PartV>, env: Environment) -> Seq<PartV> {
    if path_absolute(base) {
        normalized(path_parts(base) + parts)
    } else {
        normalized(path_parts(env.here()) + path_parts(base) + parts)
    }
}

/// The path as an absolute one, normalized. Where it lies below the current
/// directory, that is the root directory if there is none. What its components
/// are, and that it is absolute, is said where all components are steady.
pub fn normalize_absolute(path: PathBuf, env: &Environment) -> (r: PathBuf)
    ensures
        path_of(&r) == normal_path(path_parts(absolute_path(path_of(&path), *env))),
        anchored(path_of(&path), *env) ==> {
            &&& buf_parts(r) == absolute_parts(path_of(&path), *env)
            &&& fixed(path_of(&path), *env) ==> path_absolute(path_of(&r))
        },
{
    if is_absolute(as_path(&path)) {
        normalize_components(as_path(&path))
    } else {
        let here = match &env.current_dir {
            Some(dir) => dir.clone(),
            None => path_from_text("/"),
        };
        let below = join(as_path(&here), as_path(&path));
        proof {
            joined_normalized(path_parts(env.here()), buf_parts(path));
        }
        normalize_components(as_path(&below))
    }
}

/// A path below `base`, as an absolute path, normalized.
fn place(base: &Path, path: &PathBuf, env: &Environment) -> (r: PathBuf)
    ensures
        path_of(&r) == normal_path(
            path_parts(absolute_path(path_joined(base, path_of(path)), *env)),
        ),
        rootless(buf_parts(*path)) && anchored(base, *env) ==> {
            &&& buf_parts(r) == placed_parts(base, buf_parts(*path), *env)
            &&& fixed(base, *env) ==> path_absolute(path_of(&r))
        },
{
    let joined = join(base, as_path(path));
    proof {
        joined_normalized(path_parts(base), buf_parts(*path));
        joined_twice_normalized(path_parts(env.here()), path_parts(base), buf_parts(*path));
    }
    normalize_absolute(joined, env)
}

/// Where the workspaces are, when the setting is that text: at the path that it
/// spells, below `base` where that is not absolute.
pub open spec fn root_at(root: PathBuf, text: Seq<char>, base: &Path, env: Environment) -> bool {
    let path = text_path(text);
    if path_absolute(path) {
        &&& path_of(&root) == normal_path(path_parts(path))
        &&& prefix_free(path_parts(path)) ==> {
            &&& buf_parts(root) == normalized(path_parts(path))
            &&& path_absolute(path_of(&root))
        }
    } else {
        &&& path_of(&root) == normal_path(path_parts(absolute_path(path_joined(base, path), env)))
        &&& rootless(path_parts(path)) && anchored(base, env) ==> {
            &&& buf_parts(root) == placed_parts(base, path_parts(path), env)
            &&& fixed(base, env) ==> path_absolute(path_of(&root))
        }
    }
}

/// Where the workspaces are, when no setting says where: below the directory for
/// temporary files.
pub open spec fn root_by_default(root: PathBuf, env: Environment) -> bool {
    let base = path_of(&env.temp_dir);
    &&& path_of(&root) == normal_path(
        path_parts(absolute_path(path_joined(base, text_path("symphony_workspaces"@)), env)),
    )
    &&& anchored(base, env) ==> {
        &&& buf_parts(root) == placed_parts(base, seq![default_root_part()], env)
        &&& fixed(base, env) ==> path_absolute(path_of(&root))
    }
}

fn resolve_path(value: &str, base_dir: &Path, env: &Environment) -> (r: Result<
    PathBuf,
    ConfigError,
>)
    requires
        env.vars.wf(),
    ensures
        match expanded(value@, *env) {
            Ok(text) => match r {
                Ok(root) => root_at(root, text, base_dir, *env),
                Err(_) => false,
            },
            Err(reason) => match r {
                Ok(_) => false,
                Err(e) => e.rejects("workspace.root"@, reason),
            },
        },
{
    match expand(value, env) {
        Ok(text) => {
            let path = path_from_text(text.as_str());
            if is_absolute(as_path(&path)) {
                Ok(normalize_absolute(path, env))
            } else {
                Ok(place(base_dir, &path, env))
            }
        },
        Err(reason) => Err(ConfigError::Invalid { field: "workspace.root", reason }),
    }
}

/// The component below the directory for temporary files where workspaces are
/// when no setting says where.
pub open spec fn default_root_part() -> PartV {
    PartV::Normal(encode_utf8("symphony_workspaces"@))
}

fn default_root(env: &Environment) -> (r: PathBuf)
    ensures
        root_by_default(r, *env),
{
    let name = path_from_text("symphony_workspaces");
    proof {
        reveal_strlit("symphony_workspaces");
        let s = "symphony_workspaces"@;
        assert(forall|i: int| 0 <= i < s.len() ==> key_char(#[trigger] s[i]));
        assert(key_part(s) == default_root_part()) by {
            assert(s.len() == 19);
        }
        key_part_is_steady(s);
    }
    place(as_path(&env.temp_dir), &name, env)
}

/// A fault of the configuration: the field and the reason.
pub open spec fn first_of(
    a: Option<(Seq<char>, Seq<char>)>,
    b: Option<(Seq<char>, Seq<char>)>,
) -> Option<(Seq<char>, Seq<char>)> {
    if a is Some {
        a
    } else {
        b
    }
}

/// Why the place of the workspaces is not accepted.
pub open spec fn root_fault(root: YamlV, env: Environment) -> Option<(Seq<char>, Seq<char>)> {
    match text_setting(section(root, "workspace"@), "root"@) {
        Some(value) => match expanded(value, env) {
            Ok(_) => None,
            Err(reason) => Some(("workspace.root"@, reason)),
        },
        None => None,
    }
}

/// How long a hook may run, in milliseconds.
pub open spec fn hooks_timeout(root: YamlV) -> i64 {
    match int_setting(section(root, "hooks"@), "timeout_ms"@) {
        Some(value) => value,
        None => 60_000,
    }
}

/// Why the time for hooks is not accepted.
pub open spec fn hooks_fault(root: YamlV) -> Option<(Seq<char>, Seq<char>)> {
    if hooks_timeout(root) < 0 {
        Some(("hooks.timeout_ms"@, "must be a non-negative integer"@))
    } else if hooks_timeout(root) == 0 {
        Some(("hooks.timeout_ms"@, "must be positive"@))
    } else {
        None
    }
}

/// Why the port is not accepted.
pub open spec fn port_fault(root: YamlV) -> Option<(Seq<char>, Seq<char>)> {
    match int_setting(section(root, "server"@), "port"@) {
        Some(port) => if 0 <= port <= u16::MAX {
            None
        } else {
            Some(("server.port"@, "must be between 0 and 65535"@))
        },
        None => None,
    }
}

/// Why the settings of the agent are not accepted.
pub open spec fn agent_fault(root: YamlV) -> Option<(Seq<char>, Seq<char>)> {
    let agent = section(root, "agent"@);
    first_of(
        positive_fault(agent, "max_concurrent_agents"@),
        first_of(
            positive_u32_fault(agent, "max_turns"@),
            positive_fault(agent, "max_retry_backoff_ms"@),
        ),
    )
}

/// The first fault of the settings, in the order in which they are read.
pub open spec fn first_fault(root: YamlV, env: Environment) -> Option<(Seq<char>, Seq<char>)> {
    let codex = section(root, "codex"@);
    first_of(
        root_fault(root, env),
        first_of(
            hooks_fault(root),
            first_of(
                agent_fault(root),
                first_of(
                    positive_fault(codex, "turn_timeout_ms"@),
                    first_of(
                        positive_fault(codex, "read_timeout_ms"@),
                        first_of(
                            port_fault(root),
                            positive_fault(section(root, "polling"@), "interval_ms"@),
                        ),
                    ),
                ),
            ),
        ),
    )
}

/// The value, or the default where there is none.
pub open spec fn or_default<T>(value: Option<T>, default: T) -> T {
    match value {
        Some(v) => v,
        None => default,
    }
}

/// The states in which an issue is worked on, when no setting says which.
pub open spec fn default_active_states() -> Seq<Seq<char>> {
    seq!["Todo"@, "In Progress"@]
}

/// The states in which an issue is finished, when no setting says which.
pub open spec fn default_terminal_states() -> Seq<Seq<char>> {
    seq!["Closed"@, "Cancelled"@, "Canceled"@, "Duplicate"@, "Done"@]
}

/// The endpoint of the tracker, when no setting says which.
pub open spec fn default_endpoint() -> Seq<char> {
    "https://api.linear.app/graphql"@
}

impl TrackerConfig {
    /// The settings are those of the front matter.
    pub open spec fn is_of(self, root: YamlV, env: Environment) -> bool {
        let tracker = section(root, "tracker"@);
        &&& opt_text(self.kind) == text_setting(tracker, "kind"@)
        &&& self.endpoint@ == or_default(text_setting(tracker, "endpoint"@), default_endpoint())
        &&& opt_text(self.api_key) == secret_of(text_setting(tracker, "api_key"@), env)
        &&& opt_text(self.project_slug) == text_setting(tracker, "project_slug"@)
        &&& texts(self.active_states@) == or_default(
            list_setting(tracker, "active_states"@),
            default_active_states(),
        )
        &&& texts(self.terminal_states@) == or_default(
            list_setting(tracker, "terminal_states"@),
            default_terminal_states(),
        )
    }
}

impl HooksConfig {
    /// The settings are those of the front matter.
    pub open spec fn is_of(self, root: YamlV) -> bool {
        let hooks = section(root, "hooks"@);
        &&& opt_text(self.after_create) == text_setting(hooks, "after_create"@)
        &&& opt_text(self.before_run) == text_setting(hooks, "before_run"@)
        &&& opt_text(self.after_run) == text_setting(hooks, "after_run"@)
        &&& opt_text(self.before_remove) == text_setting(hooks, "before_remove"@)
        &&& self.timeout_ms == hooks_timeout(root)
    }
}

impl AgentConfig {
    /// The settings are those of the front matter.
    pub open spec fn is_of(self, root: YamlV) -> bool {
        let agent = section(root, "agent"@);
        &&& self.max_concurrent_agents == (match int_setting(agent, "max_concurrent_agents"@) {
            Some(value) => value as usize,
            None => 10,
        })
        &&& self.max_turns == or_default(int_setting(agent, "max_turns"@), 20)
        &&& self.max_retry_backoff_ms == or_default(
            int_setting(agent, "max_retry_backoff_ms"@),
            300_000,
        )
        &&& self.max_concurrent_agents_by_state.wf()
        &&& self.max_concurrent_agents_by_state@ == limits_setting(agent)
    }
}

impl CodexConfig {
    /// The policies are those that the front matter holds under `codex`, as JSON.
    pub open spec fn policies_are_of(self, root: YamlV) -> bool {
        &&& opt_json(self.approval_policy) == json_under(root, "codex"@, "approval_policy"@)
        &&& opt_json(self.thread_sandbox) == json_under(root, "codex"@, "thread_sandbox"@)
        &&& opt_json(self.turn_sandbox_policy) == json_under(
            root,
            "codex"@,
            "turn_sandbox_policy"@,
        )
    }

    /// The settings are those of the front matter; the policies are those that
    /// come with it.
    pub open spec fn is_of(self, root: YamlV, workflow: WorkflowDefinition) -> bool {
        let codex = section(root, "codex"@);
        &&& self.command@ == or_default(text_setting(codex, "command"@), "codex app-server"@)
        &&& self.approval_policy == workflow.policies.approval_policy
        &&& self.thread_sandbox == workflow.policies.thread_sandbox
        &&& self.turn_sandbox_policy == workflow.policies.turn_sandbox_policy
        &&& self.turn_timeout_ms == or_default(int_setting(codex, "turn_timeout_ms"@), 3_600_000)
        &&& self.read_timeout_ms == or_default(int_setting(codex, "read_timeout_ms"@), 5_000)
        &&& self.stall_timeout_ms == or_default(int_setting(codex, "stall_timeout_ms"@), 300_000)
    }
}

impl ServiceConfig {
    /// The place of the workspaces is the one that the front matter sets.
    pub open spec fn root_is_of(self, root: YamlV, env: Environment) -> bool {
        match text_setting(section(root, "workspace"@), "root"@) {
            Some(value) => root_at(
                self.workspace.root,
                expanded(value, env)->Ok_0,
                path_of(&self.workflow_dir),
                env,
            ),
            None => root_by_default(self.workspace.root, env),
        }
    }

    /// The configuration is that of the workflow.
    pub open spec fn is_of(self, workflow: WorkflowDefinition, env: Environment) -> bool {
        let root = workflow.config@;
        &&& self.prompt_template@ == workflow.prompt_template@
        &&& self.tracker.is_of(root, env)
        &&& self.polling.interval_ms == or_default(
            int_setting(section(root, "polling"@), "interval_ms"@),
            30_000,
        )
        &&& self.root_is_of(root, env)
        &&& self.hooks.is_of(root)
        &&& self.agent.is_of(root)
        &&& self.codex.is_of(root, workflow)
        &&& self.server.port == (match int_setting(section(root, "server"@), "port"@) {
            Some(port) => Some(port as u16),
            None => None,
        })
    }
}

fn listed_or(list: Option<Vec<String>>, default: Vec<String>) -> (r: Vec<String>)
    ensures
        r == (match list {
            Some(v) => v,
            None => default,
        }),
{
    match list {
        Some(v) => v,
        None => default,
    }
}

fn tracker_config(tracker: Option<&Yaml>, env: &Environment) -> (r: TrackerConfig)
    requires
        env.vars.wf(),
    ensures
        forall|root: YamlV|
            #[trigger] section(root, "tracker"@) == opt_yaml_ref(tracker) ==> r.is_of(root, *env),
{
    let active: Vec<String> = vec!["Todo".to_owned(), "In Progress".to_owned()];
    assert(texts(active@) =~= default_active_states());
    let terminal: Vec<String> = vec![
        "Closed".to_owned(),
        "Cancelled".to_owned(),
        "Canceled".to_owned(),
        "Duplicate".to_owned(),
        "Done".to_owned(),
    ];
    assert(texts(terminal@) =~= default_terminal_states());
    TrackerConfig {
        kind: string(tracker, "kind"),
        endpoint: match string(tracker, "endpoint") {
            Some(text) => text,
            None => "https://api.linear.app/graphql".to_owned(),
        },
        api_key: resolve_secret(string(tracker, "api_key"), env),
        project_slug: string(tracker, "project_slug"),
        active_states: listed_or(string_list(tracker, "active_states"), active),
        terminal_states: listed_or(string_list(tracker, "terminal_states"), terminal),
    }
}

impl ServiceConfig {
    /// The configuration that a workflow sets, or the first of its settings that
    /// is not accepted.
    pub fn from_workflow(
        workflow_path: PathBuf,
        workflow_dir: PathBuf,
        workflow_modified: Option<SystemTime>,
        workflow: WorkflowDefinition,
        env: &Environment,
    ) -> (r: Result<ServiceConfig, ConfigError>)
        requires
            env.vars.wf(),
        ensures
            workflow.policies.wf() ==> (r matches Ok(config) ==> config.wf()),
            workflow.policies.are_of(workflow.config@) ==> (r matches Ok(config)
                ==> config.codex.policies_are_of(workflow.config@)),
            match first_fault(workflow.config@, *env) {
                Some((field, reason)) => match r {
                    Ok(_) => false,
                    Err(e) => e.rejects(field, reason),
                },
                None => match r {
                    Ok(config) => {
                        &&& config.workflow_path == workflow_path
                        &&& config.workflow_dir == workflow_dir
                        &&& config.workflow_modified == workflow_modified
                        &&& config.is_of(workflow, *env)
                    },
                    Err(_) => false,
                },
            },
    {
        let ghost all = workflow.config@;
        let root = &workflow.config;
        let tracker_map = object(root, "tracker");
        let polling_map = object(root, "polling");
        let workspace_map = object(root, "workspace");
        let hooks_map = object(root, "hooks");
        let agent_map = object(root, "agent");
        let codex_map = object(root, "codex");
        let server_map = object(root, "server");

        let tracker = tracker_config(tracker_map, env);
        assert(section(all, "tracker"@) == opt_yaml_ref(tracker_map));

        let workspace_root = match string(workspace_map, "root") {
            Some(value) => match resolve_path(value.as_str(), as_path(&workflow_dir), env) {
                Ok(path) => path,
                Err(e) => return Err(e),
            },
            None => default_root(env),
        };
        assert(root_fault(all, *env) is None);

        let timeout: i64 = match integer(hooks_map, "timeout_ms") {
            Some(value) => value,
            None => 60_000,
        };
        if timeout < 0 {
            return Err(ConfigError::invalid("hooks.timeout_ms", "must be a non-negative integer"));
        }
        if timeout == 0 {
            return Err(ConfigError::invalid("hooks.timeout_ms", "must be positive"));
        }
        assert(hooks_fault(all) is None);

        let max_concurrent_agents: usize = match positive_usize(
            agent_map,
            "max_concurrent_agents",
            10,
        ) {
            Ok(n) => n,
            Err(e) => return Err(e),
        };
        let max_turns: u32 = match positive_u32(agent_map, "max_turns", 20) {
            Ok(n) => n,
            Err(e) => return Err(e),
        };
        let max_retry_backoff_ms: u64 = match positive_u64(
            agent_map,
            "max_retry_backoff_ms",
            300_000,
        ) {
            Ok(n) => n,
            Err(e) => return Err(e),
        };
        assert(agent_fault(all) is None);
        let max_concurrent_agents_by_state = positive_state_limits(agent_map);

        let command = match string(codex_map, "command") {
            Some(text) => text,
            None => "codex app-server".to_owned(),
        };
        let turn_timeout_ms: u64 = match positive_u64(codex_map, "turn_timeout_ms", 3_600_000) {
            Ok(n) => n,
            Err(e) => return Err(e),
        };
        let read_timeout_ms: u64 = match positive_u64(codex_map, "read_timeout_ms", 5_000) {
            Ok(n) => n,
            Err(e) => return Err(e),
        };
        let stall_timeout_ms: i64 = match integer(codex_map, "stall_timeout_ms") {
            Some(value) => value,
            None => 300_000,
        };

        let port: Option<u16> = match integer(server_map, "port") {
            Some(port) => if 0 <= port && port <= u16::MAX as i64 {
                Some(port as u16)
            } else {
                return Err(ConfigError::invalid("server.port", "must be between 0 and 65535"));
            },
            None => None,
        };
        assert(port_fault(all) is None);

        let interval_ms: u64 = match positive_u64(polling_map, "interval_ms", 30_000) {
            Ok(n) => n,
            Err(e) => return Err(e),
        };
        let hooks = HooksConfig {
            after_create: string(hooks_map, "after_create"),
            before_run: string(hooks_map, "before_run"),
            after_run: string(hooks_map, "after_run"),
            before_remove: string(hooks_map, "before_remove"),
            timeout_ms: timeout as u64,
        };

        Ok(
            ServiceConfig {
                workflow_path,
                workflow_dir,
                workflow_modified,
                prompt_template: workflow.prompt_template,
                tracker,
                polling: PollingConfig { interval_ms },
                workspace: WorkspaceConfig { root: workspace_root },
                hooks,
                agent: AgentConfig {
                    max_concurrent_agents,
                    max_turns,
                    max_retry_backoff_ms,
                    max_concurrent_agents_by_state,
                },
                codex: CodexConfig {
                    command,
                    approval_policy: workflow.policies.approval_policy,
                    thread_sandbox: workflow.policies.thread_sandbox,
                    turn_sandbox_policy: workflow.policies.turn_sandbox_policy,
                    turn_timeout_ms,
                    read_timeout_ms,
                    stall_timeout_ms,
                },
                server: ServerConfig { port },
            },
        )
    }
}

/// What the place of the workspaces rests on can be told by its components: they
/// are steady, and lead to an absolute path.
pub open spec fn root_is_told(root: YamlV, dir: PathBuf, env: Environment) -> bool {
    match text_setting(section(root, "workspace"@), "root"@) {
        Some(value) => {
            let path = text_path(expanded(value, env)->Ok_0);
            if path_absolute(path) {
                prefix_free(path_parts(path))
            } else {
                &&& rootless(path_parts(path))
                &&& anchored(path_of(&dir), env)
                &&& fixed(path_of(&dir), env)
            }
        },
        None => anchored(path_of(&env.temp_dir), env) && fixed(path_of(&env.temp_dir), env),
    }
}

/// The place of the workspaces in a loaded configuration is absolute and
/// normalized: it holds neither `.` nor `..`, and normalizing it again changes
/// nothing.
pub proof fn loaded_root_is_settled(
    config: ServiceConfig,
    workflow: WorkflowDefinition,
    env: Environment,
)
    requires
        config.is_of(workflow, env),
        root_is_told(workflow.config@, config.workflow_dir, env),
    ensures
        path_absolute(path_of(&config.workspace.root)),
        plain_parts(buf_parts(config.workspace.root)),
        normalized(buf_parts(config.workspace.root)) == buf_parts(config.workspace.root),
{
    let base = match text_setting(section(workflow.config@, "workspace"@), "root"@) {
        Some(value) => path_of(&config.workflow_dir),
        None => path_of(&env.temp_dir),
    };
    let parts = match text_setting(section(workflow.config@, "workspace"@), "root"@) {
        Some(value) => path_parts(text_path(expanded(value, env)->Ok_0)),
        None => seq![default_root_part()],
    };
    normalized_is_plain(parts);
    normalized_is_plain(path_parts(base) + parts);
    normalized_is_plain(path_parts(env.here()) + path_parts(base) + parts);
    plain_is_normalized(buf_parts(config.workspace.root));
}

/// The policies of a configuration that was loaded from a file are those that the
/// front matter of the file holds; without front matter there are none.
pub proof fn loaded_policies_are_those_of_the_file(
    config: ServiceConfig,
    workflow: WorkflowDefinition,
    env: Environment,
    path: &Path,
    content: Seq<char>,
)
    requires
        config.is_of(workflow, env),
        loads(path, content, Ok(workflow)),
    ensures
        match front_matter_of(content) {
            Some(Ok(front)) => config.codex.policies_are_of(front.untagged()),
            Some(Err(_)) => false,
            None => {
                &&& config.codex.approval_policy is None
                &&& config.codex.thread_sandbox is None
                &&& config.codex.turn_sandbox_policy is None
            },
        },
{
}

proof fn state_limits_are_positive(entries: Seq<(YamlV, YamlV)>, state: Seq<char>)
    requires
        state_limits(entries).contains_key(state),
    ensures
        exists|name: Seq<char>| state == #[trigger] lowercase(name),
        i64::MAX <= usize::MAX ==> state_limits(entries)[state] > 0,
    decreases entries.len(),
{
    if entries.len() > 0 {
        if state_limits(entries.drop_last()).contains_key(state) {
            state_limits_are_positive(entries.drop_last(), state);
        }
    }
}

/// Every limit and every time in a loaded configuration is positive, as far as it
/// must be, and the states that have a limit of their own are spelled in the form
/// in which states are compared. A number of agents must fit into a `usize` for
/// that, as every one does on 64 bits.
pub proof fn loaded_limits_are_positive(
    config: ServiceConfig,
    workflow: WorkflowDefinition,
    env: Environment,
    state: Seq<char>,
)
    requires
        config.is_of(workflow, env),
        first_fault(workflow.config@, env) is None,
    ensures
        config.polling.interval_ms > 0,
        config.hooks.timeout_ms > 0,
        config.agent.max_turns > 0,
        config.agent.max_retry_backoff_ms > 0,
        config.codex.turn_timeout_ms > 0,
        config.codex.read_timeout_ms > 0,
        i64::MAX <= usize::MAX ==> config.agent.max_concurrent_agents > 0,
        config.agent.max_concurrent_agents_by_state@.contains_key(state) ==> {
            &&& exists|name: Seq<char>| state == #[trigger] lowercase(name)
            &&& i64::MAX <= usize::MAX
                ==> config.agent.max_concurrent_agents_by_state@[state] > 0
        },
{
    let agent = section(workflow.config@, "agent"@);
    if limits_setting(agent).contains_key(state) {
        let value = setting(agent, "max_concurrent_agents_by_state"@)->0;
        state_limits_are_positive(value.as_mapping()->0, state);
    }
}

/// An absent text counts as an empty one.
pub open spec fn text_or_empty(s: Option<Seq<char>>) -> Seq<char> {
    or_default(s, Seq::empty())
}

fn missing_or_blank(s: &Option<String>) -> (r: bool)
    ensures
        r == blank(text_or_empty(opt_text(*s))),
{
    match s {
        Some(text) => is_blank(text.as_str()),
        None => true,
    }
}

impl ServiceConfig {
    /// Why no issue can be dispatched with this configuration.
    pub open spec fn dispatch_fault(self) -> Option<(Seq<char>, Seq<char>)> {
        if opt_text(self.tracker.kind) != Some("linear"@) {
            Some(("tracker.kind"@, "supported value is linear"@))
        } else if blank(text_or_empty(opt_text(self.tracker.api_key))) {
            Some(("tracker.api_key"@, "missing after environment resolution"@))
        } else if blank(text_or_empty(opt_text(self.tracker.project_slug))) {
            Some(("tracker.project_slug"@, "required for linear tracker"@))
        } else if blank(self.codex.command@) {
            Some(("codex.command"@, "must be non-empty"@))
        } else {
            None
        }
    }

    /// Whether issues can be dispatched with this configuration.
    pub fn validate_for_dispatch(&self) -> (r: Result<(), ConfigError>)
        ensures
            match self.dispatch_fault() {
                Some((field, reason)) => match r {
                    Ok(_) => false,
                    Err(e) => e.rejects(field, reason),
                },
                None => r is Ok,
            },
    {
        let linear = match &self.tracker.kind {
            Some(kind) => same_text(kind.as_str(), "linear"),
            None => false,
        };
        if !linear {
            return Err(ConfigError::invalid("tracker.kind", "supported value is linear"));
        }
        if missing_or_blank(&self.tracker.api_key) {
            return Err(
                ConfigError::invalid("tracker.api_key", "missing after environment resolution"),
            );
        }
        if missing_or_blank(&self.tracker.project_slug) {
            return Err(ConfigError::invalid("tracker.project_slug", "required for linear tracker"));
        }
        if is_blank(self.codex.command.as_str()) {
            return Err(ConfigError::invalid("codex.command", "must be non-empty"));
        }
        Ok(())
    }

    /// The two configurations hold the same settings.
    pub open spec fn same(self, other: ServiceConfig) -> bool {
        &&& self.workflow_path == other.workflow_path
        &&& self.workflow_dir == other.workflow_dir
        &&& self.workflow_modified == other.workflow_modified
        &&& self.prompt_template@ == other.prompt_template@
        &&& self.tracker.same(other.tracker)
        &&& self.polling == other.polling
        &&& self.workspace.root == other.workspace.root
        &&& self.hooks.same(other.hooks)
        &&& self.agent.same(other.agent)
        &&& self.codex.same(other.codex)
        &&& self.server == other.server
    }

    /// What the settings rest on is well formed.
    pub open spec fn wf(self) -> bool {
        &&& self.agent.max_concurrent_agents_by_state.wf()
        &&& self.codex.approval_policy matches Some(j) ==> j@.wf()
        &&& self.codex.thread_sandbox matches Some(j) ==> j@.wf()
        &&& self.codex.turn_sandbox_policy matches Some(j) ==> j@.wf()
    }
}

impl TrackerConfig {
    /// The two hold the same settings.
    pub open spec fn same(self, other: TrackerConfig) -> bool {
        &&& opt_text(self.kind) == opt_text(other.kind)
        &&& self.endpoint@ == other.endpoint@
        &&& opt_text(self.api_key) == opt_text(other.api_key)
        &&& opt_text(self.project_slug) == opt_text(other.project_slug)
        &&& texts(self.active_states@) == texts(other.active_states@)
        &&& texts(self.terminal_states@) == texts(other.terminal_states@)
    }
}

impl HooksConfig {
    /// The two hold the same settings.
    pub open spec fn same(self, other: HooksConfig) -> bool {
        &&& opt_text(self.after_create) == opt_text(other.after_create)
        &&& opt_text(self.before_run) == opt_text(other.before_run)
        &&& opt_text(self.after_run) == opt_text(other.after_run)
        &&& opt_text(self.before_remove) == opt_text(other.before_remove)
        &&& self.timeout_ms == other.timeout_ms
    }
}

impl AgentConfig {
    /// The two hold the same settings.
    pub open spec fn same(self, other: AgentConfig) -> bool {
        &&& self.max_concurrent_agents == other.max_concurrent_agents
        &&& self.max_turns == other.max_turns
        &&& self.max_retry_backoff_ms == other.max_retry_backoff_ms
        &&& self.max_concurrent_agents_by_state@ == other.max_concurrent_agents_by_state@
    }
}

impl CodexConfig {
    /// The two hold the same settings.
    pub open spec fn same(self, other: CodexConfig) -> bool {
        &&& self.command@ == other.command@
        &&& opt_json(self.approval_policy) == opt_json(other.approval_policy)
        &&& opt_json(self.thread_sandbox) == opt_json(other.thread_sandbox)
        &&& opt_json(self.turn_sandbox_policy) == opt_json(other.turn_sandbox_policy)
        &&& self.turn_timeout_ms == other.turn_timeout_ms
        &&& self.read_timeout_ms == other.read_timeout_ms
        &&& self.stall_timeout_ms == other.stall_timeout_ms
    }
}

/// `SystemTime::clone`: the same time.
pub assume_specification[ <SystemTime as Clone>::clone ](t: &SystemTime) -> (r: SystemTime)
    ensures
        r == *t,
;

impl Clone for ServiceConfig {
    fn clone(&self) -> (r: ServiceConfig)
        ensures
            r.same(*self),
            self.wf() ==> r.wf(),
    {
        ServiceConfig {
            workflow_path: self.workflow_path.clone(),
            workflow_dir: self.workflow_dir.clone(),
            workflow_modified: match &self.workflow_modified {
                Some(time) => Some(time.clone()),
                None => None,
            },
            prompt_template: self.prompt_template.clone(),
            tracker: TrackerConfig {
                kind: copy_text(&self.tracker.kind),
                endpoint: self.tracker.endpoint.clone(),
                api_key: copy_text(&self.tracker.api_key),
                project_slug: copy_text(&self.tracker.project_slug),
                active_states: copy_texts(&self.tracker.active_states),
                terminal_states: copy_texts(&self.tracker.terminal_states),
            },
            polling: self.polling,
            workspace: WorkspaceConfig { root: self.workspace.root.clone() },
            hooks: HooksConfig {
                after_create: copy_text(&self.hooks.after_create),
                before_run: copy_text(&self.hooks.before_run),
                after_run: copy_text(&self.hooks.after_run),
                before_remove: copy_text(&self.hooks.before_remove),
                timeout_ms: self.hooks.timeout_ms,
            },
            agent: AgentConfig {
                max_concurrent_agents: self.agent.max_concurrent_agents,
                max_turns: self.agent.max_turns,
                max_retry_backoff_ms: self.agent.max_retry_backoff_ms,
                max_concurrent_agents_by_state: self.agent.max_concurrent_agents_by_state.clone(),
            },
            codex: CodexConfig {
                command: self.codex.command.clone(),
                approval_policy: copy_json(&self.codex.approval_policy),
                thread_sandbox: copy_json(&self.codex.thread_sandbox),
                turn_sandbox_policy: copy_json(&self.codex.turn_sandbox_policy),
                turn_timeout_ms: self.codex.turn_timeout_ms,
                read_timeout_ms: self.codex.read_timeout_ms,
                stall_timeout_ms: self.codex.stall_timeout_ms,
            },
            server: self.server,
        }
    }
}

/// What was found where the workflow file is looked for.
pub enum WorkflowFile {
    /// There is no such file.
    Absent(PathBuf),
    /// There is such a file, but its real path could not be found out.
    Unresolved(PathBuf),
    /// The file at its real path: when it was changed, and its content where it
    /// could be read.
    Found { path: PathBuf, modified: Option<SystemTime>, content: Option<String> },
}

/// The error says that there is no workflow file at that path.
pub open spec fn is_missing(e: ConfigError, path: &Path) -> bool {
    match e {
        ConfigError::Workflow(WorkflowError::MissingWorkflowFile(p)) => path_of(&p) == path,
        _ => false,
    }
}

/// The error says that there is no workflow file at a path with these
/// components.
pub open spec fn missing_at(e: ConfigError, parts: Seq<PartV>) -> bool {
    match e {
        ConfigError::Workflow(WorkflowError::MissingWorkflowFile(p)) => buf_parts(p) == parts,
        _ => false,
    }
}

/// The directory of the workflow file: its parent, or the current one where it
/// has none.
pub open spec fn directory_of(path: PathBuf, dir: PathBuf) -> bool {
    &&& path_of(&dir) == (match path_parent(path_of(&path)) {
        Some(up) => up,
        None => text_path("."@),
    })
    &&& path_parent(path_of(&path)) is Some ==> buf_parts(dir) == parent_parts(buf_parts(path))
}

/// The configuration that the workflow file sets.
pub fn load_service_config(file: WorkflowFile, env: &Environment) -> (r: Result<
    ServiceConfig,
    ConfigError,
>)
    requires
        env.vars.wf(),
    ensures
        match file {
            WorkflowFile::Absent(path) => match r {
                Ok(_) => false,
                Err(e) => {
                    &&& e matches ConfigError::Workflow(WorkflowError::MissingWorkflowFile(_))
                    &&& is_missing(
                        e,
                        normal_path(path_parts(absolute_path(path_of(&path), *env))),
                    )
                    &&& anchored(path_of(&path), *env) ==> missing_at(
                        e,
                        absolute_parts(path_of(&path), *env),
                    )
                },
            },
            WorkflowFile::Unresolved(path) => r == Err::<ServiceConfig, ConfigError>(
                ConfigError::Workflow(WorkflowError::MissingWorkflowFile(path)),
            ),
            WorkflowFile::Found { path, modified, content: None } => match r {
                Ok(_) => false,
                Err(e) => is_missing(e, path_of(&path)),
            },
            WorkflowFile::Found { path, modified, content: Some(content) } => match r {
                Ok(config) => exists|workflow: WorkflowDefinition|
                    {
                        &&& #[trigger] loads(path_of(&path), content@, Ok(workflow))
                        &&& first_fault(workflow.config@, *env) is None
                        &&& config.workflow_path == path
                        &&& directory_of(path, config.workflow_dir)
                        &&& config.workflow_modified == modified
                        &&& config.is_of(workflow, *env)
                    },
                Err(ConfigError::Workflow(e)) => loads(path_of(&path), content@, Err(e)),
                Err(e) => exists|workflow: WorkflowDefinition|
                    {
                        &&& #[trigger] loads(path_of(&path), content@, Ok(workflow))
                        &&& match first_fault(workflow.config@, *env) {
                            Some((field, reason)) => e.rejects(field, reason),
                            None => false,
                        }
                    },
            },
        },
        r matches Ok(config) ==> config.wf(),
{
    match file {
        WorkflowFile::Absent(path) => Err(
            ConfigError::Workflow(
                WorkflowError::MissingWorkflowFile(normalize_absolute(path, env)),
            ),
        ),
        WorkflowFile::Unresolved(path) => Err(
            ConfigError::Workflow(WorkflowError::MissingWorkflowFile(path)),
        ),
        WorkflowFile::Found { path, modified, content } => {
            let dir = match parent(as_path(&path)) {
                Some(dir) => to_buf(dir),
                None => path_from_text("."),
            };
            let loaded = match &content {
                Some(text) => load_workflow(as_path(&path), Some(text.as_str())),
                None => load_workflow(as_path(&path), None),
            };
            match loaded {
                Ok(workflow) => {
                    assert(content matches Some(text) && loads(path_of(&path), text@, Ok(workflow)));
                    ServiceConfig::from_workflow(path, dir, modified, workflow, env)
                },
                Err(e) => Err(ConfigError::Workflow(e)),
            }
        },
    }
}

/// The configuration in force, kept while the workflow file changes.
#[derive(Debug)]
pub struct ConfigManager {
    workflow_path: PathBuf,
    current: ServiceConfig,
    last_error: Option<String>,
}

/// That is what comes of starting with a configuration that was loaded, or could not
/// be.
pub open spec fn begins_with(
    loaded: Result<ServiceConfig, ConfigError>,
    r: Result<ConfigManager, ConfigError>,
) -> bool {
    match loaded {
        Ok(config) => match config.dispatch_fault() {
            Some((field, reason)) => match r {
                Ok(_) => false,
                Err(e) => e.rejects(field, reason),
            },
            None => match r {
                Ok(manager) => {
                    &&& manager.config() == config
                    &&& manager.path() == config.workflow_path
                    &&& manager.error() is None
                },
                Err(_) => false,
            },
        },
        Err(e) => r == Err::<ConfigManager, ConfigError>(e),
    }
}

/// That is what comes of taking over a configuration that was loaded, or could not be.
pub open spec fn refreshes(
    before: ConfigManager,
    loaded: Result<ServiceConfig, ConfigError>,
    after: ConfigManager,
    r: Result<ServiceConfig, ConfigError>,
) -> bool {
    &&& after.path() == before.path()
    &&& match r {
        Ok(config) => {
            &&& loaded matches Ok(new) && {
                &&& new.dispatch_fault() is None
                &&& after.config() == new
                &&& config.same(new)
            }
            &&& after.error() is None
        },
        Err(e) => {
            &&& after.config() == before.config()
            &&& after.error() == Some(e.words())
            &&& match loaded {
                Ok(new) => match new.dispatch_fault() {
                    Some((field, reason)) => e.rejects(field, reason),
                    None => false,
                },
                Err(failed) => e == failed,
            }
        },
    }
}

impl ConfigManager {
    /// The configuration in force can be dispatched with.
    pub closed spec fn wf(self) -> bool {
        &&& self.current.wf()
        &&& self.current.dispatch_fault() is None
    }

    /// The path of the workflow file.
    pub closed spec fn path(self) -> PathBuf {
        self.workflow_path
    }

    /// The configuration in force.
    pub closed spec fn config(self) -> ServiceConfig {
        self.current
    }

    /// Why the workflow file could not be loaded the last time.
    pub closed spec fn error(self) -> Option<Seq<char>> {
        opt_text(self.last_error)
    }

    /// The configuration in force passes validation.
    pub proof fn in_force_is_valid(self)
        requires
            self.wf(),
        ensures
            self.config().wf(),
            self.config().dispatch_fault() is None,
    {
    }

    /// The workflow file that the command line names.
    pub fn workflow_path_from_cli(path: Option<PathBuf>) -> (r: PathBuf)
        ensures
            match path {
                Some(p) => r == p,
                None => path_of(&r) == text_path("WORKFLOW.md"@),
            },
    {
        match path {
            Some(p) => p,
            None => path_from_text("WORKFLOW.md"),
        }
    }

    /// Starts with the configuration that was loaded first, which must pass
    /// validation.
    pub fn load_initial(loaded: Result<ServiceConfig, ConfigError>) -> (r: Result<
        ConfigManager,
        ConfigError,
    >)
        requires
            loaded matches Ok(config) ==> config.wf(),
        ensures
            begins_with(loaded, r),
            r matches Ok(manager) ==> manager.wf(),
    {
        match loaded {
            Ok(config) => match config.validate_for_dispatch() {
                Ok(_) => Ok(
                    ConfigManager {
                        workflow_path: config.workflow_path.clone(),
                        current: config,
                        last_error: None,
                    },
                ),
                Err(e) => Err(e),
            },
            Err(e) => Err(e),
        }
    }

    /// The path of the workflow file, to load it from.
    pub fn workflow_path(&self) -> (r: &PathBuf)
        ensures
            *r == self.path(),
    {
        &self.workflow_path
    }

    /// The configuration in force.
    pub fn current(&self) -> (r: ServiceConfig)
        requires
            self.wf(),
        ensures
            r.same(self.config()),
            r.wf(),
    {
        self.current.clone()
    }

    /// Why the workflow file could not be loaded the last time.
    pub fn last_error(&self) -> (r: Option<String>)
        ensures
            opt_text(r) == self.error(),
    {
        copy_text(&self.last_error)
    }

    /// Takes over what the workflow file holds now. Where it cannot be loaded or
    /// does not pass validation, the configuration in force stays and the error
    /// is kept.
    pub fn refresh_for_dispatch(&mut self, loaded: Result<ServiceConfig, ConfigError>) -> (r: Result<
        ServiceConfig,
        ConfigError,
    >)
        requires
            old(self).wf(),
            loaded matches Ok(config) ==> config.wf(),
        ensures
            final(self).wf(),
            refreshes(*old(self), loaded, *final(self), r),
            r matches Ok(config) ==> config.wf(),
    {
        let failure = match loaded {
            Ok(config) => match config.validate_for_dispatch() {
                Ok(_) => {
                    let copy = config.clone();
                    self.current = config;
                    self.last_error = None;
                    return Ok(copy);
                },
                Err(e) => e,
            },
            Err(e) => e,
        };
        self.last_error = Some(failure.to_text());
        Err(failure)
    }
}

}
