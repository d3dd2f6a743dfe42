//! The workflow file: optional YAML front matter, and the prompt behind it.

use std::path::{Path, PathBuf};
use vstd::prelude::*;

use crate::json::{opt_json, Json};
use crate::paths::{as_path, path_of, path_text, path_words, to_buf};
use crate::text::{
    line_feed_at_bounds, lines_of, same_text, split_lines, texts, trimmed, trimmed_back,
    white_space,
};
use crate::yaml::{json_under, json_value, value_from_text, yaml_parsed, Yaml, YamlV};

verus! {

broadcast use vstd::string::group_string_axioms;

/// The settings of the agent that are handed on as JSON.
#[derive(Debug)]
pub struct PolicySettings {
    pub approval_policy: Option<Json>,
    pub thread_sandbox: Option<Json>,
    pub turn_sandbox_policy: Option<Json>,
}

impl PolicySettings {
    /// Nothing but well-formed JSON.
    pub open spec fn wf(self) -> bool {
        &&& self.approval_policy matches Some(j) ==> j@.wf()
        &&& self.thread_sandbox matches Some(j) ==> j@.wf()
        &&& self.turn_sandbox_policy matches Some(j) ==> j@.wf()
    }

    /// The settings are those that the front matter holds under `codex`.
    pub open spec fn are_of(self, root: YamlV) -> bool {
        &&& opt_json(self.approval_policy) == json_under(root, "codex"@, "approval_policy"@)
        &&& opt_json(self.thread_sandbox) == json_under(root, "codex"@, "thread_sandbox"@)
        &&& opt_json(self.turn_sandbox_policy) == json_under(
            root,
            "codex"@,
            "turn_sandbox_policy"@,
        )
    }
}

/// A workflow: the settings of its front matter, and the prompt template.
#[derive(Debug)]
pub struct WorkflowDefinition {
    pub config: Yaml,
    pub policies: PolicySettings,
    pub prompt_template: String,
}

/// Why a workflow cannot be loaded.
#[derive(Debug)]
pub enum WorkflowError {
    MissingWorkflowFile(PathBuf),
    ParseError { path: PathBuf, reason: String },
    FrontMatterNotMap(PathBuf),
}

impl WorkflowError {
    /// The message of the error.
    pub open spec fn words(self) -> Seq<char> {
        match self {
            WorkflowError::MissingWorkflowFile(path) => "missing_workflow_file path="@ + path_words(
                path_of(&path),
            ),
            WorkflowError::ParseError { path, reason } => "workflow_parse_error path="@
                + path_words(path_of(&path)) + " reason="@ + reason@,
            WorkflowError::FrontMatterNotMap(path) => "workflow_front_matter_not_a_map path="@
                + path_words(path_of(&path)),
        }
    }

    /// The message of the error.
    pub fn to_text(&self) -> (r: String)
        ensures
            r@ == self.words(),
    {
        match self {
            WorkflowError::MissingWorkflowFile(path) => {
                let mut text = "missing_workflow_file path=".to_owned();
                text.append(path_text(as_path(path)).as_str());
                text
            },
            WorkflowError::ParseError { path, reason } => {
                let mut text = "workflow_parse_error path=".to_owned();
                text.append(path_text(as_path(path)).as_str());
                text.append(" reason=");
                text.append(reason.as_str());
                text
            },
            WorkflowError::FrontMatterNotMap(path) => {
                let mut text = "workflow_front_matter_not_a_map path=".to_owned();
                text.append(path_text(as_path(path)).as_str());
                text
            },
        }
    }
}

/// The line that opens and closes the front matter.
pub open spec fn fence(line: Seq<char>) -> bool {
    trimmed_back(line) == "---"@
}

/// Where the first fence among the lines is, or their number where there is
/// none.
pub open spec fn fence_at(lines: Seq<Seq<char>>) -> int
    decreases lines.len(),
{
    if lines.len() == 0 || fence(lines[0]) {
        0
    } else {
        1 + fence_at(lines.drop_first())
    }
}

/// The lines behind each other, each with a line feed at its end.
pub open spec fn with_line_feeds(lines: Seq<Seq<char>>) -> Seq<char>
    decreases lines.len(),
{
    if lines.len() == 0 {
        Seq::empty()
    } else {
        with_line_feeds(lines.drop_last()) + lines.last() + seq!['\n']
    }
}

/// The parts of a workflow file.
pub enum Matter {
    /// All of it is the prompt.
    Absent,
    /// The front matter is opened and never closed.
    Unterminated,
    /// The text between the fences, and the text behind the second one.
    Fenced { yaml: Seq<char>, body: Seq<char> },
}

/// The parts of a workflow file: a fence in its first line opens the front
/// matter, and the next fence closes it.
pub open spec fn matter_of(content: Seq<char>) -> Matter {
    let lines = lines_of(content);
    if lines.len() == 0 || !fence(lines[0]) {
        Matter::Absent
    } else {
        let rest = lines.drop_first();
        let close = fence_at(rest);
        if close == rest.len() {
            Matter::Unterminated
        } else {
            Matter::Fenced {
                yaml: with_line_feeds(rest.take(close)),
                body: with_line_feeds(rest.skip(close + 1)),
            }
        }
    }
}

/// The front matter of a workflow file and what follows it, as text.
pub enum Split {
    Absent,
    Unterminated,
    Fenced { yaml: String, body: String },
}

impl Split {
    /// The parts that `self` holds.
    pub open spec fn matter(self) -> Matter {
        match self {
            Split::Absent => Matter::Absent,
            Split::Unterminated => Matter::Unterminated,
            Split::Fenced { yaml, body } => Matter::Fenced { yaml: yaml@, body: body@ },
        }
    }
}

fn is_fence(line: &str) -> (r: bool)
    ensures
        r == fence(line@),
{
    same_text(line.trim_end(), "---")
}

fn joined_lines(lines: &Vec<String>, from: usize, to: usize) -> (r: String)
    requires
        from <= to <= lines@.len(),
    ensures
        r@ == with_line_feeds(texts(lines@).subrange(from as int, to as int)),
{
    let mut text = String::new();
    let ghost all = texts(lines@);
    let mut i: usize = from;
    while i < to
        invariant
            from <= i <= to <= lines@.len(),
            all == texts(lines@),
            text@ == with_line_feeds(all.subrange(from as int, i as int)),
        decreases to - i,
    {
        assert(all.subrange(from as int, i + 1).drop_last() == all.subrange(from as int, i as int));
        text.append(lines[i].as_str());
        text.push('\n');
        assert(text@ == with_line_feeds(all.subrange(from as int, i as int)) + all[i as int]
            + seq!['\n']);
        i += 1;
    }
    text
}

/// Splits a workflow file into its front matter and what follows.
pub fn split_front_matter(content: &str) -> (r: Split)
    ensures
        r.matter() == matter_of(content@),
{
    let lines = split_lines(content);
    let ghost all = texts(lines@);
    if lines.len() == 0 || !is_fence(lines[0].as_str()) {
        return Split::Absent;
    }
    let ghost rest = all.drop_first();
    let mut i: usize = 1;
    assert(rest.skip(0) == rest);
    while i < lines.len() && !is_fence(lines[i].as_str())
        invariant
            1 <= i <= lines@.len(),
            all == texts(lines@),
            rest == all.drop_first(),
            fence_at(rest) == i - 1 + fence_at(rest.skip(i - 1)),
        decreases lines@.len() - i,
    {
        assert(rest.skip(i - 1).drop_first() == rest.skip(i as int));
        i += 1;
    }
    if i == lines.len() {
        assert(rest.skip(i - 1).len() == 0);
        return Split::Unterminated;
    }
    assert(rest.skip(i - 1)[0] == all[i as int]);
    assert(rest.take(i - 1) == all.subrange(1, i as int));
    assert(rest.skip(i as int) == all.subrange(i + 1, all.len() as int));
    Split::Fenced { yaml: joined_lines(&lines, 1, i), body: joined_lines(&lines, i + 1, lines.len()) }
}

/// Whether the parsed front matter is what a workflow may have.
pub open spec fn front_matter_of(content: Seq<char>) -> Option<Result<YamlV, Seq<char>>> {
    match matter_of(content) {
        Matter::Absent => None,
        Matter::Unterminated => Some(
            Err::<YamlV, Seq<char>>("unterminated YAML front matter"@),
        ),
        Matter::Fenced { yaml, .. } => Some(yaml_parsed(yaml)),
    }
}

/// The outcome of loading a workflow file with that content: without front
/// matter all of it is the prompt; with front matter, which must be a mapping,
/// the prompt is what follows. The prompt loses the white space at its ends.
pub open spec fn loads(
    path: &Path,
    content: Seq<char>,
    r: Result<WorkflowDefinition, WorkflowError>,
) -> bool {
    match front_matter_of(content) {
        None => match r {
            Ok(w) => {
                &&& w.config@ == YamlV::Mapping(Seq::empty())
                &&& w.policies.are_of(w.config@)
                &&& w.policies.wf()
                &&& w.prompt_template@ == trimmed(content)
            },
            Err(_) => false,
        },
        Some(Ok(value)) => if value.as_mapping() is Some {
            match r {
                Ok(w) => {
                    &&& w.config@ == value.untagged()
                    &&& w.policies.are_of(w.config@)
                    &&& w.policies.wf()
                    &&& w.prompt_template@ == trimmed(matter_of(content)->body)
                },
                Err(_) => false,
            }
        } else {
            match r {
                Err(WorkflowError::FrontMatterNotMap(p)) => path_of(&p) == path,
                _ => false,
            }
        },
        Some(Err(words)) => match r {
            Err(WorkflowError::ParseError { path: p, reason }) => path_of(&p) == path && reason@
                == words,
            _ => false,
        },
    }
}

/// Loads a workflow from the content of its file; `None` stands for a file that
/// cannot be read.
pub fn load_workflow(path: &Path, content: Option<&str>) -> (r: Result<
    WorkflowDefinition,
    WorkflowError,
>)
    ensures
        match content {
            Some(text) => loads(path, text@, r),
            None => match r {
                Err(WorkflowError::MissingWorkflowFile(p)) => path_of(&p) == path,
                _ => false,
            },
        },
{
    let text = match content {
        Some(text) => text,
        None => return Err(WorkflowError::MissingWorkflowFile(to_buf(path))),
    };
    parse_front_matter(path, text)
}

fn parse_front_matter(path: &Path, content: &str) -> (r: Result<WorkflowDefinition, WorkflowError>)
    ensures
        loads(path, content@, r),
{
    match split_front_matter(content) {
        Split::Absent => {
            let config = Yaml::Mapping(Vec::new());
            assert(config@->Mapping_0 =~= Seq::empty());
            Ok(
                WorkflowDefinition {
                    config,
                    policies: PolicySettings {
                        approval_policy: None,
                        thread_sandbox: None,
                        turn_sandbox_policy: None,
                    },
                    prompt_template: content.trim().to_owned(),
                },
            )
        },
        Split::Unterminated => Err(
            WorkflowError::ParseError {
                path: to_buf(path),
                reason: "unterminated YAML front matter".to_owned(),
            },
        ),
        Split::Fenced { yaml, body } => match value_from_text(yaml.as_str()) {
            Err(reason) => Err(WorkflowError::ParseError { path: to_buf(path), reason }),
            Ok(value) => {
                let policies = PolicySettings {
                    approval_policy: json_value(&value, "codex", "approval_policy"),
                    thread_sandbox: json_value(&value, "codex", "thread_sandbox"),
                    turn_sandbox_policy: json_value(&value, "codex", "turn_sandbox_policy"),
                };
                workflow_of(path, Yaml::from_value(value), policies, body.as_str())
            },
        },
    }
}

/// The workflow with that front matter, which must be a mapping, and with that
/// text behind it.
pub fn workflow_of(
    path: &Path,
    front_matter: Yaml,
    policies: PolicySettings,
    body: &str,
) -> (r: Result<WorkflowDefinition, WorkflowError>)
    ensures
        match r {
            Ok(w) => {
                &&& front_matter@.as_mapping() is Some
                &&& w.config@ == front_matter@.untagged()
                &&& w.policies == policies
                &&& w.prompt_template@ == trimmed(body@)
            },
            Err(WorkflowError::FrontMatterNotMap(p)) => front_matter@.as_mapping() is None
                && path_of(&p) == path,
            Err(_) => false,
        },
{
    let config = front_matter.into_untagged();
    match config {
        Yaml::Mapping(_) => Ok(
            WorkflowDefinition { config, policies, prompt_template: body.trim().to_owned() },
        ),
        _ => Err(WorkflowError::FrontMatterNotMap(to_buf(path))),
    }
}

proof fn trimmed_back_is_prefix(s: Seq<char>)
    ensures
        trimmed_back(s).len() <= s.len(),
        trimmed_back(s) == s.take(trimmed_back(s).len() as int),
    decreases s.len(),
{
    if s.len() > 0 && white_space(s.last()) {
        trimmed_back_is_prefix(s.drop_last());
    }
}

/// Only a file that starts with three dashes has front matter.
pub proof fn matter_starts_with_dashes(content: Seq<char>)
    ensures
        !(matter_of(content) is Absent) ==> content.len() >= 3 && content.take(3) == "---"@,
{
    reveal_strlit("---");
    let lines = lines_of(content);
    if lines.len() > 0 && fence(lines[0]) {
        let line = lines[0];
        line_feed_at_bounds(content);
        assert(line.len() <= content.len() && line == content.take(line.len() as int));
        trimmed_back_is_prefix(line);
        assert(content.take(3) =~= trimmed_back(line));
    }
}

}
