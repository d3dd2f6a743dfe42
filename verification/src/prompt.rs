//! The prompt: the template of the workflow, filled in for an issue.

use vstd::prelude::*;

use crate::json::{json_of, no_members, opt_text, Json, JsonV};
use crate::model::{
    blocker_views, instant_text, instant_words, BlockerRef, BlockerV, Issue, IssueV, Timestamp,
};
use crate::template::plain_template;
use crate::text::{blank, is_blank};

verus! {

broadcast use vstd::string::group_string_axioms;

/// Why there is no prompt.
#[derive(Debug)]
pub enum PromptError {
    Parse(String),
    Render(String),
}

/// What a `PromptError` is.
pub enum PromptFault {
    Parse(Seq<char>),
    Render(Seq<char>),
}

impl View for PromptError {
    type V = PromptFault;

    open spec fn view(&self) -> PromptFault {
        match self {
            PromptError::Parse(reason) => PromptFault::Parse(reason@),
            PromptError::Render(reason) => PromptFault::Render(reason@),
        }
    }
}

impl PromptFault {
    /// The message of the error.
    pub open spec fn words(self) -> Seq<char> {
        match self {
            PromptFault::Parse(reason) => "template_parse_error reason="@ + reason,
            PromptFault::Render(reason) => "template_render_error reason="@ + reason,
        }
    }
}

impl PromptError {
    /// The message of the error.
    pub fn to_text(&self) -> (r: String)
        ensures
            r@ == self@.words(),
    {
        match self {
            PromptError::Parse(reason) => {
                let mut text = "template_parse_error reason=".to_owned();
                text.append(reason.as_str());
                text
            },
            PromptError::Render(reason) => {
                let mut text = "template_render_error reason=".to_owned();
                text.append(reason.as_str());
                text
            },
        }
    }
}

/// The template that is used: a blank one gives way to the default prompt.
pub open spec fn source_of(template: Seq<char>) -> Seq<char> {
    if blank(template) {
        "You are working on an issue from Linear."@
    } else {
        template
    }
}

/// The template that is used: a blank one gives way to the default prompt.
pub fn prompt_source(prompt_template: &str) -> (r: &str)
    ensures
        r@ == source_of(prompt_template@),
{
    if is_blank(prompt_template) {
        "You are working on an issue from Linear."
    } else {
        prompt_template
    }
}

/// A text or nothing, as JSON.
pub open spec fn text_json(s: Option<Seq<char>>) -> JsonV {
    match s {
        Some(t) => JsonV::Str(t),
        None => JsonV::Null,
    }
}

/// An instant or nothing, as JSON.
pub open spec fn instant_json(t: Option<Timestamp>) -> JsonV {
    match t {
        Some(time) => text_json(instant_words(time)),
        None => JsonV::Null,
    }
}

/// An integer, as JSON.
pub open spec fn int_json(n: i64) -> JsonV {
    if n >= 0 {
        JsonV::PosInt(n as u64)
    } else {
        JsonV::NegInt(n)
    }
}

/// An integer or nothing, as JSON.
pub open spec fn opt_int_json(n: Option<i64>) -> JsonV {
    match n {
        Some(i) => int_json(i),
        None => JsonV::Null,
    }
}

/// A blocker, as JSON.
pub open spec fn blocker_json(b: BlockerV) -> JsonV {
    no_members().with("id"@, text_json(b.id)).with("identifier"@, text_json(b.identifier)).with(
        "state"@,
        text_json(b.state),
    )
}

/// An issue, as JSON.
pub open spec fn issue_json(issue: IssueV) -> JsonV {
    no_members().with("id"@, JsonV::Str(issue.id)).with(
        "identifier"@,
        JsonV::Str(issue.identifier),
    ).with("title"@, JsonV::Str(issue.title)).with(
        "description"@,
        text_json(issue.description),
    ).with("priority"@, opt_int_json(issue.priority)).with("state"@, JsonV::Str(issue.state)).with(
        "branch_name"@,
        text_json(issue.branch_name),
    ).with("url"@, text_json(issue.url)).with(
        "labels"@,
        JsonV::Array(issue.labels.map_values(|s: Seq<char>| JsonV::Str(s))),
    ).with(
        "blocked_by"@,
        JsonV::Array(issue.blocked_by.map_values(|b: BlockerV| blocker_json(b))),
    ).with("created_at"@, instant_json(issue.created_at)).with(
        "updated_at"@,
        instant_json(issue.updated_at),
    )
}

/// What a template sees: the issue, and the number of the attempt.
pub open spec fn context_of(issue: IssueV, attempt: Option<u32>) -> JsonV {
    no_members().with("issue"@, issue_json(issue)).with(
        "attempt"@,
        match attempt {
            Some(n) => JsonV::PosInt(n as u64),
            None => JsonV::Null,
        },
    )
}

pub(crate) fn json_of_text(s: &Option<String>) -> (r: Json)
    ensures
        r@ == text_json(opt_text(*s)),
        r@.wf(),
{
    match s {
        Some(t) => Json::text(t.as_str()),
        None => Json::Null,
    }
}

pub(crate) fn json_of_instant(t: &Option<Timestamp>) -> (r: Json)
    ensures
        r@ == instant_json(*t),
        r@.wf(),
{
    match t {
        Some(time) => json_of_text(&instant_text(time)),
        None => Json::Null,
    }
}

/// An integer, as JSON.
pub fn json_of_int(n: i64) -> (r: Json)
    ensures
        r@ == int_json(n),
        r@.wf(),
{
    if n >= 0 {
        Json::PosInt(n as u64)
    } else {
        Json::NegInt(n)
    }
}

fn json_of_blocker(b: &BlockerRef) -> (r: Json)
    ensures
        r@ == blocker_json(b@),
        r@.wf(),
{
    Json::object().with("id", json_of_text(&b.id)).with(
        "identifier",
        json_of_text(&b.identifier),
    ).with("state", json_of_text(&b.state))
}

fn json_of_blockers(blockers: &Vec<BlockerRef>) -> (r: Json)
    ensures
        r@ == JsonV::Array(blocker_views(blockers@).map_values(|b: BlockerV| blocker_json(b))),
        r@.wf(),
{
    let mut items: Vec<Json> = Vec::new();
    let mut i: usize = 0;
    while i < blockers.len()
        invariant
            i <= blockers@.len(),
            items@.len() == i,
            forall|k: int|
                0 <= k < i ==> (#[trigger] items@[k])@ == blocker_json(blockers@[k]@)
                    && items@[k]@.wf(),
        decreases blockers@.len() - i,
    {
        items.push(json_of_blocker(&blockers[i]));
        i += 1;
    }
    let r = Json::Array(items);
    assert(r@->Array_0 =~= blocker_views(blockers@).map_values(|b: BlockerV| blocker_json(b)));
    assert forall|k: int| 0 <= k < r@->Array_0.len() implies (#[trigger] r@->Array_0[k]).wf() by {
        assert(r@->Array_0[k] == items@[k]@);
    }
    r
}

/// An issue, as JSON.
pub fn json_of_issue(issue: &Issue) -> (r: Json)
    ensures
        r@ == issue_json(issue@),
        r@.wf(),
{
    let priority = match issue.priority {
        Some(n) => json_of_int(n),
        None => Json::Null,
    };
    Json::object().with("id", Json::text(issue.id.as_str())).with(
        "identifier",
        Json::text(issue.identifier.as_str()),
    ).with("title", Json::text(issue.title.as_str())).with(
        "description",
        json_of_text(&issue.description),
    ).with("priority", priority).with("state", Json::text(issue.state.as_str())).with(
        "branch_name",
        json_of_text(&issue.branch_name),
    ).with("url", json_of_text(&issue.url)).with("labels", Json::of_texts(&issue.labels)).with(
        "blocked_by",
        json_of_blockers(&issue.blocked_by),
    ).with("created_at", json_of_instant(&issue.created_at)).with(
        "updated_at",
        json_of_instant(&issue.updated_at),
    )
}

/// What a template sees: the issue, and the number of the attempt.
pub fn prompt_context(issue: &Issue, attempt: Option<u32>) -> (r: Json)
    ensures
        r@ == context_of(issue@, attempt),
        r@.wf(),
{
    let number = match attempt {
        Some(n) => Json::PosInt(n as u64),
        None => Json::Null,
    };
    Json::object().with("issue", json_of_issue(issue)).with("attempt", number)
}

/// What `minijinja` makes of a template and of what it sees: a text, or the
/// words of an error in parsing or in rendering.
pub uninterp spec fn rendered(source: Seq<char>, context: JsonV) -> Result<Seq<char>, PromptFault>;

/// `minijinja::Environment::add_template` and `Template::render`, where an
/// undefined value is an error (`UndefinedBehavior::Strict`) and the template is
/// called `workflow`: on a plain template and what a template sees of an issue, a
/// function of the two alone.
///
/// On other templates the call may panic or use up all memory: it does where
/// nothing is read backwards (`""[::-1]`), where the filters `format`, `indent`,
/// `slice` and `batch` are given large numbers, where a text is made to grow by
/// a long chain of operations, and where expressions nest too deep for the
/// stack. What a function of the engine prints as depends on the compiler. A
/// plain template has no index, no arithmetic, no call of a function, no
/// assignment, and no filter and no test but those that `word_piece` knows.
#[verifier::external_body]
fn render_template(source: &str, context: &serde_json::Value) -> (r: Result<String, PromptError>)
    requires
        plain_template(source@),
        exists|issue: IssueV, attempt: Option<u32>|
            json_of(*context) == #[trigger] context_of(issue, attempt),
    ensures
        match r {
            Ok(text) => rendered(source@, json_of(*context)) == Ok::<Seq<char>, PromptFault>(text@),
            Err(e) => rendered(source@, json_of(*context)) == Err::<Seq<char>, PromptFault>(e@),
        },
{
    let mut env = minijinja::Environment::new();
    env.set_undefined_behavior(minijinja::UndefinedBehavior::Strict);
    env.add_template("workflow", source).map_err(|err| PromptError::Parse(err.to_string()))?;
    let template = env.get_template("workflow").map_err(
        |err| PromptError::Parse(err.to_string()),
    )?;
    template.render(context).map_err(|err| PromptError::Render(err.to_string()))
}

/// The prompt for an issue, from a plain template; `is_plain_template` tells
/// whether the source of a template is one.
pub fn render_prompt(prompt_template: &str, issue: &Issue, attempt: Option<u32>) -> (r: Result<
    String,
    PromptError,
>)
    requires
        plain_template(source_of(prompt_template@)),
    ensures
        match r {
            Ok(text) => rendered(source_of(prompt_template@), context_of(issue@, attempt)) == Ok::<
                Seq<char>,
                PromptFault,
            >(text@),
            Err(e) => rendered(source_of(prompt_template@), context_of(issue@, attempt)) == Err::<
                Seq<char>,
                PromptFault,
            >(e@),
        },
{
    let context = prompt_context(issue, attempt).to_value();
    assert(json_of(context) == context_of(issue@, attempt));
    render_template(prompt_source(prompt_template), &context)
}

}
