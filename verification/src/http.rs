//! What the status pages show. The members of what is shown as JSON stand in the
//! order of the fields, not in that of their keys.

use vstd::prelude::*;

use crate::json::{no_members, opt_json, opt_text, Json, JsonV};
use crate::keyed::StringMap;
use crate::model::{
    blocker_views, copy_json, BlockerRef, BlockerV, CodexTotals, Issue, IssueV, LiveSession, LiveV,
    RetryEntry, RetryV, RunningEntry, RunningV, RuntimeState,
};
use crate::paths::{as_path, path_of, path_str, path_unicode};
use crate::prompt::{
    instant_json, int_json, json_of_instant, json_of_int, json_of_text, opt_int_json, text_json,
};
use crate::text::{decimal, decimal_text, int_decimal, int_text, same_text};

verus! {

broadcast use vstd::string::group_string_axioms;

/// The page up to the number of issues that are worked on.
pub const PAGE_START: &'static str = r#"<!doctype html>
<html lang="en">
<head>
  <meta charset="utf-8">
  <meta name="viewport" content="width=device-width, initial-scale=1">
  <title>Symphony</title>
  <style>
    body { font-family: ui-sans-serif, system-ui, -apple-system, BlinkMacSystemFont, "Segoe UI", sans-serif; margin: 2rem; color: #17202a; background: #f8fafc; }
    main { max-width: 960px; margin: 0 auto; }
    section { background: white; border: 1px solid #e2e8f0; border-radius: 12px; padding: 1rem 1.25rem; margin: 1rem 0; box-shadow: 0 1px 2px rgba(15, 23, 42, 0.04); }
    code { background: #eef2ff; padding: 0.1rem 0.3rem; border-radius: 4px; }
    .counts { display: grid; grid-template-columns: repeat(auto-fit, minmax(160px, 1fr)); gap: 1rem; }
    .count { font-size: 2rem; font-weight: 700; }
  </style>
</head>
<body>
  <main>
    <h1>Symphony</h1>
    <section class="counts">
      <div><div class="count">"#;

/// The page from there to the number of issues that wait.
pub const PAGE_RETRYING: &'static str = r#"</div><div>Running</div></div>
      <div><div class="count">"#;

/// The page from there to the number of tokens.
pub const PAGE_TOKENS: &'static str = r#"</div><div>Retrying</div></div>
      <div><div class="count">"#;

/// The rest of the page.
pub const PAGE_END: &'static str = r#"</div><div>Total Tokens</div></div>
    </section>
    <section>
      <h2>API</h2>
      <p>Current JSON state is available at <code>/api/v1/state</code>.</p>
    </section>
  </main>
</body>
</html>"#;

/// The page with those numbers of issues that are worked on and that wait, and of
/// tokens.
pub open spec fn page_with(running: nat, retrying: nat, tokens: int) -> Seq<char> {
    PAGE_START@ + decimal(running) + PAGE_RETRYING@ + decimal(retrying) + PAGE_TOKENS@
        + int_decimal(tokens) + PAGE_END@
}

/// The page that shows how many issues are worked on, how many wait, and how
/// many tokens were used.
pub fn dashboard(shown: &RuntimeState) -> (r: String)
    requires
        shown.running.wf(),
        shown.retrying.wf(),
    ensures
        r@ == page_with(
            shown.running@.dom().len(),
            shown.retrying@.dom().len(),
            shown.codex_totals.total_tokens as int,
        ),
{
    let mut page = PAGE_START.to_owned();
    page.append(decimal_text(shown.running.len() as u128).as_str());
    page.append(PAGE_RETRYING);
    page.append(decimal_text(shown.retrying.len() as u128).as_str());
    page.append(PAGE_TOKENS);
    page.append(int_text(shown.codex_totals.total_tokens).as_str());
    page.append(PAGE_END);
    page
}

/// A blocker, as JSON.
pub open spec fn shown_blocker(b: BlockerV) -> JsonV {
    no_members().followed_by("id"@, text_json(b.id)).followed_by(
        "identifier"@,
        text_json(b.identifier),
    ).followed_by("state"@, text_json(b.state))
}

/// An issue, as JSON.
pub open spec fn shown_issue(issue: IssueV) -> JsonV {
    no_members().followed_by("id"@, JsonV::Str(issue.id)).followed_by(
        "identifier"@,
        JsonV::Str(issue.identifier),
    ).followed_by("title"@, JsonV::Str(issue.title)).followed_by(
        "description"@,
        text_json(issue.description),
    ).followed_by("priority"@, opt_int_json(issue.priority)).followed_by(
        "state"@,
        JsonV::Str(issue.state),
    ).followed_by("branch_name"@, text_json(issue.branch_name)).followed_by(
        "url"@,
        text_json(issue.url),
    ).followed_by(
        "labels"@,
        JsonV::Array(issue.labels.map_values(|s: Seq<char>| JsonV::Str(s))),
    ).followed_by(
        "blocked_by"@,
        JsonV::Array(issue.blocked_by.map_values(|b: BlockerV| shown_blocker(b))),
    ).followed_by("created_at"@, instant_json(issue.created_at)).followed_by(
        "updated_at"@,
        instant_json(issue.updated_at),
    )
}

fn json_of_shown_blockers(blockers: &Vec<BlockerRef>) -> (r: Json)
    ensures
        r@ == JsonV::Array(blocker_views(blockers@).map_values(|b: BlockerV| shown_blocker(b))),
{
    let mut items: Vec<Json> = Vec::new();
    let mut i: usize = 0;
    while i < blockers.len()
        invariant
            i <= blockers@.len(),
            items@.len() == i,
            forall|k: int| 0 <= k < i ==> (#[trigger] items@[k])@ == shown_blocker(blockers@[k]@),
        decreases blockers@.len() - i,
    {
        let b = &blockers[i];
        items.push(
            Json::object().followed_by("id", json_of_text(&b.id)).followed_by(
                "identifier",
                json_of_text(&b.identifier),
            ).followed_by("state", json_of_text(&b.state)),
        );
        i += 1;
    }
    let r = Json::Array(items);
    assert(r@->Array_0 =~= blocker_views(blockers@).map_values(|b: BlockerV| shown_blocker(b)));
    r
}

fn json_of_shown_issue(issue: &Issue) -> (r: Json)
    ensures
        r@ == shown_issue(issue@),
{
    let priority = match issue.priority {
        Some(n) => json_of_int(n),
        None => Json::Null,
    };
    Json::object().followed_by("id", Json::text(issue.id.as_str())).followed_by(
        "identifier",
        Json::text(issue.identifier.as_str()),
    ).followed_by("title", Json::text(issue.title.as_str())).followed_by(
        "description",
        json_of_text(&issue.description),
    ).followed_by("priority", priority).followed_by(
        "state",
        Json::text(issue.state.as_str()),
    ).followed_by("branch_name", json_of_text(&issue.branch_name)).followed_by(
        "url",
        json_of_text(&issue.url),
    ).followed_by("labels", Json::of_texts(&issue.labels)).followed_by(
        "blocked_by",
        json_of_shown_blockers(&issue.blocked_by),
    ).followed_by("created_at", json_of_instant(&issue.created_at)).followed_by(
        "updated_at",
        json_of_instant(&issue.updated_at),
    )
}

/// What is known of a session, as JSON.
pub open spec fn live_json(live: LiveV) -> JsonV {
    no_members().followed_by("session_id"@, text_json(live.session_id)).followed_by(
        "thread_id"@,
        text_json(live.thread_id),
    ).followed_by("turn_id"@, text_json(live.turn_id)).followed_by(
        "codex_app_server_pid"@,
        text_json(live.codex_app_server_pid),
    ).followed_by("last_codex_event"@, text_json(live.last_codex_event)).followed_by(
        "last_codex_timestamp"@,
        instant_json(live.last_codex_timestamp),
    ).followed_by(
        "last_codex_message"@,
        match live.last_codex_message {
            Some(message) => message,
            None => JsonV::Null,
        },
    ).followed_by("codex_input_tokens"@, int_json(live.codex_input_tokens)).followed_by(
        "codex_output_tokens"@,
        int_json(live.codex_output_tokens),
    ).followed_by("codex_total_tokens"@, int_json(live.codex_total_tokens)).followed_by(
        "last_reported_input_tokens"@,
        int_json(live.last_reported_input_tokens),
    ).followed_by("last_reported_output_tokens"@, int_json(live.last_reported_output_tokens)).followed_by(
        "last_reported_total_tokens"@,
        int_json(live.last_reported_total_tokens),
    ).followed_by("turn_count"@, JsonV::PosInt(live.turn_count as u64))
}

/// A number of an attempt or nothing, as JSON.
pub open spec fn attempt_json(attempt: Option<u32>) -> JsonV {
    match attempt {
        Some(n) => JsonV::PosInt(n as u64),
        None => JsonV::Null,
    }
}

/// A session that works on an issue in a workspace with that path, as JSON.
pub open spec fn running_json(entry: RunningV, workspace_path: Seq<char>) -> JsonV {
    no_members().followed_by("issue_id"@, JsonV::Str(entry.issue_id)).followed_by(
        "issue_identifier"@,
        JsonV::Str(entry.issue_identifier),
    ).followed_by("issue"@, shown_issue(entry.issue)).followed_by("attempt"@, attempt_json(entry.attempt)).followed_by(
        "workspace_path"@,
        JsonV::Str(workspace_path),
    ).followed_by("started_at"@, instant_json(Some(entry.started_at))).followed_by(
        "live_session"@,
        live_json(entry.live_session),
    )
}

/// An issue that waits, as JSON.
pub open spec fn retry_json(entry: RetryV) -> JsonV {
    no_members().followed_by("issue_id"@, JsonV::Str(entry.issue_id)).followed_by(
        "identifier"@,
        JsonV::Str(entry.identifier),
    ).followed_by("attempt"@, JsonV::PosInt(entry.attempt as u64)).followed_by(
        "due_at"@,
        instant_json(Some(entry.due_at)),
    ).followed_by("due_at_ms"@, JsonV::PosInt(entry.due_at_ms as u64)).followed_by(
        "error"@,
        text_json(entry.error),
    )
}

/// The counts of all sessions, as JSON, with the seconds that they ran.
pub open spec fn totals_json(totals: CodexTotals, seconds: JsonV) -> JsonV {
    no_members().followed_by("input_tokens"@, int_json(totals.input_tokens)).followed_by(
        "output_tokens"@,
        int_json(totals.output_tokens),
    ).followed_by("total_tokens"@, int_json(totals.total_tokens)).followed_by("seconds_running"@, seconds)
}

fn json_of_live(live: &LiveSession) -> (r: Json)
    ensures
        r@ == live_json(live@),
{
    let message = match copy_json(&live.last_codex_message) {
        Some(message) => message,
        None => Json::Null,
    };
    Json::object().followed_by("session_id", json_of_text(&live.session_id)).followed_by(
        "thread_id",
        json_of_text(&live.thread_id),
    ).followed_by("turn_id", json_of_text(&live.turn_id)).followed_by(
        "codex_app_server_pid",
        json_of_text(&live.codex_app_server_pid),
    ).followed_by("last_codex_event", json_of_text(&live.last_codex_event)).followed_by(
        "last_codex_timestamp",
        json_of_instant(&live.last_codex_timestamp),
    ).followed_by("last_codex_message", message).followed_by(
        "codex_input_tokens",
        json_of_int(live.codex_input_tokens),
    ).followed_by("codex_output_tokens", json_of_int(live.codex_output_tokens)).followed_by(
        "codex_total_tokens",
        json_of_int(live.codex_total_tokens),
    ).followed_by("last_reported_input_tokens", json_of_int(live.last_reported_input_tokens)).followed_by(
        "last_reported_output_tokens",
        json_of_int(live.last_reported_output_tokens),
    ).followed_by("last_reported_total_tokens", json_of_int(live.last_reported_total_tokens)).followed_by(
        "turn_count",
        Json::PosInt(live.turn_count as u64),
    )
}

/// A session that works on an issue, as JSON; none where the path of its
/// workspace is not Unicode.
pub fn json_of_running(entry: &RunningEntry) -> (r: Option<Json>)
    ensures
        match r {
            Some(j) => match path_unicode(path_of(&entry.workspace_path)) {
                Some(path) => j@ == running_json(entry@, path),
                None => false,
            },
            None => path_unicode(path_of(&entry.workspace_path)) is None,
        },
{
    let path = match path_str(as_path(&entry.workspace_path)) {
        Some(path) => path,
        None => return None,
    };
    let attempt = match entry.attempt {
        Some(n) => Json::PosInt(n as u64),
        None => Json::Null,
    };
    Some(
        Json::object().followed_by("issue_id", Json::text(entry.issue_id.as_str())).followed_by(
            "issue_identifier",
            Json::text(entry.issue_identifier.as_str()),
        ).followed_by("issue", json_of_shown_issue(&entry.issue)).followed_by("attempt", attempt).followed_by(
            "workspace_path",
            Json::text(path),
        ).followed_by("started_at", json_of_instant(&Some(entry.started_at))).followed_by(
            "live_session",
            json_of_live(&entry.live_session),
        ),
    )
}

/// An issue that waits, as JSON. The milliseconds must fit into 64 bits.
pub fn json_of_retry(entry: &RetryEntry) -> (r: Option<Json>)
    ensures
        match r {
            Some(j) => entry.due_at_ms <= u64::MAX && j@ == retry_json(entry@),
            None => entry.due_at_ms > u64::MAX,
        },
{
    if entry.due_at_ms > u64::MAX as u128 {
        return None;
    }
    Some(
        Json::object().followed_by("issue_id", Json::text(entry.issue_id.as_str())).followed_by(
            "identifier",
            Json::text(entry.identifier.as_str()),
        ).followed_by("attempt", Json::PosInt(entry.attempt as u64)).followed_by(
            "due_at",
            json_of_instant(&Some(entry.due_at)),
        ).followed_by("due_at_ms", Json::PosInt(entry.due_at_ms as u64)).followed_by(
            "error",
            json_of_text(&entry.error),
        ),
    )
}

/// The path of the workspace is Unicode.
pub open spec fn showable(entry: RunningEntry) -> bool {
    path_unicode(path_of(&entry.workspace_path)) is Some
}

/// The sessions of the list, as JSON.
pub open spec fn running_list(listed: Seq<(Seq<char>, RunningEntry)>) -> JsonV {
    JsonV::Array(
        listed.map_values(
            |e: (Seq<char>, RunningEntry)|
                running_json(e.1@, path_unicode(path_of(&e.1.workspace_path))->0),
        ),
    )
}

/// The issues of the list that wait, as JSON.
pub open spec fn retry_list(listed: Seq<(Seq<char>, RetryEntry)>) -> JsonV {
    JsonV::Array(listed.map_values(|e: (Seq<char>, RetryEntry)| retry_json(e.1@)))
}

fn json_of_running_list(m: &StringMap<RunningEntry>) -> (r: Option<Json>)
    requires
        m.wf(),
    ensures
        match r {
            Some(j) => {
                &&& forall|i: int|
                    0 <= i < m.listed().len() ==> showable((#[trigger] m.listed()[i]).1)
                &&& j@ == running_list(m.listed())
            },
            None => exists|i: int|
                0 <= i < m.listed().len() && !showable((#[trigger] m.listed()[i]).1),
        },
{
    let ghost listed = m.listed();
    let ghost view = |e: (Seq<char>, RunningEntry)|
        running_json(e.1@, path_unicode(path_of(&e.1.workspace_path))->0);
    let mut items: Vec<Json> = Vec::new();
    let mut i: usize = 0;
    while i < m.len()
        invariant
            i <= listed.len(),
            m.wf(),
            listed == m.listed(),
            view == (|e: (Seq<char>, RunningEntry)|
                running_json(e.1@, path_unicode(path_of(&e.1.workspace_path))->0)),
            items@.len() == i,
            forall|k: int| 0 <= k < i ==> showable((#[trigger] listed[k]).1),
            forall|k: int| 0 <= k < i ==> (#[trigger] items@[k])@ == view(listed[k]),
        decreases listed.len() - i,
    {
        let entry = m.entry(i).1;
        assert(listed[i as int].1 == *entry);
        match json_of_running(entry) {
            Some(j) => items.push(j),
            None => return None,
        }
        i += 1;
    }
    let r = Json::Array(items);
    assert(r@->Array_0 =~= running_list(listed)->Array_0);
    Some(r)
}

fn json_of_retry_list(m: &StringMap<RetryEntry>) -> (r: Option<Json>)
    requires
        m.wf(),
    ensures
        match r {
            Some(j) => {
                &&& forall|i: int|
                    0 <= i < m.listed().len() ==> (#[trigger] m.listed()[i]).1.due_at_ms <= u64::MAX
                &&& j@ == retry_list(m.listed())
            },
            None => exists|i: int|
                0 <= i < m.listed().len() && (#[trigger] m.listed()[i]).1.due_at_ms > u64::MAX,
        },
{
    let ghost listed = m.listed();
    let mut items: Vec<Json> = Vec::new();
    let mut i: usize = 0;
    while i < m.len()
        invariant
            i <= listed.len(),
            m.wf(),
            listed == m.listed(),
            items@.len() == i,
            forall|k: int| 0 <= k < i ==> (#[trigger] listed[k]).1.due_at_ms <= u64::MAX,
            forall|k: int| 0 <= k < i ==> (#[trigger] items@[k])@ == retry_json(listed[k].1@),
        decreases listed.len() - i,
    {
        let entry = m.entry(i).1;
        assert(listed[i as int].1 == *entry);
        match json_of_retry(entry) {
            Some(j) => items.push(j),
            None => return None,
        }
        i += 1;
    }
    let r = Json::Array(items);
    assert(r@->Array_0 =~= retry_list(listed)->Array_0);
    Some(r)
}

/// A JSON value or nothing, as JSON.
pub open spec fn json_or_null(j: Option<JsonV>) -> JsonV {
    match j {
        Some(v) => v,
        None => JsonV::Null,
    }
}

/// What is shown of the scheduler, as JSON: when, and with the seconds that all
/// sessions ran.
pub open spec fn state_json(shown: RuntimeState, generated_at: Seq<char>, seconds: JsonV) -> JsonV {
    no_members().followed_by("generated_at"@, JsonV::Str(generated_at)).followed_by(
        "counts"@,
        no_members().followed_by("running"@, JsonV::PosInt(shown.running.listed().len() as u64)).followed_by(
            "retrying"@,
            JsonV::PosInt(shown.retrying.listed().len() as u64),
        ),
    ).followed_by("running"@, running_list(shown.running.listed())).followed_by(
        "retrying"@,
        retry_list(shown.retrying.listed()),
    ).followed_by("codex_totals"@, totals_json(shown.codex_totals, seconds)).followed_by(
        "rate_limits"@,
        json_or_null(opt_json(shown.codex_rate_limits)),
    ).followed_by("last_error"@, text_json(opt_text(shown.last_error)))
}

/// Every path is Unicode, and all milliseconds fit into 64 bits.
pub open spec fn all_showable(shown: RuntimeState) -> bool {
    &&& forall|i: int|
        0 <= i < shown.running.listed().len() ==> showable(
            (#[trigger] shown.running.listed()[i]).1,
        )
    &&& forall|i: int|
        0 <= i < shown.retrying.listed().len() ==> (
        #[trigger] shown.retrying.listed()[i]).1.due_at_ms <= u64::MAX
}

/// What is shown of the scheduler, as JSON; none where a path is not Unicode or
/// milliseconds do not fit into 64 bits.
pub fn state_api(shown: &RuntimeState, generated_at: &str, seconds: Json) -> (r: Option<Json>)
    requires
        shown.running.wf(),
        shown.retrying.wf(),
    ensures
        match r {
            Some(j) => {
                &&& all_showable(*shown)
                &&& j@ == state_json(*shown, generated_at@, seconds@)
            },
            None => !all_showable(*shown),
        },
{
    let running = match json_of_running_list(&shown.running) {
        Some(j) => j,
        None => return None,
    };
    let retrying = match json_of_retry_list(&shown.retrying) {
        Some(j) => j,
        None => return None,
    };
    let counts = Json::object().followed_by("running", Json::PosInt(shown.running.len() as u64)).followed_by(
        "retrying",
        Json::PosInt(shown.retrying.len() as u64),
    );
    let totals = Json::object().followed_by(
        "input_tokens",
        json_of_int(shown.codex_totals.input_tokens),
    ).followed_by("output_tokens", json_of_int(shown.codex_totals.output_tokens)).followed_by(
        "total_tokens",
        json_of_int(shown.codex_totals.total_tokens),
    ).followed_by("seconds_running", seconds);
    let limits = match copy_json(&shown.codex_rate_limits) {
        Some(v) => v,
        None => Json::Null,
    };
    Some(
        Json::object().followed_by("generated_at", Json::text(generated_at)).followed_by("counts", counts).followed_by(
            "running",
            running,
        ).followed_by("retrying", retrying).followed_by("codex_totals", totals).followed_by("rate_limits", limits).followed_by(
            "last_error",
            json_of_text(&shown.last_error),
        ),
    )
}

/// What is known of an issue.
pub enum IssueAnswer<'a> {
    Running(&'a RunningEntry),
    Retrying(&'a RetryEntry),
    /// Nothing: the message that says so.
    Unknown(String),
}

/// That is what is known of the issue with that identifier.
pub open spec fn finds(shown: RuntimeState, identifier: Seq<char>, r: IssueAnswer) -> bool {
    match r {
        IssueAnswer::Running(entry) => {
            &&& entry.issue_identifier@ == identifier
            &&& exists|id: Seq<char>| #[trigger]
                shown.running@.contains_key(id) && shown.running@[id] == *entry
        },
        IssueAnswer::Retrying(entry) => {
            &&& entry.identifier@ == identifier
            &&& exists|id: Seq<char>| #[trigger]
                shown.retrying@.contains_key(id) && shown.retrying@[id] == *entry
            &&& forall|id: Seq<char>| #[trigger]
                shown.running@.contains_key(id) ==> shown.running@[id].issue_identifier@
                    != identifier
        },
        IssueAnswer::Unknown(message) => {
            &&& message@ == "unknown issue identifier: "@ + identifier
            &&& forall|id: Seq<char>| #[trigger]
                shown.running@.contains_key(id) ==> shown.running@[id].issue_identifier@
                    != identifier
            &&& forall|id: Seq<char>| #[trigger]
                shown.retrying@.contains_key(id) ==> shown.retrying@[id].identifier@
                    != identifier
        },
    }
}

/// Finds the issue with that identifier among those that are worked on, and then
/// among those that wait.
pub fn issue_api<'a>(shown: &'a RuntimeState, issue_identifier: &str) -> (r: IssueAnswer<'a>)
    requires
        shown.running.wf(),
        shown.retrying.wf(),
    ensures
        finds(*shown, issue_identifier@, r),
{
    let ghost running = shown.running.listed();
    let mut i: usize = 0;
    while i < shown.running.len()
        invariant
            i <= running.len(),
            shown.running.wf(),
            running == shown.running.listed(),
            forall|k: int|
                0 <= k < i ==> (#[trigger] running[k]).1.issue_identifier@ != issue_identifier@,
        decreases running.len() - i,
    {
        let (id, entry) = shown.running.entry(i);
        if same_text(entry.issue_identifier.as_str(), issue_identifier) {
            assert(shown.running@.contains_key(id@));
            return IssueAnswer::Running(entry);
        }
        i += 1;
    }
    assert forall|id: Seq<char>| #[trigger] shown.running@.contains_key(id) implies
        shown.running@[id].issue_identifier@ != issue_identifier@ by {
        assert(shown.running.has(id));
        assert(running[shown.running.place(id)].0 == id);
    }
    let ghost retrying = shown.retrying.listed();
    let mut i: usize = 0;
    while i < shown.retrying.len()
        invariant
            i <= retrying.len(),
            shown.retrying.wf(),
            retrying == shown.retrying.listed(),
            forall|k: int|
                0 <= k < i ==> (#[trigger] retrying[k]).1.identifier@ != issue_identifier@,
            forall|id: Seq<char>| #[trigger]
                shown.running@.contains_key(id) ==> shown.running@[id].issue_identifier@
                    != issue_identifier@,
        decreases retrying.len() - i,
    {
        let (id, entry) = shown.retrying.entry(i);
        if same_text(entry.identifier.as_str(), issue_identifier) {
            assert(shown.retrying@.contains_key(id@));
            return IssueAnswer::Retrying(entry);
        }
        i += 1;
    }
    assert forall|id: Seq<char>| #[trigger] shown.retrying@.contains_key(id) implies
        shown.retrying@[id].identifier@ != issue_identifier@ by {
        assert(shown.retrying.has(id));
        assert(retrying[shown.retrying.place(id)].0 == id);
    }
    let mut message = "unknown issue identifier: ".to_owned();
    message.append(issue_identifier);
    IssueAnswer::Unknown(message)
}

/// An error, as JSON.
pub open spec fn error_json(code: Seq<char>, message: Seq<char>) -> JsonV {
    no_members().with(
        "error"@,
        no_members().with("code"@, JsonV::Str(code)).with("message"@, JsonV::Str(message)),
    )
}

/// An error, as JSON.
pub fn json_error(code: &str, message: &str) -> (r: Json)
    ensures
        r@ == error_json(code@, message@),
        r@.wf(),
{
    Json::object().with(
        "error",
        Json::object().with("code", Json::text(code)).with("message", Json::text(message)),
    )
}

}
