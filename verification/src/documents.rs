//! What the JSON holds that leaves the program: what a template sees, what is shown
//! of the scheduler, and how an error is answered.

use vstd::prelude::*;

use crate::http::{
    error_json, finds, live_json, page_with, retry_json, running_json, shown_blocker, shown_issue,
    state_json, totals_json, IssueAnswer, PAGE_END, PAGE_RETRYING, PAGE_START, PAGE_TOKENS,
};
use crate::json::{added_member, given_member, opt_json, opt_text, JsonV};
use crate::model::{
    instant_words, BlockerV, CodexTotals, IssueV, LiveV, RetryV, RunningV, RuntimeState, Timestamp,
};
use crate::paths::{path_of, path_unicode};
use crate::prompt::{blocker_json, context_of, issue_json, source_of, PromptFault};
use crate::text::{blank_is_white_space, decimal, int_decimal, white_space};

verus! {

broadcast use vstd::string::group_string_axioms;

/// The member with that key is the text, or null where there is none.
pub open spec fn says(j: JsonV, key: Seq<char>, text: Option<Seq<char>>) -> bool {
    match text {
        Some(t) => j.get(key) == Some(JsonV::Str(t)),
        None => j.get(key) == Some(JsonV::Null),
    }
}

/// The member with that key is the number, or null where there is none.
pub open spec fn counts(j: JsonV, key: Seq<char>, number: Option<int>) -> bool {
    match (number, j.get(key)) {
        (Some(n), Some(JsonV::PosInt(m))) => m == n,
        (Some(n), Some(JsonV::NegInt(m))) => m == n && n < 0,
        (None, Some(JsonV::Null)) => true,
        _ => false,
    }
}

/// The member with that key is the instant in words, or null where there is none.
pub open spec fn dates(j: JsonV, key: Seq<char>, instant: Option<Timestamp>) -> bool {
    says(
        j,
        key,
        match instant {
            Some(time) => instant_words(time),
            None => None,
        },
    )
}

/// A number that may be missing.
pub open spec fn whole(n: Option<i64>) -> Option<int> {
    match n {
        Some(i) => Some(i as int),
        None => None,
    }
}

/// The object holds what is known of the blocker.
pub open spec fn holds_blocker(j: JsonV, blocker: BlockerV) -> bool {
    &&& says(j, "id"@, blocker.id)
    &&& says(j, "identifier"@, blocker.identifier)
    &&& says(j, "state"@, blocker.state)
}

/// The object holds what is known of the issue, each thing under its own name.
pub open spec fn holds_issue(j: JsonV, issue: IssueV) -> bool {
    &&& says(j, "id"@, Some(issue.id))
    &&& says(j, "identifier"@, Some(issue.identifier))
    &&& says(j, "title"@, Some(issue.title))
    &&& says(j, "description"@, issue.description)
    &&& counts(j, "priority"@, whole(issue.priority))
    &&& says(j, "state"@, Some(issue.state))
    &&& says(j, "branch_name"@, issue.branch_name)
    &&& says(j, "url"@, issue.url)
    &&& j.get("labels"@) matches Some(JsonV::Array(labels)) && labels.len() == issue.labels.len()
        && forall|i: int|
        0 <= i < labels.len() ==> #[trigger] labels[i] == JsonV::Str(issue.labels[i])
    &&& j.get("blocked_by"@) matches Some(JsonV::Array(blockers)) && blockers.len()
        == issue.blocked_by.len() && forall|i: int|
        0 <= i < blockers.len() ==> holds_blocker(#[trigger] blockers[i], issue.blocked_by[i])
    &&& dates(j, "created_at"@, issue.created_at)
    &&& dates(j, "updated_at"@, issue.updated_at)
}

proof fn blocker_is_held(blocker: BlockerV)
    ensures
        holds_blocker(blocker_json(blocker), blocker),
        holds_blocker(shown_blocker(blocker), blocker),
{
    broadcast use given_member, added_member;

    issue_keys();
}

proof fn issue_keys()
    ensures
        "id"@.len() == 2,
        "identifier"@.len() == 10 && "identifier"@[0] == 'i',
        "title"@.len() == 5 && "title"@[0] == 't',
        "description"@.len() == 11 && "description"@[0] == 'd',
        "priority"@.len() == 8,
        "state"@.len() == 5 && "state"@[0] == 's',
        "branch_name"@.len() == 11 && "branch_name"@[0] == 'b',
        "url"@.len() == 3,
        "labels"@.len() == 6,
        "blocked_by"@.len() == 10 && "blocked_by"@[0] == 'b',
        "created_at"@.len() == 10 && "created_at"@[0] == 'c',
        "updated_at"@.len() == 10 && "updated_at"@[0] == 'u',
{
    reveal_strlit("id");
    reveal_strlit("identifier");
    reveal_strlit("title");
    reveal_strlit("description");
    reveal_strlit("priority");
    reveal_strlit("state");
    reveal_strlit("branch_name");
    reveal_strlit("url");
    reveal_strlit("labels");
    reveal_strlit("blocked_by");
    reveal_strlit("created_at");
    reveal_strlit("updated_at");
}

/// What a template sees of an issue, and what is shown of it, holds each thing that
/// is known of the issue under its own name.
pub proof fn issue_is_held(issue: IssueV)
    ensures
        holds_issue(issue_json(issue), issue),
        holds_issue(shown_issue(issue), issue),
{
    broadcast use given_member, added_member;

    issue_keys();
    assert forall|i: int| 0 <= i < issue.blocked_by.len() implies holds_blocker(
        blocker_json(#[trigger] issue.blocked_by[i]),
        issue.blocked_by[i],
    ) by {
        blocker_is_held(issue.blocked_by[i]);
    }
    assert forall|i: int| 0 <= i < issue.blocked_by.len() implies holds_blocker(
        shown_blocker(#[trigger] issue.blocked_by[i]),
        issue.blocked_by[i],
    ) by {
        blocker_is_held(issue.blocked_by[i]);
    }
}

/// A template sees the issue, and the number of the attempt, which is null on the
/// first.
pub proof fn template_sees_issue_and_attempt(issue: IssueV, attempt: Option<u32>)
    ensures
        context_of(issue, attempt).get("issue"@) matches Some(seen) && holds_issue(seen, issue),
        counts(
            context_of(issue, attempt),
            "attempt"@,
            match attempt {
                Some(n) => Some(n as int),
                None => None,
            },
        ),
        forall|key: Seq<char>|
            #[trigger] context_of(issue, attempt).get(key) is Some ==> key == "issue"@ || key
                == "attempt"@,
{
    broadcast use given_member;

    issue_is_held(issue);
    reveal_strlit("issue");
    reveal_strlit("attempt");
    assert("issue"@.len() != "attempt"@.len());
}

/// A template is used as it is where anything but white space is in it.
pub proof fn template_is_used_as_it_is(template: Seq<char>)
    ensures
        (exists|i: int| 0 <= i < template.len() && !white_space(#[trigger] template[i]))
            ==> source_of(template) == template,
        (forall|i: int| 0 <= i < template.len() ==> white_space(#[trigger] template[i]))
            ==> source_of(template) == "You are working on an issue from Linear."@,
{
    blank_is_white_space(template);
}

/// The message of an error in a template says whether it came up in parsing or in
/// rendering, and the reason.
pub proof fn prompt_errors_in_words(reason: Seq<char>)
    ensures
        PromptFault::Parse(reason).words() == "template_parse_error reason="@ + reason,
        PromptFault::Render(reason).words() == "template_render_error reason="@ + reason,
{
}

proof fn live_keys()
    ensures
        "session_id"@.len() == 10,
        "thread_id"@.len() == 9,
        "turn_id"@.len() == 7,
        "codex_app_server_pid"@.len() == 20,
        "last_codex_event"@.len() == 16,
        "last_codex_timestamp"@.len() == 20 && "last_codex_timestamp"@[0] == 'l',
        "codex_app_server_pid"@[0] == 'c',
        "last_codex_message"@.len() == 18 && "last_codex_message"@[0] == 'l',
        "codex_input_tokens"@.len() == 18 && "codex_input_tokens"@[0] == 'c',
        "codex_input_tokens"@[6] == 'i',
        "codex_output_tokens"@.len() == 19,
        "codex_total_tokens"@.len() == 18 && "codex_total_tokens"@[0] == 'c',
        "codex_total_tokens"@[6] == 't',
        "last_reported_input_tokens"@.len() == 26 && "last_reported_input_tokens"@[14] == 'i',
        "last_reported_output_tokens"@.len() == 27,
        "last_reported_total_tokens"@.len() == 26 && "last_reported_total_tokens"@[14] == 't',
        "turn_count"@.len() == 10 && "turn_count"@[0] == 't',
        "session_id"@[0] == 's',
{
    reveal_strlit("session_id");
    reveal_strlit("thread_id");
    reveal_strlit("turn_id");
    reveal_strlit("codex_app_server_pid");
    reveal_strlit("last_codex_event");
    reveal_strlit("last_codex_timestamp");
    reveal_strlit("last_codex_message");
    reveal_strlit("codex_input_tokens");
    reveal_strlit("codex_output_tokens");
    reveal_strlit("codex_total_tokens");
    reveal_strlit("last_reported_input_tokens");
    reveal_strlit("last_reported_output_tokens");
    reveal_strlit("last_reported_total_tokens");
    reveal_strlit("turn_count");
}

/// What is shown of a session holds each thing that is known of it under its own
/// name.
pub proof fn session_is_shown(live: LiveV)
    ensures
        ({
            let j = live_json(live);
            &&& says(j, "session_id"@, live.session_id)
            &&& says(j, "thread_id"@, live.thread_id)
            &&& says(j, "turn_id"@, live.turn_id)
            &&& says(j, "codex_app_server_pid"@, live.codex_app_server_pid)
            &&& says(j, "last_codex_event"@, live.last_codex_event)
            &&& dates(j, "last_codex_timestamp"@, live.last_codex_timestamp)
            &&& j.get("last_codex_message"@) == Some(
                if live.last_codex_message is Some {
                    live.last_codex_message->0
                } else {
                    JsonV::Null
                },
            )
            &&& counts(j, "codex_input_tokens"@, Some(live.codex_input_tokens as int))
            &&& counts(j, "codex_output_tokens"@, Some(live.codex_output_tokens as int))
            &&& counts(j, "codex_total_tokens"@, Some(live.codex_total_tokens as int))
            &&& counts(
                j,
                "last_reported_input_tokens"@,
                Some(live.last_reported_input_tokens as int),
            )
            &&& counts(
                j,
                "last_reported_output_tokens"@,
                Some(live.last_reported_output_tokens as int),
            )
            &&& counts(
                j,
                "last_reported_total_tokens"@,
                Some(live.last_reported_total_tokens as int),
            )
            &&& counts(j, "turn_count"@, Some(live.turn_count as int))
        }),
{
    broadcast use added_member;

    live_keys();
}

proof fn entry_keys()
    ensures
        "issue_id"@.len() == 8,
        "issue_identifier"@.len() == 16,
        "issue"@.len() == 5 && "issue"@[0] == 'i',
        "attempt"@.len() == 7,
        "workspace_path"@.len() == 14,
        "started_at"@.len() == 10 && "started_at"@[0] == 's',
        "live_session"@.len() == 12,
        "identifier"@.len() == 10 && "identifier"@[0] == 'i',
        "due_at"@.len() == 6,
        "due_at_ms"@.len() == 9,
        "error"@.len() == 5 && "error"@[0] == 'e',
{
    reveal_strlit("issue_id");
    reveal_strlit("issue_identifier");
    reveal_strlit("issue");
    reveal_strlit("attempt");
    reveal_strlit("workspace_path");
    reveal_strlit("started_at");
    reveal_strlit("live_session");
    reveal_strlit("identifier");
    reveal_strlit("due_at");
    reveal_strlit("due_at_ms");
    reveal_strlit("error");
}

/// What is shown of an issue that is worked on: its id, its identifier and the issue
/// itself, the number of the attempt, where its workspace is, since when it is worked
/// on, and the session.
pub proof fn running_issue_is_shown(entry: RunningV, path: Seq<char>)
    ensures
        ({
            let j = running_json(entry, path);
            &&& says(j, "issue_id"@, Some(entry.issue_id))
            &&& says(j, "issue_identifier"@, Some(entry.issue_identifier))
            &&& j.get("issue"@) matches Some(issue) && holds_issue(issue, entry.issue)
            &&& counts(
                j,
                "attempt"@,
                if entry.attempt is Some {
                    Some(entry.attempt->0 as int)
                } else {
                    None
                },
            )
            &&& says(j, "workspace_path"@, Some(path))
            &&& dates(j, "started_at"@, Some(entry.started_at))
            &&& j.get("live_session"@) == Some(live_json(entry.live_session))
        }),
{
    broadcast use added_member;

    entry_keys();
    issue_is_held(entry.issue);
}

/// What is shown of an issue that waits: its id and identifier, the number of the
/// attempt, when the wait is over, and the error that it waits after.
pub proof fn waiting_issue_is_shown(entry: RetryV)
    requires
        entry.due_at_ms <= u64::MAX,
    ensures
        ({
            let j = retry_json(entry);
            &&& says(j, "issue_id"@, Some(entry.issue_id))
            &&& says(j, "identifier"@, Some(entry.identifier))
            &&& counts(j, "attempt"@, Some(entry.attempt as int))
            &&& dates(j, "due_at"@, Some(entry.due_at))
            &&& counts(j, "due_at_ms"@, Some(entry.due_at_ms as int))
            &&& says(j, "error"@, entry.error)
        }),
{
    broadcast use added_member;

    entry_keys();
}

/// What is shown of the counts of all sessions.
pub proof fn totals_are_shown(totals: CodexTotals, seconds: JsonV)
    ensures
        ({
            let j = totals_json(totals, seconds);
            &&& counts(j, "input_tokens"@, Some(totals.input_tokens as int))
            &&& counts(j, "output_tokens"@, Some(totals.output_tokens as int))
            &&& counts(j, "total_tokens"@, Some(totals.total_tokens as int))
            &&& j.get("seconds_running"@) == Some(seconds)
        }),
{
    broadcast use added_member;

    reveal_strlit("input_tokens");
    reveal_strlit("output_tokens");
    reveal_strlit("total_tokens");
    reveal_strlit("seconds_running");
    assert("input_tokens"@[0] == 'i' && "total_tokens"@[0] == 't');
    assert("output_tokens"@.len() == 13 && "seconds_running"@.len() == 15);
}

/// What is shown of the scheduler: when, how many issues are worked on and how many
/// wait, each of them in the order of the lists, the counts, the limits that were
/// reported last and the last error.
pub proof fn scheduler_is_shown(shown: RuntimeState, generated_at: Seq<char>, seconds: JsonV)
    requires
        shown.running.listed().len() <= u64::MAX,
        shown.retrying.listed().len() <= u64::MAX,
    ensures
        ({
            let j = state_json(shown, generated_at, seconds);
            let running = shown.running.listed();
            let retrying = shown.retrying.listed();
            &&& says(j, "generated_at"@, Some(generated_at))
            &&& j.get("counts"@) matches Some(numbers) && counts(
                numbers,
                "running"@,
                Some(running.len() as int),
            ) && counts(numbers, "retrying"@, Some(retrying.len() as int))
            &&& j.get("running"@) matches Some(JsonV::Array(items)) && items.len() == running.len()
                && forall|i: int|
                0 <= i < items.len() && path_unicode(
                    path_of(&(#[trigger] running[i]).1.workspace_path),
                ) is Some ==> items[i] == running_json(
                    running[i].1@,
                    path_unicode(path_of(&running[i].1.workspace_path))->0,
                )
            &&& j.get("retrying"@) matches Some(JsonV::Array(items)) && items.len()
                == retrying.len() && forall|i: int|
                0 <= i < items.len() ==> #[trigger] items[i] == retry_json(retrying[i].1@)
            &&& j.get("codex_totals"@) == Some(totals_json(shown.codex_totals, seconds))
            &&& j.get("rate_limits"@) == Some(
                match opt_json(shown.codex_rate_limits) {
                    Some(limits) => limits,
                    None => JsonV::Null,
                },
            )
            &&& says(j, "last_error"@, opt_text(shown.last_error))
        }),
{
    broadcast use added_member;

    reveal_strlit("generated_at");
    reveal_strlit("counts");
    reveal_strlit("running");
    reveal_strlit("retrying");
    reveal_strlit("codex_totals");
    reveal_strlit("rate_limits");
    reveal_strlit("last_error");
    assert("generated_at"@[0] == 'g' && "codex_totals"@[0] == 'c');
    assert("counts"@.len() == 6 && "running"@.len() == 7 && "retrying"@.len() == 8);
    assert("rate_limits"@.len() == 11 && "last_error"@.len() == 10);
}

/// An error is answered with its code and its message.
pub proof fn error_is_answered(code: Seq<char>, message: Seq<char>)
    ensures
        error_json(code, message).get("error"@) matches Some(error) && says(
            error,
            "code"@,
            Some(code),
        ) && says(error, "message"@, Some(message)),
{
    broadcast use given_member;

    reveal_strlit("code");
    reveal_strlit("message");
    assert("code"@.len() != "message"@.len());
}

/// An issue is found by its identifier, among those that are worked on before those
/// that wait; that it is unknown is said just where it is neither.
pub proof fn issues_are_found_by_identifier(
    shown: RuntimeState,
    identifier: Seq<char>,
    r: IssueAnswer,
)
    requires
        finds(shown, identifier, r),
    ensures
        r is Running <==> exists|id: Seq<char>| #[trigger]
            shown.running@.contains_key(id) && shown.running@[id].issue_identifier@ == identifier,
        r is Unknown ==> !exists|id: Seq<char>| #[trigger]
            shown.retrying@.contains_key(id) && shown.retrying@[id].identifier@ == identifier,
        r matches IssueAnswer::Running(entry) ==> entry.issue_identifier@ == identifier,
        r matches IssueAnswer::Retrying(entry) ==> entry.identifier@ == identifier,
        r matches IssueAnswer::Unknown(message) ==> identifier.is_suffix_of(message@),
{
    if let IssueAnswer::Running(entry) = r {
        let id = choose|id: Seq<char>| #[trigger]
            shown.running@.contains_key(id) && shown.running@[id] == *entry;
        assert(shown.running@[id].issue_identifier@ == identifier);
    }
}

/// The page holds the three numbers in their order: the issues that are worked on,
/// those that wait, and the tokens.
pub proof fn page_holds_the_numbers(running: nat, retrying: nat, tokens: int)
    ensures
        ({
            let page = page_with(running, retrying, tokens);
            &&& (PAGE_START@ + decimal(running) + PAGE_RETRYING@ + decimal(retrying)
                + PAGE_TOKENS@).is_prefix_of(page)
            &&& (int_decimal(tokens) + PAGE_END@).is_suffix_of(page)
        }),
{
    let front = PAGE_START@ + decimal(running) + PAGE_RETRYING@ + decimal(retrying) + PAGE_TOKENS@;
    let page = page_with(running, retrying, tokens);
    assert(page =~= front + (int_decimal(tokens) + PAGE_END@));
    assert(page.take(front.len() as int) =~= front);
    assert(page.skip(front.len() as int) =~= int_decimal(tokens) + PAGE_END@);
}

}
