//! The protocol with the agent: what a session sends, and how it reacts to what
//! it receives.

use std::path::{Path, PathBuf};
use vstd::prelude::*;

use crate::config::ServiceConfig;
use crate::json::{
    json_bytes, json_display, json_parsed, json_pretty, member_wf, no_members, opt_json,
    opt_text, with_then_get, Json, JsonV,
};
use crate::model::{copy_json, copy_text, utc_now, Timestamp, TokenUsage};
use crate::paths::{as_path, path_of, path_text, path_words};
use crate::prompt::{int_json, json_of_int};
use crate::text::{blank, int_decimal, int_text, is_blank, same_text};
use crate::tracker::{asks, linear_graphql_tool, GraphqlRequest, TrackerError, TrackerFault};
use crate::workspace::{validate_agent_cwd, WorkspaceError};

verus! {

broadcast use vstd::string::group_string_axioms;

/// What a session tells of itself.
#[derive(Debug)]
pub struct AgentUpdate {
    pub issue_id: String,
    pub issue_identifier: String,
    pub event: String,
    pub timestamp: Timestamp,
    pub codex_app_server_pid: Option<String>,
    pub thread_id: Option<String>,
    pub turn_id: Option<String>,
    pub usage: Option<TokenUsage>,
    pub rate_limits: Option<Json>,
    pub message: Option<Json>,
}

/// What an `AgentUpdate` is.
#[verifier::ext_equal]
pub struct UpdateV {
    pub issue_id: Seq<char>,
    pub issue_identifier: Seq<char>,
    pub event: Seq<char>,
    pub timestamp: Timestamp,
    pub codex_app_server_pid: Option<Seq<char>>,
    pub thread_id: Option<Seq<char>>,
    pub turn_id: Option<Seq<char>>,
    pub usage: Option<TokenUsage>,
    pub rate_limits: Option<JsonV>,
    pub message: Option<JsonV>,
}

impl View for AgentUpdate {
    type V = UpdateV;

    open spec fn view(&self) -> UpdateV {
        UpdateV {
            issue_id: self.issue_id@,
            issue_identifier: self.issue_identifier@,
            event: self.event@,
            timestamp: self.timestamp,
            codex_app_server_pid: opt_text(self.codex_app_server_pid),
            thread_id: opt_text(self.thread_id),
            turn_id: opt_text(self.turn_id),
            usage: self.usage,
            rate_limits: opt_json(self.rate_limits),
            message: opt_json(self.message),
        }
    }
}

impl Clone for AgentUpdate {
    fn clone(&self) -> (r: AgentUpdate)
        ensures
            r@ == self@,
    {
        AgentUpdate {
            issue_id: self.issue_id.clone(),
            issue_identifier: self.issue_identifier.clone(),
            event: self.event.clone(),
            timestamp: self.timestamp,
            codex_app_server_pid: copy_text(&self.codex_app_server_pid),
            thread_id: copy_text(&self.thread_id),
            turn_id: copy_text(&self.turn_id),
            usage: self.usage,
            rate_limits: copy_json(&self.rate_limits),
            message: copy_json(&self.message),
        }
    }
}

/// Why a session ended.
#[derive(Debug)]
pub enum AgentError {
    CodexNotFound(String),
    InvalidWorkspaceCwd(String),
    ResponseTimeout(String),
    TurnTimeout,
    PortExit,
    ResponseError { method: String, code: Option<i64>, message: String },
    TurnFailed(String),
    TurnCancelled(String),
    TurnInputRequired,
    StartupFailed(String),
    Io(String),
    Malformed(String),
    Cancelled,
}

/// What an `AgentError` is.
pub enum AgentFault {
    CodexNotFound(Seq<char>),
    InvalidWorkspaceCwd(Seq<char>),
    ResponseTimeout(Seq<char>),
    TurnTimeout,
    PortExit,
    ResponseError { method: Seq<char>, code: Option<i64>, message: Seq<char> },
    TurnFailed(Seq<char>),
    TurnCancelled(Seq<char>),
    TurnInputRequired,
    StartupFailed(Seq<char>),
    Io(Seq<char>),
    Malformed(Seq<char>),
    Cancelled,
}

impl View for AgentError {
    type V = AgentFault;

    open spec fn view(&self) -> AgentFault {
        match self {
            AgentError::CodexNotFound(reason) => AgentFault::CodexNotFound(reason@),
            AgentError::InvalidWorkspaceCwd(reason) => AgentFault::InvalidWorkspaceCwd(reason@),
            AgentError::ResponseTimeout(method) => AgentFault::ResponseTimeout(method@),
            AgentError::TurnTimeout => AgentFault::TurnTimeout,
            AgentError::PortExit => AgentFault::PortExit,
            AgentError::ResponseError { method, code, message } => AgentFault::ResponseError {
                method: method@,
                code: *code,
                message: message@,
            },
            AgentError::TurnFailed(reason) => AgentFault::TurnFailed(reason@),
            AgentError::TurnCancelled(reason) => AgentFault::TurnCancelled(reason@),
            AgentError::TurnInputRequired => AgentFault::TurnInputRequired,
            AgentError::StartupFailed(reason) => AgentFault::StartupFailed(reason@),
            AgentError::Io(reason) => AgentFault::Io(reason@),
            AgentError::Malformed(reason) => AgentFault::Malformed(reason@),
            AgentError::Cancelled => AgentFault::Cancelled,
        }
    }
}

/// A code in words, where there is one.
pub open spec fn code_words(code: Option<i64>) -> Seq<char> {
    match code {
        Some(n) => "Some("@ + int_decimal(n as int) + ")"@,
        None => "None"@,
    }
}

impl AgentFault {
    /// The message of the error.
    pub open spec fn words(self) -> Seq<char> {
        match self {
            AgentFault::CodexNotFound(reason) => "codex_not_found reason="@ + reason,
            AgentFault::InvalidWorkspaceCwd(reason) => "invalid_workspace_cwd reason="@ + reason,
            AgentFault::ResponseTimeout(method) => "response_timeout method="@ + method,
            AgentFault::TurnTimeout => "turn_timeout"@,
            AgentFault::PortExit => "port_exit"@,
            AgentFault::ResponseError { method, code, message } => "response_error method="@
                + method + " code="@ + code_words(code) + " message="@ + message,
            AgentFault::TurnFailed(reason) => "turn_failed reason="@ + reason,
            AgentFault::TurnCancelled(reason) => "turn_cancelled reason="@ + reason,
            AgentFault::TurnInputRequired => "turn_input_required"@,
            AgentFault::StartupFailed(reason) => "startup_failed reason="@ + reason,
            AgentFault::Io(reason) => "io reason="@ + reason,
            AgentFault::Malformed(reason) => "malformed reason="@ + reason,
            AgentFault::Cancelled => "cancelled"@,
        }
    }
}

fn labelled(label: &str, text: &str) -> (r: String)
    ensures
        r@ == label@ + text@,
{
    let mut s = label.to_owned();
    s.append(text);
    s
}

fn code_text(code: &Option<i64>) -> (r: String)
    ensures
        r@ == code_words(*code),
{
    match code {
        Some(n) => {
            let mut s = "Some(".to_owned();
            s.append(int_text(*n).as_str());
            s.append(")");
            s
        },
        None => "None".to_owned(),
    }
}

impl AgentError {
    /// The message of the error.
    pub fn to_text(&self) -> (r: String)
        ensures
            r@ == self@.words(),
    {
        match self {
            AgentError::CodexNotFound(reason) => labelled("codex_not_found reason=", reason.as_str()),
            AgentError::InvalidWorkspaceCwd(reason) => labelled(
                "invalid_workspace_cwd reason=",
                reason.as_str(),
            ),
            AgentError::ResponseTimeout(method) => labelled(
                "response_timeout method=",
                method.as_str(),
            ),
            AgentError::TurnTimeout => "turn_timeout".to_owned(),
            AgentError::PortExit => "port_exit".to_owned(),
            AgentError::ResponseError { method, code, message } => {
                let mut s = labelled("response_error method=", method.as_str());
                s.append(" code=");
                s.append(code_text(code).as_str());
                s.append(" message=");
                s.append(message.as_str());
                s
            },
            AgentError::TurnFailed(reason) => labelled("turn_failed reason=", reason.as_str()),
            AgentError::TurnCancelled(reason) => labelled("turn_cancelled reason=", reason.as_str()),
            AgentError::TurnInputRequired => "turn_input_required".to_owned(),
            AgentError::StartupFailed(reason) => labelled("startup_failed reason=", reason.as_str()),
            AgentError::Io(reason) => labelled("io reason=", reason.as_str()),
            AgentError::Malformed(reason) => labelled("malformed reason=", reason.as_str()),
            AgentError::Cancelled => "cancelled".to_owned(),
        }
    }

    /// The error that a workspace error ends a session with.
    pub fn of_workspace(e: &WorkspaceError) -> (r: AgentError)
        ensures
            r@ == AgentFault::InvalidWorkspaceCwd(e.words()),
    {
        AgentError::InvalidWorkspaceCwd(e.to_text())
    }
}

/// The text that a session goes on with after its first turn.
pub fn continuation_prompt() -> (r: String)
    ensures
        r@
            == "Continue working on the issue. Re-check the tracker state and follow WORKFLOW.md handoff instructions before stopping."@,
{
    "Continue working on the issue. Re-check the tracker state and follow WORKFLOW.md handoff instructions before stopping.".to_owned()
}

/// What a query for the tracker is made of, or why it is none.
pub open spec fn query_arguments(arguments: JsonV) -> Result<
    (Seq<char>, Option<JsonV>),
    Seq<char>,
> {
    match arguments {
        JsonV::Str(query) => Ok((query, None)),
        _ => match arguments.str_at("query"@) {
            Some(query) => if blank(query) {
                Err("linear_graphql requires a non-empty query string"@)
            } else {
                match arguments.get("variables"@) {
                    Some(JsonV::Object(o)) => Ok((query, Some(JsonV::Object(o)))),
                    Some(_) => Err("linear_graphql variables must be a JSON object"@),
                    None => Ok((query, None)),
                }
            },
            None => Err("linear_graphql requires a non-empty query string"@),
        },
    }
}

/// What a query for the tracker is made of: a string is the query itself; an
/// object holds the query, and the variables if there are any.
pub fn parse_linear_graphql_arguments(arguments: &Json) -> (r: Result<
    (String, Option<Json>),
    String,
>)
    ensures
        match r {
            Ok((query, variables)) => {
                &&& query_arguments(arguments@) == Ok::<(Seq<char>, Option<JsonV>), Seq<char>>(
                    (query@, opt_json(variables)),
                )
                &&& arguments@.wf() ==> (variables matches Some(v) ==> v@.wf())
            },
            Err(reason) => query_arguments(arguments@) == Err::<
                (Seq<char>, Option<JsonV>),
                Seq<char>,
            >(reason@),
        },
{
    if let Some(query) = arguments.as_str() {
        return Ok((query.to_owned(), None));
    }
    let query = match arguments.text_at("query") {
        Some(query) => if is_blank(query.as_str()) {
            return Err("linear_graphql requires a non-empty query string".to_owned());
        } else {
            query
        },
        None => return Err("linear_graphql requires a non-empty query string".to_owned()),
    };
    proof {
        if arguments@.wf() {
            member_wf(arguments@, "variables"@);
        }
    }
    match arguments.get("variables") {
        Some(variables) => match variables {
            Json::Object(_) => Ok((query, Some(variables.clone()))),
            _ => Err("linear_graphql variables must be a JSON object".to_owned()),
        },
        None => Ok((query, None)),
    }
}

/// A payload as text.
pub open spec fn payload_text(payload: JsonV) -> Seq<char> {
    match json_pretty(payload) {
        Some(text) => text,
        None => json_display(payload),
    }
}

/// The result of a tool, when its payload reads like that.
pub open spec fn tool_result(success: bool, text: Seq<char>) -> JsonV {
    no_members().with("success"@, JsonV::Bool(success)).with(
        "contentItems"@,
        JsonV::Array(
            seq![no_members().with("type"@, JsonV::Str("inputText"@)).with("text"@, JsonV::Str(text))],
        ),
    )
}

/// The result of a tool, when its payload reads like that.
pub fn tool_result_of(success: bool, text: &str) -> (r: Json)
    ensures
        r@ == tool_result(success, text@),
        r@.wf(),
{
    let item = Json::object().with("type", Json::text("inputText")).with("text", Json::text(text));
    let ghost one = item@;
    let items = Json::Array(vec![item]);
    assert(items@->Array_0 =~= seq![one]);
    assert(items@.wf());
    Json::object().with("success", Json::Bool(success)).with("contentItems", items)
}

/// The result of a tool with that payload.
pub fn dynamic_tool_result(success: bool, payload: &Json) -> (r: Json)
    requires
        payload@.wf(),
    ensures
        r@ == tool_result(success, payload_text(payload@)),
        r@.wf(),
{
    let text = match payload.to_pretty() {
        Some(text) => text,
        None => payload.to_text(),
    };
    tool_result_of(success, text.as_str())
}

/// What a notification is called in the updates.
pub open spec fn event_of(method: Seq<char>, params: JsonV) -> Seq<char> {
    if method == "thread/started"@ {
        "session_started"@
    } else if method == "turn/started"@ {
        "turn_started"@
    } else if method == "thread/tokenUsage/updated"@ {
        "token_usage_updated"@
    } else if method == "turn/completed"@ {
        let status = params.str_under("turn"@, "status"@);
        if status == Some("completed"@) {
            "turn_completed"@
        } else if status == Some("interrupted"@) {
            "turn_cancelled"@
        } else if status == Some("failed"@) {
            "turn_failed"@
        } else {
            "turn_ended_with_error"@
        }
    } else if method == "error"@ {
        "turn_ended_with_error"@
    } else {
        "notification"@
    }
}

/// What a notification is called in the updates.
pub fn event_name(method: &str, params: &Json) -> (r: String)
    ensures
        r@ == event_of(method@, params@),
{
    if same_text(method, "thread/started") {
        "session_started".to_owned()
    } else if same_text(method, "turn/started") {
        "turn_started".to_owned()
    } else if same_text(method, "thread/tokenUsage/updated") {
        "token_usage_updated".to_owned()
    } else if same_text(method, "turn/completed") {
        match params.text_under("turn", "status") {
            Some(status) => if same_text(status.as_str(), "completed") {
                "turn_completed".to_owned()
            } else if same_text(status.as_str(), "interrupted") {
                "turn_cancelled".to_owned()
            } else if same_text(status.as_str(), "failed") {
                "turn_failed".to_owned()
            } else {
                "turn_ended_with_error".to_owned()
            },
            None => "turn_ended_with_error".to_owned(),
        }
    } else if same_text(method, "error") {
        "turn_ended_with_error".to_owned()
    } else {
        "notification".to_owned()
    }
}

/// The text of the member `direct`, or where there is no such member that of
/// the id in the member `holder`.
pub open spec fn id_of(params: JsonV, direct: Seq<char>, holder: Seq<char>) -> Option<Seq<char>> {
    match params.get(direct) {
        Some(v) => v.as_str(),
        None => params.str_under(holder, "id"@),
    }
}

/// The thread that a notification is about.
pub open spec fn thread_of(params: JsonV) -> Option<Seq<char>> {
    id_of(params, "threadId"@, "thread"@)
}

/// The turn that a notification is about.
pub open spec fn turn_of(params: JsonV) -> Option<Seq<char>> {
    id_of(params, "turnId"@, "turn"@)
}

fn extract_id(params: &Json, direct: &str, holder: &str) -> (r: Option<String>)
    ensures
        opt_text(r) == id_of(params@, direct@, holder@),
{
    match params.get(direct) {
        Some(v) => match v.as_str() {
            Some(s) => Some(s.to_owned()),
            None => None,
        },
        None => params.text_under(holder, "id"),
    }
}

/// The thread that a notification is about.
pub fn extract_thread_id(params: &Json) -> (r: Option<String>)
    ensures
        opt_text(r) == thread_of(params@),
{
    extract_id(params, "threadId", "thread")
}

/// The turn that a notification is about.
pub fn extract_turn_id(params: &Json) -> (r: Option<String>)
    ensures
        opt_text(r) == turn_of(params@),
{
    extract_id(params, "turnId", "turn")
}

/// An integer, with one that is too large for the sign taken over bit by bit.
pub open spec fn number_of(value: JsonV) -> Option<i64> {
    match value {
        JsonV::PosInt(n) => Some(n as i64),
        JsonV::NegInt(n) => Some(n),
        _ => None,
    }
}

/// The number under the first of the keys that has one.
pub open spec fn number_at(value: JsonV, keys: Seq<Seq<char>>) -> Option<i64>
    decreases keys.len(),
{
    if keys.len() == 0 {
        None
    } else {
        let first = match value.get(keys[0]) {
            Some(v) => number_of(v),
            None => None,
        };
        match first {
            Some(n) => Some(n),
            None => number_at(value, keys.drop_first()),
        }
    }
}

/// How many members or items a value has.
pub open spec fn children(value: JsonV) -> nat {
    match value {
        JsonV::Object(o) => o.len(),
        JsonV::Array(a) => a.len(),
        _ => 0,
    }
}

/// The number under one of the keys, in the value itself or else in the first of
/// its members or items that holds one, at any depth.
pub open spec fn number_in(value: JsonV, keys: Seq<Seq<char>>) -> Option<i64>
    decreases value, children(value) + 1,
{
    match number_at(value, keys) {
        Some(n) => Some(n),
        None => number_below(value, 0, keys),
    }
}

/// The number under one of the keys, in the first member or item from `i` on
/// that holds one.
pub open spec fn number_below(value: JsonV, i: nat, keys: Seq<Seq<char>>) -> Option<i64>
    decreases value, children(value) - i,
{
    if i >= children(value) {
        None
    } else {
        let here = match value {
            JsonV::Object(o) => number_in(o[i as int].1, keys),
            JsonV::Array(a) => number_in(a[i as int], keys),
            _ => None,
        };
        match here {
            Some(n) => Some(n),
            None => number_below(value, i + 1, keys),
        }
    }
}

/// The texts of the keys.
pub open spec fn key_texts(keys: Seq<&str>) -> Seq<Seq<char>> {
    keys.map_values(|k: &str| k@)
}

fn number_at_keys(value: &Json, keys: &Vec<&str>) -> (r: Option<i64>)
    ensures
        r == number_at(value@, key_texts(keys@)),
{
    let ghost all = key_texts(keys@);
    let mut i: usize = 0;
    assert(all.skip(0) == all);
    while i < keys.len()
        invariant
            i <= keys@.len(),
            all == key_texts(keys@),
            number_at(value@, all) == number_at(value@, all.skip(i as int)),
        decreases keys@.len() - i,
    {
        assert(all.skip(i as int)[0] == keys@[i as int]@);
        assert(all.skip(i as int).drop_first() == all.skip(i + 1));
        if let Some(v) = value.get(keys[i]) {
            match v {
                Json::PosInt(n) => {
                    return Some(
                        #[verifier::truncate]
                        (*n as i64),
                    );
                },
                Json::NegInt(n) => {
                    return Some(*n);
                },
                _ => {},
            }
        }
        i += 1;
    }
    None
}

/// The number under one of the keys, in the value itself or else in the first of
/// its members or items that holds one, at any depth.
pub fn find_number(value: &Json, keys: &Vec<&str>) -> (r: Option<i64>)
    ensures
        r == number_in(value@, key_texts(keys@)),
    decreases value,
{
    if let Some(n) = number_at_keys(value, keys) {
        return Some(n);
    }
    let ghost all = key_texts(keys@);
    match value {
        Json::Object(o) => {
            let mut i: usize = 0;
            while i < o.len()
                invariant
                    i <= o@.len(),
                    all == key_texts(keys@),
                    value == Json::Object(*o),
                    number_in(value@, all) == number_below(value@, i as nat, all),
                decreases o@.len() - i,
            {
                assert(value@->Object_0[i as int].1 == o@[i as int].1@);
                if let Some(n) = find_number(&o[i].1, keys) {
                    return Some(n);
                }
                i += 1;
            }
            None
        },
        Json::Array(a) => {
            let mut i: usize = 0;
            while i < a.len()
                invariant
                    i <= a@.len(),
                    all == key_texts(keys@),
                    value == Json::Array(*a),
                    number_in(value@, all) == number_below(value@, i as nat, all),
                decreases a@.len() - i,
            {
                assert(value@->Array_0[i as int] == a@[i as int]@);
                if let Some(n) = find_number(&a[i], keys) {
                    return Some(n);
                }
                i += 1;
            }
            None
        },
        _ => None,
    }
}

/// The keys of the tokens that went in.
pub open spec fn input_keys() -> Seq<Seq<char>> {
    seq!["input_tokens"@, "inputTokens"@, "prompt_tokens"@, "promptTokens"@]
}

/// The keys of the tokens that came out.
pub open spec fn output_keys() -> Seq<Seq<char>> {
    seq!["output_tokens"@, "outputTokens"@, "completion_tokens"@, "completionTokens"@]
}

/// The keys of the tokens in all.
pub open spec fn total_keys() -> Seq<Seq<char>> {
    seq!["total_tokens"@, "totalTokens"@]
}

/// The sum of two integers, wrapped around where it does not fit.
pub open spec fn wrapped_sum(a: i64, b: i64) -> int {
    if a + b > i64::MAX {
        a + b - 0x1_0000_0000_0000_0000
    } else if a + b < i64::MIN {
        a + b + 0x1_0000_0000_0000_0000
    } else {
        a + b
    }
}

/// The part of a notification that counts tokens.
pub open spec fn usage_payload(method: Seq<char>, params: JsonV) -> Option<JsonV> {
    if method == "thread/tokenUsage/updated"@ {
        Some(params)
    } else {
        match params.get("total_token_usage"@) {
            Some(v) => Some(v),
            None => params.get("totalTokenUsage"@),
        }
    }
}

/// The tokens that a notification counts.
pub open spec fn usage_of(method: Seq<char>, params: JsonV) -> Option<TokenUsage> {
    match usage_payload(method, params) {
        Some(payload) => match (
            number_in(payload, input_keys()),
            number_in(payload, output_keys()),
        ) {
            (Some(input), Some(output)) => Some(
                TokenUsage {
                    input_tokens: input,
                    output_tokens: output,
                    total_tokens: match number_in(payload, total_keys()) {
                        Some(total) => total,
                        None => wrapped_sum(input, output) as i64,
                    },
                    absolute: true,
                },
            ),
            _ => None,
        },
        None => None,
    }
}

/// The tokens that a notification counts.
pub fn extract_token_usage(method: &str, params: &Json) -> (r: Option<TokenUsage>)
    ensures
        r == usage_of(method@, params@),
{
    let payload = if same_text(method, "thread/tokenUsage/updated") {
        params
    } else {
        let found = match params.get("total_token_usage") {
            Some(v) => Some(v),
            None => params.get("totalTokenUsage"),
        };
        match found {
            Some(v) => v,
            None => return None,
        }
    };
    let keys: Vec<&str> = vec!["input_tokens", "inputTokens", "prompt_tokens", "promptTokens"];
    assert(key_texts(keys@) =~= input_keys());
    let input: i64 = match find_number(payload, &keys) {
        Some(n) => n,
        None => return None,
    };
    let keys: Vec<&str> = vec![
        "output_tokens",
        "outputTokens",
        "completion_tokens",
        "completionTokens",
    ];
    assert(key_texts(keys@) =~= output_keys());
    let output: i64 = match find_number(payload, &keys) {
        Some(n) => n,
        None => return None,
    };
    let keys: Vec<&str> = vec!["total_tokens", "totalTokens"];
    assert(key_texts(keys@) =~= total_keys());
    let total: i64 = match find_number(payload, &keys) {
        Some(n) => n,
        None => input.wrapping_add(output),
    };
    Some(
        TokenUsage {
            input_tokens: input,
            output_tokens: output,
            total_tokens: total,
            absolute: true,
        },
    )
}

/// The rate limits in the value itself.
pub open spec fn limits_at(value: JsonV) -> Option<JsonV> {
    match value.get("rate_limits"@) {
        Some(v) => Some(v),
        None => value.get("rateLimits"@),
    }
}

/// The rate limits in the value itself or else in the first of its members or
/// items that holds any, at any depth.
pub open spec fn limits_in(value: JsonV) -> Option<JsonV>
    decreases value, children(value) + 1,
{
    match limits_at(value) {
        Some(v) => Some(v),
        None => limits_below(value, 0),
    }
}

/// The rate limits in the first member or item from `i` on that holds any.
pub open spec fn limits_below(value: JsonV, i: nat) -> Option<JsonV>
    decreases value, children(value) - i,
{
    if i >= children(value) {
        None
    } else {
        let here = match value {
            JsonV::Object(o) => limits_in(o[i as int].1),
            JsonV::Array(a) => limits_in(a[i as int]),
            _ => None,
        };
        match here {
            Some(v) => Some(v),
            None => limits_below(value, i + 1),
        }
    }
}

/// The rate limits in a notification.
pub fn extract_rate_limits(params: &Json) -> (r: Option<Json>)
    ensures
        opt_json(r) == limits_in(params@),
        params@.wf() ==> (r matches Some(v) ==> v@.wf()),
    decreases params,
{
    proof {
        if params@.wf() {
            member_wf(params@, "rate_limits"@);
            member_wf(params@, "rateLimits"@);
        }
    }
    if let Some(v) = params.get("rate_limits") {
        return Some(v.clone());
    }
    if let Some(v) = params.get("rateLimits") {
        return Some(v.clone());
    }
    match params {
        Json::Object(o) => {
            let mut i: usize = 0;
            while i < o.len()
                invariant
                    i <= o@.len(),
                    params == Json::Object(*o),
                    limits_in(params@) == limits_below(params@, i as nat),
                decreases o@.len() - i,
            {
                assert(params@->Object_0[i as int].1 == o@[i as int].1@);
                if let Some(v) = extract_rate_limits(&o[i].1) {
                    assert(params@.wf() ==> params@->Object_0[i as int].1.wf());
                    return Some(v);
                }
                i += 1;
            }
            None
        },
        Json::Array(a) => {
            let mut i: usize = 0;
            while i < a.len()
                invariant
                    i <= a@.len(),
                    params == Json::Array(*a),
                    limits_in(params@) == limits_below(params@, i as nat),
                decreases a@.len() - i,
            {
                assert(params@->Array_0[i as int] == a@[i as int]@);
                if let Some(v) = extract_rate_limits(&a[i]) {
                    assert(params@.wf() ==> params@->Array_0[i as int].wf());
                    return Some(v);
                }
                i += 1;
            }
            None
        },
        _ => None,
    }
}

/// What goes into an update, apart from whose it is and when it was made.
#[verifier::ext_equal]
pub struct EmitV {
    pub event: Seq<char>,
    pub thread_id: Option<Seq<char>>,
    pub turn_id: Option<Seq<char>>,
    pub usage: Option<TokenUsage>,
    pub rate_limits: Option<JsonV>,
    pub message: Option<JsonV>,
}

/// An update with nothing but a message.
pub open spec fn plain_emit(event: Seq<char>, message: JsonV) -> EmitV {
    EmitV {
        event,
        thread_id: None,
        turn_id: None,
        usage: None,
        rate_limits: None,
        message: Some(message),
    }
}

/// What a message of the agent comes to.
#[derive(Debug)]
pub enum HandleOutcome {
    Nothing,
    Response { id: u64, result: Json },
    TurnCompleted { turn_id: Option<String>, status: String, error: Option<String> },
}

/// What to do after the update and the reply.
#[derive(Debug)]
pub enum Next {
    /// Nothing more: this is what the message comes to.
    Outcome(HandleOutcome),
    /// The session is over.
    Fail(AgentError),
    /// Ask the tracker, and reply to that id with what it says.
    AskTracker { id: Json, query: String, variables: Option<Json> },
}

/// What a `Next` is.
pub enum NextV {
    Proceed,
    Response { id: u64, result: JsonV },
    TurnCompleted { turn_id: Option<Seq<char>>, status: Seq<char>, error: Option<Seq<char>> },
    Fail(AgentFault),
    AskTracker { call: JsonV, query: Seq<char>, variables: Option<JsonV> },
}

impl View for Next {
    type V = NextV;

    open spec fn view(&self) -> NextV {
        match self {
            Next::Outcome(HandleOutcome::Nothing) => NextV::Proceed,
            Next::Outcome(HandleOutcome::Response { id, result }) => NextV::Response {
                id: *id,
                result: result@,
            },
            Next::Outcome(HandleOutcome::TurnCompleted { turn_id, status, error }) =>
                NextV::TurnCompleted {
                turn_id: opt_text(*turn_id),
                status: status@,
                error: opt_text(*error),
            },
            Next::Fail(e) => NextV::Fail(e@),
            Next::AskTracker { id, query, variables } => NextV::AskTracker {
                call: id@,
                query: query@,
                variables: opt_json(*variables),
            },
        }
    }
}

/// How a session reacts to a message: it sends the update, then the reply, and
/// goes on.
#[derive(Debug)]
pub struct Reaction {
    pub update: Option<AgentUpdate>,
    pub reply: Option<Json>,
    pub next: Next,
}

/// What a `Reaction` is, apart from whose updates it sends and when.
pub struct ReactionV {
    pub emit: Option<EmitV>,
    pub reply: Option<JsonV>,
    pub next: NextV,
}

/// The parameters of a message.
pub open spec fn params_of(message: JsonV) -> JsonV {
    match message.get("params"@) {
        Some(params) => params,
        None => no_members(),
    }
}

/// A text, or an empty one.
pub open spec fn or_empty(s: Option<Seq<char>>) -> Seq<char> {
    match s {
        Some(t) => t,
        None => Seq::empty(),
    }
}

/// A text, or the other one.
pub open spec fn or_text(s: Option<Seq<char>>, other: Seq<char>) -> Seq<char> {
    match s {
        Some(t) => t,
        None => other,
    }
}

/// The reply with a result.
pub open spec fn result_reply(id: JsonV, result: JsonV) -> JsonV {
    no_members().with("id"@, id).with("result"@, result)
}

/// The reply with an error.
pub open spec fn error_reply(id: JsonV, code: i64, text: Seq<char>) -> JsonV {
    no_members().with("id"@, id).with(
        "error"@,
        no_members().with("code"@, int_json(code)).with("message"@, JsonV::Str(text)),
    )
}

/// The failed result of a tool, with that reason.
pub open spec fn failed_tool(reason: Seq<char>) -> JsonV {
    tool_result(false, payload_text(no_members().with("error"@, JsonV::Str(reason))))
}

/// How a session reacts when the agent calls one of its tools: the only one is
/// the query to the tracker.
pub open spec fn tool_reaction(id: JsonV, params: JsonV) -> ReactionV {
    let tool = or_empty(params.str_at("tool"@));
    let arguments = match params.get("arguments"@) {
        Some(v) => v,
        None => no_members(),
    };
    if tool != "linear_graphql"@ {
        ReactionV {
            emit: None,
            reply: Some(result_reply(id, failed_tool("unsupported tool: "@ + tool))),
            next: NextV::Proceed,
        }
    } else {
        match query_arguments(arguments) {
            Ok((query, variables)) => ReactionV {
                emit: None,
                reply: None,
                next: NextV::AskTracker { call: id, query, variables },
            },
            Err(reason) => ReactionV {
                emit: None,
                reply: Some(result_reply(id, failed_tool(reason))),
                next: NextV::Proceed,
            },
        }
    }
}

/// The request asks for leave to run a command or to change a file.
pub open spec fn asks_approval(method: Seq<char>) -> bool {
    method == "item/commandExecution/requestApproval"@ || method
        == "item/fileChange/requestApproval"@
}

/// The request asks for input of a user.
pub open spec fn asks_input(method: Seq<char>) -> bool {
    method == "item/tool/requestUserInput"@ || method == "mcpServer/elicitation/request"@
}

/// How a session reacts to a request of the agent.
pub open spec fn request_reaction(id: JsonV, message: JsonV) -> ReactionV {
    let method = or_empty(message.str_at("method"@));
    let params = params_of(message);
    if asks_approval(method) {
        ReactionV {
            emit: Some(plain_emit("approval_auto_approved"@, params)),
            reply: Some(
                result_reply(
                    id,
                    no_members().with("decision"@, JsonV::Str("acceptForSession"@)),
                ),
            ),
            next: NextV::Proceed,
        }
    } else if asks_input(method) {
        ReactionV {
            emit: Some(plain_emit("turn_input_required"@, params)),
            reply: Some(
                error_reply(id, (-32000) as i64, "Symphony does not provide interactive user input"@),
            ),
            next: NextV::Fail(AgentFault::TurnInputRequired),
        }
    } else if method == "item/tool/call"@ {
        tool_reaction(id, params)
    } else {
        ReactionV {
            emit: Some(plain_emit("unsupported_tool_call"@, message)),
            reply: Some(
                error_reply(id, (-32601) as i64, "Unsupported Symphony client request: "@ + method),
            ),
            next: NextV::Proceed,
        }
    }
}

/// How a session with that thread reacts to a notification of the agent.
pub open spec fn notice_reaction(thread: Seq<char>, method: Seq<char>, params: JsonV) -> ReactionV {
    let emit = EmitV {
        event: event_of(method, params),
        thread_id: match thread_of(params) {
            Some(id) => Some(id),
            None => if thread.len() > 0 {
                Some(thread)
            } else {
                None
            },
        },
        turn_id: turn_of(params),
        usage: usage_of(method, params),
        rate_limits: limits_in(params),
        message: Some(params),
    };
    let next = if method == "turn/completed"@ {
        NextV::TurnCompleted {
            turn_id: turn_of(params),
            status: or_text(params.str_under("turn"@, "status"@), "failed"@),
            error: match params.at("turn"@, "error"@) {
                Some(error) => error.str_at("message"@),
                None => None,
            },
        }
    } else if method == "error"@ {
        NextV::Fail(
            AgentFault::TurnFailed(
                or_text(params.str_at("message"@), "codex error notification"@),
            ),
        )
    } else {
        NextV::Proceed
    };
    ReactionV { emit: Some(emit), reply: None, next }
}

/// The number of the request that a message answers.
pub open spec fn answered(message: JsonV) -> Option<u64> {
    match message.get("id"@) {
        Some(id) => id.as_u64(),
        None => None,
    }
}

/// How a session with that thread reacts to a message of the agent.
pub open spec fn reaction_to(thread: Seq<char>, message: JsonV) -> ReactionV {
    if answered(message) is Some && message.get("error"@) is Some {
        let error = message.get("error"@)->0;
        ReactionV {
            emit: None,
            reply: None,
            next: NextV::Fail(
                AgentFault::ResponseError {
                    method: "response"@,
                    code: match error.get("code"@) {
                        Some(code) => code.as_i64(),
                        None => None,
                    },
                    message: or_text(error.str_at("message"@), "unknown response error"@),
                },
            ),
        }
    } else if answered(message) is Some && message.get("result"@) is Some {
        ReactionV {
            emit: None,
            reply: None,
            next: NextV::Response {
                id: answered(message)->0,
                result: message.get("result"@)->0,
            },
        }
    } else if message.get("id"@) is Some && message.get("method"@) is Some {
        request_reaction(message.get("id"@)->0, message)
    } else {
        match message.str_at("method"@) {
            Some(method) => notice_reaction(thread, method, params_of(message)),
            None => ReactionV { emit: None, reply: None, next: NextV::Proceed },
        }
    }
}

/// A session with the agent: whose it is, and where the protocol stands.
#[derive(Debug)]
pub struct CodexSession {
    issue_id: String,
    issue_identifier: String,
    config: ServiceConfig,
    workspace_path: PathBuf,
    pid: Option<String>,
    next_id: u64,
    thread_id: String,
}

/// What a `CodexSession` is.
#[verifier::ext_equal]
pub struct SessionV {
    pub issue_id: Seq<char>,
    pub issue_identifier: Seq<char>,
    pub config: ServiceConfig,
    pub workspace_path: PathBuf,
    pub pid: Option<Seq<char>>,
    pub next_id: u64,
    pub thread_id: Seq<char>,
}

impl View for CodexSession {
    type V = SessionV;

    closed spec fn view(&self) -> SessionV {
        SessionV {
            issue_id: self.issue_id@,
            issue_identifier: self.issue_identifier@,
            config: self.config,
            workspace_path: self.workspace_path,
            pid: opt_text(self.pid),
            next_id: self.next_id,
            thread_id: self.thread_id@,
        }
    }
}

impl SessionV {
    /// The update is one of this session, and says that.
    pub open spec fn emits(self, update: AgentUpdate, emit: EmitV) -> bool {
        update@ == (UpdateV {
            issue_id: self.issue_id,
            issue_identifier: self.issue_identifier,
            event: emit.event,
            timestamp: update.timestamp,
            codex_app_server_pid: self.pid,
            thread_id: emit.thread_id,
            turn_id: emit.turn_id,
            usage: emit.usage,
            rate_limits: emit.rate_limits,
            message: emit.message,
        }) && update.timestamp.nanos < 1_000_000_000
    }

    /// The reaction is this one, with updates of this session.
    pub open spec fn reacts(self, r: Reaction, expected: ReactionV) -> bool {
        &&& match (r.update, expected.emit) {
            (Some(update), Some(emit)) => self.emits(update, emit),
            (None, None) => true,
            _ => false,
        }
        &&& opt_json(r.reply) == expected.reply
        &&& r.next@ == expected.next
    }
}

/// The JSON in a reaction is well formed.
pub open spec fn reaction_wf(r: Reaction) -> bool {
    &&& r.reply matches Some(reply) ==> reply@.wf()
    &&& r.next matches Next::AskTracker { id, query, variables } ==> id@.wf() && (
    variables matches Some(v) ==> v@.wf())
}

fn result_message(id: Json, result: Json) -> (r: Json)
    ensures
        r@ == result_reply(id@, result@),
        id@.wf() && result@.wf() ==> r@.wf(),
{
    Json::object().with("id", id).with("result", result)
}

fn error_message(id: Json, code: i64, text: &str) -> (r: Json)
    ensures
        r@ == error_reply(id@, code, text@),
        id@.wf() ==> r@.wf(),
{
    Json::object().with("id", id).with(
        "error",
        Json::object().with("code", json_of_int(code)).with("message", Json::text(text)),
    )
}

fn failed_tool_result(reason: &str) -> (r: Json)
    ensures
        r@ == failed_tool(reason@),
        r@.wf(),
{
    dynamic_tool_result(false, &Json::object().with("error", Json::text(reason)))
}

/// The reply to a call of the tool that asks the tracker, when it said that.
pub open spec fn tracker_reply(id: JsonV, answer: Result<JsonV, TrackerFault>) -> JsonV {
    result_reply(
        id,
        match answer {
            Ok(payload) => tool_result(true, payload_text(payload)),
            Err(fault) => failed_tool(fault.words()),
        },
    )
}

/// The reply to a call of the tool that asks the tracker.
pub fn tool_reply(id: Json, answer: Result<Json, TrackerError>) -> (r: Json)
    requires
        match answer {
            Ok(payload) => payload@.wf(),
            Err(e) => e@.wf(),
        },
    ensures
        r@ == tracker_reply(
            id@,
            match answer {
                Ok(payload) => Ok(payload@),
                Err(e) => Err(e@),
            },
        ),
        id@.wf() ==> r@.wf(),
{
    let result = match answer {
        Ok(payload) => dynamic_tool_result(true, &payload),
        Err(e) => failed_tool_result(e.to_text().as_str()),
    };
    result_message(id, result)
}

fn text_or(s: Option<String>, other: &str) -> (r: String)
    ensures
        r@ == or_text(opt_text(s), other@),
{
    match s {
        Some(t) => t,
        None => other.to_owned(),
    }
}

fn message_params(message: &Json) -> (r: Json)
    ensures
        r@ == params_of(message@),
        message@.wf() ==> r@.wf(),
{
    proof {
        if message@.wf() {
            member_wf(message@, "params"@);
        }
    }
    match message.get("params") {
        Some(params) => params.clone(),
        None => Json::object(),
    }
}

impl CodexSession {
    fn emit(
        &self,
        event: &str,
        thread_id: Option<String>,
        turn_id: Option<String>,
        usage: Option<TokenUsage>,
        rate_limits: Option<Json>,
        message: Option<Json>,
    ) -> (r: AgentUpdate)
        ensures
            self@.emits(
                r,
                (EmitV {
                    event: event@,
                    thread_id: opt_text(thread_id),
                    turn_id: opt_text(turn_id),
                    usage,
                    rate_limits: opt_json(rate_limits),
                    message: opt_json(message),
                }),
            ),
    {
        AgentUpdate {
            issue_id: self.issue_id.clone(),
            issue_identifier: self.issue_identifier.clone(),
            event: event.to_owned(),
            timestamp: utc_now(),
            codex_app_server_pid: copy_text(&self.pid),
            thread_id,
            turn_id,
            usage,
            rate_limits,
            message,
        }
    }

    fn emit_plain(&self, event: &str, message: Json) -> (r: AgentUpdate)
        ensures
            self@.emits(r, plain_emit(event@, message@)),
    {
        self.emit(event, None, None, None, None, Some(message))
    }

    fn handle_dynamic_tool_call(&self, id: Json, params: &Json) -> (r: Reaction)
        ensures
            self@.reacts(r, tool_reaction(id@, params@)),
            id@.wf() && params@.wf() ==> reaction_wf(r),
    {
        let tool = text_or(params.text_at("tool"), "");
        proof {
            reveal_strlit("");
            assert(""@ =~= Seq::<char>::empty());
            if params@.wf() {
                member_wf(params@, "arguments"@);
            }
        }
        if !same_text(tool.as_str(), "linear_graphql") {
            let reason = labelled("unsupported tool: ", tool.as_str());
            return Reaction {
                update: None,
                reply: Some(result_message(id, failed_tool_result(reason.as_str()))),
                next: Next::Outcome(HandleOutcome::Nothing),
            };
        }
        let arguments = match params.get("arguments") {
            Some(v) => v.clone(),
            None => Json::object(),
        };
        match parse_linear_graphql_arguments(&arguments) {
            Ok((query, variables)) => Reaction {
                update: None,
                reply: None,
                next: Next::AskTracker { id, query, variables },
            },
            Err(reason) => Reaction {
                update: None,
                reply: Some(result_message(id, failed_tool_result(reason.as_str()))),
                next: Next::Outcome(HandleOutcome::Nothing),
            },
        }
    }

    fn handle_server_request(&self, id: Json, message: &Json) -> (r: Reaction)
        ensures
            self@.reacts(r, request_reaction(id@, message@)),
            id@.wf() && message@.wf() ==> reaction_wf(r),
    {
        let method = text_or(message.text_at("method"), "");
        proof {
            reveal_strlit("");
            assert(""@ =~= Seq::<char>::empty());
        }
        let params = message_params(message);
        if same_text(method.as_str(), "item/commandExecution/requestApproval") || same_text(
            method.as_str(),
            "item/fileChange/requestApproval",
        ) {
            let decision = Json::object().with("decision", Json::text("acceptForSession"));
            Reaction {
                update: Some(self.emit_plain("approval_auto_approved", params)),
                reply: Some(result_message(id, decision)),
                next: Next::Outcome(HandleOutcome::Nothing),
            }
        } else if same_text(method.as_str(), "item/tool/requestUserInput") || same_text(
            method.as_str(),
            "mcpServer/elicitation/request",
        ) {
            Reaction {
                update: Some(self.emit_plain("turn_input_required", params)),
                reply: Some(
                    error_message(id, -32000, "Symphony does not provide interactive user input"),
                ),
                next: Next::Fail(AgentError::TurnInputRequired),
            }
        } else if same_text(method.as_str(), "item/tool/call") {
            self.handle_dynamic_tool_call(id, &params)
        } else {
            let text = labelled("Unsupported Symphony client request: ", method.as_str());
            Reaction {
                update: Some(self.emit_plain("unsupported_tool_call", message.clone())),
                reply: Some(error_message(id, -32601, text.as_str())),
                next: Next::Outcome(HandleOutcome::Nothing),
            }
        }
    }

    fn handle_notification(&self, method: &str, params: Json) -> (r: Reaction)
        ensures
            self@.reacts(r, notice_reaction(self@.thread_id, method@, params@)),
            reaction_wf(r),
    {
        let thread_id = match extract_thread_id(&params) {
            Some(id) => Some(id),
            None => if self.thread_id.as_str().is_empty() {
                None
            } else {
                Some(self.thread_id.clone())
            },
        };
        let turn_id = extract_turn_id(&params);
        let usage = extract_token_usage(method, &params);
        let rate_limits = extract_rate_limits(&params);
        let event = event_name(method, &params);
        let next = if same_text(method, "turn/completed") {
            let error = match params.at("turn", "error") {
                Some(error) => error.text_at("message"),
                None => None,
            };
            Next::Outcome(
                HandleOutcome::TurnCompleted {
                    turn_id: copy_text(&turn_id),
                    status: text_or(params.text_under("turn", "status"), "failed"),
                    error,
                },
            )
        } else if same_text(method, "error") {
            Next::Fail(
                AgentError::TurnFailed(
                    text_or(params.text_at("message"), "codex error notification"),
                ),
            )
        } else {
            Next::Outcome(HandleOutcome::Nothing)
        };
        let update = self.emit(
            event.as_str(),
            thread_id,
            turn_id,
            usage,
            rate_limits,
            Some(params),
        );
        Reaction { update: Some(update), reply: None, next }
    }

    /// How the session reacts to a message of the agent.
    pub fn handle_message(&self, message: &Json) -> (r: Reaction)
        ensures
            self@.reacts(r, reaction_to(self@.thread_id, message@)),
            message@.wf() ==> reaction_wf(r),
    {
        let id = message.get("id");
        let number = match id {
            Some(id) => id.as_u64(),
            None => None,
        };
        proof {
            if message@.wf() {
                member_wf(message@, "id"@);
            }
        }
        if let Some(number) = number {
            if let Some(error) = message.get("error") {
                let code = match error.get("code") {
                    Some(code) => code.as_i64(),
                    None => None,
                };
                let text = text_or(error.text_at("message"), "unknown response error");
                return Reaction {
                    update: None,
                    reply: None,
                    next: Next::Fail(
                        AgentError::ResponseError {
                            method: "response".to_owned(),
                            code,
                            message: text,
                        },
                    ),
                };
            }
            if let Some(result) = message.get("result") {
                return Reaction {
                    update: None,
                    reply: None,
                    next: Next::Outcome(
                        HandleOutcome::Response { id: number, result: result.clone() },
                    ),
                };
            }
        }
        if let Some(id) = id {
            if message.get("method").is_some() {
                return self.handle_server_request(id.clone(), message);
            }
        }
        match message.text_at("method") {
            Some(method) => self.handle_notification(method.as_str(), message_params(message)),
            None => Reaction {
                update: None,
                reply: None,
                next: Next::Outcome(HandleOutcome::Nothing),
            },
        }
    }
}

/// How the launch of the agent went.
pub enum Launch {
    /// It could not be started, for that reason.
    Failed(String),
    /// It runs: its process id where there is one, and whether there is a way to
    /// write to it and to read from it.
    Started { pid: Option<u32>, stdin: bool, stdout: bool },
}

/// A request to the agent.
#[derive(Debug)]
pub struct ClientRequest {
    pub id: u64,
    pub message: Json,
}

/// The message of a request.
pub open spec fn request_message(id: u64, method: Seq<char>, params: JsonV) -> JsonV {
    no_members().with("id"@, JsonV::PosInt(id)).with("method"@, JsonV::Str(method)).with(
        "params"@,
        params,
    )
}

/// The parameters of the first request.
pub open spec fn initialize_params(version: Seq<char>) -> JsonV {
    no_members().with(
        "clientInfo"@,
        no_members().with("name"@, JsonV::Str("symphony-rust"@)).with(
            "title"@,
            JsonV::Str("Symphony"@),
        ).with("version"@, JsonV::Str(version)),
    ).with("capabilities"@, no_members().with("experimentalApi"@, JsonV::Bool(true)))
}

/// The object with that value under that key, where there is a value.
pub open spec fn with_some(object: JsonV, key: Seq<char>, value: Option<JsonV>) -> JsonV {
    match value {
        Some(v) => object.with(key, v),
        None => object,
    }
}

fn add_some(object: Json, key: &str, value: &Option<Json>) -> (r: Json)
    ensures
        r@ == with_some(object@, key@, opt_json(*value)),
        object@.wf() && (value matches Some(v) ==> v@.wf()) ==> r@.wf(),
{
    match value {
        Some(v) => object.with(key, v.clone()),
        None => object,
    }
}

/// The parameters of the request for a thread.
pub open spec fn thread_params(session: SessionV) -> JsonV {
    with_some(
        with_some(
            no_members().with(
                "cwd"@,
                JsonV::Str(path_words(path_of(&session.workspace_path))),
            ).with("ephemeral"@, JsonV::Bool(true)).with(
                "serviceName"@,
                JsonV::Str("symphony"@),
            ).with("sessionStartSource"@, JsonV::Str("startup"@)),
            "approvalPolicy"@,
            opt_json(session.config.codex.approval_policy),
        ),
        "sandbox"@,
        opt_json(session.config.codex.thread_sandbox),
    )
}

/// The parameters of the request for a turn with that input.
pub open spec fn turn_params(session: SessionV, input: Seq<char>) -> JsonV {
    with_some(
        with_some(
            no_members().with("threadId"@, JsonV::Str(session.thread_id)).with(
                "cwd"@,
                JsonV::Str(path_words(path_of(&session.workspace_path))),
            ).with(
                "input"@,
                JsonV::Array(
                    seq![
                        no_members().with("type"@, JsonV::Str("text"@)).with(
                            "text"@,
                            JsonV::Str(input),
                        ),
                    ],
                ),
            ),
            "approvalPolicy"@,
            opt_json(session.config.codex.approval_policy),
        ),
        "sandboxPolicy"@,
        opt_json(session.config.codex.turn_sandbox_policy),
    )
}

/// The number after this one; after the last one they start again.
pub open spec fn following(id: u64) -> u64 {
    if id == u64::MAX {
        0
    } else {
        (id + 1) as u64
    }
}

/// A line that was read from the agent.
pub enum LineEvent {
    /// The session was cancelled instead.
    Cancelled,
    /// Reading failed, for that reason.
    Failed(String),
    /// The agent has closed its end.
    End,
    Line(String),
}

/// What a line comes to.
#[derive(Debug)]
pub enum Incoming {
    /// Nothing: read the next one.
    Skip,
    Message(Json),
    /// The session is over, after the update.
    Broken { update: Option<AgentUpdate>, error: AgentError },
}

/// The update on a line that is no JSON.
pub open spec fn malformed_emit(line: Seq<char>, reason: Seq<char>) -> EmitV {
    plain_emit(
        "malformed"@,
        no_members().with("line"@, JsonV::Str(line)).with("error"@, JsonV::Str(reason)),
    )
}

impl SessionV {
    /// What a line comes to, when parsing it gave that.
    pub open spec fn takes(
        self,
        r: Incoming,
        line: Seq<char>,
        parsed: Result<JsonV, Seq<char>>,
    ) -> bool {
        match parsed {
            Ok(message) => r matches Incoming::Message(m) && m@ == message,
            Err(reason) => match r {
                Incoming::Broken { update: Some(update), error } => {
                    &&& self.emits(update, malformed_emit(line, reason))
                    &&& error@ == AgentFault::Malformed(reason)
                },
                _ => false,
            },
        }
    }
}

impl SessionV {
    /// That is what a line that was read from the agent comes to.
    pub open spec fn reads(self, event: LineEvent, r: Incoming) -> bool {
        match event {
            LineEvent::Cancelled => r matches Incoming::Broken { update: None, error } && error@
                == AgentFault::Cancelled,
            LineEvent::Failed(reason) => r matches Incoming::Broken { update: None, error }
                && error@ == AgentFault::Io(reason@),
            LineEvent::End => r matches Incoming::Broken { update: None, error } && error@
                == AgentFault::PortExit,
            LineEvent::Line(line) => if blank(line@) {
                r is Skip
            } else {
                self.takes(r, line@, json_parsed(line@))
            },
        }
    }

    /// What a launch comes to: what the session is then, and whether it can go on.
    pub open spec fn takes_off(
        self,
        launch: Launch,
        after: SessionV,
        r: Result<(), AgentError>,
    ) -> bool {
        match launch {
            Launch::Failed(reason) => {
                &&& r matches Err(e) && e@ == AgentFault::CodexNotFound(reason@)
                &&& after == self
            },
            Launch::Started { pid, stdin, stdout } => {
                &&& after == (SessionV {
                    pid: match pid {
                        Some(n) => Some(int_decimal(n as int)),
                        None => None,
                    },
                    ..self
                })
                &&& if !stdin {
                    r matches Err(e) && e@ == AgentFault::StartupFailed("missing stdin"@)
                } else if !stdout {
                    r matches Err(e) && e@ == AgentFault::StartupFailed("missing stdout"@)
                } else {
                    r is Ok
                }
            },
        }
    }

    /// What the answer to the request for a thread comes to: what the session is
    /// then, and the update on it.
    pub open spec fn has_thread(
        self,
        response: JsonV,
        after: SessionV,
        r: Result<AgentUpdate, AgentError>,
    ) -> bool {
        match response.str_under("thread"@, "id"@) {
            Some(id) => {
                &&& after == (SessionV { thread_id: id, ..self })
                &&& r matches Ok(update) && self.emits(
                    update,
                    (EmitV {
                        event: "session_started"@,
                        thread_id: Some(id),
                        turn_id: None,
                        usage: None,
                        rate_limits: None,
                        message: None,
                    }),
                )
            },
            None => {
                &&& after == self
                &&& r matches Err(e) && e@ == AgentFault::Malformed(
                    "thread/start response missing thread.id"@,
                )
            },
        }
    }

    /// What the answer to the request for a turn comes to: the id of the turn, and
    /// the update on it.
    pub open spec fn has_turn(
        self,
        response: JsonV,
        r: Result<(String, AgentUpdate), AgentError>,
    ) -> bool {
        match response.str_under("turn"@, "id"@) {
            Some(id) => match r {
                Ok((turn_id, update)) => {
                    &&& turn_id@ == id
                    &&& self.emits(
                        update,
                        (EmitV {
                            event: "turn_started"@,
                            thread_id: Some(self.thread_id),
                            turn_id: Some(id),
                            usage: None,
                            rate_limits: None,
                            message: Some(response),
                        }),
                    )
                },
                Err(_) => false,
            },
            None => r matches Err(e) && e@ == AgentFault::Malformed(
                "turn/start response missing turn.id"@,
            ),
        }
    }
}

impl CodexSession {
    /// A session for an issue in its workspace. The workspace is the directory
    /// that the agent works in.
    pub fn start(
        issue_id: String,
        issue_identifier: String,
        config: ServiceConfig,
        workspace_path: PathBuf,
    ) -> (r: Result<CodexSession, AgentError>)
        ensures
            match r {
                Ok(session) => session@ == (SessionV {
                    issue_id: issue_id@,
                    issue_identifier: issue_identifier@,
                    config,
                    workspace_path,
                    pid: None,
                    next_id: 1,
                    thread_id: Seq::empty(),
                }),
                Err(_) => false,
            },
    {
        match validate_agent_cwd(as_path(&workspace_path), as_path(&workspace_path)) {
            Ok(_) => {},
            Err(e) => return Err(AgentError::of_workspace(&e)),
        }
        let thread_id = String::new();
        assert(thread_id@ =~= Seq::<char>::empty());
        Ok(
            CodexSession {
                issue_id,
                issue_identifier,
                config,
                workspace_path,
                pid: None,
                next_id: 1,
                thread_id,
            },
        )
    }

    /// The command that starts the agent, and the directory to start it in.
    pub fn launch(&self) -> (r: (&str, &Path))
        ensures
            r.0@ == self@.config.codex.command@,
            r.1 == path_of(&self@.workspace_path),
    {
        (self.config.codex.command.as_str(), as_path(&self.workspace_path))
    }

    /// Takes in how the launch went.
    pub fn launched(&mut self, launch: Launch) -> (r: Result<(), AgentError>)
        ensures
            old(self)@.takes_off(launch, final(self)@, r),
    {
        match launch {
            Launch::Failed(reason) => Err(AgentError::CodexNotFound(reason)),
            Launch::Started { pid, stdin, stdout } => {
                self.pid = match pid {
                    Some(n) => Some(int_text(n as i64)),
                    None => None,
                };
                if !stdin {
                    Err(AgentError::StartupFailed("missing stdin".to_owned()))
                } else if !stdout {
                    Err(AgentError::StartupFailed("missing stdout".to_owned()))
                } else {
                    Ok(())
                }
            },
        }
    }

    /// Numbers a request.
    pub fn request(&mut self, method: &str, params: Json) -> (r: ClientRequest)
        ensures
            r.id == old(self)@.next_id,
            r.message@ == request_message(old(self)@.next_id, method@, params@),
            params@.wf() ==> r.message@.wf(),
            final(self)@ == (SessionV { next_id: following(old(self)@.next_id), ..old(self)@ }),
    {
        let id: u64 = self.next_id;
        self.next_id = if id == u64::MAX {
            0
        } else {
            id + 1
        };
        ClientRequest {
            id,
            message: Json::object().with("id", Json::PosInt(id)).with(
                "method",
                Json::text(method),
            ).with("params", params),
        }
    }

    /// The first request: it tells the agent who is speaking.
    pub fn initialize(&mut self, version: &str) -> (r: ClientRequest)
        ensures
            r.id == old(self)@.next_id,
            r.message@ == request_message(
                old(self)@.next_id,
                "initialize"@,
                initialize_params(version@),
            ),
            r.message@.wf(),
            final(self)@ == (SessionV { next_id: following(old(self)@.next_id), ..old(self)@ }),
    {
        let info = Json::object().with("name", Json::text("symphony-rust")).with(
            "title",
            Json::text("Symphony"),
        ).with("version", Json::text(version));
        let capabilities = Json::object().with("experimentalApi", Json::Bool(true));
        self.request(
            "initialize",
            Json::object().with("clientInfo", info).with("capabilities", capabilities),
        )
    }

    /// The request for a thread.
    pub fn start_thread(&mut self) -> (r: ClientRequest)
        ensures
            r.id == old(self)@.next_id,
            r.message@ == request_message(
                old(self)@.next_id,
                "thread/start"@,
                thread_params(old(self)@),
            ),
            old(self)@.config.wf() ==> r.message@.wf(),
            final(self)@ == (SessionV { next_id: following(old(self)@.next_id), ..old(self)@ }),
    {
        let params = Json::object().with(
            "cwd",
            Json::text(path_text(as_path(&self.workspace_path)).as_str()),
        ).with("ephemeral", Json::Bool(true)).with("serviceName", Json::text("symphony")).with(
            "sessionStartSource",
            Json::text("startup"),
        );
        let params = add_some(params, "approvalPolicy", &self.config.codex.approval_policy);
        let params = add_some(params, "sandbox", &self.config.codex.thread_sandbox);
        self.request("thread/start", params)
    }

    /// Takes in the answer to the request for a thread, and says so.
    pub fn thread_started(&mut self, response: &Json) -> (r: Result<AgentUpdate, AgentError>)
        ensures
            old(self)@.has_thread(response@, final(self)@, r),
    {
        match response.text_under("thread", "id") {
            Some(id) => {
                self.thread_id = id.clone();
                Ok(self.emit("session_started", Some(id), None, None, None, None))
            },
            None => Err(
                AgentError::Malformed("thread/start response missing thread.id".to_owned()),
            ),
        }
    }

    /// The parameters of the request for a turn with that input.
    pub fn turn_start_params(&self, input: &str) -> (r: Json)
        ensures
            r@ == turn_params(self@, input@),
            self@.config.wf() ==> r@.wf(),
    {
        let item = Json::object().with("type", Json::text("text")).with("text", Json::text(input));
        let ghost one = item@;
        let items = Json::Array(vec![item]);
        assert(items@->Array_0 =~= seq![one]);
        assert(items@.wf());
        let params = Json::object().with("threadId", Json::text(self.thread_id.as_str())).with(
            "cwd",
            Json::text(path_text(as_path(&self.workspace_path)).as_str()),
        ).with("input", items);
        let params = add_some(params, "approvalPolicy", &self.config.codex.approval_policy);
        add_some(params, "sandboxPolicy", &self.config.codex.turn_sandbox_policy)
    }

    /// The request for a turn with that input.
    pub fn run_turn(&mut self, input: &str) -> (r: ClientRequest)
        ensures
            r.id == old(self)@.next_id,
            r.message@ == request_message(
                old(self)@.next_id,
                "turn/start"@,
                turn_params(old(self)@, input@),
            ),
            old(self)@.config.wf() ==> r.message@.wf(),
            final(self)@ == (SessionV { next_id: following(old(self)@.next_id), ..old(self)@ }),
    {
        let params = self.turn_start_params(input);
        self.request("turn/start", params)
    }

    /// Takes in the answer to the request for a turn: the id of the turn, and
    /// the update on it.
    pub fn turn_started(&self, response: &Json) -> (r: Result<(String, AgentUpdate), AgentError>)
        ensures
            self@.has_turn(response@, r),
    {
        match response.text_under("turn", "id") {
            Some(id) => {
                let update = self.emit(
                    "turn_started",
                    Some(self.thread_id.clone()),
                    Some(id.clone()),
                    None,
                    None,
                    Some(response.clone()),
                );
                Ok((id, update))
            },
            None => Err(AgentError::Malformed("turn/start response missing turn.id".to_owned())),
        }
    }

    /// What a line comes to, when parsing it gave that.
    pub fn received(&self, line: &str, parsed: Result<Json, String>) -> (r: Incoming)
        ensures
            self@.takes(
                r,
                line@,
                match parsed {
                    Ok(message) => Ok(message@),
                    Err(reason) => Err(reason@),
                },
            ),
            parsed matches Ok(message) ==> r == Incoming::Message(message),
    {
        match parsed {
            Ok(message) => Incoming::Message(message),
            Err(reason) => {
                let message = Json::object().with("line", Json::text(line)).with(
                    "error",
                    Json::text(reason.as_str()),
                );
                Incoming::Broken {
                    update: Some(self.emit_plain("malformed", message)),
                    error: AgentError::Malformed(reason),
                }
            },
        }
    }

    /// What a line that was read from the agent comes to: a blank one is
    /// skipped, any other must be JSON.
    pub fn read_message(&self, event: LineEvent) -> (r: Incoming)
        ensures
            self@.reads(event, r),
            r matches Incoming::Message(message) ==> message@.wf(),
    {
        match event {
            LineEvent::Cancelled => Incoming::Broken { update: None, error: AgentError::Cancelled },
            LineEvent::Failed(reason) => Incoming::Broken {
                update: None,
                error: AgentError::Io(reason),
            },
            LineEvent::End => Incoming::Broken { update: None, error: AgentError::PortExit },
            LineEvent::Line(line) => if is_blank(line.as_str()) {
                Incoming::Skip
            } else {
                self.received(line.as_str(), Json::parse(line.as_str()))
            },
        }
    }

    /// The request to the tracker that a session asks for.
    pub fn ask_tracker(&self, query: &str, variables: Option<Json>) -> (r: Result<
        GraphqlRequest,
        TrackerError,
    >)
        ensures
            asks(self@.config, query@, opt_json(variables), r),
    {
        linear_graphql_tool(&self.config, query, variables)
    }

    /// The settings of the session.
    pub fn config(&self) -> (r: &ServiceConfig)
        ensures
            *r == self@.config,
    {
        &self.config
    }
}

/// A message as a line for the agent: one line of JSON with a line feed.
pub fn write_json(message: &Json) -> (r: Result<Vec<u8>, AgentError>)
    requires
        message@.wf(),
    ensures
        match json_bytes(message@) {
            Ok(bytes) => r matches Ok(line) && line@ == bytes.push(10),
            Err(reason) => r matches Err(e) && e@ == AgentFault::Io(reason),
        },
{
    frame(message.to_bytes())
}

/// A line of bytes for the agent, made of the bytes of a message.
pub fn frame(bytes: Result<Vec<u8>, String>) -> (r: Result<Vec<u8>, AgentError>)
    ensures
        match bytes {
            Ok(b) => r matches Ok(line) && line@ == b@.push(10),
            Err(reason) => r matches Err(e) && e@ == AgentFault::Io(reason@),
        },
{
    match bytes {
        Ok(b) => {
            let mut line = b;
            line.push(10);
            Ok(line)
        },
        Err(reason) => Err(AgentError::Io(reason)),
    }
}

/// That is the result that answers the request with that number.
pub open spec fn answers(outcome: HandleOutcome, id: u64, answer: Option<Json>) -> bool {
    match outcome {
        HandleOutcome::Response { id: number, result } => if number == id {
            answer == Some(result)
        } else {
            answer is None
        },
        _ => answer is None,
    }
}

/// The result that answers the request with that number, if the outcome is it.
pub fn response_for(outcome: HandleOutcome, id: u64) -> (r: Option<Json>)
    ensures
        answers(outcome, id, r),
{
    match outcome {
        HandleOutcome::Response { id: number, result } => if number == id {
            Some(result)
        } else {
            None
        },
        _ => None,
    }
}

/// That is how the turn with that id ended: the status, and the error.
pub open spec fn completes(
    outcome: HandleOutcome,
    turn: Seq<char>,
    end: Option<(String, Option<String>)>,
) -> bool {
    match outcome {
        HandleOutcome::TurnCompleted { turn_id, status, error } => if opt_text(turn_id) == Some(
            turn,
        ) {
            end == Some((status, error))
        } else {
            end is None
        },
        _ => end is None,
    }
}

/// How the turn ended, if the outcome is its end: the status, and the error.
pub fn completion_of(outcome: HandleOutcome, turn: &str) -> (r: Option<(String, Option<String>)>)
    ensures
        completes(outcome, turn@, r),
{
    match outcome {
        HandleOutcome::TurnCompleted { turn_id, status, error } => match turn_id {
            Some(id) => if same_text(id.as_str(), turn) {
                Some((status, error))
            } else {
                None
            },
            None => None,
        },
        _ => None,
    }
}

/// That is the result of a turn that ended with that status and that error.
pub open spec fn ends_as(
    turn_id: String,
    status: Seq<char>,
    error: Option<Seq<char>>,
    result: Result<String, AgentError>,
) -> bool {
    if status == "completed"@ {
        result == Ok::<String, AgentError>(turn_id)
    } else if status == "interrupted"@ {
        result matches Err(e) && e@ == AgentFault::TurnCancelled(
            or_text(error, "turn interrupted"@),
        )
    } else {
        result matches Err(e) && e@ == AgentFault::TurnFailed(
            or_text(error, "turn status "@ + status),
        )
    }
}

/// The result of a turn that ended with that status.
pub fn turn_result(turn_id: String, status: &str, error: Option<String>) -> (r: Result<
    String,
    AgentError,
>)
    ensures
        ends_as(turn_id, status@, opt_text(error), r),
{
    if same_text(status, "completed") {
        Ok(turn_id)
    } else if same_text(status, "interrupted") {
        Err(AgentError::TurnCancelled(text_or(error, "turn interrupted")))
    } else {
        Err(AgentError::TurnFailed(text_or(error, labelled("turn status ", status).as_str())))
    }
}

/// A request of the agent: it has an id and a method, and is no answer.
pub open spec fn is_request(message: JsonV) -> bool {
    &&& message.get("id"@) is Some
    &&& message.get("method"@) is Some
    &&& answered(message) is Some ==> message.get("error"@) is None && message.get(
        "result"@,
    ) is None
}

/// Requests for leave to run a command or to change a file are granted for the
/// session, and the session goes on.
pub proof fn approvals_are_granted(thread: Seq<char>, message: JsonV)
    requires
        is_request(message),
        asks_approval(or_empty(message.str_at("method"@))),
    ensures
        ({
            let r = reaction_to(thread, message);
            &&& r.reply == Some(
                result_reply(
                    message.get("id"@)->0,
                    no_members().with("decision"@, JsonV::Str("acceptForSession"@)),
                ),
            )
            &&& r.next is Proceed
        }),
{
}

/// Requests for input of a user are refused, and end the session.
pub proof fn input_ends_the_session(thread: Seq<char>, message: JsonV)
    requires
        is_request(message),
        asks_input(or_empty(message.str_at("method"@))),
    ensures
        ({
            let r = reaction_to(thread, message);
            &&& r.next == NextV::Fail(AgentFault::TurnInputRequired)
            &&& r.reply is Some
            &&& r.reply->0.get("error"@) is Some
            &&& r.reply->0.get("id"@) == message.get("id"@)
        }),
{
    reveal_strlit("item/commandExecution/requestApproval");
    reveal_strlit("item/fileChange/requestApproval");
    reveal_strlit("item/tool/requestUserInput");
    reveal_strlit("mcpServer/elicitation/request");
    let method = or_empty(message.str_at("method"@));
    assert(!asks_approval(method)) by {
        assert("item/commandExecution/requestApproval"@.len() == 37);
        assert("item/fileChange/requestApproval"@.len() == 31);
        assert("item/tool/requestUserInput"@.len() == 26);
        assert("mcpServer/elicitation/request"@.len() == 29);
    }
    let id = message.get("id"@)->0;
    let error = no_members().with("code"@, int_json((-32000) as i64)).with(
        "message"@,
        JsonV::Str("Symphony does not provide interactive user input"@),
    );
    reply_members(id, "error"@, error);
}

proof fn reply_members(id: JsonV, key: Seq<char>, value: JsonV)
    requires
        key == "error"@ || key == "result"@,
    ensures
        no_members().with("id"@, id).with(key, value).get("id"@) == Some(id),
        no_members().with("id"@, id).with(key, value).get(key) == Some(value),
{
    reveal_strlit("id");
    reveal_strlit("error");
    reveal_strlit("result");
    assert("id"@.len() == 2 && "error"@.len() == 5 && "result"@.len() == 6);
    let none = Seq::<(Seq<char>, JsonV)>::empty();
    with_then_get(none, "id"@, id, key);
    let one = no_members().with("id"@, id)->Object_0;
    with_then_get(one, key, value, "id"@);
}

/// Every request that the session cannot serve is answered all the same, with
/// its own id, and the session goes on; only a request for input ends it.
pub proof fn requests_are_answered(thread: Seq<char>, message: JsonV)
    requires
        is_request(message),
    ensures
        ({
            let r = reaction_to(thread, message);
            &&& r.reply matches Some(reply) ==> reply.get("id"@) == message.get("id"@)
            &&& r.reply is None ==> r.next is AskTracker && r.next->call == message.get("id"@)->0
            &&& r.next is Fail ==> asks_input(or_empty(message.str_at("method"@)))
        }),
{
    let id = message.get("id"@)->0;
    let method = or_empty(message.str_at("method"@));
    let params = params_of(message);
    let tool = or_empty(params.str_at("tool"@));
    let arguments = match params.get("arguments"@) {
        Some(v) => v,
        None => no_members(),
    };
    let granted = no_members().with("decision"@, JsonV::Str("acceptForSession"@));
    reply_members(id, "result"@, granted);
    reply_members(id, "result"@, failed_tool("unsupported tool: "@ + tool));
    if let Err(reason) = query_arguments(arguments) {
        reply_members(id, "result"@, failed_tool(reason));
    }
    let refused = no_members().with("code"@, int_json((-32000) as i64)).with(
        "message"@,
        JsonV::Str("Symphony does not provide interactive user input"@),
    );
    reply_members(id, "error"@, refused);
    let unsupported = no_members().with("code"@, int_json((-32601) as i64)).with(
        "message"@,
        JsonV::Str("Unsupported Symphony client request: "@ + method),
    );
    reply_members(id, "error"@, unsupported);
}

/// What the tracker says goes to the call that asked, whether it is an answer or
/// an error.
pub proof fn tool_reply_has_the_id(id: JsonV, result: JsonV)
    ensures
        result_reply(id, result).get("id"@) == Some(id),
        result_reply(id, result).get("result"@) == Some(result),
{
    reply_members(id, "result"@, result);
}

}
