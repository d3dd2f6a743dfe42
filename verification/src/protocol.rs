//! What holds of the talk with the agent: what is asked of it, what its messages are
//! taken for, and how they are answered.

use vstd::prelude::*;

use crate::agent::{
    answers, children, completes, ends_as, event_of, following, initialize_params, input_keys,
    limits_below, limits_in, malformed_emit, number_at, number_below, number_in, output_keys,
    payload_text, query_arguments, reaction_to, request_message, thread_of, thread_params,
    tool_result, total_keys, tracker_reply, turn_of, turn_params, usage_of, AgentError, AgentFault,
    AgentUpdate, HandleOutcome, Incoming, Launch, LineEvent, NextV, Reaction, SessionV,
};
use crate::json::{given_member, json_parsed, no_members, opt_json, opt_text, Json, JsonV};
use crate::normalization::{text_in, text_inside};
use crate::paths::{path_of, path_words};
use crate::text::{blank_is_white_space, int_decimal, white_space};
use crate::tracker::TrackerFault;

verus! {

broadcast use vstd::string::group_string_axioms;

/// The thread of a notification is the one under `threadId`; without such a member it
/// is the id of what is under `thread`. The turn is found in the same way.
pub proof fn notices_name_thread_and_turn(params: JsonV)
    ensures
        thread_of(params) == (if params.get("threadId"@) is Some {
            text_in(params, "threadId"@)
        } else {
            text_inside(params, "thread"@, "id"@)
        }),
        turn_of(params) == (if params.get("turnId"@) is Some {
            text_in(params, "turnId"@)
        } else {
            text_inside(params, "turn"@, "id"@)
        }),
{
}

proof fn notice_methods()
    ensures
        "thread/started"@.len() == 14 && "thread/started"@[1] == 'h',
        "turn/started"@.len() == 12,
        "thread/tokenUsage/updated"@.len() == 25,
        "turn/completed"@.len() == 14 && "turn/completed"@[1] == 'u',
        "error"@.len() == 5,
        "completed"@.len() == 9,
        "interrupted"@.len() == 11,
        "failed"@.len() == 6,
{
    reveal_strlit("thread/started");
    reveal_strlit("turn/started");
    reveal_strlit("thread/tokenUsage/updated");
    reveal_strlit("turn/completed");
    reveal_strlit("error");
    reveal_strlit("completed");
    reveal_strlit("interrupted");
    reveal_strlit("failed");
}

/// What a notification is called: by its method, and by the status of the turn where
/// it ends one.
pub proof fn notices_are_called_by_their_method(method: Seq<char>, params: JsonV)
    ensures
        method == "thread/started"@ ==> event_of(method, params) == "session_started"@,
        method == "turn/started"@ ==> event_of(method, params) == "turn_started"@,
        method == "thread/tokenUsage/updated"@ ==> event_of(method, params)
            == "token_usage_updated"@,
        method == "turn/completed"@ && text_inside(params, "turn"@, "status"@) == Some(
            "completed"@,
        ) ==> event_of(method, params) == "turn_completed"@,
        method == "turn/completed"@ && text_inside(params, "turn"@, "status"@) == Some(
            "interrupted"@,
        ) ==> event_of(method, params) == "turn_cancelled"@,
        method == "turn/completed"@ && text_inside(params, "turn"@, "status"@) == Some("failed"@)
            ==> event_of(method, params) == "turn_failed"@,
        method == "turn/completed"@ && text_inside(params, "turn"@, "status"@) != Some(
            "completed"@,
        ) && text_inside(params, "turn"@, "status"@) != Some("interrupted"@) && text_inside(
            params,
            "turn"@,
            "status"@,
        ) != Some("failed"@) ==> event_of(method, params) == "turn_ended_with_error"@,
        method == "error"@ ==> event_of(method, params) == "turn_ended_with_error"@,
        method != "thread/started"@ && method != "turn/started"@ && method
            != "thread/tokenUsage/updated"@ && method != "turn/completed"@ && method != "error"@
            ==> event_of(method, params) == "notification"@,
{
    notice_methods();
}

/// The number that a value is, with one that is too large for the sign taken over bit
/// by bit.
pub open spec fn whole_number(value: Option<JsonV>) -> Option<i64> {
    match value {
        Some(JsonV::PosInt(n)) => Some(n as i64),
        Some(JsonV::NegInt(n)) => Some(n),
        _ => None,
    }
}

/// The value itself, or something inside it at any depth.
pub open spec fn inside(value: JsonV, part: JsonV) -> bool
    decreases value,
{
    value == part || match value {
        JsonV::Object(o) => exists|i: int|
            0 <= i < o.len() && inside((#[trigger] o[i]).1, part),
        JsonV::Array(a) => exists|i: int| 0 <= i < a.len() && inside(#[trigger] a[i], part),
        _ => false,
    }
}

proof fn child_with(value: JsonV, part: JsonV) -> (c: int)
    requires
        inside(value, part),
        value != part,
    ensures
        match value {
            JsonV::Object(o) => 0 <= c < o.len() && inside(o[c].1, part),
            JsonV::Array(a) => 0 <= c < a.len() && inside(a[c], part),
            _ => false,
        },
{
    match value {
        JsonV::Object(o) => choose|i: int| 0 <= i < o.len() && inside((#[trigger] o[i]).1, part),
        JsonV::Array(a) => choose|i: int| 0 <= i < a.len() && inside(#[trigger] a[i], part),
        _ => 0,
    }
}

proof fn number_at_is_under_a_key(value: JsonV, keys: Seq<Seq<char>>) -> (k: int)
    ensures
        match number_at(value, keys) {
            Some(n) => {
                &&& 0 <= k < keys.len()
                &&& whole_number(value.get(keys[k])) == Some(n)
                &&& forall|j: int|
                    0 <= j < k ==> whole_number(value.get(#[trigger] keys[j])) is None
            },
            None => forall|j: int|
                0 <= j < keys.len() ==> whole_number(value.get(#[trigger] keys[j])) is None,
        },
    decreases keys.len(),
{
    if keys.len() == 0 {
        0
    } else if whole_number(value.get(keys[0])) is Some {
        0
    } else {
        let rest = keys.drop_first();
        let k = number_at_is_under_a_key(value, rest);
        assert forall|j: int| 1 <= j < keys.len() implies #[trigger] keys[j] == rest[j - 1] by {}
        k + 1
    }
}

/// The number that is found for some keys is under the first of them that has one in
/// the value itself. Where none has, it is under one of the keys in something inside;
/// and where none is found, nothing inside has any.
pub proof fn numbers_are_found_under_their_keys(value: JsonV, keys: Seq<Seq<char>>) -> (found: (
    JsonV,
    int,
))
    ensures
        forall|k: int|
            0 <= k < keys.len() && whole_number(value.get(#[trigger] keys[k])) is Some && (forall|
                j: int,
            |
                0 <= j < k ==> whole_number(value.get(#[trigger] keys[j])) is None) ==> number_in(
                value,
                keys,
            ) == whole_number(value.get(keys[k])),
        number_in(value, keys) matches Some(n) ==> {
            &&& inside(value, found.0)
            &&& 0 <= found.1 < keys.len()
            &&& whole_number(found.0.get(keys[found.1])) == Some(n)
        },
        number_in(value, keys) is None ==> forall|part: JsonV, j: int|
            #![trigger inside(value, part), keys[j]]
            inside(value, part) && 0 <= j < keys.len() ==> whole_number(part.get(keys[j])) is None,
    decreases value, children(value) + 1,
{
    let k = number_at_is_under_a_key(value, keys);
    if number_at(value, keys) is Some {
        (value, k)
    } else {
        let found = numbers_are_found_below(value, 0, keys);
        if number_in(value, keys) is None {
            assert forall|part: JsonV, j: int|
                #![trigger inside(value, part), keys[j]]
                inside(value, part) && 0 <= j < keys.len() implies whole_number(
                part.get(keys[j]),
            ) is None by {
                if value != part {
                    let c = child_with(value, part);
                }
            }
        }
        found
    }
}

proof fn numbers_are_found_below(value: JsonV, i: nat, keys: Seq<Seq<char>>) -> (found: (
    JsonV,
    int,
))
    ensures
        number_below(value, i, keys) matches Some(n) ==> {
            &&& inside(value, found.0)
            &&& 0 <= found.1 < keys.len()
            &&& whole_number(found.0.get(keys[found.1])) == Some(n)
        },
        number_below(value, i, keys) is None ==> match value {
            JsonV::Object(o) => forall|c: int, part: JsonV, j: int|
                #![trigger inside(o[c].1, part), keys[j]]
                i <= c < o.len() && inside(o[c].1, part) && 0 <= j < keys.len() ==> whole_number(
                    part.get(keys[j]),
                ) is None,
            JsonV::Array(a) => forall|c: int, part: JsonV, j: int|
                #![trigger inside(a[c], part), keys[j]]
                i <= c < a.len() && inside(a[c], part) && 0 <= j < keys.len() ==> whole_number(
                    part.get(keys[j]),
                ) is None,
            _ => true,
        },
    decreases value, children(value) - i,
{
    if i >= children(value) {
        (value, 0)
    } else {
        match value {
            JsonV::Object(o) => {
                let found = numbers_are_found_under_their_keys(o[i as int].1, keys);
                let later = numbers_are_found_below(value, i + 1, keys);
                if number_in(o[i as int].1, keys) is Some {
                    found
                } else {
                    later
                }
            },
            JsonV::Array(a) => {
                let found = numbers_are_found_under_their_keys(a[i as int], keys);
                let later = numbers_are_found_below(value, i + 1, keys);
                if number_in(a[i as int], keys) is Some {
                    found
                } else {
                    later
                }
            },
            _ => (value, 0),
        }
    }
}

/// The tokens that went in are counted under one of four names, those that came out
/// under one of four others, and all of them under one of two; each name counts where
/// those before it do not.
pub proof fn tokens_are_counted_under_their_names(value: JsonV)
    ensures
        ({
            let a = whole_number(value.get("input_tokens"@));
            let b = whole_number(value.get("inputTokens"@));
            let c = whole_number(value.get("prompt_tokens"@));
            let d = whole_number(value.get("promptTokens"@));
            &&& a is Some ==> number_in(value, input_keys()) == a
            &&& a is None && b is Some ==> number_in(value, input_keys()) == b
            &&& a is None && b is None && c is Some ==> number_in(value, input_keys()) == c
            &&& a is None && b is None && c is None && d is Some ==> number_in(
                value,
                input_keys(),
            ) == d
        }),
        ({
            let a = whole_number(value.get("output_tokens"@));
            let b = whole_number(value.get("outputTokens"@));
            let c = whole_number(value.get("completion_tokens"@));
            let d = whole_number(value.get("completionTokens"@));
            &&& a is Some ==> number_in(value, output_keys()) == a
            &&& a is None && b is Some ==> number_in(value, output_keys()) == b
            &&& a is None && b is None && c is Some ==> number_in(value, output_keys()) == c
            &&& a is None && b is None && c is None && d is Some ==> number_in(
                value,
                output_keys(),
            ) == d
        }),
        ({
            let a = whole_number(value.get("total_tokens"@));
            let b = whole_number(value.get("totalTokens"@));
            &&& a is Some ==> number_in(value, total_keys()) == a
            &&& a is None && b is Some ==> number_in(value, total_keys()) == b
        }),
{
    number_at_is_under_a_key(value, input_keys());
    number_at_is_under_a_key(value, output_keys());
    number_at_is_under_a_key(value, total_keys());
    assert(input_keys()[0] == "input_tokens"@ && input_keys()[1] == "inputTokens"@);
    assert(input_keys()[2] == "prompt_tokens"@ && input_keys()[3] == "promptTokens"@);
    assert(output_keys()[0] == "output_tokens"@ && output_keys()[1] == "outputTokens"@);
    assert(output_keys()[2] == "completion_tokens"@ && output_keys()[3] == "completionTokens"@);
    assert(total_keys()[0] == "total_tokens"@ && total_keys()[1] == "totalTokens"@);
    assert(input_keys().len() == 4 && output_keys().len() == 4 && total_keys().len() == 2);
}

/// A notification on the use of tokens counts them itself; any other only where it
/// holds a member with the total use. The tokens are counted where those that went in
/// and those that came out are, and in all they are what is said, or else the sum,
/// which must fit into 64 bits.
pub proof fn usage_is_what_was_counted(method: Seq<char>, params: JsonV)
    ensures
        ({
            let counted = if method == "thread/tokenUsage/updated"@ {
                Some(params)
            } else if params.get("total_token_usage"@) is Some {
                params.get("total_token_usage"@)
            } else {
                params.get("totalTokenUsage"@)
            };
            &&& counted is None ==> usage_of(method, params) is None
            &&& counted matches Some(value) ==> {
                let went_in = number_in(value, input_keys());
                let came_out = number_in(value, output_keys());
                &&& usage_of(method, params) is Some <==> went_in is Some && came_out is Some
                &&& usage_of(method, params) matches Some(usage) ==> {
                    &&& went_in == Some(usage.input_tokens)
                    &&& came_out == Some(usage.output_tokens)
                    &&& usage.absolute
                    &&& number_in(value, total_keys()) matches Some(total) ==> usage.total_tokens
                        == total
                    &&& number_in(value, total_keys()) is None && i64::MIN <= usage.input_tokens
                        + usage.output_tokens <= i64::MAX ==> usage.total_tokens
                        == usage.input_tokens + usage.output_tokens
                }
            }
        }),
{
}

/// The limits that a value holds itself.
pub open spec fn own_limits(value: JsonV) -> Option<JsonV> {
    if value.get("rate_limits"@) is Some {
        value.get("rate_limits"@)
    } else {
        value.get("rateLimits"@)
    }
}

/// The limits in a notification are those that it holds itself, or else those of
/// something inside it; none are found just where nothing inside has any.
pub proof fn limits_are_found_under_their_name(value: JsonV) -> (holder: JsonV)
    ensures
        own_limits(value) is Some ==> limits_in(value) == own_limits(value),
        limits_in(value) is Some ==> inside(value, holder) && own_limits(holder) == limits_in(
            value,
        ),
        limits_in(value) is None ==> forall|part: JsonV| #[trigger]
            inside(value, part) ==> own_limits(part) is None,
    decreases value, children(value) + 1,
{
    if own_limits(value) is Some {
        value
    } else {
        let holder = limits_are_found_below(value, 0);
        if limits_in(value) is None {
            assert forall|part: JsonV| #[trigger] inside(value, part) implies own_limits(
                part,
            ) is None by {
                if value != part {
                    let c = child_with(value, part);
                }
            }
        }
        holder
    }
}

proof fn limits_are_found_below(value: JsonV, i: nat) -> (holder: JsonV)
    ensures
        limits_below(value, i) is Some ==> inside(value, holder) && own_limits(holder)
            == limits_below(value, i),
        limits_below(value, i) is None ==> match value {
            JsonV::Object(o) => forall|c: int, part: JsonV|
                i <= c < o.len() && #[trigger] inside(o[c].1, part) ==> own_limits(part) is None,
            JsonV::Array(a) => forall|c: int, part: JsonV|
                i <= c < a.len() && #[trigger] inside(a[c], part) ==> own_limits(part) is None,
            _ => true,
        },
    decreases value, children(value) - i,
{
    if i >= children(value) {
        value
    } else {
        match value {
            JsonV::Object(o) => {
                let holder = limits_are_found_under_their_name(o[i as int].1);
                let later = limits_are_found_below(value, i + 1);
                if limits_in(o[i as int].1) is Some {
                    holder
                } else {
                    later
                }
            },
            JsonV::Array(a) => {
                let holder = limits_are_found_under_their_name(a[i as int]);
                let later = limits_are_found_below(value, i + 1);
                if limits_in(a[i as int]) is Some {
                    holder
                } else {
                    later
                }
            },
            _ => value,
        }
    }
}

/// A request of the agent: it has an id and a method, and is not the answer to a
/// request of ours.
pub open spec fn requests(message: JsonV, id: JsonV, method: Seq<char>) -> bool {
    &&& message.get("id"@) == Some(id)
    &&& text_in(message, "method"@) == Some(method)
    &&& id is PosInt ==> message.get("error"@) is None && message.get("result"@) is None
}

/// The parameters of a message, or none.
pub open spec fn given(message: JsonV) -> JsonV {
    if message.get("params"@) is Some {
        message.get("params"@)->0
    } else {
        JsonV::Object(Seq::empty())
    }
}

proof fn request_methods()
    ensures
        "item/commandExecution/requestApproval"@.len() == 37,
        "item/fileChange/requestApproval"@.len() == 31,
        "item/tool/requestUserInput"@.len() == 26,
        "mcpServer/elicitation/request"@.len() == 29,
        "item/tool/call"@.len() == 14,
        "id"@.len() == 2,
        "result"@.len() == 6,
        "error"@.len() == 5,
        "code"@.len() == 4,
        "message"@.len() == 7,
{
    reveal_strlit("item/commandExecution/requestApproval");
    reveal_strlit("item/fileChange/requestApproval");
    reveal_strlit("item/tool/requestUserInput");
    reveal_strlit("mcpServer/elicitation/request");
    reveal_strlit("item/tool/call");
    reveal_strlit("id");
    reveal_strlit("result");
    reveal_strlit("error");
    reveal_strlit("code");
    reveal_strlit("message");
}

/// Requests for leave to run a command or to change a file, and no others, are granted
/// for the session: the reply has the id of the request and says so.
pub proof fn leave_is_granted(thread: Seq<char>, message: JsonV, id: JsonV, method: Seq<char>)
    requires
        requests(message, id, method),
    ensures
        ({
            let r = reaction_to(thread, message);
            let asked = method == "item/commandExecution/requestApproval"@ || method
                == "item/fileChange/requestApproval"@;
            &&& asked ==> {
                &&& r.reply matches Some(reply)
                &&& reply.get("id"@) == Some(id)
                &&& text_inside(reply, "result"@, "decision"@) == Some("acceptForSession"@)
                &&& r.next is Proceed
                &&& r.emit matches Some(emit) && emit.event == "approval_auto_approved"@
                    && emit.message == Some(given(message))
            }
            &&& !asked ==> !(r.emit matches Some(emit) && emit.event == "approval_auto_approved"@)
        }),
{
    broadcast use given_member;

    request_methods();
    reveal_strlit("approval_auto_approved");
    reveal_strlit("turn_input_required");
    reveal_strlit("unsupported_tool_call");
    assert("approval_auto_approved"@.len() == 22);
    assert("turn_input_required"@.len() == 19 && "unsupported_tool_call"@.len() == 21);
}

/// Requests for the input of a user are refused with the id of the request, and they
/// and no other requests end the session.
pub proof fn input_is_refused(thread: Seq<char>, message: JsonV, id: JsonV, method: Seq<char>)
    requires
        requests(message, id, method),
    ensures
        ({
            let r = reaction_to(thread, message);
            let asked = method == "item/tool/requestUserInput"@ || method
                == "mcpServer/elicitation/request"@;
            &&& asked <==> r.next is Fail
            &&& asked ==> {
                &&& r.next == NextV::Fail(AgentFault::TurnInputRequired)
                &&& r.reply matches Some(reply)
                &&& reply.get("id"@) == Some(id)
                &&& reply.get("error"@) matches Some(error) && error.get("code"@) == Some(
                    JsonV::NegInt((-32000) as i64),
                ) && text_in(error, "message"@) == Some(
                    "Symphony does not provide interactive user input"@,
                )
                &&& r.emit matches Some(emit) && emit.event == "turn_input_required"@
                    && emit.message == Some(given(message))
            }
        }),
{
    broadcast use given_member;

    request_methods();
}

/// A request that is none of those that are known is answered with an error that names
/// it, and with its id; the session goes on.
pub proof fn unknown_requests_are_refused(
    thread: Seq<char>,
    message: JsonV,
    id: JsonV,
    method: Seq<char>,
)
    requires
        requests(message, id, method),
        method != "item/commandExecution/requestApproval"@,
        method != "item/fileChange/requestApproval"@,
        method != "item/tool/requestUserInput"@,
        method != "mcpServer/elicitation/request"@,
        method != "item/tool/call"@,
    ensures
        ({
            let r = reaction_to(thread, message);
            &&& r.next is Proceed
            &&& r.reply matches Some(reply)
            &&& reply.get("id"@) == Some(id)
            &&& reply.get("error"@) matches Some(error) && error.get("code"@) == Some(
                JsonV::NegInt((-32601) as i64),
            ) && text_in(error, "message"@) == Some(
                "Unsupported Symphony client request: "@ + method,
            )
            &&& r.emit matches Some(emit) && emit.event == "unsupported_tool_call"@
                && emit.message == Some(message)
        }),
{
    broadcast use given_member;

    request_methods();
}

/// The result of a tool says whether it succeeded and holds one text.
pub proof fn tool_results_hold_a_text(success: bool, text: Seq<char>)
    ensures
        ({
            let result = tool_result(success, text);
            &&& result.get("success"@) == Some(JsonV::Bool(success))
            &&& result.get("contentItems"@) matches Some(JsonV::Array(items)) && items.len() == 1
                && text_in(items[0], "type"@) == Some("inputText"@) && text_in(
                items[0],
                "text"@,
            ) == Some(text)
        }),
{
    broadcast use given_member;

    reveal_strlit("success");
    reveal_strlit("contentItems");
    reveal_strlit("type");
    reveal_strlit("text");
    assert("success"@.len() == 7 && "contentItems"@.len() == 12);
    assert("type"@[1] == 'y' && "text"@[1] == 'e');
}

/// A call of the tool that asks the tracker, with a query in it, is passed on to the
/// tracker under the id of the call; any other call is answered with a failed result.
pub proof fn tool_calls_go_to_the_tracker(
    thread: Seq<char>,
    message: JsonV,
    id: JsonV,
    arguments: JsonV,
)
    requires
        requests(message, id, "item/tool/call"@),
        given(message).get("arguments"@) == Some(arguments),
    ensures
        ({
            let r = reaction_to(thread, message);
            let passed_on = text_in(given(message), "tool"@) == Some("linear_graphql"@)
                && query_arguments(arguments) is Ok;
            &&& r.emit is None
            &&& passed_on ==> {
                &&& r.reply is None
                &&& r.next matches NextV::AskTracker { call, query, variables }
                &&& call == id
                &&& query_arguments(arguments)->Ok_0 == (query, variables)
            }
            &&& !passed_on ==> {
                &&& r.next is Proceed
                &&& r.reply matches Some(reply)
                &&& reply.get("id"@) == Some(id)
                &&& reply.get("result"@) matches Some(result) && result.get("success"@) == Some(
                    JsonV::Bool(false),
                )
            }
        }),
{
    broadcast use given_member;

    request_methods();
    reveal_strlit("success");
    reveal_strlit("contentItems");
    reveal_strlit("linear_graphql");
    assert("success"@.len() == 7 && "contentItems"@.len() == 12 && "linear_graphql"@.len() == 14);
}

/// A query for the tracker is a string, or an object with a query that is more than
/// white space, and with an object of variables where there are any.
pub proof fn queries_are_strings_or_objects(arguments: JsonV)
    ensures
        ({
            let written = text_in(arguments, "query"@) matches Some(query) && exists|i: int|
                0 <= i < query.len() && !white_space(#[trigger] query[i]);
            let variables = arguments.get("variables"@);
            &&& query_arguments(arguments) is Ok <==> arguments is Str || (written && (
            variables is None || variables->0 is Object))
            &&& arguments matches JsonV::Str(query) ==> query_arguments(arguments) == Ok::<
                (Seq<char>, Option<JsonV>),
                Seq<char>,
            >((query, None))
            &&& !(arguments is Str) ==> (query_arguments(arguments) matches Ok((query, with))
                ==> text_in(arguments, "query"@) == Some(query) && with == variables)
        }),
{
    if let Some(query) = text_in(arguments, "query"@) {
        blank_is_white_space(query);
    }
}

/// A notification is reported with what it says: the thread, or else that of the
/// session, the turn, the tokens, the limits, and all of it as the message. It is never
/// replied to.
pub proof fn notices_are_reported(thread: Seq<char>, message: JsonV, method: Seq<char>)
    requires
        message.get("id"@) is None,
        text_in(message, "method"@) == Some(method),
    ensures
        ({
            let r = reaction_to(thread, message);
            let params = given(message);
            &&& r.reply is None
            &&& r.emit matches Some(emit)
            &&& emit.event == event_of(method, params)
            &&& thread_of(params) is Some ==> emit.thread_id == thread_of(params)
            &&& thread_of(params) is None ==> emit.thread_id == (if thread.len() == 0 {
                None
            } else {
                Some(thread)
            })
            &&& emit.turn_id == turn_of(params)
            &&& emit.usage == usage_of(method, params)
            &&& emit.rate_limits == limits_in(params)
            &&& emit.message == Some(params)
        }),
{
}

/// The end of a turn comes with its id, its status, which counts as failed where it is
/// not said, and the message of its error; an error ends the session with its message;
/// after every other notification the session goes on.
pub proof fn turns_end_by_their_notice(thread: Seq<char>, message: JsonV, method: Seq<char>)
    requires
        message.get("id"@) is None,
        text_in(message, "method"@) == Some(method),
    ensures
        ({
            let r = reaction_to(thread, message);
            let params = given(message);
            &&& method == "turn/completed"@ <==> r.next is TurnCompleted
            &&& r.next matches NextV::TurnCompleted { turn_id, status, error } ==> {
                &&& turn_id == turn_of(params)
                &&& text_inside(params, "turn"@, "status"@) matches Some(said) ==> status == said
                &&& text_inside(params, "turn"@, "status"@) is None ==> status == "failed"@
                &&& params.get("turn"@) matches Some(turn) ==> error == text_inside(
                    turn,
                    "error"@,
                    "message"@,
                )
                &&& params.get("turn"@) is None ==> error is None
            }
            &&& method == "error"@ <==> r.next is Fail
            &&& method == "error"@ ==> r.next == NextV::Fail(
                AgentFault::TurnFailed(
                    if text_in(params, "message"@) is Some {
                        text_in(params, "message"@)->0
                    } else {
                        "codex error notification"@
                    },
                ),
            )
            &&& method != "turn/completed"@ && method != "error"@ ==> r.next is Proceed
        }),
{
    notice_methods();
}

/// The answer to a request comes with the number of the request and the result; an
/// answer with an error ends the session with its code and its message.
pub proof fn answers_are_taken(thread: Seq<char>, message: JsonV, id: u64)
    requires
        message.get("id"@) == Some(JsonV::PosInt(id)),
    ensures
        ({
            let r = reaction_to(thread, message);
            &&& message.get("error"@) is None && message.get("result"@) is Some ==> {
                &&& r.emit is None
                &&& r.reply is None
                &&& r.next == NextV::Response { id, result: message.get("result"@)->0 }
            }
            &&& message.get("error"@) matches Some(error) ==> {
                &&& r.reply is None
                &&& r.next matches NextV::Fail(
                    AgentFault::ResponseError { method, code, message: words },
                )
                &&& code == (match error.get("code"@) {
                    Some(JsonV::NegInt(n)) => Some(n),
                    Some(JsonV::PosInt(n)) => if n <= i64::MAX {
                        Some(n as i64)
                    } else {
                        None
                    },
                    _ => None,
                })
                &&& text_in(error, "message"@) matches Some(said) ==> words == said
            }
        }),
{
}

/// An update is that of the session: it carries the id and the identifier of its issue
/// and the number of its process, and says what it is to say.
pub proof fn updates_are_those_of_the_session(
    session: SessionV,
    reaction: Reaction,
    thread: Seq<char>,
    message: JsonV,
)
    requires
        session.reacts(reaction, reaction_to(thread, message)),
    ensures
        reaction.update is Some <==> reaction_to(thread, message).emit is Some,
        reaction.update matches Some(update) ==> {
            let emit = reaction_to(thread, message).emit->0;
            &&& update.issue_id@ == session.issue_id
            &&& update.issue_identifier@ == session.issue_identifier
            &&& opt_text(update.codex_app_server_pid) == session.pid
            &&& update.event@ == emit.event
            &&& opt_text(update.thread_id) == emit.thread_id
            &&& opt_text(update.turn_id) == emit.turn_id
            &&& update.usage == emit.usage
            &&& opt_json(update.rate_limits) == emit.rate_limits
            &&& opt_json(update.message) == emit.message
        },
        opt_json(reaction.reply) == reaction_to(thread, message).reply,
        reaction.next@ == reaction_to(thread, message).next,
{
}

/// A line that is no JSON is reported with the line and the reason.
pub proof fn malformed_lines_are_reported(line: Seq<char>, reason: Seq<char>)
    ensures
        ({
            let emit = malformed_emit(line, reason);
            &&& emit.event == "malformed"@
            &&& emit.message matches Some(message) && text_in(message, "line"@) == Some(line)
                && text_in(message, "error"@) == Some(reason)
        }),
{
    broadcast use given_member;

    reveal_strlit("line");
    reveal_strlit("error");
    assert("line"@.len() == 4 && "error"@.len() == 5);
}

/// A request to the agent carries its number, its method and its parameters.
pub proof fn requests_carry_number_and_method(id: u64, method: Seq<char>, params: JsonV)
    ensures
        ({
            let message = request_message(id, method, params);
            &&& message.get("id"@) == Some(JsonV::PosInt(id))
            &&& text_in(message, "method"@) == Some(method)
            &&& message.get("params"@) == Some(params)
        }),
{
    broadcast use given_member;

    reveal_strlit("id");
    reveal_strlit("method");
    reveal_strlit("params");
    assert("id"@.len() == 2);
    assert("method"@[0] == 'm' && "params"@[0] == 'p');
}

/// Numbers of requests go up one by one, and start again behind the last.
pub proof fn numbers_go_up_one_by_one(id: u64)
    ensures
        id < u64::MAX ==> following(id) == id + 1,
        id == u64::MAX ==> following(id) == 0,
{
}

/// The first request says who is calling, and in which version, and that it takes part
/// in what is experimental.
pub proof fn first_request_says_who_calls(version: Seq<char>)
    ensures
        ({
            let params = initialize_params(version);
            &&& text_inside(params, "clientInfo"@, "name"@) == Some("symphony-rust"@)
            &&& text_inside(params, "clientInfo"@, "title"@) == Some("Symphony"@)
            &&& text_inside(params, "clientInfo"@, "version"@) == Some(version)
            &&& params.get("capabilities"@) matches Some(able) && able.get("experimentalApi"@)
                == Some(JsonV::Bool(true))
        }),
{
    broadcast use given_member;

    reveal_strlit("clientInfo");
    reveal_strlit("capabilities");
    reveal_strlit("name");
    reveal_strlit("title");
    reveal_strlit("version");
    assert("clientInfo"@.len() == 10 && "capabilities"@.len() == 12);
    assert("name"@.len() == 4 && "title"@.len() == 5 && "version"@.len() == 7);
}

proof fn session_keys()
    ensures
        "cwd"@.len() == 3,
        "ephemeral"@.len() == 9,
        "serviceName"@.len() == 11,
        "sessionStartSource"@.len() == 18,
        "approvalPolicy"@.len() == 14,
        "sandbox"@.len() == 7,
        "threadId"@.len() == 8,
        "input"@.len() == 5,
        "sandboxPolicy"@.len() == 13,
        "type"@.len() == 4 && "type"@[1] == 'y',
        "text"@.len() == 4 && "text"@[1] == 'e',
{
    reveal_strlit("cwd");
    reveal_strlit("ephemeral");
    reveal_strlit("serviceName");
    reveal_strlit("sessionStartSource");
    reveal_strlit("approvalPolicy");
    reveal_strlit("sandbox");
    reveal_strlit("threadId");
    reveal_strlit("input");
    reveal_strlit("sandboxPolicy");
    reveal_strlit("type");
    reveal_strlit("text");
}

/// A thread is asked for in the workspace of the session, with the policies of the
/// configuration where it has any.
pub proof fn thread_is_asked_for_in_the_workspace(session: SessionV)
    ensures
        ({
            let params = thread_params(session);
            &&& text_in(params, "cwd"@) == Some(path_words(path_of(&session.workspace_path)))
            &&& params.get("ephemeral"@) == Some(JsonV::Bool(true))
            &&& text_in(params, "serviceName"@) == Some("symphony"@)
            &&& text_in(params, "sessionStartSource"@) == Some("startup"@)
            &&& params.get("approvalPolicy"@) == opt_json(session.config.codex.approval_policy)
            &&& params.get("sandbox"@) == opt_json(session.config.codex.thread_sandbox)
        }),
{
    broadcast use given_member;

    session_keys();
}

/// A turn is asked for in the thread and in the workspace of the session, with the
/// input as its only text and with the policies of the configuration where it has any.
pub proof fn turn_is_asked_for_with_the_input(session: SessionV, input: Seq<char>)
    ensures
        ({
            let params = turn_params(session, input);
            &&& text_in(params, "threadId"@) == Some(session.thread_id)
            &&& text_in(params, "cwd"@) == Some(path_words(path_of(&session.workspace_path)))
            &&& params.get("input"@) matches Some(JsonV::Array(items)) && items.len() == 1
                && text_in(items[0], "type"@) == Some("text"@) && text_in(items[0], "text"@)
                == Some(input)
            &&& params.get("approvalPolicy"@) == opt_json(session.config.codex.approval_policy)
            &&& params.get("sandboxPolicy"@) == opt_json(
                session.config.codex.turn_sandbox_policy,
            )
        }),
{
    broadcast use given_member;

    session_keys();
}

/// A request is answered only by the message with its own number, and by all of its
/// result.
pub proof fn only_its_own_answer_counts(outcome: HandleOutcome, id: u64, answer: Option<Json>)
    requires
        answers(outcome, id, answer),
    ensures
        answer is Some <==> (outcome matches HandleOutcome::Response { id: number, .. } && number
            == id),
        answer matches Some(result) ==> outcome->result@ == result@,
{
}

/// A turn is ended only by the notice with its own id, and by what that notice says.
pub proof fn only_its_own_notice_ends_a_turn(
    outcome: HandleOutcome,
    turn: Seq<char>,
    end: Option<(String, Option<String>)>,
)
    requires
        completes(outcome, turn, end),
    ensures
        end is Some <==> (outcome matches HandleOutcome::TurnCompleted { turn_id, .. }
            && turn_id is Some && turn_id->0@ == turn),
        end matches Some((status, error)) ==> {
            &&& outcome->status@ == status@
            &&& opt_text(outcome->error) == opt_text(error)
        },
{
}

/// A turn ends well just where its status is that it was completed. One that was
/// interrupted counts as cancelled, and every other as failed; the error that came with
/// it is the reason.
pub proof fn turns_end_by_their_status(
    turn_id: String,
    status: Seq<char>,
    error: Option<Seq<char>>,
    result: Result<String, AgentError>,
)
    requires
        ends_as(turn_id, status, error, result),
    ensures
        result is Ok <==> status == "completed"@,
        result matches Ok(id) ==> id@ == turn_id@,
        result matches Err(e) ==> {
            &&& e@ is TurnCancelled <==> status == "interrupted"@
            &&& e@ is TurnFailed <==> status != "interrupted"@
            &&& error matches Some(reason) ==> e@ == AgentFault::TurnCancelled(reason) || e@
                == AgentFault::TurnFailed(reason)
        },
{
    notice_methods();
}

/// Of the lines of the agent those that are nothing but white space are skipped, and
/// every other is a message where it is JSON; all else breaks the session off, each in
/// its own way.
pub proof fn lines_are_messages(session: SessionV, event: LineEvent, r: Incoming)
    requires
        session.reads(event, r),
    ensures
        event matches LineEvent::Line(line) ==> {
            let written = exists|i: int| 0 <= i < line@.len() && !white_space(#[trigger] line@[i]);
            &&& r is Skip <==> !written
            &&& written ==> match json_parsed(line@) {
                Ok(message) => r matches Incoming::Message(m) && m@ == message,
                Err(reason) => r matches Incoming::Broken { update: Some(update), error }
                    && error@ == AgentFault::Malformed(reason) && update.issue_id@
                    == session.issue_id && update.event@ == "malformed"@,
            }
        },
        event is Cancelled ==> (r matches Incoming::Broken { error, .. } && error@ is Cancelled),
        event is End ==> (r matches Incoming::Broken { error, .. } && error@ is PortExit),
        event matches LineEvent::Failed(reason) ==> (r matches Incoming::Broken { error, .. }
            && error@ == AgentFault::Io(reason@)),
{
    if let LineEvent::Line(line) = event {
        blank_is_white_space(line@);
    }
}

/// A session goes on where its process was started with both of its ends, and then has
/// the number of the process in decimal; nothing else of it changes.
pub proof fn launch_gives_the_session_its_process(
    session: SessionV,
    launch: Launch,
    after: SessionV,
    r: Result<(), AgentError>,
)
    requires
        session.takes_off(launch, after, r),
    ensures
        r is Ok <==> (launch matches Launch::Started { stdin, stdout, .. } && stdin && stdout),
        launch matches Launch::Failed(reason) ==> after == session && (r matches Err(e) && e@
            == AgentFault::CodexNotFound(reason@)),
        launch matches Launch::Started { pid, .. } ==> {
            &&& pid matches Some(n) ==> after.pid == Some(int_decimal(n as int))
            &&& pid is None ==> after.pid is None
            &&& r matches Err(e) ==> e@ is StartupFailed
        },
        after.issue_id == session.issue_id && after.issue_identifier == session.issue_identifier,
        after.workspace_path == session.workspace_path && after.thread_id == session.thread_id,
        after.next_id == session.next_id,
{
}

/// The thread of a session is the one that the agent gave it, and so is each turn; an
/// answer without an id is malformed.
pub proof fn agent_names_thread_and_turn(
    session: SessionV,
    response: JsonV,
    after: SessionV,
    begun: Result<AgentUpdate, AgentError>,
    turned: Result<(String, AgentUpdate), AgentError>,
)
    requires
        session.has_thread(response, after, begun),
        session.has_turn(response, turned),
    ensures
        match text_inside(response, "thread"@, "id"@) {
            Some(id) => {
                &&& after.thread_id == id
                &&& begun matches Ok(update)
                &&& update.event@ == "session_started"@
                &&& update.issue_id@ == session.issue_id
                &&& update.thread_id matches Some(thread) && thread@ == id
            },
            None => after == session && (begun matches Err(e) && e@ is Malformed),
        },
        after.next_id == session.next_id && after.issue_id == session.issue_id,
        match text_inside(response, "turn"@, "id"@) {
            Some(id) => {
                &&& turned matches Ok((turn_id, update))
                &&& turn_id@ == id
                &&& update.event@ == "turn_started"@
                &&& update.issue_id@ == session.issue_id
                &&& update.thread_id matches Some(thread) && thread@ == session.thread_id
                &&& update.turn_id matches Some(turn) && turn@ == id
                &&& opt_json(update.message) == Some(response)
            },
            None => turned matches Err(e) && e@ is Malformed,
        },
{
}

/// What the tracker said goes to the call that asked: as a success with all that was
/// said as its text, or as a failure with the words of the error.
pub proof fn tracker_is_passed_on(id: JsonV, answer: Result<JsonV, TrackerFault>)
    ensures
        ({
            let reply = tracker_reply(id, answer);
            &&& reply.get("id"@) == Some(id)
            &&& reply.get("result"@) matches Some(result)
            &&& result.get("success"@) == Some(JsonV::Bool(answer is Ok))
            &&& result.get("contentItems"@) matches Some(JsonV::Array(items))
            &&& items.len() == 1
            &&& match answer {
                Ok(payload) => text_in(items[0], "text"@) == Some(payload_text(payload)),
                Err(fault) => text_in(items[0], "text"@) == Some(
                    payload_text(
                        JsonV::Object(seq![("error"@, JsonV::Str(fault.words()))]),
                    ),
                ),
            }
        }),
{
    broadcast use given_member;

    request_methods();
    reveal_strlit("success");
    reveal_strlit("contentItems");
    reveal_strlit("type");
    reveal_strlit("text");
    assert("success"@.len() == 7 && "contentItems"@.len() == 12);
    assert("type"@[1] == 'y' && "text"@[1] == 'e');
    if let Err(fault) = answer {
        let told = JsonV::Str(fault.words());
        assert(no_members().with("error"@, told)->Object_0 =~= seq![("error"@, told)]);
    }
}

}
