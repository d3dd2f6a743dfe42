//! What the messages of errors say: each begins with the code of the error, by which it
//! can be told from the others, and ends with what the error holds.

use vstd::prelude::*;

use crate::agent::AgentFault;
use crate::config::ConfigError;
use crate::env_loader::EnvLoadError;
use crate::json::json_display;
use crate::paths::{path_of, path_words};
use crate::text::int_decimal;
use crate::tracker::TrackerFault;
use crate::workflow::WorkflowError;

verus! {

broadcast use vstd::string::group_string_axioms;

/// The text is the first part with the second behind it.
pub open spec fn is_both(text: Seq<char>, first: Seq<char>, second: Seq<char>) -> bool {
    &&& first.is_prefix_of(text)
    &&& second.is_suffix_of(text)
    &&& text.len() == first.len() + second.len()
}

/// What the message of an error of a session says.
pub proof fn agent_errors_in_words(fault: AgentFault)
    ensures
        ({
            let words = fault.words();
            match fault {
                AgentFault::CodexNotFound(why) => is_both(words, "codex_not_found reason="@, why),
                AgentFault::InvalidWorkspaceCwd(why) => is_both(
                    words,
                    "invalid_workspace_cwd reason="@,
                    why,
                ),
                AgentFault::ResponseTimeout(method) => is_both(
                    words,
                    "response_timeout method="@,
                    method,
                ),
                AgentFault::TurnTimeout => words == "turn_timeout"@,
                AgentFault::PortExit => words == "port_exit"@,
                AgentFault::ResponseError { method, code, message } => {
                    let number = match code {
                        Some(n) => "Some("@ + int_decimal(n as int) + ")"@,
                        None => "None"@,
                    };
                    is_both(
                        words,
                        "response_error method="@ + method + " code="@ + number,
                        " message="@ + message,
                    )
                },
                AgentFault::TurnFailed(why) => is_both(words, "turn_failed reason="@, why),
                AgentFault::TurnCancelled(why) => is_both(words, "turn_cancelled reason="@, why),
                AgentFault::TurnInputRequired => words == "turn_input_required"@,
                AgentFault::StartupFailed(why) => is_both(words, "startup_failed reason="@, why),
                AgentFault::Io(why) => is_both(words, "io reason="@, why),
                AgentFault::Malformed(why) => is_both(words, "malformed reason="@, why),
                AgentFault::Cancelled => words == "cancelled"@,
            }
        }),
{
}

/// What the message of an error of the tracker says.
pub proof fn tracker_errors_in_words(fault: TrackerFault)
    ensures
        ({
            let words = fault.words();
            match fault {
                TrackerFault::UnsupportedTrackerKind(kind) => is_both(
                    words,
                    "unsupported_tracker_kind kind="@,
                    kind,
                ),
                TrackerFault::MissingApiKey => words == "missing_tracker_api_key"@,
                TrackerFault::MissingProjectSlug => words == "missing_tracker_project_slug"@,
                TrackerFault::LinearApiRequest(why) => is_both(
                    words,
                    "linear_api_request reason="@,
                    why,
                ),
                TrackerFault::LinearApiStatus(status) => is_both(
                    words,
                    "linear_api_status status="@,
                    status,
                ),
                TrackerFault::LinearGraphqlErrors(errors) => is_both(
                    words,
                    "linear_graphql_errors errors="@,
                    json_display(errors),
                ),
                TrackerFault::LinearUnknownPayload(why) => is_both(
                    words,
                    "linear_unknown_payload reason="@,
                    why,
                ),
                TrackerFault::LinearMissingEndCursor => words == "linear_missing_end_cursor"@,
            }
        }),
{
}

/// What the message of an error in loading a workflow says.
pub proof fn workflow_errors_in_words(e: WorkflowError)
    ensures
        match e {
            WorkflowError::MissingWorkflowFile(path) => is_both(
                e.words(),
                "missing_workflow_file path="@,
                path_words(path_of(&path)),
            ),
            WorkflowError::ParseError { path, reason } => is_both(
                e.words(),
                "workflow_parse_error path="@ + path_words(path_of(&path)),
                " reason="@ + reason@,
            ),
            WorkflowError::FrontMatterNotMap(path) => is_both(
                e.words(),
                "workflow_front_matter_not_a_map path="@,
                path_words(path_of(&path)),
            ),
        },
{
}

/// What the message of an error in the configuration says.
pub proof fn config_errors_in_words(e: ConfigError)
    ensures
        match e {
            ConfigError::Workflow(inner) => e.words() == inner.words(),
            ConfigError::Invalid { field, reason } => is_both(
                e.words(),
                "invalid_config field="@ + field@,
                " reason="@ + reason@,
            ),
        },
{
}

/// What the message of an error in loading `.env` files says.
pub proof fn env_errors_in_words(e: EnvLoadError)
    ensures
        match e {
            EnvLoadError::CurrentDir(reason) => is_both(
                e.words(),
                "env_current_dir reason="@,
                reason@,
            ),
            EnvLoadError::Parse { path, reason } => is_both(
                e.words(),
                "env_file_parse path="@ + path_words(path_of(&path)),
                " reason="@ + reason@,
            ),
        },
{
}

}
