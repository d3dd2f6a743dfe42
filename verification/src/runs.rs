//! What holds of each step of a run: what it is given, what comes next, and what a
//! failure comes to.

use vstd::prelude::*;

use crate::agent::{AgentError, AgentFault, SessionV};
use crate::documents::{
    holds_issue, template_is_used_as_it_is, template_sees_issue_and_attempt,
};
use crate::json::JsonV;
use crate::keyed::StringMap;
use crate::model::IssueState;
use crate::orchestrator::WorkerStatus;
use crate::paths::path_of;
use crate::prompt::{rendered, PromptFault};
use crate::template::plain_template;
use crate::text::{lowercase, texts, white_space};
use crate::tracker::{state_views, TrackerError};
use crate::upkeep::runs_in;
use crate::worker::{ended_as, RunV, WorkerStep};
use crate::workspace::{Workspace, WorkspaceError};

verus! {

broadcast use vstd::string::group_string_axioms;

/// A run that winds down runs the script that comes after a session in its workspace,
/// where there are both.
pub proof fn script_after_the_session_runs_in_the_workspace(
    run: RunV,
    step: WorkerStep,
    shutdown: bool,
    result: Result<(), AgentFault>,
)
    requires
        run.winds_down(step, shutdown, result),
    ensures
        step matches WorkerStep::WindDown { shutdown: s, after_run, result: r } && {
            &&& s == shutdown
            &&& after_run is Some <==> run.workspace_path is Some
                && run.config.hooks.after_run is Some
            &&& after_run matches Some(call) ==> runs_in(
                call,
                "after_run"@,
                run.config.hooks.after_run->0,
                path_of(&run.workspace_path->0),
                run.config.hooks,
            )
            &&& r is Ok <==> result is Ok
            &&& r matches Err(e) ==> result == Err::<(), AgentFault>(e@)
        },
{
}

/// A run sets out with the script that comes before a session, in its workspace, where
/// there is one, and else starts the session.
pub proof fn script_before_the_session_runs_in_the_workspace(run: RunV, step: WorkerStep)
    requires
        run.sets_out(step),
        run.workspace_path is Some,
    ensures
        match run.config.hooks.before_run {
            Some(script) => step matches WorkerStep::BeforeRun(call) && runs_in(
                call,
                "before_run"@,
                script,
                path_of(&run.workspace_path->0),
                run.config.hooks,
            ),
            None => step is StartSession,
        },
{
}

/// A run that has a workspace keeps it, and what it is about. Its prompt is what the
/// template of the workflow is rendered to with what it may see, which is the issue and
/// the number of the attempt. A template that is not plain is handed out with the same.
pub proof fn run_is_prompted_by_the_workflow(
    run: RunV,
    workspace: Workspace,
    after: RunV,
    step: WorkerStep,
    source: Seq<char>,
    seen: JsonV,
)
    requires
        run.placed(Ok(workspace), after, step),
        exists|i: int|
            0 <= i < run.config.prompt_template@.len() && !white_space(
                #[trigger] run.config.prompt_template@[i],
            ),
        source == run.config.prompt_template@,
        seen == run.context(),
    ensures
        after.workspace_path == Some(workspace.path),
        after.issue == run.issue && after.attempt == run.attempt && after.config == run.config,
        seen.get("issue"@) matches Some(issue) && holds_issue(issue, run.issue),
        run.attempt matches Some(n) ==> seen.get("attempt"@) == Some(JsonV::PosInt(n as u64)),
        run.attempt is None ==> seen.get("attempt"@) == Some(JsonV::Null),
        plain_template(source) ==> match rendered(source, seen) {
            Ok(prompt) => after.prompt == prompt && (step is BeforeRun || step is StartSession),
            Err(fault) => step matches WorkerStep::WindDown { shutdown, result: Err(e), .. }
                && !shutdown && e@ == AgentFault::StartupFailed(fault.words()),
        },
        !plain_template(source) ==> (step matches WorkerStep::RenderPrompt { source: s, context }
            && s@ == source && context@ == seen),
{
    template_is_used_as_it_is(run.config.prompt_template@);
    template_sees_issue_and_attempt(run.issue, run.attempt);
}

/// What goes wrong before the session runs ends the run as a failed start, with the
/// words of what went wrong; the session is not stopped, as there is none.
pub proof fn failed_starts_are_told(
    run: RunV,
    after: RunV,
    step: WorkerStep,
    e: WorkspaceError,
    fault: PromptFault,
    failed: AgentError,
)
    ensures
        run.placed(Err(e), after, step) ==> after == run && (step matches WorkerStep::Finished(
            Err(f),
        ) && f@ == AgentFault::StartupFailed(e.words())),
        run.prompted(Err(fault), after, step) ==> after == run && (
        step matches WorkerStep::WindDown { shutdown, result: Err(f), .. } && !shutdown && f@
            == AgentFault::StartupFailed(fault.words())),
        run.readied(Err(e), step) ==> (step matches WorkerStep::WindDown {
            shutdown,
            result: Err(f),
            ..
        } && !shutdown && f@ == AgentFault::StartupFailed(e.words())),
        run.readied(Ok(()), step) ==> step is StartSession,
        run.launched(Err(failed), after, step) ==> after == run && (
        step matches WorkerStep::WindDown { shutdown, result: Err(f), .. } && !shutdown && f@
            == failed@),
{
}

/// A session that was started gets its first turn with the prompt, where any turn may
/// be taken at all.
pub proof fn first_turn_is_given_the_prompt(run: RunV, after: RunV, step: WorkerStep)
    requires
        run.launched(Ok(()), after, step),
    ensures
        after.turn == 0,
        after.prompt == run.prompt && after.workspace_path == run.workspace_path,
        run.config.agent.max_turns > 0 ==> (step matches WorkerStep::RunTurn(input) && input@
            == run.prompt),
        run.config.agent.max_turns == 0 ==> (step matches WorkerStep::WindDown {
            shutdown,
            result: Ok(_),
            ..
        } && shutdown),
{
}

/// After a turn that ended well the tracker is asked while turns are left, and else the
/// run ends well and stops the session. A turn that failed ends the run with its error.
pub proof fn turns_are_counted(
    run: RunV,
    done: String,
    failed: AgentError,
    step: WorkerStep,
)
    ensures
        run.turned(Ok(done), step) && run.turn + 1 < run.config.agent.max_turns ==> step is AskState,
        run.turned(Ok(done), step) && run.turn + 1 >= run.config.agent.max_turns ==> (
        step matches WorkerStep::WindDown { shutdown, result: Ok(_), .. } && shutdown),
        run.turned(Err(failed), step) ==> (step matches WorkerStep::WindDown {
            shutdown,
            result: Err(e),
            ..
        } && !shutdown && e@ == failed@),
{
}

/// Another turn is taken just where the tracker still has the issue of the run in one
/// of the active states, without regard to case. It is told to go on, and is counted.
pub proof fn run_goes_on_while_the_issue_is_active(
    run: RunV,
    states: StringMap<IssueState>,
    after: RunV,
    step: WorkerStep,
)
    requires
        run.answered(Ok(states), after, step),
        run.turn < u32::MAX,
    ensures
        ({
            let active = states@.contains_key(run.issue.id) && exists|i: int|
                0 <= i < run.config.tracker.active_states@.len() && lowercase(
                    (#[trigger] run.config.tracker.active_states@[i])@,
                ) == lowercase(states@[run.issue.id].state@);
            &&& active <==> step is RunTurn
            &&& active ==> {
                &&& after.turn == run.turn + 1
                &&& step matches WorkerStep::RunTurn(input) && input@
                    == "Continue working on the issue. Re-check the tracker state and follow WORKFLOW.md handoff instructions before stopping."@
            }
            &&& !active ==> (step matches WorkerStep::WindDown { shutdown, result: Ok(_), .. }
                && shutdown)
        }),
{
    let all = run.config.tracker.active_states@;
    let id = run.issue.id;
    if states@.contains_key(id) {
        assert(state_views(states@)[id] == states@[id]@);
        let active = exists|i: int|
            0 <= i < all.len() && lowercase((#[trigger] all[i])@) == lowercase(states@[id].state@);
        if active {
            let i = choose|i: int|
                0 <= i < all.len() && lowercase((#[trigger] all[i])@) == lowercase(
                    states@[id].state@,
                );
            assert(texts(all)[i] == all[i]@);
        }
        if run.still_active(state_views(states@)) {
            let i = choose|i: int|
                0 <= i < texts(all).len() && lowercase(#[trigger] texts(all)[i]) == lowercase(
                    states@[id].state@,
                );
            assert(texts(all)[i] == all[i]@);
        }
    } else {
        assert(!state_views(states@).contains_key(id));
    }
}

/// A tracker that cannot be asked ends the run with its words, and stops the session.
pub proof fn silent_tracker_ends_the_run(
    run: RunV,
    e: TrackerError,
    after: RunV,
    step: WorkerStep,
)
    requires
        run.answered(Err(e), after, step),
    ensures
        step matches WorkerStep::WindDown { shutdown, result: Err(f), .. } && shutdown && f@
            == AgentFault::TurnFailed(e@.words()),
{
}

/// The session of a run is one on the issue of the run, in its workspace and with its
/// command.
pub proof fn session_is_that_of_the_run(run: RunV, session: SessionV)
    requires
        run.sessions_as(session),
    ensures
        session.issue_id == run.issue.id,
        session.issue_identifier == run.issue.identifier,
        run.workspace_path == Some(session.workspace_path),
        session.config.codex.command@ == run.config.codex.command@,
        session.config.codex.turn_timeout_ms == run.config.codex.turn_timeout_ms,
        session.config.codex.read_timeout_ms == run.config.codex.read_timeout_ms,
{
}

/// A worker succeeded just where its run ended well, and was cancelled just where the
/// run was; any other failure is told in the words of its error.
pub proof fn workers_end_as_their_runs(result: Result<(), AgentError>, status: WorkerStatus)
    requires
        ended_as(result, status),
    ensures
        status is Succeeded <==> result is Ok,
        status is Cancelled <==> (result matches Err(e) && e@ is Cancelled),
        status matches WorkerStatus::Failed(words) ==> (result matches Err(e) && words@
            == e@.words()),
{
}

}
