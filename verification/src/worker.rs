//! A worker: one run of an issue, from its workspace to the last of its turns.

use std::path::PathBuf;
use vstd::prelude::*;

use crate::agent::{continuation_prompt, AgentError, AgentFault, CodexSession, SessionV};
use crate::config::ServiceConfig;
use crate::json::{opt_text, Json, JsonV};
use crate::keyed::StringMap;
use crate::model::{among_states, state_in, Issue, IssueState, IssueStateV, IssueV, Timestamp};
use crate::orchestrator::{WorkerFinished, WorkerStatus};
use crate::paths::{as_path, path_of};
use crate::prompt::{
    context_of, prompt_context, prompt_source, render_prompt, rendered, source_of, PromptError,
    PromptFault,
};
use crate::template::{is_plain_template, plain_template};
use crate::text::texts;
use crate::tracker::{state_views, TrackerError};
use crate::workspace::{
    calls, run_after_run, run_before_run, HookCall, Workspace, WorkspaceError,
};

verus! {

broadcast use vstd::string::group_string_axioms;

/// The next thing to do in a run.
pub enum WorkerStep {
    /// Render a template that is not plain, with what it sees.
    RenderPrompt { source: String, context: Json },
    /// Run the script that comes before a session.
    BeforeRun(HookCall),
    /// Start the session, which `WorkerRun::session` gives.
    StartSession,
    /// Run a turn with that input.
    RunTurn(String),
    /// Ask the tracker for the state of the issue.
    AskState,
    /// Stop the session where one runs, and run the script that comes after it;
    /// then that is the result.
    WindDown { shutdown: bool, after_run: Option<HookCall>, result: Result<(), AgentError> },
    /// There is no workspace: that is the result.
    Finished(Result<(), AgentError>),
}

/// A run of an issue.
pub struct WorkerRun {
    issue: Issue,
    attempt: Option<u32>,
    config: ServiceConfig,
    workspace_path: Option<PathBuf>,
    prompt: String,
    turn: u32,
}

/// What a `WorkerRun` is.
#[verifier::ext_equal]
pub struct RunV {
    pub issue: IssueV,
    pub attempt: Option<u32>,
    pub config: ServiceConfig,
    pub workspace_path: Option<PathBuf>,
    pub prompt: Seq<char>,
    pub turn: u32,
}

impl View for WorkerRun {
    type V = RunV;

    closed spec fn view(&self) -> RunV {
        RunV {
            issue: self.issue@,
            attempt: self.attempt,
            config: self.config,
            workspace_path: self.workspace_path,
            prompt: self.prompt@,
            turn: self.turn,
        }
    }
}

/// The text that a session goes on with after its first turn.
pub open spec fn continuation_words() -> Seq<char> {
    "Continue working on the issue. Re-check the tracker state and follow WORKFLOW.md handoff instructions before stopping."@
}

impl RunV {
    /// The run winds down with that result.
    pub open spec fn winds_down(
        self,
        step: WorkerStep,
        shutdown: bool,
        result: Result<(), AgentFault>,
    ) -> bool {
        match step {
            WorkerStep::WindDown { shutdown: s, after_run, result: r } => {
                &&& s == shutdown
                &&& match self.workspace_path {
                    Some(path) => calls(
                        after_run,
                        "after_run"@,
                        opt_text(self.config.hooks.after_run),
                        path_of(&path),
                        self.config.hooks,
                    ),
                    None => after_run is None,
                }
                &&& match (r, result) {
                    (Ok(_), Ok(_)) => true,
                    (Err(e), Err(f)) => e@ == f,
                    _ => false,
                }
            },
            _ => false,
        }
    }

    /// The script that comes before the session is run, or the session is
    /// started where there is none.
    pub open spec fn sets_out(self, step: WorkerStep) -> bool {
        match (self.workspace_path, opt_text(self.config.hooks.before_run)) {
            (Some(path), Some(script)) => match step {
                WorkerStep::BeforeRun(call) => call.runs(
                    "before_run"@,
                    script,
                    path_of(&path),
                    self.config.hooks,
                ),
                _ => false,
            },
            _ => step is StartSession,
        }
    }

    /// The session is one that was not launched yet, on the issue of the run, with
    /// its settings and in its workspace.
    pub open spec fn sessions_as(self, session: SessionV) -> bool {
        &&& session.issue_id == self.issue.id
        &&& session.issue_identifier == self.issue.identifier
        &&& session.config.same(self.config)
        &&& self.workspace_path == Some(session.workspace_path)
        &&& session.pid is None
        &&& session.next_id == 1
        &&& session.thread_id.len() == 0
    }

    /// The source of the template of the run.
    pub open spec fn source(self) -> Seq<char> {
        source_of(self.config.prompt_template@)
    }

    /// What the template of the run sees.
    pub open spec fn context(self) -> JsonV {
        context_of(self.issue, self.attempt)
    }

    /// The step hands out a template that is not plain, and what it sees.
    pub open spec fn asks_for_prompt(self, step: WorkerStep) -> bool {
        step matches WorkerStep::RenderPrompt { source, context } && source@ == self.source()
            && context@ == self.context() && context@.wf()
    }

    /// What follows when the prompt is known, or why there is none: the run sets
    /// out with it, or winds down.
    pub open spec fn prompted(
        self,
        prompt: Result<Seq<char>, PromptFault>,
        after: RunV,
        step: WorkerStep,
    ) -> bool {
        match prompt {
            Ok(text) => {
                &&& after == RunV { prompt: text, ..self }
                &&& after.sets_out(step)
            },
            Err(fault) => {
                &&& after == self
                &&& self.winds_down(step, false, Err(AgentFault::StartupFailed(fault.words())))
            },
        }
    }

    /// What follows when there is a workspace, or why there is none.
    pub open spec fn placed(
        self,
        ensured: Result<Workspace, WorkspaceError>,
        after: RunV,
        step: WorkerStep,
    ) -> bool {
        match ensured {
            Ok(workspace) => {
                let here = RunV { workspace_path: Some(workspace.path), ..self };
                if plain_template(self.source()) {
                    here.prompted(rendered(self.source(), self.context()), after, step)
                } else {
                    after == here && self.asks_for_prompt(step)
                }
            },
            Err(e) => {
                &&& after == self
                &&& step matches WorkerStep::Finished(Err(f)) && f@ == AgentFault::StartupFailed(
                    e.words(),
                )
            },
        }
    }

    /// What follows when the script that comes before the session has run.
    pub open spec fn readied(self, result: Result<(), WorkspaceError>, step: WorkerStep) -> bool {
        match result {
            Ok(_) => step is StartSession,
            Err(e) => self.winds_down(step, false, Err(AgentFault::StartupFailed(e.words()))),
        }
    }

    /// What follows when the session was started, or could not be: the first
    /// turn, with the prompt.
    pub open spec fn launched(
        self,
        result: Result<(), AgentError>,
        after: RunV,
        step: WorkerStep,
    ) -> bool {
        match result {
            Ok(_) => {
                &&& after == RunV { turn: 0, ..self }
                &&& if self.config.agent.max_turns == 0 {
                    self.winds_down(step, true, Ok(()))
                } else {
                    step matches WorkerStep::RunTurn(input) && input@ == self.prompt
                }
            },
            Err(e) => {
                &&& after == self
                &&& self.winds_down(step, false, Err(e@))
            },
        }
    }

    /// What follows when a turn has ended: the last one ends the run, and after
    /// any other the tracker is asked.
    pub open spec fn turned(self, result: Result<String, AgentError>, step: WorkerStep) -> bool {
        match result {
            Ok(_) => if self.turn + 1 >= self.config.agent.max_turns {
                self.winds_down(step, true, Ok(()))
            } else {
                step is AskState
            },
            Err(e) => self.winds_down(step, false, Err(e@)),
        }
    }

    /// What follows when the tracker has answered: another turn while the issue
    /// is active.
    pub open spec fn answered(
        self,
        answer: Result<StringMap<IssueState>, TrackerError>,
        after: RunV,
        step: WorkerStep,
    ) -> bool {
        match answer {
            Ok(states) => if self.still_active(state_views(states@)) {
                &&& after == RunV { turn: (self.turn + 1) as u32, ..self }
                &&& step matches WorkerStep::RunTurn(input) && input@ == continuation_words()
            } else {
                &&& after == self
                &&& self.winds_down(step, true, Ok(()))
            },
            Err(e) => {
                &&& after == self
                &&& self.winds_down(step, true, Err(AgentFault::TurnFailed(e@.words())))
            },
        }
    }

    /// The issue is still to be worked on, by what the tracker reports.
    pub open spec fn still_active(self, states: Map<Seq<char>, IssueStateV>) -> bool {
        states.contains_key(self.issue.id) && among_states(
            states[self.issue.id].state,
            texts(self.config.tracker.active_states@),
        )
    }
}

impl WorkerRun {
    /// A run of an issue.
    pub fn begin(issue: Issue, attempt: Option<u32>, config: ServiceConfig) -> (r: WorkerRun)
        ensures
            r@ == (RunV {
                issue: issue@,
                attempt,
                config,
                workspace_path: None,
                prompt: Seq::empty(),
                turn: 0,
            }),
    {
        let prompt = String::new();
        assert(prompt@ =~= Seq::<char>::empty());
        WorkerRun { issue, attempt, config, workspace_path: None, prompt, turn: 0 }
    }

    /// The issue of the run.
    pub fn issue(&self) -> (r: &Issue)
        ensures
            r@ == self@.issue,
    {
        &self.issue
    }

    /// The settings of the run.
    pub fn config(&self) -> (r: &ServiceConfig)
        ensures
            *r == self@.config,
    {
        &self.config
    }

    fn wind_down(&self, shutdown: bool, result: Result<(), AgentError>) -> (r: WorkerStep)
        ensures
            self@.winds_down(
                r,
                shutdown,
                match result {
                    Ok(_) => Ok(()),
                    Err(e) => Err(e@),
                },
            ),
    {
        let after_run = match &self.workspace_path {
            Some(path) => run_after_run(as_path(path), &self.config.hooks),
            None => None,
        };
        WorkerStep::WindDown { shutdown, after_run, result }
    }

    /// What follows when the prompt is known, or why there is none.
    pub fn prompt_rendered(&mut self, prompt: Result<String, PromptError>) -> (r: WorkerStep)
        ensures
            old(self)@.prompted(
                match prompt {
                    Ok(text) => Ok(text@),
                    Err(e) => Err(e@),
                },
                final(self)@,
                r,
            ),
    {
        match prompt {
            Ok(text) => {
                self.prompt = text;
                match &self.workspace_path {
                    Some(path) => match run_before_run(as_path(path), &self.config.hooks) {
                        Some(call) => WorkerStep::BeforeRun(call),
                        None => WorkerStep::StartSession,
                    },
                    None => WorkerStep::StartSession,
                }
            },
            Err(e) => self.wind_down(false, Err(AgentError::StartupFailed(e.to_text()))),
        }
    }

    /// What follows when there is a workspace, or why there is none. The prompt
    /// is rendered, and the run winds down where that fails; a template that is
    /// not plain is handed out, and `prompt_rendered` takes what came of it.
    pub fn workspace_ready(&mut self, ensured: Result<Workspace, WorkspaceError>) -> (r: WorkerStep)
        ensures
            old(self)@.placed(ensured, final(self)@, r),
    {
        match ensured {
            Ok(workspace) => {
                self.workspace_path = Some(workspace.path);
                let source = prompt_source(self.config.prompt_template.as_str());
                if is_plain_template(source) {
                    let prompt = render_prompt(
                        self.config.prompt_template.as_str(),
                        &self.issue,
                        self.attempt,
                    );
                    self.prompt_rendered(prompt)
                } else {
                    WorkerStep::RenderPrompt {
                        source: source.to_owned(),
                        context: prompt_context(&self.issue, self.attempt),
                    }
                }
            },
            Err(e) => WorkerStep::Finished(Err(AgentError::StartupFailed(e.to_text()))),
        }
    }

    /// What follows when the script that comes before the session has run.
    pub fn before_run_done(&self, result: Result<(), WorkspaceError>) -> (r: WorkerStep)
        ensures
            self@.readied(result, r),
    {
        match result {
            Ok(_) => WorkerStep::StartSession,
            Err(e) => self.wind_down(false, Err(AgentError::StartupFailed(e.to_text()))),
        }
    }

    /// The session of the run, before it is launched: on the issue of the run, with
    /// its settings and in its workspace. There is none before there is a
    /// workspace.
    pub fn session(&self) -> (r: Option<Result<CodexSession, AgentError>>)
        ensures
            match r {
                Some(Ok(session)) => self@.sessions_as(session@),
                Some(Err(_)) => false,
                None => self@.workspace_path is None,
            },
    {
        match &self.workspace_path {
            Some(path) => Some(
                CodexSession::start(
                    self.issue.id.clone(),
                    self.issue.identifier.clone(),
                    self.config.clone(),
                    path.clone(),
                ),
            ),
            None => None,
        }
    }

    /// What follows when the session was started, or could not be: the first
    /// turn, with the prompt.
    pub fn session_started(&mut self, result: Result<(), AgentError>) -> (r: WorkerStep)
        ensures
            r is RunTurn ==> final(self)@.turn < final(self)@.config.agent.max_turns,
            old(self)@.launched(result, final(self)@, r),
    {
        match result {
            Ok(_) => {
                self.turn = 0;
                if self.config.agent.max_turns == 0 {
                    self.wind_down(true, Ok(()))
                } else {
                    WorkerStep::RunTurn(self.prompt.clone())
                }
            },
            Err(e) => self.wind_down(false, Err(e)),
        }
    }

    /// What follows when a turn has ended: the last one ends the run, and after
    /// any other the tracker is asked.
    pub fn turn_done(&self, result: Result<String, AgentError>) -> (r: WorkerStep)
        ensures
            r is AskState ==> self@.turn + 1 < self@.config.agent.max_turns,
            self@.turned(result, r),
    {
        match result {
            Ok(_) => if self.turn >= self.config.agent.max_turns || self.turn + 1
                >= self.config.agent.max_turns {
                self.wind_down(true, Ok(()))
            } else {
                WorkerStep::AskState
            },
            Err(e) => self.wind_down(false, Err(e)),
        }
    }

    /// What follows when the tracker has answered: another turn while the issue
    /// is active.
    pub fn state_known(&mut self, answer: Result<StringMap<IssueState>, TrackerError>) -> (r:
        WorkerStep)
        requires
            old(self)@.turn + 1 < old(self)@.config.agent.max_turns,
            answer matches Ok(states) ==> states.wf(),
            answer matches Err(e) ==> e@.wf(),
        ensures
            r is RunTurn ==> final(self)@.turn < final(self)@.config.agent.max_turns,
            old(self)@.answered(answer, final(self)@, r),
    {
        match answer {
            Ok(states) => {
                let active = match states.get(self.issue.id.as_str()) {
                    Some(report) => state_in(
                        report.state.as_str(),
                        self.config.tracker.active_states.as_slice(),
                    ),
                    None => false,
                };
                if active {
                    self.turn = self.turn + 1;
                    WorkerStep::RunTurn(continuation_prompt())
                } else {
                    self.wind_down(true, Ok(()))
                }
            },
            Err(e) => self.wind_down(true, Err(AgentError::TurnFailed(e.to_text()))),
        }
    }
}

/// A moment of a run: what it is, and the step that is to be carried out.
pub struct Moment {
    pub run: RunV,
    pub step: WorkerStep,
}

/// One moment comes after another, whatever came of the step in between.
pub open spec fn follows(before: Moment, after: Moment) -> bool {
    match before.step {
        WorkerStep::RenderPrompt { .. } => exists|prompt: Result<Seq<char>, PromptFault>| #[trigger]
            before.run.prompted(prompt, after.run, after.step),
        WorkerStep::BeforeRun(_) => after.run == before.run && exists|
            result: Result<(), WorkspaceError>,
        | #[trigger]
            before.run.readied(result, after.step),
        WorkerStep::StartSession => exists|result: Result<(), AgentError>| #[trigger]
            before.run.launched(result, after.run, after.step),
        WorkerStep::RunTurn(_) => after.run == before.run && exists|
            result: Result<String, AgentError>,
        | #[trigger]
            before.run.turned(result, after.step),
        WorkerStep::AskState => exists|answer: Result<StringMap<IssueState>, TrackerError>|
            #[trigger]
            before.run.answered(answer, after.run, after.step),
        WorkerStep::WindDown { .. } => false,
        WorkerStep::Finished(_) => false,
    }
}

/// The course of a run so far: from the moment that its workspace was made, or
/// could not be.
pub open spec fn course(begun: RunV, moments: Seq<Moment>) -> bool {
    &&& begun.workspace_path is None
    &&& begun.turn == 0
    &&& moments.len() > 0
    &&& exists|ensured: Result<Workspace, WorkspaceError>| #[trigger]
        begun.placed(ensured, moments[0].run, moments[0].step)
    &&& forall|i: int|
        0 <= i < moments.len() - 1 ==> follows(#[trigger] moments[i], moments[i + 1])
}

/// How many turns a course begins.
pub open spec fn turns_in(moments: Seq<Moment>) -> nat
    decreases moments.len(),
{
    if moments.len() == 0 {
        0
    } else {
        turns_in(moments.drop_last()) + if moments.last().step is RunTurn {
            1nat
        } else {
            0nat
        }
    }
}

/// What holds of a moment before which so many moments and turns have passed.
spec fn on_course(begun: RunV, moment: Moment, passed: int, turns: nat) -> bool {
    let limit = begun.config.agent.max_turns;
    &&& moment.run.issue == begun.issue
    &&& moment.run.attempt == begun.attempt
    &&& moment.run.config == begun.config
    &&& moment.run.workspace_path is None ==> moment.step is Finished
    &&& match moment.step {
        WorkerStep::RenderPrompt { .. } => {
            passed == 0 && turns == 0 && !plain_template(begun.source())
        },
        WorkerStep::BeforeRun(_) => passed <= 1 && turns == 0,
        WorkerStep::StartSession => passed <= 2 && turns == 0,
        WorkerStep::RunTurn(input) => {
            &&& turns == moment.run.turn
            &&& turns < limit
            &&& passed <= 3 + 2 * turns
            &&& input@ == if turns == 0 {
                moment.run.prompt
            } else {
                continuation_words()
            }
        },
        WorkerStep::AskState => {
            &&& turns == moment.run.turn + 1
            &&& turns < limit
            &&& passed <= 2 + 2 * turns
        },
        WorkerStep::WindDown { shutdown, after_run, result } => {
            &&& turns <= limit
            &&& passed <= 3 + 2 * turns
            &&& result is Ok && limit > 0 ==> turns > 0
            &&& result is Ok ==> shutdown
            &&& moment.run.workspace_path matches Some(path) && calls(
                after_run,
                "after_run"@,
                opt_text(begun.config.hooks.after_run),
                path_of(&path),
                begun.config.hooks,
            )
        },
        WorkerStep::Finished(result) => passed == 0 && turns == 0 && result is Err,
    }
    &&& plain_template(begun.source()) && (moment.step is BeforeRun || moment.step is StartSession
        || moment.step is RunTurn || moment.step is AskState) ==> rendered(
        begun.source(),
        begun.context(),
    ) == Ok::<Seq<char>, PromptFault>(moment.run.prompt)
}

proof fn stays_on_course(begun: RunV, moments: Seq<Moment>, i: int)
    requires
        course(begun, moments),
        0 <= i < moments.len(),
    ensures
        on_course(begun, moments[i], i, turns_in(moments.take(i))),
    decreases i,
{
    if i == 0 {
        assert(moments.take(0).len() == 0);
    } else {
        stays_on_course(begun, moments, i - 1);
        assert(follows(moments[i - 1], moments[i - 1 + 1]));
        assert(moments.take(i).drop_last() =~= moments.take(i - 1));
        assert(moments.take(i).last() == moments[i - 1]);
    }
}

/// A run takes no more turns than its settings allow, and the turns before a
/// moment are counted by it: the first turn is given the prompt, which is what
/// a plain template was rendered to, and every later one is told to go on.
pub proof fn run_takes_its_turns(begun: RunV, moments: Seq<Moment>, i: int)
    requires
        course(begun, moments),
        0 <= i < moments.len(),
    ensures
        turns_in(moments) <= begun.config.agent.max_turns,
        moments[i].step matches WorkerStep::RunTurn(input) ==> {
            let earlier = turns_in(moments.take(i));
            &&& earlier < begun.config.agent.max_turns
            &&& earlier > 0 ==> input@ == continuation_words()
            &&& earlier == 0 ==> input@ == moments[i].run.prompt
            &&& earlier == 0 && plain_template(begun.source()) ==> rendered(
                begun.source(),
                begun.context(),
            ) == Ok::<Seq<char>, PromptFault>(input@)
        },
{
    stays_on_course(begun, moments, i);
    stays_on_course(begun, moments, moments.len() - 1);
    assert(moments.take(moments.len() - 1) =~= moments.drop_last());
}

/// A run is over after at most one rendering, one script, one start of a session
/// and two steps for each turn that it may take.
pub proof fn run_comes_to_an_end(begun: RunV, moments: Seq<Moment>)
    requires
        course(begun, moments),
    ensures
        moments.len() <= 4 + 2 * begun.config.agent.max_turns,
{
    stays_on_course(begun, moments, moments.len() - 1);
}

/// A run that has a workspace winds down once, as the last thing that it does,
/// and then the script that comes after a session is run where there is one. It
/// has taken a turn where its result is good and it may take any.
pub proof fn run_winds_down_once(begun: RunV, moments: Seq<Moment>, i: int)
    requires
        course(begun, moments),
        0 <= i < moments.len(),
    ensures
        moments[i].step matches WorkerStep::WindDown { after_run, result, .. } ==> {
            &&& i == moments.len() - 1
            &&& moments[i].run.workspace_path matches Some(path) && calls(
                after_run,
                "after_run"@,
                opt_text(begun.config.hooks.after_run),
                path_of(&path),
                begun.config.hooks,
            )
            &&& result is Ok && begun.config.agent.max_turns > 0 ==> turns_in(moments) > 0
        },
        moments[i].step is Finished ==> moments.len() == 1 && moments[0].run.workspace_path is None,
{
    stays_on_course(begun, moments, i);
    if i < moments.len() - 1 {
        assert(follows(moments[i], moments[i + 1]));
    }
    assert(moments.take(moments.len() - 1) =~= moments.drop_last());
}

/// That is how a worker ended whose run had that result.
pub open spec fn ended_as(result: Result<(), AgentError>, status: WorkerStatus) -> bool {
    match result {
        Ok(_) => status is Succeeded,
        Err(e) => if e@ is Cancelled {
            status is Cancelled
        } else {
            status matches WorkerStatus::Failed(words) && words@ == e@.words()
        },
    }
}

/// How a worker ended, when its run had that result.
pub fn worker_status(result: Result<(), AgentError>) -> (r: WorkerStatus)
    ensures
        ended_as(result, r),
{
    match result {
        Ok(_) => WorkerStatus::Succeeded,
        Err(AgentError::Cancelled) => WorkerStatus::Cancelled,
        Err(e) => WorkerStatus::Failed(e.to_text()),
    }
}

/// What the scheduler is told of a worker that ended.
pub fn run_worker(
    issue: &Issue,
    attempt: Option<u32>,
    started_at: Timestamp,
    result: Result<(), AgentError>,
) -> (r: WorkerFinished)
    ensures
        r.issue_id@ == issue.id@,
        r.issue_identifier@ == issue.identifier@,
        r.attempt == attempt,
        r.started_at == started_at,
        ended_as(result, r.status),
{
    WorkerFinished {
        issue_id: issue.id.clone(),
        issue_identifier: issue.identifier.clone(),
        attempt,
        started_at,
        status: worker_status(result),
    }
}

}
