//! What holds of sessions while they run: which are ended and why, whose workspace
//! is removed, and what is kept of their reports.

use std::path::PathBuf;
use vstd::prelude::*;

use crate::agent::UpdateV;
use crate::config::{ConfigError, ServiceConfig};
use crate::guarantees::{reports_end_the_rest, stalls_wait};
use crate::json::{opt_json, opt_text};
use crate::model::{IssueStateV, IssueV, RetryEntry, RetryV, RunningV, RuntimeState, Timestamp};
use crate::orchestrator::{
    after_candidates, after_report, after_reports, after_retry, after_stalls, after_update,
    after_worker, choices_fit, is_stalled, lists, report_effects, reports_effects, reread,
    retry_home, retry_views, running_views, shows, stalled_ids, stalls_effects, stops_all,
    taken_out, terminated, termination_effects, verdict, ActionV, Choice, EffectV, RetryOutcome,
    SchedV, WorkerFinished,
};
use crate::paths::{buf_parts, normal_path, path_joined, path_of, path_parts, text_path};
use crate::retries::{missing_session_is_not_terminated, terminated_session_leaves};
use crate::text::{lowercase, texts};
use crate::workspace::key_of;

verus! {

broadcast use vstd::string::group_string_axioms;

/// A state that is among the terminal ones, without regard to case, ends the session
/// and takes the workspace, also where it is among the active ones; any other active
/// state lets the session go on; any other state ends it and leaves the workspace.
pub proof fn verdict_by_the_states(state: Seq<char>, config: ServiceConfig)
    ensures
        verdict(state, config) is Clean <==> exists|i: int|
            0 <= i < config.tracker.terminal_states@.len() && lowercase(
                (#[trigger] config.tracker.terminal_states@[i])@,
            ) == lowercase(state),
        verdict(state, config) is Keep <==> {
            &&& exists|i: int|
                0 <= i < config.tracker.active_states@.len() && lowercase(
                    (#[trigger] config.tracker.active_states@[i])@,
                ) == lowercase(state)
            &&& forall|i: int|
                0 <= i < config.tracker.terminal_states@.len() ==> lowercase(
                    (#[trigger] config.tracker.terminal_states@[i])@,
                ) != lowercase(state)
        },
{
    let terminal = texts(config.tracker.terminal_states@);
    let active = texts(config.tracker.active_states@);
    assert forall|i: int| 0 <= i < terminal.len() implies #[trigger] terminal[i]
        == config.tracker.terminal_states@[i]@ by {}
    assert forall|i: int| 0 <= i < active.len() implies #[trigger] active[i]
        == config.tracker.active_states@[i]@ by {}
    if exists|i: int|
        0 <= i < config.tracker.terminal_states@.len() && lowercase(
            (#[trigger] config.tracker.terminal_states@[i])@,
        ) == lowercase(state) {
        let i = choose|i: int|
            0 <= i < config.tracker.terminal_states@.len() && lowercase(
                (#[trigger] config.tracker.terminal_states@[i])@,
            ) == lowercase(state);
        assert(lowercase(terminal[i]) == lowercase(state));
    }
    if exists|i: int|
        0 <= i < config.tracker.active_states@.len() && lowercase(
            (#[trigger] config.tracker.active_states@[i])@,
        ) == lowercase(state) {
        let i = choose|i: int|
            0 <= i < config.tracker.active_states@.len() && lowercase(
                (#[trigger] config.tracker.active_states@[i])@,
            ) == lowercase(state);
        assert(lowercase(active[i]) == lowercase(state));
    }
    if crate::model::among_states(state, terminal) {
        let i = choose|i: int|
            0 <= i < terminal.len() && lowercase(#[trigger] terminal[i]) == lowercase(state);
        assert(lowercase(config.tracker.terminal_states@[i]@) == lowercase(state));
    }
    if crate::model::among_states(state, active) {
        let i = choose|i: int|
            0 <= i < active.len() && lowercase(#[trigger] active[i]) == lowercase(state);
        assert(lowercase(config.tracker.active_states@[i]@) == lowercase(state));
    }
}

/// A session that the tracker leaves active goes on as it is, but that its issue is
/// now in the state that was reported; one of which the tracker says nothing goes on
/// unchanged. An issue whose session is ended is free. Issues that wait, what is
/// done, counts, settings and errors stay.
pub proof fn reported_sessions_go_on(
    s: SchedV,
    ids: Seq<Seq<char>>,
    states: Map<Seq<char>, IssueStateV>,
    config: ServiceConfig,
    id: Seq<char>,
)
    requires
        ids.no_duplicates(),
        forall|other: Seq<char>| #[trigger]
            s.running.contains_key(other) ==> !s.retrying.contains_key(other),
    ensures
        ({
            let t = after_reports(s, ids, states, config);
            let told = ids.contains(id) && states.contains_key(id);
            &&& t.running.contains_key(id) && !told ==> t.running[id] == s.running[id]
            &&& t.running.contains_key(id) && told ==> t.running[id] == (RunningV {
                issue: IssueV { state: states[id].state, ..s.running[id].issue },
                ..s.running[id]
            })
            &&& t.claimed.contains(id) == (s.claimed.contains(id) && !(s.running.contains_key(id)
                && !t.running.contains_key(id)))
            &&& t.retrying == s.retrying
            &&& t.completed == s.completed
            &&& t.codex_totals == s.codex_totals
            &&& t.codex_rate_limits == s.codex_rate_limits
            &&& t.last_error == s.last_error
            &&& t.poll_interval_ms == s.poll_interval_ms
            &&& t.max_concurrent_agents == s.max_concurrent_agents
            &&& t.max_retry_backoff_ms == s.max_retry_backoff_ms
        }),
    decreases ids.len(),
{
    if ids.len() > 0 {
        let front = ids.drop_last();
        let last = ids.last();
        let before = after_reports(s, front, states, config);
        let t = after_reports(s, ids, states, config);
        reported_sessions_go_on(s, front, states, config, id);
        reports_end_the_rest(s, front, states, config, id);
        reports_end_the_rest(s, front, states, config, last);
        reports_end_the_rest(s, ids, states, config, id);
        assert(ids.contains(id) <==> front.contains(id) || id == last) by {
            if ids.contains(id) {
                let x = choose|x: int| 0 <= x < ids.len() && ids[x] == id;
                if x < front.len() {
                    assert(front[x] == id);
                }
            }
            if front.contains(id) {
                let x = choose|x: int| 0 <= x < front.len() && front[x] == id;
                assert(ids[x] == id);
            }
            assert(ids[ids.len() - 1] == last);
        }
        assert(!front.contains(last)) by {
            if front.contains(last) {
                let x = choose|x: int| 0 <= x < front.len() && front[x] == last;
                assert(ids[x] == ids[ids.len() - 1]);
            }
        }
        assert(t.retrying =~= before.retrying);
    }
}

/// What is done when the tracker reports on a session, and nothing else: where it
/// ends, its worker is stopped and its time counted; and where its issue is finished
/// the workspace under the identifier of that session is removed.
pub proof fn report_on_a_session(
    s: SchedV,
    id: Seq<char>,
    states: Map<Seq<char>, IssueStateV>,
    config: ServiceConfig,
)
    requires
        s.running.contains_key(id) ==> !s.retrying.contains_key(id),
    ensures
        ({
            let effects = report_effects(s, id, states, config);
            let session = s.running[id];
            if !states.contains_key(id) || !s.running.contains_key(id) || verdict(
                states[id].state,
                config,
            ) is Keep {
                effects.len() == 0
            } else {
                &&& effects.len() == if verdict(states[id].state, config) is Clean {
                    3int
                } else {
                    2int
                }
                &&& effects[0] == EffectV::CancelWorker(id)
                &&& effects[1] == (EffectV::SessionEnded { ended: session.started_at })
                &&& verdict(states[id].state, config) is Clean ==> effects[2] == (
                EffectV::RemoveWorkspace { identifier: session.issue_identifier })
            }
        }),
{
    let now = arbitrary::<Timestamp>();
    if s.running.contains_key(id) {
        terminated_session_leaves(s, id, ActionV::ReleaseAndCleanup, now);
        terminated_session_leaves(s, id, ActionV::ReleaseOnly, now);
    } else {
        missing_session_is_not_terminated(s, id, ActionV::ReleaseAndCleanup, now);
        missing_session_is_not_terminated(s, id, ActionV::ReleaseOnly, now);
    }
}

/// Every workspace that is removed when the tracker reports is that of a session on
/// an issue that the tracker has in a terminal state: it goes by the identifier of
/// that session. And the workspace of every such session is removed.
pub proof fn finished_issues_lose_their_workspaces(
    s: SchedV,
    ids: Seq<Seq<char>>,
    states: Map<Seq<char>, IssueStateV>,
    config: ServiceConfig,
)
    requires
        ids.no_duplicates(),
        forall|other: Seq<char>| #[trigger]
            s.running.contains_key(other) ==> !s.retrying.contains_key(other),
    ensures
        ({
            let effects = reports_effects(s, ids, states, config);
            &&& forall|e: int|
                0 <= e < effects.len() ==> match #[trigger] effects[e] {
                    EffectV::RemoveWorkspace { identifier } => exists|id: Seq<char>|
                        {
                            &&& #[trigger] ids.contains(id)
                            &&& s.running.contains_key(id)
                            &&& s.running[id].issue_identifier == identifier
                            &&& states.contains_key(id)
                            &&& verdict(states[id].state, config) is Clean
                        },
                    EffectV::CancelWorker(id) => {
                        &&& ids.contains(id)
                        &&& s.running.contains_key(id)
                        &&& states.contains_key(id)
                        &&& !(verdict(states[id].state, config) is Keep)
                    },
                    EffectV::SessionEnded { .. } => true,
                    _ => false,
                }
            &&& forall|id: Seq<char>| #[trigger]
                ids.contains(id) && s.running.contains_key(id) && states.contains_key(id)
                    ==> {
                    &&& !(verdict(states[id].state, config) is Keep) ==> effects.contains(
                        EffectV::CancelWorker(id),
                    ) && effects.contains(
                        EffectV::SessionEnded { ended: s.running[id].started_at },
                    )
                    &&& verdict(states[id].state, config) is Clean ==> effects.contains(
                        EffectV::RemoveWorkspace { identifier: s.running[id].issue_identifier },
                    )
                }
        }),
    decreases ids.len(),
{
    let effects = reports_effects(s, ids, states, config);
    if ids.len() > 0 {
        let front = ids.drop_last();
        let last = ids.last();
        let before = after_reports(s, front, states, config);
        let done = reports_effects(s, front, states, config);
        let more = report_effects(before, last, states, config);
        assert(effects == done + more);
        finished_issues_lose_their_workspaces(s, front, states, config);
        assert(!front.contains(last)) by {
            if front.contains(last) {
                let x = choose|x: int| 0 <= x < front.len() && front[x] == last;
                assert(ids[x] == ids[ids.len() - 1]);
            }
        }
        reported_sessions_go_on(s, front, states, config, last);
        reports_end_the_rest(s, front, states, config, last);
        report_on_a_session(before, last, states, config);
        assert(ids[ids.len() - 1] == last);
        assert(ids.contains(last));
        assert forall|id: Seq<char>| ids.contains(id) <==> #[trigger] front.contains(id) || id
            == last by {
            if ids.contains(id) {
                let x = choose|x: int| 0 <= x < ids.len() && ids[x] == id;
                if x < front.len() {
                    assert(front[x] == id);
                }
            }
            if front.contains(id) {
                let x = choose|x: int| 0 <= x < front.len() && front[x] == id;
                assert(ids[x] == id);
            }
        }
        assert forall|e: int| 0 <= e < effects.len() implies match #[trigger] effects[e] {
            EffectV::RemoveWorkspace { identifier } => exists|id: Seq<char>|
                {
                    &&& #[trigger] ids.contains(id)
                    &&& s.running.contains_key(id)
                    &&& s.running[id].issue_identifier == identifier
                    &&& states.contains_key(id)
                    &&& verdict(states[id].state, config) is Clean
                },
            EffectV::CancelWorker(id) => {
                &&& ids.contains(id)
                &&& s.running.contains_key(id)
                &&& states.contains_key(id)
                &&& !(verdict(states[id].state, config) is Keep)
            },
            EffectV::SessionEnded { .. } => true,
            _ => false,
        } by {
            if e < done.len() {
                assert(effects[e] == done[e]);
                match done[e] {
                    EffectV::RemoveWorkspace { identifier } => {
                        let id = choose|id: Seq<char>|
                            {
                                &&& #[trigger] front.contains(id)
                                &&& s.running.contains_key(id)
                                &&& s.running[id].issue_identifier == identifier
                                &&& states.contains_key(id)
                                &&& verdict(states[id].state, config) is Clean
                            };
                        assert(front.contains(id));
                        assert(ids.contains(id));
                    },
                    EffectV::CancelWorker(id) => {
                        assert(front.contains(id));
                    },
                    _ => {},
                }
            } else {
                assert(effects[e] == more[e - done.len()]);
            }
        }
        assert forall|id: Seq<char>| #[trigger]
            ids.contains(id) && s.running.contains_key(id) && states.contains_key(id) implies {
            &&& !(verdict(states[id].state, config) is Keep) ==> effects.contains(
                EffectV::CancelWorker(id),
            ) && effects.contains(EffectV::SessionEnded { ended: s.running[id].started_at })
            &&& verdict(states[id].state, config) is Clean ==> effects.contains(
                EffectV::RemoveWorkspace { identifier: s.running[id].issue_identifier },
            )
        } by {
            if id == last {
                if !(verdict(states[id].state, config) is Keep) {
                    assert(effects[done.len() as int] == more[0]);
                    assert(effects[done.len() as int + 1] == more[1]);
                }
                if verdict(states[id].state, config) is Clean {
                    assert(effects[done.len() as int + 2] == more[2]);
                }
            } else {
                assert(front.contains(id));
                if !(verdict(states[id].state, config) is Keep) {
                    let x = choose|x: int|
                        0 <= x < done.len() && done[x] == EffectV::CancelWorker(id);
                    assert(effects[x] == done[x]);
                    let y = choose|y: int|
                        0 <= y < done.len() && done[y] == (EffectV::SessionEnded {
                            ended: s.running[id].started_at,
                        });
                    assert(effects[y] == done[y]);
                }
                if verdict(states[id].state, config) is Clean {
                    let x = choose|x: int|
                        0 <= x < done.len() && done[x] == (EffectV::RemoveWorkspace {
                            identifier: s.running[id].issue_identifier,
                        });
                    assert(effects[x] == done[x]);
                }
            }
        }
    }
}

/// A session is stalled just where more whole milliseconds than the limit have
/// passed since its last report, or since its start where it has not reported.
pub proof fn stalled_since_the_last_report(
    s: SchedV,
    id: Seq<char>,
    limit_ms: i64,
    now: Timestamp,
)
    requires
        s.running.contains_key(id),
        limit_ms >= 0,
    ensures
        ({
            let since = match s.running[id].live_session.last_codex_timestamp {
                Some(time) => time,
                None => s.running[id].started_at,
            };
            let nanos = (now.seconds - since.seconds) * 1_000_000_000 + now.nanos - since.nanos;
            is_stalled(s, id, limit_ms, now) <==> nanos >= (limit_ms + 1) * 1_000_000
        }),
{
}

/// A session that has ended because it was silent leaves its issue waiting for the
/// next attempt, with the reason; sessions that were heard of, and everything else,
/// stay. Nothing is cleaned up.
pub proof fn silent_sessions_wait_for_the_next_attempt(
    s: SchedV,
    ids: Seq<Seq<char>>,
    now: Timestamp,
    id: Seq<char>,
)
    requires
        ids.no_duplicates(),
        forall|other: Seq<char>| #[trigger]
            s.running.contains_key(other) ==> !s.retrying.contains_key(other),
    ensures
        ({
            let t = after_stalls(s, ids, now);
            let effects = stalls_effects(s, ids, now);
            &&& s.running.contains_key(id) && ids.contains(id) ==> {
                &&& !t.running.contains_key(id)
                &&& t.retrying.contains_key(id)
                &&& t.claimed.contains(id)
                &&& t.retrying[id].issue_id == id
                &&& t.retrying[id].identifier == s.running[id].issue_identifier
                &&& t.retrying[id].error == Some("stalled"@)
                &&& t.retrying[id].attempt == (match s.running[id].attempt {
                    None => 1u32,
                    Some(n) => if n == u32::MAX {
                        0
                    } else {
                        (n + 1) as u32
                    },
                })
                &&& effects.contains(EffectV::CancelWorker(id))
                &&& effects.contains(EffectV::SessionEnded { ended: s.running[id].started_at })
                &&& exists|e: int|
                    0 <= e < effects.len() && ((#[trigger] effects[e]) matches EffectV::StartTimer {
                        issue_id,
                        ..
                    } && issue_id == id)
            }
            &&& !(s.running.contains_key(id) && ids.contains(id)) ==> {
                &&& t.running.contains_key(id) == s.running.contains_key(id)
                &&& t.running[id] == s.running[id]
                &&& t.retrying.contains_key(id) == s.retrying.contains_key(id)
                &&& t.retrying[id] == s.retrying[id]
                &&& t.claimed.contains(id) == s.claimed.contains(id)
            }
            &&& forall|e: int|
                0 <= e < effects.len() ==> match #[trigger] effects[e] {
                    EffectV::CancelWorker(other) => ids.contains(other) && s.running.contains_key(
                        other,
                    ),
                    EffectV::StartTimer { issue_id, .. } => ids.contains(issue_id)
                        && s.running.contains_key(issue_id),
                    EffectV::SessionEnded { .. } => true,
                    _ => false,
                }
            &&& t.max_retry_backoff_ms == s.max_retry_backoff_ms
            &&& t.completed == s.completed
            &&& t.codex_totals == s.codex_totals
            &&& t.last_error == s.last_error
        }),
    decreases ids.len(),
{
    if ids.len() > 0 {
        let front = ids.drop_last();
        let last = ids.last();
        let before = after_stalls(s, front, now);
        let done = stalls_effects(s, front, now);
        let more = termination_effects(before, last, ActionV::Retry("stalled"@));
        let effects = stalls_effects(s, ids, now);
        assert(effects == done + more);
        silent_sessions_wait_for_the_next_attempt(s, front, now, id);
        silent_sessions_wait_for_the_next_attempt(s, front, now, last);
        assert(!front.contains(last)) by {
            if front.contains(last) {
                let x = choose|x: int| 0 <= x < front.len() && front[x] == last;
                assert(ids[x] == ids[ids.len() - 1]);
            }
        }
        assert(ids[ids.len() - 1] == last);
        assert forall|other: Seq<char>| #[trigger] ids.contains(other) <==> front.contains(other)
            || other == last by {
            if ids.contains(other) {
                let x = choose|x: int| 0 <= x < ids.len() && ids[x] == other;
                if x < front.len() {
                    assert(front[x] == other);
                }
            }
            if front.contains(other) {
                let x = choose|x: int| 0 <= x < front.len() && front[x] == other;
                assert(ids[x] == other);
            }
        }
        if before.running.contains_key(last) {
            terminated_session_leaves(before, last, ActionV::Retry("stalled"@), now);
        } else {
            missing_session_is_not_terminated(before, last, ActionV::Retry("stalled"@), now);
        }
        assert forall|e: int| 0 <= e < effects.len() implies match #[trigger] effects[e] {
            EffectV::CancelWorker(other) => ids.contains(other) && s.running.contains_key(other),
            EffectV::StartTimer { issue_id, .. } => ids.contains(issue_id)
                && s.running.contains_key(issue_id),
            EffectV::SessionEnded { .. } => true,
            _ => false,
        } by {
            if e < done.len() {
                assert(effects[e] == done[e]);
            } else {
                assert(effects[e] == more[e - done.len()]);
            }
        }
        if s.running.contains_key(id) && ids.contains(id) {
            if id == last {
                assert(effects[done.len() as int] == more[0]);
                assert(effects[done.len() as int + 1] == more[1]);
                assert(effects[done.len() as int + 2] == more[2]);
            } else {
                let x = choose|x: int| 0 <= x < done.len() && done[x] == EffectV::CancelWorker(id);
                assert(effects[x] == done[x]);
                let y = choose|y: int|
                    0 <= y < done.len() && done[y] == (EffectV::SessionEnded {
                        ended: s.running[id].started_at,
                    });
                assert(effects[y] == done[y]);
                let z = choose|z: int|
                    0 <= z < done.len() && ((#[trigger] done[z]) matches EffectV::StartTimer {
                        issue_id,
                        ..
                    } && issue_id == id);
                assert(effects[z] == done[z]);
            }
        }
    }
}

/// Every session is in the workspace that goes by the identifier of its issue, below
/// the root of a configuration.
pub open spec fn at_home(s: SchedV, config: ServiceConfig) -> bool {
    forall|id: Seq<char>| #[trigger]
        s.running.contains_key(id) ==> {
            &&& s.running[id].issue_identifier == s.running[id].issue.identifier
            &&& path_of(&s.running[id].workspace_path) == normal_path(
                path_parts(
                    path_joined(
                        normal_path(buf_parts(config.workspace.root)),
                        text_path(key_of(s.running[id].issue.identifier)),
                    ),
                ),
            )
        }
}

/// Sessions are begun in their workspaces and stay there, whatever happens, while the
/// root stays the same.
pub proof fn sessions_stay_at_home(
    s: SchedV,
    config: ServiceConfig,
    issues: Seq<IssueV>,
    choices: Seq<Choice>,
)
    requires
        at_home(s, config),
        choices_fit(s, issues, config, choices),
    ensures
        at_home(after_candidates(s, issues, config, choices), config),
    decreases issues.len(),
{
    if issues.len() > 0 {
        sessions_stay_at_home(s, config, issues.drop_last(), choices);
    }
}

/// The end of a worker, reports of the tracker, silence, and the reports of sessions
/// move no session.
pub proof fn events_move_no_session(
    s: SchedV,
    config: ServiceConfig,
    finished: WorkerFinished,
    id: Seq<char>,
    states: Map<Seq<char>, IssueStateV>,
    action: ActionV,
    update: UpdateV,
    now: Timestamp,
)
    requires
        at_home(s, config),
    ensures
        at_home(after_worker(s, finished, now), config),
        at_home(after_report(s, id, states, config), config),
        at_home(terminated(s, id, action, now), config),
        at_home(after_update(s, update), config),
{
}

/// A due issue is taken up again in the workspace of its identifier.
pub proof fn due_session_is_at_home(
    s: SchedV,
    config: ServiceConfig,
    entry: RetryV,
    outcome: RetryOutcome,
    home: Option<PathBuf>,
    now: Timestamp,
)
    requires
        at_home(s, config),
        retry_home(s, entry, outcome, home),
        outcome matches RetryOutcome::Fetched { config: c, .. } ==> c.workspace.root
            == config.workspace.root,
    ensures
        at_home(after_retry(s, entry, outcome, home, now), config),
{
}

/// The workspace that is removed when a session is ended is the one that the session
/// was in: the identifier that is handed out leads to the path that was recorded.
pub proof fn removed_workspace_is_that_of_the_session(
    s: SchedV,
    config: ServiceConfig,
    id: Seq<char>,
    action: ActionV,
    e: int,
)
    requires
        at_home(s, config),
        s.running.contains_key(id),
        !s.retrying.contains_key(id),
        0 <= e < termination_effects(s, id, action).len(),
    ensures
        termination_effects(s, id, action)[e] matches EffectV::RemoveWorkspace { identifier } ==> {
            &&& action is ReleaseAndCleanup
            &&& identifier == s.running[id].issue.identifier
            &&& normal_path(
                path_parts(
                    path_joined(
                        normal_path(buf_parts(config.workspace.root)),
                        text_path(key_of(identifier)),
                    ),
                ),
            ) == path_of(&s.running[id].workspace_path)
        },
{
    terminated_session_leaves(s, id, action, arbitrary::<Timestamp>());
}

/// What is known of a session after a report: who it is from, when it came and what
/// it said; a thread and a turn stay known until others are named, and together they
/// name the session; a turn is counted when it starts, and only then; and counts of
/// the whole session take the place of those that were known.
pub proof fn report_is_recorded(s: SchedV, update: UpdateV)
    requires
        s.running.contains_key(update.issue_id),
    ensures
        ({
            let id = update.issue_id;
            let old_live = s.running[id].live_session;
            let t = after_update(s, update);
            let live = t.running[id].live_session;
            let thread = if update.thread_id is Some {
                update.thread_id
            } else {
                old_live.thread_id
            };
            let turn = if update.turn_id is Some {
                update.turn_id
            } else {
                old_live.turn_id
            };
            &&& t.running.contains_key(id)
            &&& t.running[id].issue == s.running[id].issue
            &&& t.running[id].issue_id == s.running[id].issue_id
            &&& t.running[id].issue_identifier == s.running[id].issue_identifier
            &&& t.running[id].attempt == s.running[id].attempt
            &&& t.running[id].workspace_path == s.running[id].workspace_path
            &&& t.running[id].started_at == s.running[id].started_at
            &&& live.thread_id == thread
            &&& live.turn_id == turn
            &&& match (thread, turn) {
                (Some(a), Some(b)) => live.session_id == Some(a + seq!['-'] + b),
                _ => live.session_id == old_live.session_id,
            }
            &&& live.codex_app_server_pid == update.codex_app_server_pid
            &&& live.last_codex_event == Some(update.event)
            &&& live.last_codex_timestamp == Some(update.timestamp)
            &&& live.last_codex_message == update.message
            &&& update.event != "turn_started"@ ==> live.turn_count == old_live.turn_count
            &&& update.event == "turn_started"@ && old_live.turn_count < u32::MAX
                ==> live.turn_count == old_live.turn_count + 1
            &&& match update.usage {
                Some(usage) => if usage.absolute {
                    &&& live.codex_input_tokens == usage.input_tokens
                    &&& live.codex_output_tokens == usage.output_tokens
                    &&& live.codex_total_tokens == usage.total_tokens
                    &&& live.last_reported_input_tokens == usage.input_tokens
                    &&& live.last_reported_output_tokens == usage.output_tokens
                    &&& live.last_reported_total_tokens == usage.total_tokens
                } else {
                    &&& live.codex_input_tokens == old_live.codex_input_tokens
                    &&& live.codex_output_tokens == old_live.codex_output_tokens
                    &&& live.codex_total_tokens == old_live.codex_total_tokens
                    &&& live.last_reported_input_tokens == old_live.last_reported_input_tokens
                    &&& live.last_reported_output_tokens == old_live.last_reported_output_tokens
                    &&& live.last_reported_total_tokens == old_live.last_reported_total_tokens
                    &&& t.codex_totals == s.codex_totals
                },
                None => {
                    &&& live.codex_input_tokens == old_live.codex_input_tokens
                    &&& live.codex_output_tokens == old_live.codex_output_tokens
                    &&& live.codex_total_tokens == old_live.codex_total_tokens
                    &&& live.last_reported_input_tokens == old_live.last_reported_input_tokens
                    &&& live.last_reported_output_tokens == old_live.last_reported_output_tokens
                    &&& live.last_reported_total_tokens == old_live.last_reported_total_tokens
                    &&& t.codex_totals == s.codex_totals
                },
            }
            &&& t.codex_rate_limits == (if update.rate_limits is Some {
                update.rate_limits
            } else {
                s.codex_rate_limits
            })
            &&& t.claimed == s.claimed
            &&& t.retrying == s.retrying
            &&& t.completed == s.completed
            &&& t.last_error == s.last_error
        }),
{
    reveal_strlit("-");
    assert("-"@ =~= seq!['-']);
}

/// Counts that a session reports for the whole of it add to the counts of all
/// sessions what they are above its last ones, each for itself; lower ones add
/// nothing. The numbers must fit into 64 bits.
pub proof fn totals_grow_by_the_difference(s: SchedV, update: UpdateV)
    requires
        s.running.contains_key(update.issue_id),
        update.usage matches Some(usage) && usage.absolute && ({
            let live = s.running[update.issue_id].live_session;
            &&& 0 <= live.last_reported_input_tokens && 0 <= usage.input_tokens
            &&& 0 <= live.last_reported_output_tokens && 0 <= usage.output_tokens
            &&& 0 <= live.last_reported_total_tokens && 0 <= usage.total_tokens
            &&& s.codex_totals.input_tokens + usage.input_tokens <= i64::MAX
            &&& s.codex_totals.output_tokens + usage.output_tokens <= i64::MAX
            &&& s.codex_totals.total_tokens + usage.total_tokens <= i64::MAX
        }),
    ensures
        ({
            let live = s.running[update.issue_id].live_session;
            let usage = update.usage->0;
            let t = after_update(s, update).codex_totals;
            &&& t.input_tokens == s.codex_totals.input_tokens + (if usage.input_tokens
                > live.last_reported_input_tokens {
                usage.input_tokens - live.last_reported_input_tokens
            } else {
                0
            })
            &&& t.output_tokens == s.codex_totals.output_tokens + (if usage.output_tokens
                > live.last_reported_output_tokens {
                usage.output_tokens - live.last_reported_output_tokens
            } else {
                0
            })
            &&& t.total_tokens == s.codex_totals.total_tokens + (if usage.total_tokens
                > live.last_reported_total_tokens {
                usage.total_tokens - live.last_reported_total_tokens
            } else {
                0
            })
        }),
{
}

/// A report from a session that is not known changes nothing.
pub proof fn stray_report_is_ignored(s: SchedV, update: UpdateV)
    requires
        !s.running.contains_key(update.issue_id),
    ensures
        after_update(s, update) == s,
{
}

/// What is shown holds each session, each issue that waits, each claim and each issue
/// that is done, just as the scheduler has them, and the counts, settings and the
/// error.
pub proof fn everything_is_shown(shown: RuntimeState, s: SchedV, id: Seq<char>)
    requires
        shows(shown, s),
    ensures
        shown.running@.contains_key(id) == s.running.contains_key(id),
        s.running.contains_key(id) ==> shown.running@[id]@ == s.running[id],
        shown.retrying@.contains_key(id) == s.retrying.contains_key(id),
        s.retrying.contains_key(id) ==> shown.retrying@[id]@ == s.retrying[id],
        (exists|i: int| 0 <= i < shown.claimed@.len() && (#[trigger] shown.claimed@[i])@ == id)
            == s.claimed.contains(id),
        (exists|i: int| 0 <= i < shown.completed@.len() && (#[trigger] shown.completed@[i])@ == id)
            == s.completed.contains(id),
        shown.codex_totals == s.codex_totals,
        opt_json(shown.codex_rate_limits) == s.codex_rate_limits,
        opt_text(shown.last_error) == s.last_error,
        shown.poll_interval_ms == s.poll_interval_ms,
        shown.max_concurrent_agents == s.max_concurrent_agents,
{
    assert(running_views(shown.running@).contains_key(id) == shown.running@.contains_key(id));
    assert(retry_views(shown.retrying@).contains_key(id) == shown.retrying@.contains_key(id));
    let claimed = texts(shown.claimed@);
    assert forall|i: int| 0 <= i < claimed.len() implies #[trigger] claimed[i]
        == shown.claimed@[i]@ by {}
    if claimed.contains(id) {
        let i = choose|i: int| 0 <= i < claimed.len() && claimed[i] == id;
        assert(shown.claimed@[i]@ == id);
    }
    if exists|i: int| 0 <= i < shown.claimed@.len() && (#[trigger] shown.claimed@[i])@ == id {
        let i = choose|i: int| 0 <= i < shown.claimed@.len() && (#[trigger] shown.claimed@[i])@ == id;
        assert(claimed[i] == id);
        assert(claimed.contains(id));
    }
    let completed = texts(shown.completed@);
    assert forall|i: int| 0 <= i < completed.len() implies #[trigger] completed[i]
        == shown.completed@[i]@ by {}
    if completed.contains(id) {
        let i = choose|i: int| 0 <= i < completed.len() && completed[i] == id;
        assert(shown.completed@[i]@ == id);
    }
    if exists|i: int| 0 <= i < shown.completed@.len() && (#[trigger] shown.completed@[i])@ == id {
        let i = choose|i: int|
            0 <= i < shown.completed@.len() && (#[trigger] shown.completed@[i])@ == id;
        assert(completed[i] == id);
        assert(completed.contains(id));
    }
}

/// The sessions that are ended for their silence are those of which nothing was heard
/// for longer than the limit, and each is ended once.
pub proof fn only_silent_sessions_are_ended(
    s: SchedV,
    ids: Seq<Seq<char>>,
    limit_ms: i64,
    now: Timestamp,
    id: Seq<char>,
)
    requires
        stalled_ids(s, ids, limit_ms, now),
        limit_ms > 0,
    ensures
        ids.no_duplicates(),
        ids.contains(id) <==> s.running.contains_key(id) && {
            let since = match s.running[id].live_session.last_codex_timestamp {
                Some(time) => time,
                None => s.running[id].started_at,
            };
            (now.seconds - since.seconds) * 1_000_000_000 + now.nanos - since.nanos >= (limit_ms
                + 1) * 1_000_000
        },
        after_stalls(s, ids, now).running.contains_key(id) <==> s.running.contains_key(id)
            && !ids.contains(id),
{
    if s.running.contains_key(id) {
        stalled_since_the_last_report(s, id, limit_ms, now);
    }
    stalls_wait(s, ids, now, id);
}

/// The settings that the scheduler keeps are those of the workflow file as it was read
/// last, and nothing else changes with them. A file that cannot be read, or is refused,
/// leaves everything as it is but for the error, which is kept in words.
pub proof fn settings_follow_the_workflow(
    s: SchedV,
    refreshed: Result<ServiceConfig, ConfigError>,
)
    ensures
        ({
            let t = reread(s, refreshed);
            &&& t.running == s.running
            &&& t.claimed == s.claimed
            &&& t.retrying == s.retrying
            &&& t.completed == s.completed
            &&& t.codex_totals == s.codex_totals
            &&& t.codex_rate_limits == s.codex_rate_limits
            &&& match refreshed {
                Ok(config) => {
                    &&& t.poll_interval_ms == config.polling.interval_ms
                    &&& t.max_concurrent_agents == config.agent.max_concurrent_agents
                    &&& t.max_retry_backoff_ms == config.agent.max_retry_backoff_ms
                    &&& t.last_error == s.last_error
                },
                Err(e) => {
                    &&& t.poll_interval_ms == s.poll_interval_ms
                    &&& t.max_concurrent_agents == s.max_concurrent_agents
                    &&& t.max_retry_backoff_ms == s.max_retry_backoff_ms
                    &&& t.last_error == Some(e.words())
                },
            }
        }),
{
}

/// An issue whose wait is over keeps its claim while it is looked at, so that it is
/// not dispatched a second time; it waits no longer, and other issues wait on.
pub proof fn due_issue_keeps_its_claim(
    s: SchedV,
    id: Seq<char>,
    taken: Option<RetryEntry>,
    t: SchedV,
    other: Seq<char>,
)
    requires
        taken_out(s, id, taken, t),
        other != id,
    ensures
        taken is Some <==> s.retrying.contains_key(id),
        taken matches Some(entry) ==> entry@ == s.retrying[id],
        !t.retrying.contains_key(id),
        t.claimed == s.claimed,
        t.running == s.running,
        t.retrying.contains_key(other) == s.retrying.contains_key(other),
        s.retrying.contains_key(other) ==> t.retrying[other] == s.retrying[other],
{
}

/// When the scheduler stops, each worker is cancelled once and each timer is stopped
/// once, and nothing else is done.
pub proof fn stopping_leaves_nothing_behind(s: SchedV, effects: Seq<EffectV>, id: Seq<char>)
    requires
        stops_all(s, effects),
    ensures
        effects.no_duplicates(),
        effects.contains(EffectV::CancelWorker(id)) <==> s.running.contains_key(id),
        effects.contains(EffectV::AbortTimer(id)) <==> s.retrying.contains_key(id),
        forall|e: int|
            0 <= e < effects.len() ==> (#[trigger] effects[e]) is CancelWorker
                || effects[e] is AbortTimer,
{
    let (running, waiting) = choose|running: Seq<Seq<char>>, waiting: Seq<Seq<char>>|
        {
            &&& #[trigger] lists(running, s.running.dom())
            &&& #[trigger] lists(waiting, s.retrying.dom())
            &&& effects == running.map_values(|id: Seq<char>| EffectV::CancelWorker(id))
                + waiting.map_values(|id: Seq<char>| EffectV::AbortTimer(id))
        };
    let n = running.len() as int;
    assert forall|e: int| 0 <= e < effects.len() implies #[trigger] effects[e] == (if e < n {
        EffectV::CancelWorker(running[e])
    } else {
        EffectV::AbortTimer(waiting[e - n])
    }) by {}
    assert forall|d: int, e: int| 0 <= d < effects.len() && 0 <= e < effects.len() && d != e implies
        effects[d] != effects[e] by {
        if d < n && e < n {
            assert(running[d] != running[e]);
        } else if d >= n && e >= n {
            assert(waiting[d - n] != waiting[e - n]);
        }
    }
    assert(running.contains(id) <==> s.running.dom().contains(id));
    assert(waiting.contains(id) <==> s.retrying.dom().contains(id));
    if effects.contains(EffectV::CancelWorker(id)) {
        let e = choose|e: int| 0 <= e < effects.len() && effects[e] == EffectV::CancelWorker(id);
        assert(running[e] == id);
    }
    if running.contains(id) {
        let e = choose|e: int| 0 <= e < running.len() && running[e] == id;
        assert(effects[e] == EffectV::CancelWorker(id));
    }
    if effects.contains(EffectV::AbortTimer(id)) {
        let e = choose|e: int| 0 <= e < effects.len() && effects[e] == EffectV::AbortTimer(id);
        assert(waiting[e - n] == id);
    }
    if waiting.contains(id) {
        let e = choose|e: int| 0 <= e < waiting.len() && waiting[e] == id;
        assert(effects[e + n] == EffectV::AbortTimer(id));
    }
}

}
