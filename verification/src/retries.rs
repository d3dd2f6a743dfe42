//! What holds of the attempts on an issue: what a session leaves behind when it
//! ends, how long an issue waits, and what becomes of it when its wait is over.

use std::path::PathBuf;
use vstd::arithmetic::power2::pow2;
use vstd::prelude::*;

use crate::model::{plus_millis, IssueV, RetryV, Timestamp};
use crate::orchestrator::{
    after_retry, after_worker, eligible, found_has_id, retry_delay, retry_effects, terminated,
    termination_effects, worker_effects, ActionV, EffectV, RetryOutcome, SchedV, WorkerFinished,
    WorkerStatus,
};
use crate::ranking::{in_rank_order, rank_order_keeps_issues};
use crate::text::lowercase;

verus! {

broadcast use vstd::string::group_string_axioms;

/// The wait before an attempt is ten seconds, doubled for each attempt after the
/// first, but no more than thirty-one times, and never longer than the limit.
pub proof fn waits_double_up_to_the_limit(attempt: u32, limit: u64)
    ensures
        attempt <= 1 ==> retry_delay(attempt, limit) == (if limit < 10_000 {
            limit as int
        } else {
            10_000
        }),
        1 <= attempt <= 32 ==> ({
            let full = (10_000 * pow2((attempt - 1) as nat)) as int;
            retry_delay(attempt, limit) == (if full < limit {
                full
            } else {
                limit as int
            })
        }),
        attempt > 32 ==> retry_delay(attempt, limit) == retry_delay(32, limit),
        1 <= attempt < 32 && 2 * retry_delay(attempt, limit) <= limit ==> retry_delay(
            (attempt + 1) as u32,
            limit,
        ) == 2 * retry_delay(attempt, limit),
        1 <= attempt < 32 && 2 * retry_delay(attempt, limit) > limit ==> retry_delay(
            (attempt + 1) as u32,
            limit,
        ) == limit,
        0 <= retry_delay(attempt, limit) <= limit,
{
    vstd::arithmetic::power2::lemma2_to64();
    if 1 <= attempt <= 32 {
        vstd::arithmetic::power2::lemma_pow2_pos((attempt - 1) as nat);
    }
    if 1 <= attempt < 32 {
        vstd::arithmetic::power2::lemma_pow2_unfold(attempt as nat);
        vstd::arithmetic::power2::lemma_pow2_pos(attempt as nat);
    }
}

/// What a session leaves behind that ended by itself. After a good end the issue is
/// done for now and looked at again in a second, as a first attempt. After a bad one
/// it waits for the attempt that follows the one of the session, longer each time,
/// with the error. After a cancelled one it is free. Whatever the end, the session
/// is over and nothing is cleaned up.
pub proof fn ended_session_leaves(s: SchedV, finished: WorkerFinished, now: Timestamp)
    requires
        s.running.contains_key(finished.issue_id@),
        !s.retrying.contains_key(finished.issue_id@),
    ensures
        ({
            let id = finished.issue_id@;
            let t = after_worker(s, finished, now);
            let effects = worker_effects(s, finished);
            let limit: u64 = if s.max_retry_backoff_ms == 0 {
                300_000
            } else {
                s.max_retry_backoff_ms
            };
            let entry = t.retrying[id];
            &&& t.running == s.running.remove(id)
            &&& effects.len() > 0 && effects[0] == (EffectV::SessionEnded {
                ended: finished.started_at,
            })
            &&& match finished.status {
                WorkerStatus::Succeeded => {
                    &&& t.retrying.dom() == s.retrying.dom().insert(id)
                    &&& t.claimed == s.claimed.insert(id)
                    &&& t.completed == s.completed.insert(id)
                    &&& entry.issue_id == id
                    &&& entry.identifier == finished.issue_identifier@
                    &&& entry.attempt == 1
                    &&& entry.error is None
                    &&& entry.due_at == plus_millis(now, 1000)
                    &&& entry.due_at_ms == (now.seconds * 1000 + now.nanos / 1_000_000
                        + 1000) as u128
                    &&& effects.len() == 2
                    &&& effects[1] == (EffectV::StartTimer { issue_id: id, delay_ms: 1000 })
                },
                WorkerStatus::Failed(error) => {
                    let attempt: u32 = match finished.attempt {
                        None => 1,
                        Some(n) => if n == u32::MAX {
                            0
                        } else {
                            (n + 1) as u32
                        },
                    };
                    let delay = retry_delay(attempt, limit);
                    &&& t.retrying.dom() == s.retrying.dom().insert(id)
                    &&& t.claimed == s.claimed.insert(id)
                    &&& t.completed == s.completed
                    &&& entry.issue_id == id
                    &&& entry.identifier == finished.issue_identifier@
                    &&& entry.attempt == attempt
                    &&& entry.error == Some(error@)
                    &&& entry.due_at == plus_millis(now, delay)
                    &&& entry.due_at_ms == (now.seconds * 1000 + now.nanos / 1_000_000
                        + delay) as u128
                    &&& effects.len() == 2
                    &&& effects[1] matches EffectV::StartTimer { issue_id, delay_ms } && issue_id
                        == id && delay_ms == delay
                },
                WorkerStatus::Cancelled => {
                    &&& t.retrying == s.retrying
                    &&& t.claimed == s.claimed.remove(id)
                    &&& t.completed == s.completed
                    &&& effects.len() == 1
                },
            }
            &&& forall|other: Seq<char>|
                other != id ==> t.retrying.contains_key(other) == s.retrying.contains_key(other)
                    && #[trigger] t.retrying[other] == s.retrying[other]
            &&& t.codex_totals == s.codex_totals
            &&& t.codex_rate_limits == s.codex_rate_limits
            &&& t.last_error == s.last_error
            &&& t.max_retry_backoff_ms == s.max_retry_backoff_ms
            &&& t.max_concurrent_agents == s.max_concurrent_agents
            &&& t.poll_interval_ms == s.poll_interval_ms
        }),
{
    let id = finished.issue_id@;
    let t = after_worker(s, finished, now);
    let limit: u64 = if s.max_retry_backoff_ms == 0 {
        300_000
    } else {
        s.max_retry_backoff_ms
    };
    assert(limit == s.backoff_limit());
    if let WorkerStatus::Failed(error) = finished.status {
        let attempt: u32 = match finished.attempt {
            None => 1,
            Some(n) => if n == u32::MAX {
                0
            } else {
                (n + 1) as u32
            },
        };
        waits_double_up_to_the_limit(attempt, limit);
    }
    if !(finished.status is Cancelled) {
        assert(t.retrying.dom() =~= s.retrying.dom().insert(id));
    }
}

/// The end of a worker that is not known any more changes nothing and asks for
/// nothing.
pub proof fn stray_worker_is_ignored(s: SchedV, finished: WorkerFinished, now: Timestamp)
    requires
        !s.running.contains_key(finished.issue_id@),
    ensures
        after_worker(s, finished, now) == s,
        worker_effects(s, finished).len() == 0,
{
}

/// What a session leaves behind that is ended from outside: its worker is stopped
/// and its time counted. To be tried again, its issue waits for the attempt that
/// follows the one of the session, under the identifier of the issue; otherwise it
/// is free, and the workspace of that identifier is removed where that is asked
/// for, and only there.
pub proof fn terminated_session_leaves(s: SchedV, id: Seq<char>, action: ActionV, now: Timestamp)
    requires
        s.running.contains_key(id),
        !s.retrying.contains_key(id),
    ensures
        ({
            let session = s.running[id];
            let t = terminated(s, id, action, now);
            let effects = termination_effects(s, id, action);
            let limit: u64 = if s.max_retry_backoff_ms == 0 {
                300_000
            } else {
                s.max_retry_backoff_ms
            };
            &&& t.running == s.running.remove(id)
            &&& t.completed == s.completed
            &&& t.codex_totals == s.codex_totals
            &&& t.codex_rate_limits == s.codex_rate_limits
            &&& t.last_error == s.last_error
            &&& effects.len() >= 2
            &&& effects[0] == EffectV::CancelWorker(id)
            &&& effects[1] == (EffectV::SessionEnded { ended: session.started_at })
            &&& match action {
                ActionV::Retry(error) => {
                    let attempt: u32 = match session.attempt {
                        None => 1,
                        Some(n) => if n == u32::MAX {
                            0
                        } else {
                            (n + 1) as u32
                        },
                    };
                    let delay = retry_delay(attempt, limit);
                    &&& t.claimed == s.claimed.insert(id)
                    &&& t.retrying.dom() == s.retrying.dom().insert(id)
                    &&& t.retrying[id].issue_id == id
                    &&& t.retrying[id].identifier == session.issue_identifier
                    &&& t.retrying[id].attempt == attempt
                    &&& t.retrying[id].error == Some(error)
                    &&& t.retrying[id].due_at == plus_millis(now, delay)
                    &&& t.retrying[id].due_at_ms == (now.seconds * 1000 + now.nanos / 1_000_000
                        + delay) as u128
                    &&& effects.len() == 3
                    &&& effects[2] matches EffectV::StartTimer { issue_id, delay_ms } && issue_id
                        == id && delay_ms == delay
                },
                ActionV::ReleaseAndCleanup => {
                    &&& t.claimed == s.claimed.remove(id)
                    &&& t.retrying == s.retrying
                    &&& effects.len() == 3
                    &&& effects[2] == (EffectV::RemoveWorkspace {
                        identifier: session.issue_identifier,
                    })
                },
                ActionV::ReleaseOnly => {
                    &&& t.claimed == s.claimed.remove(id)
                    &&& t.retrying == s.retrying
                    &&& effects.len() == 2
                },
            }
        }),
{
    let session = s.running[id];
    let t = terminated(s, id, action, now);
    let limit: u64 = if s.max_retry_backoff_ms == 0 {
        300_000
    } else {
        s.max_retry_backoff_ms
    };
    assert(limit == s.backoff_limit());
    match action {
        ActionV::Retry(error) => {
            let attempt: u32 = match session.attempt {
                None => 1,
                Some(n) => if n == u32::MAX {
                    0
                } else {
                    (n + 1) as u32
                },
            };
            waits_double_up_to_the_limit(attempt, limit);
            assert(t.retrying.dom() =~= s.retrying.dom().insert(id));
        },
        _ => {
            assert(t.retrying =~= s.retrying);
        },
    }
}

/// A session that is not there cannot be ended.
pub proof fn missing_session_is_not_terminated(
    s: SchedV,
    id: Seq<char>,
    action: ActionV,
    now: Timestamp,
)
    requires
        !s.running.contains_key(id),
    ensures
        terminated(s, id, action, now) == s,
        termination_effects(s, id, action).len() == 0,
{
}

/// The issue that is found is one of the candidates, and there is one just where a
/// candidate has the id.
pub proof fn due_issue_is_one_of_the_candidates(issues: Seq<IssueV>, id: Seq<char>)
    ensures
        match crate::orchestrator::first_with_id(issues, id) {
            Some(issue) => issue.id == id && issues.contains(issue),
            None => forall|i: int| 0 <= i < issues.len() ==> (#[trigger] issues[i]).id != id,
        },
    decreases issues.len(),
{
    if issues.len() > 0 && issues[0].id != id {
        let rest = issues.drop_first();
        due_issue_is_one_of_the_candidates(rest, id);
        match crate::orchestrator::first_with_id(rest, id) {
            Some(issue) => {
                let i = choose|i: int| 0 <= i < rest.len() && rest[i] == issue;
                assert(issues[i + 1] == issue);
            },
            None => {
                assert forall|i: int| 0 <= i < issues.len() implies (#[trigger] issues[i]).id
                    != id by {
                    if i > 0 {
                        assert(rest[i - 1] == issues[i]);
                    }
                }
            },
        }
    } else if issues.len() > 0 {
        assert(issues[0].id == id);
    }
}

/// A worker that is started on an issue whose wait is over takes up the attempt for
/// which the issue waited, and so does the session that is recorded; it works on the
/// issue with that id as the tracker has it now, from now on.
pub proof fn due_issue_keeps_its_attempt(
    s: SchedV,
    entry: RetryV,
    outcome: RetryOutcome,
    home: Option<PathBuf>,
    now: Timestamp,
    e: int,
)
    requires
        !s.retrying.contains_key(entry.issue_id),
        0 <= e < retry_effects(s, entry, outcome, home, now).len(),
        retry_effects(s, entry, outcome, home, now)[e] is StartWorker,
    ensures
        ({
            let t = after_retry(s, entry, outcome, home, now);
            let effects = retry_effects(s, entry, outcome, home, now);
            &&& effects.len() == 1
            &&& effects[e] matches EffectV::StartWorker { issue, attempt, started_at } && {
                &&& attempt == Some(entry.attempt)
                &&& started_at == now
                &&& issue.id == entry.issue_id
                &&& outcome matches RetryOutcome::Fetched { candidates, config } && {
                    &&& exists|i: int|
                        0 <= i < candidates@.len() && (#[trigger] candidates@[i])@ == issue
                    &&& eligible(s, issue, config, Some(entry.issue_id))
                }
                &&& t.running.contains_key(issue.id)
                &&& t.running[issue.id].attempt == Some(entry.attempt)
                &&& t.running[issue.id].issue == issue
                &&& t.running[issue.id].issue_identifier == issue.identifier
                &&& t.running[issue.id].started_at == now
                &&& Some(t.running[issue.id].workspace_path) == home
                &&& t.claimed.contains(issue.id)
                &&& !t.retrying.contains_key(issue.id)
            }
        }),
{
    let id = entry.issue_id;
    if let RetryOutcome::Fetched { candidates, config } = outcome {
        let views = crate::model::issue_views(candidates@);
        let ordered = in_rank_order(views);
        found_has_id(ordered, id);
        due_issue_is_one_of_the_candidates(ordered, id);
        rank_order_keeps_issues(views);
        if let Some(issue) = outcome.found(id) {
            ordered.to_multiset_ensures();
            views.to_multiset_ensures();
            assert(ordered.to_multiset().count(issue) > 0);
            assert(views.contains(issue));
            let i = choose|i: int| 0 <= i < views.len() && views[i] == issue;
            assert(candidates@[i]@ == issue);
        }
    }
}

/// What becomes of an issue whose wait is over when no worker is started on it. It
/// waits on for the same attempt, under the same identifier, where nothing could be
/// learned or there is no room: for a second, or for its full wait where the tracker
/// did not answer. Otherwise nobody has it any more.
pub proof fn due_issue_waits_on_or_is_let_go(
    s: SchedV,
    entry: RetryV,
    outcome: RetryOutcome,
    home: Option<PathBuf>,
    now: Timestamp,
)
    requires
        !s.retrying.contains_key(entry.issue_id),
        !s.running.contains_key(entry.issue_id),
    ensures
        ({
            let id = entry.issue_id;
            let t = after_retry(s, entry, outcome, home, now);
            let effects = retry_effects(s, entry, outcome, home, now);
            let limit: u64 = if s.max_retry_backoff_ms == 0 {
                300_000
            } else {
                s.max_retry_backoff_ms
            };
            &&& t.retrying.contains_key(id) ==> {
                let delay = if outcome is Unfetched {
                    retry_delay(entry.attempt, limit)
                } else {
                    1000
                };
                &&& t.running == s.running
                &&& t.claimed == s.claimed.insert(id)
                &&& t.retrying[id].issue_id == id
                &&& t.retrying[id].identifier == entry.identifier
                &&& t.retrying[id].attempt == entry.attempt
                &&& t.retrying[id].error == Some(
                    match outcome {
                        RetryOutcome::Unconfigured(e) => e.words(),
                        RetryOutcome::Unfetched(e) => e@.words(),
                        RetryOutcome::Fetched { .. } => "no available orchestrator slots"@,
                    },
                )
                &&& t.retrying[id].due_at == plus_millis(now, delay)
                &&& t.retrying[id].due_at_ms == (now.seconds * 1000 + now.nanos / 1_000_000
                    + delay) as u128
                &&& effects.len() == 1
                &&& effects[0] matches EffectV::StartTimer { issue_id, delay_ms } && issue_id == id
                    && delay_ms == delay
            }
            &&& !t.retrying.contains_key(id) && !t.running.contains_key(id) ==> {
                &&& t.running == s.running
                &&& t.claimed == s.claimed.remove(id)
                &&& effects.len() == 0
            }
            &&& t.completed == s.completed
            &&& t.codex_totals == s.codex_totals
            &&& t.last_error == s.last_error
            &&& forall|other: Seq<char>|
                other != id ==> t.retrying.contains_key(other) == s.retrying.contains_key(other)
                    && #[trigger] t.retrying[other] == s.retrying[other]
            &&& match outcome {
                RetryOutcome::Fetched { candidates, config } => {
                    &&& (forall|i: int|
                        0 <= i < candidates@.len() ==> (#[trigger] candidates@[i]).id@ != id)
                        ==> !t.claimed.contains(id)
                    &&& t.retrying.contains_key(id) ==> exists|i: int|
                        {
                            &&& 0 <= i < candidates@.len()
                            &&& (#[trigger] candidates@[i]).id@ == id
                            &&& s.running.dom().len() >= config.agent.max_concurrent_agents
                                || s.running.dom().filter(
                                |other: Seq<char>|
                                    lowercase(s.running[other].issue.state) == lowercase(
                                        candidates@[i].state@,
                                    ),
                            ).len() >= (if config.agent.max_concurrent_agents_by_state@.contains_key(
                                lowercase(candidates@[i].state@),
                            ) {
                                config.agent.max_concurrent_agents_by_state@[lowercase(
                                    candidates@[i].state@,
                                )]
                            } else {
                                config.agent.max_concurrent_agents
                            })
                        }
                },
                _ => t.retrying.contains_key(id),
            }
        }),
{
    let id = entry.issue_id;
    let t = after_retry(s, entry, outcome, home, now);
    let limit: u64 = if s.max_retry_backoff_ms == 0 {
        300_000
    } else {
        s.max_retry_backoff_ms
    };
    assert(limit == s.backoff_limit());
    waits_double_up_to_the_limit(entry.attempt, limit);
    if let RetryOutcome::Fetched { candidates, config } = outcome {
        let views = crate::model::issue_views(candidates@);
        let ordered = in_rank_order(views);
        found_has_id(ordered, id);
        due_issue_is_one_of_the_candidates(ordered, id);
        rank_order_keeps_issues(views);
        if let Some(issue) = outcome.found(id) {
            ordered.to_multiset_ensures();
            views.to_multiset_ensures();
            assert(ordered.to_multiset().count(issue) > 0);
            assert(views.contains(issue));
            let i = choose|i: int| 0 <= i < views.len() && views[i] == issue;
            assert(candidates@[i]@ == issue);
            assert(candidates@[i].id@ == id);
        }
    }
}

/// One failed try of an issue: when it was looked at, what came of that, and how the
/// worker that was started on it ended.
pub struct FailedTry {
    /// The scheduler when the wait was over.
    pub due: SchedV,
    pub outcome: RetryOutcome,
    pub home: Option<PathBuf>,
    pub looked_at: Timestamp,
    /// The scheduler when the worker ended.
    pub busy: SchedV,
    pub finished: WorkerFinished,
    pub ended_at: Timestamp,
}

/// The tries follow each other: the first worker was started without an attempt, as
/// every candidate is; each later one was started on the wait that the one before it
/// left; each reports the attempt that it was started with; and each failed.
pub open spec fn fails_in_a_row(id: Seq<char>, tries: Seq<FailedTry>, waits: Seq<RetryV>) -> bool {
    &&& tries.len() == waits.len()
    &&& forall|k: int|
        #![trigger tries[k]]
        0 <= k < tries.len() ==> {
            &&& tries[k].busy.running.contains_key(id)
            &&& !tries[k].busy.retrying.contains_key(id)
            &&& tries[k].finished.issue_id@ == id
            &&& tries[k].finished.status is Failed
            &&& waits[k] == after_worker(
                tries[k].busy,
                tries[k].finished,
                tries[k].ended_at,
            ).retrying[id]
            &&& k == 0 ==> tries[k].finished.attempt is None
            &&& k > 0 ==> {
                let effects = retry_effects(
                    tries[k].due,
                    waits[k - 1],
                    tries[k].outcome,
                    tries[k].home,
                    tries[k].looked_at,
                );
                &&& !tries[k].due.retrying.contains_key(id)
                &&& effects.len() == 1
                &&& effects[0] matches EffectV::StartWorker { attempt, .. } && attempt
                    == tries[k].finished.attempt
            }
        }
}

/// An issue that fails again and again waits for its first attempt, its second, its
/// third and so on, and each wait is twice as long as the one before it, up to the
/// limit.
pub proof fn failures_count_attempts(
    id: Seq<char>,
    tries: Seq<FailedTry>,
    waits: Seq<RetryV>,
    k: int,
)
    requires
        fails_in_a_row(id, tries, waits),
        0 <= k < tries.len(),
        k < u32::MAX,
    ensures
        waits[k].issue_id == id,
        waits[k].attempt == k + 1,
        ({
            let limit: u64 = if tries[k].busy.max_retry_backoff_ms == 0 {
                300_000
            } else {
                tries[k].busy.max_retry_backoff_ms
            };
            let doublings: nat = if k < 31 {
                k as nat
            } else {
                31
            };
            let doubled = (10_000 * pow2(doublings)) as int;
            let ended = tries[k].ended_at;
            waits[k].due_at_ms == (ended.seconds * 1000 + ended.nanos / 1_000_000 + if doubled
                < limit {
                doubled
            } else {
                limit as int
            }) as u128
        }),
    decreases k,
{
    let now = tries[k];
    ended_session_leaves(now.busy, now.finished, now.ended_at);
    let limit: u64 = if now.busy.max_retry_backoff_ms == 0 {
        300_000
    } else {
        now.busy.max_retry_backoff_ms
    };
    if k > 0 {
        failures_count_attempts(id, tries, waits, k - 1);
        due_issue_keeps_its_attempt(
            now.due,
            waits[k - 1],
            now.outcome,
            now.home,
            now.looked_at,
            0,
        );
    }
    waits_double_up_to_the_limit((k + 1) as u32, limit);
    waits_double_up_to_the_limit(32, limit);
}

}
