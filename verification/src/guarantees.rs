//! What holds of the scheduler whatever happens.

use std::path::PathBuf;
use vstd::prelude::*;

use crate::agent::UpdateV;
use crate::config::ServiceConfig;
use crate::model::{CodexTotals, IssueStateV, IssueV, LiveV, RetryV, Timestamp, TokenUsage};
use crate::orchestrator::{
    absolute_usage, after_candidates, after_dispatch, after_reports, after_retry, after_stalls,
    after_update, after_worker, begun, candidate_effects, eligible, given_up, growth, live_after,
    running_in, starts, state_limit, totals_after, unclaimed, verdict, Choice, EffectV,
    RetryOutcome, SchedV, WorkerFinished,
};
use crate::text::lowercase;

verus! {

/// The larger of two numbers.
pub open spec fn larger(a: nat, b: nat) -> nat {
    if a < b {
        b
    } else {
        a
    }
}

/// Dispatching an issue that can be dispatched leaves no more issues worked on
/// than may be, in all and in its state, and changes no other state.
pub proof fn dispatch_keeps_limits(
    s: SchedV,
    issue: IssueV,
    config: ServiceConfig,
    allowed_claim: Option<Seq<char>>,
    attempt: Option<u32>,
    home: Option<PathBuf>,
    now: Timestamp,
)
    requires
        s.running.dom().finite(),
        eligible(s, issue, config, allowed_claim),
    ensures
        ({
            let t = after_dispatch(s, issue, attempt, home, now);
            &&& t.running.dom().finite()
            &&& t.running.dom().len() <= config.agent.max_concurrent_agents
            &&& running_in(t, issue.state).len() <= state_limit(config, issue.state)
            &&& forall|state: Seq<char>|
                lowercase(state) != lowercase(issue.state) ==> #[trigger] running_in(t, state)
                    == running_in(s, state)
            &&& forall|state: Seq<char>|
                lowercase(state) == lowercase(issue.state) ==> #[trigger] running_in(t, state)
                    == running_in(t, issue.state)
        }),
{
    let t = after_dispatch(s, issue, attempt, home, now);
    if starts(s, issue, home) {
        assert(t.running.dom() =~= s.running.dom().insert(issue.id));
        assert(running_in(t, issue.state) =~= running_in(s, issue.state).insert(issue.id));
        s.running.dom().lemma_len_filter(
            |id: Seq<char>| lowercase(s.running[id].issue.state) == lowercase(issue.state),
        );
    }
    assert forall|state: Seq<char>| lowercase(state) != lowercase(issue.state) implies
        #[trigger] running_in(t, state) == running_in(s, state) by {
        assert(running_in(t, state) =~= running_in(s, state));
    }
    assert forall|state: Seq<char>| lowercase(state) == lowercase(issue.state) implies
        #[trigger] running_in(t, state) == running_in(t, issue.state) by {
        assert(running_in(t, state) =~= running_in(t, issue.state));
    }
}

/// Going through the candidates never lets more issues be worked on than may be:
/// there are no more than the limit, in all and in each state, unless there were
/// already.
pub proof fn candidates_keep_limits(
    s: SchedV,
    issues: Seq<IssueV>,
    config: ServiceConfig,
    choices: Seq<Choice>,
    state: Seq<char>,
)
    requires
        s.running.dom().finite(),
    ensures
        ({
            let t = after_candidates(s, issues, config, choices);
            &&& t.running.dom().finite()
            &&& t.running.dom().len() <= larger(
                s.running.dom().len(),
                config.agent.max_concurrent_agents as nat,
            )
            &&& running_in(t, state).len() <= larger(
                running_in(s, state).len(),
                state_limit(config, state) as nat,
            )
        }),
    decreases issues.len(),
{
    if issues.len() > 0 {
        let before = after_candidates(s, issues.drop_last(), config, choices);
        let issue = issues.last();
        let choice = choices[issues.len() - 1];
        candidates_keep_limits(s, issues.drop_last(), config, choices, state);
        if eligible(before, issue, config, None) {
            dispatch_keeps_limits(before, issue, config, None, None, choice.home, choice.now);
        }
    }
}

/// Looking at an issue whose wait is over never lets more issues be worked on
/// than may be, in all and in each state.
pub proof fn retry_keeps_limits(
    s: SchedV,
    entry: RetryV,
    outcome: RetryOutcome,
    home: Option<PathBuf>,
    now: Timestamp,
    state: Seq<char>,
)
    requires
        s.running.dom().finite(),
    ensures
        ({
            let t = after_retry(s, entry, outcome, home, now);
            let (limit, limit_in_state) = match outcome {
                RetryOutcome::Fetched { candidates, config } => (
                    config.agent.max_concurrent_agents as nat,
                    state_limit(config, state) as nat,
                ),
                _ => (0, 0),
            };
            &&& t.running.dom().finite()
            &&& t.running.dom().len() <= larger(s.running.dom().len(), limit)
            &&& running_in(t, state).len() <= larger(running_in(s, state).len(), limit_in_state)
        }),
{
    let id = entry.issue_id;
    let t = after_retry(s, entry, outcome, home, now);
    if t.running == s.running {
        assert(running_in(t, state) =~= running_in(s, state));
    }
    if let RetryOutcome::Fetched { candidates, config } = outcome {
        if let Some(issue) = outcome.found(id) {
            if eligible(s, issue, config, Some(id)) {
                let free = unclaimed(s, id);
                assert(running_in(free, issue.state) =~= running_in(s, issue.state));
                assert(running_in(free, state) =~= running_in(s, state));
                dispatch_keeps_limits(
                    free,
                    issue,
                    config,
                    Some(id),
                    Some(entry.attempt),
                    home,
                    now,
                );
            }
        }
    }
}

/// Every worker that is started works on an issue that nobody had claimed, and
/// no issue gets two.
pub proof fn candidates_start_once(
    s: SchedV,
    issues: Seq<IssueV>,
    config: ServiceConfig,
    choices: Seq<Choice>,
)
    ensures
        ({
            let t = after_candidates(s, issues, config, choices);
            let effects = candidate_effects(s, issues, config, choices);
            &&& forall|i: int|
                0 <= i < effects.len() ==> {
                    &&& (#[trigger] effects[i]) is StartWorker
                    &&& !s.claimed.contains(effects[i]->StartWorker_issue.id)
                    &&& t.claimed.contains(effects[i]->StartWorker_issue.id)
                    &&& t.running.contains_key(effects[i]->StartWorker_issue.id)
                }
            &&& forall|i: int, j: int|
                0 <= i < j < effects.len() ==> (#[trigger] effects[i])->StartWorker_issue.id != (
                #[trigger] effects[j])->StartWorker_issue.id
            &&& s.claimed.subset_of(t.claimed)
            &&& s.running.dom().subset_of(t.running.dom())
        }),
    decreases issues.len(),
{
    if issues.len() > 0 {
        let before = after_candidates(s, issues.drop_last(), config, choices);
        let done = candidate_effects(s, issues.drop_last(), config, choices);
        let issue = issues.last();
        let choice = choices[issues.len() - 1];
        candidates_start_once(s, issues.drop_last(), config, choices);
        let t = after_candidates(s, issues, config, choices);
        let effects = candidate_effects(s, issues, config, choices);
        if eligible(before, issue, config, None) && starts(before, issue, choice.home) {
            let last = EffectV::StartWorker { issue, attempt: None, started_at: choice.now };
            assert(effects =~= done.push(last));
            assert(t == begun(before, issue, None, choice.home->0, choice.now));
            assert forall|i: int| 0 <= i < effects.len() implies {
                &&& (#[trigger] effects[i]) is StartWorker
                &&& !s.claimed.contains(effects[i]->StartWorker_issue.id)
                &&& t.claimed.contains(effects[i]->StartWorker_issue.id)
                &&& t.running.contains_key(effects[i]->StartWorker_issue.id)
            } by {
                if i < done.len() {
                    assert(effects[i] == done[i]);
                } else {
                    assert(effects[i] == last);
                }
            }
            assert forall|i: int, j: int| 0 <= i < j < effects.len() implies (
            #[trigger] effects[i])->StartWorker_issue.id != (
            #[trigger] effects[j])->StartWorker_issue.id by {
                assert(effects[i] == done[i]);
                if j < done.len() {
                    assert(effects[j] == done[j]);
                } else {
                    assert(effects[j] == last);
                    assert(before.claimed.contains(done[i]->StartWorker_issue.id));
                }
            }
        } else {
            assert(effects =~= done);
            assert(t == before);
        }
    }
}

proof fn contains_last(ids: Seq<Seq<char>>, id: Seq<char>)
    requires
        ids.len() > 0,
    ensures
        ids.contains(id) <==> ids.drop_last().contains(id) || ids.last() == id,
{
    let rest = ids.drop_last();
    if ids.contains(id) {
        let x = choose|x: int| 0 <= x < ids.len() && ids[x] == id;
        if x < rest.len() {
            assert(rest[x] == id);
        }
    }
    if rest.contains(id) {
        let x = choose|x: int| 0 <= x < rest.len() && rest[x] == id;
        assert(ids[x] == id);
    }
    if ids.last() == id {
        assert(ids[ids.len() - 1] == id);
    }
}

/// An issue is worked on after the tracker reported just where it was before and
/// the tracker either said nothing of it or still has it active.
pub proof fn reports_end_the_rest(
    s: SchedV,
    ids: Seq<Seq<char>>,
    states: Map<Seq<char>, IssueStateV>,
    config: ServiceConfig,
    id: Seq<char>,
)
    ensures
        after_reports(s, ids, states, config).running.contains_key(id) <==> s.running.contains_key(
            id,
        ) && (ids.contains(id) && states.contains_key(id) ==> verdict(
            states[id].state,
            config,
        ) is Keep),
    decreases ids.len(),
{
    if ids.len() > 0 {
        let rest = ids.drop_last();
        reports_end_the_rest(s, rest, states, config, id);
        contains_last(ids, id);
    }
}

/// An issue is worked on after the stalled sessions were ended just where it was
/// before and its session is not among them; every other waits.
pub proof fn stalls_wait(s: SchedV, ids: Seq<Seq<char>>, now: Timestamp, id: Seq<char>)
    ensures
        ({
            let t = after_stalls(s, ids, now);
            &&& t.running.contains_key(id) <==> s.running.contains_key(id) && !ids.contains(id)
            &&& s.running.contains_key(id) && ids.contains(id) ==> t.retrying.contains_key(id)
            &&& s.retrying.contains_key(id) ==> t.retrying.contains_key(id)
        }),
    decreases ids.len(),
{
    if ids.len() > 0 {
        let rest = ids.drop_last();
        stalls_wait(s, rest, now, id);
        contains_last(ids, id);
    }
}

/// A worker that ends well or badly leaves its issue waiting, one that was
/// cancelled leaves it free; other issues are not touched.
pub proof fn worker_end_is_local(
    s: SchedV,
    finished: WorkerFinished,
    now: Timestamp,
    other: Seq<char>,
)
    requires
        s.running.contains_key(finished.issue_id@),
        other != finished.issue_id@,
    ensures
        ({
            let id = finished.issue_id@;
            let t = after_worker(s, finished, now);
            &&& !t.running.contains_key(id)
            &&& !(finished.status is Cancelled) ==> t.retrying.contains_key(id)
                && t.claimed.contains(id)
            &&& finished.status is Cancelled ==> !t.claimed.contains(id)
            &&& t.running.contains_key(other) == s.running.contains_key(other)
            &&& s.running.contains_key(other) ==> t.running[other] == s.running[other]
            &&& t.retrying.contains_key(other) == s.retrying.contains_key(other)
            &&& s.retrying.contains_key(other) ==> t.retrying[other] == s.retrying[other]
            &&& t.claimed.contains(other) == s.claimed.contains(other)
            &&& s.completed.subset_of(t.completed)
        }),
{
}

/// An issue that is given up can be claimed again.
pub proof fn given_up_is_free(s: SchedV, id: Seq<char>)
    requires
        s.running.contains_key(id),
    ensures
        !given_up(s, id).claimed.contains(id),
        !given_up(s, id).running.contains_key(id),
        !given_up(s, id).retrying.contains_key(id),
{
}

/// A session that reports the same counts again adds nothing to the counts of
/// all sessions.
pub proof fn same_report_adds_nothing(totals: CodexTotals, live: LiveV, update: UpdateV)
    ensures
        totals_after(totals, live_after(live, update), update) == totals,
{
}

/// The counts of all sessions never go down, as long as the numbers fit.
pub proof fn totals_never_fall(totals: CodexTotals, live: LiveV, update: UpdateV)
    requires
        absolute_usage(update) matches Some(usage) ==> {
            &&& i64::MIN <= usage.input_tokens - live.last_reported_input_tokens <= i64::MAX
            &&& i64::MIN <= usage.output_tokens - live.last_reported_output_tokens <= i64::MAX
            &&& i64::MIN <= usage.total_tokens - live.last_reported_total_tokens <= i64::MAX
            &&& totals.input_tokens + growth(
                usage.input_tokens,
                live.last_reported_input_tokens,
            ) <= i64::MAX
            &&& totals.output_tokens + growth(
                usage.output_tokens,
                live.last_reported_output_tokens,
            ) <= i64::MAX
            &&& totals.total_tokens + growth(
                usage.total_tokens,
                live.last_reported_total_tokens,
            ) <= i64::MAX
        },
    ensures
        ({
            let t = totals_after(totals, live, update);
            &&& totals.input_tokens <= t.input_tokens
            &&& totals.output_tokens <= t.output_tokens
            &&& totals.total_tokens <= t.total_tokens
        }),
{
}

/// The state after several updates, one after the other.
pub open spec fn after_updates(s: SchedV, updates: Seq<UpdateV>) -> SchedV
    decreases updates.len(),
{
    if updates.len() == 0 {
        s
    } else {
        after_update(after_updates(s, updates.drop_last()), updates.last())
    }
}

/// The counts that a session reported last.
pub open spec fn reported(live: LiveV) -> TokenUsage {
    TokenUsage {
        input_tokens: live.last_reported_input_tokens,
        output_tokens: live.last_reported_output_tokens,
        total_tokens: live.last_reported_total_tokens,
        absolute: true,
    }
}

/// The counts that the last of the updates with counts reports, or those from
/// before.
pub open spec fn last_report(before: TokenUsage, updates: Seq<UpdateV>) -> TokenUsage
    decreases updates.len(),
{
    if updates.len() == 0 {
        before
    } else {
        match absolute_usage(updates.last()) {
            Some(usage) => usage,
            None => last_report(before, updates.drop_last()),
        }
    }
}

/// None of the counts is larger than its counterpart.
pub open spec fn at_most(a: TokenUsage, b: TokenUsage) -> bool {
    &&& a.input_tokens <= b.input_tokens
    &&& a.output_tokens <= b.output_tokens
    &&& a.total_tokens <= b.total_tokens
}

/// The counts that the updates report never go down.
pub open spec fn rising(before: TokenUsage, updates: Seq<UpdateV>) -> bool
    decreases updates.len(),
{
    updates.len() == 0 || {
        &&& rising(before, updates.drop_last())
        &&& at_most(last_report(before, updates.drop_last()), last_report(before, updates))
    }
}

/// The counts of all sessions with what lies between two reports of one of them.
pub open spec fn grown(
    totals: CodexTotals,
    before: TokenUsage,
    now: TokenUsage,
    after: CodexTotals,
) -> bool {
    &&& after.input_tokens == totals.input_tokens + (now.input_tokens - before.input_tokens)
    &&& after.output_tokens == totals.output_tokens + (now.output_tokens - before.output_tokens)
    &&& after.total_tokens == totals.total_tokens + (now.total_tokens - before.total_tokens)
}

/// A series of reports of one session, none of which goes down, lets the counts
/// of all sessions grow by exactly what the last one reports beyond what was
/// reported before: for a session that had reported nothing, by the last report
/// and never by the sum of them. The last update once more adds nothing. The sums
/// must fit into 64 bits.
pub proof fn totals_follow_the_last_report(s: SchedV, id: Seq<char>, updates: Seq<UpdateV>)
    requires
        s.running.contains_key(id),
        forall|i: int| 0 <= i < updates.len() ==> (#[trigger] updates[i]).issue_id == id,
        ({
            let before = reported(s.running[id].live_session);
            let last = last_report(before, updates);
            &&& 0 <= before.input_tokens && 0 <= before.output_tokens && 0 <= before.total_tokens
            &&& rising(before, updates)
            &&& s.codex_totals.input_tokens + (last.input_tokens - before.input_tokens) <= i64::MAX
            &&& s.codex_totals.output_tokens + (last.output_tokens - before.output_tokens)
                <= i64::MAX
            &&& s.codex_totals.total_tokens + (last.total_tokens - before.total_tokens) <= i64::MAX
        }),
    ensures
        ({
            let before = reported(s.running[id].live_session);
            let last = last_report(before, updates);
            let t = after_updates(s, updates);
            &&& t.running.contains_key(id)
            &&& at_most(before, last)
            &&& reported(t.running[id].live_session) == last
            &&& grown(s.codex_totals, before, last, t.codex_totals)
            &&& updates.len() > 0 ==> after_update(t, updates.last()).codex_totals
                == t.codex_totals
        }),
    decreases updates.len(),
{
    if updates.len() > 0 {
        let front = updates.drop_last();
        let update = updates.last();
        assert(update.issue_id == id);
        assert forall|i: int| 0 <= i < front.len() implies (#[trigger] front[i]).issue_id
            == id by {
            assert(updates[i].issue_id == id);
        }
        totals_follow_the_last_report(s, id, front);
        let t = after_updates(s, front);
        same_report_adds_nothing(
            totals_after(t.codex_totals, t.running[id].live_session, update),
            t.running[id].live_session,
            update,
        );
    }
}

/// An update touches nothing but the session that it is from and the counts.
pub proof fn update_is_local(s: SchedV, update: UpdateV, other: Seq<char>)
    requires
        other != update.issue_id,
    ensures
        ({
            let t = after_update(s, update);
            &&& t.running.dom() == s.running.dom()
            &&& s.running.contains_key(other) ==> t.running[other] == s.running[other]
            &&& t.claimed == s.claimed
            &&& t.retrying == s.retrying
            &&& t.completed == s.completed
        }),
{
    assert(after_update(s, update).running.dom() =~= s.running.dom());
}

}
