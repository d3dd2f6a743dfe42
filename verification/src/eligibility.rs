//! What holds of the issues that are dispatched: which may be, which are, and in
//! what order.

use std::path::PathBuf;
use vstd::prelude::*;

use crate::config::ServiceConfig;
use crate::model::{issue_views, BlockerV, Issue, IssueV, Timestamp};
use crate::orchestrator::{
    after_candidates, after_dispatch, candidate_effects, choices_fit, dispatch_effects, dispatches,
    eligible, takes_candidates, Choice, EffectV, SchedV,
};
use crate::ranking::{in_rank_order, rank_order_is_ranked, urgent_issues_come_first};
use crate::text::{blank, blank_is_white_space, lowercase, texts, white_space};
use crate::tracker::TrackerError;

verus! {

broadcast use vstd::string::group_string_axioms;

/// An issue that is found eligible has an id, an identifier, a title and a state
/// with more than white space in them; its state is one of the active ones and
/// none of the terminal ones, without regard to case; it is not worked on, and
/// nobody has claimed it but the one who may; and there is room for it, in all and
/// in its state.
pub proof fn eligible_issue_is_ready(
    s: SchedV,
    issue: IssueV,
    config: ServiceConfig,
    allowed_claim: Option<Seq<char>>,
)
    requires
        eligible(s, issue, config, allowed_claim),
    ensures
        exists|i: int| 0 <= i < issue.id.len() && !white_space(#[trigger] issue.id[i]),
        exists|i: int|
            0 <= i < issue.identifier.len() && !white_space(#[trigger] issue.identifier[i]),
        exists|i: int| 0 <= i < issue.title.len() && !white_space(#[trigger] issue.title[i]),
        exists|i: int| 0 <= i < issue.state.len() && !white_space(#[trigger] issue.state[i]),
        exists|i: int|
            0 <= i < config.tracker.active_states@.len() && lowercase(
                (#[trigger] config.tracker.active_states@[i])@,
            ) == lowercase(issue.state),
        forall|i: int|
            0 <= i < config.tracker.terminal_states@.len() ==> lowercase(
                (#[trigger] config.tracker.terminal_states@[i])@,
            ) != lowercase(issue.state),
        !s.running.contains_key(issue.id),
        s.claimed.contains(issue.id) ==> allowed_claim == Some(issue.id),
        s.running.dom().len() < config.agent.max_concurrent_agents,
        s.running.dom().filter(
            |id: Seq<char>| lowercase(s.running[id].issue.state) == lowercase(issue.state),
        ).len() < (if config.agent.max_concurrent_agents_by_state@.contains_key(
            lowercase(issue.state),
        ) {
            config.agent.max_concurrent_agents_by_state@[lowercase(issue.state)]
        } else {
            config.agent.max_concurrent_agents
        }),
{
    blank_is_white_space(issue.id);
    blank_is_white_space(issue.identifier);
    blank_is_white_space(issue.title);
    blank_is_white_space(issue.state);
    let active = texts(config.tracker.active_states@);
    let i = choose|i: int|
        0 <= i < active.len() && lowercase(#[trigger] active[i]) == lowercase(issue.state);
    assert(active[i] == config.tracker.active_states@[i]@);
    let terminal = texts(config.tracker.terminal_states@);
    assert forall|i: int| 0 <= i < config.tracker.terminal_states@.len() implies lowercase(
        (#[trigger] config.tracker.terminal_states@[i])@,
    ) != lowercase(issue.state) by {
        assert(terminal[i] == config.tracker.terminal_states@[i]@);
    }
}

/// Every blocker of an issue that is found eligible while it is still to do has a
/// state, and that state is one of the terminal ones.
pub proof fn eligible_todo_issue_has_no_open_blocker(
    s: SchedV,
    issue: IssueV,
    config: ServiceConfig,
    allowed_claim: Option<Seq<char>>,
    i: int,
)
    requires
        eligible(s, issue, config, allowed_claim),
        lowercase(issue.state) == "todo"@,
        0 <= i < issue.blocked_by.len(),
    ensures
        issue.blocked_by[i].state matches Some(state) && exists|j: int|
            0 <= j < config.tracker.terminal_states@.len() && lowercase(
                (#[trigger] config.tracker.terminal_states@[j])@,
            ) == lowercase(state),
{
    let blocker = issue.blocked_by[i];
    let terminal = texts(config.tracker.terminal_states@);
    assert(crate::orchestrator::settled(blocker, config));
    let state = blocker.state->0;
    let j = choose|j: int|
        0 <= j < terminal.len() && lowercase(#[trigger] terminal[j]) == lowercase(state);
    assert(terminal[j] == config.tracker.terminal_states@[j]@);
}

/// An open blocker keeps an issue that is still to do out, wherever it stands among
/// the others and whatever else is true of the issue.
pub proof fn open_blocker_keeps_an_issue_out(
    s: SchedV,
    issue: IssueV,
    config: ServiceConfig,
    allowed_claim: Option<Seq<char>>,
    place: int,
    open: BlockerV,
)
    requires
        lowercase(issue.state) == "todo"@,
        0 <= place <= issue.blocked_by.len(),
        open.state matches Some(state) ==> forall|j: int|
            0 <= j < config.tracker.terminal_states@.len() ==> lowercase(
                (#[trigger] config.tracker.terminal_states@[j])@,
            ) != lowercase(state),
    ensures
        !eligible(
            s,
            IssueV { blocked_by: issue.blocked_by.insert(place, open), ..issue },
            config,
            allowed_claim,
        ),
{
    let blocked = IssueV { blocked_by: issue.blocked_by.insert(place, open), ..issue };
    assert(blocked.blocked_by[place] == open);
    if eligible(s, blocked, config, allowed_claim) {
        eligible_todo_issue_has_no_open_blocker(s, blocked, config, allowed_claim, place);
    }
}

/// A blocker in a terminal state changes nothing, and the blockers of an issue that
/// is not still to do change nothing.
pub proof fn closed_blockers_do_not_matter(
    s: SchedV,
    issue: IssueV,
    config: ServiceConfig,
    allowed_claim: Option<Seq<char>>,
    blockers: Seq<BlockerV>,
)
    requires
        lowercase(issue.state) == "todo"@ ==> forall|i: int|
            0 <= i < blockers.len() ==> ((#[trigger] blockers[i]).state matches Some(state)
                && exists|j: int|
                0 <= j < config.tracker.terminal_states@.len() && lowercase(
                    (#[trigger] config.tracker.terminal_states@[j])@,
                ) == lowercase(state)),
    ensures
        eligible(s, IssueV { blocked_by: blockers, ..issue }, config, allowed_claim) == eligible(
            s,
            IssueV { blocked_by: Seq::empty(), ..issue },
            config,
            allowed_claim,
        ),
{
    let blocked = IssueV { blocked_by: blockers, ..issue };
    let terminal = texts(config.tracker.terminal_states@);
    if lowercase(issue.state) == "todo"@ {
        assert forall|i: int| 0 <= i < blocked.blocked_by.len() implies crate::orchestrator::settled(
            #[trigger] blocked.blocked_by[i],
            config,
        ) by {
            let state = blockers[i].state->0;
            let j = choose|j: int|
                0 <= j < config.tracker.terminal_states@.len() && lowercase(
                    (#[trigger] config.tracker.terminal_states@[j])@,
                ) == lowercase(state);
            assert(terminal[j] == config.tracker.terminal_states@[j]@);
        }
    }
}

/// An issue with all that it needs, in an active state, that nobody has claimed, is
/// found eligible where there is room and nothing that blocks it is open.
pub proof fn ready_issue_is_eligible(
    s: SchedV,
    issue: IssueV,
    config: ServiceConfig,
    allowed_claim: Option<Seq<char>>,
    active: int,
)
    requires
        !blank(issue.id) && !blank(issue.identifier) && !blank(issue.title) && !blank(issue.state),
        0 <= active < config.tracker.active_states@.len(),
        lowercase(config.tracker.active_states@[active]@) == lowercase(issue.state),
        forall|i: int|
            0 <= i < config.tracker.terminal_states@.len() ==> lowercase(
                (#[trigger] config.tracker.terminal_states@[i])@,
            ) != lowercase(issue.state),
        !s.running.contains_key(issue.id),
        !s.claimed.contains(issue.id) || allowed_claim == Some(issue.id),
        s.running.dom().len() < config.agent.max_concurrent_agents,
        s.running.dom().filter(
            |id: Seq<char>| lowercase(s.running[id].issue.state) == lowercase(issue.state),
        ).len() < (if config.agent.max_concurrent_agents_by_state@.contains_key(
            lowercase(issue.state),
        ) {
            config.agent.max_concurrent_agents_by_state@[lowercase(issue.state)]
        } else {
            config.agent.max_concurrent_agents
        }),
        lowercase(issue.state) == "todo"@ ==> forall|i: int|
            0 <= i < issue.blocked_by.len() ==> ((#[trigger] issue.blocked_by[i]).state matches Some(
                state,
            ) && exists|j: int|
                0 <= j < config.tracker.terminal_states@.len() && lowercase(
                    (#[trigger] config.tracker.terminal_states@[j])@,
                ) == lowercase(state)),
    ensures
        eligible(s, issue, config, allowed_claim),
{
    let listed = texts(config.tracker.active_states@);
    assert(listed[active] == config.tracker.active_states@[active]@);
    let terminal = texts(config.tracker.terminal_states@);
    assert forall|i: int| 0 <= i < terminal.len() implies lowercase(#[trigger] terminal[i])
        != lowercase(issue.state) by {
        assert(terminal[i] == config.tracker.terminal_states@[i]@);
    }
    closed_blockers_do_not_matter(s, issue, config, allowed_claim, issue.blocked_by);
    assert(IssueV { blocked_by: issue.blocked_by, ..issue } == issue);
}

/// Dispatching an issue starts one worker on it and records the session, with the
/// same issue, attempt and time and in the workspace that was found; or it does
/// nothing at all. It does nothing just where there is no workspace, or somebody
/// has the issue already.
pub proof fn dispatch_records_what_it_starts(
    s: SchedV,
    issue: IssueV,
    attempt: Option<u32>,
    home: Option<PathBuf>,
    now: Timestamp,
)
    ensures
        ({
            let t = after_dispatch(s, issue, attempt, home, now);
            let effects = dispatch_effects(s, issue, attempt, home, now);
            if home is None || s.claimed.contains(issue.id) || s.running.contains_key(issue.id) {
                &&& t == s
                &&& effects.len() == 0
            } else {
                let entry = t.running[issue.id];
                &&& effects.len() == 1
                &&& effects[0] == (EffectV::StartWorker { issue, attempt, started_at: now })
                &&& t.running.dom() == s.running.dom().insert(issue.id)
                &&& entry.issue_id == issue.id
                &&& entry.issue_identifier == issue.identifier
                &&& entry.issue == issue
                &&& entry.attempt == attempt
                &&& Some(entry.workspace_path) == home
                &&& entry.started_at == now
                &&& entry.live_session.session_id is None
                &&& entry.live_session.thread_id is None
                &&& entry.live_session.turn_id is None
                &&& entry.live_session.codex_app_server_pid is None
                &&& entry.live_session.last_codex_event is None
                &&& entry.live_session.last_codex_timestamp is None
                &&& entry.live_session.last_codex_message is None
                &&& entry.live_session.codex_input_tokens == 0
                &&& entry.live_session.codex_output_tokens == 0
                &&& entry.live_session.codex_total_tokens == 0
                &&& entry.live_session.last_reported_input_tokens == 0
                &&& entry.live_session.last_reported_output_tokens == 0
                &&& entry.live_session.last_reported_total_tokens == 0
                &&& entry.live_session.turn_count == 0
                &&& forall|id: Seq<char>|
                    #[trigger] s.running.contains_key(id) ==> t.running[id] == s.running[id]
                &&& t.claimed == s.claimed.insert(issue.id)
                &&& t.retrying == s.retrying
                &&& t.completed == s.completed
                &&& t.codex_totals == s.codex_totals
                &&& t.codex_rate_limits == s.codex_rate_limits
                &&& t.last_error == s.last_error
                &&& t.poll_interval_ms == s.poll_interval_ms
                &&& t.max_concurrent_agents == s.max_concurrent_agents
                &&& t.max_retry_backoff_ms == s.max_retry_backoff_ms
            }
        }),
{
    let t = after_dispatch(s, issue, attempt, home, now);
    if !(home is None || s.claimed.contains(issue.id) || s.running.contains_key(issue.id)) {
        assert(t.running.dom() =~= s.running.dom().insert(issue.id));
    }
}

/// What going through the candidates never touches: issues that wait, what is done,
/// counts, settings and errors; and sessions that there are go on as they are.
pub proof fn candidates_touch_nothing_else(
    s: SchedV,
    issues: Seq<IssueV>,
    config: ServiceConfig,
    choices: Seq<Choice>,
)
    ensures
        ({
            let t = after_candidates(s, issues, config, choices);
            &&& forall|id: Seq<char>|
                #[trigger] s.running.contains_key(id) ==> t.running.contains_key(id)
                    && t.running[id] == s.running[id]
            &&& forall|id: Seq<char>| #[trigger]
                t.claimed.contains(id) ==> s.claimed.contains(id) || t.running.contains_key(id)
            &&& t.retrying == s.retrying
            &&& t.completed == s.completed
            &&& t.codex_totals == s.codex_totals
            &&& t.codex_rate_limits == s.codex_rate_limits
            &&& t.last_error == s.last_error
            &&& t.poll_interval_ms == s.poll_interval_ms
            &&& t.max_concurrent_agents == s.max_concurrent_agents
            &&& t.max_retry_backoff_ms == s.max_retry_backoff_ms
            &&& s.running.dom().finite() ==> t.running.dom().finite()
        }),
    decreases issues.len(),
{
    if issues.len() > 0 {
        let before = after_candidates(s, issues.drop_last(), config, choices);
        let choice = choices[issues.len() - 1];
        candidates_touch_nothing_else(s, issues.drop_last(), config, choices);
        dispatch_records_what_it_starts(
            before,
            issues.last(),
            None,
            choice.home,
            choice.now,
        );
    }
}

/// Each worker that is started works on one of the candidates, as a first attempt;
/// the candidate is recorded as worked on, with the time at which it was started;
/// and it was eligible as things stood before it. Workers are started in the order
/// of the candidates.
pub proof fn workers_follow_the_candidates(
    s: SchedV,
    issues: Seq<IssueV>,
    config: ServiceConfig,
    choices: Seq<Choice>,
) -> (places: Seq<int>)
    ensures
        ({
            let t = after_candidates(s, issues, config, choices);
            let effects = candidate_effects(s, issues, config, choices);
            &&& places.len() == effects.len()
            &&& forall|e: int|
                0 <= e < effects.len() ==> {
                    &&& 0 <= #[trigger] places[e] < issues.len()
                    &&& effects[e] matches EffectV::StartWorker { issue, attempt, started_at }
                        && issue == issues[places[e]] && attempt is None && t.running.contains_key(
                        issue.id,
                    ) && t.running[issue.id].issue == issue && t.running[issue.id].attempt is None
                        && t.running[issue.id].started_at == started_at
                    &&& eligible(
                        after_candidates(s, issues.take(places[e]), config, choices),
                        issues[places[e]],
                        config,
                        None,
                    )
                }
            &&& forall|d: int, e: int|
                0 <= d < e < effects.len() ==> #[trigger] places[d] < #[trigger] places[e]
            &&& t.running.dom() == s.running.dom().union(
                Set::new(
                    |id: Seq<char>|
                        exists|e: int|
                            0 <= e < effects.len() && (#[trigger] places[e]) >= 0
                                && issues[places[e]].id == id,
                ),
            )
        }),
    decreases issues.len(),
{
    let t = after_candidates(s, issues, config, choices);
    let effects = candidate_effects(s, issues, config, choices);
    if issues.len() == 0 {
        let none = Seq::<int>::empty();
        assert(t.running.dom() =~= s.running.dom().union(
            Set::new(
                |id: Seq<char>|
                    exists|e: int|
                        0 <= e < effects.len() && (#[trigger] none[e]) >= 0 && issues[none[e]].id
                            == id,
            ),
        ));
        none
    } else {
        let front = issues.drop_last();
        let issue = issues.last();
        let before = after_candidates(s, front, config, choices);
        let done = candidate_effects(s, front, config, choices);
        let choice = choices[issues.len() - 1];
        let earlier = workers_follow_the_candidates(s, front, config, choices);
        dispatch_records_what_it_starts(before, issue, None, choice.home, choice.now);
        let fits = eligible(before, issue, config, None);
        let begins = fits && dispatch_effects(
            before,
            issue,
            None,
            choice.home,
            choice.now,
        ).len() > 0;
        let places = if begins {
            earlier.push(issues.len() - 1)
        } else {
            earlier
        };
        if begins {
            assert(effects =~= done.push(
                EffectV::StartWorker { issue, attempt: None, started_at: choice.now },
            ));
        } else {
            assert(effects =~= done);
        }
        assert forall|e: int| 0 <= e < effects.len() implies {
            &&& 0 <= #[trigger] places[e] < issues.len()
            &&& effects[e] matches EffectV::StartWorker { issue, attempt, started_at } && issue
                == issues[places[e]] && attempt is None && t.running.contains_key(issue.id)
                && t.running[issue.id].issue == issue && t.running[issue.id].attempt is None
                && t.running[issue.id].started_at == started_at
            &&& eligible(
                after_candidates(s, issues.take(places[e]), config, choices),
                issues[places[e]],
                config,
                None,
            )
        } by {
            if e < done.len() {
                assert(places[e] == earlier[e]);
                assert(issues.take(places[e]) =~= front.take(places[e]));
                assert(effects[e] == done[e]);
            } else {
                assert(issues.take(places[e]) =~= front);
            }
        }
        let started = Set::new(
            |id: Seq<char>|
                exists|e: int|
                    0 <= e < effects.len() && (#[trigger] places[e]) >= 0 && issues[places[e]].id
                        == id,
        );
        let started_before = Set::new(
            |id: Seq<char>|
                exists|e: int|
                    0 <= e < done.len() && (#[trigger] earlier[e]) >= 0 && front[earlier[e]].id
                        == id,
        );
        assert forall|id: Seq<char>| started.contains(id) <==> started_before.contains(id) || (
        begins && id == issue.id) by {
            if started_before.contains(id) {
                let e = choose|e: int|
                    0 <= e < done.len() && (#[trigger] earlier[e]) >= 0 && front[earlier[e]].id
                        == id;
                assert(places[e] == earlier[e]);
            }
            if started.contains(id) {
                let e = choose|e: int|
                    0 <= e < effects.len() && (#[trigger] places[e]) >= 0 && issues[places[e]].id
                        == id;
                if e < done.len() {
                    assert(places[e] == earlier[e]);
                }
            }
            if begins && id == issue.id {
                assert(places[done.len() as int] >= 0);
            }
        }
        assert(t.running.dom() =~= s.running.dom().union(started));
        places
    }
}

/// Why an issue is left aside for good reasons that have nothing to do with how many
/// are worked on: it lacks something, it is not active, somebody had it before, it
/// has an open blocker or there is no place for its workspace.
pub open spec fn unfit(
    s: SchedV,
    issue: IssueV,
    config: ServiceConfig,
    home: Option<PathBuf>,
) -> bool {
    ||| blank(issue.id)
    ||| blank(issue.identifier)
    ||| blank(issue.title)
    ||| blank(issue.state)
    ||| forall|i: int|
        0 <= i < config.tracker.active_states@.len() ==> lowercase(
            (#[trigger] config.tracker.active_states@[i])@,
        ) != lowercase(issue.state)
    ||| exists|i: int|
        0 <= i < config.tracker.terminal_states@.len() && lowercase(
            (#[trigger] config.tracker.terminal_states@[i])@,
        ) == lowercase(issue.state)
    ||| s.claimed.contains(issue.id)
    ||| home is None
    ||| lowercase(issue.state) == "todo"@ && exists|i: int|
        0 <= i < issue.blocked_by.len() && ((#[trigger] issue.blocked_by[i]).state matches Some(
            state,
        ) ==> forall|j: int|
            0 <= j < config.tracker.terminal_states@.len() ==> lowercase(
                (#[trigger] config.tracker.terminal_states@[j])@,
            ) != lowercase(state))
}

proof fn grows_with_the_candidates(
    s: SchedV,
    issues: Seq<IssueV>,
    config: ServiceConfig,
    choices: Seq<Choice>,
    n: int,
)
    requires
        0 <= n <= issues.len(),
    ensures
        ({
            let before = after_candidates(s, issues.take(n), config, choices);
            let t = after_candidates(s, issues, config, choices);
            &&& forall|id: Seq<char>|
                #[trigger] before.running.contains_key(id) ==> t.running.contains_key(id)
                    && t.running[id] == before.running[id]
            &&& before.claimed.subset_of(t.claimed)
        }),
    decreases issues.len(),
{
    if n < issues.len() {
        let front = issues.drop_last();
        let choice = choices[issues.len() - 1];
        grows_with_the_candidates(s, front, config, choices, n);
        assert(front.take(n) =~= issues.take(n));
        dispatch_records_what_it_starts(
            after_candidates(s, front, config, choices),
            issues.last(),
            None,
            choice.home,
            choice.now,
        );
    } else {
        assert(issues.take(n) =~= issues);
    }
}

/// A candidate is left aside only for a reason: it is unfit, or as many issues are
/// worked on as may be, in all or in its state.
pub proof fn candidates_are_left_aside_for_a_reason(
    s: SchedV,
    issues: Seq<IssueV>,
    config: ServiceConfig,
    choices: Seq<Choice>,
    k: int,
)
    requires
        s.running.dom().finite(),
        forall|id: Seq<char>| #[trigger] s.running.contains_key(id) ==> s.claimed.contains(id),
        0 <= k < issues.len(),
    ensures
        ({
            let t = after_candidates(s, issues, config, choices);
            let issue = issues[k];
            ||| t.running.contains_key(issue.id)
            ||| unfit(s, issue, config, choices[k].home)
            ||| after_candidates(s, issues.take(k), config, choices).running.dom().len()
                >= config.agent.max_concurrent_agents
            ||| t.running.dom().filter(
                |id: Seq<char>| lowercase(t.running[id].issue.state) == lowercase(issue.state),
            ).len() >= (if config.agent.max_concurrent_agents_by_state@.contains_key(
                lowercase(issue.state),
            ) {
                config.agent.max_concurrent_agents_by_state@[lowercase(issue.state)]
            } else {
                config.agent.max_concurrent_agents
            })
        }),
{
    let t = after_candidates(s, issues, config, choices);
    let issue = issues[k];
    let choice = choices[k];
    let before = after_candidates(s, issues.take(k), config, choices);
    let after = after_candidates(s, issues.take(k + 1), config, choices);
    assert(issues.take(k + 1).drop_last() =~= issues.take(k));
    candidates_touch_nothing_else(s, issues.take(k), config, choices);
    candidates_touch_nothing_else(s, issues, config, choices);
    grows_with_the_candidates(s, issues, config, choices, k);
    grows_with_the_candidates(s, issues, config, choices, k + 1);
    dispatch_records_what_it_starts(before, issue, None, choice.home, choice.now);
    if !t.running.contains_key(issue.id) && !unfit(s, issue, config, choice.home)
        && before.running.dom().len() < config.agent.max_concurrent_agents {
        assert(!before.running.contains_key(issue.id));
        assert(!before.claimed.contains(issue.id));
        let now_in = before.running.dom().filter(
            |id: Seq<char>| lowercase(before.running[id].issue.state) == lowercase(issue.state),
        );
        let then_in = t.running.dom().filter(
            |id: Seq<char>| lowercase(t.running[id].issue.state) == lowercase(issue.state),
        );
        assert forall|id: Seq<char>| now_in.contains(id) implies then_in.contains(id) by {
            assert(t.running[id] == before.running[id]);
        }
        t.running.dom().lemma_len_filter(
            |id: Seq<char>| lowercase(t.running[id].issue.state) == lowercase(issue.state),
        );
        vstd::set_lib::lemma_len_subset(now_in, then_in);
        let active = choose|i: int|
            0 <= i < config.tracker.active_states@.len() && lowercase(
                (#[trigger] config.tracker.active_states@[i])@,
            ) == lowercase(issue.state);
        let limit = if config.agent.max_concurrent_agents_by_state@.contains_key(
            lowercase(issue.state),
        ) {
            config.agent.max_concurrent_agents_by_state@[lowercase(issue.state)]
        } else {
            config.agent.max_concurrent_agents
        };
        if now_in.len() < limit {
            ready_issue_is_eligible(before, issue, config, None, active);
            assert(after.running.contains_key(issue.id));
            assert(t.running[issue.id] == after.running[issue.id]);
        }
    }
}

/// No issue gets the last place before a more urgent one: where a worker is started
/// on a candidate, every candidate with a smaller priority number is worked on too,
/// or it is unfit, or its own state has no room.
pub proof fn urgent_issues_get_the_places(
    s: SchedV,
    fetched: Seq<IssueV>,
    config: ServiceConfig,
    choices: Seq<Choice>,
    urgent: int,
    other: int,
)
    requires
        s.running.dom().finite(),
        forall|id: Seq<char>| #[trigger] s.running.contains_key(id) ==> s.claimed.contains(id),
        ({
            let issues = in_rank_order(fetched);
            &&& 0 <= urgent < issues.len()
            &&& 0 <= other < issues.len()
            &&& issues[urgent].priority matches Some(number) && match issues[other].priority {
                Some(larger) => number < larger,
                None => number < i64::MAX,
            }
            &&& eligible(
                after_candidates(s, issues.take(other), config, choices),
                issues[other],
                config,
                None,
            )
        }),
    ensures
        ({
            let issues = in_rank_order(fetched);
            let issue = issues[urgent];
            let t = after_candidates(s, issues, config, choices);
            ||| t.running.contains_key(issue.id)
            ||| unfit(s, issue, config, choices[urgent].home)
            ||| t.running.dom().filter(
                |id: Seq<char>| lowercase(t.running[id].issue.state) == lowercase(issue.state),
            ).len() >= (if config.agent.max_concurrent_agents_by_state@.contains_key(
                lowercase(issue.state),
            ) {
                config.agent.max_concurrent_agents_by_state@[lowercase(issue.state)]
            } else {
                config.agent.max_concurrent_agents
            })
        }),
{
    let issues = in_rank_order(fetched);
    rank_order_is_ranked(fetched);
    if other < urgent {
        urgent_issues_come_first(fetched, other, urgent);
    }
    assert(urgent < other);
    candidates_are_left_aside_for_a_reason(s, issues, config, choices, urgent);
    eligible_issue_is_ready(
        after_candidates(s, issues.take(other), config, choices),
        issues[other],
        config,
        None,
    );
    let front = issues.take(other);
    assert(front.take(urgent) =~= issues.take(urgent));
    grows_with_the_candidates(s, front, config, choices, urgent);
    candidates_touch_nothing_else(s, front, config, choices);
    let early = after_candidates(s, issues.take(urgent), config, choices);
    let late = after_candidates(s, front, config, choices);
    assert forall|id: Seq<char>| early.running.dom().contains(id) implies late.running.dom().contains(
        id,
    ) by {
        assert(late.running[id] == early.running[id]);
    }
    vstd::set_lib::lemma_len_subset(early.running.dom(), late.running.dom());
}

/// The issues that the tracker said can be worked on are dispatched by rank, whatever
/// the order in which it said so: of two workers that are started the first works on
/// the issue with the smaller priority number, and with the same number on the older
/// one. A last error is forgotten. Where the tracker failed, its words are kept, and
/// nothing else happens.
pub proof fn fetched_issues_are_dispatched_by_rank(
    s: SchedV,
    fetched: Result<Vec<Issue>, TrackerError>,
    config: ServiceConfig,
    t: SchedV,
    effects: Seq<EffectV>,
)
    requires
        takes_candidates(s, fetched, config, t, effects),
    ensures
        fetched is Ok ==> {
            &&& t.last_error is None
            &&& t.retrying == s.retrying
            &&& t.completed == s.completed
            &&& forall|e: int| 0 <= e < effects.len() ==> (#[trigger] effects[e]) is StartWorker
            &&& forall|d: int, e: int|
                #![trigger effects[d], effects[e]]
                0 <= d < e < effects.len() ==> {
                    let a = effects[d]->StartWorker_issue;
                    let b = effects[e]->StartWorker_issue;
                    let urgency_a = if a.priority is Some {
                        a.priority->0
                    } else {
                        i64::MAX
                    };
                    let urgency_b = if b.priority is Some {
                        b.priority->0
                    } else {
                        i64::MAX
                    };
                    &&& urgency_a <= urgency_b
                    &&& urgency_a == urgency_b && a.created_at is Some && b.created_at is Some
                        ==> a.created_at->0.seconds * 1000 + a.created_at->0.nanos / 1_000_000
                        <= b.created_at->0.seconds * 1000 + b.created_at->0.nanos / 1_000_000
                }
        },
        fetched matches Err(e) ==> {
            &&& t.last_error == Some(e@.words())
            &&& effects.len() == 0
            &&& t.running == s.running
            &&& t.claimed == s.claimed
            &&& t.retrying == s.retrying
            &&& t.completed == s.completed
        },
{
    if let Ok(found) = fetched {
        let all = issue_views(found@);
        let issues = in_rank_order(all);
        let gone = choose|gone: SchedV|
            {
                &&& #[trigger] dispatches(s, issues, config, gone, effects)
                &&& t == (SchedV { last_error: None, ..gone })
            };
        let choices = choose|choices: Seq<Choice>|
            {
                &&& #[trigger] choices_fit(s, issues, config, choices)
                &&& gone == after_candidates(s, issues, config, choices)
                &&& effects == candidate_effects(s, issues, config, choices)
            };
        candidates_touch_nothing_else(s, issues, config, choices);
        let places = workers_follow_the_candidates(s, issues, config, choices);
        assert forall|e: int| 0 <= e < effects.len() implies (
        #[trigger] effects[e]) is StartWorker by {
            assert(0 <= places[e] < issues.len());
        }
        assert forall|d: int, e: int|
            #![trigger effects[d], effects[e]]
            0 <= d < e < effects.len() implies {
            let a = effects[d]->StartWorker_issue;
            let b = effects[e]->StartWorker_issue;
            let urgency_a = if a.priority is Some {
                a.priority->0
            } else {
                i64::MAX
            };
            let urgency_b = if b.priority is Some {
                b.priority->0
            } else {
                i64::MAX
            };
            &&& urgency_a <= urgency_b
            &&& urgency_a == urgency_b && a.created_at is Some && b.created_at is Some
                ==> a.created_at->0.seconds * 1000 + a.created_at->0.nanos / 1_000_000
                <= b.created_at->0.seconds * 1000 + b.created_at->0.nanos / 1_000_000
        } by {
            assert(places[d] < places[e]);
            urgent_issues_come_first(all, places[d], places[e]);
        }
    }
}

}
