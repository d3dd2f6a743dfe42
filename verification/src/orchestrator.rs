//! The scheduler: which issues are worked on, which wait for their next attempt,
//! and what is to be done when something happens.

use std::path::{Path, PathBuf};
use vstd::arithmetic::power2::pow2;
use vstd::prelude::*;

use crate::agent::{wrapped_sum, AgentUpdate, UpdateV};
use crate::config::{ConfigError, ServiceConfig};
use crate::json::{opt_json, opt_text, Json, JsonV};
use crate::keyed::{count_below, count_is_len, listed_in_map, StringMap};
use crate::model::{
    among_states, copy_json, copy_text, fresh_session, issue_views, later_by, millis_between,
    normalize_state, plus_millis, state_in, utc_now, whole_millis_between, BlockerV, CodexTotals,
    Issue, IssueState, IssueStateV, IssueV, LiveSession, LiveV, RetryEntry, RetryV, RunningEntry,
    RunningV, RuntimeState, Timestamp, TokenUsage,
};
use crate::paths::{
    buf_parts, normal_path, normalized, normalized_idempotent, normalized_is_plain, path_joined,
    path_of, path_parts, prefix_free, starts_with_parts, text_path, PartV,
};
use crate::ranking::{in_rank_order, sort_candidates};
use crate::text::{lowercase, same_text, texts};
use crate::tracker::{state_views, TrackerError};
use crate::workspace::{inside, key_of, workspace_parts, WorkspaceManager};

verus! {

broadcast use vstd::string::group_string_axioms;

/// How long an issue waits before it is looked at again, in milliseconds.
pub const CONTINUATION_RETRY_MS: u64 = 1_000;

/// How long an issue waits before its first new attempt, in milliseconds.
pub const RETRY_BASE_MS: u64 = 10_000;

/// The longest that an issue waits, in milliseconds: the first wait doubled as
/// often as waits are doubled.
pub const LONGEST_DELAY_MS: u64 = 21_474_836_480_000;

/// How often the first wait is doubled before an attempt.
pub open spec fn doublings(attempt: u32) -> nat {
    if attempt <= 1 {
        0
    } else if attempt > 32 {
        31
    } else {
        (attempt - 1) as nat
    }
}

/// How long an issue waits before an attempt: twice as long each time, up to a
/// limit.
pub open spec fn retry_delay(attempt: u32, limit: u64) -> int {
    let delay = RETRY_BASE_MS * pow2(doublings(attempt));
    if delay < limit {
        delay
    } else {
        limit as int
    }
}

proof fn pow2_up_to(n: nat)
    requires
        n <= 31,
    ensures
        1 <= pow2(n) <= pow2(31),
        pow2(31) == 0x8000_0000,
{
    vstd::arithmetic::power2::lemma2_to64();
    if n < 31 {
        vstd::arithmetic::power2::lemma_pow2_strictly_increases(n, 31);
    }
    vstd::arithmetic::power2::lemma_pow2_pos(n);
}

/// How long an issue waits before an attempt, in milliseconds.
pub fn retry_delay_ms(attempt: u32, max_retry_backoff_ms: u64) -> (r: u64)
    ensures
        r == retry_delay(attempt, max_retry_backoff_ms),
        r <= LONGEST_DELAY_MS,
        r <= max_retry_backoff_ms,
{
    let exponent: u32 = if attempt <= 1 {
        0
    } else if attempt > 32 {
        31
    } else {
        attempt - 1
    };
    let mut delay: u64 = RETRY_BASE_MS;
    let mut i: u32 = 0;
    proof {
        vstd::arithmetic::power2::lemma2_to64();
    }
    while i < exponent
        invariant
            i <= exponent <= 31,
            delay == RETRY_BASE_MS * pow2(i as nat),
        decreases exponent - i,
    {
        proof {
            vstd::arithmetic::power2::lemma_pow2_unfold((i + 1) as nat);
            pow2_up_to(i as nat);
        }
        delay = delay * 2;
        i += 1;
    }
    proof {
        pow2_up_to(exponent as nat);
    }
    if delay < max_retry_backoff_ms {
        delay
    } else {
        max_retry_backoff_ms
    }
}

/// The next attempt never waits less than the one before it.
pub proof fn retry_delay_grows(attempt: u32, limit: u64)
    requires
        attempt < u32::MAX,
    ensures
        retry_delay(attempt, limit) <= retry_delay((attempt + 1) as u32, limit),
        retry_delay(attempt, limit) <= limit,
{
    let n = doublings(attempt);
    let m = doublings((attempt + 1) as u32);
    if n < m {
        vstd::arithmetic::power2::lemma_pow2_strictly_increases(n, m);
    }
}

/// Each attempt waits twice as long as the one before it, until the limit or the
/// last doubling is reached.
pub proof fn retry_delay_doubles(attempt: u32, limit: u64)
    requires
        1 <= attempt < 32,
        2 * RETRY_BASE_MS * pow2(doublings(attempt)) <= limit,
    ensures
        retry_delay((attempt + 1) as u32, limit) == 2 * retry_delay(attempt, limit),
{
    let n = doublings(attempt);
    let m = doublings((attempt + 1) as u32);
    assert(m == n + 1);
    vstd::arithmetic::power2::lemma_pow2_unfold(m);
    vstd::arithmetic::power2::lemma_pow2_pos(n);
    let p: int = pow2(n) as int;
    assert(pow2(m) == 2 * p);
    assert(RETRY_BASE_MS * pow2(m) == 2 * (RETRY_BASE_MS * p)) by (nonlinear_arith)
        requires
            pow2(m) == 2 * p,
    ;
    assert(2 * RETRY_BASE_MS * pow2(n) == 2 * (RETRY_BASE_MS * p)) by (nonlinear_arith)
        requires
            pow2(n) == p,
    ;
}

/// What is to be done outside the scheduler.
#[derive(Debug)]
pub enum Effect {
    /// Stop the worker of an issue.
    CancelWorker(String),
    /// Stop the timer of an issue.
    AbortTimer(String),
    /// Let an issue be due after so many milliseconds.
    StartTimer { issue_id: String, delay_ms: u64 },
    /// Start a worker on an issue.
    StartWorker { issue: Issue, attempt: Option<u32>, started_at: Timestamp },
    /// Remove the workspace of an issue.
    RemoveWorkspace { identifier: String },
    /// A session that started then is over.
    SessionEnded { started_at: Timestamp },
}

/// What an `Effect` is.
pub enum EffectV {
    CancelWorker(Seq<char>),
    AbortTimer(Seq<char>),
    StartTimer { issue_id: Seq<char>, delay_ms: u64 },
    StartWorker { issue: IssueV, attempt: Option<u32>, started_at: Timestamp },
    RemoveWorkspace { identifier: Seq<char> },
    SessionEnded { ended: Timestamp },
}

impl View for Effect {
    type V = EffectV;

    open spec fn view(&self) -> EffectV {
        match self {
            Effect::CancelWorker(id) => EffectV::CancelWorker(id@),
            Effect::AbortTimer(id) => EffectV::AbortTimer(id@),
            Effect::StartTimer { issue_id, delay_ms } => EffectV::StartTimer {
                issue_id: issue_id@,
                delay_ms: *delay_ms,
            },
            Effect::StartWorker { issue, attempt, started_at } => EffectV::StartWorker {
                issue: issue@,
                attempt: *attempt,
                started_at: *started_at,
            },
            Effect::RemoveWorkspace { identifier } => EffectV::RemoveWorkspace {
                identifier: identifier@,
            },
            Effect::SessionEnded { started_at } => EffectV::SessionEnded { ended: *started_at },
        }
    }
}

/// The views of some effects.
pub open spec fn effect_views(effects: Seq<Effect>) -> Seq<EffectV> {
    effects.map_values(|e: Effect| e@)
}

fn add_effect(effects: &mut Vec<Effect>, effect: Effect)
    ensures
        effect_views(final(effects)@) == effect_views(old(effects)@).push(effect@),
{
    effects.push(effect);
    assert(effect_views(effects@) =~= effect_views(old(effects)@).push(effect@));
}

/// What the scheduler keeps.
#[derive(Debug)]
pub struct SchedulerState {
    poll_interval_ms: u64,
    max_concurrent_agents: usize,
    max_retry_backoff_ms: u64,
    running: StringMap<RunningEntry>,
    claimed: StringMap<()>,
    retrying: StringMap<RetryEntry>,
    completed: StringMap<()>,
    codex_totals: CodexTotals,
    codex_rate_limits: Option<Json>,
    last_error: Option<String>,
}

/// What a `SchedulerState` is.
#[verifier::ext_equal]
pub struct SchedV {
    pub poll_interval_ms: u64,
    pub max_concurrent_agents: usize,
    pub max_retry_backoff_ms: u64,
    pub running: Map<Seq<char>, RunningV>,
    pub claimed: Set<Seq<char>>,
    pub retrying: Map<Seq<char>, RetryV>,
    pub completed: Set<Seq<char>>,
    pub codex_totals: CodexTotals,
    pub codex_rate_limits: Option<JsonV>,
    pub last_error: Option<Seq<char>>,
}

/// The views of the entries of sessions.
pub open spec fn running_views(m: Map<Seq<char>, RunningEntry>) -> Map<Seq<char>, RunningV> {
    m.map_values(|e: RunningEntry| e@)
}

/// The views of the entries of waiting issues.
pub open spec fn retry_views(m: Map<Seq<char>, RetryEntry>) -> Map<Seq<char>, RetryV> {
    m.map_values(|e: RetryEntry| e@)
}

impl View for SchedulerState {
    type V = SchedV;

    closed spec fn view(&self) -> SchedV {
        SchedV {
            poll_interval_ms: self.poll_interval_ms,
            max_concurrent_agents: self.max_concurrent_agents,
            max_retry_backoff_ms: self.max_retry_backoff_ms,
            running: running_views(self.running@),
            claimed: self.claimed@.dom(),
            retrying: retry_views(self.retrying@),
            completed: self.completed@.dom(),
            codex_totals: self.codex_totals,
            codex_rate_limits: opt_json(self.codex_rate_limits),
            last_error: opt_text(self.last_error),
        }
    }
}

/// A scheduler at its start.
pub open spec fn idle() -> SchedV {
    SchedV {
        poll_interval_ms: 0,
        max_concurrent_agents: 0,
        max_retry_backoff_ms: 0,
        running: Map::empty(),
        claimed: Set::empty(),
        retrying: Map::empty(),
        completed: Set::empty(),
        codex_totals: CodexTotals { input_tokens: 0, output_tokens: 0, total_tokens: 0 },
        codex_rate_limits: None,
        last_error: None,
    }
}

impl SchedV {
    /// Every entry is that of its key; an issue is either worked on or waits,
    /// never both; and the issues that are claimed are those that are worked on,
    /// those that wait, and those in `held`.
    pub open spec fn consistent(self, held: Set<Seq<char>>) -> bool {
        &&& self.running.dom().finite()
        &&& forall|id: Seq<char>| #[trigger]
            self.running.contains_key(id) ==> self.running[id].issue_id == id
                && self.running[id].issue.id == id
        &&& forall|id: Seq<char>| #[trigger]
            self.retrying.contains_key(id) ==> self.retrying[id].issue_id == id
        &&& forall|id: Seq<char>|
            !(#[trigger] self.running.contains_key(id) && self.retrying.contains_key(id))
        &&& forall|id: Seq<char>| #[trigger]
            self.claimed.contains(id) <==> self.running.contains_key(id)
                || self.retrying.contains_key(id) || held.contains(id)
        &&& forall|id: Seq<char>| #[trigger]
            held.contains(id) ==> !self.running.contains_key(id) && !self.retrying.contains_key(id)
    }

    /// The limit on waiting that counts: one that was never set is five minutes.
    pub open spec fn backoff_limit(self) -> u64 {
        if self.max_retry_backoff_ms == 0 {
            300_000
        } else {
            self.max_retry_backoff_ms
        }
    }
}

impl Default for SchedulerState {
    fn default() -> (r: SchedulerState)
        ensures
            r.wf(),
            r@ == idle(),
    {
        let r = SchedulerState {
            poll_interval_ms: 0,
            max_concurrent_agents: 0,
            max_retry_backoff_ms: 0,
            running: StringMap::new(),
            claimed: StringMap::new(),
            retrying: StringMap::new(),
            completed: StringMap::new(),
            codex_totals: CodexTotals { input_tokens: 0, output_tokens: 0, total_tokens: 0 },
            codex_rate_limits: None,
            last_error: None,
        };
        assert(r@ =~= idle());
        assert(idle().running.dom() =~= Set::<Seq<char>>::empty());
        r
    }
}

impl SchedulerState {
    closed spec fn maps_wf(self) -> bool {
        &&& self.running.wf()
        &&& self.claimed.wf()
        &&& self.retrying.wf()
        &&& self.completed.wf()
    }

    /// The state is well formed while the issues in `held` are claimed without
    /// being worked on or waiting.
    pub closed spec fn holds(self, held: Set<Seq<char>>) -> bool {
        &&& self.maps_wf()
        &&& self@.consistent(held)
    }

    /// The state is well formed: see `SchedV::consistent`.
    pub open spec fn wf(self) -> bool {
        self.holds(Set::empty())
    }
}

/// Of a well-formed state: an issue that is worked on is claimed and does not
/// wait; an issue that waits is claimed; and no other issue is claimed.
pub proof fn claims_are_exact(state: SchedulerState, id: Seq<char>)
    requires
        state.wf(),
    ensures
        state@.claimed.contains(id) <==> state@.running.contains_key(id)
            || state@.retrying.contains_key(id),
        !(state@.running.contains_key(id) && state@.retrying.contains_key(id)),
{
}

/// The issues that are worked on in a state, without regard to case.
pub open spec fn running_in(s: SchedV, state: Seq<char>) -> Set<Seq<char>> {
    s.running.dom().filter(
        |id: Seq<char>| lowercase(s.running[id].issue.state) == lowercase(state),
    )
}

/// The number of issues that may be worked on in a state.
pub open spec fn state_limit(config: ServiceConfig, state: Seq<char>) -> usize {
    let limits = config.agent.max_concurrent_agents_by_state@;
    if limits.contains_key(lowercase(state)) {
        limits[lowercase(state)]
    } else {
        config.agent.max_concurrent_agents
    }
}

/// One more issue may be worked on.
pub open spec fn global_slot(s: SchedV, config: ServiceConfig) -> bool {
    s.running.dom().len() < config.agent.max_concurrent_agents
}

/// One more issue may be worked on in the state.
pub open spec fn state_slot(s: SchedV, state: Seq<char>, config: ServiceConfig) -> bool {
    running_in(s, state).len() < state_limit(config, state)
}

/// The blocker is in a terminal state.
pub open spec fn settled(blocker: BlockerV, config: ServiceConfig) -> bool {
    match blocker.state {
        Some(state) => among_states(state, texts(config.tracker.terminal_states@)),
        None => false,
    }
}

/// An issue can be dispatched: it is complete and in an active state, it is
/// neither worked on nor claimed (but for the claim that is allowed), there is
/// room for it, and if it is still to do then nothing blocks it any more.
pub open spec fn eligible(
    s: SchedV,
    issue: IssueV,
    config: ServiceConfig,
    allowed_claim: Option<Seq<char>>,
) -> bool {
    &&& issue.has_required_fields()
    &&& among_states(issue.state, texts(config.tracker.active_states@))
    &&& !among_states(issue.state, texts(config.tracker.terminal_states@))
    &&& !s.running.contains_key(issue.id)
    &&& s.claimed.contains(issue.id) ==> allowed_claim == Some(issue.id)
    &&& global_slot(s, config)
    &&& state_slot(s, issue.state, config)
    &&& lowercase(issue.state) == "todo"@ ==> forall|i: int|
        0 <= i < issue.blocked_by.len() ==> settled(#[trigger] issue.blocked_by[i], config)
}

proof fn views_keep_keys(m: Map<Seq<char>, RunningEntry>)
    ensures
        running_views(m).dom() == m.dom(),
{
    assert(running_views(m).dom() =~= m.dom());
}

/// Whether one more issue may be worked on.
pub fn has_global_slot(state: &SchedulerState, config: &ServiceConfig) -> (r: bool)
    requires
        state.wf(),
    ensures
        r == global_slot(state@, *config),
{
    state.global_room(config)
}

/// Whether one more issue may be worked on in the state.
pub fn has_state_slot(state: &SchedulerState, state_name: &str, config: &ServiceConfig) -> (r: bool)
    requires
        state.wf(),
        config.wf(),
    ensures
        r == state_slot(state@, state_name@, *config),
{
    state.state_room(state_name, config)
}

/// Whether an issue can be dispatched.
pub fn candidate_eligible(
    state: &SchedulerState,
    issue: &Issue,
    config: &ServiceConfig,
    allowed_claim: Option<&str>,
) -> (r: bool)
    requires
        state.wf(),
        config.wf(),
    ensures
        r == eligible(
            state@,
            issue@,
            *config,
            match allowed_claim {
                Some(id) => Some(id@),
                None => None,
            },
        ),
{
    state.accepts(issue, config, allowed_claim)
}

impl SchedulerState {
    fn global_room(&self, config: &ServiceConfig) -> (r: bool)
        requires
            self.maps_wf(),
        ensures
            r == global_slot(self@, *config),
    {
        proof {
            views_keep_keys(self.running@);
        }
        self.running.len() < config.agent.max_concurrent_agents
    }

    fn state_room(&self, state_name: &str, config: &ServiceConfig) -> (r: bool)
        requires
            self.maps_wf(),
            config.wf(),
        ensures
            r == state_slot(self@, state_name@, *config),
    {
        let name = normalize_state(state_name);
        let limit: usize = match config.agent.max_concurrent_agents_by_state.get(name.as_str()) {
            Some(n) => *n,
            None => config.agent.max_concurrent_agents,
        };
        let ghost p = |key: Seq<char>, e: RunningEntry|
            lowercase(e.issue.state@) == lowercase(state_name@);
        let ghost listed = self.running.listed();
        let ghost test = |i: int| p(listed[i].0, listed[i].1);
        let mut count: usize = 0;
        let mut i: usize = 0;
        while i < self.running.len()
            invariant
                i <= listed.len(),
                self.running.wf(),
                listed == self.running.listed(),
                count <= i,
                name@ == lowercase(state_name@),
                p == (|key: Seq<char>, e: RunningEntry|
                    lowercase(e.issue.state@) == lowercase(state_name@)),
                test == (|i: int| p(listed[i].0, listed[i].1)),
                count == count_below(i as nat, test),
            decreases listed.len() - i,
        {
            let entry = self.running.entry(i);
            if normalize_state(entry.1.issue.state.as_str()) == name {
                count += 1;
            }
            i += 1;
        }
        proof {
            count_is_len(self.running, p);
            views_keep_keys(self.running@);
            assert(self.running@.dom().filter(|key: Seq<char>| p(key, self.running@[key]))
                =~= running_in(self@, state_name@));
            assert(test =~= (|i: int| p(self.running.listed()[i].0, self.running.listed()[i].1)));
        }
        count < limit
    }

    fn accepts(&self, issue: &Issue, config: &ServiceConfig, allowed_claim: Option<&str>) -> (r:
        bool)
        requires
            self.maps_wf(),
            config.wf(),
        ensures
            r == eligible(
                self@,
                issue@,
                *config,
                match allowed_claim {
                    Some(id) => Some(id@),
                    None => None,
                },
            ),
    {
        proof {
            views_keep_keys(self.running@);
        }
        if !issue.has_required_fields() {
            return false;
        }
        if !state_in(issue.state.as_str(), config.tracker.active_states.as_slice()) || state_in(
            issue.state.as_str(),
            config.tracker.terminal_states.as_slice(),
        ) {
            return false;
        }
        if self.running.contains_key(issue.id.as_str()) {
            return false;
        }
        if self.claimed.contains_key(issue.id.as_str()) {
            let allowed = match allowed_claim {
                Some(id) => same_text(id, issue.id.as_str()),
                None => false,
            };
            if !allowed {
                return false;
            }
        }
        if !self.global_room(config) || !self.state_room(issue.state.as_str(), config) {
            return false;
        }
        if same_text(normalize_state(issue.state.as_str()).as_str(), "todo") {
            let mut i: usize = 0;
            while i < issue.blocked_by.len()
                invariant
                    i <= issue.blocked_by@.len(),
                    forall|k: int|
                        0 <= k < i ==> settled(#[trigger] issue@.blocked_by[k], *config),
                    lowercase(issue.state@) == "todo"@,
                decreases issue.blocked_by@.len() - i,
            {
                assert(issue@.blocked_by[i as int] == issue.blocked_by@[i as int]@);
                let done = match &issue.blocked_by[i].state {
                    Some(state) => state_in(
                        state.as_str(),
                        config.tracker.terminal_states.as_slice(),
                    ),
                    None => false,
                };
                if !done {
                    return false;
                }
                i += 1;
            }
        }
        true
    }
}

/// The clock gives a time between the start of 1970 and the end of the calendar.
pub open spec fn clock_time(now: Timestamp) -> bool {
    now.nanos < 1_000_000_000 && 0 <= now.seconds <= 0x7ff_ffff_ffff
}

/// The state after an issue was set to wait for its next attempt.
pub open spec fn scheduled(
    s: SchedV,
    id: Seq<char>,
    identifier: Seq<char>,
    attempt: u32,
    delay_ms: u64,
    error: Option<Seq<char>>,
    now: Timestamp,
) -> SchedV {
    SchedV {
        claimed: s.claimed.insert(id),
        retrying: s.retrying.insert(
            id,
            RetryV {
                issue_id: id,
                identifier,
                attempt,
                due_at: plus_millis(now, delay_ms as int),
                due_at_ms: (now.millis() + delay_ms) as u128,
                error,
            },
        ),
        ..s
    }
}

/// The timer of an issue that waits is stopped.
pub open spec fn timer_stopped(s: SchedV, id: Seq<char>) -> Seq<EffectV> {
    if s.retrying.contains_key(id) {
        seq![EffectV::AbortTimer(id)]
    } else {
        Seq::empty()
    }
}

/// What is done when an issue is set to wait: a timer that runs is stopped, and
/// a new one is started.
pub open spec fn timer_started(s: SchedV, id: Seq<char>, delay_ms: u64) -> Seq<EffectV> {
    timer_stopped(s, id).push(EffectV::StartTimer { issue_id: id, delay_ms })
}

/// The state after the claim on an issue was given up.
pub open spec fn released(s: SchedV, id: Seq<char>) -> SchedV {
    SchedV { claimed: s.claimed.remove(id), retrying: s.retrying.remove(id), ..s }
}

/// The state with the settings that the scheduler keeps.
pub open spec fn configured(s: SchedV, config: ServiceConfig) -> SchedV {
    SchedV {
        poll_interval_ms: config.polling.interval_ms,
        max_concurrent_agents: config.agent.max_concurrent_agents,
        max_retry_backoff_ms: config.agent.max_retry_backoff_ms,
        ..s
    }
}

/// The state after the workflow file was read again.
pub open spec fn reread(s: SchedV, refreshed: Result<ServiceConfig, ConfigError>) -> SchedV {
    match refreshed {
        Ok(config) => configured(s, config),
        Err(e) => SchedV { last_error: Some(e.words()), ..s },
    }
}

impl SchedulerState {
    fn schedule_retry(
        &mut self,
        issue_id: String,
        identifier: String,
        attempt: u32,
        delay_ms: u64,
        error: Option<String>,
        now: &Timestamp,
        effects: &mut Vec<Effect>,
    )
        requires
            old(self).maps_wf(),
            clock_time(*now),
            delay_ms <= LONGEST_DELAY_MS,
        ensures
            final(self).maps_wf(),
            final(self)@ == scheduled(
                old(self)@,
                issue_id@,
                identifier@,
                attempt,
                delay_ms,
                opt_text(error),
                *now,
            ),
            effect_views(final(effects)@) == effect_views(old(effects)@) + timer_started(
                old(self)@,
                issue_id@,
                delay_ms,
            ),
    {
        let ghost before = self@;
        let ghost done = effect_views(effects@);
        let ghost waiting = self.retrying@;
        if self.retrying.contains_key(issue_id.as_str()) {
            add_effect(effects, Effect::AbortTimer(issue_id.clone()));
        }
        self.claimed.insert(issue_id.clone(), ());
        let entry = RetryEntry {
            issue_id: issue_id.clone(),
            identifier,
            attempt,
            due_at: later_by(now, delay_ms),
            due_at_ms: now.timestamp_millis() as u128 + delay_ms as u128,
            error,
        };
        let ghost view = entry@;
        let key = issue_id.clone();
        let ghost id = key@;
        self.retrying.insert(key, entry);
        add_effect(effects, Effect::StartTimer { issue_id, delay_ms });
        assert(retry_views(self.retrying@) =~= retry_views(waiting).insert(id, view));
        assert(self@.claimed =~= before.claimed.insert(id));
        assert(self@ =~= scheduled(
            before,
            id,
            identifier@,
            attempt,
            delay_ms,
            opt_text(error),
            *now,
        ));
        assert(effect_views(effects@) =~= done + timer_started(before, id, delay_ms));
    }

    fn release_claim(&mut self, issue_id: &str, effects: &mut Vec<Effect>)
        requires
            old(self).maps_wf(),
        ensures
            final(self).maps_wf(),
            final(self)@ == released(old(self)@, issue_id@),
            effect_views(final(effects)@) == effect_views(old(effects)@) + timer_stopped(
                old(self)@,
                issue_id@,
            ),
    {
        let ghost before = self@;
        let ghost done = effect_views(effects@);
        let ghost waiting = self.retrying@;
        let _ = self.claimed.remove(issue_id);
        if self.retrying.remove(issue_id).is_some() {
            add_effect(effects, Effect::AbortTimer(issue_id.to_owned()));
        }
        assert(retry_views(self.retrying@) =~= retry_views(waiting).remove(issue_id@));
        assert(self@ =~= released(before, issue_id@));
        assert(effect_views(effects@) =~= done + timer_stopped(before, issue_id@));
    }

    /// The limit on waiting that counts.
    pub fn max_retry_backoff_ms(&self) -> (r: u64)
        ensures
            r == self@.backoff_limit(),
    {
        if self.max_retry_backoff_ms == 0 {
            300_000
        } else {
            self.max_retry_backoff_ms
        }
    }

    /// Takes over the settings that the scheduler keeps.
    pub fn apply_config_to_state(&mut self, config: &ServiceConfig)
        ensures
            final(self)@ == configured(old(self)@, *config),
            forall|held: Set<Seq<char>>| #[trigger]
                old(self).holds(held) ==> final(self).holds(held),
    {
        self.poll_interval_ms = config.polling.interval_ms;
        self.max_concurrent_agents = config.agent.max_concurrent_agents;
        self.max_retry_backoff_ms = config.agent.max_retry_backoff_ms;
    }

    /// Keeps an error, or that there is none.
    pub fn set_last_error(&mut self, error: Option<String>)
        ensures
            final(self)@ == (SchedV { last_error: opt_text(error), ..old(self)@ }),
            forall|held: Set<Seq<char>>| #[trigger]
                old(self).holds(held) ==> final(self).holds(held),
    {
        self.last_error = error;
    }

    /// Whether the tracker is to be asked at another interval than before.
    pub fn interval_differs(&self, config: &ServiceConfig) -> (r: bool)
        ensures
            r == (config.polling.interval_ms != self@.poll_interval_ms),
    {
        config.polling.interval_ms != self.poll_interval_ms
    }
}

/// How a worker ended.
#[derive(Debug)]
pub enum WorkerStatus {
    Succeeded,
    Failed(String),
    Cancelled,
}

/// A worker that ended.
#[derive(Debug)]
pub struct WorkerFinished {
    pub issue_id: String,
    pub issue_identifier: String,
    pub attempt: Option<u32>,
    pub started_at: Timestamp,
    pub status: WorkerStatus,
}

/// The number of the attempt after this one; after the last one they start again.
pub open spec fn attempt_after(attempt: Option<u32>) -> u32 {
    match attempt {
        None => 1,
        Some(n) => if n == u32::MAX {
            0
        } else {
            (n + 1) as u32
        },
    }
}

fn next_attempt(attempt: Option<u32>) -> (r: u32)
    ensures
        r == attempt_after(attempt),
{
    match attempt {
        None => 1,
        Some(n) => if n == u32::MAX {
            0
        } else {
            n + 1
        },
    }
}

/// The state without the session of an issue.
pub open spec fn stopped(s: SchedV, id: Seq<char>) -> SchedV {
    SchedV { running: s.running.remove(id), ..s }
}

/// The state after a worker ended. One that succeeded is looked at again after a
/// moment; one that failed is tried again later; one that was cancelled gives
/// its issue up. A worker that is not known any more changes nothing.
pub open spec fn after_worker(s: SchedV, finished: WorkerFinished, now: Timestamp) -> SchedV {
    let id = finished.issue_id@;
    let rest = stopped(s, id);
    if !s.running.contains_key(id) {
        s
    } else {
        match finished.status {
            WorkerStatus::Succeeded => scheduled(
                SchedV { completed: s.completed.insert(id), ..rest },
                id,
                finished.issue_identifier@,
                1,
                CONTINUATION_RETRY_MS,
                None,
                now,
            ),
            WorkerStatus::Failed(error) => {
                let attempt = attempt_after(finished.attempt);
                scheduled(
                    rest,
                    id,
                    finished.issue_identifier@,
                    attempt,
                    retry_delay(attempt, s.backoff_limit()) as u64,
                    Some(error@),
                    now,
                )
            },
            WorkerStatus::Cancelled => SchedV { claimed: rest.claimed.remove(id), ..rest },
        }
    }
}

/// What is done when a worker ended.
pub open spec fn worker_effects(s: SchedV, finished: WorkerFinished) -> Seq<EffectV> {
    let id = finished.issue_id@;
    let ended = EffectV::SessionEnded { ended: finished.started_at };
    if !s.running.contains_key(id) {
        Seq::empty()
    } else {
        match finished.status {
            WorkerStatus::Succeeded => seq![ended] + timer_started(s, id, CONTINUATION_RETRY_MS),
            WorkerStatus::Failed(_) => seq![ended] + timer_started(
                s,
                id,
                retry_delay(attempt_after(finished.attempt), s.backoff_limit()) as u64,
            ),
            WorkerStatus::Cancelled => seq![ended],
        }
    }
}

/// Why a session is ended from outside.
#[derive(Debug)]
pub enum TerminationAction {
    /// It is to be tried again, for that reason.
    Retry(String),
    ReleaseAndCleanup,
    ReleaseOnly,
}

/// What a `TerminationAction` is.
pub enum ActionV {
    Retry(Seq<char>),
    ReleaseAndCleanup,
    ReleaseOnly,
}

impl View for TerminationAction {
    type V = ActionV;

    open spec fn view(&self) -> ActionV {
        match self {
            TerminationAction::Retry(error) => ActionV::Retry(error@),
            TerminationAction::ReleaseAndCleanup => ActionV::ReleaseAndCleanup,
            TerminationAction::ReleaseOnly => ActionV::ReleaseOnly,
        }
    }
}

/// The state after the session of an issue was ended and the issue given up.
pub open spec fn given_up(s: SchedV, id: Seq<char>) -> SchedV {
    if s.running.contains_key(id) {
        released(stopped(s, id), id)
    } else {
        s
    }
}

/// The state after the session of an issue was ended from outside.
pub open spec fn terminated(s: SchedV, id: Seq<char>, action: ActionV, now: Timestamp) -> SchedV {
    let entry = s.running[id];
    let rest = stopped(s, id);
    if !s.running.contains_key(id) {
        s
    } else {
        match action {
            ActionV::Retry(error) => {
                let attempt = attempt_after(entry.attempt);
                scheduled(
                    rest,
                    id,
                    entry.issue_identifier,
                    attempt,
                    retry_delay(attempt, s.backoff_limit()) as u64,
                    Some(error),
                    now,
                )
            },
            _ => given_up(s, id),
        }
    }
}

/// What is done when the session of an issue is ended from outside.
pub open spec fn termination_effects(s: SchedV, id: Seq<char>, action: ActionV) -> Seq<EffectV> {
    let entry = s.running[id];
    let ended = seq![
        EffectV::CancelWorker(id),
        EffectV::SessionEnded { ended: entry.started_at },
    ];
    if !s.running.contains_key(id) {
        Seq::empty()
    } else {
        match action {
            ActionV::Retry(_) => ended + timer_started(
                s,
                id,
                retry_delay(attempt_after(entry.attempt), s.backoff_limit()) as u64,
            ),
            ActionV::ReleaseAndCleanup => (ended + timer_stopped(s, id)).push(
                EffectV::RemoveWorkspace { identifier: entry.issue_identifier },
            ),
            ActionV::ReleaseOnly => ended + timer_stopped(s, id),
        }
    }
}

impl SchedulerState {
    /// Takes in that a worker ended, at a given time.
    pub fn worker_finished_at(&mut self, finished: WorkerFinished, now: &Timestamp) -> (r: Vec<
        Effect,
    >)
        requires
            old(self).wf(),
            clock_time(*now),
        ensures
            final(self).wf(),
            final(self)@ == after_worker(old(self)@, finished, *now),
            effect_views(r@) == worker_effects(old(self)@, finished),
    {
        let ghost before = self@;
        let ghost id = finished.issue_id@;
        let ghost entries = self.running@;
        let mut effects: Vec<Effect> = Vec::new();
        assert(effect_views(effects@) =~= Seq::<EffectV>::empty());
        proof {
            views_keep_keys(entries);
        }
        if self.running.remove(finished.issue_id.as_str()).is_none() {
            assert(self@.running =~= before.running);
            assert(self@ =~= before);
            return effects;
        }
        assert(running_views(self.running@) =~= running_views(entries).remove(id));
        assert(self@ =~= stopped(before, id));
        add_effect(&mut effects, Effect::SessionEnded { started_at: finished.started_at });
        let ghost ended = EffectV::SessionEnded { ended: finished.started_at };
        assert(effect_views(effects@) =~= seq![ended]);
        match finished.status {
            WorkerStatus::Succeeded => {
                self.completed.insert(finished.issue_id.clone(), ());
                assert(self@ =~= (SchedV {
                    completed: before.completed.insert(id),
                    ..stopped(before, id)
                }));
                self.schedule_retry(
                    finished.issue_id,
                    finished.issue_identifier,
                    1,
                    CONTINUATION_RETRY_MS,
                    None,
                    now,
                    &mut effects,
                );
            },
            WorkerStatus::Failed(error) => {
                let attempt: u32 = next_attempt(finished.attempt);
                let delay_ms: u64 = retry_delay_ms(attempt, self.max_retry_backoff_ms());
                self.schedule_retry(
                    finished.issue_id,
                    finished.issue_identifier,
                    attempt,
                    delay_ms,
                    Some(error),
                    now,
                    &mut effects,
                );
            },
            WorkerStatus::Cancelled => {
                let _ = self.claimed.remove(finished.issue_id.as_str());
                assert(self@.claimed =~= before.claimed.remove(id));
            },
        }
        assert(self@ =~= after_worker(before, finished, *now));
        assert(effect_views(effects@) =~= worker_effects(before, finished));
        effects
    }

    /// Takes in that a worker ended.
    pub fn handle_worker_finished(&mut self, finished: WorkerFinished) -> (r: Vec<Effect>)
        requires
            old(self).wf(),
        ensures
            final(self).wf(),
            exists|now: Timestamp| #[trigger]
                clock_time(now) && final(self)@ == after_worker(old(self)@, finished, now),
            effect_views(r@) == worker_effects(old(self)@, finished),
    {
        let now = utc_now();
        assert(clock_time(now));
        self.worker_finished_at(finished, &now)
    }

    fn end_session(&mut self, issue_id: &str, effects: &mut Vec<Effect>) -> (r: Option<RunningEntry>)
        requires
            old(self).maps_wf(),
        ensures
            final(self).maps_wf(),
            match r {
                Some(entry) => {
                    &&& old(self)@.running.contains_key(issue_id@)
                    &&& entry@ == old(self)@.running[issue_id@]
                    &&& final(self)@ == stopped(old(self)@, issue_id@)
                    &&& effect_views(final(effects)@) == effect_views(old(effects)@) + seq![
                        EffectV::CancelWorker(issue_id@),
                        EffectV::SessionEnded { ended: entry.started_at },
                    ]
                },
                None => {
                    &&& !old(self)@.running.contains_key(issue_id@)
                    &&& final(self)@ == old(self)@
                    &&& effect_views(final(effects)@) == effect_views(old(effects)@)
                },
            },
    {
        let ghost before = self@;
        let ghost id = issue_id@;
        let ghost entries = self.running@;
        let ghost done = effect_views(effects@);
        proof {
            views_keep_keys(entries);
        }
        let entry = match self.running.remove(issue_id) {
            Some(entry) => entry,
            None => {
                assert(self@.running =~= before.running);
                assert(self@ =~= before);
                return None;
            },
        };
        assert(running_views(self.running@) =~= running_views(entries).remove(id));
        assert(self@ =~= stopped(before, id));
        add_effect(effects, Effect::CancelWorker(issue_id.to_owned()));
        add_effect(effects, Effect::SessionEnded { started_at: entry.started_at });
        assert(effect_views(effects@) =~= done + seq![
            EffectV::CancelWorker(id),
            EffectV::SessionEnded { ended: entry.started_at },
        ]);
        Some(entry)
    }

    fn give_up(&mut self, issue_id: &str, clean: bool, effects: &mut Vec<Effect>)
        requires
            old(self).wf(),
        ensures
            final(self).wf(),
            final(self)@ == given_up(old(self)@, issue_id@),
            effect_views(final(effects)@) == effect_views(old(effects)@) + termination_effects(
                old(self)@,
                issue_id@,
                if clean {
                    ActionV::ReleaseAndCleanup
                } else {
                    ActionV::ReleaseOnly
                },
            ),
    {
        let ghost before = self@;
        let ghost done = effect_views(effects@);
        let ghost action = if clean {
            ActionV::ReleaseAndCleanup
        } else {
            ActionV::ReleaseOnly
        };
        if let Some(entry) = self.end_session(issue_id, effects) {
            self.release_claim(entry.issue_id.as_str(), effects);
            if clean {
                add_effect(effects, Effect::RemoveWorkspace { identifier: entry.issue_identifier });
            }
        }
        assert(effect_views(effects@) =~= done + termination_effects(before, issue_id@, action));
    }

    fn terminate(
        &mut self,
        issue_id: &str,
        action: TerminationAction,
        now: &Timestamp,
        effects: &mut Vec<Effect>,
    )
        requires
            old(self).wf(),
            clock_time(*now),
        ensures
            final(self).wf(),
            final(self)@ == terminated(old(self)@, issue_id@, action@, *now),
            effect_views(final(effects)@) == effect_views(old(effects)@) + termination_effects(
                old(self)@,
                issue_id@,
                action@,
            ),
    {
        let ghost before = self@;
        let ghost done = effect_views(effects@);
        match action {
            TerminationAction::Retry(error) => {
                if let Some(entry) = self.end_session(issue_id, effects) {
                    let attempt: u32 = next_attempt(entry.attempt);
                    let delay_ms: u64 = retry_delay_ms(attempt, self.max_retry_backoff_ms());
                    self.schedule_retry(
                        entry.issue_id,
                        entry.issue_identifier,
                        attempt,
                        delay_ms,
                        Some(error),
                        now,
                        effects,
                    );
                }
                assert(effect_views(effects@) =~= done + termination_effects(
                    before,
                    issue_id@,
                    action@,
                ));
            },
            TerminationAction::ReleaseAndCleanup => self.give_up(issue_id, true, effects),
            TerminationAction::ReleaseOnly => self.give_up(issue_id, false, effects),
        }
    }

    /// Ends the session of an issue from outside, at a given time.
    pub fn terminate_running_at(
        &mut self,
        issue_id: &str,
        action: TerminationAction,
        now: &Timestamp,
    ) -> (r: Vec<Effect>)
        requires
            old(self).wf(),
            clock_time(*now),
        ensures
            final(self).wf(),
            final(self)@ == terminated(old(self)@, issue_id@, action@, *now),
            effect_views(r@) == termination_effects(old(self)@, issue_id@, action@),
    {
        let mut effects: Vec<Effect> = Vec::new();
        let ghost expected = termination_effects(self@, issue_id@, action@);
        assert(effect_views(effects@) + expected =~= expected);
        self.terminate(issue_id, action, now, &mut effects);
        effects
    }

    /// Ends the session of an issue from outside.
    pub fn terminate_running(&mut self, issue_id: &str, action: TerminationAction) -> (r: Vec<
        Effect,
    >)
        requires
            old(self).wf(),
        ensures
            final(self).wf(),
            exists|now: Timestamp| #[trigger]
                clock_time(now) && final(self)@ == terminated(
                    old(self)@,
                    issue_id@,
                    action@,
                    now,
                ),
            effect_views(r@) == termination_effects(old(self)@, issue_id@, action@),
    {
        let now = utc_now();
        assert(clock_time(now));
        self.terminate_running_at(issue_id, action, &now)
    }
}

/// The components of the path of the workspace of an issue.
pub open spec fn home_parts(config: ServiceConfig, identifier: Seq<char>) -> Seq<PartV> {
    workspace_parts(normalized(buf_parts(config.workspace.root)), key_of(identifier))
}

/// The workspace of an issue lies below the root.
pub open spec fn has_home(config: ServiceConfig, identifier: Seq<char>) -> bool {
    starts_with_parts(
        home_parts(config, identifier),
        normalized(buf_parts(config.workspace.root)),
    )
}

/// The root of the workspaces, normalized.
pub open spec fn root_place(config: ServiceConfig) -> &'static Path {
    normal_path(buf_parts(config.workspace.root))
}

/// The path of the workspace of an issue: that of its key behind the root,
/// normalized.
pub open spec fn home_place(config: ServiceConfig, identifier: Seq<char>) -> &'static Path {
    normal_path(path_parts(path_joined(root_place(config), text_path(key_of(identifier)))))
}

/// That is the path of the workspace of an issue, or there is none because it
/// would lie outside the root. Where all components of the root are steady, these
/// decide.
pub open spec fn is_home(
    config: ServiceConfig,
    identifier: Seq<char>,
    home: Option<PathBuf>,
) -> bool {
    &&& home is Some == inside(root_place(config), home_place(config, identifier))
    &&& home matches Some(path) ==> path_of(&path) == home_place(config, identifier)
    &&& prefix_free(buf_parts(config.workspace.root)) ==> match home {
        Some(path) => has_home(config, identifier) && buf_parts(path) == home_parts(
            config,
            identifier,
        ),
        None => !has_home(config, identifier),
    }
}

fn home_for(config: &ServiceConfig, identifier: &str) -> (r: Option<PathBuf>)
    ensures
        is_home(*config, identifier@, r),
{
    let manager = WorkspaceManager::new(config.workspace.root.clone());
    proof {
        let root = buf_parts(config.workspace.root);
        normalized_is_plain(root);
        normalized_idempotent(root);
    }
    match manager.workspace_path(identifier) {
        Ok((_, path)) => Some(path),
        Err(_) => None,
    }
}

/// The state after a session on an issue was started.
pub open spec fn begun(
    s: SchedV,
    issue: IssueV,
    attempt: Option<u32>,
    path: PathBuf,
    now: Timestamp,
) -> SchedV {
    SchedV {
        claimed: s.claimed.insert(issue.id),
        running: s.running.insert(
            issue.id,
            RunningV {
                issue_id: issue.id,
                issue_identifier: issue.identifier,
                issue,
                attempt,
                workspace_path: path,
                started_at: now,
                live_session: fresh_session(),
            },
        ),
        ..s
    }
}

/// A session on an issue is started: there is a place for its workspace, and
/// nobody has claimed it.
pub open spec fn starts(s: SchedV, issue: IssueV, home: Option<PathBuf>) -> bool {
    home is Some && !s.claimed.contains(issue.id) && !s.running.contains_key(issue.id)
}

/// The state after an issue was dispatched.
pub open spec fn after_dispatch(
    s: SchedV,
    issue: IssueV,
    attempt: Option<u32>,
    home: Option<PathBuf>,
    now: Timestamp,
) -> SchedV {
    if starts(s, issue, home) {
        begun(s, issue, attempt, home->0, now)
    } else {
        s
    }
}

/// What is done when an issue is dispatched.
pub open spec fn dispatch_effects(
    s: SchedV,
    issue: IssueV,
    attempt: Option<u32>,
    home: Option<PathBuf>,
    now: Timestamp,
) -> Seq<EffectV> {
    if starts(s, issue, home) {
        seq![EffectV::StartWorker { issue, attempt, started_at: now }]
    } else {
        Seq::empty()
    }
}

impl SchedulerState {
    fn begin_session(
        &mut self,
        issue: Issue,
        attempt: Option<u32>,
        home: Option<PathBuf>,
        now: &Timestamp,
        effects: &mut Vec<Effect>,
    )
        requires
            old(self).wf(),
        ensures
            final(self).wf(),
            final(self)@ == after_dispatch(old(self)@, issue@, attempt, home, *now),
            effect_views(final(effects)@) == effect_views(old(effects)@) + dispatch_effects(
                old(self)@,
                issue@,
                attempt,
                home,
                *now,
            ),
    {
        let ghost before = self@;
        let ghost entries = self.running@;
        let ghost done = effect_views(effects@);
        proof {
            views_keep_keys(entries);
            assert(done + Seq::<EffectV>::empty() =~= done);
        }
        let path = match home {
            Some(path) => path,
            None => return ,
        };
        if self.claimed.contains_key(issue.id.as_str()) || self.running.contains_key(
            issue.id.as_str(),
        ) {
            return ;
        }
        self.claimed.insert(issue.id.clone(), ());
        let entry = RunningEntry {
            issue_id: issue.id.clone(),
            issue_identifier: issue.identifier.clone(),
            issue: issue.clone(),
            attempt,
            workspace_path: path,
            started_at: *now,
            live_session: LiveSession::default(),
        };
        let ghost view = entry@;
        self.running.insert(issue.id.clone(), entry);
        assert(running_views(self.running@) =~= running_views(entries).insert(issue@.id, view));
        assert(self@.claimed =~= before.claimed.insert(issue@.id));
        assert(self@ =~= begun(before, issue@, attempt, path, *now));
        assert(self@.running.dom() =~= before.running.dom().insert(issue@.id));
        let ghost started = EffectV::StartWorker { issue: issue@, attempt, started_at: *now };
        add_effect(effects, Effect::StartWorker { issue, attempt, started_at: *now });
        assert(effect_views(effects@) =~= done + seq![started]);
    }

    /// Dispatches an issue at a given time: a session on it is started, unless
    /// its workspace would lie outside the root or it is claimed.
    pub fn dispatch_issue_at(
        &mut self,
        issue: Issue,
        attempt: Option<u32>,
        config: &ServiceConfig,
        now: &Timestamp,
    ) -> (r: Vec<Effect>)
        requires
            old(self).wf(),
        ensures
            final(self).wf(),
            exists|home: Option<PathBuf>|
                {
                    &&& #[trigger] is_home(*config, issue@.identifier, home)
                    &&& final(self)@ == after_dispatch(old(self)@, issue@, attempt, home, *now)
                    &&& effect_views(r@) == dispatch_effects(
                        old(self)@,
                        issue@,
                        attempt,
                        home,
                        *now,
                    )
                },
    {
        let home = home_for(config, issue.identifier.as_str());
        let mut effects: Vec<Effect> = Vec::new();
        let ghost expected = dispatch_effects(self@, issue@, attempt, home, *now);
        assert(effect_views(effects@) + expected =~= expected);
        self.begin_session(issue, attempt, home, now, &mut effects);
        effects
    }

    /// Dispatches an issue.
    pub fn dispatch_issue(&mut self, issue: Issue, attempt: Option<u32>, config: &ServiceConfig) -> (r:
        Vec<Effect>)
        requires
            old(self).wf(),
        ensures
            final(self).wf(),
            exists|home: Option<PathBuf>, now: Timestamp|
                {
                    &&& #[trigger] is_home(*config, issue@.identifier, home)
                    &&& #[trigger] clock_time(now)
                    &&& final(self)@ == after_dispatch(old(self)@, issue@, attempt, home, now)
                    &&& effect_views(r@) == dispatch_effects(
                        old(self)@,
                        issue@,
                        attempt,
                        home,
                        now,
                    )
                },
    {
        let now = utc_now();
        assert(clock_time(now));
        self.dispatch_issue_at(issue, attempt, config, &now)
    }
}

/// Where the workspace of an issue is, if anywhere, and when it is dispatched.
pub struct Choice {
    pub home: Option<PathBuf>,
    pub now: Timestamp,
}

/// The state after the candidates were gone through in order: each one that can
/// be dispatched when its turn comes is dispatched.
pub open spec fn after_candidates(
    s: SchedV,
    issues: Seq<IssueV>,
    config: ServiceConfig,
    choices: Seq<Choice>,
) -> SchedV
    decreases issues.len(),
{
    if issues.len() == 0 {
        s
    } else {
        let before = after_candidates(s, issues.drop_last(), config, choices);
        let issue = issues.last();
        let choice = choices[issues.len() - 1];
        if eligible(before, issue, config, None) {
            after_dispatch(before, issue, None, choice.home, choice.now)
        } else {
            before
        }
    }
}

/// What is done when the candidates are gone through.
pub open spec fn candidate_effects(
    s: SchedV,
    issues: Seq<IssueV>,
    config: ServiceConfig,
    choices: Seq<Choice>,
) -> Seq<EffectV>
    decreases issues.len(),
{
    if issues.len() == 0 {
        Seq::empty()
    } else {
        let before = after_candidates(s, issues.drop_last(), config, choices);
        let done = candidate_effects(s, issues.drop_last(), config, choices);
        let issue = issues.last();
        let choice = choices[issues.len() - 1];
        if eligible(before, issue, config, None) {
            done + dispatch_effects(before, issue, None, choice.home, choice.now)
        } else {
            done
        }
    }
}

/// The choices are those of the workspaces and of the clock, for every candidate
/// that is dispatched.
pub open spec fn choices_fit(
    s: SchedV,
    issues: Seq<IssueV>,
    config: ServiceConfig,
    choices: Seq<Choice>,
) -> bool
    decreases issues.len(),
{
    if issues.len() == 0 {
        true
    } else {
        let before = after_candidates(s, issues.drop_last(), config, choices);
        let issue = issues.last();
        let choice = choices[issues.len() - 1];
        &&& choices_fit(s, issues.drop_last(), config, choices)
        &&& eligible(before, issue, config, None) ==> is_home(
            config,
            issue.identifier,
            choice.home,
        ) && clock_time(choice.now)
    }
}

/// The candidates were gone through in order, which led from `s` to `t` and to
/// those effects, for some workspaces and some readings of the clock.
pub open spec fn dispatches(
    s: SchedV,
    issues: Seq<IssueV>,
    config: ServiceConfig,
    t: SchedV,
    effects: Seq<EffectV>,
) -> bool {
    exists|choices: Seq<Choice>|
        {
            &&& #[trigger] choices_fit(s, issues, config, choices)
            &&& t == after_candidates(s, issues, config, choices)
            &&& effects == candidate_effects(s, issues, config, choices)
        }
}

/// The tracker said which issues can be worked on, which led from `s` to `t` and to
/// those effects: the issues were gone through in their order, or the error is kept.
pub open spec fn takes_candidates(
    s: SchedV,
    fetched: Result<Vec<Issue>, TrackerError>,
    config: ServiceConfig,
    t: SchedV,
    effects: Seq<EffectV>,
) -> bool {
    match fetched {
        Ok(issues) => exists|gone: SchedV|
            {
                &&& #[trigger] dispatches(
                    s,
                    in_rank_order(issue_views(issues@)),
                    config,
                    gone,
                    effects,
                )
                &&& t == (SchedV { last_error: None, ..gone })
            },
        Err(e) => {
            &&& t == (SchedV { last_error: Some(e@.words()), ..s })
            &&& effects.len() == 0
        },
    }
}

proof fn choices_push(
    s: SchedV,
    issues: Seq<IssueV>,
    config: ServiceConfig,
    choices: Seq<Choice>,
    choice: Choice,
)
    requires
        issues.len() <= choices.len(),
    ensures
        after_candidates(s, issues, config, choices.push(choice)) == after_candidates(
            s,
            issues,
            config,
            choices,
        ),
        candidate_effects(s, issues, config, choices.push(choice)) == candidate_effects(
            s,
            issues,
            config,
            choices,
        ),
        choices_fit(s, issues, config, choices.push(choice)) == choices_fit(
            s,
            issues,
            config,
            choices,
        ),
    decreases issues.len(),
{
    if issues.len() > 0 {
        choices_push(s, issues.drop_last(), config, choices, choice);
        assert(choices.push(choice)[issues.len() - 1] == choices[issues.len() - 1]);
    }
}

impl SchedulerState {
    /// Goes through the candidates in order and dispatches each one that can be
    /// dispatched when its turn comes.
    pub fn dispatch_candidates(&mut self, issues: Vec<Issue>, config: &ServiceConfig) -> (r: Vec<
        Effect,
    >)
        requires
            old(self).wf(),
            config.wf(),
        ensures
            final(self).wf(),
            dispatches(
                old(self)@,
                issue_views(issues@),
                *config,
                final(self)@,
                effect_views(r@),
            ),
    {
        let ghost start = self@;
        let ghost all = issue_views(issues@);
        let ghost mut choices = Seq::<Choice>::empty();
        let mut effects: Vec<Effect> = Vec::new();
        assert(effect_views(effects@) =~= Seq::<EffectV>::empty());
        let ghost listed = issues@;
        assert(all.take(0).len() == 0);
        for issue in it: issues
            invariant
                it.seq() == listed,
                all == issue_views(listed),
                config.wf(),
                self.wf(),
                choices.len() == it.index(),
                choices_fit(start, all.take(it.index() as int), *config, choices),
                self@ == after_candidates(start, all.take(it.index() as int), *config, choices),
                effect_views(effects@) == candidate_effects(
                    start,
                    all.take(it.index() as int),
                    *config,
                    choices,
                ),
        {
            let ghost i = it.index() as int;
            let ghost done = all.take(i);
            let ghost view = issue@;
            assert(all.take(i + 1).drop_last() == done);
            assert(all.take(i + 1).last() == view);
            let ghost before = self@;
            let fits = candidate_eligible(self, &issue, config, None);
            if fits {
                let home = home_for(config, issue.identifier.as_str());
                let now = utc_now();
                self.begin_session(issue, None, home, &now, &mut effects);
                proof {
                    let choice = Choice { home, now };
                    choices_push(start, done, *config, choices, choice);
                    choices = choices.push(choice);
                    assert(choices[i] == choice);
                }
            } else {
                proof {
                    let choice = arbitrary::<Choice>();
                    choices_push(start, done, *config, choices, choice);
                    choices = choices.push(choice);
                }
            }
        }
        assert(all.take(all.len() as int) == all);
        effects
    }

    /// Takes in what the tracker said of the issues that can be worked on: they
    /// are dispatched in their order, or the error is kept.
    pub fn candidates_fetched(
        &mut self,
        fetched: Result<Vec<Issue>, TrackerError>,
        config: &ServiceConfig,
    ) -> (r: Vec<Effect>)
        requires
            old(self).wf(),
            config.wf(),
            fetched matches Err(e) ==> e@.wf(),
        ensures
            final(self).wf(),
            takes_candidates(old(self)@, fetched, *config, final(self)@, effect_views(r@)),
    {
        match fetched {
            Ok(issues) => {
                let mut ordered = issues;
                sort_candidates(&mut ordered);
                let effects = self.dispatch_candidates(ordered, config);
                self.set_last_error(None);
                effects
            },
            Err(e) => {
                self.set_last_error(Some(e.to_text()));
                Vec::new()
            },
        }
    }

    /// Takes in what the workflow file holds now: the settings are taken over,
    /// or the error is kept.
    pub fn config_refreshed(&mut self, refreshed: &Result<ServiceConfig, ConfigError>)
        requires
            old(self).wf(),
        ensures
            final(self).wf(),
            final(self)@ == reread(old(self)@, *refreshed),
    {
        match refreshed {
            Ok(config) => self.apply_config_to_state(config),
            Err(e) => self.set_last_error(Some(e.to_text())),
        }
    }
}

/// The first issue with that id.
pub open spec fn first_with_id(issues: Seq<IssueV>, id: Seq<char>) -> Option<IssueV>
    decreases issues.len(),
{
    if issues.len() == 0 {
        None
    } else if issues[0].id == id {
        Some(issues[0])
    } else {
        first_with_id(issues.drop_first(), id)
    }
}

fn find_issue(issues: Vec<Issue>, id: &str) -> (r: Option<Issue>)
    ensures
        match r {
            Some(issue) => first_with_id(issue_views(issues@), id@) == Some(issue@),
            None => first_with_id(issue_views(issues@), id@) is None,
        },
{
    let ghost all = issue_views(issues@);
    let mut i: usize = 0;
    assert(all.skip(0) == all);
    while i < issues.len()
        invariant
            i <= issues@.len(),
            all == issue_views(issues@),
            first_with_id(all, id@) == first_with_id(all.skip(i as int), id@),
        decreases issues@.len() - i,
    {
        assert(all.skip(i as int)[0] == issues@[i as int]@);
        assert(all.skip(i as int).drop_first() == all.skip(i + 1));
        if same_text(issues[i].id.as_str(), id) {
            return Some(issues[i].clone());
        }
        i += 1;
    }
    None
}

/// What came of looking at an issue whose wait is over.
pub enum RetryOutcome {
    /// There is no configuration to go by.
    Unconfigured(ConfigError),
    /// The tracker did not say which issues can be worked on.
    Unfetched(TrackerError),
    /// The issues that can be worked on.
    Fetched { candidates: Vec<Issue>, config: ServiceConfig },
}

impl RetryOutcome {
    /// What the outcome rests on is well formed.
    pub open spec fn wf(self) -> bool {
        match self {
            RetryOutcome::Unconfigured(_) => true,
            RetryOutcome::Unfetched(e) => e@.wf(),
            RetryOutcome::Fetched { candidates, config } => config.wf(),
        }
    }

    /// The issue whose wait is over, as the tracker has it now.
    pub open spec fn found(self, id: Seq<char>) -> Option<IssueV> {
        match self {
            RetryOutcome::Fetched { candidates, config } => first_with_id(
                in_rank_order(issue_views(candidates@)),
                id,
            ),
            _ => None,
        }
    }
}

/// The state in which the claim on an issue is free.
pub open spec fn unclaimed(s: SchedV, id: Seq<char>) -> SchedV {
    SchedV { claimed: s.claimed.remove(id), ..s }
}

/// The state after an issue whose wait is over was looked at. Without a
/// configuration it is looked at again after a moment, without an answer of the
/// tracker later. An issue that can be dispatched is dispatched; one for which
/// there is no room is looked at again after a moment; any other is given up.
pub open spec fn after_retry(
    s: SchedV,
    entry: RetryV,
    outcome: RetryOutcome,
    home: Option<PathBuf>,
    now: Timestamp,
) -> SchedV {
    let id = entry.issue_id;
    match outcome {
        RetryOutcome::Unconfigured(e) => scheduled(
            s,
            id,
            entry.identifier,
            entry.attempt,
            CONTINUATION_RETRY_MS,
            Some(e.words()),
            now,
        ),
        RetryOutcome::Unfetched(e) => scheduled(
            s,
            id,
            entry.identifier,
            entry.attempt,
            retry_delay(entry.attempt, s.backoff_limit()) as u64,
            Some(e@.words()),
            now,
        ),
        RetryOutcome::Fetched { candidates, config } => match outcome.found(id) {
            Some(issue) => if eligible(s, issue, config, Some(id)) {
                after_dispatch(unclaimed(s, id), issue, Some(entry.attempt), home, now)
            } else if global_slot(s, config) && state_slot(s, issue.state, config) {
                released(s, id)
            } else {
                scheduled(
                    s,
                    id,
                    entry.identifier,
                    entry.attempt,
                    CONTINUATION_RETRY_MS,
                    Some("no available orchestrator slots"@),
                    now,
                )
            },
            None => released(s, id),
        },
    }
}

/// What is done when an issue whose wait is over was looked at.
pub open spec fn retry_effects(
    s: SchedV,
    entry: RetryV,
    outcome: RetryOutcome,
    home: Option<PathBuf>,
    now: Timestamp,
) -> Seq<EffectV> {
    let id = entry.issue_id;
    match outcome {
        RetryOutcome::Unconfigured(_) => timer_started(s, id, CONTINUATION_RETRY_MS),
        RetryOutcome::Unfetched(_) => timer_started(
            s,
            id,
            retry_delay(entry.attempt, s.backoff_limit()) as u64,
        ),
        RetryOutcome::Fetched { candidates, config } => match outcome.found(id) {
            Some(issue) => if eligible(s, issue, config, Some(id)) {
                dispatch_effects(unclaimed(s, id), issue, Some(entry.attempt), home, now)
            } else if global_slot(s, config) && state_slot(s, issue.state, config) {
                timer_stopped(s, id)
            } else {
                timer_started(s, id, CONTINUATION_RETRY_MS)
            },
            None => timer_stopped(s, id),
        },
    }
}

/// That is the path of the workspace of the issue, where it is dispatched.
pub open spec fn retry_home(
    s: SchedV,
    entry: RetryV,
    outcome: RetryOutcome,
    home: Option<PathBuf>,
) -> bool {
    match (outcome, outcome.found(entry.issue_id)) {
        (RetryOutcome::Fetched { candidates, config }, Some(issue)) => eligible(
            s,
            issue,
            config,
            Some(entry.issue_id),
        ) ==> is_home(config, issue.identifier, home),
        _ => true,
    }
}

/// Setting an issue to wait that is not worked on keeps the state consistent.
pub proof fn scheduled_consistent(
    s: SchedV,
    held: Set<Seq<char>>,
    id: Seq<char>,
    identifier: Seq<char>,
    attempt: u32,
    delay_ms: u64,
    error: Option<Seq<char>>,
    now: Timestamp,
)
    requires
        s.consistent(held),
        !s.running.contains_key(id),
    ensures
        scheduled(s, id, identifier, attempt, delay_ms, error, now).consistent(held.remove(id)),
{
    let t = scheduled(s, id, identifier, attempt, delay_ms, error, now);
    assert forall|k: Seq<char>| #[trigger] t.claimed.contains(k) <==> t.running.contains_key(k)
        || t.retrying.contains_key(k) || held.remove(id).contains(k) by {
        assert(s.claimed.contains(k) || !s.claimed.contains(k));
    }
}

/// Giving up an issue that is not worked on keeps the state consistent.
pub proof fn released_consistent(s: SchedV, held: Set<Seq<char>>, id: Seq<char>)
    requires
        s.consistent(held),
        !s.running.contains_key(id),
    ensures
        released(s, id).consistent(held.remove(id)),
{
    let t = released(s, id);
    assert forall|k: Seq<char>| #[trigger] t.claimed.contains(k) <==> t.running.contains_key(k)
        || t.retrying.contains_key(k) || held.remove(id).contains(k) by {
        assert(s.claimed.contains(k) || !s.claimed.contains(k));
    }
}

/// The issue that is found has the id that was looked for.
pub proof fn found_has_id(issues: Seq<IssueV>, id: Seq<char>)
    ensures
        first_with_id(issues, id) matches Some(issue) ==> issue.id == id,
    decreases issues.len(),
{
    if issues.len() > 0 && issues[0].id != id {
        found_has_id(issues.drop_first(), id);
    }
}

/// The entry of an issue whose wait is over was taken out, which led from `s` to
/// `t`; there is none where the issue does not wait.
pub open spec fn taken_out(
    s: SchedV,
    id: Seq<char>,
    taken: Option<RetryEntry>,
    t: SchedV,
) -> bool {
    match taken {
        Some(entry) => {
            &&& s.retrying.contains_key(id)
            &&& entry@ == s.retrying[id]
            &&& t == (SchedV { retrying: s.retrying.remove(id), ..s })
        },
        None => !s.retrying.contains_key(id) && t == s,
    }
}

impl SchedulerState {
    /// Takes out an issue whose wait is over. Its claim stays until it is known
    /// what becomes of it.
    pub fn take_due(&mut self, issue_id: &str) -> (r: Option<RetryEntry>)
        requires
            old(self).wf(),
        ensures
            taken_out(old(self)@, issue_id@, r, final(self)@),
            r matches Some(entry) ==> entry@.issue_id == issue_id@,
            r is Some ==> final(self).holds(Set::empty().insert(issue_id@)),
            r is None ==> final(self).wf(),
    {
        let ghost waiting = self.retrying@;
        let ghost before = self@;
        let r = self.retrying.remove(issue_id);
        assert(retry_views(self.retrying@) =~= retry_views(waiting).remove(issue_id@));
        assert(r is None ==> retry_views(self.retrying@) =~= retry_views(waiting));
        assert(r is None ==> self@ =~= before);
        proof {
            let held = Set::<Seq<char>>::empty().insert(issue_id@);
            if r is Some {
                assert(before.retrying.contains_key(issue_id@));
                assert(!before.running.contains_key(issue_id@));
                assert forall|k: Seq<char>| #[trigger]
                    self@.claimed.contains(k) <==> self@.running.contains_key(k)
                        || self@.retrying.contains_key(k) || held.contains(k) by {
                    assert(before.claimed.contains(k) <==> before.running.contains_key(k)
                        || before.retrying.contains_key(k));
                    assert(held.contains(k) <==> k == issue_id@);
                    assert(self@.retrying == before.retrying.remove(issue_id@));
                }
                assert(self@.consistent(held));
            }
        }
        r
    }

    /// Takes in what came of looking at an issue whose wait is over, at a given
    /// time.
    pub fn retry_due_at(&mut self, entry: RetryEntry, outcome: RetryOutcome, now: &Timestamp) -> (r:
        Vec<Effect>)
        requires
            old(self).holds(Set::empty().insert(entry@.issue_id)),
            outcome.wf(),
            clock_time(*now),
        ensures
            final(self).wf(),
            exists|home: Option<PathBuf>|
                {
                    &&& #[trigger] retry_home(old(self)@, entry@, outcome, home)
                    &&& final(self)@ == after_retry(old(self)@, entry@, outcome, home, *now)
                    &&& effect_views(r@) == retry_effects(
                        old(self)@,
                        entry@,
                        outcome,
                        home,
                        *now,
                    )
                },
    {
        let ghost before = self@;
        let ghost e = entry@;
        let ghost id = entry@.issue_id;
        let mut home: Option<PathBuf> = None;
        let mut effects: Vec<Effect> = Vec::new();
        assert(effect_views(effects@) =~= Seq::<EffectV>::empty());
        let ghost o = outcome;
        proof {
            let held = Set::<Seq<char>>::empty().insert(id);
            assert(held.contains(id));
            assert(held.remove(id) =~= Set::<Seq<char>>::empty());
            assert forall|a: u32, d: u64, w: Option<Seq<char>>| #[trigger]
                scheduled(before, id, e.identifier, a, d, w, *now).consistent(Set::empty()) by {
                scheduled_consistent(before, held, id, e.identifier, a, d, w, *now);
            }
            released_consistent(before, held, id);
            assert(unclaimed(before, id).retrying =~= released(before, id).retrying);
        }
        match outcome {
            RetryOutcome::Unconfigured(error) => {
                self.schedule_retry(
                    entry.issue_id,
                    entry.identifier,
                    entry.attempt,
                    CONTINUATION_RETRY_MS,
                    Some(error.to_text()),
                    now,
                    &mut effects,
                );
            },
            RetryOutcome::Unfetched(error) => {
                let delay_ms: u64 = retry_delay_ms(entry.attempt, self.max_retry_backoff_ms());
                self.schedule_retry(
                    entry.issue_id,
                    entry.identifier,
                    entry.attempt,
                    delay_ms,
                    Some(error.to_text()),
                    now,
                    &mut effects,
                );
            },
            RetryOutcome::Fetched { candidates, config } => {
                let mut ordered = candidates;
                sort_candidates(&mut ordered);
                proof {
                    found_has_id(issue_views(ordered@), id);
                }
                match find_issue(ordered, entry.issue_id.as_str()) {
                    Some(issue) => {
                        assert(o.found(id) == Some(issue@));
                        if self.accepts(&issue, &config, Some(entry.issue_id.as_str())) {
                            let _ = self.claimed.remove(entry.issue_id.as_str());
                            assert(self@.claimed =~= before.claimed.remove(id));
                            assert(self@ =~= unclaimed(before, id));
                            home = home_for(&config, issue.identifier.as_str());
                            self.begin_session(
                                issue,
                                Some(entry.attempt),
                                home.clone(),
                                now,
                                &mut effects,
                            );
                        } else if self.global_room(&config) && self.state_room(
                            issue.state.as_str(),
                            &config,
                        ) {
                            self.release_claim(entry.issue_id.as_str(), &mut effects);
                        } else {
                            self.schedule_retry(
                                entry.issue_id,
                                entry.identifier,
                                entry.attempt,
                                CONTINUATION_RETRY_MS,
                                Some("no available orchestrator slots".to_owned()),
                                now,
                                &mut effects,
                            );
                        }
                    },
                    None => {
                        assert(o.found(id) is None);
                        self.release_claim(entry.issue_id.as_str(), &mut effects);
                    },
                }
            },
        }
        assert(retry_home(before, e, o, home));
        assert(self@ =~= after_retry(before, e, o, home, *now));
        assert(effect_views(effects@) =~= retry_effects(before, e, o, home, *now));
        effects
    }

    /// Takes in what came of looking at an issue whose wait is over.
    pub fn handle_retry_due(&mut self, entry: RetryEntry, outcome: RetryOutcome) -> (r: Vec<Effect>)
        requires
            old(self).holds(Set::empty().insert(entry@.issue_id)),
            outcome.wf(),
        ensures
            final(self).wf(),
            exists|home: Option<PathBuf>, now: Timestamp|
                {
                    &&& #[trigger] retry_home(old(self)@, entry@, outcome, home)
                    &&& #[trigger] clock_time(now)
                    &&& final(self)@ == after_retry(old(self)@, entry@, outcome, home, now)
                    &&& effect_views(r@) == retry_effects(
                        old(self)@,
                        entry@,
                        outcome,
                        home,
                        now,
                    )
                },
    {
        let now = utc_now();
        assert(clock_time(now));
        self.retry_due_at(entry, outcome, &now)
    }
}

/// The state in which an issue that is worked on is in another state of the
/// tracker.
pub open spec fn with_state(s: SchedV, id: Seq<char>, state: Seq<char>) -> SchedV {
    if s.running.contains_key(id) {
        let entry = s.running[id];
        SchedV {
            running: s.running.insert(
                id,
                RunningV { issue: IssueV { state, ..entry.issue }, ..entry },
            ),
            ..s
        }
    } else {
        s
    }
}

/// What becomes of an issue that is worked on, now that the tracker says it is
/// in that state.
pub enum Verdict {
    /// It is finished: the session ends and the workspace goes.
    Clean,
    /// It is still to be worked on.
    Keep,
    /// It is not to be worked on any more: the session ends.
    Drop,
}

/// What becomes of an issue in that state.
pub open spec fn verdict(state: Seq<char>, config: ServiceConfig) -> Verdict {
    if among_states(state, texts(config.tracker.terminal_states@)) {
        Verdict::Clean
    } else if among_states(state, texts(config.tracker.active_states@)) {
        Verdict::Keep
    } else {
        Verdict::Drop
    }
}

/// The state after the tracker reported on an issue.
pub open spec fn after_report(
    s: SchedV,
    id: Seq<char>,
    states: Map<Seq<char>, IssueStateV>,
    config: ServiceConfig,
) -> SchedV {
    if !states.contains_key(id) {
        s
    } else {
        match verdict(states[id].state, config) {
            Verdict::Keep => with_state(s, id, states[id].state),
            _ => given_up(s, id),
        }
    }
}

/// What is done when the tracker reported on an issue.
pub open spec fn report_effects(
    s: SchedV,
    id: Seq<char>,
    states: Map<Seq<char>, IssueStateV>,
    config: ServiceConfig,
) -> Seq<EffectV> {
    if !states.contains_key(id) {
        Seq::empty()
    } else {
        match verdict(states[id].state, config) {
            Verdict::Clean => termination_effects(s, id, ActionV::ReleaseAndCleanup),
            Verdict::Keep => Seq::empty(),
            Verdict::Drop => termination_effects(s, id, ActionV::ReleaseOnly),
        }
    }
}

/// The state after the tracker reported on some issues.
pub open spec fn after_reports(
    s: SchedV,
    ids: Seq<Seq<char>>,
    states: Map<Seq<char>, IssueStateV>,
    config: ServiceConfig,
) -> SchedV
    decreases ids.len(),
{
    if ids.len() == 0 {
        s
    } else {
        after_report(
            after_reports(s, ids.drop_last(), states, config),
            ids.last(),
            states,
            config,
        )
    }
}

/// What is done when the tracker reported on some issues.
pub open spec fn reports_effects(
    s: SchedV,
    ids: Seq<Seq<char>>,
    states: Map<Seq<char>, IssueStateV>,
    config: ServiceConfig,
) -> Seq<EffectV>
    decreases ids.len(),
{
    if ids.len() == 0 {
        Seq::empty()
    } else {
        reports_effects(s, ids.drop_last(), states, config) + report_effects(
            after_reports(s, ids.drop_last(), states, config),
            ids.last(),
            states,
            config,
        )
    }
}

/// Since when nothing was heard of a session.
pub open spec fn silent_since(entry: RunningV) -> Timestamp {
    match entry.live_session.last_codex_timestamp {
        Some(time) => time,
        None => entry.started_at,
    }
}

/// Nothing was heard of the session on an issue for longer than the limit.
pub open spec fn is_stalled(s: SchedV, id: Seq<char>, limit_ms: i64, now: Timestamp) -> bool {
    &&& s.running.contains_key(id)
    &&& whole_millis_between(now, silent_since(s.running[id])) > limit_ms
}

/// The state after the sessions on some issues were ended because nothing was
/// heard of them.
pub open spec fn after_stalls(s: SchedV, ids: Seq<Seq<char>>, now: Timestamp) -> SchedV
    decreases ids.len(),
{
    if ids.len() == 0 {
        s
    } else {
        terminated(
            after_stalls(s, ids.drop_last(), now),
            ids.last(),
            ActionV::Retry("stalled"@),
            now,
        )
    }
}

/// What is done when sessions are ended because nothing was heard of them.
pub open spec fn stalls_effects(s: SchedV, ids: Seq<Seq<char>>, now: Timestamp) -> Seq<EffectV>
    decreases ids.len(),
{
    if ids.len() == 0 {
        Seq::empty()
    } else {
        stalls_effects(s, ids.drop_last(), now) + termination_effects(
            after_stalls(s, ids.drop_last(), now),
            ids.last(),
            ActionV::Retry("stalled"@),
        )
    }
}

/// Those are the issues whose sessions are stalled, each once.
pub open spec fn stalled_ids(s: SchedV, ids: Seq<Seq<char>>, limit_ms: i64, now: Timestamp) -> bool {
    &&& ids.no_duplicates()
    &&& forall|id: Seq<char>| #[trigger] ids.contains(id) <==> is_stalled(s, id, limit_ms, now)
}

impl SchedulerState {
    /// The issues that are worked on, each once.
    pub fn running_ids(&self) -> (r: Vec<String>)
        requires
            self.wf(),
        ensures
            texts(r@).no_duplicates(),
            forall|id: Seq<char>| #[trigger]
                texts(r@).contains(id) <==> self@.running.contains_key(id),
    {
        let ghost listed = self.running.listed();
        let mut ids: Vec<String> = Vec::new();
        let mut i: usize = 0;
        while i < self.running.len()
            invariant
                i <= listed.len(),
                self.running.wf(),
                listed == self.running.listed(),
                ids@.len() == i,
                forall|k: int| 0 <= k < i ==> (#[trigger] ids@[k])@ == listed[k].0,
            decreases listed.len() - i,
        {
            ids.push(self.running.entry(i).0.to_owned());
            i += 1;
        }
        proof {
            views_keep_keys(self.running@);
            keys_listed(self.running, ids@);
        }
        ids
    }

    /// Ends the sessions of which nothing was heard for too long at a given
    /// time, and lets their issues be tried again.
    pub fn reconcile_stalls_at(&mut self, config: &ServiceConfig, now: &Timestamp) -> (r: Vec<
        Effect,
    >)
        requires
            old(self).wf(),
            clock_time(*now),
        ensures
            final(self).wf(),
            if config.codex.stall_timeout_ms <= 0 {
                final(self)@ == old(self)@ && r@.len() == 0
            } else {
                exists|ids: Seq<Seq<char>>|
                    {
                        &&& #[trigger] stalled_ids(
                            old(self)@,
                            ids,
                            config.codex.stall_timeout_ms,
                            *now,
                        )
                        &&& final(self)@ == after_stalls(old(self)@, ids, *now)
                        &&& effect_views(r@) == stalls_effects(old(self)@, ids, *now)
                    }
            },
    {
        let mut effects: Vec<Effect> = Vec::new();
        assert(effect_views(effects@) =~= Seq::<EffectV>::empty());
        let limit: i64 = config.codex.stall_timeout_ms;
        if limit <= 0 {
            return effects;
        }
        let ghost start = self@;
        let ids = self.running_ids();
        let ghost all = texts(ids@);
        let ghost mut picked = Seq::<Seq<char>>::empty();
        let mut i: usize = 0;
        assert forall|k: int| 0 <= k < all.len() implies self@.running.contains_key(
            #[trigger] all[k],
        ) by {
            assert(all.contains(all[k]));
        }
        while i < ids.len()
            invariant
                i <= ids@.len(),
                all == texts(ids@),
                all.no_duplicates(),
                forall|id: Seq<char>| #[trigger]
                    all.contains(id) <==> start.running.contains_key(id),
                self.wf(),
                clock_time(*now),
                self@ == after_stalls(start, picked, *now),
                effect_views(effects@) == stalls_effects(start, picked, *now),
                picked.no_duplicates(),
                forall|id: Seq<char>| #[trigger]
                    picked.contains(id) <==> all.take(i as int).contains(id) && is_stalled(
                        start,
                        id,
                        limit,
                        *now,
                    ),
                forall|k: int|
                    i <= k < all.len() ==> self@.running.contains_key(#[trigger] all[k])
                        && self@.running[all[k]] == start.running[all[k]],
            decreases ids@.len() - i,
        {
            let ghost id = all[i as int];
            let ghost before = picked;
            let id_text = ids[i].as_str();
            assert(id_text@ == id);
            proof {
                assert(all.take(i + 1) =~= all.take(i as int).push(id));
                assert(!all.take(i as int).contains(id)) by {
                    if all.take(i as int).contains(id) {
                        let x = choose|x: int| 0 <= x < i && all.take(i as int)[x] == id;
                        assert(all[x] == all[i as int]);
                    }
                }
                views_keep_keys(self.running@);
            }
            let silent = match self.running.get(id_text) {
                Some(entry) => {
                    let since = match entry.live_session.last_codex_timestamp {
                        Some(time) => time,
                        None => entry.started_at,
                    };
                    assert(entry@ == self@.running[id]);
                    assert(since == silent_since(entry@));
                    millis_between(now, &since) > limit as i128
                },
                None => false,
            };
            assert(all.contains(all[i as int]));
            assert(self@.running.contains_key(all[i as int]));
            assert(silent == is_stalled(start, id, limit, *now));
            if silent {
                self.terminate(id_text, TerminationAction::Retry("stalled".to_owned()), now, &mut effects);
                proof {
                    picked = before.push(id);
                    assert(picked.drop_last() =~= before);
                    assert(!before.contains(id));
                }
            }
            proof {
                assert forall|other: Seq<char>| #[trigger]
                    picked.contains(other) <==> all.take(i + 1).contains(other) && is_stalled(
                        start,
                        other,
                        limit,
                        *now,
                    ) by {
                    let t = all.take(i as int);
                    assert(t.push(id).contains(other) <==> t.contains(other) || other == id) by {
                        if t.contains(other) {
                            let x = choose|x: int| 0 <= x < t.len() && t[x] == other;
                            assert(t.push(id)[x] == other);
                        }
                        if other == id {
                            assert(t.push(id)[t.len() as int] == id);
                        }
                    }
                    assert(before.push(id).contains(other) <==> before.contains(other) || other
                        == id) by {
                        if before.contains(other) {
                            let x = choose|x: int| 0 <= x < before.len() && before[x] == other;
                            assert(before.push(id)[x] == other);
                        }
                        if other == id {
                            assert(before.push(id)[before.len() as int] == id);
                        }
                    }
                    assert(before.contains(other) <==> t.contains(other) && is_stalled(
                        start,
                        other,
                        limit,
                        *now,
                    ));
                }
                assert forall|k: int| i + 1 <= k < all.len() implies self@.running.contains_key(
                    #[trigger] all[k],
                ) && self@.running[all[k]] == start.running[all[k]] by {
                    assert(all[k] != all[i as int]);
                }
            }
            i += 1;
        }
        proof {
            assert(all.take(all.len() as int) =~= all);
            assert(stalled_ids(start, picked, limit, *now));
        }
        effects
    }

    /// Ends the sessions of which nothing was heard for too long, and lets their
    /// issues be tried again.
    pub fn reconcile_stalls(&mut self, config: &ServiceConfig) -> (r: Vec<Effect>)
        requires
            old(self).wf(),
        ensures
            final(self).wf(),
            exists|now: Timestamp|
                {
                    &&& #[trigger] clock_time(now)
                    &&& if config.codex.stall_timeout_ms <= 0 {
                        final(self)@ == old(self)@ && r@.len() == 0
                    } else {
                        exists|ids: Seq<Seq<char>>|
                            {
                                &&& #[trigger] stalled_ids(
                                    old(self)@,
                                    ids,
                                    config.codex.stall_timeout_ms,
                                    now,
                                )
                                &&& final(self)@ == after_stalls(old(self)@, ids, now)
                                &&& effect_views(r@) == stalls_effects(old(self)@, ids, now)
                            }
                    }
                },
    {
        let now = utc_now();
        assert(clock_time(now));
        self.reconcile_stalls_at(config, &now)
    }

    fn set_issue_state(&mut self, issue_id: &str, state: &str)
        requires
            old(self).wf(),
        ensures
            final(self).wf(),
            final(self)@ == with_state(old(self)@, issue_id@, state@),
    {
        let ghost before = self@;
        let ghost entries = self.running@;
        let ghost id = issue_id@;
        proof {
            views_keep_keys(entries);
        }
        match self.running.remove(issue_id) {
            Some(entry) => {
                let ghost old_view = entry@;
                let mut entry = entry;
                entry.issue.state = state.to_owned();
                let ghost view = entry@;
                self.running.insert(issue_id.to_owned(), entry);
                assert(running_views(self.running@) =~= running_views(entries).insert(id, view));
                assert(view =~= (RunningV {
                    issue: IssueV { state: state@, ..old_view.issue },
                    ..old_view
                }));
                assert(self@ =~= with_state(before, id, state@));
                assert(self@.running.dom() =~= before.running.dom());
            },
            None => {
                assert(running_views(self.running@) =~= running_views(entries));
                assert(self@ =~= before);
            },
        }
    }

    /// Takes in what the tracker reported on the issues that are worked on: a
    /// finished one ends and loses its workspace, one that is not active any more
    /// ends, and an active one goes on in its present state.
    pub fn reconcile(
        &mut self,
        ids: &Vec<String>,
        states: &StringMap<IssueState>,
        config: &ServiceConfig,
    ) -> (r: Vec<Effect>)
        requires
            old(self).wf(),
            states.wf(),
        ensures
            final(self).wf(),
            final(self)@ == after_reports(
                old(self)@,
                texts(ids@),
                state_views(states@),
                *config,
            ),
            effect_views(r@) == reports_effects(
                old(self)@,
                texts(ids@),
                state_views(states@),
                *config,
            ),
    {
        let ghost start = self@;
        let ghost all = texts(ids@);
        let ghost reported = state_views(states@);
        let mut effects: Vec<Effect> = Vec::new();
        assert(effect_views(effects@) =~= Seq::<EffectV>::empty());
        let mut i: usize = 0;
        assert(all.take(0).len() == 0);
        while i < ids.len()
            invariant
                i <= ids@.len(),
                all == texts(ids@),
                reported == state_views(states@),
                states.wf(),
                self.wf(),
                self@ == after_reports(start, all.take(i as int), reported, *config),
                effect_views(effects@) == reports_effects(
                    start,
                    all.take(i as int),
                    reported,
                    *config,
                ),
            decreases ids@.len() - i,
        {
            let ghost id = all[i as int];
            let ghost before = self@;
            let ghost done = effect_views(effects@);
            assert(all.take(i + 1).drop_last() == all.take(i as int));
            assert(all.take(i + 1).last() == id);
            assert(done + Seq::<EffectV>::empty() =~= done);
            if let Some(report) = states.get(ids[i].as_str()) {
                assert(reported.contains_key(id) && reported[id] == report@);
                if state_in(report.state.as_str(), config.tracker.terminal_states.as_slice()) {
                    self.give_up(ids[i].as_str(), true, &mut effects);
                } else if state_in(report.state.as_str(), config.tracker.active_states.as_slice()) {
                    self.set_issue_state(ids[i].as_str(), report.state.as_str());
                } else {
                    self.give_up(ids[i].as_str(), false, &mut effects);
                }
            }
            i += 1;
        }
        assert(all.take(all.len() as int) == all);
        effects
    }
}

/// The difference of two integers, wrapped around where it does not fit.
pub open spec fn wrapped_difference(a: i64, b: i64) -> int {
    if a - b > i64::MAX {
        a - b - 0x1_0000_0000_0000_0000
    } else if a - b < i64::MIN {
        a - b + 0x1_0000_0000_0000_0000
    } else {
        a - b
    }
}

/// How many more tokens are reported than the last time; never less than none.
pub open spec fn growth(now: i64, last: i64) -> int {
    if wrapped_difference(now, last) > 0 {
        wrapped_difference(now, last)
    } else {
        0
    }
}

fn token_growth(now: i64, last: i64) -> (r: i64)
    ensures
        r == growth(now, last),
{
    let difference: i64 = now.wrapping_sub(last);
    if difference > 0 {
        difference
    } else {
        0
    }
}

/// The counts that an update reports, where they are those of the whole session.
pub open spec fn absolute_usage(update: UpdateV) -> Option<TokenUsage> {
    match update.usage {
        Some(usage) => if usage.absolute {
            Some(usage)
        } else {
            None
        },
        None => None,
    }
}

/// One of two optional texts: the first where there is one.
pub open spec fn either(a: Option<Seq<char>>, b: Option<Seq<char>>) -> Option<Seq<char>> {
    if a is Some {
        a
    } else {
        b
    }
}

/// What is known of a session after an update.
pub open spec fn live_after(live: LiveV, update: UpdateV) -> LiveV {
    let thread = either(update.thread_id, live.thread_id);
    let turn = either(update.turn_id, live.turn_id);
    let known = LiveV {
        session_id: match (thread, turn) {
            (Some(a), Some(b)) => Some(a + "-"@ + b),
            _ => live.session_id,
        },
        thread_id: thread,
        turn_id: turn,
        codex_app_server_pid: update.codex_app_server_pid,
        last_codex_event: Some(update.event),
        last_codex_timestamp: Some(update.timestamp),
        last_codex_message: update.message,
        turn_count: if update.event != "turn_started"@ {
            live.turn_count
        } else if live.turn_count == u32::MAX {
            0
        } else {
            (live.turn_count + 1) as u32
        },
        ..live
    };
    match absolute_usage(update) {
        Some(usage) => LiveV {
            codex_input_tokens: usage.input_tokens,
            codex_output_tokens: usage.output_tokens,
            codex_total_tokens: usage.total_tokens,
            last_reported_input_tokens: usage.input_tokens,
            last_reported_output_tokens: usage.output_tokens,
            last_reported_total_tokens: usage.total_tokens,
            ..known
        },
        None => known,
    }
}

/// The counts of all sessions after an update of one of them: they grow by what
/// it reports more than the last time.
pub open spec fn totals_after(totals: CodexTotals, live: LiveV, update: UpdateV) -> CodexTotals {
    match absolute_usage(update) {
        Some(usage) => CodexTotals {
            input_tokens: wrapped_sum(
                totals.input_tokens,
                growth(usage.input_tokens, live.last_reported_input_tokens) as i64,
            ) as i64,
            output_tokens: wrapped_sum(
                totals.output_tokens,
                growth(usage.output_tokens, live.last_reported_output_tokens) as i64,
            ) as i64,
            total_tokens: wrapped_sum(
                totals.total_tokens,
                growth(usage.total_tokens, live.last_reported_total_tokens) as i64,
            ) as i64,
        },
        None => totals,
    }
}

/// The state after an update of a session. One of a session that is not known
/// any more changes nothing.
pub open spec fn after_update(s: SchedV, update: UpdateV) -> SchedV {
    let id = update.issue_id;
    let entry = s.running[id];
    if !s.running.contains_key(id) {
        s
    } else {
        SchedV {
            running: s.running.insert(
                id,
                RunningV { live_session: live_after(entry.live_session, update), ..entry },
            ),
            codex_totals: totals_after(s.codex_totals, entry.live_session, update),
            codex_rate_limits: match update.rate_limits {
                Some(limits) => Some(limits),
                None => s.codex_rate_limits,
            },
            ..s
        }
    }
}

fn update_live(live: &mut LiveSession, update: &AgentUpdate)
    ensures
        final(live)@ == live_after(old(live)@, update@),
{
    live.codex_app_server_pid = copy_text(&update.codex_app_server_pid);
    live.last_codex_event = Some(update.event.clone());
    live.last_codex_timestamp = Some(update.timestamp);
    live.last_codex_message = copy_json(&update.message);
    if let Some(thread_id) = &update.thread_id {
        live.thread_id = Some(thread_id.clone());
    }
    if let Some(turn_id) = &update.turn_id {
        live.turn_id = Some(turn_id.clone());
    }
    if let Some(thread_id) = &live.thread_id {
        if let Some(turn_id) = &live.turn_id {
            let mut session_id = thread_id.clone();
            session_id.append("-");
            session_id.append(turn_id.as_str());
            live.session_id = Some(session_id);
        }
    }
    if same_text(update.event.as_str(), "turn_started") {
        live.turn_count = if live.turn_count == u32::MAX {
            0
        } else {
            live.turn_count + 1
        };
    }
    if let Some(usage) = update.usage {
        if usage.absolute {
            live.last_reported_input_tokens = usage.input_tokens;
            live.last_reported_output_tokens = usage.output_tokens;
            live.last_reported_total_tokens = usage.total_tokens;
            live.codex_input_tokens = usage.input_tokens;
            live.codex_output_tokens = usage.output_tokens;
            live.codex_total_tokens = usage.total_tokens;
        }
    }
}

fn update_totals(totals: &mut CodexTotals, live: &LiveSession, update: &AgentUpdate)
    ensures
        *final(totals) == totals_after(*old(totals), live@, update@),
{
    if let Some(usage) = update.usage {
        if usage.absolute {
            totals.input_tokens = totals.input_tokens.wrapping_add(
                token_growth(usage.input_tokens, live.last_reported_input_tokens),
            );
            totals.output_tokens = totals.output_tokens.wrapping_add(
                token_growth(usage.output_tokens, live.last_reported_output_tokens),
            );
            totals.total_tokens = totals.total_tokens.wrapping_add(
                token_growth(usage.total_tokens, live.last_reported_total_tokens),
            );
        }
    }
}

fn copy_keys(keys: &StringMap<()>) -> (r: Vec<String>)
    requires
        keys.wf(),
    ensures
        texts(r@).no_duplicates(),
        forall|id: Seq<char>| #[trigger] texts(r@).contains(id) <==> keys@.contains_key(id),
{
    let ghost listed = keys.listed();
    let mut ids: Vec<String> = Vec::new();
    let mut i: usize = 0;
    while i < keys.len()
        invariant
            i <= listed.len(),
            keys.wf(),
            listed == keys.listed(),
            ids@.len() == i,
            forall|k: int| 0 <= k < i ==> (#[trigger] ids@[k])@ == listed[k].0,
        decreases listed.len() - i,
    {
        ids.push(keys.entry(i).0.to_owned());
        i += 1;
    }
    proof {
        keys_listed(*keys, ids@);
    }
    ids
}

proof fn keys_listed<V>(m: StringMap<V>, ids: Seq<String>)
    requires
        m.wf(),
        ids.len() == m.listed().len(),
        forall|k: int| 0 <= k < ids.len() ==> (#[trigger] ids[k])@ == m.listed()[k].0,
    ensures
        texts(ids).no_duplicates(),
        forall|id: Seq<char>| #[trigger] texts(ids).contains(id) <==> m@.contains_key(id),
{
    let all = texts(ids);
    let listed = m.listed();
    assert forall|x: int, y: int| 0 <= x < all.len() && 0 <= y < all.len() && x
        != y implies all[x] != all[y] by {
        assert(ids[x]@ == listed[x].0 && ids[y]@ == listed[y].0);
        if x < y {
            assert(listed[x].0 != listed[y].0);
        } else {
            assert(listed[y].0 != listed[x].0);
        }
    }
    assert forall|id: Seq<char>| #[trigger] all.contains(id) <==> m@.contains_key(id) by {
        if all.contains(id) {
            let x = choose|x: int| 0 <= x < all.len() && all[x] == id;
            assert(ids[x]@ == listed[x].0);
            listed_in_map(m, x);
        }
        if m@.contains_key(id) {
            assert(m.has(id));
            let x = m.place(id);
            assert(listed[x].0 == id);
            assert(ids[x]@ == listed[x].0);
            assert(all[x] == id);
        }
    }
}

fn copy_running(m: &StringMap<RunningEntry>) -> (r: StringMap<RunningEntry>)
    requires
        m.wf(),
    ensures
        r.wf(),
        running_views(r@) == running_views(m@),
{
    let mut r: StringMap<RunningEntry> = StringMap::new();
    let ghost listed = m.listed();
    let mut i: usize = 0;
    while i < m.len()
        invariant
            i <= listed.len(),
            m.wf(),
            listed == m.listed(),
            r.wf(),
            forall|k: int|
                0 <= k < i ==> r@.contains_key((#[trigger] listed[k]).0) && r@[listed[k].0]@
                    == listed[k].1@,
            forall|id: Seq<char>| #[trigger] r@.contains_key(id) ==> m@.contains_key(id),
        decreases listed.len() - i,
    {
        let entry = m.entry(i);
        r.insert(entry.0.to_owned(), entry.1.clone());
        assert forall|k: int| 0 <= k < i + 1 implies r@.contains_key((#[trigger] listed[k]).0)
            && r@[listed[k].0]@ == listed[k].1@ by {
            if k < i {
                assert(listed[k].0 != listed[i as int].0);
            }
        }
        i += 1;
    }
    assert(running_views(r@) =~= running_views(m@)) by {
        assert forall|id: Seq<char>| m@.contains_key(id) implies #[trigger] r@.contains_key(id)
            && r@[id]@ == m@[id]@ by {
            assert(m.has(id));
            let x = m.place(id);
            assert(listed[x].0 == id);
        }
    }
    r
}

fn copy_retrying(m: &StringMap<RetryEntry>) -> (r: StringMap<RetryEntry>)
    requires
        m.wf(),
    ensures
        r.wf(),
        retry_views(r@) == retry_views(m@),
{
    let mut r: StringMap<RetryEntry> = StringMap::new();
    let ghost listed = m.listed();
    let mut i: usize = 0;
    while i < m.len()
        invariant
            i <= listed.len(),
            m.wf(),
            listed == m.listed(),
            r.wf(),
            forall|k: int|
                0 <= k < i ==> r@.contains_key((#[trigger] listed[k]).0) && r@[listed[k].0]@
                    == listed[k].1@,
            forall|id: Seq<char>| #[trigger] r@.contains_key(id) ==> m@.contains_key(id),
        decreases listed.len() - i,
    {
        let entry = m.entry(i);
        r.insert(entry.0.to_owned(), entry.1.clone());
        assert forall|k: int| 0 <= k < i + 1 implies r@.contains_key((#[trigger] listed[k]).0)
            && r@[listed[k].0]@ == listed[k].1@ by {
            if k < i {
                assert(listed[k].0 != listed[i as int].0);
            }
        }
        i += 1;
    }
    assert(retry_views(r@) =~= retry_views(m@)) by {
        assert forall|id: Seq<char>| m@.contains_key(id) implies #[trigger] r@.contains_key(id)
            && r@[id]@ == m@[id]@ by {
            assert(m.has(id));
            let x = m.place(id);
            assert(listed[x].0 == id);
        }
    }
    r
}

/// The list holds the members of the set, each once.
pub open spec fn lists(list: Seq<Seq<char>>, set: Set<Seq<char>>) -> bool {
    &&& list.no_duplicates()
    &&& forall|id: Seq<char>| #[trigger] list.contains(id) <==> set.contains(id)
}

/// What is shown is the state of the scheduler.
pub open spec fn shows(shown: RuntimeState, s: SchedV) -> bool {
    &&& shown.poll_interval_ms == s.poll_interval_ms
    &&& shown.max_concurrent_agents == s.max_concurrent_agents
    &&& shown.running.wf()
    &&& running_views(shown.running@) == s.running
    &&& lists(texts(shown.claimed@), s.claimed)
    &&& shown.retrying.wf()
    &&& retry_views(shown.retrying@) == s.retrying
    &&& lists(texts(shown.completed@), s.completed)
    &&& shown.codex_totals == s.codex_totals
    &&& opt_json(shown.codex_rate_limits) == s.codex_rate_limits
    &&& opt_text(shown.last_error) == s.last_error
}

/// Those effects stop every worker, and then every timer.
pub open spec fn stops_all(s: SchedV, effects: Seq<EffectV>) -> bool {
    exists|running: Seq<Seq<char>>, waiting: Seq<Seq<char>>|
        {
            &&& #[trigger] lists(running, s.running.dom())
            &&& #[trigger] lists(waiting, s.retrying.dom())
            &&& effects == running.map_values(|id: Seq<char>| EffectV::CancelWorker(id))
                + waiting.map_values(|id: Seq<char>| EffectV::AbortTimer(id))
        }
}

impl SchedulerState {
    /// Takes in an update of a session.
    pub fn apply_agent_update(&mut self, update: AgentUpdate)
        requires
            old(self).wf(),
        ensures
            final(self).wf(),
            final(self)@ == after_update(old(self)@, update@),
    {
        let ghost before = self@;
        let ghost entries = self.running@;
        let ghost id = update.issue_id@;
        proof {
            views_keep_keys(entries);
        }
        let mut entry = match self.running.remove(update.issue_id.as_str()) {
            Some(entry) => entry,
            None => {
                assert(running_views(self.running@) =~= running_views(entries));
                assert(self@ =~= before);
                return ;
            },
        };
        let ghost old_view = entry@;
        update_totals(&mut self.codex_totals, &entry.live_session, &update);
        update_live(&mut entry.live_session, &update);
        let ghost view = entry@;
        self.running.insert(update.issue_id.clone(), entry);
        assert(running_views(self.running@) =~= running_views(entries).insert(id, view));
        assert(view =~= (RunningV {
            live_session: live_after(old_view.live_session, update@),
            ..old_view
        }));
        if let Some(limits) = update.rate_limits {
            self.codex_rate_limits = Some(limits);
        }
        assert(self@ =~= after_update(before, update@));
        assert(self@.running.dom() =~= before.running.dom());
    }

    /// What the scheduler shows of itself, also while an issue whose wait is over
    /// is being looked at.
    pub fn snapshot(&self) -> (r: RuntimeState)
        requires
            exists|held: Set<Seq<char>>| #[trigger] self.holds(held),
        ensures
            shows(r, self@),
    {
        RuntimeState {
            poll_interval_ms: self.poll_interval_ms,
            max_concurrent_agents: self.max_concurrent_agents,
            running: copy_running(&self.running),
            claimed: copy_keys(&self.claimed),
            retrying: copy_retrying(&self.retrying),
            completed: copy_keys(&self.completed),
            codex_totals: self.codex_totals,
            codex_rate_limits: copy_json(&self.codex_rate_limits),
            last_error: copy_text(&self.last_error),
        }
    }

    /// What is done when the scheduler stops: every worker and every timer is
    /// stopped.
    pub fn cancel_all_running(&self) -> (r: Vec<Effect>)
        requires
            self.wf(),
        ensures
            stops_all(self@, effect_views(r@)),
    {
        let mut effects: Vec<Effect> = Vec::new();
        let running = self.running_ids();
        let ghost a = texts(running@);
        let ghost cancel = |id: Seq<char>| EffectV::CancelWorker(id);
        let ghost abort = |id: Seq<char>| EffectV::AbortTimer(id);
        let mut i: usize = 0;
        assert(effect_views(effects@) =~= a.take(0).map_values(cancel));
        while i < running.len()
            invariant
                i <= running@.len(),
                a == texts(running@),
                cancel == (|id: Seq<char>| EffectV::CancelWorker(id)),
                effect_views(effects@) == a.take(i as int).map_values(cancel),
            decreases running@.len() - i,
        {
            add_effect(&mut effects, Effect::CancelWorker(running[i].clone()));
            assert(a.take(i + 1).map_values(cancel) =~= a.take(i as int).map_values(cancel).push(
                EffectV::CancelWorker(a[i as int]),
            ));
            i += 1;
        }
        assert(a.take(a.len() as int) =~= a);
        let ghost listed = self.retrying.listed();
        let mut waiting: Vec<String> = Vec::new();
        let mut k: usize = 0;
        while k < self.retrying.len()
            invariant
                k <= listed.len(),
                self.retrying.wf(),
                listed == self.retrying.listed(),
                waiting@.len() == k,
                forall|j: int| 0 <= j < k ==> (#[trigger] waiting@[j])@ == listed[j].0,
                abort == (|id: Seq<char>| EffectV::AbortTimer(id)),
                effect_views(effects@) == a.map_values(cancel) + texts(waiting@).map_values(abort),
            decreases listed.len() - k,
        {
            let id = self.retrying.entry(k).0.to_owned();
            let ghost before = waiting@;
            let ghost done = effect_views(effects@);
            add_effect(&mut effects, Effect::AbortTimer(id.clone()));
            waiting.push(id);
            assert(texts(waiting@).map_values(abort) =~= texts(before).map_values(abort).push(
                EffectV::AbortTimer(id@),
            ));
            assert(effect_views(effects@) =~= a.map_values(cancel) + texts(waiting@).map_values(
                abort,
            ));
            k += 1;
        }
        proof {
            keys_listed(self.retrying, waiting@);
            assert(self@.retrying.dom() =~= self.retrying@.dom());
            assert(lists(a, self@.running.dom()));
            assert(lists(texts(waiting@), self@.retrying.dom()));
        }
        effects
    }
}

}
