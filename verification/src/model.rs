//! The data of the service: issues, sessions and the entries of the scheduler.

use std::path::PathBuf;
use vstd::prelude::*;

use crate::json::{opt_json, opt_text, Json, JsonV};
use crate::keyed::StringMap;
use crate::text::{blank, is_blank, lowercase, texts};

verus! {

broadcast use vstd::string::group_string_axioms;

/// An instant: whole seconds since the start of 1970 in UTC, and the
/// nanoseconds that follow.
#[derive(Clone, Copy, Debug, PartialEq, Eq, Structural)]
pub struct Timestamp {
    pub seconds: i64,
    pub nanos: u32,
}

impl Timestamp {
    /// Whole milliseconds since the start of 1970.
    pub open spec fn millis(self) -> int {
        self.seconds * 1000 + self.nanos / 1_000_000
    }

    /// Nanoseconds since the start of 1970.
    pub open spec fn total_nanos(self) -> int {
        self.seconds * 1_000_000_000 + self.nanos
    }

    /// Whole milliseconds since the start of 1970.
    pub fn timestamp_millis(&self) -> (r: i128)
        ensures
            r == self.millis(),
    {
        self.seconds as i128 * 1000 + (self.nanos / 1_000_000) as i128
    }
}

/// Milliseconds from `earlier` to `later`, with the fraction cut off.
pub open spec fn whole_millis_between(later: Timestamp, earlier: Timestamp) -> int {
    let nanos = later.total_nanos() - earlier.total_nanos();
    if nanos >= 0 {
        nanos / 1_000_000
    } else {
        -((-nanos) / 1_000_000)
    }
}

/// Milliseconds from `earlier` to `later`, with the fraction cut off.
pub fn millis_between(later: &Timestamp, earlier: &Timestamp) -> (r: i128)
    ensures
        r == whole_millis_between(*later, *earlier),
{
    let a: i128 = later.seconds as i128 * 1_000_000_000 + later.nanos as i128;
    let b: i128 = earlier.seconds as i128 * 1_000_000_000 + earlier.nanos as i128;
    if a >= b {
        (a - b) / 1_000_000
    } else {
        -((b - a) / 1_000_000)
    }
}

/// The instant `millis` milliseconds later.
pub open spec fn plus_millis(t: Timestamp, millis: int) -> Timestamp {
    let nanos = t.nanos + (millis % 1000) * 1_000_000;
    if nanos >= 1_000_000_000 {
        Timestamp {
            seconds: (t.seconds + millis / 1000 + 1) as i64,
            nanos: (nanos - 1_000_000_000) as u32,
        }
    } else {
        Timestamp { seconds: (t.seconds + millis / 1000) as i64, nanos: nanos as u32 }
    }
}

/// The instant `millis` milliseconds later.
pub fn later_by(t: &Timestamp, millis: u64) -> (r: Timestamp)
    requires
        t.nanos < 1_000_000_000,
        t.seconds + millis / 1000 < i64::MAX,
    ensures
        r == plus_millis(*t, millis as int),
        r.total_nanos() == t.total_nanos() + millis * 1_000_000,
        r.nanos < 1_000_000_000,
{
    let seconds: i64 = (t.seconds as i128 + (millis / 1000) as i128) as i64;
    let nanos: u32 = t.nanos + ((millis % 1000) as u32) * 1_000_000;
    if nanos >= 1_000_000_000 {
        Timestamp { seconds: seconds + 1, nanos: nanos - 1_000_000_000 }
    } else {
        Timestamp { seconds, nanos }
    }
}

/// The later instant is so many milliseconds after the earlier one, to the
/// nanosecond, and so the time between the two is just what was added.
pub proof fn plus_millis_adds(t: Timestamp, millis: int)
    requires
        t.nanos < 1_000_000_000,
        0 <= millis,
        t.seconds + millis / 1000 < i64::MAX,
    ensures
        ({
            let r = plus_millis(t, millis);
            &&& r.nanos < 1_000_000_000
            &&& r.seconds * 1_000_000_000 + r.nanos == t.seconds * 1_000_000_000 + t.nanos + millis
                * 1_000_000
            &&& whole_millis_between(r, t) == millis
            &&& whole_millis_between(t, r) == -millis
        }),
{
}

/// The time between two instants is counted in nanoseconds, and what is left of a
/// millisecond does not count.
pub proof fn millis_between_are_whole(later: Timestamp, earlier: Timestamp)
    ensures
        ({
            let nanos = (later.seconds - earlier.seconds) * 1_000_000_000 + later.nanos
                - earlier.nanos;
            let millis = whole_millis_between(later, earlier);
            &&& nanos >= 0 ==> millis * 1_000_000 <= nanos < (millis + 1) * 1_000_000
            &&& nanos <= 0 ==> (millis - 1) * 1_000_000 < nanos <= millis * 1_000_000
            &&& whole_millis_between(earlier, later) == -millis
        }),
{
}

/// `chrono::Utc::now`: the present instant, in seconds and nanoseconds. It lies
/// between the start of 1970, before which the call panics, and the end of the
/// calendar; the clock decides the rest.
#[verifier::external_body]
pub(crate) fn utc_now() -> (r: Timestamp)
    ensures
        r.nanos < 1_000_000_000,
        0 <= r.seconds <= 0x7ff_ffff_ffff,
{
    let now = chrono::Utc::now();
    Timestamp { seconds: now.timestamp(), nanos: now.timestamp_subsec_nanos() }
}

/// The instant that a text in the form of RFC 3339 spells.
pub uninterp spec fn rfc3339_instant(text: Seq<char>) -> Option<Timestamp>;

/// `chrono::DateTime::parse_from_rfc3339`, taken to UTC: a function of the text
/// alone.
#[verifier::external_body]
pub(crate) fn instant_from_text(text: &str) -> (r: Option<Timestamp>)
    ensures
        r == rfc3339_instant(text@),
{
    chrono::DateTime::parse_from_rfc3339(text).ok().map(|time| {
        let utc = time.with_timezone(&chrono::Utc);
        Timestamp { seconds: utc.timestamp(), nanos: utc.timestamp_subsec_nanos() }
    })
}

/// An instant in the form of RFC 3339, where the calendar reaches that far.
pub uninterp spec fn instant_words(t: Timestamp) -> Option<Seq<char>>;

/// `chrono::DateTime::to_rfc3339_opts` with as many digits of the second as it
/// has, and `Z` for UTC: a function of the instant alone.
#[verifier::external_body]
pub(crate) fn instant_text(t: &Timestamp) -> (r: Option<String>)
    ensures
        opt_text(r) == instant_words(*t),
{
    chrono::DateTime::from_timestamp(t.seconds, t.nanos).map(
        |time| time.to_rfc3339_opts(chrono::SecondsFormat::AutoSi, true),
    )
}

/// An issue that another one waits for.
#[derive(Debug)]
pub struct BlockerRef {
    pub id: Option<String>,
    pub identifier: Option<String>,
    pub state: Option<String>,
}

/// What a `BlockerRef` is.
#[verifier::ext_equal]
pub struct BlockerV {
    pub id: Option<Seq<char>>,
    pub identifier: Option<Seq<char>>,
    pub state: Option<Seq<char>>,
}

impl View for BlockerRef {
    type V = BlockerV;

    open spec fn view(&self) -> BlockerV {
        BlockerV {
            id: opt_text(self.id),
            identifier: opt_text(self.identifier),
            state: opt_text(self.state),
        }
    }
}

/// An issue of the tracker.
#[derive(Debug)]
pub struct Issue {
    pub id: String,
    pub identifier: String,
    pub title: String,
    pub description: Option<String>,
    pub priority: Option<i64>,
    pub state: String,
    pub branch_name: Option<String>,
    pub url: Option<String>,
    pub labels: Vec<String>,
    pub blocked_by: Vec<BlockerRef>,
    pub created_at: Option<Timestamp>,
    pub updated_at: Option<Timestamp>,
}

/// What an `Issue` is.
#[verifier::ext_equal]
pub struct IssueV {
    pub id: Seq<char>,
    pub identifier: Seq<char>,
    pub title: Seq<char>,
    pub description: Option<Seq<char>>,
    pub priority: Option<i64>,
    pub state: Seq<char>,
    pub branch_name: Option<Seq<char>>,
    pub url: Option<Seq<char>>,
    pub labels: Seq<Seq<char>>,
    pub blocked_by: Seq<BlockerV>,
    pub created_at: Option<Timestamp>,
    pub updated_at: Option<Timestamp>,
}

/// The views of a sequence of blockers.
pub open spec fn blocker_views(v: Seq<BlockerRef>) -> Seq<BlockerV> {
    v.map_values(|b: BlockerRef| b@)
}

/// The views of a sequence of issues.
pub open spec fn issue_views(v: Seq<Issue>) -> Seq<IssueV> {
    v.map_values(|i: Issue| i@)
}

impl View for Issue {
    type V = IssueV;

    open spec fn view(&self) -> IssueV {
        IssueV {
            id: self.id@,
            identifier: self.identifier@,
            title: self.title@,
            description: opt_text(self.description),
            priority: self.priority,
            state: self.state@,
            branch_name: opt_text(self.branch_name),
            url: opt_text(self.url),
            labels: texts(self.labels@),
            blocked_by: blocker_views(self.blocked_by@),
            created_at: self.created_at,
            updated_at: self.updated_at,
        }
    }
}

/// A copy of an optional text.
pub fn copy_text(s: &Option<String>) -> (r: Option<String>)
    ensures
        opt_text(r) == opt_text(*s),
{
    match s {
        Some(t) => Some(t.clone()),
        None => None,
    }
}

/// A copy of a list of texts.
pub fn copy_texts(v: &Vec<String>) -> (r: Vec<String>)
    ensures
        texts(r@) == texts(v@),
{
    let mut r: Vec<String> = Vec::new();
    let mut i: usize = 0;
    while i < v.len()
        invariant
            i <= v@.len(),
            r@.len() == i,
            forall|k: int| 0 <= k < i ==> (#[trigger] r@[k])@ == v@[k]@,
        decreases v@.len() - i,
    {
        r.push(v[i].clone());
        i += 1;
    }
    assert(texts(r@) =~= texts(v@));
    r
}

impl Default for BlockerRef {
    fn default() -> (r: BlockerRef)
        ensures
            r@ == (BlockerV { id: None, identifier: None, state: None }),
    {
        BlockerRef { id: None, identifier: None, state: None }
    }
}

impl Clone for BlockerRef {
    fn clone(&self) -> (r: BlockerRef)
        ensures
            r@ == self@,
    {
        BlockerRef {
            id: copy_text(&self.id),
            identifier: copy_text(&self.identifier),
            state: copy_text(&self.state),
        }
    }
}

impl Clone for Issue {
    fn clone(&self) -> (r: Issue)
        ensures
            r@ == self@,
    {
        let mut blocked_by: Vec<BlockerRef> = Vec::new();
        let mut i: usize = 0;
        while i < self.blocked_by.len()
            invariant
                i <= self.blocked_by@.len(),
                blocked_by@.len() == i,
                forall|k: int| 0 <= k < i ==> (#[trigger] blocked_by@[k])@ == self.blocked_by@[k]@,
            decreases self.blocked_by@.len() - i,
        {
            blocked_by.push(self.blocked_by[i].clone());
            i += 1;
        }
        assert(blocker_views(blocked_by@) =~= blocker_views(self.blocked_by@));
        Issue {
            id: self.id.clone(),
            identifier: self.identifier.clone(),
            title: self.title.clone(),
            description: copy_text(&self.description),
            priority: self.priority,
            state: self.state.clone(),
            branch_name: copy_text(&self.branch_name),
            url: copy_text(&self.url),
            labels: copy_texts(&self.labels),
            blocked_by,
            created_at: self.created_at,
            updated_at: self.updated_at,
        }
    }
}

impl IssueV {
    /// The id, the identifier, the title and the state hold more than white
    /// space.
    pub open spec fn has_required_fields(self) -> bool {
        &&& !blank(self.id)
        &&& !blank(self.identifier)
        &&& !blank(self.title)
        &&& !blank(self.state)
    }
}

impl Issue {
    /// Whether the id, the identifier, the title and the state hold more than
    /// white space.
    pub fn has_required_fields(&self) -> (r: bool)
        ensures
            r == self@.has_required_fields(),
    {
        !is_blank(self.id.as_str()) && !is_blank(self.identifier.as_str()) && !is_blank(
            self.title.as_str(),
        ) && !is_blank(self.state.as_str())
    }
}

/// What a session reports of the tokens that it used.
#[derive(Clone, Copy, Debug, PartialEq, Eq, Structural)]
pub struct TokenUsage {
    pub input_tokens: i64,
    pub output_tokens: i64,
    pub total_tokens: i64,
    pub absolute: bool,
}

impl Default for TokenUsage {
    fn default() -> (r: TokenUsage)
        ensures
            r == (TokenUsage {
                input_tokens: 0,
                output_tokens: 0,
                total_tokens: 0,
                absolute: false,
            }),
    {
        TokenUsage { input_tokens: 0, output_tokens: 0, total_tokens: 0, absolute: false }
    }
}

/// The tokens that all sessions used together.
#[derive(Clone, Copy, Debug, PartialEq, Eq, Structural)]
pub struct CodexTotals {
    pub input_tokens: i64,
    pub output_tokens: i64,
    pub total_tokens: i64,
}

impl Default for CodexTotals {
    fn default() -> (r: CodexTotals)
        ensures
            r == (CodexTotals { input_tokens: 0, output_tokens: 0, total_tokens: 0 }),
    {
        CodexTotals { input_tokens: 0, output_tokens: 0, total_tokens: 0 }
    }
}

/// What is known of a session while it runs.
#[derive(Debug)]
pub struct LiveSession {
    pub session_id: Option<String>,
    pub thread_id: Option<String>,
    pub turn_id: Option<String>,
    pub codex_app_server_pid: Option<String>,
    pub last_codex_event: Option<String>,
    pub last_codex_timestamp: Option<Timestamp>,
    pub last_codex_message: Option<Json>,
    pub codex_input_tokens: i64,
    pub codex_output_tokens: i64,
    pub codex_total_tokens: i64,
    pub last_reported_input_tokens: i64,
    pub last_reported_output_tokens: i64,
    pub last_reported_total_tokens: i64,
    pub turn_count: u32,
}

/// What a `LiveSession` is.
#[verifier::ext_equal]
pub struct LiveV {
    pub session_id: Option<Seq<char>>,
    pub thread_id: Option<Seq<char>>,
    pub turn_id: Option<Seq<char>>,
    pub codex_app_server_pid: Option<Seq<char>>,
    pub last_codex_event: Option<Seq<char>>,
    pub last_codex_timestamp: Option<Timestamp>,
    pub last_codex_message: Option<JsonV>,
    pub codex_input_tokens: i64,
    pub codex_output_tokens: i64,
    pub codex_total_tokens: i64,
    pub last_reported_input_tokens: i64,
    pub last_reported_output_tokens: i64,
    pub last_reported_total_tokens: i64,
    pub turn_count: u32,
}

impl View for LiveSession {
    type V = LiveV;

    open spec fn view(&self) -> LiveV {
        LiveV {
            session_id: opt_text(self.session_id),
            thread_id: opt_text(self.thread_id),
            turn_id: opt_text(self.turn_id),
            codex_app_server_pid: opt_text(self.codex_app_server_pid),
            last_codex_event: opt_text(self.last_codex_event),
            last_codex_timestamp: self.last_codex_timestamp,
            last_codex_message: opt_json(self.last_codex_message),
            codex_input_tokens: self.codex_input_tokens,
            codex_output_tokens: self.codex_output_tokens,
            codex_total_tokens: self.codex_total_tokens,
            last_reported_input_tokens: self.last_reported_input_tokens,
            last_reported_output_tokens: self.last_reported_output_tokens,
            last_reported_total_tokens: self.last_reported_total_tokens,
            turn_count: self.turn_count,
        }
    }
}

/// A session of which nothing is known yet.
pub open spec fn fresh_session() -> LiveV {
    LiveV {
        session_id: None,
        thread_id: None,
        turn_id: None,
        codex_app_server_pid: None,
        last_codex_event: None,
        last_codex_timestamp: None,
        last_codex_message: None,
        codex_input_tokens: 0,
        codex_output_tokens: 0,
        codex_total_tokens: 0,
        last_reported_input_tokens: 0,
        last_reported_output_tokens: 0,
        last_reported_total_tokens: 0,
        turn_count: 0,
    }
}

impl Default for LiveSession {
    fn default() -> (r: LiveSession)
        ensures
            r@ == fresh_session(),
    {
        LiveSession {
            session_id: None,
            thread_id: None,
            turn_id: None,
            codex_app_server_pid: None,
            last_codex_event: None,
            last_codex_timestamp: None,
            last_codex_message: None,
            codex_input_tokens: 0,
            codex_output_tokens: 0,
            codex_total_tokens: 0,
            last_reported_input_tokens: 0,
            last_reported_output_tokens: 0,
            last_reported_total_tokens: 0,
            turn_count: 0,
        }
    }
}

impl Clone for LiveSession {
    fn clone(&self) -> (r: LiveSession)
        ensures
            r@ == self@,
    {
        LiveSession {
            session_id: copy_text(&self.session_id),
            thread_id: copy_text(&self.thread_id),
            turn_id: copy_text(&self.turn_id),
            codex_app_server_pid: copy_text(&self.codex_app_server_pid),
            last_codex_event: copy_text(&self.last_codex_event),
            last_codex_timestamp: self.last_codex_timestamp,
            last_codex_message: copy_json(&self.last_codex_message),
            codex_input_tokens: self.codex_input_tokens,
            codex_output_tokens: self.codex_output_tokens,
            codex_total_tokens: self.codex_total_tokens,
            last_reported_input_tokens: self.last_reported_input_tokens,
            last_reported_output_tokens: self.last_reported_output_tokens,
            last_reported_total_tokens: self.last_reported_total_tokens,
            turn_count: self.turn_count,
        }
    }
}

/// A copy of an optional JSON value.
pub fn copy_json(j: &Option<Json>) -> (r: Option<Json>)
    ensures
        opt_json(r) == opt_json(*j),
{
    match j {
        Some(v) => Some(v.clone()),
        None => None,
    }
}

/// A session that works on an issue.
#[derive(Debug)]
pub struct RunningEntry {
    pub issue_id: String,
    pub issue_identifier: String,
    pub issue: Issue,
    pub attempt: Option<u32>,
    pub workspace_path: PathBuf,
    pub started_at: Timestamp,
    pub live_session: LiveSession,
}

/// What a `RunningEntry` is.
#[verifier::ext_equal]
pub struct RunningV {
    pub issue_id: Seq<char>,
    pub issue_identifier: Seq<char>,
    pub issue: IssueV,
    pub attempt: Option<u32>,
    pub workspace_path: PathBuf,
    pub started_at: Timestamp,
    pub live_session: LiveV,
}

impl View for RunningEntry {
    type V = RunningV;

    open spec fn view(&self) -> RunningV {
        RunningV {
            issue_id: self.issue_id@,
            issue_identifier: self.issue_identifier@,
            issue: self.issue@,
            attempt: self.attempt,
            workspace_path: self.workspace_path,
            started_at: self.started_at,
            live_session: self.live_session@,
        }
    }
}

impl Clone for RunningEntry {
    fn clone(&self) -> (r: RunningEntry)
        ensures
            r@ == self@,
    {
        RunningEntry {
            issue_id: self.issue_id.clone(),
            issue_identifier: self.issue_identifier.clone(),
            issue: self.issue.clone(),
            attempt: self.attempt,
            workspace_path: self.workspace_path.clone(),
            started_at: self.started_at,
            live_session: self.live_session.clone(),
        }
    }
}

/// An issue that waits for its next attempt.
#[derive(Debug)]
pub struct RetryEntry {
    pub issue_id: String,
    pub identifier: String,
    pub attempt: u32,
    pub due_at: Timestamp,
    pub due_at_ms: u128,
    pub error: Option<String>,
}

/// What a `RetryEntry` is.
#[verifier::ext_equal]
pub struct RetryV {
    pub issue_id: Seq<char>,
    pub identifier: Seq<char>,
    pub attempt: u32,
    pub due_at: Timestamp,
    pub due_at_ms: u128,
    pub error: Option<Seq<char>>,
}

impl View for RetryEntry {
    type V = RetryV;

    open spec fn view(&self) -> RetryV {
        RetryV {
            issue_id: self.issue_id@,
            identifier: self.identifier@,
            attempt: self.attempt,
            due_at: self.due_at,
            due_at_ms: self.due_at_ms,
            error: opt_text(self.error),
        }
    }
}

impl Clone for RetryEntry {
    fn clone(&self) -> (r: RetryEntry)
        ensures
            r@ == self@,
    {
        RetryEntry {
            issue_id: self.issue_id.clone(),
            identifier: self.identifier.clone(),
            attempt: self.attempt,
            due_at: self.due_at,
            due_at_ms: self.due_at_ms,
            error: copy_text(&self.error),
        }
    }
}

/// The state that the tracker reports of an issue.
#[derive(Debug)]
pub struct IssueState {
    pub id: String,
    pub identifier: Option<String>,
    pub state: String,
}

/// What an `IssueState` is.
#[verifier::ext_equal]
pub struct IssueStateV {
    pub id: Seq<char>,
    pub identifier: Option<Seq<char>>,
    pub state: Seq<char>,
}

impl View for IssueState {
    type V = IssueStateV;

    open spec fn view(&self) -> IssueStateV {
        IssueStateV { id: self.id@, identifier: opt_text(self.identifier), state: self.state@ }
    }
}

impl Clone for IssueState {
    fn clone(&self) -> (r: IssueState)
        ensures
            r@ == self@,
    {
        IssueState {
            id: self.id.clone(),
            identifier: copy_text(&self.identifier),
            state: self.state.clone(),
        }
    }
}

/// What the scheduler shows of itself.
#[derive(Debug)]
pub struct RuntimeState {
    pub poll_interval_ms: u64,
    pub max_concurrent_agents: usize,
    pub running: StringMap<RunningEntry>,
    pub claimed: Vec<String>,
    pub retrying: StringMap<RetryEntry>,
    pub completed: Vec<String>,
    pub codex_totals: CodexTotals,
    pub codex_rate_limits: Option<Json>,
    pub last_error: Option<String>,
}

/// The name of a state, without regard to case.
pub fn normalize_state(state: &str) -> (r: String)
    ensures
        r@ == lowercase(state@),
{
    state.to_lowercase()
}

/// The state is among the states, without regard to case.
pub open spec fn among_states(state: Seq<char>, states: Seq<Seq<char>>) -> bool {
    exists|i: int| 0 <= i < states.len() && lowercase(#[trigger] states[i]) == lowercase(state)
}

/// A state is among others just where one of them is spelled the same but for case,
/// so that neither the order of them nor the case of any letter matters.
pub proof fn among_states_ignores_case(
    state: Seq<char>,
    other: Seq<char>,
    states: Seq<Seq<char>>,
    i: int,
)
    requires
        lowercase(state) == lowercase(other),
        0 <= i < states.len(),
    ensures
        among_states(state, states) == among_states(other, states),
        lowercase(states[i]) == lowercase(state) ==> among_states(state, states),
        !among_states(state, states) ==> lowercase(states[i]) != lowercase(state),
{
}

/// Whether the state is among the states, without regard to case.
pub fn state_in(state: &str, states: &[String]) -> (r: bool)
    ensures
        r == among_states(state@, texts(states@)),
{
    let normalized = normalize_state(state);
    let mut i: usize = 0;
    while i < states.len()
        invariant
            i <= states@.len(),
            normalized@ == lowercase(state@),
            forall|k: int|
                0 <= k < i ==> lowercase(#[trigger] texts(states@)[k]) != lowercase(state@),
        decreases states@.len() - i,
    {
        assert(texts(states@)[i as int] == states@[i as int]@);
        if normalize_state(states[i].as_str()) == normalized {
            return true;
        }
        i += 1;
    }
    false
}

}
