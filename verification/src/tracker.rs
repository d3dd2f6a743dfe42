//! The issue tracker: the requests that it is sent, and what its replies say.

use vstd::prelude::*;
use vstd::utf8::is_ascii_chars;

use crate::config::ServiceConfig;
use crate::json::{
    json_display, member_wf, no_members, opt_json, opt_text, with_then_get, Json, JsonV,
};
use crate::keyed::StringMap;
use crate::model::{
    blocker_views, copy_texts, instant_from_text, issue_views, rfc3339_instant, BlockerRef,
    BlockerV, Issue, IssueState, IssueStateV, IssueV, Timestamp,
};
use crate::text::{
    ascii_letter, ascii_lower, blank, chars_of, is_ascii_letter, is_blank, lowercase, same_text,
    text_of, texts, trimmed,
};

verus! {

broadcast use vstd::string::group_string_axioms;

/// How many issues a page holds at most.
pub const PAGE_SIZE: u64 = 50;

/// The query for the issues in some states.
pub const CANDIDATE_ISSUES_QUERY: &'static str = r#"
query SymphonyCandidateIssues($projectSlug: String!, $stateNames: [String!], $first: Int!, $after: String) {
  issues(
    first: $first
    after: $after
    filter: {
      project: { slugId: { eq: $projectSlug } }
      state: { name: { in: $stateNames } }
    }
  ) {
    pageInfo { hasNextPage endCursor }
    nodes {
      id
      identifier
      title
      description
      priority
      branchName
      url
      createdAt
      updatedAt
      state { name }
      labels { nodes { name } }
      inverseRelations { nodes { type issue { id identifier state { name } } relatedIssue { id identifier state { name } } } }
    }
  }
}
"#;

/// The query for the states of some issues.
pub const ISSUE_STATES_QUERY: &'static str = r#"
query SymphonyIssueStates($ids: [ID!], $first: Int!) {
  issues(first: $first, filter: { id: { in: $ids } }) {
    nodes { id identifier state { name } }
  }
}
"#;

/// Why the tracker gave no answer.
#[derive(Debug)]
pub enum TrackerError {
    UnsupportedTrackerKind(String),
    MissingApiKey,
    MissingProjectSlug,
    LinearApiRequest(String),
    /// The status of the reply, in words.
    LinearApiStatus(String),
    LinearGraphqlErrors(Json),
    LinearUnknownPayload(String),
    LinearMissingEndCursor,
}

/// What a `TrackerError` is.
pub enum TrackerFault {
    UnsupportedTrackerKind(Seq<char>),
    MissingApiKey,
    MissingProjectSlug,
    LinearApiRequest(Seq<char>),
    LinearApiStatus(Seq<char>),
    LinearGraphqlErrors(JsonV),
    LinearUnknownPayload(Seq<char>),
    LinearMissingEndCursor,
}

impl View for TrackerError {
    type V = TrackerFault;

    open spec fn view(&self) -> TrackerFault {
        match self {
            TrackerError::UnsupportedTrackerKind(kind) => TrackerFault::UnsupportedTrackerKind(
                kind@,
            ),
            TrackerError::MissingApiKey => TrackerFault::MissingApiKey,
            TrackerError::MissingProjectSlug => TrackerFault::MissingProjectSlug,
            TrackerError::LinearApiRequest(reason) => TrackerFault::LinearApiRequest(reason@),
            TrackerError::LinearApiStatus(status) => TrackerFault::LinearApiStatus(status@),
            TrackerError::LinearGraphqlErrors(errors) => TrackerFault::LinearGraphqlErrors(errors@),
            TrackerError::LinearUnknownPayload(reason) => TrackerFault::LinearUnknownPayload(
                reason@,
            ),
            TrackerError::LinearMissingEndCursor => TrackerFault::LinearMissingEndCursor,
        }
    }
}

impl TrackerFault {
    /// The JSON in the error is well formed.
    pub open spec fn wf(self) -> bool {
        match self {
            TrackerFault::LinearGraphqlErrors(errors) => errors.wf(),
            _ => true,
        }
    }

    /// The message of the error.
    pub open spec fn words(self) -> Seq<char> {
        match self {
            TrackerFault::UnsupportedTrackerKind(kind) => "unsupported_tracker_kind kind="@ + kind,
            TrackerFault::MissingApiKey => "missing_tracker_api_key"@,
            TrackerFault::MissingProjectSlug => "missing_tracker_project_slug"@,
            TrackerFault::LinearApiRequest(reason) => "linear_api_request reason="@ + reason,
            TrackerFault::LinearApiStatus(status) => "linear_api_status status="@ + status,
            TrackerFault::LinearGraphqlErrors(errors) => "linear_graphql_errors errors="@
                + json_display(errors),
            TrackerFault::LinearUnknownPayload(reason) => "linear_unknown_payload reason="@
                + reason,
            TrackerFault::LinearMissingEndCursor => "linear_missing_end_cursor"@,
        }
    }
}

fn labelled(label: &str, text: &str) -> (r: String)
    ensures
        r@ == label@ + text@,
{
    let mut s = label.to_owned();
    s.append(text);
    s
}

impl TrackerError {
    /// The message of the error.
    pub fn to_text(&self) -> (r: String)
        requires
            self@.wf(),
        ensures
            r@ == self@.words(),
    {
        match self {
            TrackerError::UnsupportedTrackerKind(kind) => labelled(
                "unsupported_tracker_kind kind=",
                kind.as_str(),
            ),
            TrackerError::MissingApiKey => "missing_tracker_api_key".to_owned(),
            TrackerError::MissingProjectSlug => "missing_tracker_project_slug".to_owned(),
            TrackerError::LinearApiRequest(reason) => labelled(
                "linear_api_request reason=",
                reason.as_str(),
            ),
            TrackerError::LinearApiStatus(status) => labelled(
                "linear_api_status status=",
                status.as_str(),
            ),
            TrackerError::LinearGraphqlErrors(errors) => labelled(
                "linear_graphql_errors errors=",
                errors.to_text().as_str(),
            ),
            TrackerError::LinearUnknownPayload(reason) => labelled(
                "linear_unknown_payload reason=",
                reason.as_str(),
            ),
            TrackerError::LinearMissingEndCursor => "linear_missing_end_cursor".to_owned(),
        }
    }

    fn unknown(reason: &str) -> (r: TrackerError)
        ensures
            r@ == TrackerFault::LinearUnknownPayload(reason@),
    {
        TrackerError::LinearUnknownPayload(reason.to_owned())
    }
}

/// A request to the tracker.
#[derive(Debug)]
pub struct GraphqlRequest {
    pub endpoint: String,
    pub api_key: String,
    pub body: Json,
}

/// The body of a request.
pub open spec fn request_body(query: Seq<char>, variables: JsonV) -> JsonV {
    no_members().with("query"@, JsonV::Str(query)).with("variables"@, variables)
}

/// Why no request can be made with a configuration.
pub open spec fn request_fault(config: ServiceConfig) -> Option<TrackerFault> {
    if opt_text(config.tracker.kind) != Some("linear"@) {
        Some(
            TrackerFault::UnsupportedTrackerKind(
                match opt_text(config.tracker.kind) {
                    Some(kind) => kind,
                    None => Seq::empty(),
                },
            ),
        )
    } else {
        match opt_text(config.tracker.api_key) {
            Some(key) => if blank(key) {
                Some(TrackerFault::MissingApiKey)
            } else {
                None
            },
            None => Some(TrackerFault::MissingApiKey),
        }
    }
}

/// The outcome of making a request.
pub open spec fn requests(
    r: Result<GraphqlRequest, TrackerError>,
    config: ServiceConfig,
    query: Seq<char>,
    variables: JsonV,
) -> bool {
    match r {
        Ok(request) => {
            &&& request_fault(config) is None
            &&& request.endpoint@ == config.tracker.endpoint@
            &&& opt_text(config.tracker.api_key) == Some(request.api_key@)
            &&& request.body@ == request_body(query, variables)
            &&& variables.wf() ==> request.body@.wf()
        },
        Err(e) => request_fault(config) == Some(e@),
    }
}

/// A request to the tracker that the configuration names.
pub fn graphql_request(config: &ServiceConfig, query: &str, variables: Json) -> (r: Result<
    GraphqlRequest,
    TrackerError,
>)
    ensures
        requests(r, *config, query@, variables@),
{
    match &config.tracker.kind {
        Some(kind) => if !same_text(kind.as_str(), "linear") {
            return Err(TrackerError::UnsupportedTrackerKind(kind.clone()));
        },
        None => {
            let none = String::new();
            assert(none@ == Seq::<char>::empty());
            return Err(TrackerError::UnsupportedTrackerKind(none));
        },
    }
    match &config.tracker.api_key {
        Some(key) => if is_blank(key.as_str()) {
            Err(TrackerError::MissingApiKey)
        } else {
            Ok(
                GraphqlRequest {
                    endpoint: config.tracker.endpoint.clone(),
                    api_key: key.clone(),
                    body: Json::object().with("query", Json::text(query)).with(
                        "variables",
                        variables,
                    ),
                },
            )
        },
        None => Err(TrackerError::MissingApiKey),
    }
}

/// That is how the status of a reply is taken.
pub open spec fn takes_status(code: u16, words: Seq<char>, r: Result<(), TrackerError>) -> bool {
    match r {
        Ok(_) => 200 <= code < 300,
        Err(e) => !(200 <= code < 300) && e@ == TrackerFault::LinearApiStatus(words),
    }
}

/// Accepts the status of a reply: `code` is its number, `words` what it says.
pub fn accept_status(code: u16, words: String) -> (r: Result<(), TrackerError>)
    ensures
        takes_status(code, words@, r),
{
    if 200 <= code && code < 300 {
        Ok(())
    } else {
        Err(TrackerError::LinearApiStatus(words))
    }
}

/// That is how the payload of a reply is taken.
pub open spec fn takes_payload(
    payload: Result<Json, String>,
    r: Result<Json, TrackerError>,
) -> bool {
    match payload {
        Ok(value) => match value@.get("errors"@) {
            Some(errors) => match r {
                Ok(_) => false,
                Err(e) => e@ == TrackerFault::LinearGraphqlErrors(errors) && (value@.wf()
                    ==> e@.wf()),
            },
            None => r == Ok::<Json, TrackerError>(value),
        },
        Err(reason) => r matches Err(e) && e@ == TrackerFault::LinearApiRequest(reason@),
    }
}

/// The payload of a reply: one with errors is an error itself.
pub fn accept_payload(payload: Result<Json, String>) -> (r: Result<Json, TrackerError>)
    ensures
        takes_payload(payload, r),
{
    match payload {
        Ok(value) => {
            proof {
                if value@.wf() {
                    member_wf(value@, "errors"@);
                }
            }
            if let Some(errors) = value.get("errors") {
                return Err(TrackerError::LinearGraphqlErrors(errors.clone()));
            }
            Ok(value)
        },
        Err(reason) => Err(TrackerError::LinearApiRequest(reason)),
    }
}

/// How many ASCII letters the text starts with.
pub open spec fn letter_run(s: Seq<char>) -> nat
    decreases s.len(),
{
    if s.len() == 0 || !ascii_letter(s[0]) {
        0
    } else {
        1 + letter_run(s.drop_first())
    }
}

/// A word that starts a GraphQL operation.
pub open spec fn operation_word(word: Seq<char>) -> bool {
    word == "query"@ || word == "mutation"@ || word == "subscription"@
}

/// How many of the words of a text, which are its longest runs of ASCII letters,
/// start an operation.
pub open spec fn operations(s: Seq<char>) -> nat
    decreases s.len(),
{
    if s.len() == 0 {
        0
    } else if letter_run(s) == 0 {
        operations(s.drop_first())
    } else {
        proof {
            letter_run_bounds(s);
        }
        operations(s.skip(letter_run(s) as int)) + if operation_word(
            s.take(letter_run(s) as int),
        ) {
            1nat
        } else {
            0nat
        }
    }
}

/// A run of letters is no longer than the text.
pub proof fn letter_run_bounds(s: Seq<char>)
    ensures
        letter_run(s) <= s.len(),
    decreases s.len(),
{
    if s.len() > 0 && ascii_letter(s[0]) {
        letter_run_bounds(s.drop_first());
    }
}

fn count_operations(text: &str) -> (r: usize)
    ensures
        r == operations(text@),
{
    let v = chars_of(text);
    let mut count: usize = 0;
    let mut start: usize = 0;
    assert(v@.skip(0) == v@);
    while start < v.len()
        invariant
            start <= v@.len(),
            count <= start,
            count + operations(v@.skip(start as int)) == operations(v@),
        decreases v@.len() - start,
    {
        let ghost rest = v@.skip(start as int);
        let mut end: usize = start;
        assert(rest.skip(0) == rest);
        while end < v.len() && is_ascii_letter(v[end])
            invariant
                start <= end <= v@.len(),
                rest == v@.skip(start as int),
                letter_run(rest) == end - start + letter_run(rest.skip(end - start)),
            decreases v@.len() - end,
        {
            assert(rest.skip(end - start).drop_first() == rest.skip(end + 1 - start));
            end += 1;
        }
        assert(letter_run(rest) == end - start);
        if end == start {
            assert(rest.drop_first() == v@.skip(start + 1));
            start += 1;
        } else {
            let word = text_of(&v, start, end);
            assert(word@ == rest.take(end - start));
            assert(rest.skip(end - start) == v@.skip(end as int));
            if same_text(word.as_str(), "query") || same_text(word.as_str(), "mutation")
                || same_text(word.as_str(), "subscription") {
                count += 1;
            }
            start = end;
        }
    }
    assert(operations(v@.skip(start as int)) == 0);
    count
}

/// Why a query is not accepted.
pub open spec fn query_fault(query: Seq<char>) -> Option<TrackerFault> {
    if blank(query) {
        Some(TrackerFault::LinearUnknownPayload("empty GraphQL query"@))
    } else if operations(trimmed(query)) > 1 {
        Some(
            TrackerFault::LinearUnknownPayload("linear_graphql accepts exactly one operation"@),
        )
    } else {
        None
    }
}

/// Accepts a query that is not blank and names at most one operation.
pub fn validate_single_graphql_operation(query: &str) -> (r: Result<(), TrackerError>)
    ensures
        match r {
            Ok(_) => query_fault(query@) is None,
            Err(e) => query_fault(query@) == Some(e@),
        },
{
    let text = query.trim();
    if text.is_empty() {
        return Err(TrackerError::unknown("empty GraphQL query"));
    }
    if count_operations(text) > 1 {
        return Err(TrackerError::unknown("linear_graphql accepts exactly one operation"));
    }
    Ok(())
}

/// That is the request of the tool by which a session asks the tracker.
pub open spec fn asks(
    config: ServiceConfig,
    query: Seq<char>,
    variables: Option<JsonV>,
    r: Result<GraphqlRequest, TrackerError>,
) -> bool {
    match query_fault(query) {
        Some(fault) => r matches Err(e) && e@ == fault,
        None => requests(
            r,
            config,
            query,
            match variables {
                Some(v) => v,
                None => no_members(),
            },
        ),
    }
}

/// The request of the tool by which a session asks the tracker.
pub fn linear_graphql_tool(config: &ServiceConfig, query: &str, variables: Option<Json>) -> (r:
    Result<GraphqlRequest, TrackerError>)
    ensures
        asks(*config, query@, opt_json(variables), r),
{
    match validate_single_graphql_operation(query) {
        Ok(_) => {},
        Err(e) => return Err(e),
    }
    let variables = match variables {
        Some(v) => v,
        None => Json::object(),
    };
    graphql_request(config, query, variables)
}

/// The items of the array `second` in the member `first`; none where there is no
/// such array.
pub open spec fn items_under(node: JsonV, first: Seq<char>, second: Seq<char>) -> Seq<JsonV> {
    match node.at(first, second) {
        Some(v) => match v.as_array() {
            Some(items) => items,
            None => Seq::empty(),
        },
        None => Seq::empty(),
    }
}

/// The names of the labels in small letters; what has no name is skipped.
pub open spec fn label_names(items: Seq<JsonV>) -> Seq<Seq<char>>
    decreases items.len(),
{
    if items.len() == 0 {
        Seq::empty()
    } else {
        let before = label_names(items.drop_last());
        match items.last().str_at("name"@) {
            Some(name) => before.push(lowercase(name)),
            None => before,
        }
    }
}

/// The relation is that of an issue that blocks, without regard to case.
pub open spec fn blocks(relation: JsonV) -> bool {
    match relation.str_at("type"@) {
        Some(kind) => kind.map_values(|c: char| ascii_lower(c)) == "blocks"@,
        None => false,
    }
}

/// The issue at the other end of a relation.
pub open spec fn related(relation: JsonV) -> Option<JsonV> {
    match relation.get("issue"@) {
        Some(issue) => Some(issue),
        None => relation.get("relatedIssue"@),
    }
}

/// The blocker that an issue is.
pub open spec fn blocker_of(issue: JsonV) -> BlockerV {
    BlockerV {
        id: issue.str_at("id"@),
        identifier: issue.str_at("identifier"@),
        state: issue.str_under("state"@, "name"@),
    }
}

/// The blockers among the relations.
pub open spec fn blockers_among(relations: Seq<JsonV>) -> Seq<BlockerV>
    decreases relations.len(),
{
    if relations.len() == 0 {
        Seq::empty()
    } else {
        let before = blockers_among(relations.drop_last());
        let last = relations.last();
        match related(last) {
            Some(issue) => if blocks(last) {
                before.push(blocker_of(issue))
            } else {
                before
            },
            None => before,
        }
    }
}

/// The instant that a member spells.
pub open spec fn time_at(node: JsonV, key: Seq<char>) -> Option<Timestamp> {
    match node.str_at(key) {
        Some(text) => rfc3339_instant(text),
        None => None,
    }
}

/// The issue that a node of the tracker describes, where it has an id, an
/// identifier, a title and a state; the times are given.
pub open spec fn issue_with_times(
    node: JsonV,
    created_at: Option<Timestamp>,
    updated_at: Option<Timestamp>,
) -> Option<IssueV> {
    match (
        node.str_at("id"@),
        node.str_at("identifier"@),
        node.str_at("title"@),
        node.str_under("state"@, "name"@),
    ) {
        (Some(id), Some(identifier), Some(title), Some(state)) => Some(
            IssueV {
                id,
                identifier,
                title,
                description: node.str_at("description"@),
                priority: match node.get("priority"@) {
                    Some(v) => v.as_i64(),
                    None => None,
                },
                state,
                branch_name: node.str_at("branchName"@),
                url: node.str_at("url"@),
                labels: label_names(items_under(node, "labels"@, "nodes"@)),
                blocked_by: blockers_among(items_under(node, "inverseRelations"@, "nodes"@)),
                created_at,
                updated_at,
            },
        ),
        _ => None,
    }
}

/// The issue that a node of the tracker describes, where it has an id, an
/// identifier, a title and a state.
pub open spec fn issue_of(node: JsonV) -> Option<IssueV> {
    issue_with_times(node, time_at(node, "createdAt"@), time_at(node, "updatedAt"@))
}

/// The view of an optional issue.
pub open spec fn opt_issue(issue: Option<Issue>) -> Option<IssueV> {
    match issue {
        Some(i) => Some(i@),
        None => None,
    }
}

fn labels(node: &Json) -> (r: Vec<String>)
    ensures
        texts(r@) == label_names(items_under(node@, "labels"@, "nodes"@)),
{
    let mut names: Vec<String> = Vec::new();
    assert(texts(names@) =~= Seq::<Seq<char>>::empty());
    let found = match node.at("labels", "nodes") {
        Some(v) => v,
        None => return names,
    };
    let items = match found.as_array() {
        Some(items) => items,
        None => return names,
    };
    let ghost all = items_under(node@, "labels"@, "nodes"@);
    let mut i: usize = 0;
    assert(all.take(0).len() == 0);
    while i < items.len()
        invariant
            i <= items@.len(),
            all.len() == items@.len(),
            forall|k: int| 0 <= k < items@.len() ==> all[k] == (#[trigger] items@[k])@,
            texts(names@) == label_names(all.take(i as int)),
        decreases items@.len() - i,
    {
        assert(all.take(i + 1).drop_last() == all.take(i as int));
        assert(all[i as int] == items@[i as int]@);
        let ghost before = names@;
        if let Some(name) = items[i].text_at("name") {
            let small = name.as_str().to_lowercase();
            names.push(small);
            assert(texts(names@) =~= texts(before).push(small@));
        }
        i += 1;
    }
    assert(all.take(all.len() as int) == all);
    names
}

fn is_blocking(relation: &Json) -> (r: bool)
    ensures
        r == blocks(relation@),
{
    match relation.text_at("type") {
        Some(kind) => {
            proof {
                reveal_strlit("blocks");
                let lowered = kind@.map_values(|c: char| ascii_lower(c));
                let word = seq!['b', 'l', 'o', 'c', 'k', 's'];
                assert("blocks"@ =~= word);
                if lowered == word {
                    assert forall|i: int| 0 <= i < kind@.len() implies kind@[i] as u32 <= 127 by {
                        assert(lowered[i] == ascii_lower(kind@[i]));
                        assert(lowered[i] == word[i]);
                    }
                    assert(is_ascii_chars(kind@));
                }
            }
            kind.as_str().is_ascii() && same_text(kind.as_str().to_lowercase().as_str(), "blocks")
        },
        None => false,
    }
}

fn blockers(node: &Json) -> (r: Vec<BlockerRef>)
    ensures
        blocker_views(r@) == blockers_among(items_under(node@, "inverseRelations"@, "nodes"@)),
{
    let mut found_blockers: Vec<BlockerRef> = Vec::new();
    assert(blocker_views(found_blockers@) =~= Seq::<BlockerV>::empty());
    let found = match node.at("inverseRelations", "nodes") {
        Some(v) => v,
        None => return found_blockers,
    };
    let items = match found.as_array() {
        Some(items) => items,
        None => return found_blockers,
    };
    let ghost all = items_under(node@, "inverseRelations"@, "nodes"@);
    let mut i: usize = 0;
    assert(all.take(0).len() == 0);
    while i < items.len()
        invariant
            i <= items@.len(),
            all.len() == items@.len(),
            forall|k: int| 0 <= k < items@.len() ==> all[k] == (#[trigger] items@[k])@,
            blocker_views(found_blockers@) == blockers_among(all.take(i as int)),
        decreases items@.len() - i,
    {
        assert(all.take(i + 1).drop_last() == all.take(i as int));
        assert(all[i as int] == items@[i as int]@);
        let ghost before = found_blockers@;
        let relation = &items[i];
        if is_blocking(relation) {
            let other = match relation.get("issue") {
                Some(issue) => Some(issue),
                None => relation.get("relatedIssue"),
            };
            if let Some(issue) = other {
                let blocker = BlockerRef {
                    id: issue.text_at("id"),
                    identifier: issue.text_at("identifier"),
                    state: issue.text_under("state", "name"),
                };
                assert(blocker@ == blocker_of(issue@));
                found_blockers.push(blocker);
                assert(blocker_views(found_blockers@) =~= blocker_views(before).push(blocker@));
            }
        }
        i += 1;
    }
    assert(all.take(all.len() as int) == all);
    found_blockers
}

fn parse_time(node: &Json, key: &str) -> (r: Option<Timestamp>)
    ensures
        r == time_at(node@, key@),
{
    match node.text_at(key) {
        Some(text) => instant_from_text(text.as_str()),
        None => None,
    }
}

/// The issue that a node of the tracker describes, where it has an id, an
/// identifier, a title and a state.
pub fn normalize_issue(node: &Json) -> (r: Option<Issue>)
    ensures
        opt_issue(r) == issue_of(node@),
{
    normalize_timed_issue(node, parse_time(node, "createdAt"), parse_time(node, "updatedAt"))
}

/// The issue that a node of the tracker describes, where it has an id, an
/// identifier, a title and a state; the times are given.
pub fn normalize_timed_issue(
    node: &Json,
    created_at: Option<Timestamp>,
    updated_at: Option<Timestamp>,
) -> (r: Option<Issue>)
    ensures
        opt_issue(r) == issue_with_times(node@, created_at, updated_at),
{
    let id = match node.text_at("id") {
        Some(text) => text,
        None => return None,
    };
    let identifier = match node.text_at("identifier") {
        Some(text) => text,
        None => return None,
    };
    let title = match node.text_at("title") {
        Some(text) => text,
        None => return None,
    };
    let state = match node.text_under("state", "name") {
        Some(text) => text,
        None => return None,
    };
    let priority = match node.get("priority") {
        Some(v) => v.as_i64(),
        None => None,
    };
    Some(
        Issue {
            id,
            identifier,
            title,
            description: node.text_at("description"),
            priority,
            state,
            branch_name: node.text_at("branchName"),
            url: node.text_at("url"),
            labels: labels(node),
            blocked_by: blockers(node),
            created_at,
            updated_at,
        },
    )
}

/// The issues that the nodes describe; a node that describes none is skipped.
pub open spec fn issues_among(nodes: Seq<JsonV>) -> Seq<IssueV>
    decreases nodes.len(),
{
    if nodes.len() == 0 {
        Seq::empty()
    } else {
        let before = issues_among(nodes.drop_last());
        match issue_of(nodes.last()) {
            Some(issue) => before.push(issue),
            None => before,
        }
    }
}

/// What a page of issues says.
pub enum PageV {
    /// The page is not what it should be.
    Faulty(TrackerFault),
    /// The last page.
    Last(Seq<IssueV>),
    /// There are more after that cursor.
    More(Seq<IssueV>, Seq<char>),
}

/// What a page of issues says.
pub open spec fn page_of(payload: JsonV) -> PageV {
    match payload.at("data"@, "issues"@) {
        None => PageV::Faulty(TrackerFault::LinearUnknownPayload("missing data.issues"@)),
        Some(page) => match page.get("nodes"@) {
            Some(JsonV::Array(nodes)) => match page.get("pageInfo"@) {
                None => PageV::Faulty(
                    TrackerFault::LinearUnknownPayload("missing issues.pageInfo"@),
                ),
                Some(info) => if info.get("hasNextPage"@) == Some(JsonV::Bool(true)) {
                    match info.str_at("endCursor"@) {
                        Some(cursor) => PageV::More(issues_among(nodes), cursor),
                        None => PageV::Faulty(TrackerFault::LinearMissingEndCursor),
                    }
                } else {
                    PageV::Last(issues_among(nodes))
                },
            },
            _ => PageV::Faulty(TrackerFault::LinearUnknownPayload("missing issues.nodes"@)),
        },
    }
}

/// Issues that are being fetched, page by page.
#[derive(Debug)]
pub struct IssueFetch {
    project_slug: String,
    state_names: Vec<String>,
    after: Option<String>,
    issues: Vec<Issue>,
}

/// What an `IssueFetch` is.
#[verifier::ext_equal]
pub struct FetchV {
    pub project_slug: Seq<char>,
    pub state_names: Seq<Seq<char>>,
    pub after: Option<Seq<char>>,
    pub issues: Seq<IssueV>,
}

impl FetchV {
    /// What a fetch becomes when a page is taken in: its issues come behind those
    /// that there were, and its cursor is where the next page begins. A faulty page
    /// changes nothing.
    pub open spec fn absorbed(self, page: PageV) -> FetchV {
        match page {
            PageV::Faulty(_) => self,
            PageV::Last(issues) => FetchV { issues: self.issues + issues, ..self },
            PageV::More(issues, cursor) => FetchV {
                issues: self.issues + issues,
                after: Some(cursor),
                ..self
            },
        }
    }

    /// What a fetch becomes when pages are taken in, one after the other.
    pub open spec fn absorbed_all(self, payloads: Seq<JsonV>) -> FetchV
        decreases payloads.len(),
    {
        if payloads.len() == 0 {
            self
        } else {
            self.absorbed_all(payloads.drop_last()).absorbed(page_of(payloads.last()))
        }
    }
}

impl View for IssueFetch {
    type V = FetchV;

    closed spec fn view(&self) -> FetchV {
        FetchV {
            project_slug: self.project_slug@,
            state_names: texts(self.state_names@),
            after: opt_text(self.after),
            issues: issue_views(self.issues@),
        }
    }
}

/// The variables of the query for the next page.
pub open spec fn page_variables(fetch: FetchV) -> JsonV {
    no_members().with("projectSlug"@, JsonV::Str(fetch.project_slug)).with(
        "stateNames"@,
        JsonV::Array(fetch.state_names.map_values(|s: Seq<char>| JsonV::Str(s))),
    ).with("first"@, JsonV::PosInt(PAGE_SIZE)).with(
        "after"@,
        match fetch.after {
            Some(cursor) => JsonV::Str(cursor),
            None => JsonV::Null,
        },
    )
}

/// That is the start of a fetch of the issues of the project that are in one of
/// the states.
pub open spec fn begins_fetch(
    state_names: Seq<Seq<char>>,
    config: ServiceConfig,
    r: Result<IssueFetch, TrackerError>,
) -> bool {
    match opt_text(config.tracker.project_slug) {
        Some(slug) => if blank(slug) {
            r matches Err(e) && e@ == TrackerFault::MissingProjectSlug
        } else {
            r matches Ok(fetch) && fetch@ == (FetchV {
                project_slug: slug,
                state_names,
                after: None,
                issues: Seq::empty(),
            })
        },
        None => r matches Err(e) && e@ == TrackerFault::MissingProjectSlug,
    }
}

/// Starts fetching the issues of the project that are in one of the states.
pub fn fetch_issues_by_states(state_names: &Vec<String>, config: &ServiceConfig) -> (r: Result<
    IssueFetch,
    TrackerError,
>)
    ensures
        begins_fetch(texts(state_names@), *config, r),
{
    match &config.tracker.project_slug {
        Some(slug) => if is_blank(slug.as_str()) {
            Err(TrackerError::MissingProjectSlug)
        } else {
            let fetch = IssueFetch {
                project_slug: slug.clone(),
                state_names: copy_texts(state_names),
                after: None,
                issues: Vec::new(),
            };
            assert(issue_views(fetch.issues@) =~= Seq::<IssueV>::empty());
            Ok(fetch)
        },
        None => Err(TrackerError::MissingProjectSlug),
    }
}

/// That is the start of a fetch of the issues that can be worked on.
pub open spec fn begins_candidates(
    config: ServiceConfig,
    r: Result<IssueFetch, TrackerError>,
) -> bool {
    begins_fetch(texts(config.tracker.active_states@), config, r)
}

/// Starts fetching the issues that can be worked on.
pub fn fetch_candidate_issues(config: &ServiceConfig) -> (r: Result<IssueFetch, TrackerError>)
    ensures
        begins_candidates(*config, r),
{
    fetch_issues_by_states(&config.tracker.active_states, config)
}

impl IssueFetch {
    /// The request for the next page.
    pub fn request(&self, config: &ServiceConfig) -> (r: Result<GraphqlRequest, TrackerError>)
        ensures
            requests(r, *config, CANDIDATE_ISSUES_QUERY@, page_variables(self@)),
    {
        let after = match &self.after {
            Some(cursor) => Json::text(cursor.as_str()),
            None => Json::Null,
        };
        let variables = Json::object().with(
            "projectSlug",
            Json::text(self.project_slug.as_str()),
        ).with("stateNames", Json::of_texts(&self.state_names)).with(
            "first",
            Json::PosInt(PAGE_SIZE),
        ).with("after", after);
        graphql_request(config, CANDIDATE_ISSUES_QUERY, variables)
    }

    /// Takes a page in, and says whether there is another one.
    pub fn absorb(&mut self, payload: &Json) -> (r: Result<bool, TrackerError>)
        ensures
            final(self)@ == old(self)@.absorbed(page_of(payload@)),
            match page_of(payload@) {
                PageV::Faulty(fault) => r matches Err(e) && e@ == fault,
                PageV::Last(_) => r == Ok::<bool, TrackerError>(false),
                PageV::More(..) => r == Ok::<bool, TrackerError>(true),
            },
    {
        let page = match payload.at("data", "issues") {
            Some(page) => page,
            None => return Err(TrackerError::unknown("missing data.issues")),
        };
        let nodes = match page.get("nodes") {
            Some(Json::Array(nodes)) => nodes,
            _ => return Err(TrackerError::unknown("missing issues.nodes")),
        };
        let info = match page.get("pageInfo") {
            Some(info) => info,
            None => return Err(TrackerError::unknown("missing issues.pageInfo")),
        };
        let has_next = match info.get("hasNextPage") {
            Some(Json::Bool(b)) => *b,
            _ => false,
        };
        let mut cursor: Option<String> = None;
        if has_next {
            cursor = info.text_at("endCursor");
            if cursor.is_none() {
                return Err(TrackerError::LinearMissingEndCursor);
            }
        }
        let ghost all = page@.get("nodes"@)->0->Array_0;
        let ghost start = issue_views(self.issues@);
        let mut i: usize = 0;
        assert(all.take(0).len() == 0);
        assert(start + Seq::<IssueV>::empty() == start);
        while i < nodes.len()
            invariant
                i <= nodes@.len(),
                all.len() == nodes@.len(),
                forall|k: int| 0 <= k < nodes@.len() ==> all[k] == (#[trigger] nodes@[k])@,
                issue_views(self.issues@) == start + issues_among(all.take(i as int)),
                self.project_slug == old(self).project_slug,
                self.state_names == old(self).state_names,
                self.after == old(self).after,
            decreases nodes@.len() - i,
        {
            assert(all.take(i + 1).drop_last() == all.take(i as int));
            assert(all[i as int] == nodes@[i as int]@);
            let ghost before = self.issues@;
            if let Some(issue) = normalize_issue(&nodes[i]) {
                self.issues.push(issue);
                assert(issue_views(self.issues@) =~= issue_views(before).push(issue@));
                assert(start + issues_among(all.take(i as int)).push(issue@) == (start
                    + issues_among(all.take(i as int))).push(issue@));
            }
            i += 1;
        }
        assert(all.take(all.len() as int) == all);
        if has_next {
            self.after = cursor;
        }
        Ok(has_next)
    }

    /// The issues of all pages so far.
    pub fn into_issues(self) -> (r: Vec<Issue>)
        ensures
            issue_views(r@) == self@.issues,
    {
        self.issues
    }
}

/// The nodes of a page.
pub open spec fn nodes_of(payload: JsonV) -> Seq<JsonV> {
    match payload.at("data"@, "issues"@) {
        Some(page) => match page.get("nodes"@) {
            Some(JsonV::Array(nodes)) => nodes,
            _ => Seq::empty(),
        },
        None => Seq::empty(),
    }
}

/// The nodes of all pages, in order.
pub open spec fn nodes_of_all(payloads: Seq<JsonV>) -> Seq<JsonV>
    decreases payloads.len(),
{
    if payloads.len() == 0 {
        Seq::empty()
    } else {
        nodes_of_all(payloads.drop_last()) + nodes_of(payloads.last())
    }
}

/// Every page but the last says that there is another one, and none is faulty.
pub open spec fn pages_of_a_fetch(payloads: Seq<JsonV>) -> bool {
    forall|i: int|
        0 <= i < payloads.len() ==> match page_of(#[trigger] payloads[i]) {
            PageV::Faulty(_) => false,
            PageV::Last(_) => i == payloads.len() - 1,
            PageV::More(..) => true,
        }
}

proof fn issues_among_both(a: Seq<JsonV>, b: Seq<JsonV>)
    ensures
        issues_among(a + b) == issues_among(a) + issues_among(b),
    decreases b.len(),
{
    if b.len() == 0 {
        assert(a + b =~= a);
        assert(issues_among(a) + issues_among(b) =~= issues_among(a));
    } else {
        issues_among_both(a, b.drop_last());
        assert((a + b).drop_last() =~= a + b.drop_last());
        assert((a + b).last() == b.last());
        match issue_of(b.last()) {
            Some(issue) => {
                assert(issues_among(a) + issues_among(b) =~= (issues_among(a) + issues_among(
                    b.drop_last(),
                )).push(issue));
            },
            None => {},
        }
    }
}

/// A fetch holds the issues of all its pages, in the order of the pages, and no
/// others; what it fetches stays what it was.
pub proof fn pages_add_up(fetch: FetchV, payloads: Seq<JsonV>)
    requires
        pages_of_a_fetch(payloads),
    ensures
        fetch.absorbed_all(payloads).issues == fetch.issues + issues_among(nodes_of_all(payloads)),
        fetch.absorbed_all(payloads).project_slug == fetch.project_slug,
        fetch.absorbed_all(payloads).state_names == fetch.state_names,
    decreases payloads.len(),
{
    if payloads.len() == 0 {
        assert(fetch.issues + issues_among(nodes_of_all(payloads)) =~= fetch.issues);
    } else {
        let before = payloads.drop_last();
        assert forall|i: int| 0 <= i < before.len() implies match page_of(#[trigger] before[i]) {
            PageV::Faulty(_) => false,
            PageV::Last(_) => i == before.len() - 1,
            PageV::More(..) => true,
        } by {
            assert(page_of(payloads[i]) is More);
        }
        pages_add_up(fetch, before);
        issues_among_both(nodes_of_all(before), nodes_of(payloads.last()));
        assert(!(page_of(payloads[payloads.len() - 1]) is Faulty));
        assert(fetch.absorbed_all(payloads).issues =~= fetch.issues + issues_among(
            nodes_of_all(payloads),
        ));
    }
}

/// The first page is asked for without a cursor, and every later one behind the
/// cursor that the page before it ends with.
pub proof fn pages_are_asked_for_in_turn(fetch: FetchV, payloads: Seq<JsonV>, i: int)
    requires
        pages_of_a_fetch(payloads),
        fetch.after is None,
        0 <= i < payloads.len(),
    ensures
        ({
            let asked = page_variables(fetch.absorbed_all(payloads.take(i)));
            if i == 0 {
                asked.get("after"@) == Some(JsonV::Null)
            } else {
                page_of(payloads[i - 1]) matches PageV::More(_, cursor) && asked.get("after"@)
                    == Some(JsonV::Str(cursor))
            }
        }),
{
    if i > 0 {
        assert(payloads.take(i).last() == payloads[i - 1]);
        assert(page_of(payloads[i - 1]) is More);
    }
    let now = fetch.absorbed_all(payloads.take(i));
    let others = no_members().with("projectSlug"@, JsonV::Str(now.project_slug)).with(
        "stateNames"@,
        JsonV::Array(now.state_names.map_values(|s: Seq<char>| JsonV::Str(s))),
    ).with("first"@, JsonV::PosInt(PAGE_SIZE));
    let cursor = match now.after {
        Some(cursor) => JsonV::Str(cursor),
        None => JsonV::Null,
    };
    with_then_get(others->Object_0, "after"@, cursor, "after"@);
}

/// The state that a node of the tracker reports, where it has an id and a state.
pub open spec fn issue_state_of(node: JsonV) -> Option<IssueStateV> {
    match (node.str_at("id"@), node.str_under("state"@, "name"@)) {
        (Some(id), Some(state)) => Some(
            IssueStateV { id, identifier: node.str_at("identifier"@), state },
        ),
        _ => None,
    }
}

/// The states that the nodes report, by the id of the issue. Of two reports on
/// an issue the later one counts.
pub open spec fn states_among(nodes: Seq<JsonV>) -> Map<Seq<char>, IssueStateV>
    decreases nodes.len(),
{
    if nodes.len() == 0 {
        Map::empty()
    } else {
        let before = states_among(nodes.drop_last());
        match issue_state_of(nodes.last()) {
            Some(state) => before.insert(state.id, state),
            None => before,
        }
    }
}

/// The views of the states in a map.
pub open spec fn state_views(states: Map<Seq<char>, IssueState>) -> Map<Seq<char>, IssueStateV> {
    states.map_values(|s: IssueState| s@)
}

/// The variables of the query for the states of issues.
pub open spec fn states_variables(ids: Seq<Seq<char>>) -> JsonV {
    no_members().with("ids"@, JsonV::Array(ids.map_values(|s: Seq<char>| JsonV::Str(s)))).with(
        "first"@,
        JsonV::PosInt(ids.len() as u64),
    )
}

/// The request for the states of issues; none where there are no issues.
pub fn fetch_issue_states_by_ids(issue_ids: &Vec<String>, config: &ServiceConfig) -> (r: Option<
    Result<GraphqlRequest, TrackerError>,
>)
    ensures
        match r {
            Some(request) => issue_ids@.len() > 0 && requests(
                request,
                *config,
                ISSUE_STATES_QUERY@,
                states_variables(texts(issue_ids@)),
            ),
            None => issue_ids@.len() == 0,
        },
{
    if issue_ids.len() == 0 {
        return None;
    }
    let variables = Json::object().with("ids", Json::of_texts(issue_ids)).with(
        "first",
        Json::PosInt(issue_ids.len() as u64),
    );
    Some(graphql_request(config, ISSUE_STATES_QUERY, variables))
}

/// The states of issues that a reply reports, by the id of the issue.
pub fn issue_states(payload: &Json) -> (r: Result<StringMap<IssueState>, TrackerError>)
    ensures
        match payload@.at("data"@, "issues"@) {
            Some(page) => match page.get("nodes"@) {
                Some(JsonV::Array(nodes)) => match r {
                    Ok(states) => states.wf() && state_views(states@) == states_among(nodes),
                    Err(_) => false,
                },
                _ => r matches Err(e) && e@ == TrackerFault::LinearUnknownPayload(
                    "missing data.issues.nodes"@,
                ),
            },
            None => r matches Err(e) && e@ == TrackerFault::LinearUnknownPayload(
                "missing data.issues.nodes"@,
            ),
        },
{
    let nodes = match payload.at("data", "issues") {
        Some(page) => match page.get("nodes") {
            Some(Json::Array(nodes)) => nodes,
            _ => return Err(TrackerError::unknown("missing data.issues.nodes")),
        },
        None => return Err(TrackerError::unknown("missing data.issues.nodes")),
    };
    let ghost all = payload@.at("data"@, "issues"@)->0.get("nodes"@)->0->Array_0;
    let mut states: StringMap<IssueState> = StringMap::new();
    assert(state_views(states@) =~= Map::<Seq<char>, IssueStateV>::empty());
    let mut i: usize = 0;
    assert(all.take(0).len() == 0);
    while i < nodes.len()
        invariant
            i <= nodes@.len(),
            all.len() == nodes@.len(),
            forall|k: int| 0 <= k < nodes@.len() ==> all[k] == (#[trigger] nodes@[k])@,
            states.wf(),
            state_views(states@) == states_among(all.take(i as int)),
        decreases nodes@.len() - i,
    {
        assert(all.take(i + 1).drop_last() == all.take(i as int));
        assert(all[i as int] == nodes@[i as int]@);
        let node = &nodes[i];
        if let Some(id) = node.text_at("id") {
            if let Some(state) = node.text_under("state", "name") {
                let ghost before = states@;
                let entry = IssueState { id: id.clone(), identifier: node.text_at("identifier"), state };
                let ghost view = entry@;
                states.insert(id, entry);
                assert(state_views(states@) =~= state_views(before).insert(view.id, view));
            }
        }
        i += 1;
    }
    assert(all.take(all.len() as int) == all);
    Ok(states)
}

/// The ids of the first few issues, to try out the request for their states.
pub fn sample_ids(issues: &Vec<Issue>) -> (r: Vec<String>)
    ensures
        r@.len() == (if issues@.len() < 10 {
            issues@.len() as int
        } else {
            10
        }),
        forall|i: int| 0 <= i < r@.len() ==> (#[trigger] r@[i])@ == issues@[i].id@,
{
    let mut ids: Vec<String> = Vec::new();
    let mut i: usize = 0;
    while i < issues.len() && i < 10
        invariant
            i <= issues@.len(),
            i <= 10,
            ids@.len() == i,
            forall|k: int| 0 <= k < i ==> (#[trigger] ids@[k])@ == issues@[k].id@,
        decreases issues@.len() - i,
    {
        ids.push(issues[i].id.clone());
        i += 1;
    }
    ids
}

}
