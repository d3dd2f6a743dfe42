//! What holds of the replies of the tracker: which fields of an issue come from where,
//! which issues block it, and what is asked for.

use vstd::prelude::*;

use crate::config::ServiceConfig;
use crate::eligibility::closed_blockers_do_not_matter;
use crate::json::{no_members, opt_text, with_then_get, Json, JsonV};
use crate::model::{rfc3339_instant, IssueV};
use crate::orchestrator::{eligible, SchedV};
use crate::text::{ascii_lower, blank, blank_is_white_space, lowercase, texts, trimmed, white_space};
use crate::tracker::{
    asks, begins_candidates, begins_fetch, blockers_among, issue_of, issues_among, items_under,
    label_names, letter_run, operations, page_of, page_variables, query_fault, requests,
    states_among, states_variables, takes_payload, takes_status, FetchV, GraphqlRequest, IssueFetch,
    PageV, TrackerError, TrackerFault,
};

verus! {

broadcast use vstd::string::group_string_axioms;

/// The text that a member of an object is, where it is one.
pub open spec fn text_in(node: JsonV, key: Seq<char>) -> Option<Seq<char>> {
    match node.get(key) {
        Some(JsonV::Str(text)) => Some(text),
        _ => None,
    }
}

/// The text under a key of the object under another key.
pub open spec fn text_inside(node: JsonV, outer: Seq<char>, inner: Seq<char>) -> Option<Seq<char>> {
    match node.get(outer) {
        Some(object) => text_in(object, inner),
        None => None,
    }
}

/// The list under `nodes` of the object under a key; none where there is no such
/// list.
pub open spec fn list_inside(node: JsonV, outer: Seq<char>) -> Seq<JsonV> {
    match node.get(outer) {
        Some(object) => match object.get("nodes"@) {
            Some(JsonV::Array(items)) => items,
            _ => Seq::empty(),
        },
        None => Seq::empty(),
    }
}

/// The relation says that another issue blocks this one, in whatever case, and names
/// that issue under `issue`, or else under `relatedIssue`.
pub open spec fn names_a_blocker(relation: JsonV) -> bool {
    &&& text_in(relation, "type"@) matches Some(kind) && kind.len() == 6 && forall|i: int|
        0 <= i < 6 ==> #[trigger] ascii_lower(kind[i]) == seq!['b', 'l', 'o', 'c', 'k', 's'][i]
    &&& relation.get("issue"@) is Some || relation.get("relatedIssue"@) is Some
}

/// The issue that a relation names.
pub open spec fn other_issue(relation: JsonV) -> JsonV {
    match relation.get("issue"@) {
        Some(issue) => issue,
        None => relation.get("relatedIssue"@)->0,
    }
}

/// The blockers of an issue are those that its relations name, one for each such
/// relation and in their order: with the id and the identifier of the other issue,
/// and with the state that is named inside it.
pub proof fn blockers_come_from_the_relations(relations: Seq<JsonV>) -> (places: Seq<int>)
    ensures
        ({
            let blockers = blockers_among(relations);
            &&& places.len() == blockers.len()
            &&& forall|i: int|
                0 <= i < places.len() ==> {
                    let other = other_issue(relations[places[i]]);
                    &&& 0 <= #[trigger] places[i] < relations.len()
                    &&& names_a_blocker(relations[places[i]])
                    &&& blockers[i].id == text_in(other, "id"@)
                    &&& blockers[i].identifier == text_in(other, "identifier"@)
                    &&& blockers[i].state == text_inside(other, "state"@, "name"@)
                }
            &&& forall|i: int, j: int|
                0 <= i < j < places.len() ==> #[trigger] places[i] < #[trigger] places[j]
            &&& forall|p: int|
                0 <= p < relations.len() && names_a_blocker(#[trigger] relations[p])
                    ==> places.contains(p)
        }),
    decreases relations.len(),
{
    if relations.len() == 0 {
        Seq::empty()
    } else {
        let front = relations.drop_last();
        let last = relations.last();
        let earlier = blockers_come_from_the_relations(front);
        reveal_strlit("blocks");
        let word = seq!['b', 'l', 'o', 'c', 'k', 's'];
        assert("blocks"@ =~= word);
        if let Some(kind) = text_in(last, "type"@) {
            let lowered = kind.map_values(|c: char| ascii_lower(c));
            if kind.len() == 6 && forall|i: int|
                0 <= i < 6 ==> #[trigger] ascii_lower(kind[i]) == word[i] {
                assert(lowered =~= word);
            }
            if lowered == word {
                assert forall|i: int| 0 <= i < 6 implies #[trigger] ascii_lower(kind[i])
                    == word[i] by {
                    assert(lowered[i] == word[i]);
                }
            }
        }
        assert(names_a_blocker(last) == (crate::tracker::blocks(last) && crate::tracker::related(
            last,
        ) is Some));
        let places = if names_a_blocker(last) {
            earlier.push(relations.len() - 1)
        } else {
            earlier
        };
        assert forall|i: int| 0 <= i < places.len() implies {
            let other = other_issue(relations[places[i]]);
            &&& 0 <= #[trigger] places[i] < relations.len()
            &&& names_a_blocker(relations[places[i]])
            &&& blockers_among(relations)[i].id == text_in(other, "id"@)
            &&& blockers_among(relations)[i].identifier == text_in(other, "identifier"@)
            &&& blockers_among(relations)[i].state == text_inside(other, "state"@, "name"@)
        } by {
            if i < earlier.len() {
                assert(places[i] == earlier[i]);
                assert(front[earlier[i]] == relations[earlier[i]]);
            }
        }
        assert forall|p: int| 0 <= p < relations.len() && names_a_blocker(
            #[trigger] relations[p],
        ) implies places.contains(p) by {
            if p < front.len() {
                assert(front[p] == relations[p]);
                let i = choose|i: int| 0 <= i < earlier.len() && earlier[i] == p;
                assert(places[i] == p);
            } else {
                assert(places[earlier.len() as int] == p);
            }
        }
        places
    }
}

/// The labels of an issue are the names of its labels, in their order and in small
/// letters; a label without a name is left out.
pub proof fn labels_are_names_in_small_letters(items: Seq<JsonV>) -> (places: Seq<int>)
    ensures
        ({
            let labels = label_names(items);
            &&& places.len() == labels.len()
            &&& forall|i: int|
                0 <= i < places.len() ==> {
                    &&& 0 <= #[trigger] places[i] < items.len()
                    &&& text_in(items[places[i]], "name"@) matches Some(name) && labels[i]
                        == lowercase(name)
                }
            &&& forall|i: int, j: int|
                0 <= i < j < places.len() ==> #[trigger] places[i] < #[trigger] places[j]
            &&& forall|p: int|
                0 <= p < items.len() && text_in(#[trigger] items[p], "name"@) is Some
                    ==> places.contains(p)
        }),
    decreases items.len(),
{
    if items.len() == 0 {
        Seq::empty()
    } else {
        let front = items.drop_last();
        let last = items.last();
        let earlier = labels_are_names_in_small_letters(front);
        let places = if text_in(last, "name"@) is Some {
            earlier.push(items.len() - 1)
        } else {
            earlier
        };
        assert forall|i: int| 0 <= i < places.len() implies {
            &&& 0 <= #[trigger] places[i] < items.len()
            &&& text_in(items[places[i]], "name"@) matches Some(name) && label_names(items)[i]
                == lowercase(name)
        } by {
            if i < earlier.len() {
                assert(places[i] == earlier[i]);
                assert(front[earlier[i]] == items[earlier[i]]);
            }
        }
        assert forall|p: int| 0 <= p < items.len() && text_in(
            #[trigger] items[p],
            "name"@,
        ) is Some implies places.contains(p) by {
            if p < front.len() {
                assert(front[p] == items[p]);
                let i = choose|i: int| 0 <= i < earlier.len() && earlier[i] == p;
                assert(places[i] == p);
            } else {
                assert(places[earlier.len() as int] == p);
            }
        }
        places
    }
}

/// A node describes an issue just where it has an id, an identifier, a title and a
/// state with a name; and each field of the issue is read from its own place in the
/// node. A priority is an integer, and a time is what its text spells.
pub proof fn issue_fields_come_from_the_node(node: JsonV)
    ensures
        issue_of(node) is Some <==> text_in(node, "id"@) is Some && text_in(
            node,
            "identifier"@,
        ) is Some && text_in(node, "title"@) is Some && text_inside(
            node,
            "state"@,
            "name"@,
        ) is Some,
        issue_of(node) matches Some(issue) ==> {
            &&& text_in(node, "id"@) == Some(issue.id)
            &&& text_in(node, "identifier"@) == Some(issue.identifier)
            &&& text_in(node, "title"@) == Some(issue.title)
            &&& text_inside(node, "state"@, "name"@) == Some(issue.state)
            &&& issue.description == text_in(node, "description"@)
            &&& issue.branch_name == text_in(node, "branchName"@)
            &&& issue.url == text_in(node, "url"@)
            &&& match node.get("priority"@) {
                Some(JsonV::PosInt(n)) => if n <= i64::MAX {
                    issue.priority matches Some(p) && p == n
                } else {
                    issue.priority is None
                },
                Some(JsonV::NegInt(n)) => issue.priority == Some(n),
                _ => issue.priority is None,
            }
            &&& issue.created_at == (match text_in(node, "createdAt"@) {
                Some(text) => rfc3339_instant(text),
                None => None,
            })
            &&& issue.updated_at == (match text_in(node, "updatedAt"@) {
                Some(text) => rfc3339_instant(text),
                None => None,
            })
            &&& issue.labels == label_names(list_inside(node, "labels"@))
            &&& issue.blocked_by == blockers_among(list_inside(node, "inverseRelations"@))
        },
{
    assert(items_under(node, "labels"@, "nodes"@) == list_inside(node, "labels"@));
    assert(items_under(node, "inverseRelations"@, "nodes"@) == list_inside(
        node,
        "inverseRelations"@,
    ));
}

/// An issue that is still to do is not held up by issues that the tracker reports as
/// finished: where every relation that names a blocker names one in a terminal state,
/// the issue is eligible just as if it had no relations.
pub proof fn finished_blockers_hold_nothing_up(
    s: SchedV,
    node: JsonV,
    config: ServiceConfig,
    allowed_claim: Option<Seq<char>>,
)
    requires
        issue_of(node) is Some,
        forall|p: int|
            0 <= p < list_inside(node, "inverseRelations"@).len() && names_a_blocker(
                #[trigger] list_inside(node, "inverseRelations"@)[p],
            ) ==> (text_inside(
                other_issue(list_inside(node, "inverseRelations"@)[p]),
                "state"@,
                "name"@,
            ) matches Some(state) && exists|j: int|
                0 <= j < config.tracker.terminal_states@.len() && lowercase(
                    (#[trigger] config.tracker.terminal_states@[j])@,
                ) == lowercase(state)),
    ensures
        ({
            let issue = issue_of(node)->0;
            eligible(s, issue, config, allowed_claim) == eligible(
                s,
                IssueV { blocked_by: Seq::empty(), ..issue },
                config,
                allowed_claim,
            )
        }),
{
    let issue = issue_of(node)->0;
    let relations = list_inside(node, "inverseRelations"@);
    issue_fields_come_from_the_node(node);
    let places = blockers_come_from_the_relations(relations);
    assert forall|i: int| 0 <= i < issue.blocked_by.len() implies ((
    #[trigger] issue.blocked_by[i]).state matches Some(state) && exists|j: int|
        0 <= j < config.tracker.terminal_states@.len() && lowercase(
            (#[trigger] config.tracker.terminal_states@[j])@,
        ) == lowercase(state)) by {
        assert(names_a_blocker(relations[places[i]]));
    }
    closed_blockers_do_not_matter(s, issue, config, allowed_claim, issue.blocked_by);
    assert(IssueV { blocked_by: issue.blocked_by, ..issue } == issue);
}

/// The issues of a page are those that its nodes describe, one for each and in their
/// order; a node that describes none is left out.
pub proof fn issues_come_from_the_nodes(nodes: Seq<JsonV>) -> (places: Seq<int>)
    ensures
        ({
            let issues = issues_among(nodes);
            &&& places.len() == issues.len()
            &&& forall|i: int|
                0 <= i < places.len() ==> 0 <= #[trigger] places[i] < nodes.len() && issue_of(
                    nodes[places[i]],
                ) == Some(issues[i])
            &&& forall|i: int, j: int|
                0 <= i < j < places.len() ==> #[trigger] places[i] < #[trigger] places[j]
            &&& forall|p: int|
                0 <= p < nodes.len() && issue_of(#[trigger] nodes[p]) is Some ==> places.contains(p)
        }),
    decreases nodes.len(),
{
    if nodes.len() == 0 {
        Seq::empty()
    } else {
        let front = nodes.drop_last();
        let last = nodes.last();
        let earlier = issues_come_from_the_nodes(front);
        let places = if issue_of(last) is Some {
            earlier.push(nodes.len() - 1)
        } else {
            earlier
        };
        assert forall|i: int| 0 <= i < places.len() implies 0 <= #[trigger] places[i]
            < nodes.len() && issue_of(nodes[places[i]]) == Some(issues_among(nodes)[i]) by {
            if i < earlier.len() {
                assert(places[i] == earlier[i]);
                assert(front[earlier[i]] == nodes[earlier[i]]);
            }
        }
        assert forall|p: int| 0 <= p < nodes.len() && issue_of(
            #[trigger] nodes[p],
        ) is Some implies places.contains(p) by {
            if p < front.len() {
                assert(front[p] == nodes[p]);
                let i = choose|i: int| 0 <= i < earlier.len() && earlier[i] == p;
                assert(places[i] == p);
            } else {
                assert(places[earlier.len() as int] == p);
            }
        }
        places
    }
}

/// A reply in the shape that was asked for is a page: the last one unless it says
/// that there is another, and then the cursor that it names is where that begins.
pub proof fn page_says_whether_there_is_more(payload: JsonV, issues: JsonV, info: JsonV, nodes: Seq<JsonV>)
    requires
        payload.get("data"@) matches Some(data) && data.get("issues"@) == Some(issues),
        issues.get("nodes"@) == Some(JsonV::Array(nodes)),
        issues.get("pageInfo"@) == Some(info),
    ensures
        info.get("hasNextPage"@) != Some(JsonV::Bool(true)) ==> page_of(payload) == PageV::Last(
            issues_among(nodes),
        ),
        info.get("hasNextPage"@) == Some(JsonV::Bool(true)) ==> match info.get("endCursor"@) {
            Some(JsonV::Str(cursor)) => page_of(payload) == PageV::More(
                issues_among(nodes),
                cursor,
            ),
            _ => page_of(payload) == PageV::Faulty(TrackerFault::LinearMissingEndCursor),
        },
{
}

/// The reports on the states of issues: of an issue on which a node with an id and a
/// named state reports, the last such node counts; other issues are not reported on.
pub proof fn last_report_on_an_issue_counts(nodes: Seq<JsonV>, id: Seq<char>)
    ensures
        states_among(nodes).contains_key(id) <==> exists|p: int|
            0 <= p < nodes.len() && text_in(#[trigger] nodes[p], "id"@) == Some(id) && text_inside(
                nodes[p],
                "state"@,
                "name"@,
            ) is Some,
        states_among(nodes).contains_key(id) ==> exists|p: int|
            {
                &&& 0 <= p < nodes.len()
                &&& text_in(#[trigger] nodes[p], "id"@) == Some(id)
                &&& text_inside(nodes[p], "state"@, "name"@) == Some(states_among(nodes)[id].state)
                &&& states_among(nodes)[id].id == id
                &&& states_among(nodes)[id].identifier == text_in(nodes[p], "identifier"@)
                &&& forall|q: int|
                    p < q < nodes.len() ==> !(text_in(#[trigger] nodes[q], "id"@) == Some(id)
                        && text_inside(nodes[q], "state"@, "name"@) is Some)
            },
    decreases nodes.len(),
{
    if nodes.len() > 0 {
        let front = nodes.drop_last();
        let last = nodes.last();
        last_report_on_an_issue_counts(front, id);
        assert(nodes[nodes.len() - 1] == last);
        assert forall|p: int| 0 <= p < front.len() implies #[trigger] nodes[p] == front[p] by {}
        let here = text_in(last, "id"@) == Some(id) && text_inside(last, "state"@, "name"@) is Some;
        if exists|p: int|
            0 <= p < front.len() && text_in(#[trigger] front[p], "id"@) == Some(id) && text_inside(
                front[p],
                "state"@,
                "name"@,
            ) is Some {
            let p = choose|p: int|
                0 <= p < front.len() && text_in(#[trigger] front[p], "id"@) == Some(id)
                    && text_inside(front[p], "state"@, "name"@) is Some;
            assert(nodes[p] == front[p]);
        }
        if exists|p: int|
            0 <= p < nodes.len() && text_in(#[trigger] nodes[p], "id"@) == Some(id) && text_inside(
                nodes[p],
                "state"@,
                "name"@,
            ) is Some {
            let p = choose|p: int|
                0 <= p < nodes.len() && text_in(#[trigger] nodes[p], "id"@) == Some(id)
                    && text_inside(nodes[p], "state"@, "name"@) is Some;
            if p < front.len() {
                assert(front[p] == nodes[p]);
            } else {
                assert(nodes[p] == last);
            }
        }
        if !here && states_among(nodes).contains_key(id) {
            let p = choose|p: int|
                {
                    &&& 0 <= p < front.len()
                    &&& text_in(#[trigger] front[p], "id"@) == Some(id)
                    &&& text_inside(front[p], "state"@, "name"@) == Some(
                        states_among(front)[id].state,
                    )
                    &&& states_among(front)[id].id == id
                    &&& states_among(front)[id].identifier == text_in(front[p], "identifier"@)
                    &&& forall|q: int|
                        p < q < front.len() ==> !(text_in(#[trigger] front[q], "id"@) == Some(id)
                            && text_inside(front[q], "state"@, "name"@) is Some)
                };
            assert(nodes[p] == front[p]);
            assert forall|q: int| p < q < nodes.len() implies !(text_in(
                #[trigger] nodes[q],
                "id"@,
            ) == Some(id) && text_inside(nodes[q], "state"@, "name"@) is Some) by {
                if q < front.len() {
                    assert(nodes[q] == front[q]);
                }
            }
        }
    }
}

/// What is asked for with each page: the issues of the project, in the states that
/// were named and in their order, fifty at a time, behind the cursor where there is
/// one.
pub proof fn page_request_names_the_project(fetch: FetchV)
    ensures
        ({
            let asked = page_variables(fetch);
            &&& text_in(asked, "projectSlug"@) == Some(fetch.project_slug)
            &&& asked.get("stateNames"@) matches Some(JsonV::Array(names)) && names.len()
                == fetch.state_names.len() && forall|i: int|
                0 <= i < names.len() ==> #[trigger] names[i] == JsonV::Str(fetch.state_names[i])
            &&& asked.get("first"@) == Some(JsonV::PosInt(50))
            &&& match fetch.after {
                Some(cursor) => text_in(asked, "after"@) == Some(cursor),
                None => asked.get("after"@) == Some(JsonV::Null),
            }
        }),
{
    reveal_strlit("projectSlug");
    reveal_strlit("stateNames");
    reveal_strlit("first");
    reveal_strlit("after");
    let names = JsonV::Array(fetch.state_names.map_values(|s: Seq<char>| JsonV::Str(s)));
    let cursor = match fetch.after {
        Some(cursor) => JsonV::Str(cursor),
        None => JsonV::Null,
    };
    let none = no_members();
    let one = none.with("projectSlug"@, JsonV::Str(fetch.project_slug));
    let two = one.with("stateNames"@, names);
    let three = two.with("first"@, JsonV::PosInt(50));
    assert("projectSlug"@[0] == 'p' && "stateNames"@[0] == 's');
    assert("first"@[0] == 'f' && "after"@[0] == 'a');
    with_then_get(none->Object_0, "projectSlug"@, JsonV::Str(fetch.project_slug), "projectSlug"@);
    with_then_get(one->Object_0, "stateNames"@, names, "projectSlug"@);
    with_then_get(two->Object_0, "first"@, JsonV::PosInt(50), "projectSlug"@);
    with_then_get(two->Object_0, "first"@, JsonV::PosInt(50), "stateNames"@);
    with_then_get(three->Object_0, "after"@, cursor, "projectSlug"@);
    with_then_get(three->Object_0, "after"@, cursor, "stateNames"@);
    with_then_get(three->Object_0, "after"@, cursor, "first"@);
}

/// What is asked for with the states of issues: those issues, all at once.
pub proof fn states_request_names_the_issues(ids: Seq<Seq<char>>)
    ensures
        ({
            let asked = states_variables(ids);
            &&& asked.get("ids"@) matches Some(JsonV::Array(listed)) && listed.len() == ids.len()
                && forall|i: int|
                0 <= i < listed.len() ==> #[trigger] listed[i] == JsonV::Str(ids[i])
            &&& asked.get("first"@) == Some(JsonV::PosInt(ids.len() as u64))
        }),
{
    reveal_strlit("ids");
    reveal_strlit("first");
    assert("ids"@[0] == 'i' && "first"@[0] == 'f');
    let listed = JsonV::Array(ids.map_values(|s: Seq<char>| JsonV::Str(s)));
    let none = no_members();
    let one = none.with("ids"@, listed);
    with_then_get(none->Object_0, "ids"@, listed, "ids"@);
    with_then_get(one->Object_0, "first"@, JsonV::PosInt(ids.len() as u64), "ids"@);
}

/// A request goes to the endpoint of the configuration with its key, and carries the
/// query and the variables. None is made for another kind of tracker, nor without a
/// key.
pub proof fn request_carries_query_and_variables(
    r: Result<GraphqlRequest, TrackerError>,
    config: ServiceConfig,
    query: Seq<char>,
    variables: JsonV,
)
    requires
        requests(r, config, query, variables),
    ensures
        match r {
            Ok(request) => {
                &&& opt_text(config.tracker.kind) == Some("linear"@)
                &&& request.endpoint@ == config.tracker.endpoint@
                &&& opt_text(config.tracker.api_key) == Some(request.api_key@)
                &&& !blank(request.api_key@)
                &&& text_in(request.body@, "query"@) == Some(query)
                &&& request.body@.get("variables"@) == Some(variables)
            },
            Err(e) => match e@ {
                TrackerFault::UnsupportedTrackerKind(kind) => {
                    &&& opt_text(config.tracker.kind) != Some("linear"@)
                    &&& match opt_text(config.tracker.kind) {
                        Some(named) => kind == named,
                        None => kind.len() == 0,
                    }
                },
                TrackerFault::MissingApiKey => {
                    &&& opt_text(config.tracker.kind) == Some("linear"@)
                    &&& opt_text(config.tracker.api_key) matches Some(key) ==> blank(key)
                },
                _ => false,
            },
        },
{
    reveal_strlit("query");
    reveal_strlit("variables");
    assert("query"@[0] == 'q' && "variables"@[0] == 'v');
    let none = no_members();
    let one = none.with("query"@, JsonV::Str(query));
    with_then_get(none->Object_0, "query"@, JsonV::Str(query), "query"@);
    with_then_get(one->Object_0, "variables"@, variables, "query"@);
}

/// Of the replies of the tracker those are taken whose status is one of success, and
/// of their payloads those without errors, as they are.
pub proof fn good_replies_are_taken(
    code: u16,
    words: Seq<char>,
    status: Result<(), TrackerError>,
    payload: Result<Json, String>,
    taken: Result<Json, TrackerError>,
)
    requires
        takes_status(code, words, status),
        takes_payload(payload, taken),
    ensures
        status is Ok <==> code / 100 == 2,
        status matches Err(e) ==> e@ == TrackerFault::LinearApiStatus(words),
        taken is Ok <==> payload is Ok && payload->Ok_0@.get("errors"@) is None,
        taken matches Ok(value) ==> value@ == payload->Ok_0@,
        payload matches Err(reason) ==> (taken matches Err(e) && e@
            == TrackerFault::LinearApiRequest(reason@)),
        payload is Ok && taken is Err ==> (taken->Err_0@ matches TrackerFault::LinearGraphqlErrors(
            errors,
        ) && payload->Ok_0@.get("errors"@) == Some(errors)),
{
}

/// A fetch begins empty and without a cursor, for the project of the configuration,
/// which must be more than white space, and for the states that were named.
pub proof fn fetch_begins_with_the_project(
    names: Seq<Seq<char>>,
    config: ServiceConfig,
    r: Result<IssueFetch, TrackerError>,
)
    requires
        begins_fetch(names, config, r),
    ensures
        r is Ok <==> config.tracker.project_slug is Some && exists|i: int|
            0 <= i < config.tracker.project_slug->0@.len() && !white_space(
                #[trigger] config.tracker.project_slug->0@[i],
            ),
        r matches Ok(fetch) ==> {
            &&& fetch@.project_slug == config.tracker.project_slug->0@
            &&& fetch@.state_names == names
            &&& fetch@.after is None
            &&& fetch@.issues.len() == 0
        },
        r matches Err(e) ==> e@ == TrackerFault::MissingProjectSlug,
{
    if let Some(slug) = config.tracker.project_slug {
        blank_is_white_space(slug@);
    }
}

/// A fetch that took a page in has its issues behind those that there were, and goes
/// on behind its cursor; a faulty page leaves the fetch as it was.
pub proof fn pages_are_taken_in(fetch: FetchV, page: PageV)
    ensures
        ({
            let after = fetch.absorbed(page);
            &&& after.project_slug == fetch.project_slug
            &&& after.state_names == fetch.state_names
            &&& page is Faulty ==> after == fetch
            &&& page matches PageV::Last(issues) ==> {
                &&& after.issues.len() == fetch.issues.len() + issues.len()
                &&& forall|i: int|
                    0 <= i < after.issues.len() ==> #[trigger] after.issues[i] == if i
                        < fetch.issues.len() {
                        fetch.issues[i]
                    } else {
                        issues[i - fetch.issues.len()]
                    }
            }
            &&& page matches PageV::More(issues, cursor) ==> {
                &&& after.after == Some(cursor)
                &&& after.issues.len() == fetch.issues.len() + issues.len()
                &&& forall|i: int|
                    0 <= i < after.issues.len() ==> #[trigger] after.issues[i] == if i
                        < fetch.issues.len() {
                        fetch.issues[i]
                    } else {
                        issues[i - fetch.issues.len()]
                    }
            }
        }),
{
}

/// ASCII letters and nothing else.
pub open spec fn is_word(s: Seq<char>) -> bool {
    forall|i: int| 0 <= i < s.len() ==> 'a' <= #[trigger] s[i] <= 'z' || 'A' <= s[i] <= 'Z'
}

proof fn word_is_its_run(word: Seq<char>, rest: Seq<char>)
    requires
        is_word(word),
        rest.len() > 0 ==> !('a' <= rest[0] <= 'z' || 'A' <= rest[0] <= 'Z'),
    ensures
        letter_run(word + rest) == word.len(),
    decreases word.len(),
{
    if word.len() == 0 {
        assert(word + rest =~= rest);
    } else {
        let shorter = word.drop_first();
        assert forall|i: int| 0 <= i < shorter.len() implies 'a' <= #[trigger] shorter[i] <= 'z'
            || 'A' <= shorter[i] <= 'Z' by {
            assert(shorter[i] == word[i + 1]);
        }
        word_is_its_run(shorter, rest);
        assert((word + rest).drop_first() =~= shorter + rest);
        assert((word + rest)[0] == word[0]);
    }
}

/// The operations of a text are counted word by word, where a word is ASCII letters
/// with none in front and behind: one more for each word that is `query`, `mutation`
/// or `subscription`, and none for any other.
pub proof fn operations_are_counted_by_words(word: Seq<char>, mark: char, rest: Seq<char>)
    requires
        is_word(word),
        !('a' <= mark <= 'z' || 'A' <= mark <= 'Z'),
    ensures
        operations(Seq::empty()) == 0,
        operations(word + seq![mark] + rest) == operations(rest) + if word == "query"@ || word
            == "mutation"@ || word == "subscription"@ {
            1nat
        } else {
            0nat
        },
        operations(word) == if word == "query"@ || word == "mutation"@ || word == "subscription"@ {
            1nat
        } else {
            0nat
        },
{
    reveal_strlit("query");
    reveal_strlit("mutation");
    reveal_strlit("subscription");
    assert("query"@.len() == 5 && "mutation"@.len() == 8 && "subscription"@.len() == 12);
    let tail = seq![mark] + rest;
    let all = word + seq![mark] + rest;
    assert(all =~= word + tail);
    assert(tail[0] == mark);
    word_is_its_run(word, tail);
    assert(letter_run(tail) == 0);
    assert(tail.drop_first() =~= rest);
    assert(operations(tail) == operations(rest));
    let none = Seq::<char>::empty();
    word_is_its_run(word, none);
    assert(word + none =~= word);
    if word.len() > 0 {
        assert(all.take(word.len() as int) =~= word);
        assert(all.skip(word.len() as int) =~= tail);
        assert(word.take(word.len() as int) =~= word);
        assert(word.skip(word.len() as int) =~= none);
    } else {
        assert(all =~= tail);
    }
}

/// A query is refused where it is nothing but white space, and where it has more than
/// one operation.
pub proof fn one_operation_at_most(query: Seq<char>)
    ensures
        query_fault(query) is None <==> (exists|i: int|
            0 <= i < query.len() && !white_space(#[trigger] query[i])) && operations(
            trimmed(query),
        ) <= 1,
{
    blank_is_white_space(query);
}

/// A page without issues, without nodes or without page info is faulty, and so is one
/// that says there is more but not where.
pub proof fn broken_pages_are_faulty(payload: JsonV)
    ensures
        page_of(payload) is Faulty <==> {
            let issues = match payload.get("data"@) {
                Some(data) => data.get("issues"@),
                None => None,
            };
            ||| issues is None
            ||| !(issues->0.get("nodes"@) is Some && issues->0.get("nodes"@)->0 is Array)
            ||| issues->0.get("pageInfo"@) is None
            ||| issues->0.get("pageInfo"@)->0.get("hasNextPage"@) == Some(JsonV::Bool(true))
                && text_in(issues->0.get("pageInfo"@)->0, "endCursor"@) is None
        },
{
}

/// The candidates are asked for by the states in which issues are worked on.
pub proof fn candidates_are_in_active_states(
    config: ServiceConfig,
    r: Result<IssueFetch, TrackerError>,
)
    requires
        begins_candidates(config, r),
    ensures
        r matches Ok(fetch) ==> {
            &&& fetch@.state_names.len() == config.tracker.active_states@.len()
            &&& forall|i: int|
                0 <= i < fetch@.state_names.len() ==> #[trigger] fetch@.state_names[i]
                    == config.tracker.active_states@[i]@
        },
        r is Ok <==> config.tracker.project_slug is Some && exists|i: int|
            0 <= i < config.tracker.project_slug->0@.len() && !white_space(
                #[trigger] config.tracker.project_slug->0@[i],
            ),
{
    fetch_begins_with_the_project(texts(config.tracker.active_states@), config, r);
}

/// A session asks the tracker its own query with its own variables, or an empty object
/// of them, with the key of the configuration; a query that is refused is not asked.
pub proof fn sessions_ask_their_own_query(
    config: ServiceConfig,
    query: Seq<char>,
    variables: Option<JsonV>,
    r: Result<GraphqlRequest, TrackerError>,
)
    requires
        asks(config, query, variables, r),
    ensures
        r matches Ok(request) ==> {
            &&& query_fault(query) is None
            &&& text_in(request.body@, "query"@) == Some(query)
            &&& variables matches Some(given) ==> request.body@.get("variables"@) == Some(given)
            &&& variables is None ==> request.body@.get("variables"@) == Some(
                JsonV::Object(Seq::empty()),
            )
            &&& request.endpoint@ == config.tracker.endpoint@
            &&& opt_text(config.tracker.api_key) == Some(request.api_key@)
        },
        query_fault(query) is Some ==> r is Err,
{
    if query_fault(query) is None {
        let handed = match variables {
            Some(v) => v,
            None => no_members(),
        };
        request_carries_query_and_variables(r, config, query, handed);
    }
}

}
