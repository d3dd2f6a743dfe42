//! The order in which issues are dispatched.

use vstd::prelude::*;
use vstd::seq_lib::{to_multiset_build, to_multiset_insert};

use crate::model::{issue_views, Issue, IssueV};
use crate::text::{
    less_text, text_less, text_less_irreflexive, text_less_total, text_less_transitive,
};

verus! {

broadcast use vstd::string::group_string_axioms;

/// The priority of an issue: a smaller number is more urgent, and an issue
/// without a priority comes last.
pub open spec fn priority_of(issue: IssueV) -> int {
    match issue.priority {
        Some(p) => p as int,
        None => i64::MAX as int,
    }
}

/// When an issue was created, in milliseconds; one of which that is not known
/// comes last.
pub open spec fn created_of(issue: IssueV) -> int {
    match issue.created_at {
        Some(time) => time.millis(),
        None => i64::MAX as int,
    }
}

/// `a` is dispatched before `b`: it is more urgent, or as urgent and older, or
/// as urgent and as old and its identifier comes first.
pub open spec fn ranks_before(a: IssueV, b: IssueV) -> bool {
    if priority_of(a) != priority_of(b) {
        priority_of(a) < priority_of(b)
    } else if created_of(a) != created_of(b) {
        created_of(a) < created_of(b)
    } else {
        text_less(a.identifier, b.identifier)
    }
}

/// The two issues tie.
pub open spec fn ties(a: IssueV, b: IssueV) -> bool {
    &&& priority_of(a) == priority_of(b)
    &&& created_of(a) == created_of(b)
    &&& a.identifier == b.identifier
}

/// The issues stand in the order in which they are dispatched.
pub open spec fn ranked(issues: Seq<IssueV>) -> bool {
    forall|i: int, j: int|
        0 <= i < j < issues.len() ==> !ranks_before(#[trigger] issues[j], #[trigger] issues[i])
}

/// No issue ranks before itself.
pub proof fn ranks_before_irreflexive(a: IssueV)
    ensures
        !ranks_before(a, a),
{
    text_less_irreflexive(a.identifier);
}

/// The order is transitive.
pub proof fn ranks_before_transitive(a: IssueV, b: IssueV, c: IssueV)
    requires
        ranks_before(a, b),
        ranks_before(b, c),
    ensures
        ranks_before(a, c),
{
    if ties(IssueV { identifier: b.identifier, ..a }, b) && ties(
        IssueV { identifier: c.identifier, ..b },
        c,
    ) {
        text_less_transitive(a.identifier, b.identifier, c.identifier);
    }
}

/// Two issues tie, or one ranks before the other.
pub proof fn ranks_before_total(a: IssueV, b: IssueV)
    ensures
        ranks_before(a, b) || ranks_before(b, a) || ties(a, b),
{
    if a.identifier != b.identifier {
        text_less_total(a.identifier, b.identifier);
    }
}

/// Whether `a` is dispatched before `b`.
pub fn dispatched_before(a: &Issue, b: &Issue) -> (r: bool)
    ensures
        r == ranks_before(a@, b@),
{
    let pa: i64 = match a.priority {
        Some(p) => p,
        None => i64::MAX,
    };
    let pb: i64 = match b.priority {
        Some(p) => p,
        None => i64::MAX,
    };
    if pa != pb {
        return pa < pb;
    }
    let ca: i128 = match &a.created_at {
        Some(time) => time.timestamp_millis(),
        None => i64::MAX as i128,
    };
    let cb: i128 = match &b.created_at {
        Some(time) => time.timestamp_millis(),
        None => i64::MAX as i128,
    };
    if ca != cb {
        return ca < cb;
    }
    less_text(a.identifier.as_str(), b.identifier.as_str())
}

/// Where an issue goes among others: in front of the first that ranks after it.
pub open spec fn place_among(issues: Seq<IssueV>, issue: IssueV) -> int
    decreases issues.len(),
{
    if issues.len() == 0 || ranks_before(issue, issues[0]) {
        0
    } else {
        1 + place_among(issues.drop_first(), issue)
    }
}

/// The issues in the order in which they are dispatched; those that tie keep the
/// order that they had.
pub open spec fn in_rank_order(issues: Seq<IssueV>) -> Seq<IssueV>
    decreases issues.len(),
{
    if issues.len() == 0 {
        Seq::empty()
    } else {
        let before = in_rank_order(issues.drop_last());
        before.insert(place_among(before, issues.last()), issues.last())
    }
}

proof fn place_bounds(issues: Seq<IssueV>, issue: IssueV)
    ensures
        0 <= place_among(issues, issue) <= issues.len(),
        forall|k: int|
            0 <= k < place_among(issues, issue) ==> !ranks_before(issue, #[trigger] issues[k]),
        place_among(issues, issue) < issues.len() ==> ranks_before(
            issue,
            issues[place_among(issues, issue)],
        ),
    decreases issues.len(),
{
    if issues.len() > 0 && !ranks_before(issue, issues[0]) {
        let rest = issues.drop_first();
        place_bounds(rest, issue);
        let n = place_among(issues, issue);
        assert forall|k: int| 0 <= k < n implies !ranks_before(issue, #[trigger] issues[k]) by {
            if k > 0 {
                assert(issues[k] == rest[k - 1]);
            }
        }
    }
}

/// The order is one in which no issue stands behind one that ranks after it.
pub proof fn rank_order_is_ranked(issues: Seq<IssueV>)
    ensures
        ranked(in_rank_order(issues)),
        in_rank_order(issues).len() == issues.len(),
    decreases issues.len(),
{
    if issues.len() > 0 {
        let before = in_rank_order(issues.drop_last());
        let issue = issues.last();
        rank_order_is_ranked(issues.drop_last());
        place_bounds(before, issue);
        let n = place_among(before, issue);
        let after = before.insert(n, issue);
        assert forall|i: int, j: int| 0 <= i < j < after.len() implies !ranks_before(
            #[trigger] after[j],
            #[trigger] after[i],
        ) by {
            if i == n {
                let b = before[j - 1];
                if ranks_before(b, issue) {
                    ranks_before_transitive(b, issue, before[n]);
                    ranks_before_irreflexive(b);
                }
            }
        }
    }
}

/// Of two issues the one in front has the smaller priority number, whatever their
/// times; of two with the same number it is the older one, to the millisecond; and
/// of two that also are of the same time it has the identifier that comes first,
/// or the same one. An issue without a number or a time counts as one with the
/// largest.
pub proof fn urgent_issues_come_first(issues: Seq<IssueV>, i: int, j: int)
    requires
        0 <= i < j < in_rank_order(issues).len(),
    ensures
        ({
            let a = in_rank_order(issues)[i];
            let b = in_rank_order(issues)[j];
            let urgency_a = match a.priority {
                Some(number) => number,
                None => i64::MAX,
            };
            let urgency_b = match b.priority {
                Some(number) => number,
                None => i64::MAX,
            };
            let time_a = match a.created_at {
                Some(time) => time.seconds * 1000 + time.nanos / 1_000_000,
                None => i64::MAX as int,
            };
            let time_b = match b.created_at {
                Some(time) => time.seconds * 1000 + time.nanos / 1_000_000,
                None => i64::MAX as int,
            };
            &&& urgency_a <= urgency_b
            &&& urgency_a == urgency_b ==> time_a <= time_b
            &&& urgency_a == urgency_b && time_a == time_b ==> a.identifier == b.identifier
                || text_less(a.identifier, b.identifier)
        }),
{
    rank_order_is_ranked(issues);
    let a = in_rank_order(issues)[i];
    let b = in_rank_order(issues)[j];
    assert(!ranks_before(b, a));
    ranks_before_total(a, b);
}

/// A smaller priority number comes first whatever the times and identifiers are,
/// and any number but the largest comes before none.
pub proof fn priority_outweighs_the_rest(a: IssueV, b: IssueV)
    requires
        a.priority matches Some(number) && match b.priority {
            Some(other) => number < other,
            None => number < i64::MAX,
        },
    ensures
        ranks_before(a, b),
        !ranks_before(b, a),
{
}

/// Among issues with the same priority the older one comes first whatever the
/// identifiers are, and one whose time is known comes before one whose time is
/// not.
pub proof fn age_outweighs_the_identifier(a: IssueV, b: IssueV)
    requires
        a.priority == b.priority,
        a.created_at matches Some(time) && match b.created_at {
            Some(other) => time.seconds * 1000 + time.nanos / 1_000_000 < other.seconds * 1000
                + other.nanos / 1_000_000,
            None => time.seconds * 1000 + time.nanos / 1_000_000 < i64::MAX,
        },
    ensures
        ranks_before(a, b),
        !ranks_before(b, a),
{
}

/// Ordering neither drops nor adds an issue.
pub proof fn rank_order_keeps_issues(issues: Seq<IssueV>)
    ensures
        in_rank_order(issues).to_multiset() == issues.to_multiset(),
    decreases issues.len(),
{
    if issues.len() == 0 {
        assert(in_rank_order(issues) =~= issues);
    } else {
        let rest = issues.drop_last();
        let before = in_rank_order(rest);
        let issue = issues.last();
        rank_order_keeps_issues(rest);
        place_bounds(before, issue);
        to_multiset_insert(before, place_among(before, issue), issue);
        to_multiset_build(rest, issue);
        assert(rest.push(issue) =~= issues);
    }
}

proof fn filter_of_insert(
    issues: Seq<IssueV>,
    n: int,
    issue: IssueV,
    test: spec_fn(IssueV) -> bool,
)
    requires
        0 <= n <= issues.len(),
        forall|k: int| n <= k < issues.len() ==> test(issue) ==> !test(#[trigger] issues[k]),
    ensures
        issues.insert(n, issue).filter(test) == (if test(issue) {
            issues.filter(test).push(issue)
        } else {
            issues.filter(test)
        }),
    decreases issues.len(),
{
    reveal(Seq::filter);
    let after = issues.insert(n, issue);
    if n == issues.len() {
        assert(after.drop_last() =~= issues);
    } else {
        filter_of_insert(issues.drop_last(), n, issue, test);
        assert(after.drop_last() =~= issues.drop_last().insert(n, issue));
        assert(after.last() == issues.last());
    }
}

/// Issues that tie keep the order that they had.
pub proof fn rank_order_is_stable(issues: Seq<IssueV>, like: IssueV)
    ensures
        in_rank_order(issues).filter(|i: IssueV| ties(like, i)) == issues.filter(
            |i: IssueV| ties(like, i),
        ),
    decreases issues.len(),
{
    reveal(Seq::filter);
    let test = |i: IssueV| ties(like, i);
    if issues.len() > 0 {
        let before = in_rank_order(issues.drop_last());
        let issue = issues.last();
        rank_order_is_stable(issues.drop_last(), like);
        rank_order_is_ranked(issues.drop_last());
        place_bounds(before, issue);
        let n = place_among(before, issue);
        assert forall|k: int| n <= k < before.len() && test(issue) implies !test(
            #[trigger] before[k],
        ) by {
            if test(before[k]) {
                text_less_irreflexive(issue.identifier);
                if n < k {
                    assert(!ranks_before(before[k], before[n]));
                }
            }
        }
        filter_of_insert(before, n, issue, test);
    }
}

/// Puts the issues into the order in which they are dispatched; those that tie
/// keep the order that they had.
pub fn sort_candidates(issues: &mut Vec<Issue>)
    ensures
        issue_views(final(issues)@) == in_rank_order(issue_views(old(issues)@)),
        final(issues)@.to_multiset() == old(issues)@.to_multiset(),
        forall|i: int, j: int|
            #![trigger final(issues)@[i], final(issues)@[j]]
            0 <= i < j < final(issues)@.len() ==> (match final(issues)@[i].priority {
                Some(number) => number,
                None => i64::MAX,
            }) <= (match final(issues)@[j].priority {
                Some(number) => number,
                None => i64::MAX,
            }),
{
    let ghost all = issue_views(issues@);
    let ghost start = issues@;
    let mut done: usize = 0;
    assert(issue_views(issues@.take(0)) =~= in_rank_order(all.take(0)));
    while done < issues.len()
        invariant
            done <= issues@.len(),
            issues@.len() == all.len(),
            issue_views(issues@.take(done as int)) == in_rank_order(all.take(done as int)),
            forall|k: int| done <= k < issues@.len() ==> (#[trigger] issues@[k])@ == all[k],
            issues@.to_multiset() == start.to_multiset(),
        decreases issues@.len() - done,
    {
        let ghost entry = issues@;
        let ghost before = in_rank_order(all.take(done as int));
        let ghost issue = issues@[done as int];
        proof {
            assert(all.take(done + 1).drop_last() == all.take(done as int));
            rank_order_is_ranked(all.take(done as int));
            place_bounds(before, issue@);
        }
        let mut n: usize = 0;
        assert(before.skip(0) == before);
        while n < done && !dispatched_before(&issues[done], &issues[n])
            invariant
                n <= done < issues@.len(),
                issues@ == entry,
                before == issue_views(entry.take(done as int)),
                issue == entry[done as int],
                place_among(before, issue@) == n + place_among(before.skip(n as int), issue@),
            decreases done - n,
        {
            assert(before[n as int] == entry[n as int]@);
            assert(before.skip(n as int)[0] == before[n as int]);
            assert(before.skip(n as int).drop_first() == before.skip(n + 1));
            n += 1;
        }
        proof {
            if n < done {
                assert(before.skip(n as int)[0] == before[n as int]);
                assert(before[n as int] == entry[n as int]@);
            } else {
                assert(before.skip(n as int).len() == 0);
            }
            assert(place_among(before, issue@) == n);
        }
        let moved = issues.remove(done);
        proof {
            vstd::seq_lib::to_multiset_remove(entry, done as int);
            to_multiset_insert(entry.remove(done as int), n as int, issue);
        }
        issues.insert(n, moved);
        proof {
            assert(issues@ == entry.remove(done as int).insert(n as int, issue));
            let after = before.insert(n as int, issue@);
            assert(issue_views(issues@.take(done + 1)) =~= after) by {
                assert forall|k: int| 0 <= k < done + 1 implies #[trigger] issue_views(
                    issues@.take(done + 1),
                )[k] == after[k] by {
                    if k < n {
                        assert(issues@[k] == entry[k]);
                        assert(before[k] == entry[k]@);
                    } else if k > n {
                        assert(issues@[k] == entry[k - 1]);
                        assert(before[k - 1] == entry[k - 1]@);
                    }
                }
            }
            assert(start.to_multiset() =~= issues@.to_multiset()) by {
                broadcast use vstd::multiset::group_multiset_axioms;

                vstd::seq_lib::to_multiset_contains(entry, issue);
                assert(entry.contains(issue));
            }
        }
        done += 1;
    }
    assert(issues@.take(issues@.len() as int) == issues@);
    assert(all.take(all.len() as int) == all);
    proof {
        let sorted = issues@;
        assert forall|i: int, j: int|
            #![trigger sorted[i], sorted[j]]
            0 <= i < j < sorted.len() implies (match sorted[i].priority {
            Some(number) => number,
            None => i64::MAX,
        }) <= (match sorted[j].priority {
            Some(number) => number,
            None => i64::MAX,
        }) by {
            urgent_issues_come_first(all, i, j);
            assert(in_rank_order(all)[i] == sorted[i]@);
            assert(in_rank_order(all)[j] == sorted[j]@);
        }
    }
}

}
