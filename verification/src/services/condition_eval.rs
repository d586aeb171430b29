//! Evaluation of a condition against a contributor's statistics.
use vstd::prelude::*;
use crate::models::condition::{Condition, ConditionField, ConditionOperator, ConditionView, JsonValueView};
use crate::services::github::{ContributorStats, zero_stats};

verus! {

/// The count of `stats` that `field` designates.
pub open spec fn stat_of(field: ConditionField, stats: ContributorStats) -> int {
    match field {
        ConditionField::Commits => stats.commits as int,
        ConditionField::PullRequests => stats.pull_requests as int,
        ConditionField::MergedPRs => stats.merged_prs as int,
        ConditionField::Issues => stats.issues as int,
    }
}

/// The threshold of a condition: its value when that is an integer, else 0.
pub open spec fn threshold(c: ConditionView) -> int {
    match c.value.as_i64() {
        Some(n) => n as int,
        None => 0,
    }
}

/// The upper end of a `between` condition: its end value when that is an
/// integer, else the threshold.
pub open spec fn range_end(c: ConditionView) -> int {
    match c.value_end {
        Some(v) => match v.as_i64() {
            Some(e) => e as int,
            None => threshold(c),
        },
        None => threshold(c),
    }
}

/// Whether a user with `stats` satisfies condition `c`.
pub open spec fn condition_holds(c: ConditionView, stats: ContributorStats) -> bool {
    let actual = stat_of(c.field, stats);
    let expected = threshold(c);
    match c.operator {
        ConditionOperator::Eq => actual == expected,
        ConditionOperator::Gt => actual > expected,
        ConditionOperator::Gte => actual >= expected,
        ConditionOperator::Lt => actual < expected,
        ConditionOperator::Lte => actual <= expected,
        ConditionOperator::Between => expected <= actual && actual <= range_end(c),
    }
}

/// Evaluate a condition against contributor stats.
/// Pure: no I/O, no allocation.
pub fn evaluate_condition(condition: &Condition, stats: &ContributorStats) -> (res: bool)
    ensures
        res == condition_holds(condition@, *stats),
{
    let actual: i64 = match condition.field {
        ConditionField::Commits => stats.commits as i64,
        ConditionField::PullRequests => stats.pull_requests as i64,
        ConditionField::MergedPRs => stats.merged_prs as i64,
        ConditionField::Issues => stats.issues as i64,
    };
    let expected: i64 = match condition.value.as_i64() {
        Some(n) => n,
        None => 0,
    };
    match condition.operator {
        ConditionOperator::Eq => actual == expected,
        ConditionOperator::Gt => actual > expected,
        ConditionOperator::Gte => actual >= expected,
        ConditionOperator::Lt => actual < expected,
        ConditionOperator::Lte => actual <= expected,
        ConditionOperator::Between => {
            let end: i64 = match &condition.value_end {
                Some(v) => match v.as_i64() {
                    Some(e) => e,
                    None => expected,
                },
                None => expected,
            };
            actual >= expected && actual <= end
        },
    }
}

/// Evaluate a condition for a user who has no recorded contributions:
/// every metric counts as 0.
pub fn evaluate_condition_zero(condition: &Condition) -> (res: bool)
    ensures
        res == condition_holds(condition@, zero_stats()),
{
    let zero = ContributorStats { commits: 0, pull_requests: 0, merged_prs: 0, issues: 0 };
    evaluate_condition(condition, &zero)
}

/// Law: for `gt` and `gte` conditions, a user who qualifies still
/// qualifies when the measured count grows.
pub proof fn lemma_at_least_is_monotone(c: ConditionView, s1: ContributorStats, s2: ContributorStats)
    requires
        c.operator == ConditionOperator::Gt || c.operator == ConditionOperator::Gte,
        stat_of(c.field, s1) <= stat_of(c.field, s2),
        condition_holds(c, s1),
    ensures
        condition_holds(c, s2),
{
}

/// Law: for `lt` and `lte` conditions, a user who qualifies still
/// qualifies when the measured count shrinks.
pub proof fn lemma_at_most_is_antitone(c: ConditionView, s1: ContributorStats, s2: ContributorStats)
    requires
        c.operator == ConditionOperator::Lt || c.operator == ConditionOperator::Lte,
        stat_of(c.field, s2) <= stat_of(c.field, s1),
        condition_holds(c, s1),
    ensures
        condition_holds(c, s2),
{
}

/// Law: a `between` condition whose range is empty (end below start) is
/// satisfied by nobody.
pub proof fn lemma_empty_range_never_holds(c: ConditionView, s: ContributorStats)
    requires
        c.operator == ConditionOperator::Between,
        range_end(c) < threshold(c),
    ensures
        !condition_holds(c, s),
{
}

/// Law: a condition looks at the statistic its metric names (commits,
/// pull requests, merged pull requests or issues), and holds when that
/// count compares with the threshold as the operator says: equal to, above,
/// at least, below, at most, or within the range from the threshold to the
/// end.
pub proof fn lemma_condition_reads_the_named_statistic(c: ConditionView, s: ContributorStats)
    ensures
        c.field == ConditionField::Commits ==> stat_of(c.field, s) == s.commits,
        c.field == ConditionField::PullRequests ==> stat_of(c.field, s) == s.pull_requests,
        c.field == ConditionField::MergedPRs ==> stat_of(c.field, s) == s.merged_prs,
        c.field == ConditionField::Issues ==> stat_of(c.field, s) == s.issues,
        c.operator == ConditionOperator::Eq ==> (condition_holds(c, s) <==> stat_of(c.field, s) == threshold(c)),
        c.operator == ConditionOperator::Gt ==> (condition_holds(c, s) <==> stat_of(c.field, s) > threshold(c)),
        c.operator == ConditionOperator::Gte ==> (condition_holds(c, s) <==> stat_of(c.field, s) >= threshold(c)),
        c.operator == ConditionOperator::Lt ==> (condition_holds(c, s) <==> stat_of(c.field, s) < threshold(c)),
        c.operator == ConditionOperator::Lte ==> (condition_holds(c, s) <==> stat_of(c.field, s) <= threshold(c)),
        c.operator == ConditionOperator::Between ==> (condition_holds(c, s) <==> threshold(c) <= stat_of(
            c.field,
            s,
        ) <= range_end(c)),
        c.value matches JsonValueView::Int(v) ==> threshold(c) == v,
        !(c.value is Int) ==> threshold(c) == 0,
{
}

} // verus!
