use github_roles::models::condition::{Condition, ConditionField, ConditionOperator, JsonValue};
use github_roles::services::condition_eval::{evaluate_condition, evaluate_condition_zero};
use github_roles::services::github::ContributorStats;

fn cond(field: ConditionField, operator: ConditionOperator, value: JsonValue, value_end: Option<JsonValue>) -> Condition {
    Condition { repo: "owner/repo".to_string(), field, operator, value, value_end }
}

fn stats(commits: i32, pull_requests: i32, merged_prs: i32, issues: i32) -> ContributorStats {
    ContributorStats { commits, pull_requests, merged_prs, issues }
}

#[test]
fn field_keys_round_trip() {
    for f in [ConditionField::Commits, ConditionField::PullRequests, ConditionField::MergedPRs, ConditionField::Issues] {
        assert_eq!(ConditionField::from_key(f.json_key()), Some(f));
    }
    assert_eq!(ConditionField::Commits.json_key(), "commits");
    assert_eq!(ConditionField::PullRequests.json_key(), "pullRequests");
    assert_eq!(ConditionField::MergedPRs.json_key(), "mergedPRs");
    assert_eq!(ConditionField::Issues.json_key(), "issues");
    assert_eq!(ConditionField::from_key("Commits"), None);
    assert_eq!(ConditionField::from_key(""), None);
}

#[test]
fn field_sql_columns() {
    assert_eq!(ConditionField::Commits.sql_column(), "rc.commits");
    assert_eq!(ConditionField::PullRequests.sql_column(), "rc.pull_requests");
    assert_eq!(ConditionField::MergedPRs.sql_column(), "rc.merged_prs");
    assert_eq!(ConditionField::Issues.sql_column(), "rc.issues");
}

#[test]
fn operator_keys_round_trip() {
    for o in [ConditionOperator::Eq, ConditionOperator::Gt, ConditionOperator::Gte, ConditionOperator::Lt, ConditionOperator::Lte, ConditionOperator::Between] {
        assert_eq!(ConditionOperator::from_key(o.key()), Some(o));
    }
    assert_eq!(ConditionOperator::from_key("ge"), None);
    assert_eq!(ConditionOperator::Between.key(), "between");
}

#[test]
fn operator_sql_operators() {
    assert_eq!(ConditionOperator::Eq.sql_operator(), "=");
    assert_eq!(ConditionOperator::Gt.sql_operator(), ">");
    assert_eq!(ConditionOperator::Gte.sql_operator(), ">=");
    assert_eq!(ConditionOperator::Lt.sql_operator(), "<");
    assert_eq!(ConditionOperator::Lte.sql_operator(), "<=");
    assert_eq!(ConditionOperator::Between.sql_operator(), "BETWEEN");
}

#[test]
fn evaluate_each_operator() {
    let s = stats(10, 4, 2, 7);
    let c = |op| cond(ConditionField::Commits, op, JsonValue::Int(10), None);
    assert!(evaluate_condition(&c(ConditionOperator::Eq), &s));
    assert!(!evaluate_condition(&c(ConditionOperator::Gt), &s));
    assert!(evaluate_condition(&c(ConditionOperator::Gte), &s));
    assert!(!evaluate_condition(&c(ConditionOperator::Lt), &s));
    assert!(evaluate_condition(&c(ConditionOperator::Lte), &s));
    let issues = cond(ConditionField::Issues, ConditionOperator::Gt, JsonValue::Int(6), None);
    assert!(evaluate_condition(&issues, &s));
    let merged = cond(ConditionField::MergedPRs, ConditionOperator::Gte, JsonValue::Int(3), None);
    assert!(!evaluate_condition(&merged, &s));
    let prs = cond(ConditionField::PullRequests, ConditionOperator::Lt, JsonValue::Int(5), None);
    assert!(evaluate_condition(&prs, &s));
}

#[test]
fn evaluate_between() {
    let c = cond(ConditionField::Commits, ConditionOperator::Between, JsonValue::Int(1), Some(JsonValue::Int(10)));
    assert!(evaluate_condition(&c, &stats(1, 0, 0, 0)));
    assert!(evaluate_condition(&c, &stats(10, 0, 0, 0)));
    assert!(!evaluate_condition(&c, &stats(11, 0, 0, 0)));
    assert!(!evaluate_condition(&c, &stats(0, 0, 0, 0)));
    // Without an end the range is the single start value.
    let single = cond(ConditionField::Commits, ConditionOperator::Between, JsonValue::Int(3), None);
    assert!(evaluate_condition(&single, &stats(3, 0, 0, 0)));
    assert!(!evaluate_condition(&single, &stats(4, 0, 0, 0)));
    // An end that is not an integer also falls back to the start.
    let text_end = cond(ConditionField::Commits, ConditionOperator::Between, JsonValue::Int(3), Some(JsonValue::Str("9".to_string())));
    assert!(!evaluate_condition(&text_end, &stats(4, 0, 0, 0)));
}

#[test]
fn evaluate_empty_range_never_holds() {
    let c = cond(ConditionField::Commits, ConditionOperator::Between, JsonValue::Int(10), Some(JsonValue::Int(5)));
    for n in [0, 5, 7, 10, 100] {
        assert!(!evaluate_condition(&c, &stats(n, 0, 0, 0)));
    }
}

#[test]
fn evaluate_non_integer_threshold_counts_as_zero() {
    let c = cond(ConditionField::Commits, ConditionOperator::Gt, JsonValue::Str("5".to_string()), None);
    assert!(evaluate_condition(&c, &stats(1, 0, 0, 0)));
    let f = cond(ConditionField::Commits, ConditionOperator::Eq, JsonValue::Number("2.5".to_string()), None);
    assert!(evaluate_condition(&f, &stats(0, 0, 0, 0)));
}

#[test]
fn evaluate_zero_matches_zero_stats() {
    let conds = [
        cond(ConditionField::Commits, ConditionOperator::Gte, JsonValue::Int(1), None),
        cond(ConditionField::Issues, ConditionOperator::Lte, JsonValue::Int(0), None),
        cond(ConditionField::PullRequests, ConditionOperator::Between, JsonValue::Int(0), Some(JsonValue::Int(3))),
        cond(ConditionField::MergedPRs, ConditionOperator::Eq, JsonValue::Int(0), None),
    ];
    for c in conds.iter() {
        assert_eq!(evaluate_condition_zero(c), evaluate_condition(c, &stats(0, 0, 0, 0)));
    }
    assert!(!evaluate_condition_zero(&conds[0]));
    assert!(evaluate_condition_zero(&conds[1]));
}

#[test]
fn evaluate_at_least_is_monotone() {
    let c = cond(ConditionField::Commits, ConditionOperator::Gte, JsonValue::Int(5), None);
    assert!(evaluate_condition(&c, &stats(5, 0, 0, 0)));
    assert!(evaluate_condition(&c, &stats(50, 0, 0, 0)));
    let l = cond(ConditionField::Commits, ConditionOperator::Lt, JsonValue::Int(5), None);
    assert!(evaluate_condition(&l, &stats(4, 0, 0, 0)));
    assert!(evaluate_condition(&l, &stats(0, 0, 0, 0)));
}

#[test]
fn number_text_has_one_form() {
    assert_eq!(JsonValue::from_number_text("42".to_string()), JsonValue::Int(42));
    assert_eq!(JsonValue::from_number_text("-7".to_string()), JsonValue::Int(-7));
    assert_eq!(JsonValue::from_number_text("1.5".to_string()), JsonValue::Number("1.5".to_string()));
    assert_eq!(
        JsonValue::from_number_text("9223372036854775808".to_string()),
        JsonValue::Number("9223372036854775808".to_string())
    );
}
