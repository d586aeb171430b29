use github_roles::models::condition::{Condition, ConditionField, ConditionOperator, JsonValue};
use github_roles::services::github::ContributorStats;
use github_roles::services::sync::{
    build_condition_where, limit_may_be_exceeded, plan_player_actions, role_link_queries, ConditionBind, PlayerLink,
    RoleAction,
};

fn cond(repo: &str, field: ConditionField, operator: ConditionOperator, value: JsonValue, value_end: Option<JsonValue>) -> Condition {
    Condition { repo: repo.to_string(), field, operator, value, value_end }
}

fn bind_text(b: &ConditionBind) -> String {
    match b {
        ConditionBind::Int(n) => format!("i{}", n),
        ConditionBind::Text(t) => format!("t{}", t),
    }
}

fn binds_text(b: &[ConditionBind]) -> Vec<String> {
    b.iter().map(bind_text).collect()
}

#[test]
fn no_condition_selects_everything() {
    let (clause, binds) = build_condition_where(&[]);
    assert_eq!(clause, "TRUE");
    assert!(binds.is_empty());
}

#[test]
fn one_comparison_condition() {
    let c = cond("octo/repo", ConditionField::Commits, ConditionOperator::Gte, JsonValue::Int(5), None);
    let (clause, binds) = build_condition_where(&[c]);
    assert_eq!(clause, "COALESCE((SELECT MAX(rc.commits) FROM repo_contributors rc WHERE rc.repo_full_name = $1 AND LOWER(rc.github_username) = LOWER(la.github_username)), 0) >= $2");
    assert_eq!(binds_text(&binds), vec!["tocto/repo", "i5"]);
}

#[test]
fn between_and_numbering_across_conditions() {
    let a = cond("a/b", ConditionField::MergedPRs, ConditionOperator::Between, JsonValue::Int(1), Some(JsonValue::Int(10)));
    let b = cond("c/d", ConditionField::Issues, ConditionOperator::Lt, JsonValue::Str("x".to_string()), None);
    let (clause, binds) = build_condition_where(&[a, b]);
    assert_eq!(
        clause,
        "COALESCE((SELECT MAX(rc.merged_prs) FROM repo_contributors rc WHERE rc.repo_full_name = $1 AND LOWER(rc.github_username) = LOWER(la.github_username)), 0) BETWEEN $2 AND $3 AND COALESCE((SELECT MAX(rc.issues) FROM repo_contributors rc WHERE rc.repo_full_name = $4 AND LOWER(rc.github_username) = LOWER(la.github_username)), 0) < $5"
    );
    assert_eq!(binds_text(&binds), vec!["ta/b", "i1", "i10", "tc/d", "i0"]);
}

#[test]
fn between_without_end_uses_the_start() {
    let a = cond("a/b", ConditionField::PullRequests, ConditionOperator::Between, JsonValue::Int(3), None);
    let (clause, binds) = build_condition_where(&[a]);
    assert_eq!(clause, "COALESCE((SELECT MAX(rc.pull_requests) FROM repo_contributors rc WHERE rc.repo_full_name = $1 AND LOWER(rc.github_username) = LOWER(la.github_username)), 0) BETWEEN $2 AND $3");
    assert_eq!(binds_text(&binds), vec!["ta/b", "i3", "i3"]);
}

#[test]
fn role_link_queries_place_members_and_limit_after_the_binds() {
    let c = cond("octo/repo", ConditionField::Commits, ConditionOperator::Eq, JsonValue::Int(2), None);
    let q = role_link_queries(&[c]);
    assert_eq!(
        q.select,
        "SELECT la.discord_id FROM linked_accounts la WHERE la.discord_id = ANY($3::text[]) AND (COALESCE((SELECT MAX(rc.commits) FROM repo_contributors rc WHERE rc.repo_full_name = $1 AND LOWER(rc.github_username) = LOWER(la.github_username)), 0) = $2) ORDER BY la.linked_at ASC LIMIT $4"
    );
    assert_eq!(
        q.count,
        "SELECT COUNT(*) FROM linked_accounts la WHERE la.discord_id = ANY($3::text[]) AND (COALESCE((SELECT MAX(rc.commits) FROM repo_contributors rc WHERE rc.repo_full_name = $1 AND LOWER(rc.github_username) = LOWER(la.github_username)), 0) = $2)"
    );
    assert_eq!(binds_text(&q.binds), vec!["tocto/repo", "i2"]);
    let none = role_link_queries(&[]);
    assert!(none.select.contains("ANY($1::text[]) AND (TRUE) ORDER BY la.linked_at ASC LIMIT $2"));
}

#[test]
fn user_limit_check() {
    assert!(limit_may_be_exceeded(10, 10));
    assert!(!limit_may_be_exceeded(9, 10));
    assert!(!limit_may_be_exceeded(0, 0));
}

fn link(guild: &str, role: &str, condition: Option<Condition>, stats: Option<ContributorStats>) -> PlayerLink {
    PlayerLink { guild_id: guild.to_string(), role_id: role.to_string(), api_token: format!("tok-{}", role), condition, stats }
}

fn action_text(a: &RoleAction) -> String {
    match a {
        RoleAction::Add { guild_id, role_id, api_token } => format!("+{}/{}/{}", guild_id, role_id, api_token),
        RoleAction::Remove { guild_id, role_id, api_token } => format!("-{}/{}/{}", guild_id, role_id, api_token),
    }
}

#[test]
fn plan_adds_missing_and_removes_unearned_roles() {
    let gte1 = || Some(cond("o/r", ConditionField::Commits, ConditionOperator::Gte, JsonValue::Int(1), None));
    let s3 = Some(ContributorStats { commits: 3, pull_requests: 0, merged_prs: 0, issues: 0 });
    let links = vec![
        link("g", "earned_missing", gte1(), s3),
        link("g", "earned_have", gte1(), s3),
        link("g", "unearned_have", gte1(), None),
        link("g", "unearned_missing", gte1(), None),
        link("g", "no_condition", None, s3),
    ];
    let existing = vec![
        ("g".to_string(), "earned_have".to_string()),
        ("g".to_string(), "unearned_have".to_string()),
        ("g".to_string(), "no_condition".to_string()),
    ];
    let actions = plan_player_actions(&links, &existing);
    let texts: Vec<String> = actions.iter().map(action_text).collect();
    assert_eq!(texts, vec!["+g/earned_missing/tok-earned_missing", "-g/unearned_have/tok-unearned_have"]);
}

#[test]
fn plan_without_statistics_counts_zero() {
    let eq0 = Some(cond("o/r", ConditionField::Issues, ConditionOperator::Eq, JsonValue::Int(0), None));
    let actions = plan_player_actions(&[link("g", "r", eq0, None)], &[]);
    let texts: Vec<String> = actions.iter().map(action_text).collect();
    assert_eq!(texts, vec!["+g/r/tok-r"]);
}

#[test]
fn plan_is_per_guild() {
    let gte1 = Some(cond("o/r", ConditionField::Commits, ConditionOperator::Gte, JsonValue::Int(1), None));
    let s = Some(ContributorStats { commits: 1, pull_requests: 0, merged_prs: 0, issues: 0 });
    let existing = vec![("other".to_string(), "r".to_string())];
    let actions = plan_player_actions(&[link("g", "r", gte1, s)], &existing);
    let texts: Vec<String> = actions.iter().map(action_text).collect();
    assert_eq!(texts, vec!["+g/r/tok-r"]);
}

#[test]
fn planning_again_after_the_changes_calls_for_nothing() {
    let gte1 = || Some(cond("o/r", ConditionField::Commits, ConditionOperator::Gte, JsonValue::Int(1), None));
    let s3 = Some(ContributorStats { commits: 3, pull_requests: 0, merged_prs: 0, issues: 0 });
    let links = vec![link("g", "a", gte1(), s3), link("g", "b", gte1(), None), link("h", "c", None, s3)];
    let mut assigned = vec![("g".to_string(), "b".to_string()), ("x".to_string(), "y".to_string())];
    for action in plan_player_actions(&links, &assigned) {
        match action {
            RoleAction::Add { guild_id, role_id, .. } => assigned.push((guild_id, role_id)),
            RoleAction::Remove { guild_id, role_id, .. } => assigned.retain(|p| *p != (guild_id.clone(), role_id.clone())),
        }
    }
    assert_eq!(assigned, vec![("x".to_string(), "y".to_string()), ("g".to_string(), "a".to_string())]);
    assert!(plan_player_actions(&links, &assigned).is_empty());
}

#[test]
fn where_text_depends_only_on_metrics_and_comparisons() {
    let a = vec![
        cond("a/b", ConditionField::Commits, ConditionOperator::Between, JsonValue::Int(1), Some(JsonValue::Int(9))),
        cond("c/d", ConditionField::Issues, ConditionOperator::Gt, JsonValue::Int(4), None),
    ];
    let b = vec![
        cond("x/y", ConditionField::Commits, ConditionOperator::Between, JsonValue::Int(50), None),
        cond("z/w", ConditionField::Issues, ConditionOperator::Gt, JsonValue::Str("q".to_string()), None),
    ];
    let (ta, ba) = build_condition_where(&a);
    let (tb, bb) = build_condition_where(&b);
    assert_eq!(ta, tb);
    assert_eq!(ba.len(), 5);
    assert_eq!(bb.len(), 5);
    let positions: Vec<usize> = (1..=5).map(|k| ta.find(&format!("${k}")).unwrap()).collect();
    assert!(positions.windows(2).all(|w| w[0] < w[1]));
    assert!(!ta.contains("$6"));
}
