use github_roles::error::AppError;
use github_roles::models::condition::{Condition, ConditionField, ConditionOperator, JsonValue};
use github_roles::schema::{build_config_schema, check_owner_repo, config_values, parse_config};

fn s(v: &str) -> JsonValue {
    JsonValue::Str(v.to_string())
}

fn form(entries: &[(&str, JsonValue)]) -> Vec<(String, JsonValue)> {
    entries.iter().map(|(k, v)| (k.to_string(), v.clone())).collect()
}

fn bad(msg: &str) -> AppError {
    AppError::BadRequest(msg.to_string())
}

#[test]
fn parse_config_minimal_defaults_to_gte() {
    let cfg = form(&[("repo", s("  facebook/react ")), ("field", s("commits")), ("value_commits", JsonValue::Int(5))]);
    let conds = parse_config(&cfg).unwrap();
    assert_eq!(conds.len(), 1);
    let c = &conds[0];
    assert_eq!(c.repo, "facebook/react");
    assert_eq!(c.field, ConditionField::Commits);
    assert_eq!(c.operator, ConditionOperator::Gte);
    assert_eq!(c.value, JsonValue::Int(5));
    assert_eq!(c.value_end, None);
}

#[test]
fn parse_config_accepts_numeric_strings_and_generic_value_keys() {
    let cfg = form(&[
        ("repo", s("rust-lang/rust")),
        ("field", s("issues")),
        ("operator", s("between")),
        ("value", s("2")),
        ("value_end", s("+9")),
    ]);
    let c = &parse_config(&cfg).unwrap()[0];
    assert_eq!(c.field, ConditionField::Issues);
    assert_eq!(c.operator, ConditionOperator::Between);
    assert_eq!(c.value, JsonValue::Int(2));
    assert_eq!(c.value_end, Some(JsonValue::Int(9)));
}

#[test]
fn parse_config_prefers_field_specific_value() {
    let cfg = form(&[
        ("repo", s("a/b")),
        ("field", s("mergedPRs")),
        ("operator", s("eq")),
        ("value", JsonValue::Int(1)),
        ("value_mergedPRs", JsonValue::Int(7)),
    ]);
    let c = &parse_config(&cfg).unwrap()[0];
    assert_eq!(c.value, JsonValue::Int(7));
    // A field-specific entry that is not a number is not replaced by the generic one.
    let cfg2 = form(&[
        ("repo", s("a/b")),
        ("field", s("mergedPRs")),
        ("value", JsonValue::Int(1)),
        ("value_mergedPRs", JsonValue::Other("true".to_string())),
    ]);
    assert_eq!(parse_config(&cfg2).unwrap_err(), bad("Value is required for 'mergedPRs'"));
}

#[test]
fn parse_config_errors() {
    assert_eq!(parse_config(&form(&[])).unwrap_err(), bad("Repository is required"));
    assert_eq!(parse_config(&form(&[("repo", s("   "))])).unwrap_err(), bad("Repository is required"));
    assert_eq!(parse_config(&form(&[("repo", JsonValue::Int(3))])).unwrap_err(), bad("Repository is required"));
    let fmt = "Repository must be in owner/repo format (e.g. facebook/react)";
    for r in ["react", "a/b/c", "/b", "a/", "/"] {
        assert_eq!(parse_config(&form(&[("repo", s(r))])).unwrap_err(), bad(fmt));
    }
    assert_eq!(parse_config(&form(&[("repo", s("a/b"))])).unwrap_err(), bad("Contribution type is required"));
    assert_eq!(
        parse_config(&form(&[("repo", s("a/b")), ("field", s("stars"))])).unwrap_err(),
        bad("Invalid field 'stars'")
    );
    assert_eq!(
        parse_config(&form(&[("repo", s("a/b")), ("field", s("commits")), ("operator", s("ge"))])).unwrap_err(),
        bad("Invalid operator 'ge'")
    );
    assert_eq!(
        parse_config(&form(&[("repo", s("a/b")), ("field", s("commits"))])).unwrap_err(),
        bad("Value is required for 'commits'")
    );
    assert_eq!(
        parse_config(&form(&[("repo", s("a/b")), ("field", s("commits")), ("value", s("12x"))])).unwrap_err(),
        bad("Value is required for 'commits'")
    );
    assert_eq!(
        parse_config(&form(&[("repo", s("a/b")), ("field", s("commits")), ("value", JsonValue::Int(-1))])).unwrap_err(),
        bad("Value must be >= 0")
    );
    assert_eq!(
        parse_config(&form(&[("repo", s("a/b")), ("field", s("commits")), ("operator", s("between")), ("value", JsonValue::Int(1))]))
            .unwrap_err(),
        bad("End value is required for between operator")
    );
    assert_eq!(
        parse_config(&form(&[
            ("repo", s("a/b")),
            ("field", s("commits")),
            ("operator", s("between")),
            ("value", JsonValue::Int(5)),
            ("value_end_commits", JsonValue::Int(4)),
        ]))
        .unwrap_err(),
        bad("Start value must be less than or equal to end value")
    );
}

#[test]
fn owner_repo_format() {
    assert!(check_owner_repo("facebook/react"));
    assert!(check_owner_repo("a/b"));
    assert!(!check_owner_repo("ab"));
    assert!(!check_owner_repo("a//b"));
    assert!(!check_owner_repo("a/b/"));
}

#[test]
fn config_values_show_first_condition() {
    assert!(config_values(&[]).is_empty());
    let c = Condition {
        repo: "a/b".to_string(),
        field: ConditionField::PullRequests,
        operator: ConditionOperator::Between,
        value: JsonValue::Int(2),
        value_end: Some(JsonValue::Str("x".to_string())),
    };
    let v = config_values(&[c]);
    let expect = vec![
        ("repo".to_string(), s("a/b")),
        ("field".to_string(), s("pullRequests")),
        ("operator".to_string(), s("between")),
        ("value_pullRequests".to_string(), JsonValue::Int(2)),
        ("value_end_pullRequests".to_string(), s("")),
    ];
    assert_eq!(v, expect);
}

#[test]
fn form_values_parse_back_to_the_condition() {
    let conds = vec![
        Condition { repo: "o/r".to_string(), field: ConditionField::Commits, operator: ConditionOperator::Gte, value: JsonValue::Int(3), value_end: None },
        Condition {
            repo: "o/r".to_string(),
            field: ConditionField::Issues,
            operator: ConditionOperator::Between,
            value: JsonValue::Int(1),
            value_end: Some(JsonValue::Int(10)),
        },
    ];
    for c in conds {
        let values = config_values(std::slice::from_ref(&c));
        let parsed = parse_config(&values).unwrap();
        assert_eq!(parsed.len(), 1);
        assert_eq!(parsed[0].repo, c.repo);
        assert_eq!(parsed[0].field, c.field);
        assert_eq!(parsed[0].operator, c.operator);
        assert_eq!(parsed[0].value, c.value);
        assert_eq!(parsed[0].value_end, c.value_end);
    }
}

#[test]
fn schema_document_structure() {
    let c = Condition {
        repo: "rust-lang/rust".to_string(),
        field: ConditionField::MergedPRs,
        operator: ConditionOperator::Between,
        value: JsonValue::Int(1),
        value_end: Some(JsonValue::Int(4)),
    };
    let text = build_config_schema(&[c], "https://x.example/verify?a=\"q\"");
    let doc: serde_json::Value = serde_json::from_str(&text).unwrap();
    assert_eq!(doc["version"], 1);
    assert_eq!(doc["name"], "GitHub Contributor Roles");
    let sections = doc["sections"].as_array().unwrap();
    assert_eq!(sections.len(), 4);
    assert_eq!(sections[0]["title"], "Getting Started");
    let info = sections[0]["fields"][0]["value"].as_str().unwrap();
    assert!(info.contains("Members link their GitHub account at:\nhttps://x.example/verify?a=\"q\"\n\nStep 2"));
    assert!(info.starts_with("This plugin assigns a Discord role"));
    assert!(info.ends_with("Contributor data refreshes every 1\u{2013}4 hours."));
    assert_eq!(sections[1]["fields"][0]["validation"]["pattern"], "^[a-zA-Z0-9._-]+/[a-zA-Z0-9._-]+$");
    let fields = sections[2]["fields"].as_array().unwrap();
    assert_eq!(fields.len(), 10);
    assert_eq!(fields[1]["default_value"], "gte");
    assert_eq!(fields[1]["options"][5]["label"], "\u{2194} between (range)");
    assert_eq!(fields[3]["key"], "value_end_commits");
    assert_eq!(fields[3]["pair_with"], "value_commits");
    assert_eq!(fields[3]["conditions"][1]["equals"], "between");
    assert_eq!(sections[3]["collapsible"], true);
    assert!(sections[3]["fields"][0]["value"].as_str().unwrap().starts_with("Commits >= 1  \u{2192}  Any contributor"));
    let values = doc["values"].as_object().unwrap();
    assert_eq!(values.len(), 5);
    assert_eq!(values["repo"], "rust-lang/rust");
    assert_eq!(values["field"], "mergedPRs");
    assert_eq!(values["operator"], "between");
    assert_eq!(values["value_mergedPRs"], 1);
    assert_eq!(values["value_end_mergedPRs"], 4);
}

#[test]
fn schema_without_conditions_has_empty_values() {
    let text = build_config_schema(&[], "u");
    let doc: serde_json::Value = serde_json::from_str(&text).unwrap();
    assert!(doc["values"].as_object().unwrap().is_empty());
}

#[test]
fn schema_shows_non_numbers_as_empty() {
    let c = Condition {
        repo: "a/b".to_string(),
        field: ConditionField::Commits,
        operator: ConditionOperator::Gte,
        value: JsonValue::Str("5".to_string()),
        value_end: None,
    };
    let doc: serde_json::Value = serde_json::from_str(&build_config_schema(&[c], "u")).unwrap();
    assert_eq!(doc["values"]["value_commits"], "");
    let f = Condition {
        repo: "a/b".to_string(),
        field: ConditionField::Commits,
        operator: ConditionOperator::Gte,
        value: JsonValue::Number("2.5".to_string()),
        value_end: None,
    };
    let doc: serde_json::Value = serde_json::from_str(&build_config_schema(&[f], "u")).unwrap();
    assert_eq!(doc["values"]["value_commits"], 2.5);
}

#[test]
fn accepted_form_shown_and_resubmitted_is_unchanged() {
    let cfg = form(&[
        ("repo", s("\t owner/repo \n")),
        ("field", s("pullRequests")),
        ("operator", s("between")),
        ("value", s("+4")),
        ("value_end_pullRequests", JsonValue::Int(12)),
        ("unrelated", s("ignored")),
    ]);
    let first = parse_config(&cfg).unwrap();
    let shown = config_values(&first);
    let second = parse_config(&shown).unwrap();
    assert_eq!(first.len(), 1);
    assert_eq!(second.len(), 1);
    assert_eq!(first[0].repo, "owner/repo");
    assert_eq!(second[0].repo, first[0].repo);
    assert_eq!(second[0].field, first[0].field);
    assert_eq!(second[0].operator, first[0].operator);
    assert_eq!(second[0].value, JsonValue::Int(4));
    assert_eq!(second[0].value, first[0].value);
    assert_eq!(second[0].value_end, Some(JsonValue::Int(12)));
    assert_eq!(second[0].value_end, first[0].value_end);
}
