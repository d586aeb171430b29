//! The configuration form shown in the RoleLogic dashboard and the parsing
//! of what an admin submits through it.
use vstd::prelude::*;
use crate::error::{AppError, bad_request, is_bad_request};
use crate::json::{entries_view, object_text, push_object};
use crate::models::condition::{
    Condition, ConditionField, ConditionOperator, ConditionView, JsonValue, JsonValueView,
    field_from_key, field_key, operator_from_key, operator_key,
    lemma_field_key_roundtrip, lemma_operator_key_roundtrip,
};
use crate::strings::{
    chars_of, concat2, concat3, owned, json_escape, lemma_trim_idempotent, parse_i64, parse_i64_spec,
    push_json_escaped, str_eq, trim, trim_str,
};

verus! {

/// The form document up to the verification URL inside the "How it works" text.
pub const SCHEMA_HEAD: &'static str = "{\"version\":1,\"name\":\"GitHub Contributor Roles\",\"description\":\"Assign Discord roles based on contributions to a GitHub repository.\",\"sections\":[{\"title\":\"Getting Started\",\"fields\":[{\"type\":\"display\",\"key\":\"info\",\"label\":\"How it works\",\"value\":\"This plugin assigns a Discord role to members who have contributed to a specific GitHub repository.\\n\\nStep 1 \u{2192} Members link their GitHub account at:\\n";

/// The form document from after the verification URL up to the stored values.
pub const SCHEMA_MIDDLE: &'static str = "\\n\\nStep 2 \u{2192} You configure a target repository and contribution requirement below.\\n\\nStep 3 \u{2192} Any verified member meeting the requirement gets this role automatically. Contributor data refreshes every 1\u{2013}4 hours.\"}]},{\"title\":\"Target Repository\",\"description\":\"The GitHub repository to track contributions for.\",\"fields\":[{\"type\":\"text\",\"key\":\"repo\",\"label\":\"Repository\",\"description\":\"Full name in owner/repo format (e.g. facebook/react, rust-lang/rust)\",\"validation\":{\"required\":true,\"pattern\":\"^[a-zA-Z0-9._-]+/[a-zA-Z0-9._-]+$\",\"pattern_message\":\"Use owner/repo format (e.g. facebook/react)\"}}]},{\"title\":\"Contribution Requirement\",\"description\":\"Set the minimum contribution a member must have to earn this role.\",\"fields\":[{\"type\":\"select\",\"key\":\"field\",\"label\":\"Contribution type\",\"description\":\"Which contribution metric to check.\",\"validation\":{\"required\":true},\"options\":[{\"label\":\"Commits\",\"value\":\"commits\"},{\"label\":\"Pull Requests (all)\",\"value\":\"pullRequests\"},{\"label\":\"Merged Pull Requests\",\"value\":\"mergedPRs\"},{\"label\":\"Issues Opened\",\"value\":\"issues\"}]},{\"type\":\"select\",\"key\":\"operator\",\"label\":\"Comparison\",\"default_value\":\"gte\",\"options\":[{\"label\":\"= equals\",\"value\":\"eq\"},{\"label\":\"> greater than\",\"value\":\"gt\"},{\"label\":\">= at least\",\"value\":\"gte\"},{\"label\":\"< less than\",\"value\":\"lt\"},{\"label\":\"<= at most\",\"value\":\"lte\"},{\"label\":\"\u{2194} between (range)\",\"value\":\"between\"}]},{\"type\":\"number\",\"key\":\"value_commits\",\"label\":\"Commits\",\"validation\":{\"required\":true,\"min\":0},\"condition\":{\"field\":\"field\",\"equals\":\"commits\"}},{\"type\":\"number\",\"key\":\"value_end_commits\",\"label\":\"Commits (end)\",\"validation\":{\"min\":0},\"pair_with\":\"value_commits\",\"conditions\":[{\"field\":\"field\",\"equals\":\"commits\"},{\"field\":\"operator\",\"equals\":\"between\"}]},{\"type\":\"number\",\"key\":\"value_pullRequests\",\"label\":\"Pull Requests\",\"validation\":{\"required\":true,\"min\":0},\"condition\":{\"field\":\"field\",\"equals\":\"pullRequests\"}},{\"type\":\"number\",\"key\":\"value_end_pullRequests\",\"label\":\"Pull Requests (end)\",\"validation\":{\"min\":0},\"pair_with\":\"value_pullRequests\",\"conditions\":[{\"field\":\"field\",\"equals\":\"pullRequests\"},{\"field\":\"operator\",\"equals\":\"between\"}]},{\"type\":\"number\",\"key\":\"value_mergedPRs\",\"label\":\"Merged PRs\",\"validation\":{\"required\":true,\"min\":0},\"condition\":{\"field\":\"field\",\"equals\":\"mergedPRs\"}},{\"type\":\"number\",\"key\":\"value_end_mergedPRs\",\"label\":\"Merged PRs (end)\",\"validation\":{\"min\":0},\"pair_with\":\"value_mergedPRs\",\"conditions\":[{\"field\":\"field\",\"equals\":\"mergedPRs\"},{\"field\":\"operator\",\"equals\":\"between\"}]},{\"type\":\"number\",\"key\":\"value_issues\",\"label\":\"Issues\",\"validation\":{\"required\":true,\"min\":0},\"condition\":{\"field\":\"field\",\"equals\":\"issues\"}},{\"type\":\"number\",\"key\":\"value_end_issues\",\"label\":\"Issues (end)\",\"validation\":{\"min\":0},\"pair_with\":\"value_issues\",\"conditions\":[{\"field\":\"field\",\"equals\":\"issues\"},{\"field\":\"operator\",\"equals\":\"between\"}]}]},{\"title\":\"Examples\",\"collapsible\":true,\"default_collapsed\":true,\"fields\":[{\"type\":\"display\",\"key\":\"examples\",\"label\":\"Common setups\",\"value\":\"Commits >= 1  \u{2192}  Any contributor (at least one commit)\\nCommits >= 50  \u{2192}  Major contributors (50+ commits)\\nMerged PRs >= 1  \u{2192}  Has at least one merged pull request\\nPull Requests >= 5  \u{2192}  Active PR contributor\\nIssues >= 10  \u{2192}  Frequent issue reporter\\nCommits between 1 to 10  \u{2192}  New contributors (1 to 10 commits)\"}]}],\"values\":";

/// The value stored under `key` in a submitted form, if any.
pub open spec fn lookup(entries: Seq<(Seq<char>, JsonValueView)>, key: Seq<char>) -> Option<JsonValueView>
    decreases entries.len(),
{
    if entries.len() == 0 {
        None
    } else if entries[0].0 == key {
        Some(entries[0].1)
    } else {
        lookup(entries.drop_first(), key)
    }
}

/// No key occurs twice among a form's entries, as in a JSON object.
pub open spec fn keys_distinct(entries: Seq<(Seq<char>, JsonValueView)>) -> bool {
    forall|i: int, j: int| 0 <= i < j < entries.len() ==> entries[i].0 != entries[j].0
}

/// The string held by an optional value, or `default`.
pub open spec fn str_or(v: Option<JsonValueView>, default: Seq<char>) -> Seq<char> {
    match v {
        Some(x) => match x.as_str() {
            Some(s) => s,
            None => default,
        },
        None => default,
    }
}

/// The integer held by an optional value: an integer, or a string that
/// parses as one.
pub open spec fn number_of(v: Option<JsonValueView>) -> Option<i64> {
    match v {
        Some(x) => match x.as_i64() {
            Some(n) => Some(n),
            None => match x.as_str() {
                Some(s) => parse_i64_spec(s),
                None => None,
            },
        },
        None => None,
    }
}

/// The first of two optional values that is present.
pub open spec fn first_present(a: Option<JsonValueView>, b: Option<JsonValueView>) -> Option<JsonValueView> {
    if a is Some {
        a
    } else {
        b
    }
}

/// `owner/repo`: exactly one `/`, with text on both sides.
pub open spec fn is_owner_repo(s: Seq<char>) -> bool {
    exists|i: int|
        0 < i < s.len() - 1 && s[i] == '/' && forall|j: int| 0 <= j < s.len() && j != i ==> s[j] != '/'
}

/// What `parse_config` makes of a submitted form: the condition, or the
/// message of the `BadRequest` it answers.
pub open spec fn parse_config_spec(cfg: Seq<(Seq<char>, JsonValueView)>) -> Result<ConditionView, Seq<char>> {
    let repo = trim(str_or(lookup(cfg, "repo"@), ""@));
    let fkey = str_or(lookup(cfg, "field"@), ""@);
    let okey = str_or(lookup(cfg, "operator"@), "gte"@);
    let start = number_of(first_present(lookup(cfg, "value_"@ + fkey), lookup(cfg, "value"@)));
    let end = number_of(first_present(lookup(cfg, "value_end_"@ + fkey), lookup(cfg, "value_end"@)));
    if repo.len() == 0 {
        Err("Repository is required"@)
    } else if !is_owner_repo(repo) {
        Err("Repository must be in owner/repo format (e.g. facebook/react)"@)
    } else if fkey.len() == 0 {
        Err("Contribution type is required"@)
    } else if field_from_key(fkey) is None {
        Err("Invalid field '"@ + fkey + "'"@)
    } else if operator_from_key(okey) is None {
        Err("Invalid operator '"@ + okey + "'"@)
    } else if start is None {
        Err("Value is required for '"@ + fkey + "'"@)
    } else if start->0 < 0 {
        Err("Value must be >= 0"@)
    } else if operator_from_key(okey) == Some(ConditionOperator::Between) && end is None {
        Err("End value is required for between operator"@)
    } else if operator_from_key(okey) == Some(ConditionOperator::Between) && start->0 > end->0 {
        Err("Start value must be less than or equal to end value"@)
    } else {
        Ok(
            ConditionView {
                repo,
                field: field_from_key(fkey)->0,
                operator: operator_from_key(okey)->0,
                value: JsonValueView::Int(start->0),
                value_end: if operator_from_key(okey) == Some(ConditionOperator::Between) {
                    Some(JsonValueView::Int(end->0))
                } else {
                    None
                },
            },
        )
    }
}

/// How a stored number is shown in the form: numbers as they are, anything else as `""`.
pub open spec fn form_number_spec(v: JsonValueView) -> JsonValueView {
    if v.is_number() {
        v
    } else {
        JsonValueView::Str(Seq::empty())
    }
}

/// The form values that show the first condition (none when there is no condition).
pub open spec fn config_values_spec(cs: Seq<ConditionView>) -> Seq<(Seq<char>, JsonValueView)> {
    if cs.len() == 0 {
        Seq::empty()
    } else {
        let c = cs[0];
        let fk = field_key(c.field);
        let base = seq![
            ("repo"@, JsonValueView::Str(c.repo)),
            ("field"@, JsonValueView::Str(fk)),
            ("operator"@, JsonValueView::Str(operator_key(c.operator))),
            ("value_"@ + fk, form_number_spec(c.value)),
        ];
        if c.operator == ConditionOperator::Between && c.value_end is Some {
            base.push(("value_end_"@ + fk, form_number_spec(c.value_end->0)))
        } else {
            base
        }
    }
}

/// The mathematical values of a list of conditions.
pub open spec fn conditions_view(cs: Seq<Condition>) -> Seq<ConditionView> {
    cs.map_values(|c: Condition| c@)
}

/// The JSON text of the configuration form for `conditions`, with the
/// verification link `verify_url` in its instructions.
pub open spec fn schema_text(cs: Seq<ConditionView>, verify_url: Seq<char>) -> Seq<char> {
    SCHEMA_HEAD@ + json_escape(verify_url) + SCHEMA_MIDDLE@ + object_text(config_values_spec(cs))
        + "}"@
}

fn get<'a>(config: &'a [(String, JsonValue)], key: &str) -> (res: Option<&'a JsonValue>)
    ensures
        match res {
            Some(v) => lookup(entries_view(config@), key@) == Some(v@),
            None => lookup(entries_view(config@), key@) is None,
        },
{
    let ghost all = entries_view(config@);
    assert(all.subrange(0, all.len() as int) == all);
    let mut i: usize = 0;
    while i < config.len()
        invariant
            i <= config@.len(),
            all == entries_view(config@),
            lookup(all, key@) == lookup(all.subrange(i as int, all.len() as int), key@),
        decreases config@.len() - i,
    {
        let ghost rest = all.subrange(i as int, all.len() as int);
        assert(rest[0] == all[i as int]);
        assert(rest.drop_first() == all.subrange(i + 1, all.len() as int));
        if str_eq(config[i].0.as_str(), key) {
            return Some(&config[i].1);
        }
        i = i + 1;
    }
    None
}

fn str_or_default<'a>(v: Option<&'a JsonValue>, default: &'a str) -> (res: &'a str)
    ensures
        res@ == str_or(
            match v {
                Some(x) => Some(x@),
                None => None,
            },
            default@,
        ),
{
    match v {
        Some(x) => match x.as_str() {
            Some(s) => s,
            None => default,
        },
        None => default,
    }
}

fn number_in(v: Option<&JsonValue>) -> (res: Option<i64>)
    ensures
        res == number_of(
            match v {
                Some(x) => Some(x@),
                None => None,
            },
        ),
{
    match v {
        Some(x) => match x.as_i64() {
            Some(n) => Some(n),
            None => match x.as_str() {
                Some(s) => parse_i64(s),
                None => None,
            },
        },
        None => None,
    }
}

fn get_either<'a>(config: &'a [(String, JsonValue)], first: &str, second: &str) -> (res: Option<&'a JsonValue>)
    ensures
        match res {
            Some(v) => first_present(lookup(entries_view(config@), first@), lookup(entries_view(config@), second@)) == Some(v@),
            None => first_present(lookup(entries_view(config@), first@), lookup(entries_view(config@), second@)) is None,
        },
{
    match get(config, first) {
        Some(v) => Some(v),
        None => get(config, second),
    }
}

/// Whether `s` has the `owner/repo` form.
pub fn check_owner_repo(s: &str) -> (res: bool)
    ensures
        res == is_owner_repo(s@),
{
    let v = chars_of(s);
    let n = v.len();
    let mut count: usize = 0;
    let mut pos: usize = 0;
    let mut i: usize = 0;
    while i < n
        invariant
            n == v@.len(),
            v@ == s@,
            i <= n,
            count <= i,
            count == 0 ==> forall|j: int| 0 <= j < i ==> v@[j] != '/',
            count == 1 ==> pos < i && v@[pos as int] == '/' && forall|j: int|
                0 <= j < i && j != pos ==> v@[j] != '/',
            count >= 2 ==> exists|a: int, b: int| 0 <= a < b < i && v@[a] == '/' && v@[b] == '/',
        decreases n - i,
    {
        if v[i] == '/' {
            if count == 0 {
                pos = i;
            } else if count == 1 {
                assert(v@[pos as int] == '/' && v@[i as int] == '/');
            }
            if count < 2 {
                count = count + 1;
            }
        }
        i = i + 1;
    }
    if count == 1 && pos > 0 && pos + 1 < n {
        assert(0 < pos < s@.len() - 1 && s@[pos as int] == '/');
        true
    } else {
        proof {
            if is_owner_repo(s@) {
                let k = choose|k: int|
                    0 < k < s@.len() - 1 && s@[k] == '/' && forall|j: int|
                        0 <= j < s@.len() && j != k ==> s@[j] != '/';
                if count == 0 {
                    assert(v@[k] != '/');
                } else if count == 1 {
                    assert(k == pos);
                } else {
                    let (a, b) = choose|a: int, b: int| 0 <= a < b < n && v@[a] == '/' && v@[b] == '/';
                    assert(a == k);
                    assert(b == k);
                }
            }
        }
        false
    }
}

/// Parse the conditions out of a submitted configuration form (its field
/// values in any order). The form yields exactly one condition; a missing
/// or malformed entry is refused with a `BadRequest` that names it.
pub fn parse_config(config: &[(String, JsonValue)]) -> (res: Result<Vec<Condition>, AppError>)
    requires
        keys_distinct(entries_view(config@)),
    ensures
        match res {
            Ok(v) => v@.len() == 1 && parse_config_spec(entries_view(config@)) == Ok::<
                ConditionView,
                Seq<char>,
            >(v@[0]@),
            Err(e) => parse_config_spec(entries_view(config@)) matches Err(m) && is_bad_request(e, m),
        },
{
    let repo = trim_str(str_or_default(get(config, "repo"), ""));
    if repo.as_str().is_empty() {
        return Err(bad_request("Repository is required"));
    }
    if !check_owner_repo(repo.as_str()) {
        return Err(bad_request("Repository must be in owner/repo format (e.g. facebook/react)"));
    }
    let field_key = str_or_default(get(config, "field"), "");
    if field_key.is_empty() {
        return Err(bad_request("Contribution type is required"));
    }
    let field = match ConditionField::from_key(field_key) {
        Some(f) => f,
        None => {
            return Err(AppError::BadRequest(concat3("Invalid field '", field_key, "'")));
        },
    };
    let op_key = str_or_default(get(config, "operator"), "gte");
    let operator = match ConditionOperator::from_key(op_key) {
        Some(o) => o,
        None => {
            return Err(AppError::BadRequest(concat3("Invalid operator '", op_key, "'")));
        },
    };
    let specific_key = concat2("value_", field_key);
    let value_num = number_in(get_either(config, specific_key.as_str(), "value"));
    let n = match value_num {
        Some(n) => n,
        None => {
            return Err(AppError::BadRequest(concat3("Value is required for '", field_key, "'")));
        },
    };
    if n < 0 {
        return Err(bad_request("Value must be >= 0"));
    }
    let value_end = if operator == ConditionOperator::Between {
        let end_key = concat2("value_end_", field_key);
        let end_num = number_in(get_either(config, end_key.as_str(), "value_end"));
        let e = match end_num {
            Some(e) => e,
            None => {
                return Err(bad_request("End value is required for between operator"));
            },
        };
        if n > e {
            return Err(bad_request("Start value must be less than or equal to end value"));
        }
        Some(JsonValue::Int(e))
    } else {
        None
    };
    let mut v: Vec<Condition> = Vec::new();
    v.push(Condition { repo, field, operator, value: JsonValue::Int(n), value_end });
    Ok(v)
}

proof fn lemma_form_keys_distinct(cs: Seq<ConditionView>)
    ensures
        keys_distinct(config_values_spec(cs)),
{
    if cs.len() > 0 {
        reveal_strlit("repo");
        reveal_strlit("field");
        reveal_strlit("operator");
        reveal_strlit("value_");
        reveal_strlit("value_end_");
        let c = cs[0];
        let fk = field_key(c.field);
        let e = config_values_spec(cs);
        let k3 = "value_"@ + fk;
        let k4 = "value_end_"@ + fk;
        assert(k3.len() == 6 + fk.len() && k4.len() == 10 + fk.len());
        assert("repo"@.len() == 4 && "field"@.len() == 5 && "operator"@.len() == 8);
        assert(fk.len() >= 6) by {
            reveal_strlit("commits");
            reveal_strlit("pullRequests");
            reveal_strlit("mergedPRs");
            reveal_strlit("issues");
        }
        assert(k3 != k4);
    }
}

fn form_number(v: &JsonValue) -> (res: JsonValue)
    ensures
        res@ == form_number_spec(v@),
{
    match v {
        JsonValue::Int(n) => JsonValue::Int(*n),
        JsonValue::Number(t) => JsonValue::Number(t.clone()),
        _ => JsonValue::Str(String::new()),
    }
}

/// The values shown in the configuration form for the first of `conditions`.
pub fn config_values(conditions: &[Condition]) -> (res: Vec<(String, JsonValue)>)
    ensures
        entries_view(res@) == config_values_spec(conditions_view(conditions@)),
        keys_distinct(entries_view(res@)),
{
    proof {
        lemma_form_keys_distinct(conditions_view(conditions@));
    }
    let mut values: Vec<(String, JsonValue)> = Vec::new();
    if conditions.len() == 0 {
        assert(entries_view(values@) =~= config_values_spec(conditions_view(conditions@)));
        return values;
    }
    let c = &conditions[0];
    let fk = c.field.json_key();
    values.push((owned("repo"), JsonValue::Str(c.repo.clone())));
    values.push((owned("field"), JsonValue::Str(owned(fk))));
    values.push((owned("operator"), JsonValue::Str(owned(c.operator.key()))));
    values.push((concat2("value_", fk), form_number(&c.value)));
    if c.operator == ConditionOperator::Between {
        match &c.value_end {
            Some(end) => {
                values.push((concat2("value_end_", fk), form_number(end)));
            },
            None => {},
        }
    }
    assert(entries_view(values@) =~= config_values_spec(conditions_view(conditions@)));
    values
}

/// The configuration form for a role link, as JSON text: instructions that
/// point members to `verify_url`, the target repository, the contribution
/// requirement, examples, and the values of the first of `conditions`.
pub fn build_config_schema(conditions: &[Condition], verify_url: &str) -> (res: String)
    ensures
        res@ == schema_text(conditions_view(conditions@), verify_url@),
{
    let mut out = owned(SCHEMA_HEAD);
    push_json_escaped(&mut out, verify_url);
    out.append(SCHEMA_MIDDLE);
    let values = config_values(conditions);
    push_object(&mut out, values.as_slice());
    out.append("}");
    out
}

/// A condition as the configuration form can express it: a trimmed
/// `owner/repo`, an integer threshold of at least 0, and for `between` an
/// integer end no smaller than the threshold (and no end otherwise).
pub open spec fn is_form_condition(c: ConditionView) -> bool {
    &&& trim(c.repo) == c.repo
    &&& is_owner_repo(c.repo)
    &&& c.value matches JsonValueView::Int(n) && n >= 0
    &&& if c.operator == ConditionOperator::Between {
        c.value_end matches Some(JsonValueView::Int(e)) && c.value->Int_0 <= e
    } else {
        c.value_end is None
    }
}

/// Law: the values the form shows for a condition, submitted unchanged,
/// parse back to the same condition.
pub proof fn lemma_form_roundtrip(c: ConditionView)
    requires
        is_form_condition(c),
    ensures
        parse_config_spec(config_values_spec(seq![c])) == Ok::<ConditionView, Seq<char>>(c),
{
    reveal_strlit("repo");
    reveal_strlit("field");
    reveal_strlit("operator");
    reveal_strlit("value");
    reveal_strlit("value_end");
    reveal_strlit("value_");
    reveal_strlit("value_end_");
    reveal_strlit("commits");
    reveal_strlit("pullRequests");
    reveal_strlit("mergedPRs");
    reveal_strlit("issues");
    lemma_field_key_roundtrip(c.field, field_key(c.field));
    lemma_operator_key_roundtrip(c.operator, operator_key(c.operator));
    let cs = seq![c];
    let e = config_values_spec(cs);
    let fk = field_key(c.field);
    assert(fk.len() >= 6);
    let k0 = "repo"@;
    let k1 = "field"@;
    let k2 = "operator"@;
    let k3 = "value_"@ + fk;
    assert(k0.len() == 4 && k1.len() == 5 && k2.len() == 8 && k3.len() >= 12);
    assert(e[0].0 == k0 && e[1].0 == k1 && e[2].0 == k2 && e[3].0 == k3);
    assert(lookup(e, k0) == Some(JsonValueView::Str(c.repo)));
    let e1 = e.drop_first();
    let e2 = e1.drop_first();
    let e3 = e2.drop_first();
    assert(k0 != k1 && k0 != k2 && k1 != k2 && k0 != k3 && k1 != k3 && k2 != k3);
    assert(e1[0] == e[1] && e2[0] == e[2] && e3[0] == e[3]);
    assert(lookup(e1, k1) == Some(JsonValueView::Str(fk)));
    assert(lookup(e, k1) == Some(JsonValueView::Str(fk)));
    assert(lookup(e2, k2) == Some(JsonValueView::Str(operator_key(c.operator))));
    assert(lookup(e1, k2) == lookup(e2, k2));
    assert(lookup(e, k2) == Some(JsonValueView::Str(operator_key(c.operator))));
    assert(lookup(e3, k3) == Some(form_number_spec(c.value)));
    assert(lookup(e2, k3) == lookup(e3, k3));
    assert(lookup(e1, k3) == lookup(e2, k3));
    assert(lookup(e, k3) == Some(form_number_spec(c.value)));
    assert(c.repo.len() > 0);
    if c.operator == ConditionOperator::Between {
        let k4 = "value_end_"@ + fk;
        assert(k4.len() == 10 + fk.len());
        assert(e.len() == 5);
        assert(e[4].0 == k4);
        let e4 = e3.drop_first();
        assert(e4[0] == e[4]);
        assert(k4 != k0 && k4 != k1 && k4 != k2 && k4 != k3);
        assert(lookup(e4, k4) == Some(form_number_spec(c.value_end->0)));
        assert(lookup(e3, k4) == lookup(e4, k4));
        assert(lookup(e2, k4) == lookup(e3, k4));
        assert(lookup(e1, k4) == lookup(e2, k4));
        assert(lookup(e, k4) == Some(form_number_spec(c.value_end->0)));
    }
}

/// Law: whatever form an admin submits, the condition it is accepted as is
/// one the form can show, and showing it and submitting that unchanged
/// gives the same condition again.
pub proof fn lemma_accepted_form_is_stable(cfg: Seq<(Seq<char>, JsonValueView)>)
    requires
        parse_config_spec(cfg) is Ok,
    ensures
        is_form_condition(parse_config_spec(cfg)->Ok_0),
        parse_config_spec(config_values_spec(seq![parse_config_spec(cfg)->Ok_0])) == parse_config_spec(cfg),
{
    reveal_strlit("repo");
    reveal_strlit("");
    lemma_trim_idempotent(str_or(lookup(cfg, "repo"@), ""@));
    lemma_form_roundtrip(parse_config_spec(cfg)->Ok_0);
}

} // verus!
