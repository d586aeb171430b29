//! Role conditions: which contribution metric is compared, how, and with what.
use vstd::prelude::*;
use crate::strings::{parse_i64, parse_i64_spec, str_eq};

verus! {

/// The contribution metric a condition looks at.
#[derive(Debug, Clone, Copy, PartialEq, Eq, Structural)]
pub enum ConditionField {
    Commits,
    PullRequests,
    MergedPRs,
    Issues,
}

/// The comparison a condition applies.
#[derive(Debug, Clone, Copy, PartialEq, Eq, Structural)]
pub enum ConditionOperator {
    Eq,
    Gt,
    Gte,
    Lt,
    Lte,
    Between,
}

/// A JSON value as conditions and configuration forms carry it: an integer
/// that fits in an `i64`, another number (its JSON text), a string, or any
/// other JSON value (its JSON text).
#[derive(Debug, Clone, PartialEq, Eq)]
pub enum JsonValue {
    Int(i64),
    Number(String),
    Str(String),
    Other(String),
}

/// The mathematical value of a [`JsonValue`].
pub enum JsonValueView {
    Int(i64),
    Number(Seq<char>),
    Str(Seq<char>),
    Other(Seq<char>),
}

impl View for JsonValue {
    type V = JsonValueView;

    open spec fn view(&self) -> JsonValueView {
        match self {
            JsonValue::Int(n) => JsonValueView::Int(*n),
            JsonValue::Number(t) => JsonValueView::Number(t@),
            JsonValue::Str(s) => JsonValueView::Str(s@),
            JsonValue::Other(t) => JsonValueView::Other(t@),
        }
    }
}

impl JsonValueView {
    /// The integer the value holds, when it is an integer in the range of `i64`.
    pub open spec fn as_i64(self) -> Option<i64> {
        match self {
            JsonValueView::Int(n) => Some(n),
            _ => None,
        }
    }

    /// The text the value holds, when it is a string.
    pub open spec fn as_str(self) -> Option<Seq<char>> {
        match self {
            JsonValueView::Str(s) => Some(s),
            _ => None,
        }
    }

    /// Whether the value is a JSON number.
    pub open spec fn is_number(self) -> bool {
        self is Int || self is Number
    }

    /// Each number has one form: an integer in the range of `i64` is an
    /// `Int`, so a `Number` never holds the text of one.
    pub open spec fn wf(self) -> bool {
        self matches JsonValueView::Number(t) ==> parse_i64_spec(t) is None
    }
}

impl JsonValue {
    /// The value of a JSON number given by its text: `Int` when the text is
    /// an integer in the range of `i64`, `Number` otherwise.
    pub fn from_number_text(text: String) -> (res: JsonValue)
        ensures
            res@.wf(),
            match parse_i64_spec(text@) {
                Some(n) => res@ == JsonValueView::Int(n),
                None => res@ == JsonValueView::Number(text@),
            },
    {
        match parse_i64(text.as_str()) {
            Some(n) => JsonValue::Int(n),
            None => JsonValue::Number(text),
        }
    }

    /// The value as an `i64`, when it is an integer in range.
    pub fn as_i64(&self) -> (res: Option<i64>)
        ensures
            res == self@.as_i64(),
    {
        match self {
            JsonValue::Int(n) => Some(*n),
            _ => None,
        }
    }

    /// The value as a string, when it is a JSON string.
    pub fn as_str(&self) -> (res: Option<&str>)
        ensures
            match res {
                Some(s) => self@.as_str() == Some(s@),
                None => self@.as_str() is None,
            },
    {
        match self {
            JsonValue::Str(s) => Some(s.as_str()),
            _ => None,
        }
    }
}

/// A role condition on one repository.
#[derive(Debug, Clone)]
pub struct Condition {
    pub repo: String,
    pub field: ConditionField,
    pub operator: ConditionOperator,
    pub value: JsonValue,
    pub value_end: Option<JsonValue>,
}

/// The mathematical value of a [`Condition`].
pub struct ConditionView {
    pub repo: Seq<char>,
    pub field: ConditionField,
    pub operator: ConditionOperator,
    pub value: JsonValueView,
    pub value_end: Option<JsonValueView>,
}

impl View for Condition {
    type V = ConditionView;

    open spec fn view(&self) -> ConditionView {
        ConditionView {
            repo: self.repo@,
            field: self.field,
            operator: self.operator,
            value: self.value@,
            value_end: match self.value_end {
                Some(v) => Some(v@),
                None => None,
            },
        }
    }
}

/// The key of a field in configuration forms and JSON.
pub open spec fn field_key(f: ConditionField) -> Seq<char> {
    match f {
        ConditionField::Commits => "commits"@,
        ConditionField::PullRequests => "pullRequests"@,
        ConditionField::MergedPRs => "mergedPRs"@,
        ConditionField::Issues => "issues"@,
    }
}

/// The column of `repo_contributors` (aliased `rc`) that holds a field.
pub open spec fn field_column(f: ConditionField) -> Seq<char> {
    match f {
        ConditionField::Commits => "rc.commits"@,
        ConditionField::PullRequests => "rc.pull_requests"@,
        ConditionField::MergedPRs => "rc.merged_prs"@,
        ConditionField::Issues => "rc.issues"@,
    }
}

/// The field whose key is `k`, if any.
pub open spec fn field_from_key(k: Seq<char>) -> Option<ConditionField> {
    if k == "commits"@ {
        Some(ConditionField::Commits)
    } else if k == "pullRequests"@ {
        Some(ConditionField::PullRequests)
    } else if k == "mergedPRs"@ {
        Some(ConditionField::MergedPRs)
    } else if k == "issues"@ {
        Some(ConditionField::Issues)
    } else {
        None
    }
}

/// The key of an operator in configuration forms and JSON.
pub open spec fn operator_key(o: ConditionOperator) -> Seq<char> {
    match o {
        ConditionOperator::Eq => "eq"@,
        ConditionOperator::Gt => "gt"@,
        ConditionOperator::Gte => "gte"@,
        ConditionOperator::Lt => "lt"@,
        ConditionOperator::Lte => "lte"@,
        ConditionOperator::Between => "between"@,
    }
}

/// The SQL operator for an operator.
pub open spec fn operator_sql(o: ConditionOperator) -> Seq<char> {
    match o {
        ConditionOperator::Eq => "="@,
        ConditionOperator::Gt => ">"@,
        ConditionOperator::Gte => ">="@,
        ConditionOperator::Lt => "<"@,
        ConditionOperator::Lte => "<="@,
        ConditionOperator::Between => "BETWEEN"@,
    }
}

/// The operator whose key is `k`, if any.
pub open spec fn operator_from_key(k: Seq<char>) -> Option<ConditionOperator> {
    if k == "eq"@ {
        Some(ConditionOperator::Eq)
    } else if k == "gt"@ {
        Some(ConditionOperator::Gt)
    } else if k == "gte"@ {
        Some(ConditionOperator::Gte)
    } else if k == "lt"@ {
        Some(ConditionOperator::Lt)
    } else if k == "lte"@ {
        Some(ConditionOperator::Lte)
    } else if k == "between"@ {
        Some(ConditionOperator::Between)
    } else {
        None
    }
}

impl ConditionField {
    /// The key of this field in configuration forms and JSON.
    pub fn json_key(&self) -> (res: &'static str)
        ensures
            res@ == field_key(*self),
    {
        match self {
            ConditionField::Commits => "commits",
            ConditionField::PullRequests => "pullRequests",
            ConditionField::MergedPRs => "mergedPRs",
            ConditionField::Issues => "issues",
        }
    }

    /// The `repo_contributors` column holding this field.
    pub fn sql_column(&self) -> (res: &'static str)
        ensures
            res@ == field_column(*self),
    {
        match self {
            ConditionField::Commits => "rc.commits",
            ConditionField::PullRequests => "rc.pull_requests",
            ConditionField::MergedPRs => "rc.merged_prs",
            ConditionField::Issues => "rc.issues",
        }
    }

    /// The field whose key is `key`, if any.
    pub fn from_key(key: &str) -> (res: Option<ConditionField>)
        ensures
            res == field_from_key(key@),
    {
        if str_eq(key, "commits") {
            Some(ConditionField::Commits)
        } else if str_eq(key, "pullRequests") {
            Some(ConditionField::PullRequests)
        } else if str_eq(key, "mergedPRs") {
            Some(ConditionField::MergedPRs)
        } else if str_eq(key, "issues") {
            Some(ConditionField::Issues)
        } else {
            None
        }
    }
}

impl ConditionOperator {
    /// The operator whose key is `key`, if any.
    pub fn from_key(key: &str) -> (res: Option<ConditionOperator>)
        ensures
            res == operator_from_key(key@),
    {
        if str_eq(key, "eq") {
            Some(ConditionOperator::Eq)
        } else if str_eq(key, "gt") {
            Some(ConditionOperator::Gt)
        } else if str_eq(key, "gte") {
            Some(ConditionOperator::Gte)
        } else if str_eq(key, "lt") {
            Some(ConditionOperator::Lt)
        } else if str_eq(key, "lte") {
            Some(ConditionOperator::Lte)
        } else if str_eq(key, "between") {
            Some(ConditionOperator::Between)
        } else {
            None
        }
    }

    /// The key of this operator in configuration forms and JSON.
    pub fn key(&self) -> (res: &'static str)
        ensures
            res@ == operator_key(*self),
    {
        match self {
            ConditionOperator::Eq => "eq",
            ConditionOperator::Gt => "gt",
            ConditionOperator::Gte => "gte",
            ConditionOperator::Lt => "lt",
            ConditionOperator::Lte => "lte",
            ConditionOperator::Between => "between",
        }
    }

    /// The SQL comparison operator for this operator.
    pub fn sql_operator(&self) -> (res: &'static str)
        ensures
            res@ == operator_sql(*self),
    {
        match self {
            ConditionOperator::Eq => "=",
            ConditionOperator::Gt => ">",
            ConditionOperator::Gte => ">=",
            ConditionOperator::Lt => "<",
            ConditionOperator::Lte => "<=",
            ConditionOperator::Between => "BETWEEN",
        }
    }
}

/// Law: reading back the key of a field gives the field, and a key names
/// at most one field.
pub proof fn lemma_field_key_roundtrip(f: ConditionField, k: Seq<char>)
    ensures
        field_from_key(field_key(f)) == Some(f),
        field_from_key(k) == Some(f) ==> k == field_key(f),
{
    reveal_strlit("commits");
    reveal_strlit("pullRequests");
    reveal_strlit("mergedPRs");
    reveal_strlit("issues");
    assert("commits"@.len() == 7);
    assert("pullRequests"@.len() == 12);
    assert("mergedPRs"@.len() == 9);
    assert("issues"@.len() == 6);
}

/// Law: reading back the key of an operator gives the operator, and a key
/// names at most one operator.
pub proof fn lemma_operator_key_roundtrip(o: ConditionOperator, k: Seq<char>)
    ensures
        operator_from_key(operator_key(o)) == Some(o),
        operator_from_key(k) == Some(o) ==> k == operator_key(o),
{
    reveal_strlit("eq");
    reveal_strlit("gt");
    reveal_strlit("gte");
    reveal_strlit("lt");
    reveal_strlit("lte");
    reveal_strlit("between");
    assert("eq"@.len() == 2 && "gt"@.len() == 2 && "lt"@.len() == 2);
    assert("gte"@.len() == 3 && "lte"@.len() == 3 && "between"@.len() == 7);
    assert("eq"@[0] != "gt"@[0] && "eq"@[0] != "lt"@[0] && "gt"@[0] != "lt"@[0]);
    assert("gte"@[0] != "lte"@[0]);
}

/// Law: each key of the configuration form names the comparison its text
/// says: `eq` is equality, `gt` greater than, `gte` at least, `lt` less
/// than, `lte` at most and `between` a range; each metric key names the
/// metric its text says, kept in the column of the same name.
pub proof fn lemma_keys_name_their_meaning()
    ensures
        operator_from_key("eq"@) == Some(ConditionOperator::Eq) && operator_sql(ConditionOperator::Eq) == "="@,
        operator_from_key("gt"@) == Some(ConditionOperator::Gt) && operator_sql(ConditionOperator::Gt) == ">"@,
        operator_from_key("gte"@) == Some(ConditionOperator::Gte) && operator_sql(ConditionOperator::Gte) == ">="@,
        operator_from_key("lt"@) == Some(ConditionOperator::Lt) && operator_sql(ConditionOperator::Lt) == "<"@,
        operator_from_key("lte"@) == Some(ConditionOperator::Lte) && operator_sql(ConditionOperator::Lte) == "<="@,
        operator_from_key("between"@) == Some(ConditionOperator::Between) && operator_sql(
            ConditionOperator::Between,
        ) == "BETWEEN"@,
        operator_key(ConditionOperator::Eq) == "eq"@ && operator_key(ConditionOperator::Gt) == "gt"@
            && operator_key(ConditionOperator::Gte) == "gte"@ && operator_key(ConditionOperator::Lt)
            == "lt"@ && operator_key(ConditionOperator::Lte) == "lte"@ && operator_key(
            ConditionOperator::Between,
        ) == "between"@,
        field_from_key("commits"@) == Some(ConditionField::Commits) && field_column(ConditionField::Commits)
            == "rc.commits"@,
        field_from_key("pullRequests"@) == Some(ConditionField::PullRequests) && field_column(
            ConditionField::PullRequests,
        ) == "rc.pull_requests"@,
        field_from_key("mergedPRs"@) == Some(ConditionField::MergedPRs) && field_column(
            ConditionField::MergedPRs,
        ) == "rc.merged_prs"@,
        field_from_key("issues"@) == Some(ConditionField::Issues) && field_column(ConditionField::Issues)
            == "rc.issues"@,
{
    lemma_operator_key_roundtrip(ConditionOperator::Eq, "eq"@);
    lemma_operator_key_roundtrip(ConditionOperator::Gt, "gt"@);
    lemma_operator_key_roundtrip(ConditionOperator::Gte, "gte"@);
    lemma_operator_key_roundtrip(ConditionOperator::Lt, "lt"@);
    lemma_operator_key_roundtrip(ConditionOperator::Lte, "lte"@);
    lemma_operator_key_roundtrip(ConditionOperator::Between, "between"@);
    lemma_field_key_roundtrip(ConditionField::Commits, "commits"@);
    lemma_field_key_roundtrip(ConditionField::PullRequests, "pullRequests"@);
    lemma_field_key_roundtrip(ConditionField::MergedPRs, "mergedPRs"@);
    lemma_field_key_roundtrip(ConditionField::Issues, "issues"@);
}

} // verus!
