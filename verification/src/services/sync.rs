//! Role synchronisation: which role assignments to add or remove for a
//! player, and the SQL that selects the qualifying members of a role link.
use vstd::prelude::*;
use crate::models::condition::{
    Condition, ConditionOperator, ConditionView, field_column, operator_sql,
};
use crate::services::condition_eval::{
    condition_holds, evaluate_condition, evaluate_condition_zero, range_end, stat_of, threshold,
};
use crate::services::github::{ContributorStats, zero_stats};
use crate::strings::{nat_text, owned, str_eq, usize_text};

verus! {

/// Something that calls for a player's roles to be re-evaluated.
#[derive(Debug, Clone)]
pub enum PlayerSyncEvent {
    PlayerUpdated { discord_id: String },
    AccountLinked { discord_id: String },
    AccountUnlinked { discord_id: String },
}

/// A role link whose configuration changed.
#[derive(Debug, Clone)]
pub struct ConfigSyncEvent {
    pub guild_id: String,
    pub role_id: String,
}

// ---------------------------------------------------------------------------
// SQL filtering of qualifying members
// ---------------------------------------------------------------------------

/// A value bound to a placeholder of a condition query.
pub enum ConditionBind {
    Int(i64),
    Text(String),
}

/// The mathematical value of a [`ConditionBind`].
pub enum BindView {
    Int(i64),
    Text(Seq<char>),
}

impl View for ConditionBind {
    type V = BindView;

    open spec fn view(&self) -> BindView {
        match self {
            ConditionBind::Int(n) => BindView::Int(*n),
            ConditionBind::Text(t) => BindView::Text(t@),
        }
    }
}

/// The mathematical values of a list of binds.
pub open spec fn binds_view(b: Seq<ConditionBind>) -> Seq<BindView> {
    b.map_values(|x: ConditionBind| x@)
}

/// The mathematical values of a list of strings.
pub open spec fn texts_view(s: Seq<String>) -> Seq<Seq<char>> {
    s.map_values(|x: String| x@)
}

/// The member's count of the metric in column `col` for the repository
/// bound to placeholder `k`, read as 0 when the member has no row for it.
pub open spec fn member_metric(col: Seq<char>, k: nat) -> Seq<char> {
    "COALESCE((SELECT MAX("@ + col + ") FROM repo_contributors rc WHERE rc.repo_full_name = $"@
        + nat_text(k) + " AND LOWER(rc.github_username) = LOWER(la.github_username)), 0)"@
}

/// The SQL clause and binds for one condition, whose placeholders are
/// numbered after the `n` binds before it: the member's count of the
/// condition's metric in its repository (0 without a row), compared with
/// the threshold (`BETWEEN` the threshold and the end for `between`).
pub open spec fn condition_sql(c: ConditionView, n: nat) -> (Seq<Seq<char>>, Seq<BindView>) {
    let lhs = member_metric(field_column(c.field), n + 1) + " "@ + operator_sql(c.operator) + " $"@
        + nat_text(n + 2);
    let val = threshold(c) as i64;
    if c.operator == ConditionOperator::Between {
        (
            seq![lhs + " AND $"@ + nat_text(n + 3)],
            seq![BindView::Text(c.repo), BindView::Int(val), BindView::Int(range_end(c) as i64)],
        )
    } else {
        (seq![lhs], seq![BindView::Text(c.repo), BindView::Int(val)])
    }
}

/// The clauses and binds for a list of conditions, in order.
pub open spec fn conditions_sql(cs: Seq<ConditionView>) -> (Seq<Seq<char>>, Seq<BindView>)
    decreases cs.len(),
{
    if cs.len() == 0 {
        (Seq::empty(), Seq::empty())
    } else {
        let (cl, b) = conditions_sql(cs.drop_last());
        let (c2, b2) = condition_sql(cs.last(), b.len());
        (cl + c2, b + b2)
    }
}

/// Clauses joined with ` AND `.
pub open spec fn join_and(s: Seq<Seq<char>>) -> Seq<char>
    decreases s.len(),
{
    if s.len() == 0 {
        Seq::empty()
    } else if s.len() == 1 {
        s[0]
    } else {
        join_and(s.drop_last()) + " AND "@ + s.last()
    }
}

/// The WHERE condition that selects rows meeting every condition, with its
/// binds; `TRUE` when there is no condition.
pub open spec fn condition_where_spec(cs: Seq<ConditionView>) -> (Seq<char>, Seq<BindView>) {
    if cs.len() == 0 {
        ("TRUE"@, Seq::empty())
    } else {
        (join_and(conditions_sql(cs).0), conditions_sql(cs).1)
    }
}

/// The mathematical values of a list of conditions.
pub open spec fn conditions_view(cs: Seq<Condition>) -> Seq<ConditionView> {
    cs.map_values(|c: Condition| c@)
}

fn threshold_exec(c: &Condition) -> (res: i64)
    ensures
        res == threshold(c@),
{
    match c.value.as_i64() {
        Some(n) => n,
        None => 0,
    }
}

fn range_end_exec(c: &Condition) -> (res: i64)
    ensures
        res == range_end(c@),
{
    let val = threshold_exec(c);
    match &c.value_end {
        Some(v) => match v.as_i64() {
            Some(e) => e,
            None => val,
        },
        None => val,
    }
}

fn join_clauses(clauses: &[String]) -> (res: String)
    ensures
        res@ == join_and(texts_view(clauses@)),
{
    let ghost cs = texts_view(clauses@);
    let mut out = String::new();
    let mut i: usize = 0;
    while i < clauses.len()
        invariant
            i <= clauses@.len(),
            cs == texts_view(clauses@),
            out@ == join_and(cs.subrange(0, i as int)),
        decreases clauses@.len() - i,
    {
        let ghost nxt = cs.subrange(0, i + 1);
        assert(nxt.drop_last() == cs.subrange(0, i as int));
        assert(nxt.last() == clauses@[i as int]@);
        if i > 0 {
            out.append(" AND ");
        }
        out.append(clauses[i].as_str());
        proof {
            if i == 0 {
                assert(out@ =~= join_and(nxt));
            }
        }
        i = i + 1;
    }
    assert(cs.subrange(0, clauses@.len() as int) == cs);
    out
}

/// The SQL WHERE condition for `conditions` on a member `la` of
/// `linked_accounts` (a member without a contributor row for a condition's
/// repository counts 0 for it), with the values for its placeholders `$1`,
/// `$2`, ... in order.
pub fn build_condition_where(conditions: &[Condition]) -> (res: (String, Vec<ConditionBind>))
    requires
        3 * conditions@.len() + 3 <= usize::MAX,
    ensures
        res.1@.len() <= 3 * conditions@.len(),
        (res.0@, binds_view(res.1@)) == condition_where_spec(conditions_view(conditions@)),
{
    let ghost cs = conditions_view(conditions@);
    if conditions.len() == 0 {
        return (owned("TRUE"), Vec::new());
    }
    let mut clauses: Vec<String> = Vec::new();
    let mut binds: Vec<ConditionBind> = Vec::new();
    let mut i: usize = 0;
    while i < conditions.len()
        invariant
            i <= conditions@.len(),
            cs == conditions_view(conditions@),
            (texts_view(clauses@), binds_view(binds@)) == conditions_sql(cs.subrange(0, i as int)),
            binds@.len() <= 3 * i,
            3 * conditions@.len() + 3 <= usize::MAX,
        decreases conditions@.len() - i,
    {
        let ghost pre = cs.subrange(0, i as int);
        let ghost nxt = cs.subrange(0, i + 1);
        assert(nxt.drop_last() == pre);
        assert(nxt.last() == conditions@[i as int]@);
        let ghost old_clauses = texts_view(clauses@);
        let ghost old_binds = binds_view(binds@);
        let condition = &conditions[i];
        let n = binds.len();
        let col = condition.field.sql_column();
        let mut clause = owned("COALESCE((SELECT MAX(");
        clause.append(col);
        clause.append(") FROM repo_contributors rc WHERE rc.repo_full_name = $");
        clause.append(usize_text(n + 1).as_str());
        clause.append(" AND LOWER(rc.github_username) = LOWER(la.github_username)), 0)");
        clause.append(" ");
        clause.append(condition.operator.sql_operator());
        clause.append(" $");
        clause.append(usize_text(n + 2).as_str());
        let ghost c = conditions@[i as int]@;
        assert(clause@ =~= member_metric(field_column(c.field), (n + 1) as nat) + " "@ + operator_sql(
            c.operator,
        ) + " $"@ + nat_text((n + 2) as nat));
        binds.push(ConditionBind::Text(condition.repo.clone()));
        let val = threshold_exec(condition);
        binds.push(ConditionBind::Int(val));
        if condition.operator == ConditionOperator::Between {
            let end = range_end_exec(condition);
            clause.append(" AND $");
            clause.append(usize_text(n + 3).as_str());
            binds.push(ConditionBind::Int(end));
        }
        assert(clause@ =~= condition_sql(conditions@[i as int]@, n as nat).0[0]);
        clauses.push(clause);
        proof {
            let (c2, b2) = condition_sql(conditions@[i as int]@, n as nat);
            assert(texts_view(clauses@) =~= old_clauses + c2);
            assert(binds_view(binds@) =~= old_binds + b2);
        }
        i = i + 1;
    }
    assert(cs.subrange(0, conditions@.len() as int) == cs);
    let clause = join_clauses(clauses.as_slice());
    (clause, binds)
}

/// The member query and the count query of a role link.
pub struct RoleLinkQueries {
    /// Selects the Discord IDs of qualifying members, oldest link first,
    /// up to a limit.
    pub select: String,
    /// Counts all qualifying members.
    pub count: String,
    /// Values of the placeholders of the condition, `$1` onward; the member
    /// list follows at the next placeholder and the limit after it.
    pub binds: Vec<ConditionBind>,
}

/// The member query of a role link, for a WHERE condition with `n` binds.
pub open spec fn select_query(where_clause: Seq<char>, n: nat) -> Seq<char> {
    "SELECT la.discord_id FROM linked_accounts la WHERE la.discord_id = ANY($"@
        + nat_text(n + 1) + "::text[]) AND ("@ + where_clause + ") ORDER BY la.linked_at ASC LIMIT $"@
        + nat_text(n + 2)
}

/// The count query of a role link, for a WHERE condition with `n` binds.
pub open spec fn count_query(where_clause: Seq<char>, n: nat) -> Seq<char> {
    "SELECT COUNT(*) FROM linked_accounts la WHERE la.discord_id = ANY($"@
        + nat_text(n + 1) + "::text[]) AND ("@ + where_clause + ")"@
}

/// The queries that select, and count, the members of a guild who meet
/// every condition of a role link.
pub fn role_link_queries(conditions: &[Condition]) -> (res: RoleLinkQueries)
    requires
        3 * conditions@.len() + 3 <= usize::MAX,
    ensures
        ({
            let (w, b) = condition_where_spec(conditions_view(conditions@));
            &&& binds_view(res.binds@) == b
            &&& res.select@ == select_query(w, b.len())
            &&& res.count@ == count_query(w, b.len())
        }),
{
    let (where_clause, binds) = build_condition_where(conditions);
    let n = binds.len();
    let members = usize_text(n + 1);
    let limit = usize_text(n + 2);
    let mut select = owned(
        "SELECT la.discord_id FROM linked_accounts la WHERE la.discord_id = ANY($",
    );
    select.append(members.as_str());
    select.append("::text[]) AND (");
    select.append(where_clause.as_str());
    select.append(") ORDER BY la.linked_at ASC LIMIT $");
    select.append(limit.as_str());
    let mut count = owned(
        "SELECT COUNT(*) FROM linked_accounts la WHERE la.discord_id = ANY($",
    );
    count.append(members.as_str());
    count.append("::text[]) AND (");
    count.append(where_clause.as_str());
    count.append(")");
    RoleLinkQueries { select, count, binds }
}

/// Whether the member query may have been cut short by the role's user
/// limit, so that the qualifying members are worth counting.
pub fn limit_may_be_exceeded(qualifying: usize, user_limit: usize) -> (res: bool)
    ensures
        res == (qualifying != 0 && qualifying == user_limit),
{
    qualifying != 0 && qualifying == user_limit
}

// ---------------------------------------------------------------------------
// Role assignments of one player
// ---------------------------------------------------------------------------

/// A role link in a guild the player belongs to, with the first condition
/// of the link (if any) and the player's statistics in that condition's
/// repository (if recorded).
pub struct PlayerLink {
    pub guild_id: String,
    pub role_id: String,
    pub api_token: String,
    pub condition: Option<Condition>,
    pub stats: Option<ContributorStats>,
}

/// The mathematical value of a [`PlayerLink`].
pub struct PlayerLinkView {
    pub guild_id: Seq<char>,
    pub role_id: Seq<char>,
    pub api_token: Seq<char>,
    pub condition: Option<ConditionView>,
    pub stats: Option<ContributorStats>,
}

impl View for PlayerLink {
    type V = PlayerLinkView;

    open spec fn view(&self) -> PlayerLinkView {
        PlayerLinkView {
            guild_id: self.guild_id@,
            role_id: self.role_id@,
            api_token: self.api_token@,
            condition: match self.condition {
                Some(c) => Some(c@),
                None => None,
            },
            stats: self.stats,
        }
    }
}

/// A change to make to a player's role assignments through the RoleLogic API.
pub enum RoleAction {
    Add { guild_id: String, role_id: String, api_token: String },
    Remove { guild_id: String, role_id: String, api_token: String },
}

/// The mathematical value of a [`RoleAction`]: guild, role and API token.
pub enum RoleActionView {
    Add(Seq<char>, Seq<char>, Seq<char>),
    Remove(Seq<char>, Seq<char>, Seq<char>),
}

impl View for RoleAction {
    type V = RoleActionView;

    open spec fn view(&self) -> RoleActionView {
        match self {
            RoleAction::Add { guild_id, role_id, api_token } => RoleActionView::Add(
                guild_id@,
                role_id@,
                api_token@,
            ),
            RoleAction::Remove { guild_id, role_id, api_token } => RoleActionView::Remove(
                guild_id@,
                role_id@,
                api_token@,
            ),
        }
    }
}

/// The mathematical values of a list of links.
pub open spec fn links_view(s: Seq<PlayerLink>) -> Seq<PlayerLinkView> {
    s.map_values(|l: PlayerLink| l@)
}

/// The mathematical values of a list of actions.
pub open spec fn actions_view(s: Seq<RoleAction>) -> Seq<RoleActionView> {
    s.map_values(|a: RoleAction| a@)
}

/// The mathematical values of a list of (guild, role) assignments.
pub open spec fn pairs_view(s: Seq<(String, String)>) -> Seq<(Seq<char>, Seq<char>)> {
    s.map_values(|p: (String, String)| (p.0@, p.1@))
}

/// Whether the player meets the link's condition (all counts 0 without statistics).
pub open spec fn link_qualifies(l: PlayerLinkView) -> bool {
    condition_holds(
        l.condition->0,
        match l.stats {
            Some(s) => s,
            None => zero_stats(),
        },
    )
}

/// The change one link calls for: add the role when the player qualifies
/// and does not have it, remove it when the player has it and does not
/// qualify; nothing for a link without a condition.
pub open spec fn action_for(l: PlayerLinkView, assigned: Seq<(Seq<char>, Seq<char>)>) -> Seq<RoleActionView> {
    match l.condition {
        None => Seq::empty(),
        Some(_) => {
            let q = link_qualifies(l);
            let a = assigned.contains((l.guild_id, l.role_id));
            if q && !a {
                seq![RoleActionView::Add(l.guild_id, l.role_id, l.api_token)]
            } else if !q && a {
                seq![RoleActionView::Remove(l.guild_id, l.role_id, l.api_token)]
            } else {
                Seq::empty()
            }
        },
    }
}

/// The changes the links call for, in the order of the links.
pub open spec fn plan_spec(links: Seq<PlayerLinkView>, assigned: Seq<(Seq<char>, Seq<char>)>) -> Seq<RoleActionView>
    decreases links.len(),
{
    if links.len() == 0 {
        Seq::empty()
    } else {
        plan_spec(links.drop_last(), assigned) + action_for(links.last(), assigned)
    }
}

fn is_assigned(existing: &[(String, String)], guild_id: &str, role_id: &str) -> (res: bool)
    ensures
        res == pairs_view(existing@).contains((guild_id@, role_id@)),
{
    let ghost ps = pairs_view(existing@);
    let mut i: usize = 0;
    while i < existing.len()
        invariant
            i <= existing@.len(),
            ps == pairs_view(existing@),
            forall|j: int| 0 <= j < i ==> ps[j] != (guild_id@, role_id@),
        decreases existing@.len() - i,
    {
        if str_eq(existing[i].0.as_str(), guild_id) && str_eq(existing[i].1.as_str(), role_id) {
            assert(ps[i as int] == (guild_id@, role_id@));
            return true;
        }
        i = i + 1;
    }
    false
}

/// Which role assignments to add and remove for a player, given the role
/// links of the guilds they are in and the assignments they have.
pub fn plan_player_actions(links: &[PlayerLink], existing: &[(String, String)]) -> (res: Vec<RoleAction>)
    ensures
        actions_view(res@) == plan_spec(links_view(links@), pairs_view(existing@)),
{
    let ghost ls = links_view(links@);
    let ghost ex = pairs_view(existing@);
    let mut actions: Vec<RoleAction> = Vec::new();
    let mut i: usize = 0;
    while i < links.len()
        invariant
            i <= links@.len(),
            ls == links_view(links@),
            ex == pairs_view(existing@),
            actions_view(actions@) == plan_spec(ls.subrange(0, i as int), ex),
        decreases links@.len() - i,
    {
        let ghost nxt = ls.subrange(0, i + 1);
        assert(nxt.drop_last() == ls.subrange(0, i as int));
        assert(nxt.last() == links@[i as int]@);
        let ghost before = actions_view(actions@);
        let link = &links[i];
        match &link.condition {
            None => {
                assert(actions_view(actions@) =~= before + action_for(links@[i as int]@, ex));
            },
            Some(condition) => {
                let qualifies = match &link.stats {
                    Some(stats) => evaluate_condition(condition, stats),
                    None => evaluate_condition_zero(condition),
                };
                let assigned = is_assigned(existing, link.guild_id.as_str(), link.role_id.as_str());
                if qualifies && !assigned {
                    actions.push(
                        RoleAction::Add {
                            guild_id: link.guild_id.clone(),
                            role_id: link.role_id.clone(),
                            api_token: link.api_token.clone(),
                        },
                    );
                } else if !qualifies && assigned {
                    actions.push(
                        RoleAction::Remove {
                            guild_id: link.guild_id.clone(),
                            role_id: link.role_id.clone(),
                            api_token: link.api_token.clone(),
                        },
                    );
                }
                assert(actions_view(actions@) =~= before + action_for(links@[i as int]@, ex));
            },
        }
        i = i + 1;
    }
    assert(ls.subrange(0, links@.len() as int) == ls);
    actions
}

/// The (guild, role) an action is about.
pub open spec fn action_key(a: RoleActionView) -> (Seq<char>, Seq<char>) {
    match a {
        RoleActionView::Add(g, r, _) => (g, r),
        RoleActionView::Remove(g, r, _) => (g, r),
    }
}

/// The assignments after one action.
pub open spec fn apply_action(s: Set<(Seq<char>, Seq<char>)>, a: RoleActionView) -> Set<(Seq<char>, Seq<char>)> {
    match a {
        RoleActionView::Add(g, r, _) => s.insert((g, r)),
        RoleActionView::Remove(g, r, _) => s.remove((g, r)),
    }
}

/// The assignments after a list of actions, in order.
pub open spec fn apply_actions(s: Set<(Seq<char>, Seq<char>)>, acts: Seq<RoleActionView>) -> Set<(Seq<char>, Seq<char>)>
    decreases acts.len(),
{
    if acts.len() == 0 {
        s
    } else {
        apply_action(apply_actions(s, acts.drop_last()), acts.last())
    }
}

proof fn lemma_apply_concat(s: Set<(Seq<char>, Seq<char>)>, a: Seq<RoleActionView>, b: Seq<RoleActionView>)
    ensures
        apply_actions(s, a + b) == apply_actions(apply_actions(s, a), b),
    decreases b.len(),
{
    if b.len() == 0 {
        assert(a + b == a);
    } else {
        lemma_apply_concat(s, a, b.drop_last());
        assert((a + b).drop_last() == a + b.drop_last());
        assert((a + b).last() == b.last());
    }
}

proof fn lemma_plan_keys(links: Seq<PlayerLinkView>, assigned: Seq<(Seq<char>, Seq<char>)>, k: (Seq<char>, Seq<char>))
    requires
        forall|i: int| 0 <= i < links.len() ==> (links[i].guild_id, links[i].role_id) != k,
    ensures
        apply_actions(Set::new(|p| assigned.contains(p)), plan_spec(links, assigned)).contains(k)
            == assigned.contains(k),
    decreases links.len(),
{
    let s = Set::new(|p| assigned.contains(p));
    if links.len() > 0 {
        let l = links.drop_last();
        assert forall|i: int| 0 <= i < l.len() implies (l[i].guild_id, l[i].role_id) != k by {
            assert(l[i] == links[i]);
        }
        lemma_plan_keys(l, assigned, k);
        let a = action_for(links.last(), assigned);
        lemma_apply_concat(s, plan_spec(l, assigned), a);
        let before = apply_actions(s, plan_spec(l, assigned));
        if a.len() == 1 {
            assert(a.drop_last().len() == 0);
            assert(apply_actions(before, a.drop_last()) == before);
            assert(a.last() == a[0]);
            assert(action_key(a[0]) == (links.last().guild_id, links.last().role_id));
            assert(links.last() == links[links.len() - 1]);
            assert(apply_actions(before, a) == apply_action(before, a[0]));
        } else {
            assert(a.len() == 0);
            assert(apply_actions(before, a) == before);
        }
    }
}

/// Law: after the planned changes, a player has the role of each link with
/// a condition exactly when they meet that condition, and every other
/// assignment is as it was (the links being distinct (guild, role) pairs).
pub proof fn lemma_sync_matches_conditions(links: Seq<PlayerLinkView>, assigned: Seq<(Seq<char>, Seq<char>)>)
    requires
        forall|i: int, j: int|
            0 <= i < links.len() && 0 <= j < links.len() && i != j ==> (links[i].guild_id, links[i].role_id)
                != (links[j].guild_id, links[j].role_id),
    ensures
        forall|i: int|
            0 <= i < links.len() && links[i].condition is Some ==> apply_actions(
                Set::new(|p| assigned.contains(p)),
                plan_spec(links, assigned),
            ).contains((links[i].guild_id, links[i].role_id)) == link_qualifies(links[i]),
        forall|i: int|
            0 <= i < links.len() && links[i].condition is None ==> apply_actions(
                Set::new(|p| assigned.contains(p)),
                plan_spec(links, assigned),
            ).contains((links[i].guild_id, links[i].role_id)) == assigned.contains(
                (links[i].guild_id, links[i].role_id),
            ),
        forall|k: (Seq<char>, Seq<char>)|
            (forall|i: int| 0 <= i < links.len() ==> (links[i].guild_id, links[i].role_id) != k)
                ==> apply_actions(Set::new(|p| assigned.contains(p)), plan_spec(links, assigned)).contains(k)
                == assigned.contains(k),
    decreases links.len(),
{
    let s = Set::new(|p| assigned.contains(p));
    assert forall|k: (Seq<char>, Seq<char>)|
        (forall|i: int| 0 <= i < links.len() ==> (links[i].guild_id, links[i].role_id) != k)
            implies apply_actions(s, plan_spec(links, assigned)).contains(k) == assigned.contains(k) by {
        lemma_plan_keys(links, assigned, k);
    }
    if links.len() > 0 {
        let l = links.drop_last();
        let last = links.last();
        let n = links.len() - 1;
        assert forall|i: int, j: int|
            0 <= i < l.len() && 0 <= j < l.len() && i != j implies (l[i].guild_id, l[i].role_id) != (
                l[j].guild_id,
                l[j].role_id,
            ) by {
            assert(l[i] == links[i] && l[j] == links[j]);
        }
        lemma_sync_matches_conditions(l, assigned);
        let a = action_for(last, assigned);
        lemma_apply_concat(s, plan_spec(l, assigned), a);
        let before = apply_actions(s, plan_spec(l, assigned));
        let after = apply_actions(s, plan_spec(links, assigned));
        assert(after == apply_actions(before, a));
        if a.len() == 1 {
            assert(a.drop_last().len() == 0);
            assert(apply_actions(before, a.drop_last()) == before);
            assert(a.last() == a[0]);
            assert(after == apply_action(before, a[0]));
        } else {
            assert(a.len() == 0);
            assert(after == before);
        }
        let klast = (last.guild_id, last.role_id);
        assert forall|i: int| 0 <= i < l.len() implies (l[i].guild_id, l[i].role_id) != klast by {
            assert(l[i] == links[i]);
            assert(links[n] == last);
        }
        lemma_plan_keys(l, assigned, klast);
        assert forall|i: int|
            0 <= i < links.len() implies after.contains((links[i].guild_id, links[i].role_id)) == (
            if links[i].condition is Some {
                link_qualifies(links[i])
            } else {
                assigned.contains((links[i].guild_id, links[i].role_id))
            }) by {
            if i < n {
                assert(l[i] == links[i]);
                assert((links[i].guild_id, links[i].role_id) != klast);
            } else {
                assert(links[i] == last);
            }
        }
    }
}

proof fn lemma_plan_settled(links: Seq<PlayerLinkView>, assigned: Seq<(Seq<char>, Seq<char>)>)
    requires
        forall|i: int|
            0 <= i < links.len() && links[i].condition is Some ==> assigned.contains(
                (links[i].guild_id, links[i].role_id),
            ) == link_qualifies(links[i]),
    ensures
        plan_spec(links, assigned) == Seq::<RoleActionView>::empty(),
    decreases links.len(),
{
    if links.len() > 0 {
        let l = links.drop_last();
        assert forall|i: int|
            0 <= i < l.len() && l[i].condition is Some implies assigned.contains(
                (l[i].guild_id, l[i].role_id),
            ) == link_qualifies(l[i]) by {
            assert(l[i] == links[i]);
        }
        lemma_plan_settled(l, assigned);
        let n = links.len() - 1;
        assert(links.last() == links[n]);
        assert(action_for(links.last(), assigned) == Seq::<RoleActionView>::empty());
        assert(plan_spec(links, assigned) =~= Seq::<RoleActionView>::empty());
    }
}

/// Law: once the planned changes are made, planning again for the same
/// links and statistics calls for no change (the links being distinct
/// (guild, role) pairs).
pub proof fn lemma_sync_is_idempotent(
    links: Seq<PlayerLinkView>,
    assigned: Seq<(Seq<char>, Seq<char>)>,
    after: Seq<(Seq<char>, Seq<char>)>,
)
    requires
        forall|i: int, j: int|
            0 <= i < links.len() && 0 <= j < links.len() && i != j ==> (links[i].guild_id, links[i].role_id)
                != (links[j].guild_id, links[j].role_id),
        forall|p: (Seq<char>, Seq<char>)|
            #[trigger] after.contains(p) == apply_actions(
                Set::new(|q| assigned.contains(q)),
                plan_spec(links, assigned),
            ).contains(p),
    ensures
        plan_spec(links, after) == Seq::<RoleActionView>::empty(),
{
    lemma_sync_matches_conditions(links, assigned);
    assert forall|i: int|
        0 <= i < links.len() && links[i].condition is Some implies after.contains(
            (links[i].guild_id, links[i].role_id),
        ) == link_qualifies(links[i]) by {
        assert(after.contains((links[i].guild_id, links[i].role_id)) == apply_actions(
            Set::new(|q| assigned.contains(q)),
            plan_spec(links, assigned),
        ).contains((links[i].guild_id, links[i].role_id)));
    }
    lemma_plan_settled(links, after);
}

/// How many binds conditions take: the repository and the threshold each,
/// and the end of the range for `between`.
pub open spec fn bind_count(cs: Seq<ConditionView>) -> nat
    decreases cs.len(),
{
    if cs.len() == 0 {
        0
    } else {
        bind_count(cs.drop_last()) + if cs.last().operator == ConditionOperator::Between {
            3nat
        } else {
            2nat
        }
    }
}

/// Two lists of conditions with the same metric and comparison at each place.
pub open spec fn same_shape(a: Seq<ConditionView>, b: Seq<ConditionView>) -> bool {
    &&& a.len() == b.len()
    &&& forall|i: int| 0 <= i < a.len() ==> a[i].field == b[i].field && a[i].operator == b[i].operator
}

proof fn lemma_conditions_sql_shape(a: Seq<ConditionView>, b: Seq<ConditionView>)
    requires
        same_shape(a, b),
    ensures
        conditions_sql(a).0 == conditions_sql(b).0,
        conditions_sql(a).0.len() == a.len(),
        conditions_sql(a).1.len() == bind_count(a),
        bind_count(a) == bind_count(b),
    decreases a.len(),
{
    if a.len() > 0 {
        let n = a.len() - 1;
        assert(a.last() == a[n] && b.last() == b[n]);
        assert forall|i: int| 0 <= i < a.drop_last().len() implies a.drop_last()[i].field
            == b.drop_last()[i].field && a.drop_last()[i].operator == b.drop_last()[i].operator by {
            assert(a.drop_last()[i] == a[i] && b.drop_last()[i] == b[i]);
        }
        lemma_conditions_sql_shape(a.drop_last(), b.drop_last());
        lemma_conditions_sql_shape(b.drop_last(), b.drop_last());
        let k = bind_count(a.drop_last());
        assert(conditions_sql(a.drop_last()).1.len() == k);
        assert(condition_sql(a.last(), k).0 == condition_sql(b.last(), k).0);
        assert(conditions_sql(a).0 == conditions_sql(a.drop_last()).0 + condition_sql(a.last(), k).0);
        assert(conditions_sql(b).0 == conditions_sql(b.drop_last()).0 + condition_sql(b.last(), k).0);
    }
}

proof fn lemma_conditions_sql_parts(a: Seq<ConditionView>, i: int)
    requires
        0 <= i < a.len(),
    ensures
        conditions_sql(a).0.len() == a.len(),
        conditions_sql(a).1.len() == bind_count(a),
        bind_count(a.take(i)) <= bind_count(a.take(i + 1)) <= bind_count(a),
        conditions_sql(a).0.subrange(i, i + 1) == condition_sql(a[i], bind_count(a.take(i))).0,
        conditions_sql(a).1.subrange(bind_count(a.take(i)) as int, bind_count(a.take(i + 1)) as int)
            == condition_sql(a[i], bind_count(a.take(i))).1,
    decreases a.len(),
{
    lemma_conditions_sql_shape(a, a);
    let l = a.drop_last();
    let n = a.len() - 1;
    if i < n {
        lemma_conditions_sql_parts(l, i);
        assert(l.take(i) == a.take(i));
        assert(l.take(i + 1) == a.take(i + 1));
        assert(l[i] == a[i]);
        lemma_conditions_sql_shape(l, l);
        let (c2, b2) = condition_sql(a.last(), bind_count(l));
        assert(conditions_sql(a).0 == conditions_sql(l).0 + c2);
        assert(conditions_sql(a).0.subrange(i, i + 1) == conditions_sql(l).0.subrange(i, i + 1));
        assert(conditions_sql(a).1.subrange(bind_count(a.take(i)) as int, bind_count(a.take(i + 1)) as int)
            == conditions_sql(l).1.subrange(bind_count(a.take(i)) as int, bind_count(a.take(i + 1)) as int));
    } else {
        assert(a.take(i) == l);
        assert(a.take(i + 1) == a);
        assert(a.last() == a[i]);
        lemma_conditions_sql_shape(l, l);
    }
}

/// Law: the WHERE condition's text depends only on the metric and the
/// comparison of each condition (repositories and thresholds reach the
/// query only as binds); there are two binds per condition and a third for
/// `between`; and the clauses and binds of the `i`-th condition come in
/// order after those of the conditions before it, its placeholders numbered
/// from one more than their bind count, so that `$1` up to the last
/// placeholder are used in increasing order.
pub proof fn lemma_condition_where_shape(a: Seq<ConditionView>, b: Seq<ConditionView>, i: int)
    requires
        same_shape(a, b),
        0 <= i < a.len(),
    ensures
        condition_where_spec(a).0 == condition_where_spec(b).0,
        condition_where_spec(a).1.len() == bind_count(a),
        conditions_sql(a).0.subrange(i, i + 1) == condition_sql(a[i], bind_count(a.take(i))).0,
        conditions_sql(a).1.subrange(bind_count(a.take(i)) as int, bind_count(a.take(i + 1)) as int)
            == condition_sql(a[i], bind_count(a.take(i))).1,
        condition_where_spec(a).0 == join_and(conditions_sql(a).0),
{
    lemma_conditions_sql_shape(a, b);
    lemma_conditions_sql_parts(a, i);
}

/// What SQL's comparison `x op a` means (`x BETWEEN a AND b` for `BETWEEN`).
pub open spec fn sql_comparison_holds(op: Seq<char>, x: int, a: int, b: int) -> bool {
    if op == "="@ {
        x == a
    } else if op == ">"@ {
        x > a
    } else if op == ">="@ {
        x >= a
    } else if op == "<"@ {
        x < a
    } else if op == "<="@ {
        x <= a
    } else if op == "BETWEEN"@ {
        a <= x && x <= b
    } else {
        false
    }
}

/// Law: the clause of a condition compares the member's count of the
/// condition's metric in the condition's repository, read as 0 when the
/// member has no row there (`stats` is `None`), with the threshold (and the
/// end of the range for `between`), which are its binds after the
/// repository; under SQL's meaning of the comparison it holds exactly when
/// the condition holds for the member's statistics, all 0 without a row:
/// the test `evaluate_condition` and `evaluate_condition_zero` make.
pub proof fn lemma_condition_sql_meaning(c: ConditionView, n: nat, stats: Option<ContributorStats>)
    ensures
        ({
            let (cl, b) = condition_sql(c, n);
            let s = match stats {
                Some(s) => s,
                None => zero_stats(),
            };
            let lhs = member_metric(field_column(c.field), n + 1) + " "@ + operator_sql(c.operator)
                + " $"@ + nat_text(n + 2);
            &&& cl.len() == 1
            &&& cl[0] == if c.operator == ConditionOperator::Between {
                lhs + " AND $"@ + nat_text(n + 3)
            } else {
                lhs
            }
            &&& b[0] == BindView::Text(c.repo)
            &&& b[1] == BindView::Int(threshold(c) as i64)
            &&& c.operator == ConditionOperator::Between ==> b.len() == 3 && b[2] == BindView::Int(
                range_end(c) as i64,
            )
            &&& c.operator != ConditionOperator::Between ==> b.len() == 2
            &&& condition_holds(c, s) == sql_comparison_holds(
                operator_sql(c.operator),
                stat_of(c.field, s),
                threshold(c),
                range_end(c),
            )
        }),
{
    reveal_strlit("=");
    reveal_strlit(">");
    reveal_strlit(">=");
    reveal_strlit("<");
    reveal_strlit("<=");
    reveal_strlit("BETWEEN");
    assert("="@[0] == '=' && ">"@[0] == '>' && "<"@[0] == '<' && "BETWEEN"@[0] == 'B');
    assert(">="@.len() == 2 && "<="@.len() == 2 && "="@.len() == 1 && ">"@.len() == 1 && "<"@.len() == 1);
    assert(">="@[0] == '>' && "<="@[0] == '<');
    assert(threshold(c) as i64 == threshold(c));
    assert(range_end(c) as i64 == range_end(c));
}

/// Law: a player with recorded statistics qualifies for a link exactly when
/// the link's condition holds for those statistics; only a player with no
/// recorded statistics is judged as having every count at 0.
pub proof fn lemma_qualifying_uses_recorded_statistics(l: PlayerLinkView)
    requires
        l.condition is Some,
    ensures
        l.stats matches Some(s) ==> (link_qualifies(l) <==> condition_holds(l.condition->0, s)),
        l.stats is None ==> (link_qualifies(l) <==> condition_holds(l.condition->0, zero_stats())),
{
}

/// Law: for a single link with a condition and the player's recorded
/// statistics, the plan adds the role when the condition holds for them
/// and the player lacks the role, removes it when the condition fails and
/// the player has it, and changes nothing otherwise.
pub proof fn lemma_plan_for_one_link(l: PlayerLinkView, s: ContributorStats, assigned: Seq<(Seq<char>, Seq<char>)>)
    requires
        l.condition is Some,
        l.stats == Some(s),
    ensures
        ({
            let holds = condition_holds(l.condition->0, s);
            let held = assigned.contains((l.guild_id, l.role_id));
            plan_spec(seq![l], assigned) == if holds && !held {
                seq![RoleActionView::Add(l.guild_id, l.role_id, l.api_token)]
            } else if !holds && held {
                seq![RoleActionView::Remove(l.guild_id, l.role_id, l.api_token)]
            } else {
                Seq::<RoleActionView>::empty()
            }
        }),
{
    let one = seq![l];
    assert(one.drop_last() =~= Seq::<PlayerLinkView>::empty());
    assert(one.last() == l);
    assert(plan_spec(one.drop_last(), assigned) == Seq::<RoleActionView>::empty());
    assert(plan_spec(one, assigned) =~= action_for(l, assigned));
}

} // verus!
