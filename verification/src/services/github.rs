//! GitHub contribution data: per-user statistics of a repository and how
//! they are aggregated from the pages of the REST API.
use vstd::prelude::*;
use crate::encoding::{lowercase_spec, to_lowercase};
use crate::error::GitHubError;
use crate::strings::{
    chars_of, concat3, contains_chars, owned, find_char_after, first_index_of, find_char, has_substring, str_contains, str_eq,
    string_from_range, trim, trim_bounds,
};

verus! {

/// Contribution counts of one user in one repository.
#[derive(Debug, Clone, Copy, PartialEq, Eq, Structural)]
pub struct ContributorStats {
    pub commits: i32,
    pub pull_requests: i32,
    pub merged_prs: i32,
    pub issues: i32,
}

/// Statistics with every count at zero.
pub open spec fn zero_stats() -> ContributorStats {
    ContributorStats { commits: 0, pull_requests: 0, merged_prs: 0, issues: 0 }
}

/// One more than `x`, wrapping around at `i32::MAX`.
pub open spec fn inc(x: i32) -> i32 {
    if x == i32::MAX {
        i32::MIN
    } else {
        (x + 1) as i32
    }
}

fn inc_exec(x: i32) -> (res: i32)
    ensures
        res == inc(x),
{
    if x == i32::MAX {
        i32::MIN
    } else {
        x + 1
    }
}

/// Per-user statistics of a repository, keyed by lowercase GitHub login.
pub struct Contributors {
    entries: Vec<(String, ContributorStats)>,
}

/// The keys of a list of entries are pairwise distinct.
pub open spec fn distinct_keys(s: Seq<(String, ContributorStats)>) -> bool {
    forall|i: int, j: int| 0 <= i < s.len() && 0 <= j < s.len() && i != j ==> s[i].0@ != s[j].0@
}

/// The map a list of entries with distinct keys stands for.
pub open spec fn entries_map(s: Seq<(String, ContributorStats)>) -> Map<Seq<char>, ContributorStats> {
    Map::new(
        |k: Seq<char>| exists|i: int| 0 <= i < s.len() && s[i].0@ == k,
        |k: Seq<char>| s[choose|i: int| 0 <= i < s.len() && s[i].0@ == k].1,
    )
}

proof fn lemma_entries_map_at(s: Seq<(String, ContributorStats)>, i: int)
    requires
        distinct_keys(s),
        0 <= i < s.len(),
    ensures
        entries_map(s).contains_key(s[i].0@),
        entries_map(s)[s[i].0@] == s[i].1,
{
    let k = s[i].0@;
    assert(exists|j: int| 0 <= j < s.len() && s[j].0@ == k);
    let w = choose|j: int| 0 <= j < s.len() && s[j].0@ == k;
    assert(w == i);
}

proof fn lemma_entries_map_update(s: Seq<(String, ContributorStats)>, i: int, v: ContributorStats)
    requires
        distinct_keys(s),
        0 <= i < s.len(),
    ensures
        distinct_keys(s.update(i, (s[i].0, v))),
        entries_map(s.update(i, (s[i].0, v))) == entries_map(s).insert(s[i].0@, v),
{
    let t = s.update(i, (s[i].0, v));
    let k = s[i].0@;
    assert forall|a: int, b: int| 0 <= a < t.len() && 0 <= b < t.len() && a != b implies t[a].0@
        != t[b].0@ by {
        assert(t[a].0@ == s[a].0@);
        assert(t[b].0@ == s[b].0@);
    }
    let m1 = entries_map(t);
    let m2 = entries_map(s).insert(k, v);
    assert forall|key: Seq<char>| m1.contains_key(key) <==> m2.contains_key(key) by {
        if m1.contains_key(key) {
            let j = choose|j: int| 0 <= j < t.len() && t[j].0@ == key;
            assert(s[j].0@ == key);
        }
        if m2.contains_key(key) && key != k {
            let j = choose|j: int| 0 <= j < s.len() && s[j].0@ == key;
            assert(t[j].0@ == key);
        }
        if key == k {
            assert(t[i].0@ == key);
        }
    }
    assert forall|key: Seq<char>| m1.contains_key(key) implies m1[key] == m2[key] by {
        let j = choose|j: int| 0 <= j < t.len() && t[j].0@ == key;
        lemma_entries_map_at(t, j);
        if j == i {
            assert(key == k);
        } else {
            assert(s[j].0@ == key);
            lemma_entries_map_at(s, j);
        }
    }
    assert(m1 =~= m2);
}

proof fn lemma_entries_map_push(s: Seq<(String, ContributorStats)>, key: String, v: ContributorStats)
    requires
        distinct_keys(s),
        !entries_map(s).contains_key(key@),
    ensures
        distinct_keys(s.push((key, v))),
        entries_map(s.push((key, v))) == entries_map(s).insert(key@, v),
{
    let t = s.push((key, v));
    assert forall|a: int| 0 <= a < s.len() implies s[a].0@ != key@ by {
        if s[a].0@ == key@ {
            assert(entries_map(s).contains_key(key@));
        }
    }
    assert forall|a: int, b: int| 0 <= a < t.len() && 0 <= b < t.len() && a != b implies t[a].0@
        != t[b].0@ by {
        if a < s.len() && b < s.len() {
            assert(t[a] == s[a] && t[b] == s[b]);
        } else if a < s.len() {
            assert(t[a] == s[a]);
        } else {
            assert(t[b] == s[b]);
        }
    }
    let m1 = entries_map(t);
    let m2 = entries_map(s).insert(key@, v);
    assert forall|k: Seq<char>| m1.contains_key(k) <==> m2.contains_key(k) by {
        if m1.contains_key(k) && k != key@ {
            let j = choose|j: int| 0 <= j < t.len() && t[j].0@ == k;
            assert(j < s.len());
            assert(s[j].0@ == k);
        }
        if m2.contains_key(k) && k != key@ {
            let j = choose|j: int| 0 <= j < s.len() && s[j].0@ == k;
            assert(t[j].0@ == k);
        }
        if k == key@ {
            assert(t[s.len() as int].0@ == k);
        }
    }
    assert forall|k: Seq<char>| m1.contains_key(k) implies m1[k] == m2[k] by {
        let j = choose|j: int| 0 <= j < t.len() && t[j].0@ == k;
        lemma_entries_map_at(t, j);
        if j < s.len() {
            assert(s[j] == t[j]);
            lemma_entries_map_at(s, j);
        }
    }
    assert(m1 =~= m2);
}

/// The statistics recorded for `login`, or all zeros.
pub open spec fn stats_or_zero(m: Map<Seq<char>, ContributorStats>, login: Seq<char>) -> ContributorStats {
    if m.contains_key(login) {
        m[login]
    } else {
        zero_stats()
    }
}

impl Contributors {
    /// The per-user statistics, keyed by lowercase login.
    pub closed spec fn view(&self) -> Map<Seq<char>, ContributorStats> {
        entries_map(self.entries@)
    }

    /// Internal consistency: no login appears twice.
    pub closed spec fn wf(&self) -> bool {
        distinct_keys(self.entries@)
    }

    /// No statistics at all.
    pub fn new() -> (res: Contributors)
        ensures
            res.wf(),
            res.view() == Map::<Seq<char>, ContributorStats>::empty(),
    {
        let res = Contributors { entries: Vec::new() };
        assert(res.view() =~= Map::<Seq<char>, ContributorStats>::empty());
        res
    }

    /// The number of users with statistics.
    pub fn len(&self) -> (res: usize)
        requires
            self.wf(),
        ensures
            res == self.view().len(),
    {
        proof {
            self.lemma_len();
        }
        self.entries.len()
    }

    proof fn lemma_len(&self)
        requires
            self.wf(),
        ensures
            self.view().dom().finite(),
            self.view().len() == self.entries@.len(),
    {
        let s = self.entries@;
        let f = |i: int| s[i].0@;
        let idx = Set::new(|i: int| 0 <= i < s.len());
        assert(idx =~= vstd::set_lib::set_int_range(0, s.len() as int));
        vstd::set_lib::lemma_int_range(0, s.len() as int);
        assert forall|k: Seq<char>| self.view().dom().contains(k) <==> idx.map(f).contains(k) by {
            if self.view().dom().contains(k) {
                let i = choose|i: int| 0 <= i < s.len() && s[i].0@ == k;
                assert(idx.contains(i) && f(i) == k);
            }
            if idx.map(f).contains(k) {
                let i = choose|i: int| idx.contains(i) && f(i) == k;
                assert(0 <= i < s.len() && s[i].0@ == k);
            }
        }
        assert(self.view().dom() =~= idx.map(f));
        assert forall|a: int, b: int| idx.contains(a) && idx.contains(b) && f(a) == f(b) implies a
            == b by {}
        vstd::set_lib::lemma_map_size(idx, idx.map(f), f);
    }

    /// The entries, one per user, in the order they were first recorded.
    pub closed spec fn entries_seq(&self) -> Seq<(String, ContributorStats)> {
        self.entries@
    }

    /// The entries, one per user.
    pub fn entries(&self) -> (res: &[(String, ContributorStats)])
        requires
            self.wf(),
        ensures
            res@ == self.entries_seq(),
            distinct_keys(res@),
            entries_map(res@) == self.view(),
    {
        self.entries.as_slice()
    }

    fn position(&self, key: &str) -> (res: Option<usize>)
        requires
            self.wf(),
        ensures
            match res {
                Some(i) => i < self.entries@.len() && self.entries@[i as int].0@ == key@,
                None => !self.view().contains_key(key@),
            },
    {
        let mut i: usize = 0;
        while i < self.entries.len()
            invariant
                i <= self.entries@.len(),
                forall|j: int| 0 <= j < i ==> self.entries@[j].0@ != key@,
            decreases self.entries@.len() - i,
        {
            if str_eq(self.entries[i].0.as_str(), key) {
                return Some(i);
            }
            i = i + 1;
        }
        None
    }

    /// The statistics of `key`, or all zeros when the user has none.
    pub fn get_or_zero(&self, key: &str) -> (res: ContributorStats)
        requires
            self.wf(),
        ensures
            res == stats_or_zero(self.view(), key@),
    {
        match self.position(key) {
            Some(i) => {
                proof {
                    lemma_entries_map_at(self.entries@, i as int);
                }
                self.entries[i].1
            },
            None => ContributorStats { commits: 0, pull_requests: 0, merged_prs: 0, issues: 0 },
        }
    }

    /// Records `stats` for `key`, replacing what was there.
    pub fn set(&mut self, key: String, stats: ContributorStats)
        requires
            old(self).wf(),
        ensures
            final(self).wf(),
            final(self).view() == old(self).view().insert(key@, stats),
    {
        match self.position(key.as_str()) {
            Some(i) => {
                proof {
                    lemma_entries_map_update(self.entries@, i as int, stats);
                }
                let k = self.entries[i].0.clone();
                self.entries.set(i, (k, stats));
            },
            None => {
                proof {
                    lemma_entries_map_push(self.entries@, key, stats);
                }
                self.entries.push((key, stats));
            },
        }
    }
}

/// A contributor as the contributors endpoint lists it: the login and the
/// commit count, when present.
pub struct ContributorItem {
    pub login: Option<String>,
    pub contributions: Option<i64>,
}

/// A pull request as the pulls endpoint lists it: its author's login, when
/// present, and whether it was merged.
pub struct PullRequestItem {
    pub login: Option<String>,
    pub merged: bool,
}

/// An issue as the issues endpoint lists it: its author's login, when
/// present, and whether it is in fact a pull request.
pub struct IssueItem {
    pub login: Option<String>,
    pub is_pull_request: bool,
}

/// The statistics after one entry of the contributors listing: the user's
/// commit count becomes the listed one (truncated to 32 bits).
pub open spec fn contributor_step(m: Map<Seq<char>, ContributorStats>, item: ContributorItem) -> Map<Seq<char>, ContributorStats> {
    match (item.login, item.contributions) {
        (Some(login), Some(c)) => {
            let key = lowercase_spec(login@);
            let s = stats_or_zero(m, key);
            m.insert(key, ContributorStats { commits: c as i32, ..s })
        },
        _ => m,
    }
}

/// The statistics after one pull request: its author gets one more pull
/// request, and one more merged pull request when it was merged.
pub open spec fn pull_request_step(m: Map<Seq<char>, ContributorStats>, item: PullRequestItem) -> Map<Seq<char>, ContributorStats> {
    match item.login {
        Some(login) => {
            let key = lowercase_spec(login@);
            let s = stats_or_zero(m, key);
            m.insert(
                key,
                ContributorStats {
                    pull_requests: inc(s.pull_requests),
                    merged_prs: if item.merged {
                        inc(s.merged_prs)
                    } else {
                        s.merged_prs
                    },
                    ..s
                },
            )
        },
        None => m,
    }
}

/// The statistics after one issue: its author gets one more issue (pull
/// requests listed among issues do not count).
pub open spec fn issue_step(m: Map<Seq<char>, ContributorStats>, item: IssueItem) -> Map<Seq<char>, ContributorStats> {
    if item.is_pull_request {
        m
    } else {
        match item.login {
            Some(login) => {
                let key = lowercase_spec(login@);
                let s = stats_or_zero(m, key);
                m.insert(key, ContributorStats { issues: inc(s.issues), ..s })
            },
            None => m,
        }
    }
}

/// The statistics after a page of the contributors listing, entry by entry.
pub open spec fn apply_contributors(m: Map<Seq<char>, ContributorStats>, items: Seq<ContributorItem>) -> Map<Seq<char>, ContributorStats>
    decreases items.len(),
{
    if items.len() == 0 {
        m
    } else {
        apply_contributors(contributor_step(m, items[0]), items.drop_first())
    }
}

/// The statistics after a page of pull requests, one by one.
pub open spec fn apply_pull_requests(m: Map<Seq<char>, ContributorStats>, items: Seq<PullRequestItem>) -> Map<Seq<char>, ContributorStats>
    decreases items.len(),
{
    if items.len() == 0 {
        m
    } else {
        apply_pull_requests(pull_request_step(m, items[0]), items.drop_first())
    }
}

/// The statistics after a page of issues, one by one.
pub open spec fn apply_issues(m: Map<Seq<char>, ContributorStats>, items: Seq<IssueItem>) -> Map<Seq<char>, ContributorStats>
    decreases items.len(),
{
    if items.len() == 0 {
        m
    } else {
        apply_issues(issue_step(m, items[0]), items.drop_first())
    }
}

impl Contributors {
    /// Records a page of the contributors listing.
    pub fn add_contributors_page(&mut self, items: &[ContributorItem])
        requires
            old(self).wf(),
        ensures
            final(self).wf(),
            final(self).view() == apply_contributors(old(self).view(), items@),
    {
        let mut i: usize = 0;
        assert(items@.subrange(0, items@.len() as int) == items@);
        while i < items.len()
            invariant
                self.wf(),
                i <= items@.len(),
                apply_contributors(old(self).view(), items@) == apply_contributors(
                    self.view(),
                    items@.subrange(i as int, items@.len() as int),
                ),
            decreases items@.len() - i,
        {
            proof {
                let rest = items@.subrange(i as int, items@.len() as int);
                assert(rest[0] == items@[i as int]);
                assert(rest.drop_first() == items@.subrange(i + 1, items@.len() as int));
            }
            let item = &items[i];
            match (&item.login, item.contributions) {
                (Some(login), Some(c)) => {
                    let key = to_lowercase(login.as_str());
                    let s = self.get_or_zero(key.as_str());
                    #[verifier::truncate]
                    let commits = c as i32;
                    self.set(key, ContributorStats { commits, ..s });
                },
                _ => {},
            }
            i = i + 1;
        }
        assert(items@.subrange(items@.len() as int, items@.len() as int).len() == 0);
    }

    /// Records a page of pull requests.
    pub fn add_pull_requests_page(&mut self, items: &[PullRequestItem])
        requires
            old(self).wf(),
        ensures
            final(self).wf(),
            final(self).view() == apply_pull_requests(old(self).view(), items@),
    {
        let mut i: usize = 0;
        assert(items@.subrange(0, items@.len() as int) == items@);
        while i < items.len()
            invariant
                self.wf(),
                i <= items@.len(),
                apply_pull_requests(old(self).view(), items@) == apply_pull_requests(
                    self.view(),
                    items@.subrange(i as int, items@.len() as int),
                ),
            decreases items@.len() - i,
        {
            proof {
                let rest = items@.subrange(i as int, items@.len() as int);
                assert(rest[0] == items@[i as int]);
                assert(rest.drop_first() == items@.subrange(i + 1, items@.len() as int));
            }
            let item = &items[i];
            match &item.login {
                Some(login) => {
                    let key = to_lowercase(login.as_str());
                    let s = self.get_or_zero(key.as_str());
                    let merged_prs = if item.merged {
                        inc_exec(s.merged_prs)
                    } else {
                        s.merged_prs
                    };
                    self.set(
                        key,
                        ContributorStats { pull_requests: inc_exec(s.pull_requests), merged_prs, ..s },
                    );
                },
                None => {},
            }
            i = i + 1;
        }
        assert(items@.subrange(items@.len() as int, items@.len() as int).len() == 0);
    }

    /// Records a page of issues.
    pub fn add_issues_page(&mut self, items: &[IssueItem])
        requires
            old(self).wf(),
        ensures
            final(self).wf(),
            final(self).view() == apply_issues(old(self).view(), items@),
    {
        let mut i: usize = 0;
        assert(items@.subrange(0, items@.len() as int) == items@);
        while i < items.len()
            invariant
                self.wf(),
                i <= items@.len(),
                apply_issues(old(self).view(), items@) == apply_issues(
                    self.view(),
                    items@.subrange(i as int, items@.len() as int),
                ),
            decreases items@.len() - i,
        {
            proof {
                let rest = items@.subrange(i as int, items@.len() as int);
                assert(rest[0] == items@[i as int]);
                assert(rest.drop_first() == items@.subrange(i + 1, items@.len() as int));
            }
            let item = &items[i];
            if !item.is_pull_request {
                match &item.login {
                    Some(login) => {
                        let key = to_lowercase(login.as_str());
                        let s = self.get_or_zero(key.as_str());
                        self.set(key, ContributorStats { issues: inc_exec(s.issues), ..s });
                    },
                    None => {},
                }
            }
            i = i + 1;
        }
        assert(items@.subrange(items@.len() as int, items@.len() as int).len() == 0);
    }
}

/// All contributor data fetched for a repository.
pub struct RepoData {
    pub contributors: Contributors,
}

/// Sum of the pull request counts of a list of entries.
pub open spec fn sum_pull_requests(s: Seq<(String, ContributorStats)>) -> int
    decreases s.len(),
{
    if s.len() == 0 {
        0
    } else {
        sum_pull_requests(s.drop_last()) + s.last().1.pull_requests
    }
}

/// Sum of the issue counts of a list of entries.
pub open spec fn sum_issues(s: Seq<(String, ContributorStats)>) -> int
    decreases s.len(),
{
    if s.len() == 0 {
        0
    } else {
        sum_issues(s.drop_last()) + s.last().1.issues
    }
}

impl RepoData {
    /// The figures cached for a repository: the number of contributors, the
    /// total of pull requests and the total of issues, each truncated to 32 bits.
    pub fn totals(&self) -> (res: (i32, i32, i32))
        requires
            self.contributors.wf(),
        ensures
            res.0 == self.contributors.view().len() as i32,
            res.1 == sum_pull_requests(self.contributors.entries_seq()) as i32,
            res.2 == sum_issues(self.contributors.entries_seq()) as i32,
    {
        let entries = self.contributors.entries();
        let mut prs: i128 = 0;
        let mut issues: i128 = 0;
        let mut i: usize = 0;
        while i < entries.len()
            invariant
                i <= entries@.len(),
                prs == sum_pull_requests(entries@.subrange(0, i as int)),
                issues == sum_issues(entries@.subrange(0, i as int)),
                -0x8000_0000 * i <= prs <= 0x7fff_ffff * i,
                -0x8000_0000 * i <= issues <= 0x7fff_ffff * i,
            decreases entries@.len() - i,
        {
            proof {
                let nxt = entries@.subrange(0, i + 1);
                assert(nxt.drop_last() == entries@.subrange(0, i as int));
            }
            prs = prs + entries[i].1.pull_requests as i128;
            issues = issues + entries[i].1.issues as i128;
            i = i + 1;
        }
        assert(entries@.subrange(0, entries@.len() as int) == entries@);
        let n = self.contributors.len();
        #[verifier::truncate]
        let count = n as i32;
        #[verifier::truncate]
        let pr_count = prs as i32;
        #[verifier::truncate]
        let issue_count = issues as i32;
        (count, pr_count, issue_count)
    }
}

/// The error a `403` response stands for, judged by its body.
pub open spec fn rate_limit_error_spec(body: Seq<char>) -> GitHubError {
    if has_substring(body, "rate limit"@) || has_substring(body, "API rate"@) {
        GitHubError::RateLimited
    } else {
        GitHubError::Forbidden
    }
}

/// A forbidden response whose body mentions the rate limit means the limit
/// is exhausted; any other means access is forbidden.
pub fn check_rate_limit_from_body(body: &str) -> (res: GitHubError)
    ensures
        res == rate_limit_error_spec(body@),
{
    if str_contains(body, "rate limit") || str_contains(body, "API rate") {
        GitHubError::RateLimited
    } else {
        GitHubError::Forbidden
    }
}

/// `str::split(',')`: the pieces between commas, in order.
pub open spec fn split_commas(s: Seq<char>) -> Seq<Seq<char>>
    decreases s.len(),
{
    match first_index_of(s, ',') {
        None => seq![s],
        Some(i) => if 0 <= i < s.len() {
            seq![s.subrange(0, i)] + split_commas(s.subrange(i + 1, s.len() as int))
        } else {
            seq![s]
        },
    }
}

/// The marker of the next-page entry of a `Link` header.
pub open spec fn rel_next() -> Seq<char> {
    "rel=\"next\""@
}

/// The first piece that, trimmed, mentions `rel="next"` (trimmed).
pub open spec fn next_part(parts: Seq<Seq<char>>) -> Option<Seq<char>>
    decreases parts.len(),
{
    if parts.len() == 0 {
        None
    } else if has_substring(trim(parts[0]), rel_next()) {
        Some(trim(parts[0]))
    } else {
        next_part(parts.drop_first())
    }
}

/// The URL of the next page announced by a `Link` header: in the first
/// comma-separated entry that mentions `rel="next"`, the text between its
/// first `<` and its first `>`.
pub open spec fn next_link_spec(link: Seq<char>) -> Option<Seq<char>> {
    match next_part(split_commas(link)) {
        None => None,
        Some(p) => match (first_index_of(p, '<'), first_index_of(p, '>')) {
            (Some(a), Some(b)) => Some(p.subrange(a + 1, b)),
            _ => None,
        },
    }
}

/// A `Link` header whose next-page entry has its first `>` before its
/// first `<`: there is no URL between them to take.
pub open spec fn next_link_malformed(link: Seq<char>) -> bool {
    match next_part(split_commas(link)) {
        None => false,
        Some(p) => match (first_index_of(p, '<'), first_index_of(p, '>')) {
            (Some(a), Some(b)) => b < a + 1,
            _ => false,
        },
    }
}

fn find_next_part(v: &[char]) -> (res: Option<(usize, usize)>)
    ensures
        match res {
            Some((a, b)) => a <= b <= v@.len() && next_part(split_commas(v@)) == Some(
                v@.subrange(a as int, b as int),
            ),
            None => next_part(split_commas(v@)) is None,
        },
{
    let marker = chars_of("rel=\"next\"");
    let n = v.len();
    let mut pos: usize = 0;
    assert(v@.subrange(0, n as int) == v@);
    loop
        invariant
            pos <= n,
            n == v@.len(),
            marker@ == rel_next(),
            next_part(split_commas(v@)) == next_part(split_commas(v@.subrange(pos as int, n as int))),
        decreases n - pos,
    {
        let ghost rest = v@.subrange(pos as int, n as int);
        let comma = find_char_after(v, ',', pos);
        let end = match comma {
            Some(c) => c,
            None => n,
        };
        let (a, b) = trim_bounds(v, pos, end);
        let piece = slice_of(v, a, b);
        let found = contains_chars(piece.as_slice(), marker.as_slice());
        proof {
            let parts = split_commas(rest);
            match comma {
                Some(c) => {
                    assert(parts == seq![rest.subrange(0, c - pos)] + split_commas(
                        rest.subrange(c - pos + 1, rest.len() as int),
                    ));
                    assert(rest.subrange(0, c - pos) == v@.subrange(pos as int, c as int));
                    assert(rest.subrange(c - pos + 1, rest.len() as int) == v@.subrange(
                        c + 1,
                        n as int,
                    ));
                    assert(parts[0] == v@.subrange(pos as int, c as int));
                    assert(parts.drop_first() == split_commas(v@.subrange(c + 1, n as int)));
                },
                None => {
                    assert(parts == seq![rest]);
                    assert(parts.drop_first().len() == 0);
                },
            }
        }
        if found {
            return Some((a, b));
        }
        match comma {
            Some(c) => {
                pos = c + 1;
            },
            None => {
                proof {
                    let parts = split_commas(rest);
                    assert(!has_substring(trim(parts[0]), rel_next()));
                    assert(next_part(parts.drop_first()) is None);
                }
                return None;
            },
        }
    }
}

fn slice_of(v: &[char], from: usize, to: usize) -> (res: Vec<char>)
    requires
        from <= to <= v@.len(),
    ensures
        res@ == v@.subrange(from as int, to as int),
{
    let mut res: Vec<char> = Vec::new();
    let mut k = from;
    while k < to
        invariant
            from <= k <= to <= v@.len(),
            res@ == v@.subrange(from as int, k as int),
        decreases to - k,
    {
        res.push(v[k]);
        assert(v@.subrange(from as int, k + 1) == v@.subrange(from as int, k as int).push(v@[k as int]));
        k = k + 1;
    }
    res
}

/// Whether a `Link` header can be read for a next-page URL (see
/// [`next_link_malformed`]).
pub fn next_link_is_well_formed(link: &str) -> (res: bool)
    ensures
        res == !next_link_malformed(link@),
{
    let v = chars_of(link);
    match find_next_part(v.as_slice()) {
        None => true,
        Some((a, b)) => {
            let part = slice_of(v.as_slice(), a, b);
            match (find_char(part.as_slice(), '<'), find_char(part.as_slice(), '>')) {
                (Some(x), Some(y)) => y >= x + 1,
                _ => true,
            }
        },
    }
}

/// The URL of the next page announced by a `Link` header, if any.
pub fn parse_next_link(link: Option<&str>) -> (res: Option<String>)
    requires
        link matches Some(l) ==> !next_link_malformed(l@),
    ensures
        match link {
            None => res is None,
            Some(l) => match res {
                Some(u) => next_link_spec(l@) == Some(u@),
                None => next_link_spec(l@) is None,
            },
        },
{
    let l = match link {
        Some(l) => l,
        None => {
            return None;
        },
    };
    let v = chars_of(l);
    let (a, b) = match find_next_part(v.as_slice()) {
        Some(bounds) => bounds,
        None => {
            return None;
        },
    };
    let part = slice_of(v.as_slice(), a, b);
    let start = match find_char(part.as_slice(), '<') {
        Some(x) => x + 1,
        None => {
            return None;
        },
    };
    let end = match find_char(part.as_slice(), '>') {
        Some(y) => y,
        None => {
            return None;
        },
    };
    proof {
        assert(first_index_of(part@, '<') == Some(start - 1));
        assert(!next_link_malformed(v@));
    }
    Some(string_from_range(part.as_slice(), start, end))
}

/// Pages of the contributors listing read at most (100 contributors each).
pub const CONTRIBUTOR_PAGES: u32 = 5;

/// Pages of pull requests read at most (100 each).
pub const PULL_REQUEST_PAGES: u32 = 10;

/// Pages of issues read at most (100 each).
pub const ISSUE_PAGES: u32 = 10;

/// Where a repository fetch stands.
#[derive(Debug, Clone, Copy, PartialEq, Eq, Structural)]
pub enum FetchPhase {
    /// Reading the contributors listing (commit counts).
    Contributors,
    /// Reading pull requests.
    PullRequests,
    /// Reading issues.
    Issues,
    /// All data is in.
    Finished,
    /// The fetch failed.
    Failed,
}

/// What came back for one page request.
#[allow(inconsistent_fields)]
pub enum PageEvent {
    /// The request could not be sent, or the body could not be decoded.
    Failed(String),
    /// A status other than 200; the body matters only for 403.
    Status { code: u16, body: String },
    /// A page of the contributors listing, with the next page's URL.
    Contributors { next: Option<String>, items: Vec<ContributorItem> },
    /// A page of pull requests, with the next page's URL.
    PullRequests { next: Option<String>, items: Vec<PullRequestItem> },
    /// A page of issues, with the next page's URL.
    Issues { next: Option<String>, items: Vec<IssueItem> },
}

/// First page of a repository's contributors listing.
pub open spec fn contributors_url(repo: Seq<char>) -> Seq<char> {
    "https://api.github.com/repos/"@ + repo + "/contributors?per_page=100"@
}

/// First page of a repository's pull requests, newest first.
pub open spec fn pulls_url(repo: Seq<char>) -> Seq<char> {
    "https://api.github.com/repos/"@ + repo
        + "/pulls?state=all&per_page=100&sort=created&direction=desc"@
}

/// First page of a repository's issues, newest first.
pub open spec fn issues_url(repo: Seq<char>) -> Seq<char> {
    "https://api.github.com/repos/"@ + repo
        + "/issues?state=all&per_page=100&sort=created&direction=desc"@
}

/// The error a non-200, non-204 status of the contributors listing means.
pub open spec fn contributors_status_error(code: u16, body: Seq<char>) -> GitHubError {
    if code == 404 {
        GitHubError::NotFound
    } else if code == 403 {
        if has_substring(body, "too large"@) {
            GitHubError::RepoTooLarge
        } else {
            rate_limit_error_spec(body)
        }
    } else if code == 429 {
        GitHubError::RateLimited
    } else {
        GitHubError::Server(code)
    }
}

/// Requests that can have been made before a phase begins.
pub open spec fn requests_before(phase: FetchPhase) -> int {
    match phase {
        FetchPhase::Contributors => 0,
        FetchPhase::PullRequests => CONTRIBUTOR_PAGES as int,
        FetchPhase::Issues => (CONTRIBUTOR_PAGES + PULL_REQUEST_PAGES) as int,
        _ => (CONTRIBUTOR_PAGES + PULL_REQUEST_PAGES + ISSUE_PAGES) as int,
    }
}

/// Pages a phase may read.
pub open spec fn page_limit(phase: FetchPhase) -> int {
    match phase {
        FetchPhase::Contributors => CONTRIBUTOR_PAGES as int,
        FetchPhase::PullRequests => PULL_REQUEST_PAGES as int,
        FetchPhase::Issues => ISSUE_PAGES as int,
        _ => 0,
    }
}

/// Whether a phase still makes requests.
pub open spec fn is_active(phase: FetchPhase) -> bool {
    phase == FetchPhase::Contributors || phase == FetchPhase::PullRequests || phase
        == FetchPhase::Issues
}

/// The fetch of all contributor data of one repository: the contributors
/// listing, then pull requests, then issues, page by page.
pub struct RepoFetch {
    repo: String,
    phase: FetchPhase,
    url: String,
    pages: u32,
    requests: u32,
    data: Contributors,
    error: Option<GitHubError>,
}

impl RepoFetch {
    /// The repository (`owner/repo`).
    pub closed spec fn repo(&self) -> Seq<char> {
        self.repo@
    }

    /// The current phase.
    pub closed spec fn phase(&self) -> FetchPhase {
        self.phase
    }

    /// The URL of the next request (meaningful in the active phases).
    pub closed spec fn url(&self) -> Seq<char> {
        self.url@
    }

    /// Pages read in the current phase.
    pub closed spec fn pages(&self) -> nat {
        self.pages as nat
    }

    /// Requests made so far.
    pub closed spec fn requests(&self) -> nat {
        self.requests as nat
    }

    /// The statistics gathered so far.
    pub closed spec fn data(&self) -> Map<Seq<char>, ContributorStats> {
        self.data.view()
    }

    /// Why the fetch failed, once it has.
    pub closed spec fn error(&self) -> Option<GitHubError> {
        self.error
    }

    /// Internal consistency: the page and request counts stay within the
    /// limits of the phases, and only a failed fetch has an error.
    pub closed spec fn wf(&self) -> bool {
        &&& self.data.wf()
        &&& (self.phase == FetchPhase::Failed) == (self.error is Some)
        &&& if is_active(self.phase) {
            &&& self.pages < page_limit(self.phase)
            &&& self.requests <= requests_before(self.phase) + self.pages
        } else {
            self.requests <= requests_before(self.phase)
        }
    }

    /// The fetch of `repo_full_name`'s data, about to request the first page
    /// of its contributors listing.
    pub fn new(repo_full_name: &str) -> (res: RepoFetch)
        ensures
            res.wf(),
            res.repo() == repo_full_name@,
            res.phase() == FetchPhase::Contributors,
            res.url() == contributors_url(repo_full_name@),
            res.pages() == 0,
            res.requests() == 0,
            res.data() == Map::<Seq<char>, ContributorStats>::empty(),
    {
        RepoFetch {
            repo: owned(repo_full_name),
            phase: FetchPhase::Contributors,
            url: concat3("https://api.github.com/repos/", repo_full_name, "/contributors?per_page=100"),
            pages: 0,
            requests: 0,
            data: Contributors::new(),
            error: None,
        }
    }

    /// The current phase.
    pub fn current_phase(&self) -> (res: FetchPhase)
        ensures
            res == self.phase(),
    {
        self.phase
    }

    /// The URL to request next, while the fetch is under way.
    pub fn next_url(&self) -> (res: Option<String>)
        ensures
            is_active(self.phase()) ==> (res matches Some(u) && u@ == self.url()),
            !is_active(self.phase()) ==> res is None,
    {
        match self.phase {
            FetchPhase::Contributors | FetchPhase::PullRequests | FetchPhase::Issues => Some(
                self.url.clone(),
            ),
            _ => None,
        }
    }

    fn start_pull_requests(&mut self)
        requires
            old(self).requests <= requests_before(FetchPhase::PullRequests),
            old(self).data.wf(),
        ensures
            final(self).repo == old(self).repo,
            final(self).data == old(self).data,
            final(self).requests == old(self).requests,
            final(self).error == old(self).error,
            final(self).phase == FetchPhase::PullRequests,
            final(self).url@ == pulls_url(old(self).repo@),
            final(self).pages == 0,
    {
        self.phase = FetchPhase::PullRequests;
        self.url = concat3(
            "https://api.github.com/repos/",
            self.repo.as_str(),
            "/pulls?state=all&per_page=100&sort=created&direction=desc",
        );
        self.pages = 0;
    }

    fn start_issues(&mut self)
        ensures
            final(self).repo == old(self).repo,
            final(self).data == old(self).data,
            final(self).requests == old(self).requests,
            final(self).error == old(self).error,
            final(self).phase == FetchPhase::Issues,
            final(self).url@ == issues_url(old(self).repo@),
            final(self).pages == 0,
    {
        self.phase = FetchPhase::Issues;
        self.url = concat3(
            "https://api.github.com/repos/",
            self.repo.as_str(),
            "/issues?state=all&per_page=100&sort=created&direction=desc",
        );
        self.pages = 0;
    }

    fn fail(&mut self, e: GitHubError)
        ensures
            final(self).repo == old(self).repo,
            final(self).data == old(self).data,
            final(self).requests == old(self).requests,
            final(self).pages == old(self).pages,
            final(self).url == old(self).url,
            final(self).phase == FetchPhase::Failed,
            final(self).error == Some(e),
    {
        self.phase = FetchPhase::Failed;
        self.error = Some(e);
    }

    /// Takes in the response to the request for `next_url()`.
    ///
    /// A failed request ends the fetch with that failure. In the
    /// contributors listing, 204 (an empty repository) moves on to pull
    /// requests and any other status ends the fetch with the error it
    /// stands for; for pull requests and issues any status other than 200
    /// skips the rest of that kind. A page of items is recorded; the phase
    /// goes on to the next page while one is announced and its page limit
    /// (5, 10, 10) is not reached, and moves on otherwise.
    pub fn on_page(&mut self, event: PageEvent)
        requires
            old(self).wf(),
            is_active(old(self).phase()),
            event matches PageEvent::Status { code, .. } ==> code != 200,
            event is Contributors ==> old(self).phase() == FetchPhase::Contributors,
            event is PullRequests ==> old(self).phase() == FetchPhase::PullRequests,
            event is Issues ==> old(self).phase() == FetchPhase::Issues,
        ensures
            final(self).wf(),
            final(self).repo() == old(self).repo(),
            final(self).requests() == old(self).requests() + 1,
            match event {
                PageEvent::Failed(msg) => {
                    &&& final(self).phase() == FetchPhase::Failed
                    &&& final(self).error() matches Some(GitHubError::Request(m)) && m@ == msg@
                    &&& final(self).data() == old(self).data()
                },
                PageEvent::Status { code, body } => {
                    &&& final(self).data() == old(self).data()
                    &&& old(self).phase() == FetchPhase::Contributors ==> if code == 204 {
                        &&& final(self).phase() == FetchPhase::PullRequests
                        &&& final(self).url() == pulls_url(old(self).repo())
                        &&& final(self).pages() == 0
                    } else {
                        &&& final(self).phase() == FetchPhase::Failed
                        &&& final(self).error() == Some(contributors_status_error(code, body@))
                    }
                    &&& old(self).phase() == FetchPhase::PullRequests ==> {
                        &&& final(self).phase() == FetchPhase::Issues
                        &&& final(self).url() == issues_url(old(self).repo())
                        &&& final(self).pages() == 0
                    }
                    &&& old(self).phase() == FetchPhase::Issues ==> final(self).phase()
                        == FetchPhase::Finished
                },
                PageEvent::Contributors { next, items } => {
                    &&& final(self).data() == apply_contributors(old(self).data(), items@)
                    &&& if next is Some && old(self).pages() + 1 < CONTRIBUTOR_PAGES {
                        &&& final(self).phase() == FetchPhase::Contributors
                        &&& final(self).url() == next->0@
                        &&& final(self).pages() == old(self).pages() + 1
                    } else {
                        &&& final(self).phase() == FetchPhase::PullRequests
                        &&& final(self).url() == pulls_url(old(self).repo())
                        &&& final(self).pages() == 0
                    }
                },
                PageEvent::PullRequests { next, items } => {
                    &&& final(self).data() == apply_pull_requests(old(self).data(), items@)
                    &&& if next is Some && old(self).pages() + 1 < PULL_REQUEST_PAGES {
                        &&& final(self).phase() == FetchPhase::PullRequests
                        &&& final(self).url() == next->0@
                        &&& final(self).pages() == old(self).pages() + 1
                    } else {
                        &&& final(self).phase() == FetchPhase::Issues
                        &&& final(self).url() == issues_url(old(self).repo())
                        &&& final(self).pages() == 0
                    }
                },
                PageEvent::Issues { next, items } => {
                    &&& final(self).data() == apply_issues(old(self).data(), items@)
                    &&& if next is Some && old(self).pages() + 1 < ISSUE_PAGES {
                        &&& final(self).phase() == FetchPhase::Issues
                        &&& final(self).url() == next->0@
                        &&& final(self).pages() == old(self).pages() + 1
                    } else {
                        final(self).phase() == FetchPhase::Finished
                    }
                },
            },
    {
        self.requests = self.requests + 1;
        match event {
            PageEvent::Failed(msg) => {
                self.fail(GitHubError::Request(msg));
            },
            PageEvent::Status { code, body } => {
                match self.phase {
                    FetchPhase::Contributors => {
                        if code == 204 {
                            self.start_pull_requests();
                        } else if code == 404 {
                            self.fail(GitHubError::NotFound);
                        } else if code == 403 {
                            if str_contains(body.as_str(), "too large") {
                                self.fail(GitHubError::RepoTooLarge);
                            } else {
                                let e = check_rate_limit_from_body(body.as_str());
                                self.fail(e);
                            }
                        } else if code == 429 {
                            self.fail(GitHubError::RateLimited);
                        } else {
                            self.fail(GitHubError::Server(code));
                        }
                    },
                    FetchPhase::PullRequests => {
                        self.start_issues();
                    },
                    _ => {
                        self.phase = FetchPhase::Finished;
                    },
                }
            },
            PageEvent::Contributors { next, items } => {
                self.data.add_contributors_page(items.as_slice());
                let pages = self.pages + 1;
                match next {
                    Some(u) => {
                        if pages < CONTRIBUTOR_PAGES {
                            self.url = u;
                            self.pages = pages;
                        } else {
                            self.start_pull_requests();
                        }
                    },
                    None => {
                        self.start_pull_requests();
                    },
                }
            },
            PageEvent::PullRequests { next, items } => {
                self.data.add_pull_requests_page(items.as_slice());
                let pages = self.pages + 1;
                match next {
                    Some(u) => {
                        if pages < PULL_REQUEST_PAGES {
                            self.url = u;
                            self.pages = pages;
                        } else {
                            self.start_issues();
                        }
                    },
                    None => {
                        self.start_issues();
                    },
                }
            },
            PageEvent::Issues { next, items } => {
                self.data.add_issues_page(items.as_slice());
                let pages = self.pages + 1;
                match next {
                    Some(u) => {
                        if pages < ISSUE_PAGES {
                            self.url = u;
                            self.pages = pages;
                        } else {
                            self.phase = FetchPhase::Finished;
                        }
                    },
                    None => {
                        self.phase = FetchPhase::Finished;
                    },
                }
            },
        }
    }

    /// The result of a fetch that has ended: all data, or why it failed.
    pub fn outcome(self) -> (res: Result<RepoData, GitHubError>)
        requires
            self.wf(),
            !is_active(self.phase()),
        ensures
            self.phase() == FetchPhase::Finished ==> (res matches Ok(d) && d.contributors.wf()
                && d.contributors.view() == self.data()),
            self.phase() == FetchPhase::Failed ==> (res matches Err(e) && Some(e) == self.error()),
    {
        match self.error {
            Some(e) => Err(e),
            None => Ok(RepoData { contributors: self.data }),
        }
    }
}

/// Law: fetching one repository makes at most 25 requests: 5 pages of
/// contributors, 10 of pull requests and 10 of issues; while the fetch is
/// under way, fewer than 25 have been made.
pub proof fn lemma_fetch_request_bound(f: RepoFetch)
    requires
        f.wf(),
    ensures
        f.requests() <= 25,
        is_active(f.phase()) ==> f.requests() < 25,
{
}

proof fn lemma_pull_requests_keep(m: Map<Seq<char>, ContributorStats>, items: Seq<PullRequestItem>, k: Seq<char>)
    ensures
        m.contains_key(k) ==> apply_pull_requests(m, items).contains_key(k),
        stats_or_zero(apply_pull_requests(m, items), k).commits == stats_or_zero(m, k).commits,
        stats_or_zero(apply_pull_requests(m, items), k).issues == stats_or_zero(m, k).issues,
    decreases items.len(),
{
    if items.len() > 0 {
        lemma_pull_requests_keep(pull_request_step(m, items[0]), items.drop_first(), k);
    }
}

proof fn lemma_issues_keep(m: Map<Seq<char>, ContributorStats>, items: Seq<IssueItem>, k: Seq<char>)
    ensures
        m.contains_key(k) ==> apply_issues(m, items).contains_key(k),
        stats_or_zero(apply_issues(m, items), k).commits == stats_or_zero(m, k).commits,
        stats_or_zero(apply_issues(m, items), k).pull_requests == stats_or_zero(m, k).pull_requests,
        stats_or_zero(apply_issues(m, items), k).merged_prs == stats_or_zero(m, k).merged_prs,
    decreases items.len(),
{
    if items.len() > 0 {
        lemma_issues_keep(issue_step(m, items[0]), items.drop_first(), k);
    }
}

proof fn lemma_contributors_keep(m: Map<Seq<char>, ContributorStats>, items: Seq<ContributorItem>, k: Seq<char>)
    ensures
        m.contains_key(k) ==> apply_contributors(m, items).contains_key(k),
    decreases items.len(),
{
    if items.len() > 0 {
        lemma_contributors_keep(contributor_step(m, items[0]), items.drop_first(), k);
    }
}

/// Law: no page forgets a user; pages of pull requests leave every commit
/// and issue count as it was, and pages of issues leave every commit, pull
/// request and merged pull request count as it was.
pub proof fn lemma_pages_keep_other_counts(
    m: Map<Seq<char>, ContributorStats>,
    contributors: Seq<ContributorItem>,
    pulls: Seq<PullRequestItem>,
    issues: Seq<IssueItem>,
    k: Seq<char>,
)
    ensures
        m.contains_key(k) ==> apply_contributors(m, contributors).contains_key(k),
        m.contains_key(k) ==> apply_pull_requests(m, pulls).contains_key(k),
        m.contains_key(k) ==> apply_issues(m, issues).contains_key(k),
        stats_or_zero(apply_pull_requests(m, pulls), k).commits == stats_or_zero(m, k).commits,
        stats_or_zero(apply_pull_requests(m, pulls), k).issues == stats_or_zero(m, k).issues,
        stats_or_zero(apply_issues(m, issues), k).commits == stats_or_zero(m, k).commits,
        stats_or_zero(apply_issues(m, issues), k).pull_requests == stats_or_zero(m, k).pull_requests,
        stats_or_zero(apply_issues(m, issues), k).merged_prs == stats_or_zero(m, k).merged_prs,
{
    lemma_contributors_keep(m, contributors, k);
    lemma_pull_requests_keep(m, pulls, k);
    lemma_issues_keep(m, issues, k);
}

/// Every recorded user has no more merged pull requests than pull
/// requests, none negative, and at most `n` pull requests.
pub open spec fn merged_within(m: Map<Seq<char>, ContributorStats>, n: int) -> bool {
    forall|k: Seq<char>|
        #[trigger] m.contains_key(k) ==> 0 <= m[k].merged_prs <= m[k].pull_requests <= n
}

proof fn lemma_pull_requests_merged_within(m: Map<Seq<char>, ContributorStats>, n: int, items: Seq<PullRequestItem>)
    requires
        merged_within(m, n),
        0 <= n,
        n + items.len() <= i32::MAX,
    ensures
        merged_within(apply_pull_requests(m, items), n + items.len()),
    decreases items.len(),
{
    if items.len() > 0 {
        let m1 = pull_request_step(m, items[0]);
        assert(merged_within(m1, n + 1)) by {
            assert forall|k: Seq<char>| #[trigger] m1.contains_key(k) implies 0 <= m1[k].merged_prs
                <= m1[k].pull_requests <= n + 1 by {
                if m.contains_key(k) {
                    assert(0 <= m[k].merged_prs <= m[k].pull_requests <= n);
                }
            }
        }
        lemma_pull_requests_merged_within(m1, n + 1, items.drop_first());
    }
}

proof fn lemma_contributors_merged_within(m: Map<Seq<char>, ContributorStats>, n: int, items: Seq<ContributorItem>)
    requires
        merged_within(m, n),
        0 <= n,
    ensures
        merged_within(apply_contributors(m, items), n),
    decreases items.len(),
{
    if items.len() > 0 {
        let m1 = contributor_step(m, items[0]);
        assert(merged_within(m1, n)) by {
            assert forall|k: Seq<char>| #[trigger] m1.contains_key(k) implies 0 <= m1[k].merged_prs
                <= m1[k].pull_requests <= n by {
                if m.contains_key(k) {
                    assert(0 <= m[k].merged_prs <= m[k].pull_requests <= n);
                }
            }
        }
        lemma_contributors_merged_within(m1, n, items.drop_first());
    }
}

proof fn lemma_issues_merged_within(m: Map<Seq<char>, ContributorStats>, n: int, items: Seq<IssueItem>)
    requires
        merged_within(m, n),
        0 <= n,
    ensures
        merged_within(apply_issues(m, items), n),
    decreases items.len(),
{
    if items.len() > 0 {
        let m1 = issue_step(m, items[0]);
        assert(merged_within(m1, n)) by {
            assert forall|k: Seq<char>| #[trigger] m1.contains_key(k) implies 0 <= m1[k].merged_prs
                <= m1[k].pull_requests <= n by {
                if m.contains_key(k) {
                    assert(0 <= m[k].merged_prs <= m[k].pull_requests <= n);
                }
            }
        }
        lemma_issues_merged_within(m1, n, items.drop_first());
    }
}

/// Law: over a fetch, no user ever has more merged pull requests than pull
/// requests. A fetch starts with no statistics; pages of contributors and
/// of issues keep the property, and a page of pull requests keeps it as
/// long as the pull requests read so far fit in an `i32` (beyond that the
/// counts wrap, as the 32-bit counters they stand for do).
pub proof fn lemma_merged_at_most_pull_requests(
    m: Map<Seq<char>, ContributorStats>,
    n: int,
    contributors: Seq<ContributorItem>,
    pulls: Seq<PullRequestItem>,
    issues: Seq<IssueItem>,
)
    requires
        merged_within(m, n),
        0 <= n,
        n + pulls.len() <= i32::MAX,
    ensures
        merged_within(Map::<Seq<char>, ContributorStats>::empty(), 0),
        merged_within(apply_contributors(m, contributors), n),
        merged_within(apply_pull_requests(m, pulls), n + pulls.len()),
        merged_within(apply_issues(m, issues), n),
{
    lemma_contributors_merged_within(m, n, contributors);
    lemma_pull_requests_merged_within(m, n, pulls);
    lemma_issues_merged_within(m, n, issues);
}

/// Every recorded key is the lowercase form of some login.
pub open spec fn keys_lowercased(m: Map<Seq<char>, ContributorStats>) -> bool {
    forall|k: Seq<char>| #[trigger] m.contains_key(k) ==> exists|l: Seq<char>| k == lowercase_spec(l)
}

proof fn lemma_contributors_lowercased(m: Map<Seq<char>, ContributorStats>, items: Seq<ContributorItem>)
    requires
        keys_lowercased(m),
    ensures
        keys_lowercased(apply_contributors(m, items)),
    decreases items.len(),
{
    if items.len() > 0 {
        let m1 = contributor_step(m, items[0]);
        assert(keys_lowercased(m1)) by {
            assert forall|k: Seq<char>| #[trigger] m1.contains_key(k) implies exists|l: Seq<char>|
                k == lowercase_spec(l) by {
                if !m.contains_key(k) {
                    let login = items[0].login->0;
                    assert(k == lowercase_spec(login@));
                }
            }
        }
        lemma_contributors_lowercased(m1, items.drop_first());
    }
}

proof fn lemma_pull_requests_lowercased(m: Map<Seq<char>, ContributorStats>, items: Seq<PullRequestItem>)
    requires
        keys_lowercased(m),
    ensures
        keys_lowercased(apply_pull_requests(m, items)),
    decreases items.len(),
{
    if items.len() > 0 {
        let m1 = pull_request_step(m, items[0]);
        assert(keys_lowercased(m1)) by {
            assert forall|k: Seq<char>| #[trigger] m1.contains_key(k) implies exists|l: Seq<char>|
                k == lowercase_spec(l) by {
                if !m.contains_key(k) {
                    let login = items[0].login->0;
                    assert(k == lowercase_spec(login@));
                }
            }
        }
        lemma_pull_requests_lowercased(m1, items.drop_first());
    }
}

proof fn lemma_issues_lowercased(m: Map<Seq<char>, ContributorStats>, items: Seq<IssueItem>)
    requires
        keys_lowercased(m),
    ensures
        keys_lowercased(apply_issues(m, items)),
    decreases items.len(),
{
    if items.len() > 0 {
        let m1 = issue_step(m, items[0]);
        assert(keys_lowercased(m1)) by {
            assert forall|k: Seq<char>| #[trigger] m1.contains_key(k) implies exists|l: Seq<char>|
                k == lowercase_spec(l) by {
                if !m.contains_key(k) {
                    let login = items[0].login->0;
                    assert(k == lowercase_spec(login@));
                }
            }
        }
        lemma_issues_lowercased(m1, items.drop_first());
    }
}

/// Law: every user a fetch records is keyed by the lowercase form of a
/// login; a fetch starts with no key, and every page keeps this.
pub proof fn lemma_keys_are_lowercased_logins(
    m: Map<Seq<char>, ContributorStats>,
    contributors: Seq<ContributorItem>,
    pulls: Seq<PullRequestItem>,
    issues: Seq<IssueItem>,
)
    requires
        keys_lowercased(m),
    ensures
        keys_lowercased(Map::<Seq<char>, ContributorStats>::empty()),
        keys_lowercased(apply_contributors(m, contributors)),
        keys_lowercased(apply_pull_requests(m, pulls)),
        keys_lowercased(apply_issues(m, issues)),
{
    lemma_contributors_lowercased(m, contributors);
    lemma_pull_requests_lowercased(m, pulls);
    lemma_issues_lowercased(m, issues);
}

} // verus!
