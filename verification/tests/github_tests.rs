use github_roles::error::GitHubError;
use github_roles::services::github::{
    check_rate_limit_from_body, next_link_is_well_formed, parse_next_link, ContributorItem, ContributorStats,
    Contributors, FetchPhase, IssueItem, PageEvent, PullRequestItem, RepoData, RepoFetch, CONTRIBUTOR_PAGES,
    ISSUE_PAGES, PULL_REQUEST_PAGES,
};

fn stats(commits: i32, pull_requests: i32, merged_prs: i32, issues: i32) -> ContributorStats {
    ContributorStats { commits, pull_requests, merged_prs, issues }
}

fn contributor(login: &str, n: i64) -> ContributorItem {
    ContributorItem { login: Some(login.to_string()), contributions: Some(n) }
}

fn pr(login: &str, merged: bool) -> PullRequestItem {
    PullRequestItem { login: Some(login.to_string()), merged }
}

fn issue(login: &str, is_pull_request: bool) -> IssueItem {
    IssueItem { login: Some(login.to_string()), is_pull_request }
}

#[test]
fn next_link_is_taken_from_the_next_entry() {
    let header = "<https://api.github.com/x?page=2>; rel=\"next\", <https://api.github.com/x?page=9>; rel=\"last\"";
    assert!(next_link_is_well_formed(header));
    assert_eq!(parse_next_link(Some(header)), Some("https://api.github.com/x?page=2".to_string()));
    let later = "<https://a/1>; rel=\"prev\",   <https://a/3>; rel=\"next\"  ";
    assert_eq!(parse_next_link(Some(later)), Some("https://a/3".to_string()));
}

#[test]
fn next_link_absent() {
    assert_eq!(parse_next_link(None), None);
    assert_eq!(parse_next_link(Some("<https://a/9>; rel=\"last\"")), None);
    assert_eq!(parse_next_link(Some("")), None);
    assert_eq!(parse_next_link(Some("https://a/2; rel=\"next\"")), None);
}

#[test]
fn next_link_malformed_is_detected() {
    assert!(!next_link_is_well_formed("> rel=\"next\" <"));
    assert!(next_link_is_well_formed("<a> rel=\"prev\""));
}

#[test]
fn forbidden_body_decides_rate_limit() {
    assert_eq!(check_rate_limit_from_body("API rate limit exceeded for 1.2.3.4"), GitHubError::RateLimited);
    assert_eq!(check_rate_limit_from_body("You have exceeded a secondary rate limit"), GitHubError::RateLimited);
    assert_eq!(check_rate_limit_from_body("Resource not accessible"), GitHubError::Forbidden);
    assert_eq!(check_rate_limit_from_body(""), GitHubError::Forbidden);
}

#[test]
fn contributors_map_set_and_get() {
    let mut c = Contributors::new();
    assert_eq!(c.len(), 0);
    assert_eq!(c.get_or_zero("alice"), stats(0, 0, 0, 0));
    c.set("alice".to_string(), stats(3, 1, 1, 0));
    c.set("bob".to_string(), stats(1, 0, 0, 2));
    c.set("alice".to_string(), stats(4, 1, 1, 0));
    assert_eq!(c.len(), 2);
    assert_eq!(c.get_or_zero("alice"), stats(4, 1, 1, 0));
    assert_eq!(c.get_or_zero("bob"), stats(1, 0, 0, 2));
    assert_eq!(c.entries().len(), 2);
}

#[test]
fn pages_accumulate_per_lowercase_login() {
    let mut c = Contributors::new();
    c.add_contributors_page(&[
        contributor("Alice", 10),
        ContributorItem { login: None, contributions: Some(5) },
        ContributorItem { login: Some("ghost".to_string()), contributions: None },
    ]);
    c.add_pull_requests_page(&[pr("alice", true), pr("ALICE", false), pr("bob", true), PullRequestItem { login: None, merged: true }]);
    c.add_issues_page(&[issue("Bob", false), issue("bob", true), issue("carol", false)]);
    assert_eq!(c.len(), 3);
    assert_eq!(c.get_or_zero("alice"), stats(10, 2, 1, 0));
    assert_eq!(c.get_or_zero("bob"), stats(0, 1, 1, 1));
    assert_eq!(c.get_or_zero("carol"), stats(0, 0, 0, 1));
    assert_eq!(c.get_or_zero("ghost"), stats(0, 0, 0, 0));
}

#[test]
fn totals_count_users_prs_and_issues() {
    let mut c = Contributors::new();
    c.set("a".to_string(), stats(5, 2, 1, 3));
    c.set("b".to_string(), stats(1, 4, 0, 1));
    let data = RepoData { contributors: c };
    assert_eq!(data.totals(), (2, 6, 4));
    let empty = RepoData { contributors: Contributors::new() };
    assert_eq!(empty.totals(), (0, 0, 0));
}

#[test]
fn fetch_walks_the_three_listings() {
    let mut f = RepoFetch::new("octo/repo");
    assert_eq!(f.current_phase(), FetchPhase::Contributors);
    assert_eq!(f.next_url(), Some("https://api.github.com/repos/octo/repo/contributors?per_page=100".to_string()));
    f.on_page(PageEvent::Contributors { next: Some("https://next/2".to_string()), items: vec![contributor("Alice", 7)] });
    assert_eq!(f.current_phase(), FetchPhase::Contributors);
    assert_eq!(f.next_url(), Some("https://next/2".to_string()));
    f.on_page(PageEvent::Contributors { next: None, items: vec![contributor("bob", 2)] });
    assert_eq!(f.current_phase(), FetchPhase::PullRequests);
    assert_eq!(
        f.next_url(),
        Some("https://api.github.com/repos/octo/repo/pulls?state=all&per_page=100&sort=created&direction=desc".to_string())
    );
    f.on_page(PageEvent::PullRequests { next: None, items: vec![pr("alice", true)] });
    assert_eq!(f.current_phase(), FetchPhase::Issues);
    assert_eq!(
        f.next_url(),
        Some("https://api.github.com/repos/octo/repo/issues?state=all&per_page=100&sort=created&direction=desc".to_string())
    );
    f.on_page(PageEvent::Issues { next: None, items: vec![issue("bob", false)] });
    assert_eq!(f.current_phase(), FetchPhase::Finished);
    assert_eq!(f.next_url(), None);
    let data = f.outcome().unwrap();
    assert_eq!(data.contributors.get_or_zero("alice"), stats(7, 1, 1, 0));
    assert_eq!(data.contributors.get_or_zero("bob"), stats(2, 0, 0, 1));
}

#[test]
fn empty_repository_skips_to_pull_requests() {
    let mut f = RepoFetch::new("octo/empty");
    f.on_page(PageEvent::Status { code: 204, body: String::new() });
    assert_eq!(f.current_phase(), FetchPhase::PullRequests);
}

fn fail_contributors(code: u16, body: &str) -> GitHubError {
    let mut f = RepoFetch::new("octo/repo");
    f.on_page(PageEvent::Status { code, body: body.to_string() });
    assert_eq!(f.current_phase(), FetchPhase::Failed);
    match f.outcome() {
        Err(e) => e,
        Ok(_) => panic!("a failed fetch has no data"),
    }
}

#[test]
fn contributor_status_errors() {
    assert_eq!(fail_contributors(404, ""), GitHubError::NotFound);
    assert_eq!(
        fail_contributors(403, "The history or contributor list is too large to list contributors for this repository via the API."),
        GitHubError::RepoTooLarge
    );
    assert_eq!(fail_contributors(403, "API rate limit exceeded"), GitHubError::RateLimited);
    assert_eq!(fail_contributors(403, "Forbidden"), GitHubError::Forbidden);
    assert_eq!(fail_contributors(429, ""), GitHubError::RateLimited);
    assert_eq!(fail_contributors(500, "oops"), GitHubError::Server(500));
}

#[test]
fn request_failure_ends_the_fetch() {
    let mut f = RepoFetch::new("octo/repo");
    f.on_page(PageEvent::Contributors { next: None, items: vec![] });
    f.on_page(PageEvent::Failed("connection reset".to_string()));
    assert_eq!(f.current_phase(), FetchPhase::Failed);
    assert!(matches!(f.outcome(), Err(GitHubError::Request(m)) if m == "connection reset"));
}

#[test]
fn other_statuses_skip_pull_requests_and_issues() {
    let mut f = RepoFetch::new("octo/repo");
    f.on_page(PageEvent::Contributors { next: None, items: vec![contributor("a", 1)] });
    f.on_page(PageEvent::Status { code: 403, body: "rate limit".to_string() });
    assert_eq!(f.current_phase(), FetchPhase::Issues);
    f.on_page(PageEvent::Status { code: 500, body: String::new() });
    assert_eq!(f.current_phase(), FetchPhase::Finished);
    let data = f.outcome().unwrap();
    assert_eq!(data.contributors.get_or_zero("a"), stats(1, 0, 0, 0));
}

#[test]
fn page_limits_are_five_ten_ten() {
    assert_eq!((CONTRIBUTOR_PAGES, PULL_REQUEST_PAGES, ISSUE_PAGES), (5, 10, 10));
    let mut f = RepoFetch::new("big/repo");
    let mut requests = 0;
    while f.current_phase() == FetchPhase::Contributors {
        f.on_page(PageEvent::Contributors { next: Some("https://more".to_string()), items: vec![] });
        requests += 1;
    }
    assert_eq!(requests, 5);
    while f.current_phase() == FetchPhase::PullRequests {
        f.on_page(PageEvent::PullRequests { next: Some("https://more".to_string()), items: vec![] });
        requests += 1;
    }
    assert_eq!(requests, 15);
    while f.current_phase() == FetchPhase::Issues {
        f.on_page(PageEvent::Issues { next: Some("https://more".to_string()), items: vec![] });
        requests += 1;
    }
    assert_eq!(requests, 25);
    assert_eq!(f.current_phase(), FetchPhase::Finished);
}

#[test]
fn merged_never_exceeds_pull_requests() {
    let mut c = Contributors::new();
    c.add_contributors_page(&[contributor("a", 3), contributor("b", 1)]);
    c.add_pull_requests_page(&[pr("a", true), pr("a", false), pr("b", true), pr("c", false)]);
    c.add_issues_page(&[issue("a", false), issue("d", false)]);
    for (_, s) in c.entries() {
        assert!(0 <= s.merged_prs && s.merged_prs <= s.pull_requests);
    }
}
