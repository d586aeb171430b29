use github_roles::error::GitHubError;
use github_roles::tasks::refresh_worker::{
    next_worker_action, refresh_interval, WorkerAction, WorkerEvent, CALLS_PER_REPO, INITIAL_DELAY_SECS,
    MAX_REFRESH_SECS, MIN_REFRESH_SECS,
};

#[test]
fn refresh_interval_bounds_and_formula() {
    assert_eq!((MIN_REFRESH_SECS, MAX_REFRESH_SECS, CALLS_PER_REPO, INITIAL_DELAY_SECS), (1800, 86400, 20, 5));
    assert_eq!(refresh_interval(0, 4500), 1800);
    assert_eq!(refresh_interval(0, 0), 1800);
    assert_eq!(refresh_interval(-90, 4500), 1800);
    assert_eq!(refresh_interval(1, 4500), 1800);
    assert_eq!(refresh_interval(1000, 4500), 16000);
    assert_eq!(refresh_interval(1001, 4500), 16016);
    assert_eq!(refresh_interval(10_000, 4500), 86400);
    assert_eq!(refresh_interval(100, 1000), 7200);
}

#[test]
fn refresh_interval_grows_with_repositories() {
    let mut last = refresh_interval(0, 4500);
    for n in 1..2000 {
        let next = refresh_interval(n, 4500);
        assert!(next >= last);
        last = next;
    }
}

#[test]
fn worker_reactions() {
    assert_eq!(next_worker_action(&WorkerEvent::NothingDue), WorkerAction::Sleep { secs: 30 });
    assert_eq!(next_worker_action(&WorkerEvent::QueryFailed), WorkerAction::Sleep { secs: 5 });
    assert_eq!(next_worker_action(&WorkerEvent::Fetched), WorkerAction::StoreAndSync);
    assert_eq!(next_worker_action(&WorkerEvent::FetchFailed(GitHubError::RateLimited)), WorkerAction::Sleep { secs: 60 });
    assert_eq!(next_worker_action(&WorkerEvent::FetchFailed(GitHubError::NotFound)), WorkerAction::RetryAfter { secs: 3600 });
    assert_eq!(next_worker_action(&WorkerEvent::FetchFailed(GitHubError::RepoTooLarge)), WorkerAction::RetryWithBackoff);
    assert_eq!(next_worker_action(&WorkerEvent::FetchFailed(GitHubError::Server(502))), WorkerAction::RetryWithBackoff);
}
