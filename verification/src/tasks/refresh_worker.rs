//! The refresh worker's decisions: how often a repository is refreshed and
//! what follows each outcome of a refresh.
use vstd::prelude::*;
use crate::error::GitHubError;

verus! {

/// Shortest refresh interval, in seconds (30 minutes).
pub const MIN_REFRESH_SECS: i64 = 1800;

/// Longest refresh interval, in seconds (24 hours).
pub const MAX_REFRESH_SECS: i64 = 86400;

/// Average API calls one repository refresh makes.
pub const CALLS_PER_REPO: i64 = 20;

/// Seconds the worker waits before its first round.
pub const INITIAL_DELAY_SECS: u64 = 5;

/// `a / b` rounded toward zero, as Rust's integer division does.
pub open spec fn div_toward_zero(a: int, b: int) -> int {
    let q = (if a >= 0 { a } else { -a }) / (if b >= 0 { b } else { -b });
    if (a >= 0) == (b > 0) || a == 0 {
        q
    } else {
        -q
    }
}

/// `x` limited to the range from `lo` to `hi`.
pub open spec fn clamp(x: int, lo: int, hi: int) -> int {
    if x < lo {
        lo
    } else if x > hi {
        hi
    } else {
        x
    }
}

/// Seconds between refreshes of each repository so that refreshing all
/// `repo_count` repositories stays within `max_requests_per_hour` API calls,
/// kept between 30 minutes and 24 hours.
pub open spec fn refresh_interval_spec(repo_count: int, max_requests_per_hour: int) -> int {
    if repo_count == 0 {
        MIN_REFRESH_SECS as int
    } else {
        clamp(
            div_toward_zero(repo_count * 3600 * CALLS_PER_REPO, max_requests_per_hour),
            MIN_REFRESH_SECS as int,
            MAX_REFRESH_SECS as int,
        )
    }
}

/// The refresh interval for `repo_count` tracked repositories under a
/// budget of `max_requests_per_hour` GitHub API calls.
pub fn refresh_interval(repo_count: i64, max_requests_per_hour: i64) -> (res: i64)
    requires
        repo_count != 0 ==> max_requests_per_hour != 0,
        i64::MIN <= repo_count * 3600 * CALLS_PER_REPO <= i64::MAX,
    ensures
        res == refresh_interval_spec(repo_count as int, max_requests_per_hour as int),
        MIN_REFRESH_SECS <= res <= MAX_REFRESH_SECS,
{
    if repo_count == 0 {
        return MIN_REFRESH_SECS;
    }
    let p: i128 = repo_count as i128 * 3600 * 20;
    let a: u128 = if p >= 0 {
        p as u128
    } else {
        (-p) as u128
    };
    let m: i128 = max_requests_per_hour as i128;
    let b: u128 = if m >= 0 {
        m as u128
    } else {
        (-m) as u128
    };
    let q: u128 = a / b;
    assert(q <= a);
    let signed: i128 = if (p >= 0) == (m > 0) || p == 0 {
        q as i128
    } else {
        -(q as i128)
    };
    if signed < MIN_REFRESH_SECS as i128 {
        MIN_REFRESH_SECS
    } else if signed > MAX_REFRESH_SECS as i128 {
        MAX_REFRESH_SECS
    } else {
        signed as i64
    }
}

/// Law: tracking more repositories never shortens the refresh interval.
pub proof fn lemma_refresh_interval_monotone(c1: int, c2: int, max_requests_per_hour: int)
    requires
        0 <= c1 <= c2,
        max_requests_per_hour != 0,
    ensures
        refresh_interval_spec(c1, max_requests_per_hour) <= refresh_interval_spec(
            c2,
            max_requests_per_hour,
        ),
{
    if c1 > 0 {
        let p1 = c1 * 3600 * CALLS_PER_REPO;
        let p2 = c2 * 3600 * CALLS_PER_REPO;
        assert(0 <= p1 <= p2);
        let m = if max_requests_per_hour >= 0 { max_requests_per_hour } else { -max_requests_per_hour };
        assert(p1 / m <= p2 / m) by (nonlinear_arith)
            requires
                0 <= p1 <= p2,
                m > 0,
        ;
        assert(p1 / m >= 0) by (nonlinear_arith)
            requires
                0 <= p1,
                m > 0,
        ;
    }
}

/// Law: with `n` repositories and a positive budget of `m` calls an hour,
/// the interval is the number of whole seconds in which `m` calls an hour
/// cover the `n * 3600 * 20` calls needed, kept between 30 minutes and 24
/// hours: above the floor, `m` calls an hour for the interval's seconds
/// stay within the calls needed; below the cap, one second more would
/// exceed them. So a larger budget never lengthens the interval.
pub proof fn lemma_refresh_interval_fits_the_budget(n: int, m: int, m2: int)
    requires
        n > 0,
        m > 0,
        m <= m2,
    ensures
        ({
            let r = refresh_interval_spec(n, m);
            let needed = n * 3600 * CALLS_PER_REPO;
            &&& MIN_REFRESH_SECS <= r <= MAX_REFRESH_SECS
            &&& r > MIN_REFRESH_SECS ==> r * m <= needed
            &&& r < MAX_REFRESH_SECS ==> needed < (r + 1) * m
        }),
        refresh_interval_spec(n, m2) <= refresh_interval_spec(n, m),
{
    let p = n * 3600 * CALLS_PER_REPO;
    assert(p > 0);
    let q = p / m;
    assert(q * m <= p && p < (q + 1) * m && q >= 0) by (nonlinear_arith)
        requires
            p > 0,
            m > 0,
            q == p / m,
    ;
    assert(div_toward_zero(p, m) == q);
    let r = refresh_interval_spec(n, m);
    if q > MAX_REFRESH_SECS {
        assert(r * m <= p) by (nonlinear_arith)
            requires
                r < q,
                q * m <= p,
                m > 0,
        ;
    }
    if q < MIN_REFRESH_SECS {
        assert(p < (r + 1) * m) by (nonlinear_arith)
            requires
                q < r,
                p < (q + 1) * m,
                m > 0,
        ;
    }
    let q2 = p / m2;
    assert(q2 <= q) by (nonlinear_arith)
        requires
            p > 0,
            0 < m <= m2,
            q == p / m,
            q2 == p / m2,
    ;
    assert(div_toward_zero(p, m2) == q2);
}

/// What the worker met in one round.
pub enum WorkerEvent {
    /// No repository is due for a refresh.
    NothingDue,
    /// Looking for a due repository failed.
    QueryFailed,
    /// The repository's data was fetched.
    Fetched,
    /// Fetching the repository's data failed.
    FetchFailed(GitHubError),
}

/// What the worker does next.
#[allow(inconsistent_fields)]
#[derive(Debug, Clone, Copy, PartialEq, Eq, Structural)]
pub enum WorkerAction {
    /// Wait this many seconds, then start the next round.
    Sleep { secs: u64 },
    /// Store the fetched data, schedule the next refresh and re-evaluate
    /// the linked users who contributed.
    StoreAndSync,
    /// Count a failure and retry the repository after this many seconds.
    RetryAfter { secs: i64 },
    /// Count a failure and retry after 60 seconds doubled per earlier
    /// failure, at most an hour.
    RetryWithBackoff,
}

/// The worker's response to what it met: idle 30 s when nothing is due,
/// 5 s after a database error, store fetched data, wait 60 s when rate
/// limited, retry a missing repository after an hour, and back off
/// exponentially after other failures.
pub fn next_worker_action(event: &WorkerEvent) -> (res: WorkerAction)
    ensures
        res == match event {
            WorkerEvent::NothingDue => WorkerAction::Sleep { secs: 30 },
            WorkerEvent::QueryFailed => WorkerAction::Sleep { secs: 5 },
            WorkerEvent::Fetched => WorkerAction::StoreAndSync,
            WorkerEvent::FetchFailed(GitHubError::RateLimited) => WorkerAction::Sleep { secs: 60 },
            WorkerEvent::FetchFailed(GitHubError::NotFound) => WorkerAction::RetryAfter { secs: 3600 },
            WorkerEvent::FetchFailed(_) => WorkerAction::RetryWithBackoff,
        },
{
    match event {
        WorkerEvent::NothingDue => WorkerAction::Sleep { secs: 30 },
        WorkerEvent::QueryFailed => WorkerAction::Sleep { secs: 5 },
        WorkerEvent::Fetched => WorkerAction::StoreAndSync,
        WorkerEvent::FetchFailed(GitHubError::RateLimited) => WorkerAction::Sleep { secs: 60 },
        WorkerEvent::FetchFailed(GitHubError::NotFound) => WorkerAction::RetryAfter { secs: 3600 },
        WorkerEvent::FetchFailed(_) => WorkerAction::RetryWithBackoff,
    }
}

} // verus!
