//! Error values of the service.
use vstd::prelude::*;

verus! {

/// Errors that a request handler or a background task reports.
#[derive(Debug, Clone, PartialEq, Eq)]
pub enum AppError {
    /// The request is malformed; the message says why.
    BadRequest(String),
    /// No valid session accompanies the request.
    Unauthorized,
    /// The requested record does not exist.
    NotFound(String),
    /// A dependency failed; the message says which.
    Internal(String),
    /// The role link cannot take more users.
    UserLimitReached { limit: u64 },
}

/// Errors from the GitHub REST API.
#[derive(Debug, Clone, PartialEq, Eq)]
pub enum GitHubError {
    /// The repository does not exist (HTTP 404).
    NotFound,
    /// GitHub refuses to list the contributors of a repository this large.
    RepoTooLarge,
    /// The API rate limit is exhausted.
    RateLimited,
    /// Access is forbidden for another reason (HTTP 403).
    Forbidden,
    /// Any other unexpected HTTP status.
    Server(u16),
    /// The request could not be sent or its body not be decoded.
    Request(String),
}

/// Whether `e` is a `BadRequest` carrying exactly the message `msg`.
pub open spec fn is_bad_request(e: AppError, msg: Seq<char>) -> bool {
    e matches AppError::BadRequest(m) && m@ == msg
}

/// Whether `e` is a `NotFound` carrying exactly the message `msg`.
pub open spec fn is_not_found(e: AppError, msg: Seq<char>) -> bool {
    e matches AppError::NotFound(m) && m@ == msg
}

/// Whether `e` is an `Internal` error carrying exactly the message `msg`.
pub open spec fn is_internal(e: AppError, msg: Seq<char>) -> bool {
    e matches AppError::Internal(m) && m@ == msg
}

/// A `BadRequest` with the given message.
pub fn bad_request(msg: &str) -> (e: AppError)
    ensures
        is_bad_request(e, msg@),
{
    AppError::BadRequest(msg.to_owned())
}

} // verus!
