# github_roles

A RoleLogic plugin backend that tracks GitHub contribution activity
(commits, pull requests, merged pull requests, issues) per repository and
decides which Discord members qualify for a role under an admin-configured
condition such as "commits >= 10 on owner/repo".

The decision logic is written in Verus and verified:

- `src/models`, `src/services/condition_eval.rs`: conditions and their
  evaluation against a contributor's statistics.
- `src/schema.rs`: the configuration form shown in the dashboard and the
  parsing of what an admin submits, with the law that the values the form
  shows parse back to the same condition.
- `src/services/github.rs`: aggregation of the GitHub listings into
  per-user statistics, the `Link` header, and the page-by-page fetch as a
  state machine that never makes more than 25 requests per repository.
- `src/services/discord_oauth.rs`, `src/services/github_oauth.rs`: the
  authorization URLs and the HMAC-signed session cookie, with the laws that
  a cookie is accepted for an hour, refused afterwards, and only with the
  signature its secret gives it.
- `src/services/sync.rs`: which role assignments to add or remove for a
  player, and the SQL that selects the qualifying members of a role link.
- `src/tasks/refresh_worker.rs`: the refresh interval and what the refresh
  worker does after each round.
- `src/routes/verification.rs`: the decisions of the verification pages.
- `src/encoding.rs`: the calls into `urlencoding`, `hex`, `hmac`/`sha2`,
  `chrono` and `rand`, each behind a trusted item with a stated contract.

`app/` holds the unverified service around the library: the environment,
HTTP calls, database queries, axum handlers and the background loop.
`tests/` runs the library on concrete values.
