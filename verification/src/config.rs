//! Service configuration: the values read from the environment, their
//! defaults, and the URLs derived from them.
use vstd::prelude::*;
use crate::strings::{
    chars_of, concat2, find_chars, find_char_after, first_index_of, first_occurrence, owned,
    parse_i64, parse_i64_spec, string_from_range,
};

verus! {

/// Configuration of the service.
#[derive(Clone)]
pub struct AppConfig {
    pub database_url: String,
    pub session_secret: String,
    pub base_url: String,
    pub listen_addr: String,
    pub github_client_id: String,
    pub github_client_secret: String,
    pub github_token: String,
    pub github_max_requests_per_hour: i64,
    /// Base URL of the Auth Gateway (without trailing slash, no `/auth` suffix).
    /// Used by the plugin to query guild membership via `/auth/internal/*`.
    /// In production this is usually the same origin as `BASE_URL`.
    pub auth_gateway_url: String,
    /// Shared secret for plugin to Auth Gateway server-to-server calls,
    /// sent in the `X-Internal-Key` header.
    pub internal_api_key: String,
    /// Discord OAuth application client ID.
    pub discord_client_id: String,
    /// Discord OAuth application client secret.
    pub discord_client_secret: String,
}

/// The environment variables the configuration is built from; `None` for
/// one that is unset (or not valid Unicode).
pub struct EnvVars {
    pub base_url: Option<String>,
    pub auth_gateway_url: Option<String>,
    pub database_url: Option<String>,
    pub session_secret: Option<String>,
    pub listen_addr: Option<String>,
    pub github_client_id: Option<String>,
    pub github_client_secret: Option<String>,
    pub github_token: Option<String>,
    pub github_max_requests_per_hour: Option<String>,
    pub internal_api_key: Option<String>,
    pub discord_client_id: Option<String>,
    pub discord_client_secret: Option<String>,
}

/// A required environment variable that is not set.
#[derive(Debug, Clone, Copy, PartialEq, Eq)]
pub enum MissingVar {
    BaseUrl,
    DatabaseUrl,
    SessionSecret,
    GithubClientId,
    GithubClientSecret,
    GithubToken,
    InternalApiKey,
    DiscordClientId,
    DiscordClientSecret,
}

/// Requests per hour allowed against the GitHub API when nothing else is configured.
pub const DEFAULT_MAX_REQUESTS_PER_HOUR: i64 = 4500;

/// Listen address when `LISTEN_ADDR` is not set.
pub const DEFAULT_LISTEN_ADDR: &'static str = "0.0.0.0:8080";

/// The origin (scheme, host and port) of a URL: everything before the
/// first `/` that follows the first `://`; the whole text when there is
/// no such `/` or no `://`.
pub open spec fn origin_of(s: Seq<char>) -> Seq<char> {
    match first_occurrence(s, "://"@) {
        Some(p) => {
            let after = p + "://"@.len();
            match first_index_of(s.subrange(after, s.len() as int), '/') {
                Some(q) => s.subrange(0, after + q),
                None => s,
            }
        },
        None => s,
    }
}

/// `s` without its trailing `/` characters (`trim_end_matches('/')`).
pub open spec fn without_trailing_slashes(s: Seq<char>) -> Seq<char>
    decreases s.len(),
{
    if s.len() > 0 && s.last() == '/' {
        without_trailing_slashes(s.drop_last())
    } else {
        s
    }
}

/// The origin of `base_url`, used as the Auth Gateway URL when none is configured.
pub fn derive_origin(base_url: &str) -> (res: String)
    ensures
        res@ == origin_of(base_url@),
{
    let v = chars_of(base_url);
    let sep = chars_of("://");
    let len = v.len();
    match find_chars(v.as_slice(), sep.as_slice()) {
        Some(p) => {
            assert(p + sep.len() <= len);
            let after = p + sep.len();
            match find_char_after(v.as_slice(), '/', after) {
                Some(q) => string_from_range(v.as_slice(), 0, q),
                None => owned(base_url),
            }
        },
        None => owned(base_url),
    }
}

/// `s` without its trailing `/` characters.
pub fn trim_trailing_slashes(s: &str) -> (res: String)
    ensures
        res@ == without_trailing_slashes(s@),
{
    let v = chars_of(s);
    let mut j = v.len();
    assert(v@.subrange(0, v@.len() as int) == v@);
    while j > 0 && v[j - 1] == '/'
        invariant
            j <= v@.len(),
            without_trailing_slashes(v@) == without_trailing_slashes(v@.subrange(0, j as int)),
        decreases j,
    {
        proof {
            let t = v@.subrange(0, j as int);
            assert(t.drop_last() == v@.subrange(0, j - 1));
        }
        j = j - 1;
    }
    proof {
        let t = v@.subrange(0, j as int);
        if j > 0 {
            assert(t.last() == v@[j - 1]);
        }
        assert(v@.subrange(0, v@.len() as int) == v@);
    }
    string_from_range(v.as_slice(), 0, j)
}

/// The value of `GITHUB_MAX_REQUESTS_PER_HOUR` when it parses as an `i64`,
/// else the default.
pub open spec fn max_requests_of(v: Option<Seq<char>>) -> i64 {
    match v {
        Some(t) => match parse_i64_spec(t) {
            Some(n) => n,
            None => DEFAULT_MAX_REQUESTS_PER_HOUR,
        },
        None => DEFAULT_MAX_REQUESTS_PER_HOUR,
    }
}

/// The first required variable (in the order they are read) that is unset.
pub open spec fn first_missing(v: EnvVars) -> Option<MissingVar> {
    if v.base_url is None {
        Some(MissingVar::BaseUrl)
    } else if v.database_url is None {
        Some(MissingVar::DatabaseUrl)
    } else if v.session_secret is None {
        Some(MissingVar::SessionSecret)
    } else if v.github_client_id is None {
        Some(MissingVar::GithubClientId)
    } else if v.github_client_secret is None {
        Some(MissingVar::GithubClientSecret)
    } else if v.github_token is None {
        Some(MissingVar::GithubToken)
    } else if v.internal_api_key is None {
        Some(MissingVar::InternalApiKey)
    } else if v.discord_client_id is None {
        Some(MissingVar::DiscordClientId)
    } else if v.discord_client_secret is None {
        Some(MissingVar::DiscordClientSecret)
    } else {
        None
    }
}

fn required(v: Option<String>, which: MissingVar) -> (res: Result<String, MissingVar>)
    ensures
        match v {
            Some(s) => res == Ok::<String, MissingVar>(s),
            None => res == Err::<String, MissingVar>(which),
        },
{
    match v {
        Some(s) => Ok(s),
        None => Err(which),
    }
}

impl AppConfig {
    /// Builds the configuration from the environment's values. A required
    /// variable that is unset is reported; `LISTEN_ADDR` defaults to
    /// `0.0.0.0:8080`, `GITHUB_MAX_REQUESTS_PER_HOUR` to 4500 (also when it
    /// does not parse), and `AUTH_GATEWAY_URL` (trailing slashes removed) to
    /// the origin of `BASE_URL`.
    pub fn from_env_vars(vars: EnvVars) -> (res: Result<AppConfig, MissingVar>)
        ensures
            first_missing(vars) is Some <==> res is Err,
            res matches Err(m) ==> first_missing(vars) == Some(m),
            res matches Ok(c) ==> {
                &&& c.base_url@ == vars.base_url->0@
                &&& c.database_url@ == vars.database_url->0@
                &&& c.session_secret@ == vars.session_secret->0@
                &&& c.github_client_id@ == vars.github_client_id->0@
                &&& c.github_client_secret@ == vars.github_client_secret->0@
                &&& c.github_token@ == vars.github_token->0@
                &&& c.internal_api_key@ == vars.internal_api_key->0@
                &&& c.discord_client_id@ == vars.discord_client_id->0@
                &&& c.discord_client_secret@ == vars.discord_client_secret->0@
                &&& c.listen_addr@ == match vars.listen_addr {
                    Some(l) => l@,
                    None => DEFAULT_LISTEN_ADDR@,
                }
                &&& c.auth_gateway_url@ == match vars.auth_gateway_url {
                    Some(a) => without_trailing_slashes(a@),
                    None => origin_of(vars.base_url->0@),
                }
                &&& c.github_max_requests_per_hour == max_requests_of(
                    match vars.github_max_requests_per_hour {
                        Some(t) => Some(t@),
                        None => None,
                    },
                )
            },
    {
        let ghost vars0 = vars;
        let EnvVars {
            base_url,
            auth_gateway_url,
            database_url,
            session_secret,
            listen_addr,
            github_client_id,
            github_client_secret,
            github_token,
            github_max_requests_per_hour,
            internal_api_key,
            discord_client_id,
            discord_client_secret,
        } = vars;
        let base_url = required(base_url, MissingVar::BaseUrl)?;
        let auth_gateway_url = match auth_gateway_url {
            Some(a) => trim_trailing_slashes(a.as_str()),
            None => derive_origin(base_url.as_str()),
        };
        let database_url = required(database_url, MissingVar::DatabaseUrl)?;
        let session_secret = required(session_secret, MissingVar::SessionSecret)?;
        let listen_addr = match listen_addr {
            Some(l) => l,
            None => owned(DEFAULT_LISTEN_ADDR),
        };
        let github_client_id = required(github_client_id, MissingVar::GithubClientId)?;
        let github_client_secret = required(github_client_secret, MissingVar::GithubClientSecret)?;
        let github_token = required(github_token, MissingVar::GithubToken)?;
        let max_req = match github_max_requests_per_hour {
            Some(t) => match parse_i64(t.as_str()) {
                Some(n) => n,
                None => DEFAULT_MAX_REQUESTS_PER_HOUR,
            },
            None => DEFAULT_MAX_REQUESTS_PER_HOUR,
        };
        let internal_api_key = required(internal_api_key, MissingVar::InternalApiKey)?;
        let discord_client_id = required(discord_client_id, MissingVar::DiscordClientId)?;
        let discord_client_secret = required(discord_client_secret, MissingVar::DiscordClientSecret)?;
        Ok(AppConfig {
            database_url,
            session_secret,
            base_url,
            listen_addr,
            github_client_id,
            github_client_secret,
            github_token,
            github_max_requests_per_hour: max_req,
            auth_gateway_url,
            internal_api_key,
            discord_client_id,
            discord_client_secret,
        })
    }

    /// Where GitHub sends the user back after authorizing the app.
    pub fn github_oauth_redirect_uri(&self) -> (res: String)
        ensures
            res@ == self.base_url@ + "/verify/callback"@,
    {
        concat2(self.base_url.as_str(), "/verify/callback")
    }

    /// Where Discord sends the user back after authorizing the app.
    pub fn discord_oauth_redirect_uri(&self) -> (res: String)
        ensures
            res@ == self.base_url@ + "/verify/callback"@,
    {
        concat2(self.base_url.as_str(), "/verify/callback")
    }
}

} // verus!
