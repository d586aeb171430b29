use github_roles::config::{derive_origin, trim_trailing_slashes, AppConfig, EnvVars, MissingVar};

fn vars() -> EnvVars {
    EnvVars {
        base_url: Some("https://roles.example.com/github-contributor-role".to_string()),
        auth_gateway_url: None,
        database_url: Some("postgres://db".to_string()),
        session_secret: Some("secret".to_string()),
        listen_addr: None,
        github_client_id: Some("gh-id".to_string()),
        github_client_secret: Some("gh-secret".to_string()),
        github_token: Some("token".to_string()),
        github_max_requests_per_hour: None,
        internal_api_key: Some("key".to_string()),
        discord_client_id: Some("dc-id".to_string()),
        discord_client_secret: Some("dc-secret".to_string()),
    }
}

#[test]
fn origin_of_urls() {
    assert_eq!(derive_origin("https://plugin.example.net/github/verify"), "https://plugin.example.net");
    assert_eq!(derive_origin("http://localhost:8090"), "http://localhost:8090");
    assert_eq!(derive_origin("http://localhost:8090/"), "http://localhost:8090");
    assert_eq!(derive_origin("no-scheme/path"), "no-scheme/path");
    assert_eq!(derive_origin(""), "");
}

#[test]
fn trailing_slashes_removed() {
    assert_eq!(trim_trailing_slashes("http://gw///"), "http://gw");
    assert_eq!(trim_trailing_slashes("http://gw"), "http://gw");
    assert_eq!(trim_trailing_slashes("///"), "");
}

#[test]
fn config_defaults() {
    let c = AppConfig::from_env_vars(vars()).ok().unwrap();
    assert_eq!(c.listen_addr, "0.0.0.0:8080");
    assert_eq!(c.github_max_requests_per_hour, 4500);
    assert_eq!(c.auth_gateway_url, "https://roles.example.com");
    assert_eq!(c.database_url, "postgres://db");
    assert_eq!(c.internal_api_key, "key");
}

#[test]
fn config_overrides() {
    let mut v = vars();
    v.auth_gateway_url = Some("http://localhost:8090/".to_string());
    v.listen_addr = Some("127.0.0.1:9000".to_string());
    v.github_max_requests_per_hour = Some("1200".to_string());
    let c = AppConfig::from_env_vars(v).ok().unwrap();
    assert_eq!(c.auth_gateway_url, "http://localhost:8090");
    assert_eq!(c.listen_addr, "127.0.0.1:9000");
    assert_eq!(c.github_max_requests_per_hour, 1200);
    let mut w = vars();
    w.github_max_requests_per_hour = Some("lots".to_string());
    assert_eq!(AppConfig::from_env_vars(w).ok().unwrap().github_max_requests_per_hour, 4500);
}

#[test]
fn config_missing_variables() {
    let mut v = vars();
    v.base_url = None;
    v.github_token = None;
    assert_eq!(AppConfig::from_env_vars(v).err(), Some(MissingVar::BaseUrl));
    let mut w = vars();
    w.github_token = None;
    w.internal_api_key = None;
    assert_eq!(AppConfig::from_env_vars(w).err(), Some(MissingVar::GithubToken));
    let mut x = vars();
    x.discord_client_secret = None;
    assert_eq!(AppConfig::from_env_vars(x).err(), Some(MissingVar::DiscordClientSecret));
}

#[test]
fn redirect_uris() {
    let c = AppConfig::from_env_vars(vars()).ok().unwrap();
    assert_eq!(c.github_oauth_redirect_uri(), "https://roles.example.com/github-contributor-role/verify/callback");
    assert_eq!(c.discord_oauth_redirect_uri(), "https://roles.example.com/github-contributor-role/verify/callback");
}
