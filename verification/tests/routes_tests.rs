use github_roles::config::AppConfig;
use github_roles::error::AppError;
use github_roles::routes::verification::{
    callback_code, check_link_allowed, check_oauth_state, get_session, login_redirect_url, new_oauth_state,
    render_verify_page, status_json, unlink_target, verify_home_url, CallbackQuery, SESSION_COOKIE, SUCCESS_JSON,
};
use github_roles::services::discord_oauth::{sign_session, DiscordOAuth};
use github_roles::services::github_oauth::github_authorize_url;

fn config() -> AppConfig {
    AppConfig {
        database_url: "postgres://db".to_string(),
        session_secret: "secret".to_string(),
        base_url: "https://roles.example.com".to_string(),
        listen_addr: "0.0.0.0:8080".to_string(),
        github_client_id: "gh-id".to_string(),
        github_client_secret: "gh-secret".to_string(),
        github_token: "ghp".to_string(),
        github_max_requests_per_hour: 4500,
        auth_gateway_url: "https://roles.example.com".to_string(),
        internal_api_key: "key".to_string(),
        discord_client_id: "dc-id".to_string(),
        discord_client_secret: "dc-secret".to_string(),
    }
}

#[test]
fn page_embeds_the_base_url() {
    let page = render_verify_page("https://roles.example.com");
    assert!(page.starts_with("<!DOCTYPE html>"));
    assert!(page.contains("<link rel=\"icon\" href=\"https://roles.example.com/favicon.ico\""));
    assert!(page.contains("<a href=\"https://roles.example.com/verify/login\" class=\"btn btn-discord\">"));
    assert!(page.contains("const API = 'https://roles.example.com';"));
    assert!(page.ends_with("</html>"));
}

#[test]
fn status_body() {
    assert_eq!(
        status_json("1", "Al \"x\"", Some("octocat")),
        "{\"discord_id\":\"1\",\"display_name\":\"Al \\\"x\\\"\",\"github_username\":\"octocat\"}"
    );
    assert_eq!(status_json("1", "n", None), "{\"discord_id\":\"1\",\"display_name\":\"n\",\"github_username\":null}");
    assert_eq!(SUCCESS_JSON, "{\"success\":true}");
}

#[test]
fn sessions_from_cookies() {
    assert_eq!(SESSION_COOKIE, "rl_session");
    assert_eq!(get_session(None, "k"), Err(AppError::Unauthorized));
    assert_eq!(get_session(Some("garbage"), "k"), Err(AppError::Unauthorized));
    let token = sign_session("99", "Zed", "k");
    assert_eq!(get_session(Some(&token), "k"), Ok(("99".to_string(), "Zed".to_string())));
    assert_eq!(get_session(Some(&token), "other"), Err(AppError::Unauthorized));
}

#[test]
fn redirects() {
    assert_eq!(login_redirect_url(), "/auth/login?return_to=%2Fgithub-contributor-role%2Fverify");
    assert_eq!(verify_home_url("https://x.y"), "https://x.y/verify");
    let s = new_oauth_state();
    assert_eq!(s.len(), 32);
    assert!(s.chars().all(|c| c.is_ascii_alphanumeric()));
}

#[test]
fn authorize_urls() {
    let c = config();
    assert_eq!(
        github_authorize_url(&c, "st8"),
        "https://github.com/login/oauth/authorize?client_id=gh-id&redirect_uri=https%3A%2F%2Froles.example.com%2Fverify%2Fcallback&scope=read:user&state=st8"
    );
    assert_eq!(
        DiscordOAuth::authorize_url(&c, "st8"),
        "https://discord.com/oauth2/authorize?client_id=dc-id&redirect_uri=https%3A%2F%2Froles.example.com%2Fverify%2Fcallback&response_type=code&scope=identify%20guilds&state=st8"
    );
}

#[test]
fn callback_query_handling() {
    let q = CallbackQuery { code: Some("abc".to_string()), state: "s".to_string(), error: None };
    assert_eq!(callback_code(&q), Some("abc".to_string()));
    let q = CallbackQuery { code: Some("abc".to_string()), state: "s".to_string(), error: Some("access_denied".to_string()) };
    assert_eq!(callback_code(&q), None);
    let q = CallbackQuery { code: None, state: "s".to_string(), error: None };
    assert_eq!(callback_code(&q), None);
    assert_eq!(check_oauth_state(true), Ok(()));
    assert_eq!(check_oauth_state(false), Err(AppError::BadRequest("Invalid or expired OAuth state".to_string())));
}

#[test]
fn linking_rules() {
    assert_eq!(check_link_allowed("1", None, None), Ok(()));
    assert_eq!(check_link_allowed("1", Some("1".to_string()), None), Ok(()));
    assert_eq!(
        check_link_allowed("1", Some("2".to_string()), None),
        Err(AppError::BadRequest("This GitHub account is already linked to another Discord user".to_string()))
    );
    assert_eq!(
        check_link_allowed("1", Some("2".to_string()), Some("old".to_string())),
        Err(AppError::BadRequest("This GitHub account is already linked to another Discord user".to_string()))
    );
    assert_eq!(
        check_link_allowed("1", None, Some("old".to_string())),
        Err(AppError::BadRequest("You already have a linked GitHub account. Unlink it first.".to_string()))
    );
    assert_eq!(unlink_target(Some("octocat".to_string())), Ok("octocat".to_string()));
    assert_eq!(unlink_target(None), Err(AppError::NotFound("No linked account found".to_string())));
}

#[test]
fn status_escaping_agrees_with_serde_json() {
    for s in ["plain", "q\"uote", "back\\slash", "nl\nnl", "\u{1}\u{1f}\u{7f}", "tab\t\r\u{8}\u{c}", "émoji 😀", ""] {
        let q = serde_json::to_string(s).unwrap();
        assert_eq!(
            status_json(s, s, Some(s)),
            format!("{{\"discord_id\":{q},\"display_name\":{q},\"github_username\":{q}}}")
        );
    }
}

#[test]
fn allowed_links_keep_one_row_per_id() {
    let rows: Vec<(&str, &str, i64)> = vec![("d1", "alice", 1), ("d2", "bob", 2)];
    let owner = |gid: i64| rows.iter().find(|r| r.2 == gid).map(|r| r.0.to_string());
    let linked = |d: &str| rows.iter().find(|r| r.0 == d).map(|r| r.1.to_string());
    assert_eq!(check_link_allowed("d3", owner(3), linked("d3")), Ok(()));
    assert!(check_link_allowed("d3", owner(1), linked("d3")).is_err());
    assert!(check_link_allowed("d1", owner(3), linked("d1")).is_err());
    assert!(check_link_allowed("d1", owner(1), linked("d1")).is_err());
}

#[test]
fn page_holds_the_base_url_three_times() {
    let empty = render_verify_page("");
    let page = render_verify_page("https://x.y");
    assert_eq!(page.len(), empty.len() + 3 * "https://x.y".len());
    assert_eq!(page.matches("https://x.y").count(), 3);
    assert!(!page.contains("{{") && !page.contains("}}"));
    assert!(page.contains("* { box-sizing: border-box; margin: 0; padding: 0; }"));
}
