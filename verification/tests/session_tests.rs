use github_roles::error::AppError;
use github_roles::services::discord_oauth::{
    refreshed_tokens, sign_session, sign_session_at, split_session_cookie, user_identity, verify_session,
    verify_session_at, SESSION_TTL_SECS,
};
use hmac::{Hmac, Mac};
use sha2::Sha256;

fn reference_signature(secret: &str, payload: &str) -> String {
    let mut mac = Hmac::<Sha256>::new_from_slice(secret.as_bytes()).unwrap();
    mac.update(payload.as_bytes());
    hex::encode(mac.finalize().into_bytes())
}

fn encoded_name(token: &str) -> String {
    token.split(':').nth(1).unwrap().to_string()
}

#[test]
fn names_are_percent_encoded_in_the_token() {
    assert_eq!(encoded_name(&sign_session_at("1", "abcXYZ019-_.~", "k", 0)), "abcXYZ019-_.~");
    assert_eq!(encoded_name(&sign_session_at("1", "Hello World!", "k", 0)), "Hello%20World%21");
    assert_eq!(encoded_name(&sign_session_at("1", "a:b/c", "k", 0)), "a%3Ab%2Fc");
    assert_eq!(encoded_name(&sign_session_at("1", "é", "k", 0)), "%C3%A9");
    assert_eq!(encoded_name(&sign_session_at("1", "", "k", 0)), "");
}

#[test]
fn names_decode_back() {
    for name in ["Alice B", "名前", "x%y", "a+b", "~tilde~", "", "a:b:c"] {
        let token = sign_session_at("5", name, "k", 100);
        assert_eq!(verify_session_at(&token, "k", 100), Some(("5".to_string(), name.to_string())));
    }
}

#[test]
fn undecodable_name_is_rejected() {
    let payload = "5:%FF:9999999999";
    let cookie = format!("{payload}:{}", reference_signature("k", payload));
    assert_eq!(verify_session_at(&cookie, "k", 0), None);
    let payload = "5:%41b:9999999999";
    let cookie = format!("{payload}:{}", reference_signature("k", payload));
    assert_eq!(verify_session_at(&cookie, "k", 0), Some(("5".to_string(), "Ab".to_string())));
}

#[test]
fn signature_is_lowercase_hex_hmac_sha256() {
    let token = sign_session_at("42", "Nick", "Jefe", 1_700_000_000);
    let (payload, sig) = token.rsplit_once(':').unwrap();
    assert_eq!(payload, "42:Nick:1700003600");
    assert_eq!(sig, reference_signature("Jefe", payload));
    assert_eq!(sig.len(), 64);
    assert!(sig.chars().all(|c| c.is_ascii_digit() || ('a'..='f').contains(&c)));
}

#[test]
fn live_token_expires_an_hour_from_now() {
    let token = sign_session("7", "Bob", "k");
    let expires: i64 = token.split(':').nth(2).unwrap().parse().unwrap();
    assert!(expires > 1_600_000_000 + 3600);
}

#[test]
fn signed_token_has_the_documented_layout() {
    assert_eq!(SESSION_TTL_SECS, 3600);
    let token = sign_session_at("123", "Alice B", "secret", 1000);
    assert_eq!(
        token,
        "123:Alice%20B:4600:b7ad647a8a0b3d97beb0227884419ae59bf2df6d436d42956caf721f40c26a59"
    );
}

#[test]
fn session_round_trip() {
    let token = sign_session_at("42", "Nick: the \"great\"", "s3cret", 1_700_000_000);
    assert_eq!(
        verify_session_at(&token, "s3cret", 1_700_000_000),
        Some(("42".to_string(), "Nick: the \"great\"".to_string()))
    );
    assert_eq!(
        verify_session_at(&token, "s3cret", 1_700_003_600),
        Some(("42".to_string(), "Nick: the \"great\"".to_string()))
    );
    let live = sign_session("7", "Bob", "k");
    assert_eq!(verify_session(&live, "k"), Some(("7".to_string(), "Bob".to_string())));
}

#[test]
fn session_expires_after_an_hour() {
    let token = sign_session_at("42", "Nick", "s3cret", 1_700_000_000);
    assert_eq!(verify_session_at(&token, "s3cret", 1_700_003_601), None);
}

#[test]
fn session_rejects_wrong_secret_and_tampering() {
    let token = sign_session_at("42", "Nick", "s3cret", 1_700_000_000);
    assert_eq!(verify_session_at(&token, "other", 1_700_000_000), None);
    let forged = token.replacen("42", "43", 1);
    assert_eq!(verify_session_at(&forged, "s3cret", 1_700_000_000), None);
    let extended = token.replacen("1700003600", "1800003600", 1);
    assert_eq!(verify_session_at(&extended, "s3cret", 1_700_000_000), None);
}

#[test]
fn session_rejects_malformed_cookies() {
    assert_eq!(verify_session_at("", "s", 0), None);
    assert_eq!(verify_session_at("a:b:c", "s", 0), None);
    assert_eq!(verify_session_at("a:b:notanumber:sig", "s", 0), None);
}

#[test]
fn cookie_splits_into_four_parts() {
    assert_eq!(
        split_session_cookie("a:b:c:d:e"),
        Some(("a".to_string(), "b".to_string(), "c".to_string(), "d:e".to_string()))
    );
    assert_eq!(split_session_cookie("a:b:c"), None);
    assert_eq!(
        split_session_cookie(":::"),
        Some((String::new(), String::new(), String::new(), String::new()))
    );
}

#[test]
fn refresh_needs_a_refresh_token() {
    assert_eq!(
        refreshed_tokens("acc".to_string(), Some("ref".to_string())),
        Ok(("acc".to_string(), "ref".to_string()))
    );
    assert_eq!(
        refreshed_tokens("acc".to_string(), None),
        Err(AppError::Internal("Discord token refresh returned no refresh_token".to_string()))
    );
}

#[test]
fn display_name_prefers_global_name() {
    assert_eq!(
        user_identity("1".to_string(), "user".to_string(), Some("Global".to_string())),
        ("1".to_string(), "Global".to_string())
    );
    assert_eq!(
        user_identity("1".to_string(), "user".to_string(), None),
        ("1".to_string(), "user".to_string())
    );
}
