//! Discord OAuth and the signed session cookie that remembers who signed in.
use vstd::prelude::*;
use vstd::utf8::encode_utf8;
use crate::config::AppConfig;
use crate::encoding::{
    clock_bound, hex_encode, hex_text, hmac_sha256, hmac_sha256_spec, lemma_url_encode_roundtrip,
    unix_now, url_decode, url_decode_spec, url_encode, url_encode_spec,
};
use crate::error::{AppError, is_internal};
use crate::strings::{
    chars_of, find_char_after, first_index_of, i64_text, int_text, lemma_first_index_of_is,
    lemma_int_text_parse, owned, parse_i64, parse_i64_spec, push_char, str_eq, string_from_range,
};

pub use crate::services::github_oauth::github_authorize_url;

verus! {

/// `reqwest::Client`, the HTTP client the Discord calls go through; its
/// contents are not looked into.
#[verifier::external_type_specification]
#[verifier::external_body]
pub struct ExReqwestClient(reqwest::Client);

/// Discord OAuth client: the HTTP client its calls go through.
pub struct DiscordOAuth {
    http: reqwest::Client,
}

/// The Discord authorization URL for the app (scopes `identify` and
/// `guilds`), carrying `state`.
pub open spec fn discord_authorize_url_spec(client_id: Seq<char>, redirect_uri: Seq<char>, state: Seq<char>) -> Seq<char> {
    "https://discord.com/oauth2/authorize?client_id="@ + client_id + "&redirect_uri="@
        + url_encode_spec(redirect_uri) + "&response_type=code&scope=identify%20guilds&state="@
        + state
}

impl DiscordOAuth {
    /// The HTTP client the calls go through.
    pub closed spec fn client(&self) -> reqwest::Client {
        self.http
    }

    /// A Discord OAuth client that sends its requests through `http`.
    pub fn with_client(http: reqwest::Client) -> (res: Self)
        ensures
            res.client() == http,
    {
        Self { http }
    }

    /// The HTTP client the calls go through.
    pub fn http(&self) -> (res: &reqwest::Client)
        ensures
            *res == self.client(),
    {
        &self.http
    }

    /// Where to send a member to sign in with Discord.
    pub fn authorize_url(config: &AppConfig, state: &str) -> (res: String)
        ensures
            res@ == discord_authorize_url_spec(
                config.discord_client_id@,
                config.base_url@ + "/verify/callback"@,
                state@,
            ),
    {
        let redirect_uri = config.discord_oauth_redirect_uri();
        let mut url = owned("https://discord.com/oauth2/authorize?client_id=");
        url.append(config.discord_client_id.as_str());
        url.append("&redirect_uri=");
        let enc = url_encode(redirect_uri.as_str());
        url.append(enc.as_str());
        url.append("&response_type=code&scope=identify%20guilds&state=");
        url.append(state);
        url
    }
}

/// The tokens a refresh yields: the new access token and the new refresh
/// token, which Discord must return.
pub fn refreshed_tokens(access_token: String, refresh_token: Option<String>) -> (res: Result<(String, String), AppError>)
    ensures
        match refresh_token {
            Some(r) => res matches Ok((a, r2)) && a == access_token && r2 == r,
            None => res matches Err(e) && is_internal(
                e,
                "Discord token refresh returned no refresh_token"@,
            ),
        },
{
    match refresh_token {
        Some(r) => Ok((access_token, r)),
        None => Err(AppError::Internal(owned("Discord token refresh returned no refresh_token"))),
    }
}

/// A Discord user's ID and the name to show: the global name when set,
/// else the username.
pub fn user_identity(id: String, username: String, global_name: Option<String>) -> (res: (String, String))
    ensures
        res.0 == id,
        res.1 == match global_name {
            Some(g) => g,
            None => username,
        },
{
    let display_name = match global_name {
        Some(g) => g,
        None => username,
    };
    (id, display_name)
}

/// How long a session stays valid, in seconds.
pub const SESSION_TTL_SECS: i64 = 3600;

/// The signed part of a session cookie.
pub open spec fn session_payload(discord_id: Seq<char>, encoded_name: Seq<char>, expires: Seq<char>) -> Seq<char> {
    discord_id + seq![':'] + encoded_name + seq![':'] + expires
}

/// The signature of a payload: lowercase hex of its HMAC-SHA256 under the secret.
pub open spec fn session_signature(payload: Seq<char>, secret: Seq<char>) -> Seq<char> {
    hex_text(hmac_sha256_spec(encode_utf8(secret), encode_utf8(payload)))
}

/// The session cookie issued at Unix time `now`:
/// `discord_id:urlencoded(display_name):expires:signature`, expiring an hour later.
pub open spec fn session_token(discord_id: Seq<char>, display_name: Seq<char>, secret: Seq<char>, now: int) -> Seq<char> {
    let payload = session_payload(discord_id, url_encode_spec(display_name), int_text(now + 3600));
    payload + seq![':'] + session_signature(payload, secret)
}

/// `splitn(4, ':')` when it yields four parts.
pub open spec fn split_four(c: Seq<char>) -> Option<(Seq<char>, Seq<char>, Seq<char>, Seq<char>)> {
    match first_index_of(c, ':') {
        None => None,
        Some(a) => {
            let r1 = c.subrange(a + 1, c.len() as int);
            match first_index_of(r1, ':') {
                None => None,
                Some(b) => {
                    let r2 = r1.subrange(b + 1, r1.len() as int);
                    match first_index_of(r2, ':') {
                        None => None,
                        Some(d) => Some(
                            (
                                c.subrange(0, a),
                                r1.subrange(0, b),
                                r2.subrange(0, d),
                                r2.subrange(d + 1, r2.len() as int),
                            ),
                        ),
                    }
                },
            }
        },
    }
}

/// Who a session cookie names, checked at Unix time `now`: absent when it
/// is malformed, expired, wrongly signed or names an undecodable name.
pub open spec fn verify_session_spec(cookie: Seq<char>, secret: Seq<char>, now: int) -> Option<(Seq<char>, Seq<char>)> {
    match split_four(cookie) {
        None => None,
        Some((id, encoded_name, expires_text, sig)) => match parse_i64_spec(expires_text) {
            None => None,
            Some(expires) => if now > expires {
                None
            } else if sig != session_signature(session_payload(id, encoded_name, expires_text), secret) {
                None
            } else {
                match url_decode_spec(encoded_name) {
                    None => None,
                    Some(name) => Some((id, name)),
                }
            },
        },
    }
}

/// The session cookie for a Discord user, issued at Unix time `now`.
pub fn sign_session_at(discord_id: &str, display_name: &str, secret: &str, now: i64) -> (res: String)
    requires
        -clock_bound() <= now <= clock_bound(),
    ensures
        res@ == session_token(discord_id@, display_name@, secret@, now as int),
{
    let expires = now + SESSION_TTL_SECS;
    let encoded_name = url_encode(display_name);
    let expires_text = i64_text(expires);
    let mut payload = owned(discord_id);
    push_char(&mut payload, ':');
    payload.append(encoded_name.as_str());
    push_char(&mut payload, ':');
    payload.append(expires_text.as_str());
    assert(payload@ =~= session_payload(discord_id@, url_encode_spec(display_name@), int_text(now + 3600)));
    let tag = hmac_sha256(secret.as_bytes(), payload.as_str().as_bytes());
    let sig = hex_encode(tag.as_slice());
    assert(sig@ == session_signature(payload@, secret@));
    let mut token = payload;
    push_char(&mut token, ':');
    token.append(sig.as_str());
    assert(token@ =~= session_token(discord_id@, display_name@, secret@, now as int));
    token
}

/// The session cookie for a Discord user, valid for an hour from now.
pub fn sign_session(discord_id: &str, display_name: &str, secret: &str) -> (res: String)
    ensures
        exists|t: int|
            0 <= t <= clock_bound() && res@ == session_token(
                discord_id@,
                display_name@,
                secret@,
                t,
            ),
{
    let now = unix_now();
    sign_session_at(discord_id, display_name, secret, now)
}

/// The four `:`-separated parts of a session cookie (the last one keeps
/// any further `:`), when there are at least three separators.
pub fn split_session_cookie(cookie_value: &str) -> (res: Option<(String, String, String, String)>)
    ensures
        match res {
            Some((p0, p1, p2, p3)) => split_four(cookie_value@) == Some((p0@, p1@, p2@, p3@)),
            None => split_four(cookie_value@) is None,
        },
{
    let v = chars_of(cookie_value);
    let n = v.len();
    let ghost c = cookie_value@;
    assert(v@.subrange(0, n as int) == v@);
    let a = match find_char_after(v.as_slice(), ':', 0) {
        Some(a) => a,
        None => {
            return None;
        },
    };
    let ghost r1 = c.subrange(a + 1, c.len() as int);
    let b = match find_char_after(v.as_slice(), ':', a + 1) {
        Some(b) => b,
        None => {
            return None;
        },
    };
    let ghost r2 = r1.subrange(b - a, r1.len() as int);
    assert(r2 == c.subrange(b + 1, c.len() as int));
    let d = match find_char_after(v.as_slice(), ':', b + 1) {
        Some(d) => d,
        None => {
            return None;
        },
    };
    let p0 = string_from_range(v.as_slice(), 0, a);
    let p1 = string_from_range(v.as_slice(), a + 1, b);
    let p2 = string_from_range(v.as_slice(), b + 1, d);
    let p3 = string_from_range(v.as_slice(), d + 1, n);
    assert(r1.subrange(0, b - a - 1) == p1@);
    assert(r2.subrange(0, d - b - 1) == p2@);
    assert(r2.subrange(d - b, r2.len() as int) == p3@);
    Some((p0, p1, p2, p3))
}

/// The Discord ID and display name a session cookie carries, checked at
/// Unix time `now`.
pub fn verify_session_at(cookie_value: &str, secret: &str, now: i64) -> (res: Option<(String, String)>)
    ensures
        match res {
            Some((id, name)) => verify_session_spec(cookie_value@, secret@, now as int) == Some(
                (id@, name@),
            ),
            None => verify_session_spec(cookie_value@, secret@, now as int) is None,
        },
{
    let (discord_id, encoded_name, expires_text, sig) = match split_session_cookie(cookie_value) {
        Some(parts) => parts,
        None => {
            return None;
        },
    };
    let expires = match parse_i64(expires_text.as_str()) {
        Some(e) => e,
        None => {
            return None;
        },
    };
    if now > expires {
        return None;
    }
    let mut payload = discord_id.clone();
    push_char(&mut payload, ':');
    payload.append(encoded_name.as_str());
    push_char(&mut payload, ':');
    payload.append(expires_text.as_str());
    assert(payload@ =~= session_payload(discord_id@, encoded_name@, expires_text@));
    let tag = hmac_sha256(secret.as_bytes(), payload.as_str().as_bytes());
    let expected_sig = hex_encode(tag.as_slice());
    if !str_eq(sig.as_str(), expected_sig.as_str()) {
        return None;
    }
    let display_name = match url_decode(encoded_name.as_str()) {
        Some(name) => name,
        None => {
            return None;
        },
    };
    Some((discord_id, display_name))
}

/// The Discord ID and display name a session cookie carries, when it is
/// well-formed, correctly signed and not expired.
pub fn verify_session(cookie_value: &str, secret: &str) -> (res: Option<(String, String)>)
    ensures
        exists|t: int|
            0 <= t <= clock_bound() && match res {
                Some((id, name)) => verify_session_spec(cookie_value@, secret@, t) == Some(
                    (id@, name@),
                ),
                None => verify_session_spec(cookie_value@, secret@, t) is None,
            },
{
    let now = unix_now();
    verify_session_at(cookie_value, secret, now)
}

proof fn lemma_split_token(id: Seq<char>, e: Seq<char>, d: Seq<char>, sig: Seq<char>)
    requires
        forall|i: int| 0 <= i < id.len() ==> id[i] != ':',
        forall|i: int| 0 <= i < e.len() ==> e[i] != ':',
        forall|i: int| 0 <= i < d.len() ==> d[i] != ':',
    ensures
        split_four(session_payload(id, e, d) + seq![':'] + sig) == Some((id, e, d, sig)),
{
    let c = session_payload(id, e, d) + seq![':'] + sig;
    assert(c =~= id + (seq![':'] + e + seq![':'] + d + seq![':'] + sig));
    assert(c[id.len() as int] == ':');
    assert forall|j: int| 0 <= j < id.len() implies c[j] != ':' by {
        assert(c[j] == id[j]);
    }
    lemma_first_index_of_is(c, ':', id.len() as int);
    let r1 = c.subrange(id.len() as int + 1, c.len() as int);
    assert(r1 =~= e + seq![':'] + d + seq![':'] + sig);
    assert(r1[e.len() as int] == ':');
    assert forall|j: int| 0 <= j < e.len() implies r1[j] != ':' by {
        assert(r1[j] == e[j]);
    }
    lemma_first_index_of_is(r1, ':', e.len() as int);
    let r2 = r1.subrange(e.len() as int + 1, r1.len() as int);
    assert(r2 =~= d + seq![':'] + sig);
    assert(r2[d.len() as int] == ':');
    assert forall|j: int| 0 <= j < d.len() implies r2[j] != ':' by {
        assert(r2[j] == d[j]);
    }
    lemma_first_index_of_is(r2, ':', d.len() as int);
    assert(c.subrange(0, id.len() as int) =~= id);
    assert(r1.subrange(0, e.len() as int) =~= e);
    assert(r2.subrange(0, d.len() as int) =~= d);
    assert(r2.subrange(d.len() as int + 1, r2.len() as int) =~= sig);
}

/// Law: a session cookie issued at `issued` for a Discord ID without `:`
/// names that ID and the display name when it is checked with the same
/// secret at any time up to an hour later.
pub proof fn lemma_session_roundtrip(
    discord_id: Seq<char>,
    display_name: Seq<char>,
    secret: Seq<char>,
    issued: int,
    checked: int,
)
    requires
        forall|i: int| 0 <= i < discord_id.len() ==> discord_id[i] != ':',
        -clock_bound() <= issued <= clock_bound(),
        checked <= issued + 3600,
    ensures
        verify_session_spec(session_token(discord_id, display_name, secret, issued), secret, checked)
            == Some((discord_id, display_name)),
{
    let e = url_encode_spec(display_name);
    let d = int_text(issued + 3600);
    lemma_url_encode_roundtrip(display_name);
    lemma_int_text_parse(issued + 3600);
    let payload = session_payload(discord_id, e, d);
    lemma_split_token(discord_id, e, d, session_signature(payload, secret));
}

/// Law: a session cookie is refused once its hour has passed.
pub proof fn lemma_session_expires(
    discord_id: Seq<char>,
    display_name: Seq<char>,
    secret: Seq<char>,
    issued: int,
    checked: int,
)
    requires
        forall|i: int| 0 <= i < discord_id.len() ==> discord_id[i] != ':',
        -clock_bound() <= issued <= clock_bound(),
        checked > issued + 3600,
    ensures
        verify_session_spec(session_token(discord_id, display_name, secret, issued), secret, checked)
            is None,
{
    let e = url_encode_spec(display_name);
    let d = int_text(issued + 3600);
    lemma_url_encode_roundtrip(display_name);
    lemma_int_text_parse(issued + 3600);
    let payload = session_payload(discord_id, e, d);
    lemma_split_token(discord_id, e, d, session_signature(payload, secret));
}

/// Law: a cookie is accepted only with the signature the secret gives its
/// payload, so a cookie whose payload was altered is refused unless the
/// altered payload carries its own valid signature.
pub proof fn lemma_session_requires_signature(cookie: Seq<char>, secret: Seq<char>, now: int)
    requires
        verify_session_spec(cookie, secret, now) is Some,
    ensures
        split_four(cookie) matches Some((id, e, d, sig)) && sig == session_signature(
            session_payload(id, e, d),
            secret,
        ),
{
}

} // verus!
