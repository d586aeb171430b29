//! The member-facing verification flow: the page, the session it relies
//! on, and the decisions of the GitHub linking steps.
use vstd::prelude::*;
use crate::encoding::{clock_bound, is_ascii_alphanumeric, random_alphanumeric, url_encode, url_encode_spec};
use crate::error::{AppError, is_bad_request, is_not_found};
use crate::services::discord_oauth::{verify_session, verify_session_spec};
use crate::strings::{concat2, json_quote, owned, push_json_string};

verus! {

/// Name of the session cookie.
pub const SESSION_COOKIE: &'static str = "rl_session";

/// The verification page up to the site icon's base URL.
pub const VERIFY_PAGE_HEAD: &'static str = "<!DOCTYPE html>\n<html>\n<head>\n    <meta charset=\"utf-8\">\n    <meta name=\"viewport\" content=\"width=device-width, initial-scale=1\">\n    <title>GitHub Roles - Link Account</title>\n    <meta name=\"description\" content=\"Link your Discord account with your GitHub profile to automatically receive server roles based on your contributions.\">\n    <meta property=\"og:type\" content=\"website\">\n    <meta property=\"og:title\" content=\"GitHub Roles - Link Account\">\n    <meta property=\"og:description\" content=\"Link your Discord and GitHub accounts to earn roles based on repository contributions.\">\n    <meta name=\"theme-color\" content=\"#238636\">\n    <link rel=\"icon\" href=\"";

/// The verification page from the site icon to the Discord login link's base URL.
pub const VERIFY_PAGE_LOGIN: &'static str = "/favicon.ico\" type=\"image/x-icon\">\n    <style>\n        * { box-sizing: border-box; margin: 0; padding: 0; }\n        body { font-family: system-ui, -apple-system, sans-serif; max-width: 580px; margin: 0 auto; padding: 32px 20px; background: #0d1117; color: #c9d1d9; min-height: 100vh; }\n        h1 { color: #58a6ff; font-size: 24px; margin-bottom: 4px; }\n        h2 { color: #fff; font-size: 17px; margin-bottom: 14px; }\n        p { line-height: 1.6; margin: 6px 0; font-size: 14px; }\n        a { color: #58a6ff; }\n        .subtitle { color: #8b949e; font-size: 14px; margin-bottom: 20px; }\n        .card { background: #161b22; padding: 22px; border-radius: 10px; margin: 14px 0; border: 1px solid #30363d; }\n        .btn { display: inline-flex; align-items: center; gap: 8px; padding: 10px 22px; color: #fff; text-decoration: none; border-radius: 6px; font-size: 14px; font-weight: 500; border: none; cursor: pointer; font-family: inherit; transition: background .15s; }\n        .btn-discord { background: #5865f2; }\n        .btn-discord:hover { background: #4752c4; }\n        .btn-github { background: #238636; }\n        .btn-github:hover { background: #2ea043; }\n        .btn-danger { background: transparent; color: #f85149; border: 1px solid #da3633; font-size: 13px; padding: 8px 16px; }\n        .btn-danger:hover { background: #da363322; }\n        .btn:disabled { opacity: 0.5; cursor: not-allowed; }\n        .badge { display: inline-block; padding: 3px 10px; border-radius: 20px; font-size: 12px; font-weight: 500; }\n        .badge-ok { background: #0d3321; color: #3fb950; border: 1px solid #238636; }\n        .msg { padding: 10px 14px; border-radius: 6px; margin: 12px 0; font-size: 13px; line-height: 1.5; }\n        .msg-error { background: #1c0a0a; color: #fca5a5; border: 1px solid #7f1d1d; }\n        .msg-success { background: #0d3321; color: #86efac; border: 1px solid #238636; }\n        .info-row { display: flex; align-items: center; gap: 8px; margin: 6px 0; font-size: 14px; }\n        .info-row .label { color: #8b949e; min-width: 80px; }\n        .info-row .val { color: #58a6ff; font-weight: 600; }\n        .actions { display: flex; gap: 8px; margin-top: 16px; flex-wrap: wrap; }\n        .hidden { display: none !important; }\n        .divider { border: none; border-top: 1px solid #30363d; margin: 16px 0; }\n        .trust-note { font-size: 13px; color: #8b949e; background: #0d1117; border-left: 3px solid #58a6ff; padding: 10px 14px; border-radius: 0 6px 6px 0; margin: 10px 0; line-height: 1.6; }\n        .trust-note strong { color: #c9d1d9; }\n        .btn-logout { background: transparent; color: #8b949e; border: 1px solid #30363d; padding: 5px 12px; border-radius: 6px; font-size: 12px; cursor: pointer; font-family: inherit; transition: all .15s; }\n        .btn-logout:hover { color: #f85149; border-color: #da3633; background: #da363322; }\n    </style>\n</head>\n<body>\n    <div style=\"display:flex; align-items:center; justify-content:space-between; margin-bottom:4px;\">\n        <div style=\"display:flex; align-items:center; gap:10px;\">\n            <h1 style=\"margin:0;\">GitHub Roles</h1>\n            <span style=\"font-size:11px; color:#8b949e; background:#21262d; padding:2px 8px; border-radius:4px;\">Powered by <a href=\"https://rolelogic.faizo.net\" target=\"_blank\" rel=\"noopener\" style=\"color:#58a6ff; text-decoration:none;\">RoleLogic</a></span>\n        </div>\n        <button id=\"logout-btn\" class=\"btn-logout hidden\" onclick=\"doLogout()\">Logout</button>\n    </div>\n    <p class=\"subtitle\">Link your Discord and GitHub accounts to automatically receive server roles based on your repository contributions.</p>\n\n    <div id=\"loading-section\" class=\"card\"><p style=\"color:#8b949e;\">Loading...</p></div>\n\n    <div id=\"login-section\" class=\"card hidden\">\n        <h2>Step 1: Sign in with Discord</h2>\n        <p>Sign in so we know which Discord account to assign roles to.</p>\n        <p class=\"trust-note\">We request the <strong>identify</strong> and <strong>guilds</strong> scopes only.</p>\n        <div class=\"actions\">\n            <a href=\"";

/// The verification page from the Discord login link to the script's API base URL.
pub const VERIFY_PAGE_SCRIPT: &'static str = "\" class=\"btn btn-discord\">\n                <svg width=\"20\" height=\"15\" viewBox=\"0 0 71 55\" fill=\"white\"><path d=\"M60.1 4.9A58.5 58.5 0 0045.4.2a.2.2 0 00-.2.1 40.8 40.8 0 00-1.8 3.7 54 54 0 00-16.2 0A37.3 37.3 0 0025.4.3a.2.2 0 00-.2-.1A58.4 58.4 0 0010.6 4.9a.2.2 0 00-.1.1C1.5 18 -.9 30.6.3 43a.2.2 0 00.1.2 58.7 58.7 0 0017.7 9 .2.2 0 00.3-.1 42 42 0 003.6-5.9.2.2 0 00-.1-.3 38.6 38.6 0 01-5.5-2.6.2.2 0 01 0-.4l1.1-.9a.2.2 0 01.2 0 41.9 41.9 0 0035.6 0 .2.2 0 01.2 0l1.1.9a.2.2 0 010 .3 36.3 36.3 0 01-5.5 2.7.2.2 0 00-.1.3 47.2 47.2 0 003.6 5.9.2.2 0 00.3.1A58.5 58.5 0 0070.3 43a.2.2 0 00.1-.2c1.4-14.7-2.4-27.5-10.2-38.8a.2.2 0 00-.1 0zM23.7 35.3c-3.4 0-6.1-3.1-6.1-6.8s2.7-6.9 6.1-6.9 6.2 3.1 6.1 6.9c0 3.7-2.7 6.8-6.1 6.8zm22.6 0c-3.4 0-6.1-3.1-6.1-6.8s2.7-6.9 6.1-6.9 6.2 3.1 6.1 6.9c0 3.7-2.7 6.8-6.1 6.8z\"/></svg>\n                Login with Discord\n            </a>\n        </div>\n    </div>\n\n    <div id=\"github-section\" class=\"card hidden\">\n        <h2>Step 2: Connect GitHub</h2>\n        <p>Signed in as <span id=\"gh-discord\" style=\"color:#58a6ff;\"></span></p>\n        <p>Connect your GitHub account so we can check your contributions.</p>\n        <p class=\"trust-note\">We request <strong>read:user</strong> scope only \u{2014} we cannot modify your repositories or access private data.</p>\n        <div class=\"actions\">\n            <a id=\"github-link\" href=\"#\" class=\"btn btn-github\">\n                <svg width=\"20\" height=\"20\" viewBox=\"0 0 16 16\" fill=\"white\"><path d=\"M8 0C3.58 0 0 3.58 0 8c0 3.54 2.29 6.53 5.47 7.59.4.07.55-.17.55-.38 0-.19-.01-.82-.01-1.49-2.01.37-2.53-.49-2.69-.94-.09-.23-.48-.94-.82-1.13-.28-.15-.68-.52-.01-.53.63-.01 1.08.58 1.23.82.72 1.21 1.87.87 2.33.66.07-.52.28-.87.51-1.07-1.78-.2-3.64-.89-3.64-3.95 0-.87.31-1.59.82-2.15-.08-.2-.36-1.02.08-2.12 0 0 .67-.21 2.2.82.64-.18 1.32-.27 2-.27.68 0 1.36.09 2 .27 1.53-1.04 2.2-.82 2.2-.82.44 1.1.16 1.92.08 2.12.51.56.82 1.27.82 2.15 0 3.07-1.87 3.75-3.65 3.95.29.25.54.73.54 1.48 0 1.07-.01 1.93-.01 2.2 0 .21.15.46.55.38A8.013 8.013 0 0016 8c0-4.42-3.58-8-8-8z\"/></svg>\n                Connect GitHub\n            </a>\n        </div>\n    </div>\n\n    <div id=\"linked-section\" class=\"card hidden\">\n        <div style=\"display:flex; align-items:center; gap:10px; margin-bottom:14px;\">\n            <h2 style=\"margin:0;\">Account Linked</h2>\n            <span class=\"badge badge-ok\">Verified</span>\n        </div>\n        <div class=\"info-row\"><span class=\"label\">Discord</span> <span class=\"val\" id=\"linked-discord\" style=\"color:#8b949e;font-weight:400;font-size:13px;\"></span></div>\n        <div class=\"info-row\"><span class=\"label\">GitHub</span> <span class=\"val\" id=\"linked-github\"></span></div>\n        <p style=\"color:#3fb950; margin-top:12px; font-size:13px;\">Your roles are assigned automatically based on your repository contributions.</p>\n        <hr class=\"divider\">\n        <div class=\"actions\">\n            <button class=\"btn btn-danger\" onclick=\"doUnlink()\">Unlink Account</button>\n        </div>\n    </div>\n\n    <div id=\"msg\" class=\"hidden\"></div>\n    <noscript><p style=\"color:#f85149; margin-top:20px;\">JavaScript is required.</p></noscript>\n\n    <script>\n    const API = '";

/// The rest of the verification page.
pub const VERIFY_PAGE_TAIL: &'static str = "';\n    const GITHUB_LOGIN_URL = API + '/verify/github/login';\n\n    async function api(method, path, body) {\n        const opts = { method, headers: {}, credentials: 'include' };\n        if (body) { opts.headers['Content-Type'] = 'application/json'; opts.body = JSON.stringify(body); }\n        const res = await fetch(API + path, opts);\n        const data = await res.json();\n        if (!res.ok) throw new Error(data.error || 'Request failed');\n        return data;\n    }\n\n    function showSection(id) {\n        ['loading-section','login-section','github-section','linked-section'].forEach(s =>\n            document.getElementById(s).classList.add('hidden')\n        );\n        document.getElementById(id).classList.remove('hidden');\n    }\n\n    function showMsg(text, type) {\n        const el = document.getElementById('msg');\n        el.className = 'msg msg-' + type;\n        el.textContent = text;\n        el.classList.remove('hidden');\n        if (type === 'success') setTimeout(() => el.classList.add('hidden'), 6000);\n    }\n\n    function clearMsg() { document.getElementById('msg').classList.add('hidden'); }\n\n    async function init() {\n        try {\n            const s = await api('GET', '/verify/status');\n            document.getElementById('logout-btn').classList.remove('hidden');\n            if (s.github_username) {\n                document.getElementById('linked-discord').textContent = s.display_name;\n                document.getElementById('linked-github').textContent = s.github_username;\n                showSection('linked-section');\n            } else {\n                document.getElementById('gh-discord').textContent = s.display_name;\n                document.getElementById('github-link').href = GITHUB_LOGIN_URL;\n                showSection('github-section');\n            }\n        } catch (e) {\n            showSection('login-section');\n        }\n    }\n\n    async function doLogout() {\n        clearMsg();\n        try {\n            await api('POST', '/verify/logout');\n            document.getElementById('logout-btn').classList.add('hidden');\n            showSection('login-section');\n            showMsg('Logged out.', 'success');\n        } catch (e) { showMsg(e.message, 'error'); }\n    }\n\n    async function doUnlink() {\n        clearMsg();\n        if (!confirm('Unlink your account? You will lose all assigned roles.')) return;\n        try {\n            await api('POST', '/verify/unlink');\n            document.getElementById('gh-discord').textContent = document.getElementById('linked-discord').textContent;\n            document.getElementById('github-link').href = GITHUB_LOGIN_URL;\n            showSection('github-section');\n            showMsg('Account unlinked.', 'success');\n        } catch (e) { showMsg(e.message, 'error'); }\n    }\n\n    init();\n    </script>\n</body>\n</html>";

/// The verification page for a service at `base_url`: Discord sign-in,
/// then GitHub linking, then the linked state, driven by the status API.
pub open spec fn verify_page_spec(base_url: Seq<char>) -> Seq<char> {
    VERIFY_PAGE_HEAD@ + base_url + VERIFY_PAGE_LOGIN@ + base_url + "/verify/login"@
        + VERIFY_PAGE_SCRIPT@ + base_url + VERIFY_PAGE_TAIL@
}

/// The HTML of the verification page.
pub fn render_verify_page(base_url: &str) -> (res: String)
    ensures
        res@ == verify_page_spec(base_url@),
{
    let login_url = concat2(base_url, "/verify/login");
    let mut page = owned(VERIFY_PAGE_HEAD);
    page.append(base_url);
    page.append(VERIFY_PAGE_LOGIN);
    page.append(login_url.as_str());
    page.append(VERIFY_PAGE_SCRIPT);
    page.append(base_url);
    page.append(VERIFY_PAGE_TAIL);
    page
}

/// The session a request carries in its session cookie (`None` when it
/// has none): the Discord ID and display name, or `Unauthorized`.
pub fn get_session(cookie_value: Option<&str>, secret: &str) -> (res: Result<(String, String), AppError>)
    ensures
        cookie_value is None ==> res == Err::<(String, String), AppError>(AppError::Unauthorized),
        cookie_value matches Some(c) ==> exists|t: int|
            #![trigger verify_session_spec(c@, secret@, t)]
            0 <= t <= clock_bound() && match res {
                Ok((id, name)) => verify_session_spec(c@, secret@, t) == Some((id@, name@)),
                Err(e) => e is Unauthorized && verify_session_spec(c@, secret@, t) is None,
            },
{
    match cookie_value {
        None => Err(AppError::Unauthorized),
        Some(c) => match verify_session(c, secret) {
            Some(session) => Ok(session),
            None => Err(AppError::Unauthorized),
        },
    }
}

/// Where the verification page comes back to after signing in.
pub const LOGIN_RETURN_PATH: &'static str = "/github-contributor-role/verify";

/// The Auth Gateway login, returning to the verification page afterwards.
pub fn login_redirect_url() -> (res: String)
    ensures
        res@ == "/auth/login?return_to="@ + url_encode_spec(LOGIN_RETURN_PATH@),
{
    let enc = url_encode(LOGIN_RETURN_PATH);
    concat2("/auth/login?return_to=", enc.as_str())
}

/// The verification page of the service at `base_url`.
pub fn verify_home_url(base_url: &str) -> (res: String)
    ensures
        res@ == base_url@ + "/verify"@,
{
    concat2(base_url, "/verify")
}

/// A fresh OAuth `state` value: 32 random ASCII letters and digits.
pub fn new_oauth_state() -> (res: String)
    ensures
        res@.len() == 32,
        forall|i: int| 0 <= i < 32 ==> is_ascii_alphanumeric(#[trigger] res@[i]),
{
    random_alphanumeric(32)
}

/// The query of the GitHub OAuth callback.
pub struct CallbackQuery {
    pub code: Option<String>,
    pub state: String,
    pub error: Option<String>,
}

/// The authorization code to exchange, unless GitHub reported an error or
/// sent no code (the member then goes back to the verification page).
pub fn callback_code(query: &CallbackQuery) -> (res: Option<String>)
    ensures
        match res {
            Some(c) => query.error is None && (query.code matches Some(q) && c@ == q@),
            None => query.error is Some || query.code is None,
        },
{
    if query.error.is_some() {
        return None;
    }
    match &query.code {
        Some(c) => Some(c.clone()),
        None => None,
    }
}

/// The answer when the callback's `state` is unknown or expired.
pub fn check_oauth_state(valid: bool) -> (res: Result<(), AppError>)
    ensures
        valid ==> res is Ok,
        !valid ==> (res matches Err(e) && is_bad_request(e, "Invalid or expired OAuth state"@)),
{
    if valid {
        Ok(())
    } else {
        Err(AppError::BadRequest(owned("Invalid or expired OAuth state")))
    }
}

/// The GitHub account is linked to a Discord user other than `discord_id`.
pub open spec fn linked_elsewhere(owner: Option<String>, discord_id: Seq<char>) -> bool {
    owner matches Some(o) && o@ != discord_id
}

/// The value of an optional string.
pub open spec fn opt_view(o: Option<String>) -> Option<Seq<char>> {
    match o {
        Some(s) => Some(s@),
        None => None,
    }
}

/// A member `discord_id` may link a GitHub account when that account is not
/// linked to another Discord user (`owner_of_github`) and the member has no
/// GitHub account linked yet (`linked_github_of_member`).
pub open spec fn link_allowed(
    discord_id: Seq<char>,
    owner_of_github: Option<Seq<char>>,
    linked_github_of_member: Option<Seq<char>>,
) -> bool {
    !(owner_of_github matches Some(o) && o != discord_id) && linked_github_of_member is None
}

/// Whether a member may link a GitHub account: not when that account is
/// linked to another Discord user (`owner_of_github`), nor when the member
/// already has a GitHub account linked (`linked_github_of_member`).
pub fn check_link_allowed(
    discord_id: &str,
    owner_of_github: Option<String>,
    linked_github_of_member: Option<String>,
) -> (res: Result<(), AppError>)
    ensures
        linked_elsewhere(owner_of_github, discord_id@) ==> (res matches Err(e) && is_bad_request(
            e,
            "This GitHub account is already linked to another Discord user"@,
        )),
        !linked_elsewhere(owner_of_github, discord_id@) && linked_github_of_member is Some ==> (
        res matches Err(e) && is_bad_request(
            e,
            "You already have a linked GitHub account. Unlink it first."@,
        )),
        !linked_elsewhere(owner_of_github, discord_id@) && linked_github_of_member is None ==> res is Ok,
        res is Ok <==> link_allowed(discord_id@, opt_view(owner_of_github), opt_view(linked_github_of_member)),
{
    match owner_of_github {
        Some(other) => {
            let o = other.as_str().to_owned();
            let d = discord_id.to_owned();
            if !(o == d) {
                return Err(
                    AppError::BadRequest(
                        owned("This GitHub account is already linked to another Discord user"),
                    ),
                );
            }
        },
        None => {},
    }
    if linked_github_of_member.is_some() {
        return Err(
            AppError::BadRequest(owned("You already have a linked GitHub account. Unlink it first.")),
        );
    }
    Ok(())
}

/// The linked GitHub username to unlink, or `NotFound` when there is none.
pub fn unlink_target(linked_github: Option<String>) -> (res: Result<String, AppError>)
    ensures
        linked_github matches Some(g) ==> res == Ok::<String, AppError>(g),
        linked_github is None ==> (res matches Err(e) && is_not_found(e, "No linked account found"@)),
{
    match linked_github {
        Some(g) => Ok(g),
        None => Err(AppError::NotFound(owned("No linked account found"))),
    }
}

/// The link status as JSON: the Discord ID, the display name and the
/// linked GitHub username (`null` when none).
pub open spec fn status_json_spec(discord_id: Seq<char>, display_name: Seq<char>, github_username: Option<Seq<char>>) -> Seq<char> {
    "{\"discord_id\":"@ + json_quote(discord_id) + ",\"display_name\":"@ + json_quote(display_name)
        + ",\"github_username\":"@ + match github_username {
        Some(g) => json_quote(g),
        None => "null"@,
    } + "}"@
}

/// The JSON body of the status endpoint.
pub fn status_json(discord_id: &str, display_name: &str, github_username: Option<&str>) -> (res: String)
    ensures
        res@ == status_json_spec(
            discord_id@,
            display_name@,
            match github_username {
                Some(g) => Some(g@),
                None => None,
            },
        ),
{
    let mut out = owned("{\"discord_id\":");
    push_json_string(&mut out, discord_id);
    out.append(",\"display_name\":");
    push_json_string(&mut out, display_name);
    out.append(",\"github_username\":");
    match github_username {
        Some(g) => push_json_string(&mut out, g),
        None => out.append("null"),
    }
    out.append("}");
    out
}

/// The JSON body that confirms a logout or an unlink.
pub const SUCCESS_JSON: &'static str = "{\"success\":true}";

/// Linked accounts, one row each: Discord ID, GitHub username, GitHub ID.
pub type LinkRows = Seq<(Seq<char>, Seq<char>, int)>;

/// Every Discord ID and every GitHub ID appears in at most one row.
pub open spec fn links_unique(rows: LinkRows) -> bool {
    forall|i: int, j: int|
        0 <= i < rows.len() && 0 <= j < rows.len() && i != j ==> rows[i].0 != rows[j].0 && rows[i].2
            != rows[j].2
}

/// The Discord user the GitHub account `github_id` is linked to, if any.
pub open spec fn owner_of(rows: LinkRows, github_id: int) -> Option<Seq<char>> {
    if exists|i: int| 0 <= i < rows.len() && rows[i].2 == github_id {
        Some(rows[choose|i: int| 0 <= i < rows.len() && rows[i].2 == github_id].0)
    } else {
        None
    }
}

/// The GitHub username linked to the Discord user `discord_id`, if any.
pub open spec fn github_of(rows: LinkRows, discord_id: Seq<char>) -> Option<Seq<char>> {
    if exists|i: int| 0 <= i < rows.len() && rows[i].0 == discord_id {
        Some(rows[choose|i: int| 0 <= i < rows.len() && rows[i].0 == discord_id].1)
    } else {
        None
    }
}

/// Law: when the accounts linked so far have at most one row per Discord ID
/// and per GitHub ID, a link that [`check_link_allowed`] permits (asked with
/// the owner of the GitHub ID and the member's linked account) adds a row
/// for a member without one, and the rows still have at most one per ID.
pub proof fn lemma_allowed_link_keeps_links_unique(
    rows: LinkRows,
    discord_id: Seq<char>,
    github_username: Seq<char>,
    github_id: int,
)
    requires
        links_unique(rows),
        link_allowed(discord_id, owner_of(rows, github_id), github_of(rows, discord_id)),
    ensures
        forall|i: int| 0 <= i < rows.len() ==> rows[i].0 != discord_id,
        links_unique(rows.push((discord_id, github_username, github_id))),
{
    assert forall|i: int| 0 <= i < rows.len() implies rows[i].0 != discord_id && rows[i].2 != github_id by {
        if rows[i].0 == discord_id {
            assert(github_of(rows, discord_id) is Some);
        }
        if rows[i].2 == github_id {
            let k = choose|k: int| 0 <= k < rows.len() && rows[k].2 == github_id;
            assert(owner_of(rows, github_id) == Some(rows[k].0));
            assert(rows[k].0 == discord_id);
            assert(github_of(rows, discord_id) is Some);
        }
    }
    let t = rows.push((discord_id, github_username, github_id));
    assert forall|i: int, j: int|
        0 <= i < t.len() && 0 <= j < t.len() && i != j implies t[i].0 != t[j].0 && t[i].2 != t[j].2 by {
        if i < rows.len() {
            assert(t[i] == rows[i]);
        }
        if j < rows.len() {
            assert(t[j] == rows[j]);
        }
    }
}

/// Law: the page holds the base URL three times, inserted verbatim around
/// fixed text: its length is that of the page for an empty base URL plus
/// three times the base URL's length.
pub proof fn lemma_verify_page_length(base_url: Seq<char>)
    ensures
        verify_page_spec(base_url).len() == verify_page_spec(Seq::empty()).len() + 3 * base_url.len(),
{
}

} // verus!
