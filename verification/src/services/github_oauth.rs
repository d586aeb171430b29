//! GitHub OAuth: where a member is sent to authorize the app.
use vstd::prelude::*;
use crate::config::AppConfig;
use crate::encoding::{url_encode, url_encode_spec};
use crate::strings::owned;

verus! {

/// The GitHub authorization URL for the app, carrying `state`.
pub open spec fn github_authorize_url_spec(client_id: Seq<char>, redirect_uri: Seq<char>, state: Seq<char>) -> Seq<char> {
    "https://github.com/login/oauth/authorize?client_id="@ + client_id + "&redirect_uri="@
        + url_encode_spec(redirect_uri) + "&scope=read:user&state="@ + state
}

/// Where to send a member to link their GitHub account (scope `read:user`).
pub fn github_authorize_url(config: &AppConfig, state: &str) -> (res: String)
    ensures
        res@ == github_authorize_url_spec(
            config.github_client_id@,
            config.base_url@ + "/verify/callback"@,
            state@,
        ),
{
    let redirect_uri = config.github_oauth_redirect_uri();
    let mut url = owned("https://github.com/login/oauth/authorize?client_id=");
    url.append(config.github_client_id.as_str());
    url.append("&redirect_uri=");
    let enc = url_encode(redirect_uri.as_str());
    url.append(enc.as_str());
    url.append("&scope=read:user&state=");
    url.append(state);
    url
}

} // verus!
