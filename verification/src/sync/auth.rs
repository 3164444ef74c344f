//! Starting the OAuth flow.

use vstd::prelude::*;
use vstd::string::*;
use crate::sync::backend::{text_of, AuthFlow};
use crate::sync::error::{SyncError, SyncErrorView};

verus! {

/// Whether a byte stands for itself in an address: a letter, a digit, or one
/// of `-`, `.`, `_` and `~`.
pub open spec fn unreserved(b: u8) -> bool {
    ||| 0x30 <= b <= 0x39
    ||| 0x41 <= b <= 0x5a
    ||| 0x61 <= b <= 0x7a
    ||| b == 0x2d
    ||| b == 0x2e
    ||| b == 0x5f
    ||| b == 0x7e
}

/// The upper-case hexadecimal digit for a value below sixteen.
pub open spec fn hex_digit(d: u8) -> char {
    if d < 10 {
        (0x30 + d) as char
    } else {
        (0x41 - 10 + d) as char
    }
}

/// How one byte is written in an address: as itself, or as a percent sign
/// and its two hexadecimal digits.
pub open spec fn escaped_byte(b: u8) -> Seq<char> {
    if unreserved(b) {
        seq![b as char]
    } else {
        seq!['%', hex_digit(b >> 4), hex_digit(b & 15)]
    }
}

/// The bytes, each as it is written in an address.
pub open spec fn escaped_bytes(bytes: Seq<u8>) -> Seq<char>
    decreases bytes.len(),
{
    if bytes.len() == 0 {
        Seq::empty()
    } else {
        escaped_bytes(bytes.drop_last()) + escaped_byte(bytes.last())
    }
}

/// `text` with every byte of its UTF-8 form percent-encoded but letters,
/// digits, `-`, `.`, `_` and `~`.
pub open spec fn percent_encoded(text: Seq<char>) -> Seq<char> {
    escaped_bytes(vstd::utf8::encode_utf8(text))
}

/// The scopes that are asked for, separated by spaces.
pub open spec fn scopes_text() -> Seq<char> {
    "https://www.googleapis.com/auth/drive.file https://www.googleapis.com/auth/drive.appdata https://www.googleapis.com/auth/userinfo.email"@
}

/// The address to which the user is sent to authorise the client.
pub open spec fn auth_url_text(client_id: Seq<char>, redirect_uri: Seq<char>, state: Seq<char>) -> Seq<
    char,
> {
    "https://accounts.google.com/o/oauth2/v2/auth?client_id="@ + client_id + "&redirect_uri="@
        + percent_encoded(redirect_uri) + "&response_type=code&scope="@ + percent_encoded(
        scopes_text(),
    ) + "&access_type=offline&prompt=consent&state="@ + state
}

/// `urlencoding::encode`: the text with every byte of its UTF-8 form
/// percent-encoded, in upper-case hexadecimal digits, but letters, digits,
/// `-`, `.`, `_` and `~`.
#[verifier::external_body]
fn encode(text: &str) -> (encoded: String)
    ensures
        encoded@ == percent_encoded(text@),
{
    urlencoding::encode(text).into_owned()
}

/// `uuid::Uuid::new_v4`, then its text: a fresh random identifier, of which
/// nothing is claimed.
#[verifier::external_body]
fn random_state() -> (state: String) {
    uuid::Uuid::new_v4().to_string()
}

/// The flow for a given state: the address that carries the client,
/// where to return, the scopes and the state.
pub fn auth_flow(client_id: &str, redirect_uri: &str, state: String) -> (flow: AuthFlow)
    ensures
        flow.state@ == state@,
        flow.auth_url@ == auth_url_text(client_id@, redirect_uri@, state@),
{
    let scopes =
        "https://www.googleapis.com/auth/drive.file https://www.googleapis.com/auth/drive.appdata https://www.googleapis.com/auth/userinfo.email";
    let mut auth_url = String::from_str("https://accounts.google.com/o/oauth2/v2/auth?client_id=");
    auth_url.append(client_id);
    auth_url.append("&redirect_uri=");
    auth_url.append(encode(redirect_uri).as_str());
    auth_url.append("&response_type=code&scope=");
    auth_url.append(encode(scopes).as_str());
    auth_url.append("&access_type=offline&prompt=consent&state=");
    auth_url.append(state.as_str());
    AuthFlow { auth_url, state }
}

/// Starts a flow under a fresh random state.
pub fn start_auth(client_id: &str, redirect_uri: &str) -> (flow: AuthFlow)
    ensures
        flow.auth_url@ == auth_url_text(client_id@, redirect_uri@, flow.state@),
{
    auth_flow(client_id, redirect_uri, random_state())
}

/// Whether a backend can be initialised: it needs its credentials, and
/// both tokens.
pub fn check_initialize(has_credentials: bool, has_access_token: bool, has_refresh_token: bool) -> (ready:
    Result<(), SyncError>)
    ensures
        match ready {
            Ok(()) => has_credentials && has_access_token && has_refresh_token,
            Err(e) => if !has_credentials {
                e@ == SyncErrorView::OAuthError("OAuth credentials not loaded"@)
            } else {
                e@ == SyncErrorView::NotAuthenticated && !(has_access_token && has_refresh_token)
            },
        },
{
    if !has_credentials {
        return Err(SyncError::OAuthError(String::from_str("OAuth credentials not loaded")));
    }
    if !has_access_token || !has_refresh_token {
        return Err(SyncError::NotAuthenticated);
    }
    Ok(())
}

/// The tokens of a completed exchange: the answer must carry a refresh
/// token.
pub fn exchanged_tokens(access_token: String, refresh_token: Option<String>) -> (tokens: Result<
    (String, String),
    SyncError,
>)
    ensures
        match tokens {
            Ok((access, refresh)) => access@ == access_token@ && text_of(refresh_token) == Some(
                refresh@,
            ),
            Err(e) => refresh_token is None && e@ == SyncErrorView::OAuthError(
                "No refresh token"@,
            ),
        },
{
    match refresh_token {
        Some(refresh) => Ok((access_token, refresh)),
        None => Err(SyncError::OAuthError(String::from_str("No refresh token"))),
    }
}

} // verus!
