//! OAuth client credentials and their default endpoints.

use vstd::prelude::*;
use vstd::string::*;

verus! {

/// The authorisation endpoint used when a credentials file names none.
pub open spec fn auth_uri_text() -> Seq<char> {
    "https://accounts.google.com/o/oauth2/auth"@
}

/// The token endpoint used when a credentials file names none.
pub open spec fn token_uri_text() -> Seq<char> {
    "https://oauth2.googleapis.com/token"@
}

/// Default authorisation endpoint.
pub fn default_auth_uri() -> (uri: String)
    ensures
        uri@ == auth_uri_text(),
{
    String::from_str("https://accounts.google.com/o/oauth2/auth")
}

/// Default token endpoint.
pub fn default_token_uri() -> (uri: String)
    ensures
        uri@ == token_uri_text(),
{
    String::from_str("https://oauth2.googleapis.com/token")
}

} // verus!
