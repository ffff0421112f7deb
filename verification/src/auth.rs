//! The token-refresh exchange, as far as it is decidable locally.
//!
//! The HTTP round trip to the token endpoint happens outside; this
//! module builds the request payload and interprets what came back: a
//! failed exchange keeps the response body as the reason, a successful
//! one must deserialize into a [`TokenResponse`].

use vstd::prelude::*;
use vstd::string::StringExecFns;

use crate::error::InvokeError;
use crate::value::{source_text, spec_get, Value};

verus! {

/// A successful answer of the token endpoint.  Immutable once received;
/// only `access_token` travels onward.
#[derive(Debug, Clone)]
pub struct TokenResponse {
    pub access_token: String,
    pub expires_in: i32,
    pub refresh_token: Option<String>,
    pub scope: String,
    pub token_type: String,
}

/// The body of a refresh request: the client pair, the refresh token,
/// and the fixed grant type.
pub fn refresh_payload(client_id: &str, client_secret: &str, refresh_token: &str) -> (r: Value)
    ensures
        r matches Value::Obj(entries) && {
            let e = entries@;
            &&& e.len() == 4
            &&& e[0].0@ == "client_id"@ && (e[0].1 matches Value::Text(s) && s@ == client_id@)
            &&& e[1].0@ == "client_secret"@ && (e[1].1 matches Value::Text(s) && s@
                == client_secret@)
            &&& e[2].0@ == "refresh_token"@ && (e[2].1 matches Value::Text(s) && s@
                == refresh_token@)
            &&& e[3].0@ == "grant_type"@ && (e[3].1 matches Value::Text(s) && s@
                == "refresh_token"@)
        },
{
    let mut entries: Vec<(String, Value)> = Vec::new();
    entries.push(
        (String::from_str("client_id"), Value::Text(String::from_str(client_id))),
    );
    entries.push(
        (String::from_str("client_secret"), Value::Text(String::from_str(client_secret))),
    );
    entries.push(
        (String::from_str("refresh_token"), Value::Text(String::from_str(refresh_token))),
    );
    entries.push(
        (String::from_str("grant_type"), Value::Text(String::from_str("refresh_token"))),
    );
    Value::Obj(entries)
}

/// The failure of an exchange the endpoint refused: the response body is
/// the reason, or `"Unknown error"` where none could be read.
pub fn exchange_failure(body: Option<String>) -> (r: InvokeError)
    ensures
        r matches InvokeError::GoogleApi(m) && m@ == match body {
            Some(b) => b@,
            None => "Unknown error"@,
        },
{
    match body {
        Some(b) => InvokeError::GoogleApi(b),
        None => InvokeError::GoogleApi(String::from_str("Unknown error")),
    }
}

/// Is this entry a usable `expires_in`: an integer within `i32`?
pub open spec fn spec_expires_ok(v: Value) -> bool {
    spec_get(v, "expires_in"@) matches Some(Value::Int(n)) && i32::MIN <= n <= i32::MAX
}

/// Is the optional `refresh_token` entry well-formed (absent, null, or
/// text)?
pub open spec fn spec_refresh_ok(v: Value) -> bool {
    match spec_get(v, "refresh_token"@) {
        None => true,
        Some(Value::Null) => true,
        Some(Value::Text(_)) => true,
        Some(_) => false,
    }
}

/// Does the body hold every field a [`TokenResponse`] asks for?
pub open spec fn spec_token_response_ok(v: Value) -> bool {
    &&& source_text(v, "access_token"@) is Some
    &&& spec_expires_ok(v)
    &&& spec_refresh_ok(v)
    &&& source_text(v, "scope"@) is Some
    &&& source_text(v, "token_type"@) is Some
}

/// Reads a [`TokenResponse`] out of a parsed exchange body.
///
/// Succeeds exactly on bodies with text `access_token`, `scope` and
/// `token_type`, an `expires_in` integer within `i32`, and an absent,
/// null or text `refresh_token`; anything else is a parse failure naming
/// the first offending field, in that order.
pub fn token_response_of(v: &Value) -> (r: Result<TokenResponse, InvokeError>)
    ensures
        match r {
            Ok(t) => {
                &&& spec_token_response_ok(*v)
                &&& source_text(*v, "access_token"@) == Some(t.access_token@)
                &&& spec_get(*v, "expires_in"@) == Some(Value::Int(t.expires_in as i64))
                &&& match t.refresh_token {
                    Some(s) => source_text(*v, "refresh_token"@) == Some(s@),
                    None => source_text(*v, "refresh_token"@) is None,
                }
                &&& source_text(*v, "scope"@) == Some(t.scope@)
                &&& source_text(*v, "token_type"@) == Some(t.token_type@)
            },
            Err(e) => {
                &&& !spec_token_response_ok(*v)
                &&& e matches InvokeError::TokenParse(m)
                &&& m@ == if source_text(*v, "access_token"@) is None {
                    "missing or invalid field: access_token"@
                } else if !spec_expires_ok(*v) {
                    "missing or invalid field: expires_in"@
                } else if !spec_refresh_ok(*v) {
                    "missing or invalid field: refresh_token"@
                } else if source_text(*v, "scope"@) is None {
                    "missing or invalid field: scope"@
                } else {
                    "missing or invalid field: token_type"@
                }
            },
        },
{
    let access_token = match v.get_text("access_token") {
        Some(s) => s.clone(),
        None => {
            return Err(
                InvokeError::TokenParse(
                    String::from_str("missing or invalid field: access_token"),
                ),
            );
        },
    };
    let expires_in: i32 = match v.get("expires_in") {
        Some(Value::Int(n)) => {
            if *n < i32::MIN as i64 || *n > i32::MAX as i64 {
                return Err(
                    InvokeError::TokenParse(
                        String::from_str("missing or invalid field: expires_in"),
                    ),
                );
            }
            *n as i32
        },
        _ => {
            return Err(
                InvokeError::TokenParse(String::from_str("missing or invalid field: expires_in")),
            );
        },
    };
    let refresh_token: Option<String> = match v.get("refresh_token") {
        None => None,
        Some(Value::Null) => None,
        Some(Value::Text(s)) => Some(s.clone()),
        Some(_) => {
            return Err(
                InvokeError::TokenParse(
                    String::from_str("missing or invalid field: refresh_token"),
                ),
            );
        },
    };
    let scope = match v.get_text("scope") {
        Some(s) => s.clone(),
        None => {
            return Err(
                InvokeError::TokenParse(String::from_str("missing or invalid field: scope")),
            );
        },
    };
    let token_type = match v.get_text("token_type") {
        Some(s) => s.clone(),
        None => {
            return Err(
                InvokeError::TokenParse(String::from_str("missing or invalid field: token_type")),
            );
        },
    };
    Ok(TokenResponse { access_token, expires_in, refresh_token, scope, token_type })
}

} // verus!
