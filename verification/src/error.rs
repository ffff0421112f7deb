//! The error taxonomy of the tool-call layer.
//!
//! Business failures ([`ToolError`]) are caught inside a tool handler and
//! normalized into a success-shaped envelope with `is_error` set; they
//! never escape to the transport.  An unknown tool name is the one
//! dispatch-level fault and is kept apart, so the transport can refuse the
//! call outright.  [`InvokeError`] is the error type of the token-refresh
//! collaborator.

use vstd::prelude::*;
use vstd::string::StringExecFns;

verus! {

/// A business failure of one tool invocation.
#[derive(Debug, Clone, PartialEq, Eq)]
pub enum ToolError {
    /// No usable access token accompanied the invocation.
    MissingCredential,
    /// A required parameter was absent from every permitted source.
    MissingParameter(String),
    /// The remote API refused the call or could not be reached.
    RemoteApiFailure(String),
    /// A payload could not be encoded or decoded as JSON.
    SerializationFailure(String),
}

/// A dispatch-level fault: the transport refuses the call instead of
/// answering with a normalized error envelope.
#[derive(Debug, Clone, PartialEq, Eq)]
pub enum DispatchFault {
    /// The invocation named a tool the registry does not hold.
    UnknownTool(String),
}

/// The diagnostic text of a [`ToolError`], as shown to callers.
pub open spec fn spec_message(e: ToolError) -> Seq<char> {
    match e {
        ToolError::MissingCredential => "Missing or invalid access_token"@,
        ToolError::MissingParameter(name) => "missing required parameter: "@ + name@,
        ToolError::RemoteApiFailure(msg) => msg@,
        ToolError::SerializationFailure(msg) => "serialization failed: "@ + msg@,
    }
}

impl ToolError {
    /// The human-readable reason for the failure.
    pub fn message(&self) -> (r: String)
        ensures
            r@ == spec_message(*self),
    {
        match self {
            ToolError::MissingCredential => String::from_str("Missing or invalid access_token"),
            ToolError::MissingParameter(name) => {
                let mut s = String::from_str("missing required parameter: ");
                s.append(name.as_str());
                s
            },
            ToolError::RemoteApiFailure(msg) => msg.clone(),
            ToolError::SerializationFailure(msg) => {
                let mut s = String::from_str("serialization failed: ");
                s.append(msg.as_str());
                s
            },
        }
    }
}

/// An error of the authentication collaborator.
#[derive(Debug, Clone, PartialEq, Eq)]
pub enum InvokeError {
    /// A JSON body could not be encoded or decoded.
    Serde(String),
    /// A required environment variable was absent.
    EnvVarMissing(String),
    /// The remote endpoint answered with an error or was unreachable.
    GoogleApi(String),
    /// A token-exchange response did not hold the expected fields.
    TokenParse(String),
    /// A user-info lookup failed.
    UserInfo(String),
    /// A JWT could not be produced or read.
    Jwt(String),
}

/// The diagnostic text of an [`InvokeError`].
pub open spec fn spec_invoke_message(e: InvokeError) -> Seq<char> {
    match e {
        InvokeError::Serde(m) => "Serde error: "@ + m@,
        InvokeError::EnvVarMissing(m) => "Environment variable missing: "@ + m@,
        InvokeError::GoogleApi(m) => "Google API error: "@ + m@,
        InvokeError::TokenParse(m) => "Token parse error: "@ + m@,
        InvokeError::UserInfo(m) => "User info error: "@ + m@,
        InvokeError::Jwt(m) => "JWT error: "@ + m@,
    }
}

impl InvokeError {
    /// The human-readable reason for the failure.
    pub fn message(&self) -> (r: String)
        ensures
            r@ == spec_invoke_message(*self),
    {
        let (prefix, detail) = match self {
            InvokeError::Serde(m) => ("Serde error: ", m),
            InvokeError::EnvVarMissing(m) => ("Environment variable missing: ", m),
            InvokeError::GoogleApi(m) => ("Google API error: ", m),
            InvokeError::TokenParse(m) => ("Token parse error: ", m),
            InvokeError::UserInfo(m) => ("User info error: ", m),
            InvokeError::Jwt(m) => ("JWT error: ", m),
        };
        let mut s = String::from_str(prefix);
        s.append(detail.as_str());
        s
    }
}

} // verus!
