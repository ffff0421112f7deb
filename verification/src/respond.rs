//! The uniform response envelope and the result normalizer.
//!
//! Every tool answers with one text block.  On success the block holds the
//! JSON-serialized payload and `is_error` is absent; on failure it holds a
//! diagnostic and `is_error` is `Some(true)`.  The boolean is the sole
//! discriminator callers may rely on; business failures never surface as
//! transport faults.

use vstd::prelude::*;
use vstd::string::StringExecFns;

use crate::error::{spec_message, ToolError};
use crate::value::Value;

verus! {

/// One block of response content.  This system only ever produces text.
pub enum ToolContent {
    Text { text: String },
}

/// The uniform envelope answered for every dispatched tool call.
pub struct ToolResponse {
    pub content: Vec<ToolContent>,
    pub is_error: Option<bool>,
    pub meta: Option<Value>,
}

/// A success envelope: one text block holding `payload`, no error mark.
pub open spec fn is_success_envelope(r: ToolResponse, payload: Seq<char>) -> bool {
    &&& r.content@.len() == 1
    &&& r.content@[0] matches ToolContent::Text { text } && text@ == payload
    &&& r.is_error is None
    &&& r.meta is None
}

/// A failure envelope: one text block holding `"Error: "` and the reason,
/// with the error mark set.
pub open spec fn is_error_envelope(r: ToolResponse, reason: Seq<char>) -> bool {
    &&& r.content@.len() == 1
    &&& r.content@[0] matches ToolContent::Text { text } && text@ == "Error: "@ + reason
    &&& r.is_error == Some(true)
    &&& r.meta is None
}

/// Wraps a serialized payload as the success envelope.
pub fn success_response(payload: String) -> (r: ToolResponse)
    ensures
        is_success_envelope(r, payload@),
{
    ToolResponse {
        content: vec![ToolContent::Text { text: payload }],
        is_error: None,
        meta: None,
    }
}

/// Converts a business failure into the failure envelope.
pub fn error_response(e: &ToolError) -> (r: ToolResponse)
    ensures
        is_error_envelope(r, spec_message(*e)),
{
    let mut text = String::from_str("Error: ");
    let reason = e.message();
    text.append(reason.as_str());
    ToolResponse { content: vec![ToolContent::Text { text }], is_error: Some(true), meta: None }
}

/// The result normalizer: a successful response passes through, a failure
/// becomes the failure envelope.  Applied uniformly by every handler, so
/// no business error ever escapes as a transport fault.
pub fn handle_result(result: Result<ToolResponse, ToolError>) -> (r: ToolResponse)
    ensures
        match result {
            Ok(resp) => r == resp,
            Err(e) => is_error_envelope(r, spec_message(e)),
        },
{
    match result {
        Ok(resp) => resp,
        Err(e) => error_response(&e),
    }
}

} // verus!
