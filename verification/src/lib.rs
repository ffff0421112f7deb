//! Verified core of a tool-call server for Google Drive and Google Sheets.
//!
//! The library models the loosely-typed JSON argument bags that callers
//! send, resolves each tool's parameters with a fixed precedence order
//! (explicit arguments, then session context, then defaults), plans the
//! single remote operation of each invocation, and normalizes success and
//! failure into a uniform response envelope.  The network calls themselves
//! are performed by the surrounding application; this crate decides what
//! to call and what to answer.

pub mod a1;
pub mod auth;
pub mod chars;
pub mod error;
pub mod json_text;
pub mod numtext;
pub mod params;
pub mod registry;
pub mod respond;
pub mod sheet_info;
pub mod store;
pub mod tools;
pub mod value;

pub use error::{DispatchFault, InvokeError, ToolError};
