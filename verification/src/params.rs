//! The generic tool-argument resolver.
//!
//! Each declared parameter of a tool resolves by a strict precedence
//! order: an explicit value in the call's arguments first, then the
//! session context, then the tool's hard-coded default.  Which of the
//! first two sources a parameter may use is declared per parameter, not
//! globally: `spreadsheet_id`, for one, is session-scoped and never read
//! from per-call arguments.  A source only yields a value when the entry
//! there is text; an entry of any other kind falls through like an absent
//! one.

use vstd::prelude::*;
use vstd::string::StringExecFns;

use crate::value::{source_text, Value};

verus! {

/// The permitted sources of one declared parameter, in precedence order.
#[derive(Clone, Copy)]
pub struct ParamSources {
    /// May the value come from the call's own arguments?
    pub from_args: bool,
    /// May the value fall back to the session context?
    pub from_context: bool,
}

/// The resolved text of a parameter: arguments first, context second,
/// default last, `None` when every source is silent.
pub open spec fn spec_resolve(
    args: Value,
    context: Value,
    name: Seq<char>,
    sources: ParamSources,
    default: Option<Seq<char>>,
) -> Option<Seq<char>> {
    if sources.from_args && source_text(args, name) is Some {
        source_text(args, name)
    } else if sources.from_context && source_text(context, name) is Some {
        source_text(context, name)
    } else {
        default
    }
}

/// Resolves one declared parameter against the argument bag and the
/// session context.
pub fn resolve_param(
    args: &Value,
    context: &Value,
    name: &str,
    sources: ParamSources,
    default: Option<&str>,
) -> (r: Option<String>)
    ensures
        match r {
            Some(s) => spec_resolve(
                *args,
                *context,
                name@,
                sources,
                match default {
                    Some(d) => Some(d@),
                    None => None,
                },
            ) == Some(s@),
            None => spec_resolve(
                *args,
                *context,
                name@,
                sources,
                match default {
                    Some(d) => Some(d@),
                    None => None,
                },
            ) is None,
        },
{
    if sources.from_args {
        if let Some(s) = args.get_text(name) {
            return Some(s.clone());
        }
    }
    if sources.from_context {
        if let Some(s) = context.get_text(name) {
            return Some(s.clone());
        }
    }
    match default {
        Some(d) => Some(String::from_str(d)),
        None => None,
    }
}

} // verus!
