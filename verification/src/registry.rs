//! The tool registries and the dispatcher.
//!
//! Each server holds a fixed, process-lifetime set of tools.  Dispatching
//! an invocation either produces the one remote call to execute, or a
//! business failure to normalize, or — for a name the registry does not
//! hold — a transport-level fault, kept apart from business failures so
//! the transport can refuse the call outright.
//!
//! Two deployment shapes are supported: a token carried in each
//! invocation's context, or one token bound to the whole session
//! ([`TokenMode`]).  The Drive server runs in the session-scoped shape,
//! with its shared client serialized outside; the Sheets server takes
//! each invocation's own token.

use vstd::prelude::*;
use vstd::string::StringExecFns;

use crate::error::{DispatchFault, ToolError};
use crate::tools::{
    get_access_token, plan_clear_values, plan_create_spreadsheet, plan_get_sheet_info,
    plan_list_files, plan_read_values, plan_write_values, spec_access_token, spec_planned_clear,
    spec_planned_create, spec_planned_info, spec_planned_list, spec_planned_read,
    spec_planned_write, ClearValuesPlan, CreateSpreadsheetPlan, GetSheetInfoPlan, ListFilesPlan,
    ReadValuesPlan, ToolInvocation, WriteValuesPlan,
};
use crate::value::{str_eq, Value};

verus! {

/// Does the Sheets server's registry hold a tool of this name?
pub open spec fn is_sheets_tool(name: Seq<char>) -> bool {
    ||| name == "read_values"@
    ||| name == "write_values"@
    ||| name == "create_spreadsheet"@
    ||| name == "clear_values"@
    ||| name == "get_sheet_info"@
}

/// Does the Drive server's registry hold a tool of this name?
pub open spec fn is_drive_tool(name: Seq<char>) -> bool {
    name == "list_files"@
}

/// The one remote operation a dispatched Sheets invocation asks for.
pub enum SheetsToolCall {
    ReadValues(ReadValuesPlan),
    WriteValues(WriteValuesPlan),
    CreateSpreadsheet(CreateSpreadsheetPlan),
    ClearValues(ClearValuesPlan),
    GetSheetInfo(GetSheetInfoPlan),
}

/// The outcome of dispatching one Sheets invocation.
pub enum SheetsDispatch {
    /// Execute this remote call with this access token, then normalize.
    Call { access_token: String, call: SheetsToolCall },
    /// Answer the failure envelope without any remote call.
    Refuse(ToolError),
    /// Refuse at the transport: the name is not in the registry.
    Fault(DispatchFault),
}

/// The outcome of dispatching one Drive invocation.  Every `list_files`
/// parameter is optional, so nothing short of an unknown name refuses.
pub enum DriveDispatch {
    /// Execute this listing against the session's shared client.
    Call(ListFilesPlan),
    /// Refuse at the transport: the name is not in the registry.
    Fault(DispatchFault),
}

/// How a session learns the caller's access token: either each
/// invocation carries one in its context, or one token is bound to the
/// whole session at construction time.
pub enum TokenMode {
    PerRequest,
    PerSession(String),
}

/// The token an invocation runs with under a deployment mode.
pub open spec fn spec_mode_token(mode: TokenMode, meta: Value) -> Option<Seq<char>> {
    match mode {
        TokenMode::PerRequest => spec_access_token(meta),
        TokenMode::PerSession(token) => Some(token@),
    }
}

/// Dispatches one invocation against the Sheets registry, with the
/// token supplied per request.
pub fn dispatch_sheets(inv: &ToolInvocation) -> (r: SheetsDispatch)
    ensures
        !is_sheets_tool(inv.name@) ==> (r matches SheetsDispatch::Fault(
            DispatchFault::UnknownTool(n),
        ) && n@ == inv.name@),
        is_sheets_tool(inv.name@) && spec_access_token(inv.meta) is None ==> r
            == SheetsDispatch::Refuse(ToolError::MissingCredential),
        is_sheets_tool(inv.name@) && spec_access_token(inv.meta) is Some ==> match r {
            SheetsDispatch::Call { access_token, call } => {
                &&& access_token@ == spec_access_token(inv.meta)->0
                &&& spec_planned_call(inv.arguments, inv.meta, inv.name@, call)
            },
            SheetsDispatch::Refuse(e) => spec_refused_call(inv.arguments, inv.meta, inv.name@, e),
            SheetsDispatch::Fault(_) => false,
        },
{
    dispatch_sheets_with(inv, &TokenMode::PerRequest)
}

/// What a dispatched remote call must hold, per tool.
pub open spec fn spec_planned_call(
    args: Value,
    context: Value,
    name: Seq<char>,
    call: SheetsToolCall,
) -> bool {
    match call {
        SheetsToolCall::ReadValues(plan) => name == "read_values"@ && spec_planned_read(
            args,
            context,
            Ok(plan),
        ),
        SheetsToolCall::WriteValues(plan) => name == "write_values"@ && spec_planned_write(
            args,
            context,
            Ok(plan),
        ),
        SheetsToolCall::CreateSpreadsheet(plan) => name == "create_spreadsheet"@
            && spec_planned_create(args, Ok(plan)),
        SheetsToolCall::ClearValues(plan) => name == "clear_values"@ && spec_planned_clear(
            args,
            context,
            Ok(plan),
        ),
        SheetsToolCall::GetSheetInfo(plan) => name == "get_sheet_info"@ && spec_planned_info(
            context,
            Ok(plan),
        ),
    }
}

/// What a refused invocation must hold: its tool's exact failure.
pub open spec fn spec_refused_call(
    args: Value,
    context: Value,
    name: Seq<char>,
    e: ToolError,
) -> bool {
    ||| (name == "read_values"@ && spec_planned_read(args, context, Err(e)))
    ||| (name == "write_values"@ && spec_planned_write(args, context, Err(e)))
    ||| (name == "create_spreadsheet"@ && spec_planned_create(args, Err(e)))
    ||| (name == "clear_values"@ && spec_planned_clear(args, context, Err(e)))
    ||| (name == "get_sheet_info"@ && spec_planned_info(context, Err(e)))
}

/// Dispatches one invocation against the Sheets registry.
///
/// An unknown name is a transport fault.  A known name without a usable
/// access token is refused as a missing credential before any parameter
/// is read — and, the outcome being no `Call`, provably without a remote
/// call.  Otherwise the tool's parameters resolve to a plan or to the
/// tool's exact business failure.
pub fn dispatch_sheets_with(inv: &ToolInvocation, mode: &TokenMode) -> (r: SheetsDispatch)
    ensures
        !is_sheets_tool(inv.name@) ==> (r matches SheetsDispatch::Fault(
            DispatchFault::UnknownTool(n),
        ) && n@ == inv.name@),
        is_sheets_tool(inv.name@) && spec_mode_token(*mode, inv.meta) is None ==> r
            == SheetsDispatch::Refuse(ToolError::MissingCredential),
        is_sheets_tool(inv.name@) && spec_mode_token(*mode, inv.meta) is Some ==> match r {
            SheetsDispatch::Call { access_token, call } => {
                &&& access_token@ == spec_mode_token(*mode, inv.meta)->0
                &&& spec_planned_call(inv.arguments, inv.meta, inv.name@, call)
            },
            SheetsDispatch::Refuse(e) => spec_refused_call(inv.arguments, inv.meta, inv.name@, e),
            SheetsDispatch::Fault(_) => false,
        },
{
    let name = inv.name.as_str();
    if !(str_eq(name, "read_values") || str_eq(name, "write_values") || str_eq(
        name,
        "create_spreadsheet",
    ) || str_eq(name, "clear_values") || str_eq(name, "get_sheet_info")) {
        return SheetsDispatch::Fault(DispatchFault::UnknownTool(inv.name.clone()));
    }
    let access_token = match mode {
        TokenMode::PerRequest => match get_access_token(inv) {
            Ok(token) => token,
            Err(e) => {
                return SheetsDispatch::Refuse(e);
            },
        },
        TokenMode::PerSession(token) => token.clone(),
    };
    let planned = if str_eq(name, "read_values") {
        match plan_read_values(&inv.arguments, &inv.meta) {
            Ok(plan) => Ok(SheetsToolCall::ReadValues(plan)),
            Err(e) => Err(e),
        }
    } else if str_eq(name, "write_values") {
        match plan_write_values(&inv.arguments, &inv.meta) {
            Ok(plan) => Ok(SheetsToolCall::WriteValues(plan)),
            Err(e) => Err(e),
        }
    } else if str_eq(name, "create_spreadsheet") {
        match plan_create_spreadsheet(&inv.arguments) {
            Ok(plan) => Ok(SheetsToolCall::CreateSpreadsheet(plan)),
            Err(e) => Err(e),
        }
    } else if str_eq(name, "clear_values") {
        match plan_clear_values(&inv.arguments, &inv.meta) {
            Ok(plan) => Ok(SheetsToolCall::ClearValues(plan)),
            Err(e) => Err(e),
        }
    } else {
        match plan_get_sheet_info(&inv.meta) {
            Ok(plan) => Ok(SheetsToolCall::GetSheetInfo(plan)),
            Err(e) => Err(e),
        }
    };
    match planned {
        Ok(call) => SheetsDispatch::Call { access_token, call },
        Err(e) => SheetsDispatch::Refuse(e),
    }
}

/// Dispatches one invocation against the Drive registry.
pub fn dispatch_drive(inv: &ToolInvocation) -> (r: DriveDispatch)
    ensures
        !is_drive_tool(inv.name@) ==> (r matches DriveDispatch::Fault(DispatchFault::UnknownTool(n))
            && n@ == inv.name@),
        is_drive_tool(inv.name@) ==> (r matches DriveDispatch::Call(plan) && spec_planned_list(
            inv.arguments,
            plan,
        )),
{
    if str_eq(inv.name.as_str(), "list_files") {
        DriveDispatch::Call(plan_list_files(&inv.arguments))
    } else {
        DriveDispatch::Fault(DispatchFault::UnknownTool(inv.name.clone()))
    }
}

/// The names the Sheets registry advertises, in registration order.
pub fn sheets_tool_names() -> (r: Vec<String>)
    ensures
        r@.len() == 5,
        r@[0]@ == "read_values"@,
        r@[1]@ == "write_values"@,
        r@[2]@ == "create_spreadsheet"@,
        r@[3]@ == "clear_values"@,
        r@[4]@ == "get_sheet_info"@,
        forall|i: int| 0 <= i < r@.len() ==> is_sheets_tool(#[trigger] r@[i]@),
{
    let mut r: Vec<String> = Vec::new();
    r.push(String::from_str("read_values"));
    r.push(String::from_str("write_values"));
    r.push(String::from_str("create_spreadsheet"));
    r.push(String::from_str("clear_values"));
    r.push(String::from_str("get_sheet_info"));
    r
}

/// The names the Drive registry advertises.
pub fn drive_tool_names() -> (r: Vec<String>)
    ensures
        r@.len() == 1,
        r@[0]@ == "list_files"@,
        forall|i: int| 0 <= i < r@.len() ==> is_drive_tool(#[trigger] r@[i]@),
{
    let mut r: Vec<String> = Vec::new();
    r.push(String::from_str("list_files"));
    r
}

/// A static description of the one resource a server backs.
pub struct ResourceInfo {
    pub uri: String,
    pub name: String,
    pub description: String,
    pub mime_type: String,
}

/// The static resource descriptor of the Drive server.
pub fn list_drive_resources() -> (r: ResourceInfo)
    ensures
        r.uri@ == "https://www.googleapis.com/drive/v3/"@,
        r.name@ == "drive"@,
        r.description@ == "Google Drive API"@,
        r.mime_type@ == "application/json"@,
{
    ResourceInfo {
        uri: String::from_str("https://www.googleapis.com/drive/v3/"),
        name: String::from_str("drive"),
        description: String::from_str("Google Drive API"),
        mime_type: String::from_str("application/json"),
    }
}

/// The static resource descriptor of the Sheets server.
pub fn list_sheets_resources() -> (r: ResourceInfo)
    ensures
        r.uri@ == "https://sheets.googleapis.com/v4/"@,
        r.name@ == "sheets"@,
        r.description@ == "Google Sheets API"@,
        r.mime_type@ == "application/json"@,
{
    ResourceInfo {
        uri: String::from_str("https://sheets.googleapis.com/v4/"),
        name: String::from_str("sheets"),
        description: String::from_str("Google Sheets API"),
        mime_type: String::from_str("application/json"),
    }
}

} // verus!
