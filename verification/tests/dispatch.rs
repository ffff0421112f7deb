use mcp_google_sheets::error::{DispatchFault, ToolError};
use mcp_google_sheets::params::{resolve_param, ParamSources};
use mcp_google_sheets::registry::{
    dispatch_drive, dispatch_sheets, dispatch_sheets_with, drive_tool_names, sheets_tool_names,
    DriveDispatch, SheetsDispatch, SheetsToolCall, TokenMode,
};
use mcp_google_sheets::respond::{error_response, handle_result, success_response, ToolContent};
use mcp_google_sheets::tools::{get_access_token, plan_list_files, ToolInvocation};
use mcp_google_sheets::value::Value;

fn obj(entries: Vec<(&str, Value)>) -> Value {
    Value::Obj(entries.into_iter().map(|(k, v)| (k.to_string(), v)).collect())
}

fn text(s: &str) -> Value {
    Value::Text(s.to_string())
}

fn session_meta() -> Value {
    obj(vec![
        ("access_token", text("tok-123")),
        ("spreadsheet_id", text("sheet-id-9")),
    ])
}

fn invocation(name: &str, arguments: Value, meta: Value) -> ToolInvocation {
    ToolInvocation { name: name.to_string(), arguments, meta }
}

#[test]
fn missing_token_is_refused_without_any_call() {
    let inv = invocation(
        "read_values",
        obj(vec![("sheet", text("Sheet6"))]),
        Value::Null,
    );
    match dispatch_sheets(&inv) {
        SheetsDispatch::Refuse(e) => {
            assert!(matches!(e, ToolError::MissingCredential));
            let resp = error_response(&e);
            assert_eq!(resp.is_error, Some(true));
            let ToolContent::Text { text } = &resp.content[0];
            assert_eq!(text, "Error: Missing or invalid access_token");
        }
        _ => panic!("expected a refusal"),
    }
}

#[test]
fn missing_token_is_refused_for_every_sheets_tool() {
    for name in [
        "read_values",
        "write_values",
        "create_spreadsheet",
        "clear_values",
        "get_sheet_info",
    ] {
        let inv = invocation(name, Value::Null, obj(vec![("spreadsheet_id", text("x"))]));
        assert!(matches!(
            dispatch_sheets(&inv),
            SheetsDispatch::Refuse(ToolError::MissingCredential)
        ));
    }
}

#[test]
fn session_bound_token_needs_no_meta_entry() {
    let inv = invocation(
        "get_sheet_info",
        Value::Null,
        obj(vec![("spreadsheet_id", text("sid"))]),
    );
    let mode = TokenMode::PerSession("session-tok".to_string());
    match dispatch_sheets_with(&inv, &mode) {
        SheetsDispatch::Call { access_token, call } => {
            assert_eq!(access_token, "session-tok");
            assert!(matches!(call, SheetsToolCall::GetSheetInfo(_)));
        }
        _ => panic!("expected a remote call"),
    }

    let inv = invocation("get_sheet_info", Value::Null, Value::Null);
    assert!(matches!(
        dispatch_sheets_with(&inv, &TokenMode::PerRequest),
        SheetsDispatch::Refuse(ToolError::MissingCredential)
    ));
}

#[test]
fn read_values_applies_default_range() {
    let inv = invocation(
        "read_values",
        obj(vec![("sheet", text("Sheet6"))]),
        session_meta(),
    );
    match dispatch_sheets(&inv) {
        SheetsDispatch::Call { access_token, call } => {
            assert_eq!(access_token, "tok-123");
            match call {
                SheetsToolCall::ReadValues(plan) => {
                    assert_eq!(plan.spreadsheet_id, "sheet-id-9");
                    assert_eq!(plan.range, "Sheet6!A1:ZZ");
                    assert_eq!(plan.major_dimension, "ROWS");
                }
                _ => panic!("expected a read plan"),
            }
        }
        _ => panic!("expected a remote call"),
    }
}

#[test]
fn sheet_and_range_fall_back_to_the_session_context() {
    let inv = invocation(
        "read_values",
        Value::Null,
        obj(vec![
            ("access_token", text("tok-123")),
            ("spreadsheet_id", text("sheet-id-9")),
            ("sheet", text("Sheet6")),
        ]),
    );
    match dispatch_sheets(&inv) {
        SheetsDispatch::Call { call: SheetsToolCall::ReadValues(plan), .. } => {
            assert_eq!(plan.range, "Sheet6!A1:ZZ");
        }
        _ => panic!("expected a read plan"),
    }

    let inv = invocation(
        "read_values",
        obj(vec![("sheet", text("FromArgs"))]),
        obj(vec![
            ("access_token", text("tok-123")),
            ("spreadsheet_id", text("sheet-id-9")),
            ("sheet", text("FromMeta")),
            ("range", text("B2:C3")),
        ]),
    );
    match dispatch_sheets(&inv) {
        SheetsDispatch::Call { call: SheetsToolCall::ReadValues(plan), .. } => {
            assert_eq!(plan.range, "FromArgs!B2:C3");
        }
        _ => panic!("expected a read plan"),
    }

    let inv = invocation(
        "write_values",
        obj(vec![("values", Value::Arr(vec![Value::Arr(vec![text("9")])]))]),
        obj(vec![
            ("access_token", text("tok-123")),
            ("spreadsheet_id", text("sheet-id-9")),
            ("sheet", text("Meta")),
            ("range", text("D4")),
        ]),
    );
    match dispatch_sheets(&inv) {
        SheetsDispatch::Call { call: SheetsToolCall::WriteValues(plan), .. } => {
            assert_eq!(plan.range, "Meta!D4");
        }
        _ => panic!("expected a write plan"),
    }

    let inv = invocation(
        "clear_values",
        obj(vec![("range", text("A1:B2"))]),
        obj(vec![
            ("access_token", text("tok-123")),
            ("spreadsheet_id", text("sheet-id-9")),
            ("sheet", text("MetaSheet")),
        ]),
    );
    match dispatch_sheets(&inv) {
        SheetsDispatch::Call { call: SheetsToolCall::ClearValues(plan), .. } => {
            assert_eq!(plan.range, "MetaSheet!A1:B2");
        }
        _ => panic!("expected a clear plan"),
    }
}

#[test]
fn write_values_combines_range_and_uses_raw_input() {
    let inv = invocation(
        "write_values",
        obj(vec![
            ("values", Value::Arr(vec![Value::Arr(vec![text("5")])])),
            ("range", text("A1")),
            ("sheet", text("Sheet1")),
        ]),
        session_meta(),
    );
    match dispatch_sheets(&inv) {
        SheetsDispatch::Call { call: SheetsToolCall::WriteValues(plan), .. } => {
            assert_eq!(plan.range, "Sheet1!A1");
            assert_eq!(plan.value_input_option, "RAW");
            assert_eq!(plan.major_dimension, "ROWS");
            assert_eq!(plan.values, vec![vec!["5".to_string()]]);
        }
        _ => panic!("expected a write plan"),
    }
}

#[test]
fn malformed_rows_coerce_to_empty_rows_and_cells() {
    let inv = invocation(
        "write_values",
        obj(vec![
            (
                "values",
                Value::Arr(vec![
                    text("not a row"),
                    Value::Arr(vec![text("a"), Value::Int(5), Value::Bool(true), Value::Null]),
                ]),
            ),
            ("range", text("A1")),
            ("sheet", text("Sheet1")),
        ]),
        session_meta(),
    );
    match dispatch_sheets(&inv) {
        SheetsDispatch::Call { call: SheetsToolCall::WriteValues(plan), .. } => {
            assert_eq!(
                plan.values,
                vec![
                    Vec::<String>::new(),
                    vec!["a".to_string(), String::new(), String::new(), String::new()],
                ]
            );
        }
        _ => panic!("expected a write plan"),
    }
}

#[test]
fn unknown_tool_is_a_transport_fault_not_an_envelope() {
    let inv = invocation("does_not_exist", Value::Null, session_meta());
    match dispatch_sheets(&inv) {
        SheetsDispatch::Fault(DispatchFault::UnknownTool(name)) => {
            assert_eq!(name, "does_not_exist");
        }
        _ => panic!("expected a transport fault"),
    }
    let inv = invocation("read_values", Value::Null, Value::Null);
    match dispatch_drive(&inv) {
        DriveDispatch::Fault(DispatchFault::UnknownTool(name)) => {
            assert_eq!(name, "read_values");
        }
        _ => panic!("expected a transport fault"),
    }
}

#[test]
fn missing_spreadsheet_id_names_the_parameter() {
    let inv = invocation(
        "read_values",
        obj(vec![("sheet", text("Sheet1"))]),
        obj(vec![("access_token", text("tok"))]),
    );
    match dispatch_sheets(&inv) {
        SheetsDispatch::Refuse(ToolError::MissingParameter(name)) => {
            assert_eq!(name, "spreadsheet_id");
        }
        _ => panic!("expected a missing parameter"),
    }
}

#[test]
fn missing_required_arguments_name_their_parameter() {
    let inv = invocation("read_values", Value::Null, session_meta());
    match dispatch_sheets(&inv) {
        SheetsDispatch::Refuse(ToolError::MissingParameter(name)) => assert_eq!(name, "sheet"),
        _ => panic!("expected a missing parameter"),
    }
    let inv = invocation(
        "write_values",
        obj(vec![("sheet", text("Sheet1")), ("range", text("A1"))]),
        session_meta(),
    );
    match dispatch_sheets(&inv) {
        SheetsDispatch::Refuse(ToolError::MissingParameter(name)) => assert_eq!(name, "values"),
        _ => panic!("expected a missing parameter"),
    }
    let inv = invocation("create_spreadsheet", Value::Null, session_meta());
    match dispatch_sheets(&inv) {
        SheetsDispatch::Refuse(ToolError::MissingParameter(name)) => assert_eq!(name, "title"),
        _ => panic!("expected a missing parameter"),
    }
}

#[test]
fn clear_values_fills_both_defaults() {
    let inv = invocation("clear_values", Value::Null, session_meta());
    match dispatch_sheets(&inv) {
        SheetsDispatch::Call { call: SheetsToolCall::ClearValues(plan), .. } => {
            assert_eq!(plan.range, "Sheet1!A1:ZZ");
            assert_eq!(plan.spreadsheet_id, "sheet-id-9");
        }
        _ => panic!("expected a clear plan"),
    }
}

#[test]
fn create_spreadsheet_collects_sheet_titles() {
    let inv = invocation(
        "create_spreadsheet",
        obj(vec![
            ("title", text("Budget")),
            (
                "sheets",
                Value::Arr(vec![
                    obj(vec![("title", text("Expenses"))]),
                    obj(vec![("name", text("ignored"))]),
                    text("malformed"),
                ]),
            ),
        ]),
        session_meta(),
    );
    match dispatch_sheets(&inv) {
        SheetsDispatch::Call { call: SheetsToolCall::CreateSpreadsheet(plan), .. } => {
            assert_eq!(plan.title, "Budget");
            assert_eq!(
                plan.sheet_titles,
                Some(vec![
                    "Expenses".to_string(),
                    "Sheet1".to_string(),
                    "Sheet1".to_string(),
                ])
            );
        }
        _ => panic!("expected a create plan"),
    }
}

#[test]
fn list_files_builds_mime_query_and_defaults() {
    let args = obj(vec![
        ("mime_type", text("application/vnd.google-apps.folder")),
        ("page_size", Value::Int(10)),
    ]);
    let plan = plan_list_files(&args);
    assert_eq!(plan.query, "mimeType='application/vnd.google-apps.folder'");
    assert_eq!(plan.page_size, 10);
    assert_eq!(plan.order_by, "modifiedTime desc");

    let plan = plan_list_files(&Value::Null);
    assert_eq!(plan.query, "");
    assert_eq!(plan.page_size, 10);
    assert_eq!(plan.order_by, "modifiedTime desc");

    let args = obj(vec![
        (
            "mime_type",
            text("mimeType='application/vnd.google-apps.spreadsheet'"),
        ),
        ("order_by", text("modifiedTime desc")),
        ("page_size", Value::Int(25)),
    ]);
    let plan = plan_list_files(&args);
    assert_eq!(plan.page_size, 25);
}

#[test]
fn drive_dispatch_plans_listings() {
    let inv = invocation(
        "list_files",
        obj(vec![("mime_type", text("application/vnd.google-apps.folder"))]),
        Value::Null,
    );
    match dispatch_drive(&inv) {
        DriveDispatch::Call(plan) => {
            assert_eq!(plan.query, "mimeType='application/vnd.google-apps.folder'");
        }
        _ => panic!("expected a listing plan"),
    }
}

#[test]
fn access_token_is_read_from_meta_only() {
    let inv = invocation(
        "read_values",
        obj(vec![("access_token", text("from-args"))]),
        obj(vec![("access_token", text("from-meta"))]),
    );
    assert_eq!(get_access_token(&inv).unwrap(), "from-meta");

    let inv = invocation(
        "read_values",
        Value::Null,
        obj(vec![("access_token", Value::Int(7))]),
    );
    assert!(matches!(
        get_access_token(&inv),
        Err(ToolError::MissingCredential)
    ));
}

#[test]
fn resolver_prefers_arguments_then_context_then_default() {
    let args = obj(vec![("major_dimension", text("COLUMNS"))]);
    let ctx = obj(vec![("major_dimension", text("ROWS"))]);
    let both = ParamSources { from_args: true, from_context: true };

    let got = resolve_param(&args, &ctx, "major_dimension", both, Some("ROWS"));
    assert_eq!(got.unwrap(), "COLUMNS");

    let got = resolve_param(&Value::Null, &ctx, "major_dimension", both, Some("COLUMNS"));
    assert_eq!(got.unwrap(), "ROWS");

    let got = resolve_param(&Value::Null, &Value::Null, "major_dimension", both, Some("ROWS"));
    assert_eq!(got.unwrap(), "ROWS");

    let got = resolve_param(&Value::Null, &ctx, "major_dimension", both, None);
    assert_eq!(got.unwrap(), "ROWS");

    let args_only = ParamSources { from_args: true, from_context: false };
    let got = resolve_param(&Value::Null, &ctx, "major_dimension", args_only, None);
    assert!(got.is_none());
}

#[test]
fn handle_result_normalizes_failures_into_envelopes() {
    let ok = handle_result(Ok(success_response("{\"a\":1}".to_string())));
    assert_eq!(ok.is_error, None);
    let ToolContent::Text { text } = &ok.content[0];
    assert_eq!(text, "{\"a\":1}");

    let err = handle_result(Err(ToolError::RemoteApiFailure("boom".to_string())));
    assert_eq!(err.is_error, Some(true));
    assert_eq!(err.content.len(), 1);
    let ToolContent::Text { text } = &err.content[0];
    assert_eq!(text, "Error: boom");
}

#[test]
fn registries_advertise_their_tools() {
    let names = sheets_tool_names();
    assert_eq!(
        names,
        vec![
            "read_values",
            "write_values",
            "create_spreadsheet",
            "clear_values",
            "get_sheet_info",
        ]
    );
    assert_eq!(drive_tool_names(), vec!["list_files"]);
}
