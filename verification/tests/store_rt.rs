use mcp_google_sheets::a1::{parse_cell, parse_range};
use mcp_google_sheets::registry::{dispatch_sheets, SheetsDispatch, SheetsToolCall};
use mcp_google_sheets::respond::success_response;
use mcp_google_sheets::store::FakeSheets;
use mcp_google_sheets::tools::ToolInvocation;
use mcp_google_sheets::value::Value;

fn obj(entries: Vec<(&str, Value)>) -> Value {
    Value::Obj(entries.into_iter().map(|(k, v)| (k.to_string(), v)).collect())
}

fn text(s: &str) -> Value {
    Value::Text(s.to_string())
}

fn session_meta() -> Value {
    obj(vec![
        ("access_token", text("tok")),
        ("spreadsheet_id", text("sid")),
    ])
}

fn sheets_call(name: &str, arguments: Value) -> SheetsToolCall {
    let inv = ToolInvocation { name: name.to_string(), arguments, meta: session_meta() };
    match dispatch_sheets(&inv) {
        SheetsDispatch::Call { call, .. } => call,
        _ => panic!("expected a remote call"),
    }
}

#[test]
fn write_then_read_round_trips_one_cell() {
    let mut store = FakeSheets::new();

    let write = match sheets_call(
        "write_values",
        obj(vec![
            ("values", Value::Arr(vec![Value::Arr(vec![text("7")])])),
            ("range", text("A1")),
            ("sheet", text("Sheet1")),
        ]),
    ) {
        SheetsToolCall::WriteValues(plan) => plan,
        _ => panic!("expected a write plan"),
    };
    store.apply_write(&write).unwrap();

    let read = match sheets_call(
        "read_values",
        obj(vec![("sheet", text("Sheet1")), ("range", text("A1"))]),
    ) {
        SheetsToolCall::ReadValues(plan) => plan,
        _ => panic!("expected a read plan"),
    };
    let rows = store.apply_read(&read).unwrap();
    assert_eq!(rows, vec![vec!["7".to_string()]]);
}

#[test]
fn open_ended_read_trims_to_the_data() {
    let mut store = FakeSheets::new();
    let write = match sheets_call(
        "write_values",
        obj(vec![
            (
                "values",
                Value::Arr(vec![
                    Value::Arr(vec![text("a"), text("b")]),
                    Value::Arr(vec![text("c")]),
                ]),
            ),
            ("range", text("B2")),
            ("sheet", text("Sheet1")),
        ]),
    ) {
        SheetsToolCall::WriteValues(plan) => plan,
        _ => panic!("expected a write plan"),
    };
    store.apply_write(&write).unwrap();

    let read = match sheets_call("read_values", obj(vec![("sheet", text("Sheet1"))])) {
        SheetsToolCall::ReadValues(plan) => plan,
        _ => panic!("expected a read plan"),
    };
    let rows = store.apply_read(&read).unwrap();
    assert_eq!(rows.len(), 3);
    assert_eq!(rows[1][1], "a");
    assert_eq!(rows[1][2], "b");
    assert_eq!(rows[2][1], "c");
    assert_eq!(rows[0][0], "");
}

#[test]
fn clear_twice_succeeds_both_times_with_no_rows_present() {
    let mut store = FakeSheets::new();
    let clear = match sheets_call("clear_values", Value::Null) {
        SheetsToolCall::ClearValues(plan) => plan,
        _ => panic!("expected a clear plan"),
    };
    assert_eq!(clear.range, "Sheet1!A1:ZZ");

    let first = store.apply_clear(&clear);
    assert!(first.is_ok());
    let second = store.apply_clear(&clear);
    assert!(second.is_ok());

    let envelope = success_response("{}".to_string());
    assert_eq!(envelope.is_error, None);
}

#[test]
fn clear_removes_written_cells() {
    let mut store = FakeSheets::new();
    let write = match sheets_call(
        "write_values",
        obj(vec![
            ("values", Value::Arr(vec![Value::Arr(vec![text("gone")])])),
            ("range", text("A1")),
            ("sheet", text("Sheet1")),
        ]),
    ) {
        SheetsToolCall::WriteValues(plan) => plan,
        _ => panic!("expected a write plan"),
    };
    store.apply_write(&write).unwrap();
    assert_eq!(store.read_cell("Sheet1", 1, 1).unwrap(), "gone");

    let clear = match sheets_call("clear_values", Value::Null) {
        SheetsToolCall::ClearValues(plan) => plan,
        _ => panic!("expected a clear plan"),
    };
    store.apply_clear(&clear).unwrap();
    assert!(store.read_cell("Sheet1", 1, 1).is_none());
}

#[test]
fn writes_on_other_sheets_stay_apart() {
    let mut store = FakeSheets::new();
    let write = match sheets_call(
        "write_values",
        obj(vec![
            ("values", Value::Arr(vec![Value::Arr(vec![text("x")])])),
            ("range", text("A1")),
            ("sheet", text("Alpha")),
        ]),
    ) {
        SheetsToolCall::WriteValues(plan) => plan,
        _ => panic!("expected a write plan"),
    };
    store.apply_write(&write).unwrap();
    assert!(store.read_cell("Beta", 1, 1).is_none());
    assert_eq!(store.read_cell("Alpha", 1, 1).unwrap(), "x");
}

#[test]
fn unparseable_range_is_refused() {
    let mut store = FakeSheets::new();
    let write = match sheets_call(
        "write_values",
        obj(vec![
            ("values", Value::Arr(vec![])),
            ("range", text("not a range")),
            ("sheet", text("Sheet1")),
        ]),
    ) {
        SheetsToolCall::WriteValues(plan) => plan,
        _ => panic!("expected a write plan"),
    };
    assert_eq!(store.apply_write(&write).unwrap_err(), "Unable to parse range");
}

#[test]
fn cell_references_parse_by_letters_then_digits() {
    let a1 = parse_cell("A1").unwrap();
    assert_eq!((a1.col, a1.row), (1, Some(1)));

    let zz = parse_cell("ZZ").unwrap();
    assert_eq!((zz.col, zz.row), (702, None));

    let aa10 = parse_cell("AA10").unwrap();
    assert_eq!((aa10.col, aa10.row), (27, Some(10)));

    assert!(parse_cell("1A").is_none());
    assert!(parse_cell("A0").is_none());
    assert!(parse_cell("").is_none());
    assert!(parse_cell("AAAAA1").is_none());
    assert!(parse_cell("A12345678").is_none());
}

#[test]
fn ranges_parse_sheet_start_and_end() {
    let r = parse_range("Sheet1!A1:ZZ").unwrap();
    assert_eq!(r.sheet, "Sheet1");
    assert_eq!((r.start.col, r.start.row), (1, Some(1)));
    let end = r.end.unwrap();
    assert_eq!((end.col, end.row), (702, None));

    let r = parse_range("Data!B2").unwrap();
    assert_eq!(r.sheet, "Data");
    assert_eq!((r.start.col, r.start.row), (2, Some(2)));
    assert!(r.end.is_none());

    assert!(parse_range("A1:B2").is_none());
}
