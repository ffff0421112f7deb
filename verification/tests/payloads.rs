use mcp_google_sheets::auth::{exchange_failure, refresh_payload, token_response_of};
use mcp_google_sheets::error::InvokeError;
use mcp_google_sheets::numtext::i64_text;
use mcp_google_sheets::registry::{list_drive_resources, list_sheets_resources};
use mcp_google_sheets::sheet_info::{
    column_letter, max_range_text, sheet_info_entries, sheet_info_payload, GridProperties,
    SheetMeta, SheetProperties,
};
use mcp_google_sheets::value::Value;

fn obj(entries: Vec<(&str, Value)>) -> Value {
    Value::Obj(entries.into_iter().map(|(k, v)| (k.to_string(), v)).collect())
}

fn text(s: &str) -> Value {
    Value::Text(s.to_string())
}

fn sheet(title: Option<&str>, grid: Option<(Option<i32>, Option<i32>)>) -> SheetMeta {
    SheetMeta {
        properties: Some(SheetProperties {
            title: title.map(|t| t.to_string()),
            grid_properties: grid.map(|(rows, cols)| GridProperties {
                row_count: rows,
                column_count: cols,
            }),
        }),
    }
}

#[test]
fn sheet_info_reports_title_and_max_range() {
    let sheets = vec![sheet(Some("Data"), Some((Some(100), Some(4))))];
    let entries = sheet_info_entries(&sheets);
    assert_eq!(entries.len(), 1);
    assert_eq!(entries[0].title, "Data");
    assert_eq!(entries[0].max_range, "A1:D100");
    assert_eq!(
        sheet_info_payload(&sheets),
        "[{\"title\":\"Data\",\"maxRange\":\"A1:D100\"}]"
    );
}

#[test]
fn sheet_info_skips_incomplete_sheets_and_fills_defaults() {
    let sheets = vec![
        SheetMeta { properties: None },
        sheet(None, Some((Some(5), Some(2)))),
        sheet(Some("NoGrid"), None),
        sheet(Some("Defaults"), Some((None, None))),
        sheet(Some("Tiny"), Some((Some(1), Some(1)))),
    ];
    let entries = sheet_info_entries(&sheets);
    assert_eq!(entries.len(), 2);
    assert_eq!(entries[0].title, "Defaults");
    assert_eq!(entries[0].max_range, "A1:Z1000");
    assert_eq!(entries[1].title, "Tiny");
    assert_eq!(entries[1].max_range, "A1:A1");
}

#[test]
fn sheet_info_payload_escapes_titles() {
    let sheets = vec![sheet(Some("Da\"ta\\"), Some((Some(2), Some(2))))];
    assert_eq!(
        sheet_info_payload(&sheets),
        "[{\"title\":\"Da\\\"ta\\\\\",\"maxRange\":\"A1:B2\"}]"
    );
}

#[test]
fn sheet_info_payload_joins_entries_with_commas() {
    let sheets = vec![
        sheet(Some("One"), Some((Some(1), Some(1)))),
        sheet(Some("Two"), Some((Some(2), Some(2)))),
    ];
    assert_eq!(
        sheet_info_payload(&sheets),
        "[{\"title\":\"One\",\"maxRange\":\"A1:A1\"},{\"title\":\"Two\",\"maxRange\":\"A1:B2\"}]"
    );
    assert_eq!(sheet_info_payload(&Vec::new()), "[]");
}

#[test]
fn column_letters_clamp_to_one_letter() {
    assert_eq!(column_letter(1), 'A');
    assert_eq!(column_letter(4), 'D');
    assert_eq!(column_letter(26), 'Z');
    assert_eq!(column_letter(27), 'Z');
    assert_eq!(column_letter(0), 'A');
    assert_eq!(column_letter(-3), 'A');
}

#[test]
fn max_range_uses_api_defaults_for_absent_counts() {
    let grid = GridProperties { row_count: None, column_count: None };
    assert_eq!(max_range_text(&grid), "A1:Z1000");
    let grid = GridProperties { row_count: Some(100), column_count: Some(4) };
    assert_eq!(max_range_text(&grid), "A1:D100");
}

#[test]
fn decimal_text_covers_signs_and_extremes() {
    assert_eq!(i64_text(0), "0");
    assert_eq!(i64_text(7), "7");
    assert_eq!(i64_text(100), "100");
    assert_eq!(i64_text(-5), "-5");
    assert_eq!(i64_text(i64::MAX), "9223372036854775807");
    assert_eq!(i64_text(i64::MIN), "-9223372036854775808");
}

#[test]
fn refresh_payload_holds_the_four_fields() {
    let v = refresh_payload("id-1", "secret-2", "refresh-3");
    match v {
        Value::Obj(entries) => {
            let pairs: Vec<(String, String)> = entries
                .into_iter()
                .map(|(k, v)| match v {
                    Value::Text(s) => (k, s),
                    _ => panic!("expected text"),
                })
                .collect();
            assert_eq!(
                pairs,
                vec![
                    ("client_id".to_string(), "id-1".to_string()),
                    ("client_secret".to_string(), "secret-2".to_string()),
                    ("refresh_token".to_string(), "refresh-3".to_string()),
                    ("grant_type".to_string(), "refresh_token".to_string()),
                ]
            );
        }
        _ => panic!("expected an object"),
    }
}

#[test]
fn token_response_reads_every_field() {
    let body = obj(vec![
        ("access_token", text("at")),
        ("expires_in", Value::Int(3600)),
        ("refresh_token", text("rt")),
        ("scope", text("drive")),
        ("token_type", text("Bearer")),
    ]);
    let t = token_response_of(&body).unwrap();
    assert_eq!(t.access_token, "at");
    assert_eq!(t.expires_in, 3600);
    assert_eq!(t.refresh_token, Some("rt".to_string()));
    assert_eq!(t.scope, "drive");
    assert_eq!(t.token_type, "Bearer");
}

#[test]
fn token_response_treats_null_refresh_token_as_absent() {
    let body = obj(vec![
        ("access_token", text("at")),
        ("expires_in", Value::Int(10)),
        ("refresh_token", Value::Null),
        ("scope", text("s")),
        ("token_type", text("t")),
    ]);
    assert_eq!(token_response_of(&body).unwrap().refresh_token, None);
}

#[test]
fn token_response_names_the_first_bad_field() {
    let no_scope = obj(vec![
        ("access_token", text("at")),
        ("expires_in", Value::Int(10)),
        ("token_type", text("t")),
    ]);
    match token_response_of(&no_scope).unwrap_err() {
        InvokeError::TokenParse(m) => assert_eq!(m, "missing or invalid field: scope"),
        _ => panic!("expected a parse failure"),
    }

    let big = obj(vec![
        ("access_token", text("at")),
        ("expires_in", Value::Int(i64::from(i32::MAX) + 1)),
        ("scope", text("s")),
        ("token_type", text("t")),
    ]);
    match token_response_of(&big).unwrap_err() {
        InvokeError::TokenParse(m) => assert_eq!(m, "missing or invalid field: expires_in"),
        _ => panic!("expected a parse failure"),
    }

    match token_response_of(&Value::Null).unwrap_err() {
        InvokeError::TokenParse(m) => assert_eq!(m, "missing or invalid field: access_token"),
        _ => panic!("expected a parse failure"),
    }
}

#[test]
fn exchange_failure_keeps_the_body_text() {
    match exchange_failure(Some("denied".to_string())) {
        InvokeError::GoogleApi(m) => assert_eq!(m, "denied"),
        _ => panic!("expected a remote failure"),
    }
    match exchange_failure(None) {
        InvokeError::GoogleApi(m) => assert_eq!(m, "Unknown error"),
        _ => panic!("expected a remote failure"),
    }
}

#[test]
fn invoke_errors_render_their_prefixes() {
    assert_eq!(
        InvokeError::EnvVarMissing("GOOGLE_CLIENT_ID".to_string()).message(),
        "Environment variable missing: GOOGLE_CLIENT_ID"
    );
    assert_eq!(
        InvokeError::GoogleApi("nope".to_string()).message(),
        "Google API error: nope"
    );
    assert_eq!(
        InvokeError::TokenParse("bad".to_string()).message(),
        "Token parse error: bad"
    );
    assert_eq!(InvokeError::Serde("s".to_string()).message(), "Serde error: s");
    assert_eq!(InvokeError::UserInfo("u".to_string()).message(), "User info error: u");
    assert_eq!(InvokeError::Jwt("j".to_string()).message(), "JWT error: j");
}

#[test]
fn resource_descriptors_point_at_the_apis() {
    let drive = list_drive_resources();
    assert_eq!(drive.uri, "https://www.googleapis.com/drive/v3/");
    assert_eq!(drive.name, "drive");
    assert_eq!(drive.description, "Google Drive API");
    assert_eq!(drive.mime_type, "application/json");

    let sheets = list_sheets_resources();
    assert_eq!(sheets.uri, "https://sheets.googleapis.com/v4/");
    assert_eq!(sheets.name, "sheets");
    assert_eq!(sheets.description, "Google Sheets API");
    assert_eq!(sheets.mime_type, "application/json");
}
