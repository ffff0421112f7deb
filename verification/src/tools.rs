//! Per-tool request validation: from a loosely-typed invocation to the
//! one remote operation it asks for.
//!
//! Each `plan_*` function resolves the declared parameters of its tool
//! through the generic resolver, applies the tool's defaults, and either
//! produces the fully-determined remote call or the exact business
//! failure.  No remote work happens here; a plan is handed outward to be
//! executed, so an invocation that fails validation provably never
//! reaches the network.

use vstd::prelude::*;
use vstd::string::StringExecFns;

use crate::error::ToolError;
use crate::params::{resolve_param, spec_resolve, ParamSources};
use crate::value::{source_text, source_uint, spec_get, Value};

verus! {

/// One inbound tool invocation: a tool name, per-call arguments, and the
/// session-scoped context (`meta`).  An absent bag arrives as
/// `Value::Null`, which resolves like an empty object.
pub struct ToolInvocation {
    pub name: String,
    pub arguments: Value,
    pub meta: Value,
}

/// A parameter resolved from the call's own arguments alone.
pub open spec fn spec_arg_text(args: Value, name: Seq<char>) -> Option<Seq<char>> {
    spec_resolve(
        args,
        Value::Null,
        name,
        (ParamSources { from_args: true, from_context: false }),
        None,
    )
}

/// A parameter resolved from the call's arguments, with a default.
pub open spec fn spec_arg_or(args: Value, name: Seq<char>, default: Seq<char>) -> Seq<char> {
    match source_text(args, name) {
        Some(s) => s,
        None => default,
    }
}

/// A parameter resolved from the call's arguments first, then from the
/// session context.
pub open spec fn spec_arg_ctx_text(args: Value, context: Value, name: Seq<char>) -> Option<
    Seq<char>,
> {
    spec_resolve(
        args,
        context,
        name,
        (ParamSources { from_args: true, from_context: true }),
        None,
    )
}

/// A parameter resolved from arguments, then context, then the default.
pub open spec fn spec_arg_ctx_or(
    args: Value,
    context: Value,
    name: Seq<char>,
    default: Seq<char>,
) -> Seq<char> {
    match spec_arg_ctx_text(args, context, name) {
        Some(s) => s,
        None => default,
    }
}

/// The sheet-qualified range handed to the remote API: `"{sheet}!{range}"`.
pub open spec fn spec_combined_range(sheet: Seq<char>, user_range: Seq<char>) -> Seq<char> {
    sheet + "!"@ + user_range
}

/// The access token of an invocation, drawn from the session context.
pub open spec fn spec_access_token(meta: Value) -> Option<Seq<char>> {
    source_text(meta, "access_token"@)
}

/// Extracts the caller's access token from `meta.access_token`.
///
/// An absent or non-text entry is a missing credential; the tool then
/// fails before any remote call is attempted.
pub fn get_access_token(inv: &ToolInvocation) -> (r: Result<String, ToolError>)
    ensures
        match r {
            Ok(token) => spec_access_token(inv.meta) == Some(token@),
            Err(e) => spec_access_token(inv.meta) is None && e == ToolError::MissingCredential,
        },
{
    match inv.meta.get_text("access_token") {
        Some(token) => Ok(token.clone()),
        None => Err(ToolError::MissingCredential),
    }
}

/// The one remote read a `read_values` invocation asks for.
pub struct ReadValuesPlan {
    pub spreadsheet_id: String,
    pub range: String,
    pub major_dimension: String,
}

/// The one remote write a `write_values` invocation asks for.
pub struct WriteValuesPlan {
    pub spreadsheet_id: String,
    pub range: String,
    pub major_dimension: String,
    pub values: Vec<Vec<String>>,
    pub value_input_option: String,
}

/// The one remote creation a `create_spreadsheet` invocation asks for.
pub struct CreateSpreadsheetPlan {
    pub title: String,
    pub sheet_titles: Option<Vec<String>>,
}

/// The one remote clear a `clear_values` invocation asks for.
pub struct ClearValuesPlan {
    pub spreadsheet_id: String,
    pub range: String,
}

/// The one remote metadata fetch a `get_sheet_info` invocation asks for.
pub struct GetSheetInfoPlan {
    pub spreadsheet_id: String,
}

/// The one remote listing a `list_files` invocation asks for.
pub struct ListFilesPlan {
    pub query: String,
    pub page_size: i64,
    pub order_by: String,
}

/// The `list_files` query string: a MIME-type filter becomes
/// `mimeType='<value>'`, with no escaping of embedded quotes (an accepted
/// limitation for a trusted-caller system); otherwise the query is empty.
pub open spec fn spec_list_query(args: Value) -> Seq<char> {
    match source_text(args, "mime_type"@) {
        Some(m) => "mimeType='"@ + m + "'"@,
        None => Seq::<char>::empty(),
    }
}

/// The effective `list_files` page size: the given non-negative integer,
/// or ten.
pub open spec fn spec_list_page_size(args: Value) -> int {
    match source_uint(args, "page_size"@) {
        Some(n) => n,
        None => 10,
    }
}

pub open spec fn spec_planned_list(args: Value, r: ListFilesPlan) -> bool {
    &&& r.query@ == spec_list_query(args)
    &&& r.page_size == spec_list_page_size(args)
    &&& r.order_by@ == spec_arg_or(args, "order_by"@, "modifiedTime desc"@)
}

/// Plans a `list_files` call.  Every parameter is optional, so planning
/// always succeeds.
pub fn plan_list_files(args: &Value) -> (r: ListFilesPlan)
    ensures
        spec_planned_list(*args, r),
{
    let query = match args.get_text("mime_type") {
        Some(m) => {
            let mut q = String::from_str("mimeType='");
            q.append(m.as_str());
            q.append("'");
            q
        },
        None => String::new(),
    };
    let page_size: i64 = match args.get("page_size") {
        Some(v) => match v.as_u64() {
            Some(n) => n as i64,
            None => 10,
        },
        None => 10,
    };
    let order_by = match resolve_param(
        args,
        &Value::Null,
        "order_by",
        ParamSources { from_args: true, from_context: false },
        Some("modifiedTime desc"),
    ) {
        Some(s) => s,
        None => String::new(),
    };
    ListFilesPlan { query, page_size, order_by }
}

/// What a `read_values` resolution must produce.
pub open spec fn spec_planned_read(
    args: Value,
    context: Value,
    r: Result<ReadValuesPlan, ToolError>,
) -> bool {
    let sid = source_text(context, "spreadsheet_id"@);
    let sheet = spec_arg_ctx_text(args, context, "sheet"@);
    match r {
        Ok(plan) => {
            &&& sid is Some
            &&& sheet is Some
            &&& plan.spreadsheet_id@ == sid->0
            &&& plan.range@ == spec_combined_range(
                sheet->0,
                spec_arg_ctx_or(args, context, "range"@, "A1:ZZ"@),
            )
            &&& plan.major_dimension@ == spec_arg_or(args, "major_dimension"@, "ROWS"@)
        },
        Err(e) => {
            ||| (sid is None && (e matches ToolError::MissingParameter(n)
                && n@ == "spreadsheet_id"@))
            ||| (sid is Some && sheet is None && (e matches ToolError::MissingParameter(n)
                && n@ == "sheet"@))
        },
    }
}

/// Plans a `read_values` call.
///
/// `spreadsheet_id` is session-scoped and comes from the context alone;
/// `sheet` is required, from the arguments or the context; `range` falls
/// back from arguments to context to `"A1:ZZ"`; `major_dimension`
/// defaults to `"ROWS"`.
pub fn plan_read_values(args: &Value, context: &Value) -> (r: Result<ReadValuesPlan, ToolError>)
    ensures
        spec_planned_read(*args, *context, r),
{
    let spreadsheet_id = match require_context(context, "spreadsheet_id") {
        Ok(s) => s,
        Err(e) => {
            return Err(e);
        },
    };
    let sheet = match require_arg_or_ctx(args, context, "sheet") {
        Ok(s) => s,
        Err(e) => {
            return Err(e);
        },
    };
    let user_range = arg_or_ctx(args, context, "range", "A1:ZZ");
    let major_dimension = arg_or(args, "major_dimension", "ROWS");
    let range = combined_range(sheet, &user_range);
    Ok(ReadValuesPlan { spreadsheet_id, range, major_dimension })
}

/// One cell of a value block: text passes through, every other kind is
/// coerced to the empty string rather than failing the call.
pub open spec fn spec_coerce_cell(v: Value) -> Seq<char> {
    match v {
        Value::Text(s) => s@,
        _ => Seq::<char>::empty(),
    }
}

/// One row of a value block: a malformed (non-array) row is coerced to an
/// empty row rather than raising a fault.
pub open spec fn spec_coerce_row(v: Value) -> Seq<Seq<char>> {
    match v {
        Value::Arr(cells) => Seq::new(cells@.len(), |i: int| spec_coerce_cell(cells@[i])),
        _ => Seq::<Seq<char>>::empty(),
    }
}

/// The whole 2-D value block, defensively coerced row by row.
pub open spec fn spec_coerce_rows(rows: Seq<Value>) -> Seq<Seq<Seq<char>>> {
    Seq::new(rows.len(), |i: int| spec_coerce_row(rows[i]))
}

/// A malformed (non-array) row coerces to an empty row, never to a fault.
pub proof fn lemma_malformed_row_coerced(v: Value)
    requires
        !(v matches Value::Arr(_)),
    ensures
        spec_coerce_row(v) == Seq::<Seq<char>>::empty(),
{
}

fn coerce_row(v: &Value) -> (r: Vec<String>)
    ensures
        r.deep_view() == spec_coerce_row(*v),
{
    match v {
        Value::Arr(cells) => {
            let n = cells.len();
            let mut r: Vec<String> = Vec::new();
            let mut i: usize = 0;
            while i < n
                invariant
                    i <= n,
                    n == cells@.len(),
                    *v == Value::Arr(*cells),
                    r@.len() == i,
                    forall|j: int| 0 <= j < i ==> r@[j]@ == spec_coerce_cell(cells@[j]),
                decreases n - i,
            {
                let cell = match cells[i].as_str() {
                    Some(s) => String::from_str(s),
                    None => String::new(),
                };
                r.push(cell);
                i = i + 1;
            }
            proof {
                assert(r.deep_view() =~= spec_coerce_row(*v));
            }
            r
        },
        _ => {
            let r: Vec<String> = Vec::new();
            proof {
                assert(r.deep_view() =~= spec_coerce_row(*v));
            }
            r
        },
    }
}

fn coerce_rows(rows: &Vec<Value>) -> (r: Vec<Vec<String>>)
    ensures
        r.deep_view() == spec_coerce_rows(rows@),
{
    let n = rows.len();
    let mut r: Vec<Vec<String>> = Vec::new();
    let mut i: usize = 0;
    while i < n
        invariant
            i <= n,
            n == rows@.len(),
            r@.len() == i,
            forall|j: int| 0 <= j < i ==> r@[j].deep_view() == spec_coerce_row(rows@[j]),
        decreases n - i,
    {
        let row = coerce_row(&rows[i]);
        r.push(row);
        i = i + 1;
    }
    proof {
        assert(r.deep_view() =~= spec_coerce_rows(rows@));
    }
    r
}

/// What a `write_values` resolution must produce.
pub open spec fn spec_planned_write(
    args: Value,
    context: Value,
    r: Result<WriteValuesPlan, ToolError>,
) -> bool {
    let sid = source_text(context, "spreadsheet_id"@);
    let sheet = spec_arg_ctx_text(args, context, "sheet"@);
    let user_range = spec_arg_ctx_text(args, context, "range"@);
    let values = spec_get(args, "values"@);
    match r {
        Ok(plan) => {
            &&& sid is Some
            &&& sheet is Some
            &&& user_range is Some
            &&& values matches Some(Value::Arr(rows))
                && plan.values.deep_view() == spec_coerce_rows(rows@)
            &&& plan.spreadsheet_id@ == sid->0
            &&& plan.range@ == spec_combined_range(sheet->0, user_range->0)
            &&& plan.major_dimension@ == spec_arg_or(args, "major_dimension"@, "ROWS"@)
            &&& plan.value_input_option@ == "RAW"@
        },
        Err(e) => {
            ||| (sid is None && (e matches ToolError::MissingParameter(n)
                && n@ == "spreadsheet_id"@))
            ||| (sid is Some && sheet is None && (e matches ToolError::MissingParameter(n)
                && n@ == "sheet"@))
            ||| (sid is Some && sheet is Some && user_range is None
                && (e matches ToolError::MissingParameter(n) && n@ == "range"@))
            ||| (sid is Some && sheet is Some && user_range is Some
                && !(values matches Some(Value::Arr(_)))
                && (e matches ToolError::MissingParameter(n) && n@ == "values"@))
        },
    }
}

/// Plans a `write_values` call.
///
/// `values` is required among the arguments; `sheet` and `range` are
/// required, from the arguments or the context; `spreadsheet_id` comes
/// from the context; the write always uses input mode `"RAW"`.
pub fn plan_write_values(args: &Value, context: &Value) -> (r: Result<WriteValuesPlan, ToolError>)
    ensures
        spec_planned_write(*args, *context, r),
{
    let spreadsheet_id = match require_context(context, "spreadsheet_id") {
        Ok(s) => s,
        Err(e) => {
            return Err(e);
        },
    };
    let sheet = match require_arg_or_ctx(args, context, "sheet") {
        Ok(s) => s,
        Err(e) => {
            return Err(e);
        },
    };
    let user_range = match require_arg_or_ctx(args, context, "range") {
        Ok(s) => s,
        Err(e) => {
            return Err(e);
        },
    };
    let rows = match args.get("values") {
        Some(v) => match v.as_array() {
            Some(rows) => rows,
            None => {
                return Err(ToolError::MissingParameter(String::from_str("values")));
            },
        },
        None => {
            return Err(ToolError::MissingParameter(String::from_str("values")));
        },
    };
    let values = coerce_rows(rows);
    let major_dimension = arg_or(args, "major_dimension", "ROWS");
    let range = combined_range(sheet, &user_range);
    Ok(WriteValuesPlan {
        spreadsheet_id,
        range,
        major_dimension,
        values,
        value_input_option: String::from_str("RAW"),
    })
}

/// The title of one entry of the `sheets` argument: the entry's `title`
/// field when it is text, `"Sheet1"` otherwise.
pub open spec fn spec_sheet_title(config: Value) -> Seq<char> {
    spec_arg_or(config, "title"@, "Sheet1"@)
}

/// The titles asked of `create_spreadsheet`: one per entry of the
/// `sheets` argument, absent when that argument is absent or malformed.
pub open spec fn spec_sheet_titles(args: Value) -> Option<Seq<Seq<char>>> {
    match spec_get(args, "sheets"@) {
        Some(Value::Arr(configs)) => Some(
            Seq::new(configs@.len(), |i: int| spec_sheet_title(configs@[i])),
        ),
        _ => None,
    }
}

/// What a `create_spreadsheet` resolution must produce.
pub open spec fn spec_planned_create(
    args: Value,
    r: Result<CreateSpreadsheetPlan, ToolError>,
) -> bool {
    let title = spec_arg_text(args, "title"@);
    match r {
        Ok(plan) => {
            &&& title is Some
            &&& plan.title@ == title->0
            &&& match plan.sheet_titles {
                Some(ts) => spec_sheet_titles(args) == Some(ts.deep_view()),
                None => spec_sheet_titles(args) is None,
            }
        },
        Err(e) => title is None && (e matches ToolError::MissingParameter(n) && n@ == "title"@),
    }
}

/// Plans a `create_spreadsheet` call.  `title` is required; the optional
/// `sheets` argument names the sheets of the new spreadsheet.
pub fn plan_create_spreadsheet(args: &Value) -> (r: Result<CreateSpreadsheetPlan, ToolError>)
    ensures
        spec_planned_create(*args, r),
{
    let title = match require_arg(args, "title") {
        Ok(s) => s,
        Err(e) => {
            return Err(e);
        },
    };
    let sheet_titles = match args.get("sheets") {
        Some(v) => match v.as_array() {
            Some(configs) => {
                let n = configs.len();
                let mut ts: Vec<String> = Vec::new();
                let mut i: usize = 0;
                while i < n
                    invariant
                        i <= n,
                        n == configs@.len(),
                        ts@.len() == i,
                        forall|j: int| 0 <= j < i ==> ts@[j]@ == spec_sheet_title(configs@[j]),
                    decreases n - i,
                {
                    let t = arg_or(&configs[i], "title", "Sheet1");
                    ts.push(t);
                    i = i + 1;
                }
                proof {
                    assert(ts.deep_view() =~= spec_sheet_titles(*args)->0);
                }
                Some(ts)
            },
            None => None,
        },
        None => None,
    };
    Ok(CreateSpreadsheetPlan { title, sheet_titles })
}

/// What a `clear_values` resolution must produce.
pub open spec fn spec_planned_clear(
    args: Value,
    context: Value,
    r: Result<ClearValuesPlan, ToolError>,
) -> bool {
    let sid = source_text(context, "spreadsheet_id"@);
    match r {
        Ok(plan) => {
            &&& sid is Some
            &&& plan.spreadsheet_id@ == sid->0
            &&& plan.range@ == spec_combined_range(
                spec_arg_ctx_or(args, context, "sheet"@, "Sheet1"@),
                spec_arg_ctx_or(args, context, "range"@, "A1:ZZ"@),
            )
        },
        Err(e) => sid is None && (e matches ToolError::MissingParameter(n)
            && n@ == "spreadsheet_id"@),
    }
}

/// Plans a `clear_values` call.  `sheet` and `range` fall back from
/// arguments to context, then to `"Sheet1"` and `"A1:ZZ"`; only
/// `spreadsheet_id` can be missing.
pub fn plan_clear_values(args: &Value, context: &Value) -> (r: Result<ClearValuesPlan, ToolError>)
    ensures
        spec_planned_clear(*args, *context, r),
{
    let spreadsheet_id = match require_context(context, "spreadsheet_id") {
        Ok(s) => s,
        Err(e) => {
            return Err(e);
        },
    };
    let sheet = arg_or_ctx(args, context, "sheet", "Sheet1");
    let user_range = arg_or_ctx(args, context, "range", "A1:ZZ");
    let range = combined_range(sheet, &user_range);
    Ok(ClearValuesPlan { spreadsheet_id, range })
}

/// What a `get_sheet_info` resolution must produce.
pub open spec fn spec_planned_info(context: Value, r: Result<GetSheetInfoPlan, ToolError>) -> bool {
    let sid = source_text(context, "spreadsheet_id"@);
    match r {
        Ok(plan) => sid is Some && plan.spreadsheet_id@ == sid->0,
        Err(e) => sid is None && (e matches ToolError::MissingParameter(n)
            && n@ == "spreadsheet_id"@),
    }
}

/// Plans a `get_sheet_info` call, which only needs the session's
/// spreadsheet.
pub fn plan_get_sheet_info(context: &Value) -> (r: Result<GetSheetInfoPlan, ToolError>)
    ensures
        spec_planned_info(*context, r),
{
    match require_context(context, "spreadsheet_id") {
        Ok(s) => Ok(GetSheetInfoPlan { spreadsheet_id: s }),
        Err(e) => Err(e),
    }
}

/// The default range is applied: a read that resolves a sheet but no
/// `range` from any permitted source targets `"{sheet}!A1:ZZ"`.
pub proof fn lemma_read_default_range(args: Value, context: Value, plan: ReadValuesPlan)
    requires
        spec_planned_read(args, context, Ok(plan)),
        spec_arg_ctx_text(args, context, "range"@) is None,
    ensures
        plan.range@ == spec_arg_ctx_text(args, context, "sheet"@)->0 + "!A1:ZZ"@,
{
    reveal_strlit("!");
    reveal_strlit("A1:ZZ");
    reveal_strlit("!A1:ZZ");
    assert(spec_arg_ctx_text(args, context, "sheet"@)->0 + "!"@ + "A1:ZZ"@ =~= spec_arg_ctx_text(
        args,
        context,
        "sheet"@,
    )->0 + "!A1:ZZ"@);
}

/// Resolves an optional argument with its documented default, through
/// the generic resolver.
fn arg_or(args: &Value, name: &str, default: &str) -> (r: String)
    ensures
        r@ == spec_arg_or(*args, name@, default@),
{
    let resolved = resolve_param(
        args,
        &Value::Null,
        name,
        ParamSources { from_args: true, from_context: false },
        Some(default),
    );
    match resolved {
        Some(s) => s,
        None => String::from_str(default),
    }
}

/// Resolves a parameter required among the call's own arguments.
fn require_arg(args: &Value, name: &str) -> (r: Result<String, ToolError>)
    ensures
        match r {
            Ok(s) => spec_arg_text(*args, name@) == Some(s@),
            Err(e) => spec_arg_text(*args, name@) is None && (e matches
                ToolError::MissingParameter(n) && n@ == name@),
        },
{
    let resolved = resolve_param(
        args,
        &Value::Null,
        name,
        ParamSources { from_args: true, from_context: false },
        None,
    );
    match resolved {
        Some(s) => Ok(s),
        None => Err(ToolError::MissingParameter(String::from_str(name))),
    }
}

/// Resolves a parameter that may come from the call's arguments or,
/// failing that, from the session context.
fn require_arg_or_ctx(args: &Value, context: &Value, name: &str) -> (r: Result<String, ToolError>)
    ensures
        match r {
            Ok(s) => spec_arg_ctx_text(*args, *context, name@) == Some(s@),
            Err(e) => spec_arg_ctx_text(*args, *context, name@) is None && (e matches
                ToolError::MissingParameter(n) && n@ == name@),
        },
{
    let resolved = resolve_param(
        args,
        context,
        name,
        ParamSources { from_args: true, from_context: true },
        None,
    );
    match resolved {
        Some(s) => Ok(s),
        None => Err(ToolError::MissingParameter(String::from_str(name))),
    }
}

/// Resolves an optional parameter from arguments, then context, then its
/// documented default.
fn arg_or_ctx(args: &Value, context: &Value, name: &str, default: &str) -> (r: String)
    ensures
        r@ == spec_arg_ctx_or(*args, *context, name@, default@),
{
    let resolved = resolve_param(
        args,
        context,
        name,
        ParamSources { from_args: true, from_context: true },
        Some(default),
    );
    match resolved {
        Some(s) => s,
        None => String::from_str(default),
    }
}

/// Resolves a parameter sourced from the session context alone.
fn require_context(context: &Value, name: &str) -> (r: Result<String, ToolError>)
    ensures
        match r {
            Ok(s) => source_text(*context, name@) == Some(s@),
            Err(e) => source_text(*context, name@) is None && (e matches
                ToolError::MissingParameter(n) && n@ == name@),
        },
{
    let resolved = resolve_param(
        &Value::Null,
        context,
        name,
        ParamSources { from_args: false, from_context: true },
        None,
    );
    match resolved {
        Some(s) => Ok(s),
        None => Err(ToolError::MissingParameter(String::from_str(name))),
    }
}

/// Joins a sheet name and a cell range as the remote API expects.
fn combined_range(sheet: String, user_range: &String) -> (r: String)
    ensures
        r@ == spec_combined_range(sheet@, user_range@),
{
    let mut r = sheet;
    r.append("!");
    r.append(user_range.as_str());
    r
}

} // verus!
