//! The `get_sheet_info` computation: per-sheet titles and maximum ranges.
//!
//! The remote API answers with per-sheet properties; this module turns
//! them into the advertised payload.  A sheet missing its properties, its
//! title or its grid is skipped rather than reported half-empty.  The
//! maximum range maps the column count to a single spreadsheet-style
//! letter (1-indexed `'A' + count - 1`); the scheme only reaches 26
//! columns and is deliberately kept so — counts beyond `Z` clamp to `Z`,
//! a documented limitation rather than a silent extension.

use vstd::prelude::*;
use vstd::string::{StrSliceExecFns, StringExecFns};

use crate::chars::push_char;
use crate::json_text::{append_json_string, spec_json_string};
use crate::numtext::{append_i64_text, spec_int_text};

verus! {

/// The grid dimensions of one sheet, as the remote API reports them.
pub struct GridProperties {
    pub row_count: Option<i32>,
    pub column_count: Option<i32>,
}

/// The properties of one sheet, as the remote API reports them.
pub struct SheetProperties {
    pub title: Option<String>,
    pub grid_properties: Option<GridProperties>,
}

/// One sheet of a spreadsheet, as the remote API reports it.
pub struct SheetMeta {
    pub properties: Option<SheetProperties>,
}

/// One reported sheet: its title and its maximum A1 range.
pub struct SheetInfoEntry {
    pub title: String,
    pub max_range: String,
}

/// The column letter for a 1-indexed column count, clamped to `'A'..='Z'`.
pub open spec fn spec_column_letter(count: int) -> char {
    if count <= 1 {
        'A'
    } else if count >= 26 {
        'Z'
    } else {
        ((64 + count) as u8) as char
    }
}

/// The maximum A1 range of a grid: `"A1:{letter}{rows}"`, with 26
/// columns and 1000 rows assumed where the API reported none.
pub open spec fn spec_max_range(grid: GridProperties) -> Seq<char> {
    let cols = match grid.column_count {
        Some(c) => c as int,
        None => 26,
    };
    let rows = match grid.row_count {
        Some(r) => r as int,
        None => 1000,
    };
    "A1:"@ + seq![spec_column_letter(cols)] + spec_int_text(rows)
}

/// Is this sheet complete enough to report?
pub open spec fn spec_included(m: SheetMeta) -> bool {
    &&& m.properties matches Some(p)
    &&& p.title is Some
    &&& p.grid_properties is Some
}

/// The reported (title, maximum range) of an included sheet.
pub open spec fn spec_entry_of(m: SheetMeta) -> (Seq<char>, Seq<char>)
    recommends
        spec_included(m),
{
    (m.properties->0.title->0@, spec_max_range(m.properties->0.grid_properties->0))
}

/// The reported entries of a sheet list: one per included sheet, in
/// order, the incomplete ones skipped.
pub open spec fn spec_sheet_entries(s: Seq<SheetMeta>) -> Seq<(Seq<char>, Seq<char>)>
    decreases s.len(),
{
    if s.len() == 0 {
        Seq::<(Seq<char>, Seq<char>)>::empty()
    } else if spec_included(s.last()) {
        spec_sheet_entries(s.drop_last()).push(spec_entry_of(s.last()))
    } else {
        spec_sheet_entries(s.drop_last())
    }
}

/// The (title, maximum range) views of built entries.
pub open spec fn spec_entries_view(r: Seq<SheetInfoEntry>) -> Seq<(Seq<char>, Seq<char>)> {
    Seq::new(r.len(), |i: int| (r[i].title@, r[i].max_range@))
}

/// The column letter for a 1-indexed column count.
pub fn column_letter(count: i32) -> (r: char)
    ensures
        r == spec_column_letter(count as int),
{
    if count <= 1 {
        'A'
    } else if count >= 26 {
        'Z'
    } else {
        (64 + count as u8) as char
    }
}

/// The maximum A1 range of a grid.
pub fn max_range_text(grid: &GridProperties) -> (r: String)
    ensures
        r@ == spec_max_range(*grid),
{
    let cols: i32 = match grid.column_count {
        Some(c) => c,
        None => 26,
    };
    let rows: i32 = match grid.row_count {
        Some(n) => n,
        None => 1000,
    };
    let mut out = String::from_str("A1:");
    push_char(&mut out, column_letter(cols));
    append_i64_text(&mut out, rows as i64);
    proof {
        assert(("A1:"@.push(spec_column_letter(cols as int))) + spec_int_text(rows as int)
            =~= spec_max_range(*grid));
    }
    out
}

/// Extracts the reported entries from the remote sheet list.
pub fn sheet_info_entries(sheets: &Vec<SheetMeta>) -> (r: Vec<SheetInfoEntry>)
    ensures
        spec_entries_view(r@) == spec_sheet_entries(sheets@),
{
    let n = sheets.len();
    let mut r: Vec<SheetInfoEntry> = Vec::new();
    let mut i: usize = 0;
    while i < n
        invariant
            i <= n,
            n == sheets@.len(),
            spec_entries_view(r@) == spec_sheet_entries(sheets@.take(i as int)),
        decreases n - i,
    {
        proof {
            assert(sheets@.take(i as int + 1).drop_last() =~= sheets@.take(i as int));
            assert(sheets@.take(i as int + 1).last() == sheets@[i as int]);
        }
        match &sheets[i].properties {
            Some(props) => match (&props.title, &props.grid_properties) {
                (Some(title), Some(grid)) => {
                    let entry = SheetInfoEntry {
                        title: title.clone(),
                        max_range: max_range_text(grid),
                    };
                    r.push(entry);
                    proof {
                        assert(spec_entries_view(r@) =~= spec_sheet_entries(
                            sheets@.take(i as int + 1),
                        ));
                    }
                },
                _ => {
                    proof {
                        assert(spec_entries_view(r@) =~= spec_sheet_entries(
                            sheets@.take(i as int + 1),
                        ));
                    }
                },
            },
            None => {
                proof {
                    assert(spec_entries_view(r@) =~= spec_sheet_entries(
                        sheets@.take(i as int + 1),
                    ));
                }
            },
        }
        i = i + 1;
    }
    proof {
        assert(sheets@.take(n as int) =~= sheets@);
    }
    r
}

/// The JSON object reported for one sheet.
pub open spec fn spec_entry_json(title: Seq<char>, max_range: Seq<char>) -> Seq<char> {
    "{\"title\":"@ + spec_json_string(title) + ",\"maxRange\":"@ + spec_json_string(max_range)
        + "}"@
}

/// The comma-joined JSON objects of the reported entries.
pub open spec fn spec_entries_json(entries: Seq<(Seq<char>, Seq<char>)>) -> Seq<char>
    decreases entries.len(),
{
    if entries.len() == 0 {
        Seq::<char>::empty()
    } else if entries.len() == 1 {
        spec_entry_json(entries[0].0, entries[0].1)
    } else {
        spec_entries_json(entries.drop_last()) + ","@ + spec_entry_json(
            entries.last().0,
            entries.last().1,
        )
    }
}

/// The whole `get_sheet_info` payload: a JSON array of the entries.
pub open spec fn spec_sheet_info_payload(s: Seq<SheetMeta>) -> Seq<char> {
    "["@ + spec_entries_json(spec_sheet_entries(s)) + "]"@
}

fn append_entry_json(out: &mut String, entry: &SheetInfoEntry)
    ensures
        final(out)@ == old(out)@ + spec_entry_json(entry.title@, entry.max_range@),
{
    out.append("{\"title\":");
    append_json_string(out, entry.title.as_str());
    out.append(",\"maxRange\":");
    append_json_string(out, entry.max_range.as_str());
    out.append("}");
    proof {
        assert(old(out)@ + "{\"title\":"@ + spec_json_string(entry.title@) + ",\"maxRange\":"@
            + spec_json_string(entry.max_range@) + "}"@ =~= old(out)@ + spec_entry_json(
            entry.title@,
            entry.max_range@,
        ));
    }
}

/// Serializes the `get_sheet_info` payload for a remote sheet list.
pub fn sheet_info_payload(sheets: &Vec<SheetMeta>) -> (r: String)
    ensures
        r@ == spec_sheet_info_payload(sheets@),
{
    let entries = sheet_info_entries(sheets);
    let n = entries.len();
    let mut out = String::from_str("[");
    let mut i: usize = 0;
    while i < n
        invariant
            i <= n,
            n == entries@.len(),
            spec_entries_view(entries@) == spec_sheet_entries(sheets@),
            out@ == "["@ + spec_entries_json(spec_entries_view(entries@).take(i as int)),
        decreases n - i,
    {
        proof {
            let view = spec_entries_view(entries@);
            assert(view.take(i as int + 1).drop_last() =~= view.take(i as int));
            assert(view.take(i as int + 1).last() == view[i as int]);
            assert(view[i as int] == (entries@[i as int].title@, entries@[i as int].max_range@));
        }
        if i > 0 {
            out.append(",");
        }
        append_entry_json(&mut out, &entries[i]);
        proof {
            let view = spec_entries_view(entries@);
            if i == 0 {
                assert(view.take(0) =~= Seq::<(Seq<char>, Seq<char>)>::empty());
                assert(out@ =~= "["@ + spec_entries_json(view.take(1)));
            } else {
                assert(out@ =~= "["@ + spec_entries_json(view.take(i as int + 1)));
            }
        }
        i = i + 1;
    }
    out.append("]");
    proof {
        assert(spec_entries_view(entries@).take(n as int) =~= spec_entries_view(entries@));
        assert(out@ =~= spec_sheet_info_payload(sheets@));
    }
    out
}

} // verus!
