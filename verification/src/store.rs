//! An in-memory spreadsheet, the test double of the remote collaborator.
//!
//! The store keeps cells as a list of entries; the newest entry for an
//! address wins, so a write simply puts its cells in front.  Reading an
//! absent cell yields the empty string, clearing removes every entry of
//! a rectangle.  The round-trip and idempotence guarantees of the remote
//! interface are proved against this model.

use vstd::prelude::*;
use vstd::string::{StrSliceExecFns, StringExecFns};

use crate::a1::{parse_range, spec_parse_range, CellRef};
use crate::tools::{ClearValuesPlan, ReadValuesPlan, WriteValuesPlan};
use crate::value::str_eq;

verus! {

/// One cell of the store: an address and the text it holds.
pub struct CellEntry {
    pub sheet: String,
    pub row: u32,
    pub col: u32,
    pub value: String,
}

/// The in-memory spreadsheet.
pub struct FakeSheets {
    pub entries: Vec<CellEntry>,
}

/// Does entry `e` sit at this address?
pub open spec fn spec_at(e: CellEntry, sheet: Seq<char>, row: u32, col: u32) -> bool {
    e.sheet@ == sheet && e.row == row && e.col == col
}

/// The text at an address: the first (newest) entry there, if any.
pub open spec fn spec_cell(
    entries: Seq<CellEntry>,
    sheet: Seq<char>,
    row: u32,
    col: u32,
) -> Option<Seq<char>>
    decreases entries.len(),
{
    if entries.len() == 0 {
        None
    } else if spec_at(entries[0], sheet, row, col) {
        Some(entries[0].value@)
    } else {
        spec_cell(entries.drop_first(), sheet, row, col)
    }
}

/// Does entry `e` fall inside this rectangle (bounds inclusive)?
pub open spec fn spec_in_rect(
    e: CellEntry,
    sheet: Seq<char>,
    r0: u32,
    c0: u32,
    r1: u32,
    c1: u32,
) -> bool {
    e.sheet@ == sheet && r0 <= e.row <= r1 && c0 <= e.col <= c1
}

/// Does a write of `values` anchored at `(r0, c0)` of `sheet` cover this
/// address?
pub open spec fn spec_write_covers(
    sheet: Seq<char>,
    r0: u32,
    c0: u32,
    values: Seq<Vec<String>>,
    sh: Seq<char>,
    row: u32,
    col: u32,
) -> bool {
    &&& sh == sheet
    &&& r0 <= row
    &&& row - r0 < values.len()
    &&& c0 <= col
    &&& col - c0 < values[row - r0]@.len()
}

/// The store after clearing a rectangle: every entry inside it removed,
/// the rest kept in order.
pub open spec fn spec_clear(
    entries: Seq<CellEntry>,
    sheet: Seq<char>,
    r0: u32,
    c0: u32,
    r1: u32,
    c1: u32,
) -> Seq<CellEntry>
    decreases entries.len(),
{
    if entries.len() == 0 {
        Seq::<CellEntry>::empty()
    } else {
        let rest = spec_clear(entries.drop_first(), sheet, r0, c0, r1, c1);
        if spec_in_rect(entries[0], sheet, r0, c0, r1, c1) {
            rest
        } else {
            seq![entries[0]] + rest
        }
    }
}

/// Looking an address up in a concatenation: the front list wins.
pub proof fn lemma_cell_concat(a: Seq<CellEntry>, b: Seq<CellEntry>)
    ensures
        forall|sheet: Seq<char>, row: u32, col: u32|
            #[trigger] spec_cell(a + b, sheet, row, col) == if spec_cell(
                a,
                sheet,
                row,
                col,
            ) is Some {
                spec_cell(a, sheet, row, col)
            } else {
                spec_cell(b, sheet, row, col)
            },
    decreases a.len(),
{
    if a.len() == 0 {
        assert(a + b =~= b);
    } else {
        assert((a + b)[0] == a[0]);
        assert((a + b).drop_first() =~= a.drop_first() + b);
        lemma_cell_concat(a.drop_first(), b);
        assert forall|sheet: Seq<char>, row: u32, col: u32|
            #[trigger] spec_cell(a + b, sheet, row, col) == if spec_cell(
                a,
                sheet,
                row,
                col,
            ) is Some {
                spec_cell(a, sheet, row, col)
            } else {
                spec_cell(b, sheet, row, col)
            } by {
            assert(spec_cell(a.drop_first() + b, sheet, row, col) == if spec_cell(
                a.drop_first(),
                sheet,
                row,
                col,
            ) is Some {
                spec_cell(a.drop_first(), sheet, row, col)
            } else {
                spec_cell(b, sheet, row, col)
            });
        }
    }
}

/// Appending an entry only answers for its own address, and only where
/// the list was silent.
pub proof fn lemma_cell_push(entries: Seq<CellEntry>, e: CellEntry)
    ensures
        forall|sheet: Seq<char>, row: u32, col: u32|
            #[trigger] spec_cell(entries.push(e), sheet, row, col) == if spec_cell(
                entries,
                sheet,
                row,
                col,
            ) is Some {
                spec_cell(entries, sheet, row, col)
            } else if spec_at(e, sheet, row, col) {
                Some(e.value@)
            } else {
                None
            },
{
    assert(entries.push(e) =~= entries + seq![e]);
    lemma_cell_concat(entries, seq![e]);
    assert(seq![e].drop_first() =~= Seq::<CellEntry>::empty());
    assert forall|sheet: Seq<char>, row: u32, col: u32|
        #[trigger] spec_cell(seq![e], sheet, row, col) == if spec_at(e, sheet, row, col) {
            Some(e.value@)
        } else {
            None
        } by {
        assert(spec_cell(Seq::<CellEntry>::empty(), sheet, row, col) is None);
    }
}

/// What a cleared store answers: nothing inside the rectangle, the old
/// answer outside it.
pub proof fn lemma_clear_cell(
    entries: Seq<CellEntry>,
    sheet: Seq<char>,
    r0: u32,
    c0: u32,
    r1: u32,
    c1: u32,
)
    ensures
        forall|sh: Seq<char>, row: u32, col: u32|
            #[trigger] spec_cell(spec_clear(entries, sheet, r0, c0, r1, c1), sh, row, col) == if sh
                == sheet && r0 <= row <= r1 && c0 <= col <= c1 {
                None
            } else {
                spec_cell(entries, sh, row, col)
            },
    decreases entries.len(),
{
    if entries.len() > 0 {
        lemma_clear_cell(entries.drop_first(), sheet, r0, c0, r1, c1);
        let rest = spec_clear(entries.drop_first(), sheet, r0, c0, r1, c1);
        if !spec_in_rect(entries[0], sheet, r0, c0, r1, c1) {
            lemma_cell_concat(seq![entries[0]], rest);
            assert(seq![entries[0]].drop_first() =~= Seq::<CellEntry>::empty());
            assert forall|sh: Seq<char>, row: u32, col: u32|
                #[trigger] spec_cell(spec_clear(entries, sheet, r0, c0, r1, c1), sh, row, col)
                    == if sh == sheet && r0 <= row <= r1 && c0 <= col <= c1 {
                    None
                } else {
                    spec_cell(entries, sh, row, col)
                } by {
                assert(spec_cell(seq![entries[0]] + rest, sh, row, col) == if spec_cell(
                    seq![entries[0]],
                    sh,
                    row,
                    col,
                ) is Some {
                    spec_cell(seq![entries[0]], sh, row, col)
                } else {
                    spec_cell(rest, sh, row, col)
                });
                assert(spec_cell(Seq::<CellEntry>::empty(), sh, row, col) is None);
            }
        }
    }
}

/// Clearing a rectangle twice is the same as clearing it once.
pub proof fn lemma_clear_idempotent(
    entries: Seq<CellEntry>,
    sheet: Seq<char>,
    r0: u32,
    c0: u32,
    r1: u32,
    c1: u32,
)
    ensures
        spec_clear(spec_clear(entries, sheet, r0, c0, r1, c1), sheet, r0, c0, r1, c1)
            == spec_clear(entries, sheet, r0, c0, r1, c1),
    decreases entries.len(),
{
    if entries.len() > 0 {
        lemma_clear_idempotent(entries.drop_first(), sheet, r0, c0, r1, c1);
        let rest = spec_clear(entries.drop_first(), sheet, r0, c0, r1, c1);
        if !spec_in_rect(entries[0], sheet, r0, c0, r1, c1) {
            let cons = seq![entries[0]] + rest;
            assert(cons[0] == entries[0]);
            assert(cons.drop_first() =~= rest);
            assert(spec_clear(cons, sheet, r0, c0, r1, c1) == seq![entries[0]] + spec_clear(
                rest,
                sheet,
                r0,
                c0,
                r1,
                c1,
            ));
        }
    }
}

impl FakeSheets {
    /// An empty spreadsheet.
    pub fn new() -> (r: FakeSheets)
        ensures
            r.entries@.len() == 0,
    {
        FakeSheets { entries: Vec::new() }
    }

    /// The text at one cell, if any entry holds it.
    pub fn read_cell(&self, sheet: &str, row: u32, col: u32) -> (r: Option<String>)
        ensures
            match r {
                Some(v) => spec_cell(self.entries@, sheet@, row, col) == Some(v@),
                None => spec_cell(self.entries@, sheet@, row, col) is None,
            },
    {
        let n = self.entries.len();
        let mut i: usize = 0;
        while i < n
            invariant
                i <= n,
                n == self.entries@.len(),
                forall|j: int| 0 <= j < i ==> !spec_at(self.entries@[j], sheet@, row, col),
            decreases n - i,
        {
            let e = &self.entries[i];
            if str_eq(e.sheet.as_str(), sheet) && e.row == row && e.col == col {
                proof {
                    lemma_cell_skip(self.entries@, sheet@, row, col, i as int);
                    assert(self.entries@.skip(i as int)[0] == self.entries@[i as int]);
                }
                return Some(e.value.clone());
            }
            i = i + 1;
        }
        proof {
            lemma_cell_skip(self.entries@, sheet@, row, col, n as int);
            assert(self.entries@.skip(n as int) =~= Seq::<CellEntry>::empty());
        }
        None
    }

    /// Writes a block of rows anchored at `(r0, c0)`, newest entries in
    /// front; every other address keeps its old answer.
    pub fn write_at(&mut self, sheet: &str, r0: u32, c0: u32, values: &Vec<Vec<String>>)
        requires
            r0 as int + values@.len() <= u32::MAX as int + 1,
            forall|i: int|
                0 <= i < values@.len() ==> c0 as int + (#[trigger] values@[i])@.len() <= u32::MAX
                    as int + 1,
        ensures
            forall|i: int, j: int|
                0 <= i < values@.len() && 0 <= j < values@[i]@.len() ==> spec_cell(
                    final(self).entries@,
                    sheet@,
                    (r0 + i) as u32,
                    (c0 + j) as u32,
                ) == Some(values@[i]@[j]@),
            forall|sh: Seq<char>, row: u32, col: u32|
                !spec_write_covers(sheet@, r0, c0, values@, sh, row, col)
                    ==> #[trigger] spec_cell(final(self).entries@, sh, row, col) == spec_cell(
                    old(self).entries@,
                    sh,
                    row,
                    col,
                ),
    {
        let mut fresh: Vec<CellEntry> = Vec::new();
        let rows = values.len();
        let mut i: usize = 0;
        while i < rows
            invariant
                i <= rows,
                rows == values@.len(),
                r0 as int + values@.len() <= u32::MAX as int + 1,
                forall|i2: int|
                    0 <= i2 < values@.len() ==> c0 as int + (#[trigger] values@[i2])@.len()
                        <= u32::MAX as int + 1,
                forall|i2: int, j2: int|
                    0 <= i2 < i && 0 <= j2 < values@[i2]@.len() ==> spec_cell(
                        fresh@,
                        sheet@,
                        (r0 + i2) as u32,
                        (c0 + j2) as u32,
                    ) == Some(values@[i2]@[j2]@),
                forall|sh: Seq<char>, row: u32, col: u32|
                    !(spec_write_covers(sheet@, r0, c0, values@, sh, row, col) && row - r0 < i)
                        ==> #[trigger] spec_cell(fresh@, sh, row, col) is None,
            decreases rows - i,
        {
            let cols = values[i].len();
            let mut j: usize = 0;
            while j < cols
                invariant
                    i < rows,
                    j <= cols,
                    rows == values@.len(),
                    cols == values@[i as int]@.len(),
                    r0 as int + values@.len() <= u32::MAX as int + 1,
                    forall|i2: int|
                        0 <= i2 < values@.len() ==> c0 as int + (#[trigger] values@[i2])@.len()
                            <= u32::MAX as int + 1,
                    forall|i2: int, j2: int|
                        0 <= i2 < i && 0 <= j2 < values@[i2]@.len() ==> spec_cell(
                            fresh@,
                            sheet@,
                            (r0 + i2) as u32,
                            (c0 + j2) as u32,
                        ) == Some(values@[i2]@[j2]@),
                    forall|j2: int|
                        0 <= j2 < j ==> spec_cell(
                            fresh@,
                            sheet@,
                            (r0 + i) as u32,
                            (c0 + j2) as u32,
                        ) == Some(values@[i as int]@[j2]@),
                    forall|sh: Seq<char>, row: u32, col: u32|
                        !(spec_write_covers(sheet@, r0, c0, values@, sh, row, col) && (row - r0 < i
                            || (row - r0 == i && col - c0 < j))) ==> #[trigger] spec_cell(
                            fresh@,
                            sh,
                            row,
                            col,
                        ) is None,
                decreases cols - j,
            {
                let e = CellEntry {
                    sheet: String::from_str(sheet),
                    row: r0 + i as u32,
                    col: c0 + j as u32,
                    value: values[i][j].clone(),
                };
                proof {
                    lemma_cell_push(fresh@, e);
                }
                fresh.push(e);
                j = j + 1;
            }
            i = i + 1;
        }
        let ghost fresh_snap = fresh@;
        fresh.append(&mut self.entries);
        proof {
            lemma_cell_concat(fresh_snap, old(self).entries@);
        }
        self.entries = fresh;
    }

    /// Removes every entry of the rectangle; the rest keep their order
    /// and their answers.
    pub fn clear_rect(&mut self, sheet: &str, r0: u32, c0: u32, r1: u32, c1: u32)
        ensures
            final(self).entries@ == spec_clear(old(self).entries@, sheet@, r0, c0, r1, c1),
    {
        let n = self.entries.len();
        let mut kept: Vec<CellEntry> = Vec::new();
        proof {
            assert(self.entries@.skip(0) =~= self.entries@);
            assert(kept@ + spec_clear(self.entries@, sheet@, r0, c0, r1, c1) =~= spec_clear(
                self.entries@,
                sheet@,
                r0,
                c0,
                r1,
                c1,
            ));
        }
        let mut i: usize = 0;
        while i < n
            invariant
                i <= n,
                n == self.entries@.len(),
                kept@ + spec_clear(self.entries@.skip(i as int), sheet@, r0, c0, r1, c1)
                    == spec_clear(self.entries@, sheet@, r0, c0, r1, c1),
            decreases n - i,
        {
            let e = &self.entries[i];
            proof {
                assert(self.entries@.skip(i as int)[0] == self.entries@[i as int]);
                assert(self.entries@.skip(i as int).drop_first() =~= self.entries@.skip(
                    i as int + 1,
                ));
            }
            let inside = str_eq(e.sheet.as_str(), sheet) && r0 <= e.row && e.row <= r1 && c0
                <= e.col && e.col <= c1;
            if !inside {
                let ghost before = kept@;
                kept.push(e_clone(e));
                proof {
                    assert(before.push(self.entries@[i as int]) + spec_clear(
                        self.entries@.skip(i as int + 1),
                        sheet@,
                        r0,
                        c0,
                        r1,
                        c1,
                    ) =~= before + (seq![self.entries@[i as int]] + spec_clear(
                        self.entries@.skip(i as int + 1),
                        sheet@,
                        r0,
                        c0,
                        r1,
                        c1,
                    )));
                }
            }
            i = i + 1;
        }
        proof {
            assert(self.entries@.skip(n as int) =~= Seq::<CellEntry>::empty());
            assert(kept@ + Seq::<CellEntry>::empty() =~= kept@);
        }
        self.entries = kept;
    }
}

/// The text at an address, with the empty string for an absent cell.
pub open spec fn spec_cell_or_empty(
    entries: Seq<CellEntry>,
    sheet: Seq<char>,
    row: u32,
    col: u32,
) -> Seq<char> {
    match spec_cell(entries, sheet, row, col) {
        Some(v) => v,
        None => Seq::<char>::empty(),
    }
}

/// The largest row of `sheet` holding an entry, 0 where it holds none.
pub open spec fn spec_max_row(entries: Seq<CellEntry>, sheet: Seq<char>) -> int
    decreases entries.len(),
{
    if entries.len() == 0 {
        0
    } else {
        let here: int = if entries.last().sheet@ == sheet {
            entries.last().row as int
        } else {
            0
        };
        let rest = spec_max_row(entries.drop_last(), sheet);
        if here >= rest {
            here
        } else {
            rest
        }
    }
}

/// The row of a start cell: 1 for a column-only reference.
pub open spec fn spec_start_row(start: CellRef) -> u32 {
    match start.row {
        Some(r) => r,
        None => 1,
    }
}

impl FakeSheets {
    /// One rectangle of cells, absent cells read as empty strings.
    pub fn read_rect(&self, sheet: &str, r0: u32, c0: u32, r1: u32, c1: u32) -> (r: Vec<
        Vec<String>,
    >)
        requires
            r0 <= r1 < u32::MAX,
            c0 <= c1 < u32::MAX,
        ensures
            r@.len() == r1 - r0 + 1,
            forall|i: int| 0 <= i < r@.len() ==> (#[trigger] r@[i])@.len() == c1 - c0 + 1,
            forall|i: int, j: int|
                0 <= i < r@.len() && 0 <= j < c1 - c0 + 1 ==> (#[trigger] r@[i]@[j])@
                    == spec_cell_or_empty(self.entries@, sheet@, (r0 + i) as u32, (c0 + j) as u32),
    {
        let mut r: Vec<Vec<String>> = Vec::new();
        let mut row: u32 = r0;
        while row <= r1
            invariant
                r0 <= row <= r1 + 1,
                r1 < u32::MAX,
                c0 <= c1 < u32::MAX,
                r@.len() == row - r0,
                forall|i: int| 0 <= i < r@.len() ==> (#[trigger] r@[i])@.len() == c1 - c0 + 1,
                forall|i: int, j: int|
                    0 <= i < r@.len() && 0 <= j < c1 - c0 + 1 ==> (#[trigger] r@[i]@[j])@
                        == spec_cell_or_empty(
                        self.entries@,
                        sheet@,
                        (r0 + i) as u32,
                        (c0 + j) as u32,
                    ),
            decreases r1 + 1 - row,
        {
            let mut line: Vec<String> = Vec::new();
            let mut col: u32 = c0;
            while col <= c1
                invariant
                    c0 <= col <= c1 + 1,
                    c1 < u32::MAX,
                    line@.len() == col - c0,
                    forall|j: int|
                        0 <= j < line@.len() ==> (#[trigger] line@[j])@ == spec_cell_or_empty(
                            self.entries@,
                            sheet@,
                            row,
                            (c0 + j) as u32,
                        ),
                decreases c1 + 1 - col,
            {
                let text = match self.read_cell(sheet, row, col) {
                    Some(v) => v,
                    None => String::new(),
                };
                line.push(text);
                col = col + 1;
            }
            r.push(line);
            row = row + 1;
        }
        r
    }

    /// The largest row of `sheet` holding an entry.
    pub fn max_data_row(&self, sheet: &str) -> (r: u32)
        ensures
            r == spec_max_row(self.entries@, sheet@),
    {
        let n = self.entries.len();
        let mut r: u32 = 0;
        let mut i: usize = 0;
        while i < n
            invariant
                i <= n,
                n == self.entries@.len(),
                r == spec_max_row(self.entries@.take(i as int), sheet@),
            decreases n - i,
        {
            proof {
                assert(self.entries@.take(i as int + 1).drop_last() =~= self.entries@.take(
                    i as int,
                ));
                assert(self.entries@.take(i as int + 1).last() == self.entries@[i as int]);
            }
            let e = &self.entries[i];
            if str_eq(e.sheet.as_str(), sheet) && e.row > r {
                r = e.row;
            }
            i = i + 1;
        }
        proof {
            assert(self.entries@.take(n as int) =~= self.entries@);
        }
        r
    }

    /// Executes a planned write: the values anchor at the start cell of
    /// the plan's range.  An unparseable range, or one whose block would
    /// leave the address space, is refused without touching the store.
    #[verifier::loop_isolation(false)]
    pub fn apply_write(&mut self, plan: &WriteValuesPlan) -> (r: Result<(), String>)
        ensures
            match spec_parse_range(plan.range@) {
                None => r matches Err(m) && m@ == "Unable to parse range"@ && *final(self)
                    == *old(self),
                Some(parts) => {
                    let r0 = spec_start_row(parts.1);
                    let c0 = parts.1.col;
                    if r0 as int + plan.values@.len() > u32::MAX as int + 1 || (exists|i: int|
                        0 <= i < plan.values@.len() && c0 as int + (#[trigger] plan.values@[i])@.len()
                            > u32::MAX as int + 1) {
                        r matches Err(m) && m@ == "Range out of bounds"@ && *final(self) == *old(self)
                    } else {
                        &&& r is Ok
                        &&& forall|i: int, j: int|
                            0 <= i < plan.values@.len() && 0 <= j < plan.values@[i]@.len()
                                ==> spec_cell(
                                final(self).entries@,
                                parts.0,
                                (r0 + i) as u32,
                                (c0 + j) as u32,
                            ) == Some(plan.values@[i]@[j]@)
                        &&& forall|sh: Seq<char>, row: u32, col: u32|
                            !spec_write_covers(parts.0, r0, c0, plan.values@, sh, row, col)
                                ==> #[trigger] spec_cell(final(self).entries@, sh, row, col)
                                == spec_cell(old(self).entries@, sh, row, col)
                    }
                },
            },
    {
        let parsed = match parse_range(plan.range.as_str()) {
            Some(p) => p,
            None => {
                return Err(String::from_str("Unable to parse range"));
            },
        };
        let r0 = match parsed.start.row {
            Some(r) => r,
            None => 1,
        };
        let c0 = parsed.start.col;
        let rows = plan.values.len();
        if rows > 0 && ((u32::MAX - r0) as usize) < rows - 1 {
            return Err(String::from_str("Range out of bounds"));
        }
        let mut i: usize = 0;
        while i < rows
            invariant
                i <= rows,
                rows == plan.values@.len(),
                forall|i2: int|
                    0 <= i2 < i ==> c0 as int + (#[trigger] plan.values@[i2])@.len() <= u32::MAX
                        as int + 1,
            decreases rows - i,
        {
            let cols = plan.values[i].len();
            if cols > 0 && ((u32::MAX - c0) as usize) < cols - 1 {
                proof {
                    assert(c0 as int + plan.values@[i as int]@.len() > u32::MAX as int + 1);
                    assert(exists|i2: int|
                        0 <= i2 < plan.values@.len() && c0 as int + (
                        #[trigger] plan.values@[i2])@.len() > u32::MAX as int + 1);
                }
                return Err(String::from_str("Range out of bounds"));
            }
            i = i + 1;
        }
        self.write_at(parsed.sheet.as_str(), r0, c0, &plan.values);
        Ok(())
    }

    /// Executes a planned clear: every cell of the range's rectangle is
    /// removed.  A parseable range always succeeds, whether or not any
    /// rows are present, so clearing twice answers success twice.
    pub fn apply_clear(&mut self, plan: &ClearValuesPlan) -> (r: Result<(), String>)
        ensures
            match spec_parse_range(plan.range@) {
                None => r matches Err(m) && m@ == "Unable to parse range"@ && *final(self)
                    == *old(self),
                Some(parts) => {
                    let r0 = spec_start_row(parts.1);
                    let c0 = parts.1.col;
                    let r1 = match parts.2 {
                        Some(e) => match e.row {
                            Some(rr) => rr,
                            None => u32::MAX,
                        },
                        None => r0,
                    };
                    let c1 = match parts.2 {
                        Some(e) => e.col,
                        None => c0,
                    };
                    r is Ok && final(self).entries@ == spec_clear(
                        old(self).entries@,
                        parts.0,
                        r0,
                        c0,
                        r1,
                        c1,
                    )
                },
            },
    {
        let parsed = match parse_range(plan.range.as_str()) {
            Some(p) => p,
            None => {
                return Err(String::from_str("Unable to parse range"));
            },
        };
        let r0 = match parsed.start.row {
            Some(r) => r,
            None => 1,
        };
        let c0 = parsed.start.col;
        let (r1, c1) = match &parsed.end {
            Some(e) => {
                let rr = match e.row {
                    Some(rr) => rr,
                    None => u32::MAX,
                };
                (rr, e.col)
            },
            None => (r0, c0),
        };
        self.clear_rect(parsed.sheet.as_str(), r0, c0, r1, c1);
        Ok(())
    }

    /// Executes a planned read: the rectangle of the plan's range,
    /// trimmed to the rows that hold data when the range leaves its rows
    /// open.  An unparseable or reversed range is refused.
    pub fn apply_read(&self, plan: &ReadValuesPlan) -> (r: Result<Vec<Vec<String>>, String>)
        ensures
            match spec_parse_range(plan.range@) {
                None => r matches Err(m) && m@ == "Unable to parse range"@,
                Some(parts) => {
                    let r0 = spec_start_row(parts.1);
                    let c0 = parts.1.col;
                    let r1 = match parts.2 {
                        Some(e) => match e.row {
                            Some(rr) => rr,
                            None => if spec_max_row(self.entries@, parts.0) >= r0 {
                                spec_max_row(self.entries@, parts.0) as u32
                            } else {
                                r0
                            },
                        },
                        None => r0,
                    };
                    let c1 = match parts.2 {
                        Some(e) => e.col,
                        None => c0,
                    };
                    if r1 < r0 || c1 < c0 || r1 == u32::MAX || c1 == u32::MAX {
                        r matches Err(m) && m@ == "Invalid range"@
                    } else {
                        r matches Ok(rows) && rows@.len() == r1 - r0 + 1 && (forall|i: int|
                            0 <= i < rows@.len() ==> (#[trigger] rows@[i])@.len() == c1 - c0 + 1)
                            && (forall|i: int, j: int|
                            0 <= i < rows@.len() && 0 <= j < c1 - c0 + 1 ==> (
                            #[trigger] rows@[i]@[j])@ == spec_cell_or_empty(
                                self.entries@,
                                parts.0,
                                (r0 + i) as u32,
                                (c0 + j) as u32,
                            ))
                    }
                },
            },
    {
        let parsed = match parse_range(plan.range.as_str()) {
            Some(p) => p,
            None => {
                return Err(String::from_str("Unable to parse range"));
            },
        };
        let r0 = match parsed.start.row {
            Some(r) => r,
            None => 1,
        };
        let c0 = parsed.start.col;
        let (r1, c1) = match &parsed.end {
            Some(e) => {
                let rr = match e.row {
                    Some(rr) => rr,
                    None => {
                        let data = self.max_data_row(parsed.sheet.as_str());
                        if data >= r0 {
                            data
                        } else {
                            r0
                        }
                    },
                };
                (rr, e.col)
            },
            None => (r0, c0),
        };
        if r1 < r0 || c1 < c0 || r1 == u32::MAX || c1 == u32::MAX {
            return Err(String::from_str("Invalid range"));
        }
        Ok(self.read_rect(parsed.sheet.as_str(), r0, c0, r1, c1))
    }
}

fn e_clone(e: &CellEntry) -> (r: CellEntry)
    ensures
        r == *e,
{
    CellEntry {
        sheet: e.sheet.clone(),
        row: e.row,
        col: e.col,
        value: e.value.clone(),
    }
}

proof fn lemma_cell_skip(entries: Seq<CellEntry>, sheet: Seq<char>, row: u32, col: u32, i: int)
    requires
        0 <= i <= entries.len(),
        forall|j: int| 0 <= j < i ==> !spec_at(entries[j], sheet, row, col),
    ensures
        spec_cell(entries, sheet, row, col) == spec_cell(entries.skip(i), sheet, row, col),
    decreases i,
{
    if i == 0 {
        assert(entries.skip(0) =~= entries);
    } else {
        assert(entries.drop_first().skip(i - 1) =~= entries.skip(i));
        lemma_cell_skip(entries.drop_first(), sheet, row, col, i - 1);
    }
}

} // verus!
