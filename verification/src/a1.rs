//! Parsing A1-notation ranges, e.g. `"Sheet1!A1:D10"` or `"Sheet1!A1:ZZ"`.
//!
//! A range is a sheet name, a start cell and an optional end cell; a cell
//! is one to four upper-case column letters followed by an optional row
//! number of at most seven digits (a column-only reference, as in the
//! open-ended `"A1:ZZ"`, has no row).  The length caps keep every index
//! far inside `u32` while covering any real sheet.

use vstd::prelude::*;
use vstd::string::{StrSliceExecFns, StringExecFns};

verus! {

/// One cell reference: a 1-based column, and a 1-based row unless the
/// reference is column-only.
#[derive(Clone, Copy, PartialEq, Eq, Structural, Debug)]
pub struct CellRef {
    pub col: u32,
    pub row: Option<u32>,
}

/// A parsed range: the sheet name, the start cell, and the end cell when
/// the range names one.
pub struct RangeRef {
    pub sheet: String,
    pub start: CellRef,
    pub end: Option<CellRef>,
}

/// Is `c` an upper-case column letter?
pub open spec fn spec_is_letter(c: char) -> bool {
    'A' <= c && c <= 'Z'
}

/// Is `c` a decimal digit?
pub open spec fn spec_is_digit(c: char) -> bool {
    '0' <= c && c <= '9'
}

/// The 1-based value of a column letter.
pub open spec fn spec_letter_val(c: char) -> int {
    c as int - 64
}

/// The 1-based column number of a letter run, base 26.
pub open spec fn spec_col_val(s: Seq<char>) -> int
    decreases s.len(),
{
    if s.len() == 0 {
        0
    } else {
        spec_col_val(s.drop_last()) * 26 + spec_letter_val(s.last())
    }
}

/// The value of a digit run, base 10.
pub open spec fn spec_digits_val(s: Seq<char>) -> int
    decreases s.len(),
{
    if s.len() == 0 {
        0
    } else {
        spec_digits_val(s.drop_last()) * 10 + (s.last() as int - 48)
    }
}

/// The length of the run of column letters at the front of `s`.
pub open spec fn spec_letter_run(s: Seq<char>) -> nat
    decreases s.len(),
{
    if s.len() == 0 || !spec_is_letter(s[0]) {
        0
    } else {
        1 + spec_letter_run(s.drop_first())
    }
}

/// The index of the first occurrence of `c` in `s`, or the length of `s`.
pub open spec fn spec_find(s: Seq<char>, c: char) -> nat
    decreases s.len(),
{
    if s.len() == 0 || s[0] == c {
        0
    } else {
        1 + spec_find(s.drop_first(), c)
    }
}

/// The parse of one cell reference, or `None` where `s` is not one.
pub open spec fn spec_parse_cell(s: Seq<char>) -> Option<CellRef> {
    let k = spec_letter_run(s) as int;
    let rest = s.skip(k);
    if k == 0 || k > 4 {
        None
    } else if rest.len() > 7 || (exists|i: int| 0 <= i < rest.len() && !spec_is_digit(rest[i])) {
        None
    } else if rest.len() == 0 {
        Some(CellRef { col: spec_col_val(s.take(k)) as u32, row: None })
    } else if spec_digits_val(rest) >= 1 {
        Some(
            CellRef {
                col: spec_col_val(s.take(k)) as u32,
                row: Some(spec_digits_val(rest) as u32),
            },
        )
    } else {
        None
    }
}

/// The parse of a full range: the sheet name before the first `'!'`, the
/// start cell, and an end cell when a `':'` follows.
pub open spec fn spec_parse_range(s: Seq<char>) -> Option<(Seq<char>, CellRef, Option<CellRef>)> {
    let p = spec_find(s, '!') as int;
    if p == s.len() {
        None
    } else {
        let sheet = s.take(p);
        let rest = s.skip(p + 1);
        let q = spec_find(rest, ':') as int;
        if q == rest.len() {
            match spec_parse_cell(rest) {
                Some(start) => Some((sheet, start, None)),
                None => None,
            }
        } else {
            match (spec_parse_cell(rest.take(q)), spec_parse_cell(rest.skip(q + 1))) {
                (Some(start), Some(end)) => Some((sheet, start, Some(end))),
                _ => None,
            }
        }
    }
}

proof fn lemma_letter_run_skip(s: Seq<char>, i: int)
    requires
        0 <= i <= s.len(),
        forall|j: int| 0 <= j < i ==> spec_is_letter(s[j]),
    ensures
        spec_letter_run(s) == i + spec_letter_run(s.skip(i)),
    decreases i,
{
    if i == 0 {
        assert(s.skip(0) =~= s);
    } else {
        assert(s.drop_first().skip(i - 1) =~= s.skip(i));
        lemma_letter_run_skip(s.drop_first(), i - 1);
    }
}

proof fn lemma_find_skip(s: Seq<char>, c: char, i: int)
    requires
        0 <= i <= s.len(),
        forall|j: int| 0 <= j < i ==> s[j] != c,
    ensures
        spec_find(s, c) == i + spec_find(s.skip(i), c),
    decreases i,
{
    if i == 0 {
        assert(s.skip(0) =~= s);
    } else {
        assert(s.drop_first().skip(i - 1) =~= s.skip(i));
        lemma_find_skip(s.drop_first(), c, i - 1);
    }
}

/// The index of the first occurrence of `c` in `s`, or the length of `s`.
fn find_char(s: &str, c: char) -> (r: usize)
    ensures
        r == spec_find(s@, c),
        r <= s@.len(),
{
    let n = s.unicode_len();
    let mut i: usize = 0;
    while i < n
        invariant
            i <= n,
            n == s@.len(),
            forall|j: int| 0 <= j < i ==> s@[j] != c,
        decreases n - i,
    {
        if s.get_char(i) == c {
            proof {
                lemma_find_skip(s@, c, i as int);
                assert(s@.skip(i as int)[0] == s@[i as int]);
            }
            return i;
        }
        i = i + 1;
    }
    proof {
        lemma_find_skip(s@, c, n as int);
        assert(s@.skip(n as int) =~= Seq::<char>::empty());
    }
    n
}

fn is_letter_at(s: &str, i: usize) -> (r: bool)
    requires
        i < s@.len(),
    ensures
        r == spec_is_letter(s@[i as int]),
{
    let c = s.get_char(i);
    'A' <= c && c <= 'Z'
}

/// Parses one cell reference.
pub fn parse_cell(s: &str) -> (r: Option<CellRef>)
    ensures
        r == spec_parse_cell(s@),
{
    let n = s.unicode_len();
    let mut k: usize = 0;
    while k < n && k < 5 && is_letter_at(s, k)
        invariant
            k <= n,
            k <= 5,
            n == s@.len(),
            forall|j: int| 0 <= j < k ==> spec_is_letter(s@[j]),
        decreases n - k,
    {
        k = k + 1;
    }
    proof {
        lemma_letter_run_skip(s@, k as int);
    }
    if k == 0 {
        return None;
    }
    if k == 5 {
        proof {
            assert(spec_letter_run(s@) >= 5);
        }
        return None;
    }
    proof {
        if k < n {
            assert(s@.skip(k as int)[0] == s@[k as int]);
        } else {
            assert(s@.skip(k as int) =~= Seq::<char>::empty());
        }
        assert(spec_letter_run(s@) == k);
    }
    if n - k > 7 {
        return None;
    }
    let mut col: u32 = 0;
    let mut i: usize = 0;
    while i < k
        invariant
            i <= k,
            k <= 4,
            k <= n,
            n == s@.len(),
            forall|j: int| 0 <= j < k ==> spec_is_letter(s@[j]),
            col == spec_col_val(s@.take(i as int)),
            i < 1 ==> col == 0,
            i < 2 ==> col <= 26,
            i < 3 ==> col <= 702,
            i < 4 ==> col <= 18278,
            col <= 475254,
        decreases k - i,
    {
        let c = s.get_char(i);
        proof {
            assert(s@.take(i as int + 1).drop_last() =~= s@.take(i as int));
            assert(s@.take(i as int + 1).last() == s@[i as int]);
        }
        col = col * 26 + (c as u32 - 64);
        i = i + 1;
    }
    proof {
        assert(s@.take(spec_letter_run(s@) as int) =~= s@.take(k as int));
    }
    if n == k {
        return Some(CellRef { col, row: None });
    }
    let mut row: u32 = 0;
    let mut i2: usize = k;
    while i2 < n
        invariant
            k <= i2 <= n,
            k >= 1,
            n == s@.len(),
            n - k <= 7,
            spec_letter_run(s@) == k,
            col == spec_col_val(s@.take(k as int)),
            forall|j: int| k <= j < i2 ==> spec_is_digit(s@[j]),
            row == spec_digits_val(s@.subrange(k as int, i2 as int)),
            i2 - k < 1 ==> row == 0,
            i2 - k < 2 ==> row <= 9,
            i2 - k < 3 ==> row <= 99,
            i2 - k < 4 ==> row <= 999,
            i2 - k < 5 ==> row <= 9999,
            i2 - k < 6 ==> row <= 99999,
            i2 - k < 7 ==> row <= 999999,
            row <= 9999999,
        decreases n - i2,
    {
        let c = s.get_char(i2);
        if !('0' <= c && c <= '9') {
            proof {
                assert(!spec_is_digit(s@.skip(k as int)[i2 as int - k]));
                assert(exists|i: int|
                    0 <= i < s@.skip(k as int).len() && !spec_is_digit(s@.skip(k as int)[i]));
            }
            return None;
        }
        proof {
            assert(s@.subrange(k as int, i2 as int + 1).drop_last() =~= s@.subrange(
                k as int,
                i2 as int,
            ));
            assert(s@.subrange(k as int, i2 as int + 1).last() == s@[i2 as int]);
        }
        row = row * 10 + (c as u32 - 48);
        i2 = i2 + 1;
    }
    proof {
        assert(s@.subrange(k as int, n as int) =~= s@.skip(k as int));
        assert(forall|j: int| 0 <= j < s@.skip(k as int).len() ==> spec_is_digit(
            #[trigger] s@.skip(k as int)[j],
        ));
    }
    if row >= 1 {
        Some(CellRef { col, row: Some(row) })
    } else {
        None
    }
}

/// Parses a full sheet-qualified range.
pub fn parse_range(s: &str) -> (r: Option<RangeRef>)
    ensures
        match r {
            Some(range) => spec_parse_range(s@) matches Some(parts) && parts.0 == range.sheet@
                && parts.1 == range.start && parts.2 == range.end,
            None => spec_parse_range(s@) is None,
        },
{
    let n = s.unicode_len();
    let p = find_char(s, '!');
    if p == n {
        return None;
    }
    let sheet_part = s.substring_char(0, p);
    let rest = s.substring_char(p + 1, n);
    proof {
        assert(sheet_part@ =~= s@.take(p as int));
        assert(rest@ =~= s@.skip(p as int + 1));
    }
    let m = rest.unicode_len();
    let q = find_char(rest, ':');
    if q == m {
        match parse_cell(rest) {
            Some(start) => Some(
                RangeRef { sheet: String::from_str(sheet_part), start, end: None },
            ),
            None => None,
        }
    } else {
        let first = rest.substring_char(0, q);
        let second = rest.substring_char(q + 1, m);
        proof {
            assert(first@ =~= rest@.take(q as int));
            assert(second@ =~= rest@.skip(q as int + 1));
        }
        match (parse_cell(first), parse_cell(second)) {
            (Some(start), Some(end)) => Some(
                RangeRef { sheet: String::from_str(sheet_part), start, end: Some(end) },
            ),
            _ => None,
        }
    }
}

} // verus!
