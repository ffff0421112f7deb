//! Decimal text for integers, for rendering row numbers and JSON numbers.

use vstd::prelude::*;

use crate::chars::push_char;

verus! {

/// The decimal digit character for `d` (0 through 9).
pub open spec fn spec_digit(d: int) -> char {
    ((d + 48) as u8) as char
}

/// The decimal text of a non-negative integer, most significant digit
/// first, without leading zeros (`0` itself is `"0"`).
pub open spec fn spec_nat_text(n: int) -> Seq<char>
    recommends
        n >= 0,
    decreases n,
{
    if n < 10 {
        seq![spec_digit(n)]
    } else {
        spec_nat_text(n / 10).push(spec_digit(n % 10))
    }
}

/// The decimal text of an integer, with a leading minus when negative.
pub open spec fn spec_int_text(n: int) -> Seq<char> {
    if n < 0 {
        seq!['-'] + spec_nat_text(-n)
    } else {
        spec_nat_text(n)
    }
}

/// The least-significant-first digit buffer `digits`, rendered most
/// significant digit first.
spec fn rendered(digits: Seq<u8>) -> Seq<char> {
    Seq::new(digits.len(), |i: int| spec_digit(digits[digits.len() - 1 - i] as int))
}

/// Appends the decimal text of `mag` to `out`.
fn append_nat_text(out: &mut String, mag: u64)
    ensures
        final(out)@ == old(out)@ + spec_nat_text(mag as int),
{
    let mut digits: Vec<u8> = Vec::new();
    let mut m: u64 = mag;
    let mut done = false;
    while !done
        invariant
            forall|j: int| 0 <= j < digits@.len() ==> digits@[j] < 10,
            digits@.len() == 0 ==> !done && m == mag,
            digits@.len() > 0 && !done ==> m > 0 && spec_nat_text(m as int) + rendered(digits@)
                == spec_nat_text(mag as int),
            done ==> rendered(digits@) == spec_nat_text(mag as int),
        decreases m + (if done { 0int } else { 1int }),
    {
        let d = (m % 10) as u8;
        let next = m / 10;
        proof {
            let ghost before = digits@;
            assert(rendered(before.push(d)) =~= seq![spec_digit(d as int)] + rendered(before));
            if next > 0 {
                assert(spec_nat_text(next as int).push(spec_digit(d as int)) + rendered(before)
                    =~= spec_nat_text(next as int) + (seq![spec_digit(d as int)] + rendered(
                    before,
                )));
                if before.len() == 0 {
                    assert(spec_nat_text(m as int) + rendered(before) =~= spec_nat_text(m as int));
                }
            } else {
                assert(spec_nat_text(m as int) =~= seq![spec_digit(d as int)]);
                if before.len() == 0 {
                    assert(rendered(before.push(d)) =~= spec_nat_text(mag as int));
                }
            }
        }
        digits.push(d);
        m = next;
        if m == 0 {
            done = true;
        }
    }
    let n = digits.len();
    let mut i: usize = 0;
    while i < n
        invariant
            i <= n,
            n == digits@.len(),
            forall|j: int| 0 <= j < digits@.len() ==> digits@[j] < 10,
            rendered(digits@) == spec_nat_text(mag as int),
            out@ == old(out)@ + rendered(digits@).take(i as int),
        decreases n - i,
    {
        let d = digits[n - 1 - i];
        proof {
            assert(rendered(digits@)[i as int] == spec_digit(
                digits@[n as int - 1 - i as int] as int,
            ));
            assert(rendered(digits@).take(i as int + 1) =~= rendered(digits@).take(i as int).push(
                rendered(digits@)[i as int],
            ));
        }
        push_char(out, (48 + d) as char);
        i = i + 1;
    }
    proof {
        assert(rendered(digits@).take(n as int) =~= rendered(digits@));
    }
}

/// The decimal text of a 64-bit integer.
pub fn i64_text(n: i64) -> (r: String)
    ensures
        r@ == spec_int_text(n as int),
{
    let mut out = String::new();
    append_i64_text(&mut out, n);
    proof {
        assert(Seq::<char>::empty() + spec_int_text(n as int) =~= spec_int_text(n as int));
    }
    out
}

/// Appends the decimal text of `n` to `out`.
pub fn append_i64_text(out: &mut String, n: i64)
    ensures
        final(out)@ == old(out)@ + spec_int_text(n as int),
{
    if n < 0 {
        let mag: u64 = ((-(n + 1)) as u64) + 1;
        push_char(out, '-');
        append_nat_text(out, mag);
        proof {
            assert(old(out)@.push('-') + spec_nat_text(mag as int) =~= old(out)@ + spec_int_text(
                n as int,
            ));
        }
    } else {
        append_nat_text(out, n as u64);
    }
}

} // verus!
