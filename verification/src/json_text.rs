//! JSON text framing for the payloads this crate builds itself.
//!
//! Only string encoding is needed: every payload the library produces is
//! made of strings it computed.  A string is quoted, with the quote, the
//! backslash and the control characters escaped; control characters use
//! the uniform `\u00XX` form.

use vstd::prelude::*;
use vstd::string::StrSliceExecFns;

use crate::chars::push_char;
use crate::numtext::spec_digit;

verus! {

/// The lower-case hexadecimal digit character for `d` (0 through 15).
pub open spec fn spec_hex_digit(d: int) -> char {
    if d < 10 {
        spec_digit(d)
    } else {
        ((d + 87) as u8) as char
    }
}

/// The escape of one character inside a JSON string literal.
pub open spec fn spec_escaped_char(c: char) -> Seq<char> {
    if c == '"' {
        seq!['\\', '"']
    } else if c == '\\' {
        seq!['\\', '\\']
    } else if (c as int) < 32 {
        seq!['\\', 'u', '0', '0', spec_hex_digit(c as int / 16), spec_hex_digit(c as int % 16)]
    } else {
        seq![c]
    }
}

/// The body of a JSON string literal: each character escaped in turn.
pub open spec fn spec_escaped(s: Seq<char>) -> Seq<char>
    decreases s.len(),
{
    if s.len() == 0 {
        Seq::<char>::empty()
    } else {
        spec_escaped_char(s[0]) + spec_escaped(s.drop_first())
    }
}

/// The JSON string literal holding `s`.
pub open spec fn spec_json_string(s: Seq<char>) -> Seq<char> {
    seq!['"'] + spec_escaped(s) + seq!['"']
}

proof fn lemma_escaped_push(s: Seq<char>, c: char)
    ensures
        spec_escaped(s.push(c)) == spec_escaped(s) + spec_escaped_char(c),
    decreases s.len(),
{
    let t = s.push(c);
    assert(t.len() == s.len() + 1);
    if s.len() == 0 {
        assert(t[0] == c);
        assert(t.drop_first() =~= Seq::<char>::empty());
        assert(spec_escaped(Seq::<char>::empty()) == Seq::<char>::empty());
        assert(spec_escaped(t) == spec_escaped_char(c) + Seq::<char>::empty());
        assert(spec_escaped_char(c) + Seq::<char>::empty() =~= spec_escaped_char(c));
        assert(spec_escaped(s) + spec_escaped_char(c) =~= spec_escaped_char(c));
    } else {
        assert(t[0] == s[0]);
        assert(s.push(c).drop_first() =~= s.drop_first().push(c));
        lemma_escaped_push(s.drop_first(), c);
        assert(spec_escaped_char(s[0]) + (spec_escaped(s.drop_first()) + spec_escaped_char(c))
            =~= (spec_escaped_char(s[0]) + spec_escaped(s.drop_first())) + spec_escaped_char(c));
    }
}

fn push_escaped_char(out: &mut String, c: char)
    ensures
        final(out)@ == old(out)@ + spec_escaped_char(c),
{
    if c == '"' {
        push_char(out, '\\');
        push_char(out, '"');
        proof {
            assert(old(out)@.push('\\').push('"') =~= old(out)@ + spec_escaped_char(c));
        }
    } else if c == '\\' {
        push_char(out, '\\');
        push_char(out, '\\');
        proof {
            assert(old(out)@.push('\\').push('\\') =~= old(out)@ + spec_escaped_char(c));
        }
    } else if (c as u32) < 32 {
        let code = c as u8;
        let hi = code / 16;
        let lo = code % 16;
        push_char(out, '\\');
        push_char(out, 'u');
        push_char(out, '0');
        push_char(out, '0');
        push_char(out, hex_digit_char(hi));
        push_char(out, hex_digit_char(lo));
        proof {
            assert(old(out)@.push('\\').push('u').push('0').push('0').push(
                spec_hex_digit(c as int / 16),
            ).push(spec_hex_digit(c as int % 16)) =~= old(out)@ + spec_escaped_char(c));
        }
    } else {
        push_char(out, c);
        proof {
            assert(old(out)@.push(c) =~= old(out)@ + spec_escaped_char(c));
        }
    }
}

fn hex_digit_char(d: u8) -> (r: char)
    requires
        d < 16,
    ensures
        r == spec_hex_digit(d as int),
{
    if d < 10 {
        (48 + d) as char
    } else {
        (87 + d) as char
    }
}

/// Appends the JSON string literal holding `s` to `out`.
pub fn append_json_string(out: &mut String, s: &str)
    ensures
        final(out)@ == old(out)@ + spec_json_string(s@),
{
    push_char(out, '"');
    proof {
        assert(old(out)@.push('"') =~= old(out)@ + seq!['"'] + spec_escaped(
            s@.take(0),
        ));
    }
    let n = s.unicode_len();
    let mut i: usize = 0;
    while i < n
        invariant
            i <= n,
            n == s@.len(),
            out@ == old(out)@ + seq!['"'] + spec_escaped(s@.take(i as int)),
        decreases n - i,
    {
        let c = s.get_char(i);
        proof {
            assert(s@.take(i as int + 1) =~= s@.take(i as int).push(s@[i as int]));
            lemma_escaped_push(s@.take(i as int), s@[i as int]);
        }
        push_escaped_char(out, c);
        i = i + 1;
    }
    push_char(out, '"');
    proof {
        assert(s@.take(n as int) =~= s@);
        assert((old(out)@ + seq!['"'] + spec_escaped(s@)).push('"') =~= old(out)@
            + spec_json_string(s@));
    }
}

} // verus!
