//! A text form of the bytes of a value, for debugging: runs of ASCII letters and digits,
//! `.`, `-` and `_` as text, and the other bytes as decimal numbers in brackets.

use vstd::prelude::*;

use crate::text::string_from_chars;

verus! {

/// Whether a byte is shown as its character: an ASCII letter or digit, `.`, `-` or `_`.
pub open spec fn spec_shown_as_char(b: u8) -> bool {
    (48 <= b <= 57) || (65 <= b <= 90) || (97 <= b <= 122) || b == 46 || b == 45 || b == 95
}

/// The end of the run of bytes from `i` on that are shown as characters (`shown`) or that are
/// not (`!shown`).
pub open spec fn spec_run_end(bytes: Seq<u8>, i: int, shown: bool) -> int
    decreases bytes.len() - i,
{
    if 0 <= i < bytes.len() && spec_shown_as_char(bytes[i]) == shown {
        spec_run_end(bytes, i + 1, shown)
    } else {
        i
    }
}

/// The characters of bytes that are shown as characters.
pub open spec fn spec_chars(bytes: Seq<u8>) -> Seq<char> {
    bytes.map_values(|b: u8| b as char)
}

/// The decimal digits of a byte.
pub open spec fn spec_decimal(b: u8) -> Seq<char> {
    if b < 10 {
        seq![(b + 48) as char]
    } else if b < 100 {
        seq![(b / 10 + 48) as char, (b % 10 + 48) as char]
    } else {
        seq![(b / 100 + 48) as char, ((b / 10) % 10 + 48) as char, (b % 10 + 48) as char]
    }
}

/// Bytes as decimal numbers, each followed by a comma.
pub open spec fn spec_numbers(bytes: Seq<u8>) -> Seq<char>
    decreases bytes.len(),
{
    if bytes.len() == 0 {
        Seq::empty()
    } else {
        spec_numbers(bytes.drop_last()) + spec_decimal(bytes.last()) + seq![',']
    }
}

/// A run ends at or after where it starts, and no later than the end of the bytes.
pub proof fn lemma_run_end_bounds(bytes: Seq<u8>, i: int, shown: bool)
    requires
        0 <= i <= bytes.len(),
    ensures
        i <= spec_run_end(bytes, i, shown) <= bytes.len(),
        i < bytes.len() && spec_shown_as_char(bytes[i]) == shown ==> spec_run_end(bytes, i, shown)
            > i,
    decreases bytes.len() - i,
{
    if i < bytes.len() && spec_shown_as_char(bytes[i]) == shown {
        lemma_run_end_bounds(bytes, i + 1, shown);
    }
}

/// The text of the bytes from `i` on: a run of bytes shown as characters, then the run of
/// bytes after it that are not, in brackets, and so on to the end.
pub open spec fn spec_text_from(bytes: Seq<u8>, i: int) -> Seq<char>
    decreases bytes.len() - i,
{
    if i < 0 || i >= bytes.len() {
        Seq::empty()
    } else {
        let p = spec_run_end(bytes, i, true);
        let q = spec_run_end(bytes, p, false);
        proof {
            lemma_run_end_bounds(bytes, i, true);
            lemma_run_end_bounds(bytes, p, false);
        }
        spec_chars(bytes.subrange(i, p)) + seq!['['] + spec_numbers(bytes.subrange(p, q)) + seq![
            ']',
        ] + spec_text_from(bytes, q)
    }
}

/// Whether a byte is shown as its character.
fn shown_as_char(b: u8) -> (res: bool)
    ensures
        res == spec_shown_as_char(b),
{
    (48 <= b && b <= 57) || (65 <= b && b <= 90) || (97 <= b && b <= 122) || b == 46 || b == 45
        || b == 95
}

/// Append the decimal digits of a byte.
fn push_decimal(out: &mut Vec<char>, b: u8)
    ensures
        final(out)@ == old(out)@ + spec_decimal(b),
{
    if b >= 100 {
        out.push((b / 100 + 48) as char);
    }
    if b >= 10 {
        out.push(((b / 10) % 10 + 48) as char);
    }
    out.push((b % 10 + 48) as char);
    assert(out@ =~= old(out)@ + spec_decimal(b));
}

/// The text of `value` for debugging: each run of bytes that are ASCII letters or digits,
/// `.`, `-` or `_` as those characters, followed by the run of other bytes after it as decimal
/// numbers, each followed by a comma, in square brackets (empty if there are none), to the end.
pub fn debug_text(value: &[u8]) -> (res: String)
    ensures
        res@ == spec_text_from(value@, 0),
{
    let mut out: Vec<char> = Vec::new();
    let mut i: usize = 0;
    while i < value.len()
        invariant
            i <= value@.len(),
            spec_text_from(value@, 0) == out@ + spec_text_from(value@, i as int),
        decreases value@.len() - i,
    {
        let ghost start = i as int;
        let ghost before = out@;
        while i < value.len() && shown_as_char(value[i])
            invariant
                0 <= start <= i <= value@.len(),
                spec_run_end(value@, start, true) == spec_run_end(value@, i as int, true),
                out@ == before + spec_chars(value@.subrange(start, i as int)),
            decreases value@.len() - i,
        {
            let ghost prev = i as int;
            out.push(value[i] as char);
            i = i + 1;
            assert(value@.subrange(start, i as int) =~= value@.subrange(start, prev).push(
                value@[prev],
            ));
            assert(spec_chars(value@.subrange(start, i as int)) =~= spec_chars(
                value@.subrange(start, prev),
            ).push(value@[prev] as char));
        }
        let ghost p = i as int;
        assert(p == spec_run_end(value@, start, true));
        out.push('[');
        let ghost middle = out@;
        while i < value.len() && !shown_as_char(value[i])
            invariant
                0 <= p <= i <= value@.len(),
                spec_run_end(value@, p, false) == spec_run_end(value@, i as int, false),
                out@ == middle + spec_numbers(value@.subrange(p, i as int)),
            decreases value@.len() - i,
        {
            let ghost prev = i as int;
            push_decimal(&mut out, value[i]);
            out.push(',');
            i = i + 1;
            assert(value@.subrange(p, i as int).drop_last() =~= value@.subrange(p, prev));
            assert(value@.subrange(p, i as int).last() == value@[prev]);
        }
        out.push(']');
        proof {
            assert(i as int == spec_run_end(value@, p, false));
            lemma_run_end_bounds(value@, start, true);
            assert(out@ =~= before + (spec_chars(value@.subrange(start, p)) + seq!['[']
                + spec_numbers(value@.subrange(p, i as int)) + seq![']']));
        }
    }
    string_from_chars(out.as_slice())
}

} // verus!
