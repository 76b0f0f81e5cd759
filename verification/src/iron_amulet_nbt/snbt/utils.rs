//! Character helpers for reading SNBT.

use vstd::prelude::*;

use crate::values::uuid::{
    lemma_hex_value_bound, lemma_pow16_values, spec_all_hex, spec_hex_digit, spec_hex_value,
    spec_pow16,
};

verus! {

/// Whether `c` is an ASCII letter or digit.
pub open spec fn spec_is_ascii_alphanumeric(c: char) -> bool {
    ('0' <= c <= '9') || ('a' <= c <= 'z') || ('A' <= c <= 'Z')
}

/// Whether `c` may appear in an unquoted string: `[0-9a-zA-Z]` or `_`, `-`, `.`, `+`.
pub open spec fn spec_allowed_unquoted(c: char) -> bool {
    spec_is_ascii_alphanumeric(c) || c == '_' || c == '-' || c == '.' || c == '+'
}

/// Returns whether a character is in `[0-9a-zA-Z]` or is `_`, `-`, `.`, or `+`,
/// which are the characters allowed to be in unquoted strings.
pub fn allowed_unquoted(c: char) -> (res: bool)
    ensures
        res == spec_allowed_unquoted(c),
{
    ('0' <= c && c <= '9') || ('a' <= c && c <= 'z') || ('A' <= c && c <= 'Z') || c == '_' || c
        == '-' || c == '.' || c == '+'
}

/// The value of a hex digit (of either case), if `c` is one.
fn hex_digit_value(c: char) -> (res: Option<u32>)
    ensures
        res == spec_hex_digit(c),
{
    if '0' <= c && c <= '9' {
        Some(c as u32 - '0' as u32)
    } else if 'a' <= c && c <= 'f' {
        Some(c as u32 - 'a' as u32 + 10)
    } else if 'A' <= c && c <= 'F' {
        Some(c as u32 - 'A' as u32 + 10)
    } else {
        None
    }
}

/// The value of the hex digits `chars`, at most eight of them, if all are hex digits.
fn hex_chars_value(chars: &[char]) -> (res: Option<u32>)
    requires
        chars@.len() <= 8,
    ensures
        match res {
            Some(v) => spec_all_hex(chars@) && v == spec_hex_value(chars@),
            None => !spec_all_hex(chars@),
        },
{
    let mut sum: u64 = 0;
    let mut i: usize = 0;
    while i < chars.len()
        invariant
            chars@.len() <= 8,
            i <= chars@.len(),
            spec_all_hex(chars@.subrange(0, i as int)),
            sum == spec_hex_value(chars@.subrange(0, i as int)),
            sum < spec_pow16(i as nat),
        decreases chars@.len() - i,
    {
        let ghost prefix = chars@.subrange(0, i as int);
        match hex_digit_value(chars[i]) {
            Some(d) => {
                assert(chars@.subrange(0, i + 1).drop_last() =~= prefix);
                proof {
                    lemma_pow16_values();
                    assert(spec_pow16(i as nat) <= 0x1000_0000);
                }
                sum = sum * 16 + d as u64;
                i = i + 1;
                assert(spec_all_hex(chars@.subrange(0, i as int))) by {
                    assert forall|j: int| 0 <= j < i implies (#[trigger] spec_hex_digit(
                        chars@.subrange(0, i as int)[j],
                    )) is Some by {
                        if j < i - 1 {
                            assert(chars@.subrange(0, i as int)[j] == prefix[j]);
                        }
                    }
                }
            },
            None => {
                assert(!spec_all_hex(chars@)) by {
                    assert(!(spec_hex_digit(chars@[i as int]) is Some));
                }
                return None;
            },
        }
    }
    assert(chars@.subrange(0, chars@.len() as int) =~= chars@);
    proof {
        lemma_pow16_values();
        assert(spec_pow16(chars@.len()) <= 0x1_0000_0000);
    }
    Some(sum as u32)
}

/// The value of two hex digits, if both are hex digits.
pub fn chars_to_u8(chars: [char; 2]) -> (res: Option<u8>)
    ensures
        match res {
            Some(v) => spec_all_hex(chars@) && v == spec_hex_value(chars@),
            None => !spec_all_hex(chars@),
        },
{
    match hex_chars_value(&chars) {
        Some(v) => {
            proof {
                lemma_hex_value_bound(chars@);
                lemma_pow16_values();
            }
            Some(v as u8)
        },
        None => None,
    }
}

/// The value of four hex digits, if all are hex digits.
pub fn chars_to_u16(chars: [char; 4]) -> (res: Option<u16>)
    ensures
        match res {
            Some(v) => spec_all_hex(chars@) && v == spec_hex_value(chars@),
            None => !spec_all_hex(chars@),
        },
{
    match hex_chars_value(&chars) {
        Some(v) => {
            proof {
                lemma_hex_value_bound(chars@);
                lemma_pow16_values();
            }
            Some(v as u16)
        },
        None => None,
    }
}

/// The value of eight hex digits, if all are hex digits.
pub fn chars_to_u32(chars: [char; 8]) -> (res: Option<u32>)
    ensures
        match res {
            Some(v) => spec_all_hex(chars@) && v == spec_hex_value(chars@),
            None => !spec_all_hex(chars@),
        },
{
    hex_chars_value(&chars)
}

} // verus!
