//! 128-bit UUIDs written in the 8-4-4-4-12 hex digit format.

use vstd::prelude::*;

use vstd::arithmetic::div_mod::lemma_breakdown;
use vstd::utf8::{decode_utf8, encode_utf8, is_ascii_chars, is_ascii_chars_encode_utf8, valid_utf8};

use crate::text::{chars_of, string_from_chars};

verus! {

/// A 128-bit UUID in the 8-4-4-4-12 hex digit format,
/// such as `002494ea-22dc-4fec-b590-4ea523338c20`.
#[derive(Debug, Clone, Copy, PartialEq, Eq, PartialOrd, Ord, Hash)]
pub struct UUID(pub [u32; 4]);

/// The value of a hex digit (of either case), if `c` is one.
pub open spec fn spec_hex_digit(c: char) -> Option<u32> {
    if '0' <= c <= '9' {
        Some((c as u32 - '0' as u32) as u32)
    } else if 'a' <= c <= 'f' {
        Some((c as u32 - 'a' as u32 + 10) as u32)
    } else if 'A' <= c <= 'F' {
        Some((c as u32 - 'A' as u32 + 10) as u32)
    } else {
        None
    }
}

/// Whether every character of `cs` is a hex digit.
pub open spec fn spec_all_hex(cs: Seq<char>) -> bool {
    forall|i: int| 0 <= i < cs.len() ==> (#[trigger] spec_hex_digit(cs[i])) is Some
}

/// The value of a sequence of hex digits, the most significant first.
pub open spec fn spec_hex_value(cs: Seq<char>) -> nat
    decreases cs.len(),
{
    if cs.len() == 0 {
        0
    } else {
        spec_hex_value(cs.drop_last()) * 16 + spec_hex_digit(cs.last())->0 as nat
    }
}

/// Sixteen to the power `n`.
pub open spec fn spec_pow16(n: nat) -> nat
    decreases n,
{
    if n == 0 {
        1
    } else {
        16 * spec_pow16((n - 1) as nat)
    }
}

/// The lowercase hex digit for `d`, which is below 16.
pub open spec fn spec_hex_char(d: nat) -> char {
    if d < 10 {
        (('0' as nat) + d) as char
    } else {
        (('a' as nat) + d - 10) as char
    }
}

/// The last `n` lowercase hex digits of `x`, the most significant first.
pub open spec fn spec_hex_chars(x: nat, n: nat) -> Seq<char>
    decreases n,
{
    if n == 0 {
        Seq::empty()
    } else {
        spec_hex_chars(x / 16, (n - 1) as nat).push(spec_hex_char(x % 16))
    }
}

/// The four 32-bit words of the UUID written as `s`: 36 characters, which are 36 bytes in
/// UTF-8, with the 32 hex digits of the 8-4-4-4-12 format in their places and a hyphen
/// between each two groups.
pub open spec fn spec_uuid_words(s: Seq<char>) -> Option<Seq<u32>> {
    let first = s.subrange(0, 8);
    let second = s.subrange(9, 13) + s.subrange(14, 18);
    let third = s.subrange(19, 23) + s.subrange(24, 28);
    let fourth = s.subrange(28, 36);
    if encode_utf8(s).len() != 36 || s.len() != 36 {
        None
    } else if s[8] == '-' && s[13] == '-' && s[18] == '-' && s[23] == '-' && spec_all_hex(first)
        && spec_all_hex(second) && spec_all_hex(third) && spec_all_hex(fourth) {
        Some(
            seq![
                spec_hex_value(first) as u32,
                spec_hex_value(second) as u32,
                spec_hex_value(third) as u32,
                spec_hex_value(fourth) as u32,
            ],
        )
    } else {
        None
    }
}

/// The 36 characters of the 8-4-4-4-12 format of the words `w`, in lowercase hex.
pub open spec fn spec_uuid_chars(w: [u32; 4]) -> Seq<char> {
    spec_hex_chars(w[0] as nat, 8) + seq!['-'] + spec_hex_chars((w[1] >> 16u32) as nat, 4) + seq![
        '-',
    ] + spec_hex_chars((w[1] & 0xFFFF) as nat, 4) + seq!['-'] + spec_hex_chars(
        (w[2] >> 16u32) as nat,
        4,
    ) + seq!['-'] + spec_hex_chars((w[2] & 0xFFFF) as nat, 4) + spec_hex_chars(w[3] as nat, 8)
}

/// The digits written for `x` are `n` ASCII hex digits whose value is `x` modulo `16^n`.
proof fn lemma_hex_chars(x: nat, n: nat)
    ensures
        spec_hex_chars(x, n).len() == n,
        spec_all_hex(spec_hex_chars(x, n)),
        is_ascii_chars(spec_hex_chars(x, n)),
        spec_hex_value(spec_hex_chars(x, n)) == x % spec_pow16(n),
        spec_pow16(n) > 0,
    decreases n,
{
    if n > 0 {
        let rest = spec_hex_chars(x / 16, (n - 1) as nat);
        lemma_hex_chars(x / 16, (n - 1) as nat);
        let d = x % 16;
        let c = spec_hex_char(d);
        assert(spec_hex_digit(c) == Some(d as u32));
        let all = rest.push(c);
        assert(all.drop_last() =~= rest);
        assert forall|i: int| 0 <= i < all.len() implies (#[trigger] spec_hex_digit(all[i])) is Some
            && '\0' <= all[i] <= '\u{7f}' by {
            if i < rest.len() {
                assert(all[i] == rest[i]);
            }
        }
        let p = spec_pow16((n - 1) as nat);
        lemma_breakdown(x as int, 16, p as int);
        assert(spec_hex_value(all) == spec_hex_value(rest) * 16 + d);
        assert(x % (16 * p) == 16 * ((x / 16) % p) + x % 16);
        assert(16 * p > 0);
    } else {
        assert(x % 1 == 0);
    }
}

/// The digits written for `x` are lowercase hex digits.
proof fn lemma_hex_chars_lowercase(x: nat, n: nat)
    ensures
        forall|i: int|
            0 <= i < spec_hex_chars(x, n).len() ==> ('0' <= #[trigger] spec_hex_chars(x, n)[i] <= '9'
                || 'a' <= spec_hex_chars(x, n)[i] <= 'f'),
    decreases n,
{
    if n > 0 {
        lemma_hex_chars_lowercase(x / 16, (n - 1) as nat);
        let rest = spec_hex_chars(x / 16, (n - 1) as nat);
        let all = rest.push(spec_hex_char(x % 16));
        assert forall|i: int| 0 <= i < all.len() implies ('0' <= #[trigger] all[i] <= '9' || 'a'
            <= all[i] <= 'f') by {
            if i < rest.len() {
                assert(all[i] == rest[i]);
            }
        }
    }
}

/// The bytes that `UUID::to_bytes` writes are 36, with a hyphen at 8, 13, 18 and 23 and a
/// lowercase hex digit everywhere else; they are UTF-8, and the string that they make is parsed
/// by `UUID::new` back to the same words.
pub proof fn lemma_uuid_bytes(w: [u32; 4])
    ensures
        ({
            let b = spec_uuid_chars(w).map_values(|c: char| c as u8);
            &&& b.len() == 36
            &&& b[8] == 45 && b[13] == 45 && b[18] == 45 && b[23] == 45
            &&& forall|i: int|
                0 <= i < 36 && i != 8 && i != 13 && i != 18 && i != 23 ==> ((48 <= #[trigger] b[i]
                    <= 57) || (97 <= b[i] <= 102))
            &&& valid_utf8(b)
            &&& spec_uuid_words(decode_utf8(b)) == Some(w@)
        }),
{
    let a = w[0];
    let b1 = w[1];
    let c1 = w[2];
    let d = w[3];
    let p0 = spec_hex_chars(a as nat, 8);
    let p1 = spec_hex_chars((b1 >> 16u32) as nat, 4);
    let p2 = spec_hex_chars((b1 & 0xFFFF) as nat, 4);
    let p3 = spec_hex_chars((c1 >> 16u32) as nat, 4);
    let p4 = spec_hex_chars((c1 & 0xFFFF) as nat, 4);
    let p5 = spec_hex_chars(d as nat, 8);
    lemma_hex_chars(a as nat, 8);
    lemma_hex_chars((b1 >> 16u32) as nat, 4);
    lemma_hex_chars((b1 & 0xFFFF) as nat, 4);
    lemma_hex_chars((c1 >> 16u32) as nat, 4);
    lemma_hex_chars((c1 & 0xFFFF) as nat, 4);
    lemma_hex_chars(d as nat, 8);
    lemma_hex_chars_lowercase(a as nat, 8);
    lemma_hex_chars_lowercase((b1 >> 16u32) as nat, 4);
    lemma_hex_chars_lowercase((b1 & 0xFFFF) as nat, 4);
    lemma_hex_chars_lowercase((c1 >> 16u32) as nat, 4);
    lemma_hex_chars_lowercase((c1 & 0xFFFF) as nat, 4);
    lemma_hex_chars_lowercase(d as nat, 8);
    let chars = spec_uuid_chars(w);
    assert(chars =~= p0 + seq!['-'] + p1 + seq!['-'] + p2 + seq!['-'] + p3 + seq!['-'] + p4 + p5);
    assert(chars.len() == 36);
    assert forall|i: int| 0 <= i < 36 && i != 8 && i != 13 && i != 18 && i != 23 implies ('0'
        <= #[trigger] chars[i] <= '9' || 'a' <= chars[i] <= 'f') by {
        if i < 8 {
            assert(chars[i] == p0[i]);
        } else if i < 13 {
            assert(chars[i] == p1[i - 9]);
        } else if i < 18 {
            assert(chars[i] == p2[i - 14]);
        } else if i < 23 {
            assert(chars[i] == p3[i - 19]);
        } else if i < 28 {
            assert(chars[i] == p4[i - 24]);
        } else {
            assert(chars[i] == p5[i - 28]);
        }
    }
    assert(chars[8] == '-' && chars[13] == '-' && chars[18] == '-' && chars[23] == '-');
    assert(is_ascii_chars(chars)) by {
        assert forall|i: int| 0 <= i < chars.len() implies '\0' <= #[trigger] chars[i] <= '\u{7f}' by {
            if i != 8 && i != 13 && i != 18 && i != 23 {
                assert('0' <= chars[i] <= '9' || 'a' <= chars[i] <= 'f');
            }
        }
    }
    let b = chars.map_values(|c: char| c as u8);
    vstd::utf8::is_ascii_chars_encode_utf8(chars);
    assert(b =~= encode_utf8(chars));
    vstd::utf8::encode_utf8_valid_utf8(chars);
    vstd::utf8::encode_utf8_decode_utf8(chars);
    lemma_uuid_roundtrip(w);
    assert forall|i: int| 0 <= i < 36 && i != 8 && i != 13 && i != 18 && i != 23 implies ((48
        <= #[trigger] b[i] <= 57) || (97 <= b[i] <= 102)) by {
        assert('0' <= chars[i] <= '9' || 'a' <= chars[i] <= 'f');
    }
}

/// Reading the written form of a UUID gives back its words.
pub proof fn lemma_uuid_roundtrip(w: [u32; 4])
    ensures
        spec_uuid_words(spec_uuid_chars(w)) == Some(w@),
{
    let a = w[0];
    let b = w[1];
    let c = w[2];
    let d = w[3];
    let b_hi = b >> 16u32;
    let b_lo = b & 0xFFFF;
    let c_hi = c >> 16u32;
    let c_lo = c & 0xFFFF;
    lemma_hex_chars(a as nat, 8);
    lemma_hex_chars(b_hi as nat, 4);
    lemma_hex_chars(b_lo as nat, 4);
    lemma_hex_chars(c_hi as nat, 4);
    lemma_hex_chars(c_lo as nat, 4);
    lemma_hex_chars(d as nat, 8);
    assert(spec_pow16(4) == 65536 && spec_pow16(8) == 0x1_0000_0000) by {
        reveal_with_fuel(spec_pow16, 9);
    }
    assert(b_hi < 65536 && b_lo < 65536 && b_hi * 65536 + b_lo == b) by (bit_vector)
        requires
            b_hi == b >> 16u32,
            b_lo == b & 0xFFFF,
    ;
    assert(c_hi < 65536 && c_lo < 65536 && c_hi * 65536 + c_lo == c) by (bit_vector)
        requires
            c_hi == c >> 16u32,
            c_lo == c & 0xFFFF,
    ;
    let ha = spec_hex_chars(a as nat, 8);
    let hb1 = spec_hex_chars(b_hi as nat, 4);
    let hb2 = spec_hex_chars(b_lo as nat, 4);
    let hc1 = spec_hex_chars(c_hi as nat, 4);
    let hc2 = spec_hex_chars(c_lo as nat, 4);
    let hd = spec_hex_chars(d as nat, 8);
    let s = spec_uuid_chars(w);
    assert(s =~= ha + seq!['-'] + hb1 + seq!['-'] + hb2 + seq!['-'] + hc1 + seq!['-'] + hc2 + hd);
    assert(s.subrange(0, 8) =~= ha);
    assert(s.subrange(9, 13) =~= hb1);
    assert(s.subrange(14, 18) =~= hb2);
    assert(s.subrange(19, 23) =~= hc1);
    assert(s.subrange(24, 28) =~= hc2);
    assert(s.subrange(28, 36) =~= hd);
    lemma_hex_value_concat(hb1, hb2);
    lemma_hex_value_concat(hc1, hc2);
    assert(spec_all_hex(hb1 + hb2)) by {
        assert forall|i: int| 0 <= i < 8 implies (#[trigger] spec_hex_digit((hb1 + hb2)[i])) is Some by {
            if i < 4 {
                assert((hb1 + hb2)[i] == hb1[i]);
            } else {
                assert((hb1 + hb2)[i] == hb2[i - 4]);
            }
        }
    }
    assert(spec_all_hex(hc1 + hc2)) by {
        assert forall|i: int| 0 <= i < 8 implies (#[trigger] spec_hex_digit((hc1 + hc2)[i])) is Some by {
            if i < 4 {
                assert((hc1 + hc2)[i] == hc1[i]);
            } else {
                assert((hc1 + hc2)[i] == hc2[i - 4]);
            }
        }
    }
    assert(is_ascii_chars(s)) by {
        assert forall|i: int| 0 <= i < s.len() implies '\0' <= #[trigger] s[i] <= '\u{7f}' by {
            if i < 8 {
                assert(s[i] == ha[i]);
            } else if 9 <= i < 13 {
                assert(s[i] == hb1[i - 9]);
            } else if 14 <= i < 18 {
                assert(s[i] == hb2[i - 14]);
            } else if 19 <= i < 23 {
                assert(s[i] == hc1[i - 19]);
            } else if 24 <= i < 28 {
                assert(s[i] == hc2[i - 24]);
            } else if 28 <= i < 36 {
                assert(s[i] == hd[i - 28]);
            }
        }
    }
    is_ascii_chars_encode_utf8(s);
    assert(seq![a, b, c, d] =~= w@);
}

/// The value of a hex digit, if `c` is one.
fn hex_digit(c: char) -> (res: Option<u32>)
    ensures
        res == spec_hex_digit(c),
{
    if '0' <= c && c <= '9' {
        Some(c as u32 - '0' as u32)
    } else if 'a' <= c && c <= 'f' {
        Some(c as u32 - 'a' as u32 + 10)
    } else if 'A' <= c && c <= 'F' {
        Some(c as u32 - 'A' as u32 + 10)
    } else {
        None
    }
}

/// Sixteen to the powers zero to eight.
pub proof fn lemma_pow16_values()
    ensures
        spec_pow16(0) == 1,
        spec_pow16(1) == 16,
        spec_pow16(2) == 256,
        spec_pow16(3) == 4096,
        spec_pow16(4) == 65536,
        spec_pow16(5) == 0x10_0000,
        spec_pow16(6) == 0x100_0000,
        spec_pow16(7) == 0x1000_0000,
        spec_pow16(8) == 0x1_0000_0000,
{
    reveal_with_fuel(spec_pow16, 9);
}

/// A hex value stays below sixteen to the power of its number of digits.
pub proof fn lemma_hex_value_bound(cs: Seq<char>)
    requires
        spec_all_hex(cs),
    ensures
        spec_hex_value(cs) < spec_pow16(cs.len()),
    decreases cs.len(),
{
    if cs.len() > 0 {
        let init = cs.drop_last();
        assert(spec_all_hex(init)) by {
            assert forall|i: int| 0 <= i < init.len() implies (#[trigger] spec_hex_digit(init[i])) is Some by {
                assert(init[i] == cs[i]);
            }
        }
        lemma_hex_value_bound(init);
        assert(spec_hex_digit(cs[cs.len() - 1]) is Some);
        let v = spec_hex_value(init);
        let p = spec_pow16(init.len());
        let d = spec_hex_digit(cs.last())->0;
        assert(v * 16 + d < 16 * p) by (nonlinear_arith)
            requires
                v < p,
                d < 16,
        ;
    }
}

/// The value of digits written one after another.
proof fn lemma_hex_value_concat(a: Seq<char>, b: Seq<char>)
    ensures
        spec_hex_value(a + b) == spec_hex_value(a) * spec_pow16(b.len()) + spec_hex_value(b),
    decreases b.len(),
{
    if b.len() == 0 {
        assert(a + b =~= a);
        assert(spec_pow16(0) == 1);
        assert(spec_hex_value(b) == 0);
        assert(spec_hex_value(a) * 1 == spec_hex_value(a));
    } else {
        assert((a + b).drop_last() =~= a + b.drop_last());
        assert((a + b).last() == b.last());
        lemma_hex_value_concat(a, b.drop_last());
        let x = spec_hex_value(a);
        let p = spec_pow16(b.drop_last().len());
        let y = spec_hex_value(b.drop_last());
        let d = spec_hex_digit(b.last())->0 as nat;
        assert(spec_hex_value(a + b) == spec_hex_value(a + b.drop_last()) * 16 + d);
        assert(spec_hex_value(b) == y * 16 + d);
        assert(spec_pow16(b.len()) == 16 * p);
        assert((x * p + y) * 16 + d == x * (16 * p) + (y * 16 + d)) by (nonlinear_arith);
        assert(spec_hex_value(a + b) == x * spec_pow16(b.len()) + spec_hex_value(b));
    }
}

/// The value of the four hex digits of `s` from `start` on.
fn hex4(s: &[char], start: usize) -> (res: Option<u32>)
    requires
        start + 4 <= s@.len(),
    ensures
        match res {
            Some(v) => spec_all_hex(s@.subrange(start as int, start + 4)) && v == spec_hex_value(
                s@.subrange(start as int, start + 4),
            ),
            None => !spec_all_hex(s@.subrange(start as int, start + 4)),
        },
{
    let ghost group = s@.subrange(start as int, start + 4);
    let mut sum: u32 = 0;
    let mut i: usize = 0;
    while i < 4
        invariant
            start + 4 <= s.len(),
            group == s@.subrange(start as int, start + 4),
            i <= 4,
            spec_all_hex(group.subrange(0, i as int)),
            sum == spec_hex_value(group.subrange(0, i as int)),
        decreases 4 - i,
    {
        match hex_digit(s[start + i]) {
            Some(d) => {
                let ghost prefix = group.subrange(0, i as int);
                assert(group.subrange(0, i + 1).drop_last() =~= prefix);
                proof {
                    lemma_hex_value_bound(prefix);
                    assert(spec_pow16(i as nat) <= 4096) by {
                        reveal_with_fuel(spec_pow16, 4);
                    }
                }
                sum = sum * 16 + d;
                i = i + 1;
                assert(spec_all_hex(group.subrange(0, i as int))) by {
                    assert forall|j: int| 0 <= j < i implies (#[trigger] spec_hex_digit(
                        group.subrange(0, i as int)[j],
                    )) is Some by {
                        if j < i - 1 {
                            assert(group.subrange(0, i as int)[j] == prefix[j]);
                        }
                    }
                }
            },
            None => {
                assert(!spec_all_hex(group)) by {
                    assert(group[i as int] == s@[start + i]);
                }
                return None;
            },
        }
    }
    assert(group.subrange(0, 4) =~= group);
    Some(sum)
}

/// The value of the eight hex digits made of the four at `high` and the four at `low`.
fn hex8(s: &[char], high: usize, low: usize) -> (res: Option<u32>)
    requires
        high + 4 <= s@.len(),
        low + 4 <= s@.len(),
    ensures
        ({
            let group = s@.subrange(high as int, high + 4) + s@.subrange(low as int, low + 4);
            match res {
                Some(v) => spec_all_hex(group) && v == spec_hex_value(group),
                None => !spec_all_hex(group),
            }
        }),
{
    let ghost a = s@.subrange(high as int, high + 4);
    let ghost b = s@.subrange(low as int, low + 4);
    let ghost group = a + b;
    match hex4(s, high) {
        Some(upper) => match hex4(s, low) {
            Some(lower) => {
                proof {
                    lemma_hex_value_concat(a, b);
                    lemma_hex_value_bound(a);
                    lemma_hex_value_bound(b);
                    assert(spec_pow16(4) == 65536) by {
                        reveal_with_fuel(spec_pow16, 5);
                    }
                    assert(a.len() == 4 && b.len() == 4);
                    assert(upper < 65536);
                    assert(lower < 65536);
                    assert(spec_all_hex(group)) by {
                        assert forall|j: int| 0 <= j < 8 implies (#[trigger] spec_hex_digit(group[j])) is Some by {
                            if j < 4 {
                                assert(group[j] == a[j]);
                            } else {
                                assert(group[j] == b[j - 4]);
                            }
                        }
                    }
                }
                Some(upper * 65536 + lower)
            },
            None => {
                assert(!spec_all_hex(group)) by {
                    let j = choose|j: int| 0 <= j < 4 && !(spec_hex_digit(b[j]) is Some);
                    assert(group[j + 4] == b[j]);
                }
                None
            },
        },
        None => {
            assert(!spec_all_hex(group)) by {
                let j = choose|j: int| 0 <= j < 4 && !(spec_hex_digit(a[j]) is Some);
                assert(group[j] == a[j]);
            }
            None
        },
    }
}

/// The lowercase hex digit for `d`, which is below 16.
fn hex_char(d: u32) -> (res: char)
    requires
        d < 16,
    ensures
        res == spec_hex_char(d as nat),
{
    if d < 10 {
        char_from_u32_digit('0' as u32 + d)
    } else {
        char_from_u32_digit('a' as u32 + d - 10)
    }
}

/// The character whose code is `code`, an ASCII digit or lowercase letter.
fn char_from_u32_digit(code: u32) -> (res: char)
    requires
        0x30 <= code < 0x7B,
    ensures
        res as u32 == code,
{
    (code as u8) as char
}

/// Append the last `n` lowercase hex digits of `x`.
fn push_hex_chars(out: &mut Vec<char>, x: u32, n: usize)
    ensures
        final(out)@ == old(out)@ + spec_hex_chars(x as nat, n as nat),
    decreases n,
{
    if n > 0 {
        push_hex_chars(out, x / 16, n - 1);
        out.push(hex_char(x % 16));
        assert(out@ =~= old(out)@ + spec_hex_chars(x as nat, n as nat));
    } else {
        assert(out@ =~= old(out)@ + spec_hex_chars(x as nat, n as nat));
    }
}

impl UUID {
    /// Parse a 128-bit UUID in the 8-4-4-4-12 hex digit format,
    /// such as `002494ea-22dc-4fec-b590-4ea523338c20`.
    pub fn new(uuid: &str) -> (res: Option<Self>)
        ensures
            match spec_uuid_words(uuid@) {
                Some(w) => res matches Some(u) && u.0@ == w,
                None => res is None,
            },
    {
        // Four hyphens, 32 hex digits which are ASCII and are one byte each
        if uuid.as_bytes().len() != 36 {
            return None;
        }
        let chars = chars_of(uuid);
        // The above check doesn't exclude the chance of multibyte chars
        if chars.len() != 36 {
            return None;
        }
        let s = chars.as_slice();
        if s[8] != '-' || s[13] != '-' || s[18] != '-' || s[23] != '-' {
            return None;
        }
        let first = match hex8(s, 0, 4) {
            Some(v) => v,
            None => {
                assert(s@.subrange(0, 4) + s@.subrange(4, 8) =~= s@.subrange(0, 8));
                return None;
            },
        };
        assert(s@.subrange(0, 4) + s@.subrange(4, 8) =~= s@.subrange(0, 8));
        let second = match hex8(s, 9, 14) {
            Some(v) => v,
            None => {
                return None;
            },
        };
        let third = match hex8(s, 19, 24) {
            Some(v) => v,
            None => {
                return None;
            },
        };
        assert(s@.subrange(28, 32) + s@.subrange(32, 36) =~= s@.subrange(28, 36));
        let fourth = match hex8(s, 28, 32) {
            Some(v) => v,
            None => {
                return None;
            },
        };
        let res = UUID([first, second, third, fourth]);
        assert(res.0@[0] == first);
        assert(res.0@[3] == fourth);
        assert(spec_uuid_words(uuid@) is Some);
        assert(res.0@ =~= spec_uuid_words(uuid@)->0);
        Some(res)
    }

    /// The 36 characters of this UUID in the 8-4-4-4-12 format, in lowercase hex.
    pub fn to_string(&self) -> (res: String)
        ensures
            res@ == spec_uuid_chars(self.0),
    {
        let w = self.0;
        let mut out: Vec<char> = Vec::new();
        push_hex_chars(&mut out, w[0], 8);
        out.push('-');
        push_hex_chars(&mut out, w[1] >> 16u32, 4);
        out.push('-');
        push_hex_chars(&mut out, w[1] & 0xFFFF, 4);
        out.push('-');
        push_hex_chars(&mut out, w[2] >> 16u32, 4);
        out.push('-');
        push_hex_chars(&mut out, w[2] & 0xFFFF, 4);
        push_hex_chars(&mut out, w[3], 8);
        assert(out@ =~= spec_uuid_chars(w));
        string_from_chars(out.as_slice())
    }

    /// Extend the provided bytes with this UUID serialized into a byte string in the
    /// 8-4-4-4-12 UUID format.
    pub fn extend_serialized(self, bytes: &mut Vec<u8>)
        ensures
            final(bytes)@ == old(bytes)@ + spec_uuid_chars(self.0).map_values(|c: char| c as u8),
    {
        let s = self.to_string();
        let chars = chars_of(s.as_str());
        let ghost start = bytes@;
        let mut i: usize = 0;
        while i < chars.len()
            invariant
                i <= chars@.len(),
                chars@ == spec_uuid_chars(self.0),
                bytes@ =~= start + chars@.subrange(0, i as int).map_values(|c: char| c as u8),
            decreases chars@.len() - i,
        {
            bytes.push(chars[i] as u8);
            i = i + 1;
        }
        assert(chars@.subrange(0, chars@.len() as int) =~= chars@);
    }

    /// Write this UUID into bytes in the 8-4-4-4-12 hex digit UUID format.
    pub fn to_bytes(self) -> (res: Vec<u8>)
        ensures
            res@ == spec_uuid_chars(self.0).map_values(|c: char| c as u8),
    {
        let mut bytes: Vec<u8> = Vec::new();
        self.extend_serialized(&mut bytes);
        assert(bytes@ =~= spec_uuid_chars(self.0).map_values(|c: char| c as u8));
        bytes
    }
}

impl<'a> TryFrom<&'a str> for UUID {
    type Error = ();

    fn try_from(value: &'a str) -> (res: Result<Self, ()>) {
        match UUID::new(value) {
            Some(u) => {
                proof {
                    let w = spec_uuid_words(value@)->0;
                    assert(u.0@ == w);
                    let c = choose|c: UUID| c.0@ == w;
                    assert(c.0@ == w);
                    assert(c.0 =~= u.0);
                    assert(c == u);
                }
                Ok(u)
            },
            None => Err(()),
        }
    }
}

impl<'a> vstd::std_specs::convert::TryFromSpecImpl<&'a str> for UUID {
    open spec fn obeys_try_from_spec() -> bool {
        true
    }

    open spec fn try_from_spec(value: &'a str) -> Result<UUID, ()> {
        match spec_uuid_words(value@) {
            Some(w) => Ok(choose|u: UUID| u.0@ == w),
            None => Err(()),
        }
    }
}

} // verus!
