//! Which characters may appear in, or begin, unquoted SNBT, and the parsing of escape
//! sequences in quoted SNBT strings.

use vstd::prelude::*;

use crate::iron_amulet_nbt::snbt::utils::{chars_to_u16, chars_to_u32, chars_to_u8, spec_allowed_unquoted};
use crate::iron_amulet_nbt::snbt::{
    spec_byte_index, spec_segment, spec_utf8_len, ParserErrorType, SnbtError,
};
use crate::nbt::settings::SnbtVersion;
use crate::text::string_from_chars;
use crate::translation::datatypes::{find_char, spec_find};
use crate::values::uuid::{spec_all_hex, spec_hex_value};

verus! {

/// Whether `c` may begin an unquoted number: `[0-9]` or `-`, `.`, `+`.
pub open spec fn spec_starts_unquoted_number(c: char) -> bool {
    ('0' <= c <= '9') || c == '-' || c == '.' || c == '+'
}

/// Returns whether a character is in `[0-9a-zA-Z]` or is `_`, `-`, `.`, or `+`,
/// which are the characters allowed to be in unquoted strings.
pub fn allowed_unquoted(c: char) -> (res: bool)
    ensures
        res == spec_allowed_unquoted(c),
{
    crate::iron_amulet_nbt::snbt::utils::allowed_unquoted(c)
}

/// Returns whether a character is in `[0-9]` or is `-`, `.`, or `+`,
/// which can be the first character of a valid integer or float tag in SNBT.
pub fn starts_unquoted_number(c: char) -> (res: bool)
    ensures
        res == spec_starts_unquoted_number(c),
{
    ('0' <= c && c <= '9') || c == '-' || c == '.' || c == '+'
}

/// The character with the given value, where it is a Unicode scalar value: below `0xD800`, or
/// from `0xE000` to `0x10FFFF`.
pub open spec fn spec_char_of(v: u32) -> Option<char> {
    if v < 0xD800 || (0xE000 <= v && v <= 0x10FFFF) {
        Some(v as char)
    } else {
        None
    }
}

/// `char::from_u32`: the character with the given value, or `None` where the value is not a
/// Unicode scalar value (a surrogate, or above `0x10FFFF`).
#[verifier::external_body]
fn char_from_u32(v: u32) -> (res: Option<char>)
    ensures
        res == spec_char_of(v),
{
    char::from_u32(v)
}

/// The character that `unicode_names2::character` finds for a name, if any.
pub uninterp spec fn unicode_char_named(name: Seq<char>) -> Option<char>;

/// `unicode_names2::character`: the character with the given Unicode name (matched loosely),
/// if any. A name that begins with `-` is not passed to it.
#[verifier::external_body]
fn char_named(name: &str) -> (res: Option<char>)
    requires
        !(name@.len() > 0 && name@[0] == '-'),
    ensures
        res == unicode_char_named(name@),
{
    unicode_names2::character(name)
}

/// The character found for the name of a named escape: none for a name beginning with `-`,
/// which is no Unicode name.
pub open spec fn spec_named_char(name: Seq<char>) -> Option<char> {
    if name.len() > 0 && name[0] == '-' {
        None
    } else {
        unicode_char_named(name)
    }
}

/// The view of the error that `SnbtError::unexpected_eos(expected)` makes.
pub open spec fn spec_eos(expected: &'static str) -> (Seq<char>, usize, ParserErrorType) {
    (Seq::empty(), 0usize, ParserErrorType::UnexpectedEOS { expected })
}

/// The view of an error at `pos` of `input`, shown with the given segment bounds.
pub open spec fn spec_error_at(
    input: Seq<char>,
    pos: int,
    width: nat,
    before: nat,
    after: nat,
    error: ParserErrorType,
) -> (Seq<char>, usize, ParserErrorType) {
    (spec_segment(input, pos, width, before, after), spec_byte_index(input, pos) as usize, error)
}

/// An escape of `width` body characters that gives `ch`: accepted by the updated SNBT
/// version, and an unsupported escape of `width + 1` characters at the backslash `b` in the
/// `Original` version.
pub open spec fn spec_supported(
    input: Seq<char>,
    b: int,
    version: SnbtVersion,
    ch: char,
    width: nat,
) -> Result<(char, usize), (Seq<char>, usize, ParserErrorType)> {
    match version {
        SnbtVersion::UpdatedJava => Ok((ch, width as usize)),
        SnbtVersion::Original => Err(
            spec_error_at(input, b, width + 1, 0, 0, ParserErrorType::UnsupportedEscapeSequence),
        ),
    }
}

/// A hex escape of `k` digits after the backslash `b` and its letter: the end of the input if
/// there are fewer than `k` characters left, an unexpected token if they are not all hex
/// digits, an unknown escape of `unknown_width` characters if their value is no character,
/// and otherwise the character, with a body of `k + 1` characters.
pub open spec fn spec_hex_escape(
    input: Seq<char>,
    b: int,
    version: SnbtVersion,
    k: int,
    eos: &'static str,
    expected: &'static str,
    unknown_width: nat,
) -> Result<(char, usize), (Seq<char>, usize, ParserErrorType)> {
    if b + 1 + k >= input.len() {
        Err(spec_eos(eos))
    } else {
        let digits = input.subrange(b + 2, b + 2 + k);
        if !spec_all_hex(digits) {
            Err(
                spec_error_at(
                    input,
                    b + 2,
                    k as nat,
                    15,
                    0,
                    ParserErrorType::UnexpectedToken { expected },
                ),
            )
        } else {
            match spec_char_of(spec_hex_value(digits) as u32) {
                None => Err(
                    spec_error_at(
                        input,
                        b,
                        unknown_width,
                        0,
                        0,
                        ParserErrorType::UnknownEscapeSequence,
                    ),
                ),
                Some(ch) => spec_supported(input, b, version, ch, (k + 1) as nat),
            }
        }
    }
}

/// A named escape `\N{name}` after the backslash `b`. Its body, `N`, the braces and the name,
/// is `offset + 3` characters long, where `offset` is the length of the name. A name that names
/// no character gives an error `offset + 2` wide: one, and one for each character after the
/// `{` through the `}`.
pub open spec fn spec_named_escape(input: Seq<char>, b: int, version: SnbtVersion) -> Result<
    (char, usize),
    (Seq<char>, usize, ParserErrorType),
> {
    if b + 2 >= input.len() {
        Err(spec_eos("a named unicode character escape"))
    } else if input[b + 2] != '{' {
        Err(
            spec_error_at(
                input,
                b,
                1,
                15,
                0,
                ParserErrorType::UnexpectedToken { expected: "an opening curly bracket" },
            ),
        )
    } else {
        match spec_find(input.subrange(b + 3, input.len() as int), '}') {
            None => Err(spec_error_at(input, b + 2, 1, 0, 15, ParserErrorType::UnmatchedBrace)),
            Some(offset) => spec_named_lookup(input, b, version, offset),
        }
    }
}

/// A named escape `\N{name}` whose name is the `offset` characters after the `{` at `b + 2`.
#[verifier::opaque]
pub open spec fn spec_named_lookup(input: Seq<char>, b: int, version: SnbtVersion, offset: int) -> Result<
    (char, usize),
    (Seq<char>, usize, ParserErrorType),
> {
    match spec_named_char(input.subrange(b + 3, b + 3 + offset)) {
        None => Err(
            spec_error_at(
                input,
                b,
                (offset + 2) as nat,
                0,
                0,
                ParserErrorType::UnknownEscapeSequence,
            ),
        ),
        Some(ch) => spec_supported(input, b, version, ch, (offset + 3) as nat),
    }
}

/// The result of parsing the escape sequence whose backslash is at `b` in `input`: the
/// escaped character and the width given for the escape's body, or the view of the error.
pub open spec fn spec_parse_escape(input: Seq<char>, b: int, version: SnbtVersion) -> Result<
    (char, usize),
    (Seq<char>, usize, ParserErrorType),
> {
    if b + 1 >= input.len() {
        Err(spec_eos("a character escape sequence"))
    } else {
        let c = input[b + 1];
        if c == '\'' || c == '"' || c == '\\' {
            Ok((c, 1))
        } else if c == 'b' {
            spec_supported(input, b, version, '\x08', 1)
        } else if c == 's' {
            spec_supported(input, b, version, '\x20', 1)
        } else if c == 't' {
            spec_supported(input, b, version, '\x09', 1)
        } else if c == 'n' {
            spec_supported(input, b, version, '\x0a', 1)
        } else if c == 'f' {
            spec_supported(input, b, version, '\x0c', 1)
        } else if c == 'r' {
            spec_supported(input, b, version, '\x0d', 1)
        } else if c == 'x' {
            spec_hex_escape(
                input,
                b,
                version,
                2,
                "two-character hex unicode value",
                "two hexadecimal digits",
                4,
            )
        } else if c == 'u' {
            spec_hex_escape(
                input,
                b,
                version,
                4,
                "four-character hex unicode value",
                "four hexadecimal digits",
                6,
            )
        } else if c == 'U' {
            spec_hex_escape(
                input,
                b,
                version,
                8,
                "eight-character hex unicode value",
                "eight hexadecimal digits",
                10,
            )
        } else if c == 'N' {
            spec_named_escape(input, b, version)
        } else {
            Err(spec_error_at(input, b, 2, 0, 0, ParserErrorType::UnknownEscapeSequence))
        }
    }
}

/// Whether `res` is `expected`, comparing an error by its view.
pub open spec fn spec_escape_outcome(
    res: Result<(char, usize), SnbtError>,
    expected: Result<(char, usize), (Seq<char>, usize, ParserErrorType)>,
) -> bool {
    match (res, expected) {
        (Ok(r), Ok(e)) => r == e,
        (Err(r), Err(e)) => r@ == e,
        _ => false,
    }
}

/// An escape accepted by the updated SNBT version only.
fn supported(input: &[char], b: usize, version: SnbtVersion, ch: char, width: usize) -> (res: Result<
    (char, usize),
    SnbtError,
>)
    requires
        b < input@.len(),
        width < usize::MAX,
        spec_utf8_len(input@) <= usize::MAX,
    ensures
        spec_escape_outcome(res, spec_supported(input@, b as int, version, ch, width as nat)),
{
    match version {
        SnbtVersion::UpdatedJava => Ok((ch, width)),
        SnbtVersion::Original => Err(SnbtError::unsupported_escape_sequence(input, b, width + 1)),
    }
}

/// The `k` characters of `input` from `start` on.
fn take_chars(input: &[char], start: usize, k: usize) -> (res: Vec<char>)
    requires
        start + k <= input@.len(),
    ensures
        res@ == input@.subrange(start as int, start + k),
{
    let mut out: Vec<char> = Vec::new();
    let mut i: usize = 0;
    while i < k
        invariant
            start + k <= input.len(),
            i <= k,
            out@ =~= input@.subrange(start as int, start + i),
        decreases k - i,
    {
        out.push(input[start + i]);
        i = i + 1;
    }
    out
}

/// The value of `k` (2, 4 or 8) hex digits of `input` from `start` on.
fn hex_value_of(input: &[char], start: usize, k: usize) -> (res: Option<u32>)
    requires
        start + k <= input@.len(),
        k == 2 || k == 4 || k == 8,
    ensures
        match res {
            Some(v) => spec_all_hex(input@.subrange(start as int, start + k)) && v == spec_hex_value(
                input@.subrange(start as int, start + k),
            ),
            None => !spec_all_hex(input@.subrange(start as int, start + k)),
        },
{
    let digits = take_chars(input, start, k);
    if k == 2 {
        match chars_to_u8([digits[0], digits[1]]) {
            Some(v) => {
                assert([digits[0], digits[1]]@ =~= digits@);
                Some(v as u32)
            },
            None => {
                assert([digits[0], digits[1]]@ =~= digits@);
                None
            },
        }
    } else if k == 4 {
        let arr = [digits[0], digits[1], digits[2], digits[3]];
        assert(arr@ =~= digits@);
        match chars_to_u16(arr) {
            Some(v) => Some(v as u32),
            None => None,
        }
    } else {
        let arr = [
            digits[0],
            digits[1],
            digits[2],
            digits[3],
            digits[4],
            digits[5],
            digits[6],
            digits[7],
        ];
        assert(arr@ =~= digits@);
        chars_to_u32(arr)
    }
}

/// A hex escape of `k` digits.
fn hex_escape(
    input: &[char],
    b: usize,
    version: SnbtVersion,
    k: usize,
    eos: &'static str,
    expected: &'static str,
    unknown_width: usize,
) -> (res: Result<(char, usize), SnbtError>)
    requires
        b + 1 < input@.len(),
        k == 2 || k == 4 || k == 8,
        unknown_width <= 20,
        spec_utf8_len(input@) <= usize::MAX,
    ensures
        spec_escape_outcome(
            res,
            spec_hex_escape(input@, b as int, version, k as int, eos, expected, unknown_width as nat),
        ),
{
    if k >= input.len() - b - 1 {
        return Err(SnbtError::unexpected_eos(eos));
    }
    match hex_value_of(input, b + 2, k) {
        None => Err(SnbtError::unexpected_token_at(input, b + 2, k, expected)),
        Some(v) => match char_from_u32(v) {
            None => Err(SnbtError::unknown_escape_sequence(input, b, unknown_width)),
            Some(ch) => supported(input, b, version, ch, k + 1),
        },
    }
}

/// A named escape `\N{name}` whose name ends `offset` characters after the `{`.
fn named_lookup(input: &[char], b: usize, version: SnbtVersion, offset: usize) -> (res: Result<
    (char, usize),
    SnbtError,
>)
    requires
        b + 3 + offset < input.len(),
        spec_utf8_len(input@) <= usize::MAX,
    ensures
        spec_escape_outcome(res, spec_named_lookup(input@, b as int, version, offset as int)),
{
    reveal(spec_named_lookup);
    let name_chars = take_chars(input, b + 3, offset);
    let found = if name_chars.len() > 0 && name_chars[0] == '-' {
        None
    } else {
        let name = string_from_chars(name_chars.as_slice());
        char_named(name.as_str())
    };
    match found {
        None => Err(SnbtError::unknown_escape_sequence(input, b, offset + 2)),
        Some(ch) => supported(input, b, version, ch, offset + 3),
    }
}

/// A named escape `\N{name}`.
#[verifier::rlimit(100)]
fn named_escape(input: &[char], b: usize, version: SnbtVersion) -> (res: Result<
    (char, usize),
    SnbtError,
>)
    requires
        b + 1 < input@.len(),
        spec_utf8_len(input@) <= usize::MAX,
    ensures
        spec_escape_outcome(res, spec_named_escape(input@, b as int, version)),
{
    let n = input.len();
    if b + 2 >= n {
        return Err(SnbtError::unexpected_eos("a named unicode character escape"));
    }
    if input[b + 2] != '{' {
        return Err(SnbtError::unexpected_token_at(input, b, 1, "an opening curly bracket"));
    }
    let rest = take_chars(input, b + 3, n - (b + 3));
    assert(rest@ == input@.subrange(b + 3, input@.len() as int));
    let found = find_char(rest.as_slice(), '}');
    match found {
        None => {
            assert(spec_named_escape(input@, b as int, version) == Err::<(char, usize), _>(
                spec_error_at(input@, b + 2, 1, 0, 15, ParserErrorType::UnmatchedBrace),
            ));
            Err(SnbtError::unmatched_brace(input, b + 2))
        },
        Some(offset) => {
            assert(spec_named_escape(input@, b as int, version) == spec_named_lookup(
                input@,
                b as int,
                version,
                offset as int,
            ));
            named_lookup(input, b, version, offset)
        },
    }
}

/// Parses the body of an escape sequence (i.e., excluding the initial backslash, which is at
/// `backslash` in `input`), and returns the character indicated by the escape as well as the
/// number of characters given for the escape sequence's body.
pub fn parse_escape_sequence(input: &[char], backslash: usize, version: SnbtVersion) -> (res:
    Result<(char, usize), SnbtError>)
    requires
        backslash < input@.len(),
        spec_utf8_len(input@) <= usize::MAX,
    ensures
        spec_escape_outcome(res, spec_parse_escape(input@, backslash as int, version)),
{
    let b = backslash;
    if b >= input.len() - 1 {
        return Err(SnbtError::unexpected_eos("a character escape sequence"));
    }
    let c = input[b + 1];
    if c == '\'' || c == '"' || c == '\\' {
        Ok((c, 1))
    } else if c == 'b' {
        supported(input, b, version, '\x08', 1)
    } else if c == 's' {
        supported(input, b, version, '\x20', 1)
    } else if c == 't' {
        supported(input, b, version, '\x09', 1)
    } else if c == 'n' {
        supported(input, b, version, '\x0a', 1)
    } else if c == 'f' {
        supported(input, b, version, '\x0c', 1)
    } else if c == 'r' {
        supported(input, b, version, '\x0d', 1)
    } else if c == 'x' {
        hex_escape(input, b, version, 2, "two-character hex unicode value", "two hexadecimal digits", 4)
    } else if c == 'u' {
        hex_escape(input, b, version, 4, "four-character hex unicode value", "four hexadecimal digits", 6)
    } else if c == 'U' {
        hex_escape(input, b, version, 8, "eight-character hex unicode value", "eight hexadecimal digits", 10)
    } else if c == 'N' {
        named_escape(input, b, version)
    } else {
        Err(SnbtError::unknown_escape_sequence(input, b, 2))
    }
}

/// Whether `c` has the Unicode `White_Space` property, as `char::is_whitespace` says: the
/// controls U+0009 to U+000D, the space, U+0085, the no-break space U+00A0, U+1680, the spaces
/// U+2000 to U+200A, the line and paragraph separators U+2028 and U+2029, U+202F, U+205F and
/// the ideographic space U+3000.
pub open spec fn spec_is_whitespace(c: char) -> bool {
    let v = c as u32;
    ||| 0x09 <= v <= 0x0D
    ||| v == 0x20
    ||| v == 0x85
    ||| v == 0xA0
    ||| v == 0x1680
    ||| 0x2000 <= v <= 0x200A
    ||| v == 0x2028
    ||| v == 0x2029
    ||| v == 0x202F
    ||| v == 0x205F
    ||| v == 0x3000
}

/// Whether `c` has the Unicode `White_Space` property, as `char::is_whitespace` says.
fn is_whitespace(c: char) -> (res: bool)
    ensures
        res == spec_is_whitespace(c),
{
    let v = c as u32;
    (0x09 <= v && v <= 0x0D) || v == 0x20 || v == 0x85 || v == 0xA0 || v == 0x1680 || (0x2000 <= v
        && v <= 0x200A) || v == 0x2028 || v == 0x2029 || v == 0x202F || v == 0x205F || v == 0x3000
}

/// The number of whitespace characters at the start of `s`.
pub open spec fn spec_leading_whitespace(s: Seq<char>) -> nat
    decreases s.len(),
{
    if s.len() > 0 && spec_is_whitespace(s[0]) {
        1 + spec_leading_whitespace(s.drop_first())
    } else {
        0
    }
}

/// The number of whitespace characters at the end of `s`.
pub open spec fn spec_trailing_whitespace(s: Seq<char>) -> nat
    decreases s.len(),
{
    if s.len() > 0 && spec_is_whitespace(s.last()) {
        1 + spec_trailing_whitespace(s.drop_last())
    } else {
        0
    }
}

/// `s` without its leading and trailing whitespace, as `str::trim` gives it.
pub open spec fn spec_trim(s: Seq<char>) -> Seq<char> {
    let rest = s.subrange(spec_leading_whitespace(s) as int, s.len() as int);
    rest.subrange(0, rest.len() - spec_trailing_whitespace(rest))
}

/// Whether the first and last of `chars` are the same quote, `'` or `"`.
pub open spec fn spec_quoted(chars: Seq<char>) -> bool {
    chars.len() > 0 && ((chars[0] == '\'' && chars.last() == '\'') || (chars[0] == '"'
        && chars.last() == '"'))
}

/// The four groups of eight hex digits of a UUID without its quotes: hyphenated (36
/// characters with hyphens at 8, 13, 18 and 23) or plain (32 characters); `None` for any other
/// shape.
pub open spec fn spec_uuid_groups(chars: Seq<char>) -> Option<Seq<Seq<char>>> {
    let hyphenated = chars.len() > 8 && chars[8] == '-';
    if hyphenated && chars.len() == 36 {
        if chars[13] != '-' || chars[18] != '-' || chars[23] != '-' {
            None
        } else {
            Some(
                seq![
                    chars.subrange(0, 8),
                    chars.subrange(9, 13) + chars.subrange(14, 18),
                    chars.subrange(19, 23) + chars.subrange(24, 28),
                    chars.subrange(28, 36),
                ],
            )
        }
    } else if !hyphenated && chars.len() == 32 {
        Some(
            seq![
                chars.subrange(0, 8),
                chars.subrange(8, 16),
                chars.subrange(16, 24),
                chars.subrange(24, 32),
            ],
        )
    } else {
        None
    }
}

/// The result of the `uuid(..)` operation whose token `token` starts at `start` of `input`:
/// the four `i32`s of the UUID in its argument (trimmed, perhaps quoted, hyphenated or plain),
/// or the view of the invalid-UUID error.
pub open spec fn spec_parse_uuid_func(input: Seq<char>, start: int, token: Seq<char>) -> Result<
    Seq<i32>,
    (Seq<char>, usize, ParserErrorType),
> {
    let arg = token.subrange(5, token.len() - 1);
    let lead = spec_leading_whitespace(arg);
    let uuid = spec_trim(arg);
    let first = uuid.take(if uuid.len() > 39 { 39 } else { uuid.len() as int });
    let unquoted_error = spec_error_at(
        input,
        start + 5 + lead,
        uuid.len(),
        0,
        0,
        ParserErrorType::InvalidUUID,
    );
    if first.len() < 32 || first.len() > 38 {
        Err(unquoted_error)
    } else {
        let quoted = spec_quoted(first);
        let chars = if quoted {
            first.subrange(1, first.len() - 1)
        } else {
            first
        };
        let error = if quoted {
            spec_error_at(
                input,
                start + 5 + lead + 1,
                (uuid.len() - 2) as nat,
                0,
                0,
                ParserErrorType::InvalidUUID,
            )
        } else {
            unquoted_error
        };
        match spec_uuid_groups(chars) {
            None => Err(error),
            Some(groups) => if spec_all_hex(groups[0]) && spec_all_hex(groups[1]) && spec_all_hex(
                groups[2],
            ) && spec_all_hex(groups[3]) {
                Ok(
                    seq![
                        spec_hex_value(groups[0]) as u32 as i32,
                        spec_hex_value(groups[1]) as u32 as i32,
                        spec_hex_value(groups[2]) as u32 as i32,
                        spec_hex_value(groups[3]) as u32 as i32,
                    ],
                )
            } else {
                Err(error)
            },
        }
    }
}

/// The `i32` value of eight hex digits, if they are all hex digits.
fn group_value(group: &[char]) -> (res: Option<i32>)
    requires
        group@.len() == 8,
    ensures
        match res {
            Some(v) => spec_all_hex(group@) && v == spec_hex_value(group@) as u32 as i32,
            None => !spec_all_hex(group@),
        },
{
    let arr = [group[0], group[1], group[2], group[3], group[4], group[5], group[6], group[7]];
    assert(arr@ =~= group@);
    match chars_to_u32(arr) {
        Some(v) => Some(v as i32),
        None => None,
    }
}

/// Concatenate two slices of characters.
fn concat_chars(a: &[char], b: &[char]) -> (res: Vec<char>)
    ensures
        res@ == a@ + b@,
{
    let mut out: Vec<char> = Vec::new();
    crate::text::extend_chars(&mut out, a);
    crate::text::extend_chars(&mut out, b);
    out
}

/// Parse the `uuid(..)` operation: `token` is the token (starting with `uuid(` and ending with
/// `)`) found at `start` of `input`. The argument, trimmed of whitespace, is a UUID of 32 hex
/// digits, hyphenated in the 8-4-4-4-12 format or not, possibly in matching quotes; the result
/// is its four 32-bit words, as `i32`s.
pub fn parse_uuid_func(input: &[char], start: usize, token: &[char]) -> (res: Result<[i32; 4], SnbtError>)
    requires
        token@.len() >= 6,
        start + token@.len() <= input@.len(),
        token@ == input@.subrange(start as int, start + token@.len()),
        token@.subrange(0, 5) == seq!['u', 'u', 'i', 'd', '('],
        token@.last() == ')',
        spec_utf8_len(input@) <= usize::MAX,
    ensures
        match spec_parse_uuid_func(input@, start as int, token@) {
            Ok(words) => res matches Ok(a) && a@ == words,
            Err(e) => res matches Err(r) && r@ == e,
        },
{
    let arg = take_chars(token, 5, token.len() - 6);
    let ghost arg_view = token@.subrange(5, token@.len() - 1);
    assert(arg@ =~= arg_view);
    let lead = leading_whitespace(arg.as_slice());
    let rest = take_chars(arg.as_slice(), lead, arg.len() - lead);
    let trail = trailing_whitespace(rest.as_slice());
    let uuid = take_chars(rest.as_slice(), 0, rest.len() - trail);
    assert(uuid@ =~= spec_trim(arg@));
    let uuid_width = uuid.len();
    let take = if uuid_width > 39 {
        39
    } else {
        uuid_width
    };
    let first = take_chars(uuid.as_slice(), 0, take);
    assert(first@ =~= uuid@.take(take as int));
    let total = input.len();
    assert(lead <= arg@.len());
    assert(start + 5 + lead < total);
    if first.len() < 32 || first.len() > 38 {
        return Err(SnbtError::invalid_uuid(input, start + 5 + lead, uuid_width));
    }
    let last = first.len() - 1;
    let quoted = (first[0] == '\'' && first[last] == '\'') || (first[0] == '"' && first[last] == '"');
    let chars = if quoted {
        take_chars(first.as_slice(), 1, first.len() - 2)
    } else {
        take_chars(first.as_slice(), 0, first.len())
    };
    assert(quoted ==> chars@ =~= first@.subrange(1, first@.len() - 1));
    assert(!quoted ==> chars@ =~= first@);
    let error_pos = if quoted {
        start + 5 + lead + 1
    } else {
        start + 5 + lead
    };
    let error_width = if quoted {
        uuid_width - 2
    } else {
        uuid_width
    };
    let hyphenated = chars.len() > 8 && chars[8] == '-';
    let groups: Vec<Vec<char>> = if hyphenated && chars.len() == 36 {
        if chars[13] != '-' || chars[18] != '-' || chars[23] != '-' {
            return Err(SnbtError::invalid_uuid(input, error_pos, error_width));
        }
        let c = chars.as_slice();
        let mut g: Vec<Vec<char>> = Vec::new();
        g.push(take_chars(c, 0, 8));
        g.push(concat_chars(take_chars(c, 9, 4).as_slice(), take_chars(c, 14, 4).as_slice()));
        g.push(concat_chars(take_chars(c, 19, 4).as_slice(), take_chars(c, 24, 4).as_slice()));
        g.push(take_chars(c, 28, 8));
        g
    } else if !hyphenated && chars.len() == 32 {
        let c = chars.as_slice();
        let mut g: Vec<Vec<char>> = Vec::new();
        g.push(take_chars(c, 0, 8));
        g.push(take_chars(c, 8, 8));
        g.push(take_chars(c, 16, 8));
        g.push(take_chars(c, 24, 8));
        g
    } else {
        return Err(SnbtError::invalid_uuid(input, error_pos, error_width));
    };
    let ghost spec_groups = spec_uuid_groups(chars@)->0;
    assert(groups@.len() == 4);
    assert(forall|i: int| 0 <= i < 4 ==> (#[trigger] groups@[i])@ == spec_groups[i]);
    let w0 = match group_value(groups[0].as_slice()) {
        Some(v) => v,
        None => {
            return Err(SnbtError::invalid_uuid(input, error_pos, error_width));
        },
    };
    let w1 = match group_value(groups[1].as_slice()) {
        Some(v) => v,
        None => {
            return Err(SnbtError::invalid_uuid(input, error_pos, error_width));
        },
    };
    let w2 = match group_value(groups[2].as_slice()) {
        Some(v) => v,
        None => {
            return Err(SnbtError::invalid_uuid(input, error_pos, error_width));
        },
    };
    let w3 = match group_value(groups[3].as_slice()) {
        Some(v) => v,
        None => {
            return Err(SnbtError::invalid_uuid(input, error_pos, error_width));
        },
    };
    let words = [w0, w1, w2, w3];
    assert(words@ =~= spec_parse_uuid_func(input@, start as int, token@)->Ok_0);
    Ok(words)
}

/// The number of whitespace characters at the start of `s`.
fn leading_whitespace(s: &[char]) -> (res: usize)
    ensures
        res == spec_leading_whitespace(s@),
        res <= s@.len(),
{
    let mut i: usize = 0;
    assert(s@.subrange(0, s@.len() as int) =~= s@);
    while i < s.len() && is_whitespace(s[i])
        invariant
            i <= s@.len(),
            spec_leading_whitespace(s@) == i + spec_leading_whitespace(s@.subrange(i as int, s@.len() as int)),
        decreases s@.len() - i,
    {
        assert(s@.subrange(i as int, s@.len() as int).drop_first() =~= s@.subrange(i + 1, s@.len() as int));
        i = i + 1;
    }
    i
}

/// The number of whitespace characters at the end of `s`.
fn trailing_whitespace(s: &[char]) -> (res: usize)
    ensures
        res == spec_trailing_whitespace(s@),
        res <= s@.len(),
{
    let mut i: usize = 0;
    assert(s@.subrange(0, s@.len() as int) =~= s@);
    while i < s.len() && is_whitespace(s[s.len() - 1 - i])
        invariant
            i <= s@.len(),
            spec_trailing_whitespace(s@) == i + spec_trailing_whitespace(s@.subrange(0, s@.len() - i)),
        decreases s@.len() - i,
    {
        assert(s@.subrange(0, s@.len() - i).drop_last() =~= s@.subrange(0, s@.len() - i - 1));
        i = i + 1;
    }
    i
}

} // verus!
