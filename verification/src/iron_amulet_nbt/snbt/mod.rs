//! Errors and helpers for reading SNBT, the string form of NBT.

use vstd::prelude::*;

use crate::iron_amulet_nbt::limits::DepthLimit;
use crate::text::{push_decimal, push_str, spec_decimal, string_from_chars};

pub mod lexer;
pub mod utils;

verus! {

/// A specific type of parser error.
#[derive(Debug, Clone, Copy)]
pub enum ParserErrorType {
    /// The limit on recursive nesting depth of NBT lists and compounds was exceeded.
    ExceededDepthLimit {
        /// The limit which was exceeded.
        limit: DepthLimit,
    },
    /// The end of the string (EOS) was encountered before it was expected.
    UnexpectedEOS {
        /// The expected token or sequence of tokens.
        expected: &'static str,
    },
    /// An unexpected token was encountered.
    UnexpectedToken {
        /// The expected token or sequence of tokens.
        expected: &'static str,
    },
    /// An escape sequence supported in some SNBT version, but not the one selected.
    UnsupportedEscapeSequence,
    /// A named escape sequence was encountered, but named escape sequence support wasn't enabled.
    NamedEscapeSequence,
    /// An unknown or invalid escape sequence.
    UnknownEscapeSequence,
    /// A non-alphanumeric character other than `_`, `-`, `.`, or `+` appeared in an unquoted string.
    InvalidUnquotedCharacter {
        /// The encountered character which should not appear in unquoted strings.
        ch: char,
    },
    /// An invalid number.
    InvalidNumber,
    /// An invalid string representation of a UUID.
    InvalidUUID,
    /// A trailing comma was encountered in a list or compound when it shouldn't have been.
    TrailingComma,
    /// An unmatched single or double quote was encountered.
    UnmatchedQuote,
    /// An unmatched curly bracket, square bracket, or parenthesis was encountered.
    UnmatchedBrace,
    /// A non-homogenous array of numbers was encountered.
    NonHomogenousNumericList,
    /// A non-homogenous array of NBT tags was encountered.
    NonHomogenousTagList,
}

/// An error while reading SNBT: the kind of error, the byte index in the input where it was
/// found, and a segment of the input around it.
#[derive(Debug, Clone)]
pub struct SnbtError {
    segment: String,
    index: usize,
    error: ParserErrorType,
}

impl View for SnbtError {
    /// The segment, the byte index, and the kind of error.
    type V = (Seq<char>, usize, ParserErrorType);

    closed spec fn view(&self) -> (Seq<char>, usize, ParserErrorType) {
        (self.segment@, self.index, self.error)
    }
}

/// The number of bytes of the UTF-8 encoding of `c`.
pub open spec fn spec_utf8_width(c: char) -> nat {
    if (c as u32) < 0x80 {
        1
    } else if (c as u32) < 0x800 {
        2
    } else if (c as u32) < 0x1_0000 {
        3
    } else {
        4
    }
}

/// The number of bytes of the UTF-8 encoding of `chars`.
pub open spec fn spec_utf8_len(chars: Seq<char>) -> nat
    decreases chars.len(),
{
    if chars.len() == 0 {
        0
    } else {
        spec_utf8_len(chars.drop_last()) + spec_utf8_width(chars.last())
    }
}

/// The byte index in the UTF-8 encoding of `input` of the character at `pos`.
pub open spec fn spec_byte_index(input: Seq<char>, pos: int) -> nat {
    spec_utf8_len(input.subrange(0, pos))
}

/// The characters of `input` shown around the character at `pos`: from `before` characters
/// earlier (at least one; from the start if there are fewer) to `min(width, 20) + after`
/// characters later (to the end if there are fewer).
pub open spec fn spec_segment(input: Seq<char>, pos: int, width: nat, before: nat, after: nat) -> Seq<
    char,
> {
    let back: int = if before == 0 {
        1
    } else {
        before as int
    };
    let start = if pos >= back {
        pos - back
    } else {
        0
    };
    let forward: int = (if width > 20 {
        20
    } else {
        width as int
    }) + after;
    let end = if pos + forward < input.len() {
        pos + forward
    } else {
        input.len() as int
    };
    input.subrange(start, end)
}

/// The number of bytes of the UTF-8 encoding of `c`.
fn utf8_width(c: char) -> (res: usize)
    ensures
        res == spec_utf8_width(c),
{
    if (c as u32) < 0x80 {
        1
    } else if (c as u32) < 0x800 {
        2
    } else if (c as u32) < 0x1_0000 {
        3
    } else {
        4
    }
}

/// The byte index in the UTF-8 encoding of `input` of the character at `pos`.
pub(crate) fn byte_index(input: &[char], pos: usize) -> (res: usize)
    requires
        pos <= input@.len(),
        spec_utf8_len(input@) <= usize::MAX,
    ensures
        res == spec_byte_index(input@, pos as int),
{
    proof {
        lemma_utf8_len_prefix(input@, pos as int);
    }
    let mut total: usize = 0;
    let mut i: usize = 0;
    while i < pos
        invariant
            pos <= input@.len(),
            i <= pos,
            spec_utf8_len(input@.subrange(0, pos as int)) <= usize::MAX,
            total == spec_utf8_len(input@.subrange(0, i as int)),
        decreases pos - i,
    {
        proof {
            assert(input@.subrange(0, i + 1).drop_last() =~= input@.subrange(0, i as int));
            lemma_utf8_len_prefix(input@.subrange(0, pos as int), i + 1);
            assert(input@.subrange(0, pos as int).subrange(0, i + 1) =~= input@.subrange(0, i + 1));
        }
        total = total + utf8_width(input[i]);
        i = i + 1;
    }
    total
}

/// A prefix is encoded in no more bytes than the whole.
proof fn lemma_utf8_len_prefix(chars: Seq<char>, k: int)
    requires
        0 <= k <= chars.len(),
    ensures
        spec_utf8_len(chars.subrange(0, k)) <= spec_utf8_len(chars),
    decreases chars.len() - k,
{
    if k < chars.len() {
        lemma_utf8_len_prefix(chars, k + 1);
        assert(chars.subrange(0, k + 1).drop_last() =~= chars.subrange(0, k));
    } else {
        assert(chars.subrange(0, k) =~= chars);
    }
}

/// The characters of `input` shown around the character at `pos`.
fn segment(input: &[char], pos: usize, width: usize, before: usize, after: usize) -> (res: String)
    requires
        pos <= input@.len(),
        after <= 20,
    ensures
        res@ == spec_segment(input@, pos as int, width as nat, before as nat, after as nat),
{
    let back: usize = if before == 0 {
        1
    } else {
        before
    };
    let start: usize = if pos >= back {
        pos - back
    } else {
        0
    };
    let forward: usize = (if width > 20 {
        20
    } else {
        width
    }) + after;
    let end: usize = if forward < input.len() - pos {
        pos + forward
    } else {
        input.len()
    };
    let mut chars: Vec<char> = Vec::new();
    let mut i: usize = start;
    while i < end
        invariant
            start <= end <= input@.len(),
            start <= i <= end,
            chars@ =~= input@.subrange(start as int, i as int),
        decreases end - i,
    {
        chars.push(input[i]);
        i = i + 1;
    }
    string_from_chars(chars.as_slice())
}

impl SnbtError {
    /// The segment of the input around the error.
    pub fn segment(&self) -> (res: &String)
        ensures
            res@ == self@.0,
    {
        &self.segment
    }

    /// The byte index in the input of the error.
    pub fn index(&self) -> (res: usize)
        ensures
            res == self@.1,
    {
        self.index
    }

    /// The kind of error.
    pub fn error(&self) -> (res: ParserErrorType)
        ensures
            res == self@.2,
    {
        self.error
    }

    /// The nesting depth limit was exceeded.
    pub(crate) fn exceeded_depth_limit(limit: DepthLimit) -> (res: Self)
        ensures
            res@ == (Seq::<char>::empty(), 0usize, ParserErrorType::ExceededDepthLimit { limit }),
    {
        SnbtError {
            segment: String::new(),
            index: 0,
            error: ParserErrorType::ExceededDepthLimit { limit },
        }
    }

    /// The input ended where `expected` was expected.
    pub(crate) fn unexpected_eos(expected: &'static str) -> (res: Self)
        ensures
            res@ == (Seq::<char>::empty(), 0usize, ParserErrorType::UnexpectedEOS { expected }),
    {
        SnbtError {
            segment: String::new(),
            index: 0,
            error: ParserErrorType::UnexpectedEOS { expected },
        }
    }

    /// The `error` at the character at `pos` of `input`, shown with the given segment bounds.
    fn at(
        input: &[char],
        pos: usize,
        width: usize,
        before: usize,
        after: usize,
        error: ParserErrorType,
    ) -> (res: Self)
        requires
            pos <= input@.len(),
            after <= 20,
            spec_utf8_len(input@) <= usize::MAX,
        ensures
            res@ == (
                spec_segment(input@, pos as int, width as nat, before as nat, after as nat),
                spec_byte_index(input@, pos as int) as usize,
                error,
            ),
    {
        SnbtError { segment: segment(input, pos, width, before, after), index: byte_index(input, pos), error }
    }

    /// An unexpected token of `width` characters at `pos`, where `expected` was expected.
    pub(crate) fn unexpected_token_at(
        input: &[char],
        pos: usize,
        width: usize,
        expected: &'static str,
    ) -> (res: Self)
        requires
            pos <= input@.len(),
            spec_utf8_len(input@) <= usize::MAX,
        ensures
            res@ == (
                spec_segment(input@, pos as int, width as nat, 15, 0),
                spec_byte_index(input@, pos as int) as usize,
                ParserErrorType::UnexpectedToken { expected },
            ),
    {
        Self::at(input, pos, width, 15, 0, ParserErrorType::UnexpectedToken { expected })
    }

    /// An escape sequence of `width` characters at `pos` that the SNBT version does not
    /// support.
    pub(crate) fn unsupported_escape_sequence(input: &[char], pos: usize, width: usize) -> (res: Self)
        requires
            pos <= input@.len(),
            spec_utf8_len(input@) <= usize::MAX,
        ensures
            res@ == (
                spec_segment(input@, pos as int, width as nat, 0, 0),
                spec_byte_index(input@, pos as int) as usize,
                ParserErrorType::UnsupportedEscapeSequence,
            ),
    {
        Self::at(input, pos, width, 0, 0, ParserErrorType::UnsupportedEscapeSequence)
    }

    /// An unknown or invalid escape sequence of `width` characters at `pos`.
    pub(crate) fn unknown_escape_sequence(input: &[char], pos: usize, width: usize) -> (res: Self)
        requires
            pos <= input@.len(),
            spec_utf8_len(input@) <= usize::MAX,
        ensures
            res@ == (
                spec_segment(input@, pos as int, width as nat, 0, 0),
                spec_byte_index(input@, pos as int) as usize,
                ParserErrorType::UnknownEscapeSequence,
            ),
    {
        Self::at(input, pos, width, 0, 0, ParserErrorType::UnknownEscapeSequence)
    }

    /// An invalid UUID of `width` characters at `pos`.
    pub(crate) fn invalid_uuid(input: &[char], pos: usize, width: usize) -> (res: Self)
        requires
            pos <= input@.len(),
            spec_utf8_len(input@) <= usize::MAX,
        ensures
            res@ == (
                spec_segment(input@, pos as int, width as nat, 0, 0),
                spec_byte_index(input@, pos as int) as usize,
                ParserErrorType::InvalidUUID,
            ),
    {
        Self::at(input, pos, width, 0, 0, ParserErrorType::InvalidUUID)
    }

    /// A character at `pos - 1` that may not appear in an unquoted string: the error is placed
    /// just after it, at `pos`.
    pub(crate) fn invalid_unquoted_character(input: &[char], pos: usize, width: usize, ch: char) -> (res: Self)
        requires
            pos <= input@.len(),
            spec_utf8_len(input@) <= usize::MAX,
        ensures
            res@ == (
                spec_segment(input@, pos as int, width as nat, 10, 5),
                spec_byte_index(input@, pos as int) as usize,
                ParserErrorType::InvalidUnquotedCharacter { ch },
            ),
    {
        Self::at(input, pos, width, 10, 5, ParserErrorType::InvalidUnquotedCharacter { ch })
    }

    /// A quote at `pos` with no matching closing quote.
    pub(crate) fn unmatched_quote(input: &[char], pos: usize) -> (res: Self)
        requires
            pos <= input@.len(),
            spec_utf8_len(input@) <= usize::MAX,
        ensures
            res@ == (
                spec_segment(input@, pos as int, 1, 7, 7),
                spec_byte_index(input@, pos as int) as usize,
                ParserErrorType::UnmatchedQuote,
            ),
    {
        Self::at(input, pos, 1, 7, 7, ParserErrorType::UnmatchedQuote)
    }

    /// A brace at `pos` with no matching closing brace.
    pub(crate) fn unmatched_brace(input: &[char], pos: usize) -> (res: Self)
        requires
            pos <= input@.len(),
            spec_utf8_len(input@) <= usize::MAX,
        ensures
            res@ == (
                spec_segment(input@, pos as int, 1, 0, 15),
                spec_byte_index(input@, pos as int) as usize,
                ParserErrorType::UnmatchedBrace,
            ),
    {
        Self::at(input, pos, 1, 0, 15, ParserErrorType::UnmatchedBrace)
    }
}

/// The message of an SNBT error with the given segment, byte index ("column") and kind.
pub open spec fn spec_message(error: (Seq<char>, usize, ParserErrorType)) -> Seq<char> {
    let (segment, index, kind) = error;
    let column = spec_decimal(index as nat);
    match kind {
        ParserErrorType::ExceededDepthLimit { limit } => "Exceeded depth limit "@ + spec_decimal(
            limit.0 as nat,
        ) + " of nested tag lists and compound tags"@,
        ParserErrorType::UnexpectedEOS { expected } => "Reached end of input but expected "@
            + expected@,
        ParserErrorType::UnexpectedToken { expected } => "Unexpected token at column "@ + column
            + " near '"@ + segment + "', expected "@ + expected@,
        ParserErrorType::UnsupportedEscapeSequence =>
            "Escape sequence only supported in a different SNBT version: '"@ + segment + "'"@,
        ParserErrorType::NamedEscapeSequence =>
            "Named sequence support is not enabled; could not parse escape sequence '"@ + segment
            + "'"@,
        ParserErrorType::UnknownEscapeSequence => "Unknown escape sequence: '"@ + segment + "'"@,
        ParserErrorType::InvalidUnquotedCharacter { ch } => "Character '"@ + seq![ch]
            + "' disallowed in unquoted strings at column "@ + column + " near '"@ + segment
            + "'"@,
        ParserErrorType::InvalidNumber => "Invalid number: "@ + segment,
        ParserErrorType::InvalidUUID => "Invalid string representation of a UUID: "@ + segment,
        ParserErrorType::TrailingComma => "Forbidden trailing comma at column "@ + column + ": '"@
            + segment + "'"@,
        ParserErrorType::UnmatchedQuote => "Unmatched quote: column "@ + column + " near '"@
            + segment + "'"@,
        ParserErrorType::UnmatchedBrace => "Unmatched brace at column "@ + column + " near '"@
            + segment + "'"@,
        ParserErrorType::NonHomogenousNumericList =>
            "Non-homogenous typed array of numbers at column "@ + column + " near '"@ + segment
            + "'"@,
        ParserErrorType::NonHomogenousTagList =>
            "Heterogenous tag list (only supported in new SNBT version) at column "@ + column
            + " near '"@ + segment + "'"@,
    }
}

impl SnbtError {
    /// The message of this error, as its `Display` shows it.
    pub fn to_string(&self) -> (res: String)
        ensures
            res@ == spec_message(self@),
    {
        let mut out: Vec<char> = Vec::new();
        let segment = self.segment.as_str();
        let index = self.index as u64;
        match self.error {
            ParserErrorType::ExceededDepthLimit { limit } => {
                push_str(&mut out, "Exceeded depth limit ");
                push_decimal(&mut out, limit.0 as u64);
                push_str(&mut out, " of nested tag lists and compound tags");
            },
            ParserErrorType::UnexpectedEOS { expected } => {
                push_str(&mut out, "Reached end of input but expected ");
                push_str(&mut out, expected);
            },
            ParserErrorType::UnexpectedToken { expected } => {
                push_str(&mut out, "Unexpected token at column ");
                push_decimal(&mut out, index);
                push_str(&mut out, " near '");
                push_str(&mut out, segment);
                push_str(&mut out, "', expected ");
                push_str(&mut out, expected);
            },
            ParserErrorType::UnsupportedEscapeSequence => {
                push_str(&mut out, "Escape sequence only supported in a different SNBT version: '");
                push_str(&mut out, segment);
                push_str(&mut out, "'");
            },
            ParserErrorType::NamedEscapeSequence => {
                push_str(
                    &mut out,
                    "Named sequence support is not enabled; could not parse escape sequence '",
                );
                push_str(&mut out, segment);
                push_str(&mut out, "'");
            },
            ParserErrorType::UnknownEscapeSequence => {
                push_str(&mut out, "Unknown escape sequence: '");
                push_str(&mut out, segment);
                push_str(&mut out, "'");
            },
            ParserErrorType::InvalidUnquotedCharacter { ch } => {
                push_str(&mut out, "Character '");
                out.push(ch);
                push_str(&mut out, "' disallowed in unquoted strings at column ");
                push_decimal(&mut out, index);
                push_str(&mut out, " near '");
                push_str(&mut out, segment);
                push_str(&mut out, "'");
            },
            ParserErrorType::InvalidNumber => {
                push_str(&mut out, "Invalid number: ");
                push_str(&mut out, segment);
            },
            ParserErrorType::InvalidUUID => {
                push_str(&mut out, "Invalid string representation of a UUID: ");
                push_str(&mut out, segment);
            },
            ParserErrorType::TrailingComma => {
                push_str(&mut out, "Forbidden trailing comma at column ");
                push_decimal(&mut out, index);
                push_str(&mut out, ": '");
                push_str(&mut out, segment);
                push_str(&mut out, "'");
            },
            ParserErrorType::UnmatchedQuote => {
                push_str(&mut out, "Unmatched quote: column ");
                push_decimal(&mut out, index);
                push_str(&mut out, " near '");
                push_str(&mut out, segment);
                push_str(&mut out, "'");
            },
            ParserErrorType::UnmatchedBrace => {
                push_str(&mut out, "Unmatched brace at column ");
                push_decimal(&mut out, index);
                push_str(&mut out, " near '");
                push_str(&mut out, segment);
                push_str(&mut out, "'");
            },
            ParserErrorType::NonHomogenousNumericList => {
                push_str(&mut out, "Non-homogenous typed array of numbers at column ");
                push_decimal(&mut out, index);
                push_str(&mut out, " near '");
                push_str(&mut out, segment);
                push_str(&mut out, "'");
            },
            ParserErrorType::NonHomogenousTagList => {
                push_str(
                    &mut out,
                    "Heterogenous tag list (only supported in new SNBT version) at column ",
                );
                push_decimal(&mut out, index);
                push_str(&mut out, " near '");
                push_str(&mut out, segment);
                push_str(&mut out, "'");
            },
        }
        assert(out@ =~= spec_message(self@));
        string_from_chars(out.as_slice())
    }
}

} // verus!
