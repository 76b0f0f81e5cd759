//! The SNBT lexer: reading one multi-character token, and the words and characters that it
//! treats specially.

use vstd::prelude::*;

use crate::iron_amulet_nbt::snbt::lexer::other_utils::{
    allowed_unquoted, parse_escape_sequence, spec_error_at, spec_escape_outcome, spec_parse_escape,
};
use crate::iron_amulet_nbt::snbt::utils::spec_allowed_unquoted;
use crate::iron_amulet_nbt::snbt::{
    byte_index, spec_byte_index, spec_utf8_len, ParserErrorType, SnbtError,
};
use crate::nbt::settings::SnbtVersion;

pub mod other_utils;

verus! {

/// Unquoted words whose meaning depends on the SNBT version and the parse options.
#[derive(Debug, Clone, Copy, PartialEq, Eq, Structural)]
pub enum AmbiguousWord {
    True,
    False,
    InfinityD,
    InfinityF,
    NegInfinityD,
    NegInfinityF,
    NaND,
    NaNF,
}

impl AmbiguousWord {
    /// Does nothing.
    pub fn ambiguous() {
    }
}


/// A multi-character token as read from the input, before it is classified: its text, with
/// the quotes left out and escapes applied in a quoted token; whether it was quoted; the byte
/// index in the input where it starts; and the number of input characters that it spans.
#[derive(Debug)]
pub struct RawToken {
    pub value: String,
    pub quoted: bool,
    pub index: usize,
    pub char_width: usize,
}

/// Prefix `acc` to the text of a result.
pub open spec fn spec_prefixed(
    acc: Seq<char>,
    r: Result<(Seq<char>, int), (Seq<char>, usize, ParserErrorType)>,
) -> Result<(Seq<char>, int), (Seq<char>, usize, ParserErrorType)> {
    match r {
        Ok((text, end)) => Ok((acc + text, end)),
        Err(e) => Err(e),
    }
}

/// The rest of a token quoted with `quote` (opened at `start`), from `pos` on: its text with
/// escapes applied, and the position just after the closing quote. The input ending before
/// the closing quote is an unmatched quote at `start`.
pub open spec fn spec_quoted_rest(
    input: Seq<char>,
    start: int,
    pos: int,
    quote: char,
    version: SnbtVersion,
) -> Result<(Seq<char>, int), (Seq<char>, usize, ParserErrorType)>
    decreases input.len() - pos,
{
    if pos < 0 || pos >= input.len() {
        Err(spec_error_at(input, start, 1, 7, 7, ParserErrorType::UnmatchedQuote))
    } else if input[pos] == '\\' {
        match spec_parse_escape(input, pos, version) {
            Err(e) => Err(e),
            Ok((ch, w)) => if pos + 1 + w > input.len() {
                Err(spec_error_at(input, start, 1, 7, 7, ParserErrorType::UnmatchedQuote))
            } else {
                spec_prefixed(seq![ch], spec_quoted_rest(input, start, pos + 1 + w, quote, version))
            },
        }
    } else if input[pos] == quote {
        Ok((Seq::empty(), pos + 1))
    } else {
        spec_prefixed(seq![input[pos]], spec_quoted_rest(input, start, pos + 1, quote, version))
    }
}

/// The end of an unquoted token whose characters from `pos` on are still to be read: the
/// first position from `pos` on that holds no character allowed in an unquoted string.
pub open spec fn spec_unquoted_end(input: Seq<char>, pos: int) -> int
    decreases input.len() - pos,
{
    if 0 <= pos < input.len() && spec_allowed_unquoted(input[pos]) {
        spec_unquoted_end(input, pos + 1)
    } else {
        pos
    }
}

/// The multi-character token that starts at `start`: its text, whether it is quoted, and the
/// position just after it; or the view of the error.
pub open spec fn spec_slurp_token(input: Seq<char>, start: int, version: SnbtVersion) -> Result<
    (Seq<char>, bool, int),
    (Seq<char>, usize, ParserErrorType),
> {
    let first = input[start];
    if first == '"' || first == '\'' {
        match spec_quoted_rest(input, start, start + 1, first, version) {
            Ok((text, end)) => Ok((text, true, end)),
            Err(e) => Err(e),
        }
    } else if spec_allowed_unquoted(first) {
        let end = spec_unquoted_end(input, start + 1);
        Ok((input.subrange(start, end), false, end))
    } else {
        Err(
            spec_error_at(
                input,
                start + 1,
                1,
                10,
                5,
                ParserErrorType::InvalidUnquotedCharacter { ch: first },
            ),
        )
    }
}

proof fn lemma_unquoted_end_bounds(input: Seq<char>, pos: int)
    requires
        0 <= pos <= input.len(),
    ensures
        pos <= spec_unquoted_end(input, pos) <= input.len(),
        forall|i: int|
            pos <= i < spec_unquoted_end(input, pos) ==> #[trigger] spec_allowed_unquoted(input[i]),
    decreases input.len() - pos,
{
    if pos < input.len() && spec_allowed_unquoted(input[pos]) {
        lemma_unquoted_end_bounds(input, pos + 1);
    }
}


/// The rest of a token quoted with `first`, which opens it at `start`.
#[verifier::rlimit(40)]
fn quoted_rest(input: &[char], start: usize, first: char, version: SnbtVersion) -> (res: Result<
    (Vec<char>, usize),
    SnbtError,
>)
    requires
        start < input@.len(),
        spec_utf8_len(input@) <= usize::MAX,
    ensures
        match (res, spec_quoted_rest(input@, start as int, start + 1, first, version)) {
            (Ok((text, end)), Ok((t, e))) => text@ == t && end == e && start < end <= input@.len(),
            (Err(err), Err(e)) => err@ == e,
            _ => false,
        },
{
    let n = input.len();
    let mut text: Vec<char> = Vec::new();
    let mut pos = start + 1;
    assert(spec_prefixed(Seq::<char>::empty(), spec_quoted_rest(input@, start as int, pos as int, first, version))
        == spec_quoted_rest(input@, start as int, pos as int, first, version)) by {
        match spec_quoted_rest(input@, start as int, pos as int, first, version) {
            Ok((t, e)) => {
                assert(Seq::<char>::empty() + t =~= t);
            },
            Err(_) => {},
        }
    }
    loop
        invariant
            start < pos,
            start < n,
            n == input@.len(),
            spec_utf8_len(input@) <= usize::MAX,
            spec_quoted_rest(input@, start as int, start + 1, first, version) == spec_prefixed(
                text@,
                spec_quoted_rest(input@, start as int, pos as int, first, version),
            ),
        decreases n - pos,
    {
        let ghost here = spec_quoted_rest(input@, start as int, pos as int, first, version);
        if pos >= n {
            return Err(SnbtError::unmatched_quote(input, start));
        }
        let c = input[pos];
        if c == '\\' {
            let esc = parse_escape_sequence(input, pos, version);
            match esc {
                Err(e) => {
                    assert(here == Err::<(Seq<char>, int), _>(e@));
                    return Err(e);
                },
                Ok((ch, w)) => {
                    if w >= n - pos {
                        assert(here == Err::<(Seq<char>, int), _>(
                            spec_error_at(input@, start as int, 1, 7, 7, ParserErrorType::UnmatchedQuote),
                        ));
                        return Err(SnbtError::unmatched_quote(input, start));
                    }
                    let ghost r = spec_quoted_rest(input@, start as int, pos + 1 + w, first, version);
                    assert(here == spec_prefixed(seq![ch], r));
                    assert(spec_prefixed(text@, spec_prefixed(seq![ch], r)) == spec_prefixed(
                        text@.push(ch),
                        r,
                    )) by {
                        match r {
                            Ok((t, e)) => {
                                assert(text@ + (seq![ch] + t) =~= text@.push(ch) + t);
                            },
                            Err(_) => {},
                        }
                    }
                    text.push(ch);
                    pos = pos + 1 + w;
                },
            }
        } else if c == first {
            assert(here == Ok::<_, (Seq<char>, usize, ParserErrorType)>((Seq::<char>::empty(), pos + 1)));
            assert(text@ + Seq::<char>::empty() =~= text@);
            return Ok((text, pos + 1));
        } else {
            let ghost r = spec_quoted_rest(input@, start as int, pos + 1, first, version);
            assert(here == spec_prefixed(seq![c], r));
            assert(spec_prefixed(text@, spec_prefixed(seq![c], r)) == spec_prefixed(
                text@.push(c),
                r,
            )) by {
                match r {
                    Ok((t, e)) => {
                        assert(text@ + (seq![c] + t) =~= text@.push(c) + t);
                    },
                    Err(_) => {},
                }
            }
            text.push(c);
            pos = pos + 1;
        }
    }
}

/// Read the multi-character token that starts at `start`: a quoted string, in single or double
/// quotes, whose escape sequences are applied, or a run of the characters allowed in unquoted
/// strings. Returns the token and the position just after it.
pub fn slurp_token(input: &[char], start: usize, version: SnbtVersion) -> (res: Result<
    (RawToken, usize),
    SnbtError,
>)
    requires
        start < input@.len(),
        spec_utf8_len(input@) <= usize::MAX,
    ensures
        match (res, spec_slurp_token(input@, start as int, version)) {
            (Ok((tk, end)), Ok((text, quoted, e))) => {
                &&& tk.value@ == text
                &&& tk.quoted == quoted
                &&& end == e
                &&& tk.index == spec_byte_index(input@, start as int)
                &&& tk.char_width == end - start
            },
            (Err(err), Err(e)) => err@ == e,
            _ => false,
        },
{
    let n = input.len();
    let first = input[start];
    let index = byte_index(input, start);
    if first == '"' || first == '\'' {
        match quoted_rest(input, start, first, version) {
            Ok((text, end)) => {
                let value = crate::text::string_from_chars(text.as_slice());
                Ok((RawToken { value, quoted: true, index, char_width: end - start }, end))
            },
            Err(e) => Err(e),
        }
    } else if allowed_unquoted(first) {
        let mut pos = start + 1;
        proof {
            lemma_unquoted_end_bounds(input@, start + 1);
        }
        while pos < n && allowed_unquoted(input[pos])
            invariant
                start < pos <= n,
                n == input@.len(),
                spec_unquoted_end(input@, start + 1) == spec_unquoted_end(input@, pos as int),
            decreases n - pos,
        {
            pos = pos + 1;
        }
        let value = crate::text::string_from_chars(&input[start..pos]);
        proof {
            assert(input@.subrange(start as int, pos as int) == input@.subrange(start as int, pos as int));
        }
        Ok((RawToken { value, quoted: false, index, char_width: pos - start }, pos))
    } else {
        Err(SnbtError::invalid_unquoted_character(input, start + 1, 1, first))
    }
}


/// An SNBT token: a punctuation character, or a multi-character token (a word) before it is
/// classified.
#[derive(Debug)]
pub enum LexToken {
    OpenCurly,
    ClosedCurly,
    OpenSquare,
    ClosedSquare,
    Comma,
    Colon,
    Semicolon,
    Word { value: String, quoted: bool },
}

/// A token with the byte index in the input where it starts and the number of input
/// characters that it spans.
#[derive(Debug)]
pub struct TokenData {
    pub token: LexToken,
    pub index: usize,
    pub char_width: usize,
}

/// What a token is: the punctuation character, or a word's text and whether it was quoted.
pub enum TokenView {
    Punct(char),
    Word(Seq<char>, bool),
}

impl LexToken {
    /// What this token is.
    pub open spec fn view_token(self) -> TokenView {
        match self {
            LexToken::OpenCurly => TokenView::Punct('{'),
            LexToken::ClosedCurly => TokenView::Punct('}'),
            LexToken::OpenSquare => TokenView::Punct('['),
            LexToken::ClosedSquare => TokenView::Punct(']'),
            LexToken::Comma => TokenView::Punct(','),
            LexToken::Colon => TokenView::Punct(':'),
            LexToken::Semicolon => TokenView::Punct(';'),
            LexToken::Word { value, quoted } => TokenView::Word(value@, quoted),
        }
    }
}

/// Whether `c` is ASCII whitespace: space, tab, line feed, form feed or carriage return.
pub open spec fn spec_ascii_whitespace(c: char) -> bool {
    c == ' ' || c == '\t' || c == '\n' || c == '\x0C' || c == '\r'
}

/// Whether `c` is a token of its own.
pub open spec fn spec_punct(c: char) -> bool {
    c == '{' || c == '}' || c == '[' || c == ']' || c == ',' || c == ':' || c == ';'
}

/// The first position from `pos` on that holds no ASCII whitespace.
pub open spec fn spec_skip_whitespace(input: Seq<char>, pos: int) -> int
    decreases input.len() - pos,
{
    if 0 <= pos < input.len() && spec_ascii_whitespace(input[pos]) {
        spec_skip_whitespace(input, pos + 1)
    } else {
        pos
    }
}

/// The next token from `pos` on, after any whitespace: `None` at the end of the input; else
/// what the token is, its start, its width in characters and the position just after it; or
/// the view of the error.
pub open spec fn spec_next_token(input: Seq<char>, pos: int, version: SnbtVersion) -> Option<
    Result<(TokenView, int, int, int), (Seq<char>, usize, ParserErrorType)>,
> {
    let start = spec_skip_whitespace(input, pos);
    if start >= input.len() {
        None
    } else if spec_punct(input[start]) {
        Some(Ok((TokenView::Punct(input[start]), start, 1, start + 1)))
    } else {
        match spec_slurp_token(input, start, version) {
            Ok((text, quoted, end)) => Some(Ok((TokenView::Word(text, quoted), start, end - start, end))),
            Err(e) => Some(Err(e)),
        }
    }
}

proof fn lemma_skip_whitespace_bounds(input: Seq<char>, pos: int)
    requires
        0 <= pos <= input.len(),
    ensures
        pos <= spec_skip_whitespace(input, pos) <= input.len(),
    decreases input.len() - pos,
{
    if pos < input.len() && spec_ascii_whitespace(input[pos]) {
        lemma_skip_whitespace_bounds(input, pos + 1);
    }
}

/// Read the next token from `pos` on, after any whitespace. Returns `None` at the end of the
/// input, and otherwise the token and the position just after it.
pub fn next_token(input: &[char], pos: usize, version: SnbtVersion) -> (res: Option<
    Result<(TokenData, usize), SnbtError>,
>)
    requires
        pos <= input@.len(),
        spec_utf8_len(input@) <= usize::MAX,
    ensures
        match (res, spec_next_token(input@, pos as int, version)) {
            (None, None) => true,
            (Some(Ok((td, end))), Some(Ok((tv, start, width, e)))) => {
                &&& td.token.view_token() == tv
                &&& td.index == spec_byte_index(input@, start)
                &&& td.char_width == width
                &&& end == e
            },
            (Some(Err(err)), Some(Err(e))) => err@ == e,
            _ => false,
        },
{
    let n = input.len();
    let mut p = pos;
    proof {
        lemma_skip_whitespace_bounds(input@, pos as int);
    }
    while p < n && (input[p] == ' ' || input[p] == '\t' || input[p] == '\n' || input[p] == '\x0C'
        || input[p] == '\r')
        invariant
            pos <= p <= n,
            n == input@.len(),
            spec_skip_whitespace(input@, pos as int) == spec_skip_whitespace(input@, p as int),
        decreases n - p,
    {
        p = p + 1;
    }
    if p >= n {
        return None;
    }
    let c = input[p];
    let punct = if c == '{' {
        Some(LexToken::OpenCurly)
    } else if c == '}' {
        Some(LexToken::ClosedCurly)
    } else if c == '[' {
        Some(LexToken::OpenSquare)
    } else if c == ']' {
        Some(LexToken::ClosedSquare)
    } else if c == ',' {
        Some(LexToken::Comma)
    } else if c == ':' {
        Some(LexToken::Colon)
    } else if c == ';' {
        Some(LexToken::Semicolon)
    } else {
        None
    };
    match punct {
        Some(token) => {
            let index = byte_index(input, p);
            Some(Ok((TokenData { token, index, char_width: 1 }, p + 1)))
        },
        None => match slurp_token(input, p, version) {
            Ok((raw, end)) => Some(
                Ok(
                    (
                        TokenData {
                            token: LexToken::Word { value: raw.value, quoted: raw.quoted },
                            index: raw.index,
                            char_width: raw.char_width,
                        },
                        end,
                    ),
                ),
            ),
            Err(e) => Some(Err(e)),
        },
    }
}
} // verus!
