use prismarine_anchor::iron_amulet_nbt::snbt::lexer::other_utils::{
    parse_escape_sequence, parse_uuid_func,
};
use prismarine_anchor::iron_amulet_nbt::snbt::lexer::{next_token, slurp_token, LexToken};
use prismarine_anchor::iron_amulet_nbt::snbt::ParserErrorType;
use prismarine_anchor::nbt::settings::SnbtVersion;

fn chars(s: &str) -> Vec<char> {
    s.chars().collect()
}

#[test]
fn escape_quotes_and_backslash_in_both_versions() {
    for text in [r#"a\"b"#, r"a\'b", r"a\\b"] {
        let input = chars(text);
        let expected = input[2];
        for version in [SnbtVersion::Original, SnbtVersion::UpdatedJava] {
            assert_eq!(parse_escape_sequence(&input, 1, version).unwrap(), (expected, 1));
        }
    }
}

#[test]
fn escape_whitespace_only_in_updated_version() {
    let cases = [('b', '\x08'), ('s', ' '), ('t', '\t'), ('n', '\n'), ('f', '\x0c'), ('r', '\r')];
    for (letter, expected) in cases {
        let input = vec!['x', '\\', letter, 'y'];
        assert_eq!(
            parse_escape_sequence(&input, 1, SnbtVersion::UpdatedJava).unwrap(),
            (expected, 1)
        );
        let err = parse_escape_sequence(&input, 1, SnbtVersion::Original).unwrap_err();
        assert!(matches!(err.error(), ParserErrorType::UnsupportedEscapeSequence));
        assert_eq!(err.index(), 1);
        let segment: String = vec!['x', '\\', letter].into_iter().collect();
        assert_eq!(err.segment(), &segment);
    }
}

#[test]
fn escape_hex_values() {
    let input = chars(r"\x41");
    assert_eq!(parse_escape_sequence(&input, 0, SnbtVersion::UpdatedJava).unwrap(), ('A', 3));
    let input = chars(r"\u00e9!");
    assert_eq!(parse_escape_sequence(&input, 0, SnbtVersion::UpdatedJava).unwrap(), ('é', 5));
    let input = chars(r"\U0001F600");
    assert_eq!(
        parse_escape_sequence(&input, 0, SnbtVersion::UpdatedJava).unwrap(),
        ('\u{1F600}', 9)
    );
}

#[test]
fn escape_hex_unsupported_in_original_version() {
    let input = chars(r"\x41");
    let err = parse_escape_sequence(&input, 0, SnbtVersion::Original).unwrap_err();
    assert!(matches!(err.error(), ParserErrorType::UnsupportedEscapeSequence));
    assert_eq!(err.index(), 0);
    assert_eq!(err.segment(), r"\x41");
}

#[test]
fn escape_hex_with_bad_digit() {
    let input = chars(r"\x4g");
    let err = parse_escape_sequence(&input, 0, SnbtVersion::UpdatedJava).unwrap_err();
    assert!(matches!(
        err.error(),
        ParserErrorType::UnexpectedToken { expected: "two hexadecimal digits" }
    ));
    assert_eq!(err.index(), 2);
    assert_eq!(err.segment(), r"\x4g");
}

#[test]
fn escape_hex_that_is_no_character() {
    let input = chars(r"\ud800");
    let err = parse_escape_sequence(&input, 0, SnbtVersion::UpdatedJava).unwrap_err();
    assert!(matches!(err.error(), ParserErrorType::UnknownEscapeSequence));
    assert_eq!(err.index(), 0);
    assert_eq!(err.segment(), r"\ud800");
}

#[test]
fn escape_at_end_of_input() {
    let input = chars(r"ab\");
    let err = parse_escape_sequence(&input, 2, SnbtVersion::UpdatedJava).unwrap_err();
    assert!(matches!(
        err.error(),
        ParserErrorType::UnexpectedEOS { expected: "a character escape sequence" }
    ));
    assert_eq!(err.index(), 0);
    assert_eq!(err.segment(), "");

    let input = chars(r"\x4");
    let err = parse_escape_sequence(&input, 0, SnbtVersion::UpdatedJava).unwrap_err();
    assert!(matches!(
        err.error(),
        ParserErrorType::UnexpectedEOS { expected: "two-character hex unicode value" }
    ));
}

#[test]
fn escape_unknown_letter() {
    let input = chars(r"é\q");
    let err = parse_escape_sequence(&input, 1, SnbtVersion::UpdatedJava).unwrap_err();
    assert!(matches!(err.error(), ParserErrorType::UnknownEscapeSequence));
    // The index is a byte index: 'é' takes two bytes.
    assert_eq!(err.index(), 2);
    assert_eq!(err.segment(), r"é\q");
}

#[test]
fn escape_named_character() {
    let input = chars(r"\N{SNOWMAN}");
    // The body `N{SNOWMAN}` is ten characters long.
    assert_eq!(parse_escape_sequence(&input, 0, SnbtVersion::UpdatedJava).unwrap(), ('☃', 10));
    let input = chars(r"\N{SPACE}");
    assert_eq!(parse_escape_sequence(&input, 0, SnbtVersion::UpdatedJava).unwrap(), (' ', 8));
    let err = parse_escape_sequence(&input, 0, SnbtVersion::Original).unwrap_err();
    assert!(matches!(err.error(), ParserErrorType::UnsupportedEscapeSequence));
}

#[test]
fn escape_named_character_errors() {
    let input = chars(r"\N{NO SUCH CHARACTER NAME}");
    let err = parse_escape_sequence(&input, 0, SnbtVersion::UpdatedJava).unwrap_err();
    assert!(matches!(err.error(), ParserErrorType::UnknownEscapeSequence));

    let input = chars(r"\N{SNOWMAN");
    let err = parse_escape_sequence(&input, 0, SnbtVersion::UpdatedJava).unwrap_err();
    assert!(matches!(err.error(), ParserErrorType::UnmatchedBrace));
    assert_eq!(err.index(), 2);

    let input = chars(r"\NX");
    let err = parse_escape_sequence(&input, 0, SnbtVersion::UpdatedJava).unwrap_err();
    assert!(matches!(
        err.error(),
        ParserErrorType::UnexpectedToken { expected: "an opening curly bracket" }
    ));

    let input = chars(r"\N");
    let err = parse_escape_sequence(&input, 0, SnbtVersion::UpdatedJava).unwrap_err();
    assert!(matches!(
        err.error(),
        ParserErrorType::UnexpectedEOS { expected: "a named unicode character escape" }
    ));
}

fn uuid_of(text: &str) -> Result<[i32; 4], prismarine_anchor::iron_amulet_nbt::snbt::SnbtError> {
    let input = chars(text);
    parse_uuid_func(&input, 0, &input)
}

#[test]
fn uuid_hyphenated() {
    assert_eq!(
        uuid_of("uuid(12345678-9abc-def0-1234-56789abcdef0)").unwrap(),
        [305419896, -1698898192, 305419896, -1698898192]
    );
}

#[test]
fn uuid_plain_quoted_and_padded() {
    assert_eq!(
        uuid_of("uuid(  '123456789abcdef0123456789ABCDEF0' )").unwrap(),
        [305419896, -1698898192, 305419896, -1698898192]
    );
    assert_eq!(
        uuid_of("uuid(\"ffffffff-0000-0000-0000-000000000001\")").unwrap(),
        [-1, 0, 0, 1]
    );
}

#[test]
fn uuid_inside_longer_input() {
    let input = chars("[uuid(00000000000000000000000000000002), 1]");
    let token = chars("uuid(00000000000000000000000000000002)");
    assert_eq!(parse_uuid_func(&input, 1, &token).unwrap(), [0, 0, 0, 2]);
}

#[test]
fn uuid_too_short() {
    let err = uuid_of("uuid( xyz)").unwrap_err();
    assert!(matches!(err.error(), ParserErrorType::InvalidUUID));
    assert_eq!(err.index(), 6);
    assert_eq!(err.segment(), " xyz");
}

#[test]
fn uuid_with_bad_digit_in_quotes() {
    let err = uuid_of("uuid('1234567g-9abc-def0-1234-56789abcdef0')").unwrap_err();
    assert!(matches!(err.error(), ParserErrorType::InvalidUUID));
    assert_eq!(err.index(), 6);
    assert_eq!(err.segment(), "'1234567g-9abc-def0-1");
}

#[test]
fn uuid_with_misplaced_hyphen() {
    let err = uuid_of("uuid(12345678-9abcd-ef0-1234-56789abcdef0)").unwrap_err();
    assert!(matches!(err.error(), ParserErrorType::InvalidUUID));
    assert_eq!(err.index(), 5);
}

#[test]
fn snbt_error_messages() {
    let err = uuid_of("uuid( xyz)").unwrap_err();
    assert_eq!(err.to_string(), "Invalid string representation of a UUID:  xyz");
    let input = chars(r"é\q");
    let err = parse_escape_sequence(&input, 1, SnbtVersion::UpdatedJava).unwrap_err();
    assert_eq!(err.to_string(), r"Unknown escape sequence: 'é\q'");
    let input = chars(r"\x4g");
    let err = parse_escape_sequence(&input, 0, SnbtVersion::UpdatedJava).unwrap_err();
    assert_eq!(
        err.to_string(),
        r"Unexpected token at column 2 near '\x4g', expected two hexadecimal digits"
    );
    let input = chars(r"ab\");
    let err = parse_escape_sequence(&input, 2, SnbtVersion::UpdatedJava).unwrap_err();
    assert_eq!(err.to_string(), "Reached end of input but expected a character escape sequence");
}

#[test]
fn slurp_unquoted_token_stops_at_disallowed_character() {
    let input = chars("{key_1.5+x: 3}");
    let (tk, end) = slurp_token(&input, 1, SnbtVersion::Original).unwrap();
    assert_eq!(tk.value, "key_1.5+x");
    assert!(!tk.quoted);
    assert_eq!(tk.index, 1);
    assert_eq!(tk.char_width, 9);
    assert_eq!(end, 10);
}

#[test]
fn slurp_unquoted_token_to_end_of_input() {
    let input = chars("abc");
    let (tk, end) = slurp_token(&input, 0, SnbtVersion::UpdatedJava).unwrap();
    assert_eq!(tk.value, "abc");
    assert_eq!(end, 3);
    assert_eq!(tk.char_width, 3);
}

#[test]
fn slurp_quoted_token_applies_escapes() {
    let input = chars(r#"x "a\"b\\c" y"#);
    let (tk, end) = slurp_token(&input, 2, SnbtVersion::Original).unwrap();
    assert_eq!(tk.value, r#"a"b\c"#);
    assert!(tk.quoted);
    assert_eq!(tk.index, 2);
    assert_eq!(end, 11);
    assert_eq!(tk.char_width, 9);
}

#[test]
fn slurp_single_quoted_token_keeps_double_quotes() {
    let input = chars(r#"'say "hi"'"#);
    let (tk, end) = slurp_token(&input, 0, SnbtVersion::Original).unwrap();
    assert_eq!(tk.value, r#"say "hi""#);
    assert_eq!(end, 10);
}

#[test]
fn slurp_quoted_token_with_unicode_escape_in_updated_version() {
    let input = chars(r#""\u00e9t\x41""#);
    let (tk, end) = slurp_token(&input, 0, SnbtVersion::UpdatedJava).unwrap();
    assert_eq!(tk.value, "\u{e9}tA");
    assert_eq!(end, 13);
    let err = slurp_token(&input, 0, SnbtVersion::Original).unwrap_err();
    assert!(matches!(err.error(), ParserErrorType::UnsupportedEscapeSequence));
}

#[test]
fn slurp_unmatched_quote() {
    let input = chars("ab 'cd");
    let err = slurp_token(&input, 3, SnbtVersion::Original).unwrap_err();
    assert!(matches!(err.error(), ParserErrorType::UnmatchedQuote));
    assert_eq!(err.index(), 3);
}

#[test]
fn slurp_invalid_unquoted_character() {
    let input = chars("a=b");
    let err = slurp_token(&input, 1, SnbtVersion::Original).unwrap_err();
    assert!(matches!(err.error(), ParserErrorType::InvalidUnquotedCharacter { ch: '=' }));
    assert_eq!(err.index(), 2);
}

#[test]
fn slurp_token_index_counts_bytes() {
    let input = chars("\u{e9}\u{e9} abc");
    let (tk, end) = slurp_token(&input, 3, SnbtVersion::Original).unwrap();
    assert_eq!(tk.value, "abc");
    assert_eq!(tk.index, 5);
    assert_eq!(end, 6);
}

#[test]
fn next_token_reads_punctuation_and_words() {
    let input = chars(" {a: 'x y', b:[1;2]}  ");
    let mut pos = 0;
    let mut seen = Vec::new();
    while let Some(res) = next_token(&input, pos, SnbtVersion::Original) {
        let (td, end) = res.unwrap();
        let text = match td.token {
            LexToken::OpenCurly => "{".to_owned(),
            LexToken::ClosedCurly => "}".to_owned(),
            LexToken::OpenSquare => "[".to_owned(),
            LexToken::ClosedSquare => "]".to_owned(),
            LexToken::Comma => ",".to_owned(),
            LexToken::Colon => ":".to_owned(),
            LexToken::Semicolon => ";".to_owned(),
            LexToken::Word { value, quoted } => if quoted { format!("q:{}", value) } else { value },
        };
        seen.push((text, td.index, td.char_width));
        pos = end;
    }
    let expected: Vec<(String, usize, usize)> = vec![
        ("{", 1, 1), ("a", 2, 1), (":", 3, 1), ("q:x y", 5, 5), (",", 10, 1), ("b", 12, 1),
        (":", 13, 1), ("[", 14, 1), ("1", 15, 1), (";", 16, 1), ("2", 17, 1), ("]", 18, 1),
        ("}", 19, 1),
    ]
    .into_iter()
    .map(|(t, i, w)| (t.to_owned(), i, w))
    .collect();
    assert_eq!(seen, expected);
}

#[test]
fn next_token_at_end_of_whitespace_is_none() {
    let input = chars(" \t\r\n");
    assert!(next_token(&input, 0, SnbtVersion::UpdatedJava).is_none());
    assert!(next_token(&input, 4, SnbtVersion::UpdatedJava).is_none());
}

#[test]
fn next_token_passes_on_lexing_errors() {
    let input = chars("  \"open");
    let err = next_token(&input, 0, SnbtVersion::Original).unwrap().unwrap_err();
    assert!(matches!(err.error(), ParserErrorType::UnmatchedQuote));
    assert_eq!(err.index(), 2);
}
