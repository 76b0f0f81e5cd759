use prismarine_anchor::iron_amulet_nbt::encoding::{
    CompressionLevel as AmuletCompressionLevel, EncodingOptions, Endianness as AmuletEndianness,
    NBTCompression as AmuletCompression, StringEncoding as AmuletStringEncoding,
};
use prismarine_anchor::iron_amulet_nbt::limits::DepthLimit as AmuletDepthLimit;
use prismarine_anchor::iron_amulet_nbt::repr::{
    NbtReprError as AmuletReprError, NbtStructureErrorRepr,
};
use prismarine_anchor::iron_amulet_nbt::snbt::lexer::other_utils::{
    allowed_unquoted, starts_unquoted_number,
};
use prismarine_anchor::iron_amulet_nbt::snbt::lexer::AmbiguousWord;
use prismarine_anchor::iron_amulet_nbt::snbt::utils::{chars_to_u16, chars_to_u32, chars_to_u8};
use prismarine_anchor::iron_nbt::io::{
    NBTCompression as IoCompression, NbtIoError, Options, SnbtVersion as IoSnbtVersion,
};
use prismarine_anchor::nbt::repr::{NbtReprError, NbtStructureError};
use prismarine_anchor::nbt::settings::{
    CompressionLevel, DepthLimit, EnabledEscapeSequences, Endianness, EscapeSequence,
    HandleInvalidEscape, IoOptions, NbtCompression, ParseNonFinite, ParseTrueFalse,
    SnbtParseOptions, SnbtVersion, SnbtWriteOptions, StringEncoding, WriteNonFinite,
};

use flate2::Compression;

const ALL: [EscapeSequence; 10] = [
    EscapeSequence::B,
    EscapeSequence::F,
    EscapeSequence::N,
    EscapeSequence::R,
    EscapeSequence::S,
    EscapeSequence::T,
    EscapeSequence::UnicodeTwo,
    EscapeSequence::UnicodeFour,
    EscapeSequence::UnicodeEight,
    EscapeSequence::UnicodeNamed,
];

#[test]
fn depth_limits() {
    assert_eq!(DepthLimit::default().limit(), 512);
    assert_eq!(DepthLimit::new(3).limit(), 3);
    assert_eq!(AmuletDepthLimit::default(), AmuletDepthLimit(512));
}

#[test]
fn io_option_presets() {
    let java = IoOptions::java();
    assert!(matches!(java.endianness, Endianness::BigEndian));
    assert!(matches!(java.compression, NbtCompression::GzipCompressed));
    assert!(matches!(java.string_encoding, StringEncoding::Cesu8));
    assert!(!java.allow_invalid_strings);
    assert_eq!(java.depth_limit.limit(), 512);
    assert!(matches!(IoOptions::java_uncompressed().compression, NbtCompression::Uncompressed));
    let bedrock = IoOptions::bedrock();
    assert!(matches!(bedrock.endianness, Endianness::LittleEndian));
    assert!(matches!(bedrock.string_encoding, StringEncoding::Utf8));
    assert!(matches!(IoOptions::bedrock_uncompressed().compression, NbtCompression::Uncompressed));
    assert!(matches!(
        IoOptions::bedrock_network_uncompressed().endianness,
        Endianness::NetworkLittleEndian
    ));
}

#[test]
fn compression_levels() {
    let level = CompressionLevel::from(Compression::new(7));
    assert_eq!(Compression::from(level).level(), 7);
    assert_eq!(Compression::from(CompressionLevel::from(Compression::best())).level(), 9);
    let amulet = AmuletCompressionLevel::from(Compression::new(3));
    assert_eq!(Compression::from(amulet).level(), 3);
    assert_eq!(
        AmuletCompression::ZlibCompressedWith(amulet),
        AmuletCompression::ZlibCompressedWith(AmuletCompressionLevel::from(Compression::new(3)))
    );
}

#[test]
fn escape_sequence_sets() {
    let all = EnabledEscapeSequences::all_escapes();
    let none = EnabledEscapeSequences::no_escapes();
    for e in ALL {
        assert!(all.is_enabled(e));
        assert!(!none.is_enabled(e));
    }
    let ws = EnabledEscapeSequences::standard_whitespace_escapes();
    let one = EnabledEscapeSequences::one_character_escapes();
    let unicode = EnabledEscapeSequences::unicode_escapes();
    for (i, e) in ALL.into_iter().enumerate() {
        assert_eq!(e.bit() as usize, i);
        assert_eq!(ws.is_enabled(e), matches!(e, EscapeSequence::N | EscapeSequence::R | EscapeSequence::T));
        assert_eq!(one.is_enabled(e), i < 6);
        assert_eq!(unicode.is_enabled(e), i >= 6);
    }
    let custom = EnabledEscapeSequences::from_fn(|e| matches!(e, EscapeSequence::S | EscapeSequence::UnicodeNamed));
    for e in ALL {
        assert_eq!(custom.is_enabled(e), matches!(e, EscapeSequence::S | EscapeSequence::UnicodeNamed));
    }
}

#[test]
fn snbt_option_presets() {
    let updated = SnbtParseOptions::default_updated();
    assert!(matches!(updated.version, SnbtVersion::UpdatedJava));
    assert!(matches!(updated.true_false, ParseTrueFalse::AsDetected));
    assert!(matches!(updated.non_finite, ParseNonFinite::AsDetected));
    assert!(matches!(updated.handle_invalid_escape, HandleInvalidEscape::Error));
    assert!(updated.replace_non_finite);
    assert!(ALL.iter().all(|&e| updated.enabled_escape_sequences.is_enabled(e)));
    let original = SnbtParseOptions::default_original();
    assert!(matches!(original.version, SnbtVersion::Original));
    assert!(ALL.iter().all(|&e| !original.enabled_escape_sequences.is_enabled(e)));
    let write = SnbtWriteOptions::default_updated();
    assert!(matches!(write.non_finite, WriteNonFinite::PrintFloats));
    for e in ALL {
        let expected = !matches!(e, EscapeSequence::N | EscapeSequence::R | EscapeSequence::S);
        assert_eq!(write.enabled_escape_sequences.is_enabled(e), expected);
    }
    let write_original = SnbtWriteOptions::default_original();
    assert!(matches!(write_original.version, SnbtVersion::Original));
    assert!(ALL.iter().all(|&e| !write_original.enabled_escape_sequences.is_enabled(e)));
}

#[test]
fn encoding_presets() {
    let java = EncodingOptions::java();
    assert_eq!(java.endianness, AmuletEndianness::BigEndian);
    assert_eq!(java.compression, AmuletCompression::GzCompressed);
    assert_eq!(java.string_encoding, AmuletStringEncoding::Cesu8);
    let bedrock = EncodingOptions::bedrock();
    assert_eq!(bedrock.endianness, AmuletEndianness::LittleEndian);
    assert_eq!(bedrock.string_encoding, AmuletStringEncoding::Utf8);
    assert_eq!(Options::java_old().snbt_version, IoSnbtVersion::Other);
    assert_eq!(Options::java_new().snbt_version, IoSnbtVersion::UpdatedJava);
    assert_eq!(Options::bedrock().compression, IoCompression::GzCompressed);
}

#[test]
fn snbt_character_helpers() {
    for c in ['a', 'Z', '0', '_', '-', '.', '+'] {
        assert!(allowed_unquoted(c));
    }
    for c in [' ', ':', '"', 'é', '{'] {
        assert!(!allowed_unquoted(c));
    }
    for c in ['0', '9', '-', '.', '+'] {
        assert!(starts_unquoted_number(c));
    }
    for c in ['a', '_', ' '] {
        assert!(!starts_unquoted_number(c));
    }
    assert_eq!(chars_to_u8(['f', 'F']), Some(255));
    assert_eq!(chars_to_u8(['0', 'g']), None);
    assert_eq!(chars_to_u16(['1', 'a', '2', 'B']), Some(0x1A2B));
    assert_eq!(chars_to_u32(['d', 'e', 'a', 'd', 'b', 'e', 'e', 'f']), Some(0xDEADBEEF));
    assert_eq!(chars_to_u32(['d', 'e', 'a', 'd', 'b', 'e', 'e', 'x']), None);
    AmbiguousWord::ambiguous();
    assert_ne!(AmbiguousWord::True, AmbiguousWord::False);
}

#[test]
fn structure_errors() {
    match NbtStructureError::missing_tag("Name") {
        NbtStructureError::MissingTag { tag_name } => assert_eq!(&*tag_name, "Name"),
        other => panic!("unexpected {other:?}"),
    }
    assert!(matches!(
        NbtStructureError::invalid_index(4, 2),
        NbtStructureError::InvalidIndex { index: 4, length: 2 }
    ));
    assert!(matches!(
        NbtStructureError::type_mismatch("Int", "Byte"),
        NbtStructureError::TypeMismatch { expected: "Int", found: "Byte" }
    ));
    match NbtReprError::structure(NbtStructureError::invalid_index(1, 0)) {
        NbtReprError::Structure(e) => assert!(matches!(*e, NbtStructureError::InvalidIndex { index: 1, length: 0 })),
        other => panic!("unexpected {other:?}"),
    }
    let from: NbtReprError = NbtStructureError::invalid_index(2, 1).into();
    assert!(matches!(from, NbtReprError::Structure(_)));
    let custom = NbtReprError::Custom(anyhow::Error::msg("custom"));
    assert!(matches!(custom, NbtReprError::Custom(_)));
    let _ = AmuletReprError::Custom(anyhow::Error::msg("x"));
    let _: Option<NbtStructureErrorRepr> = None;
}

#[test]
fn nbt_error_messages() {
    assert_eq!(
        NbtIoError::InvalidTagId(0x1f).to_string(),
        "Encountered invalid tag ID 0x1F during deserialization"
    );
    assert_eq!(
        NbtIoError::NonHomogenousList { list_type: 10, encountered_type: 171 }.to_string(),
        "Encountered non-homogenous list or sequential type: expected A but found AB"
    );
    assert_eq!(
        NbtIoError::TagTypeMismatch { expected: 0, found: 12 }.to_string(),
        "Tag type mismatch: expected 0x0 but found 0xC"
    );
    assert_eq!(
        NbtIoError::UnsupportedType("u128").to_string(),
        "Type u128 is not supported by Minecraft's NBT format"
    );
    assert_eq!(NbtIoError::Custom("oops".into()).to_string(), "oops");
    assert_eq!(NbtStructureError::invalid_index(5, 3).to_string(), "Index out of range: 5 >= 3");
    assert_eq!(NbtStructureError::missing_tag("Name").to_string(), "Missing tag \"Name\"");
    assert_eq!(
        NbtStructureError::type_mismatch("Int", "Byte").to_string(),
        "Tag type mismatch: expected Int but found Byte"
    );
}
