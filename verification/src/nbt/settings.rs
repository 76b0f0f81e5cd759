//! Options for reading and writing NBT bytes, and for parsing and writing SNBT text.

use vstd::prelude::*;

use flate2::Compression;

use crate::compression::{compression_level, compression_new, flate2_compression, flate2_level};

verus! {

// ================================
//      Limits
// ================================

/// The recursive NBT tags (Compounds and Lists) can be nested up to (and including)
/// 512 levels deep in the standard specification.
#[derive(Debug, Clone, Copy)]
pub struct DepthLimit(pub(crate) u32);

impl View for DepthLimit {
    type V = u32;

    closed spec fn view(&self) -> u32 {
        self.0
    }
}

impl Default for DepthLimit {
    /// The maximum depth that NBT compounds and tags can be nested in the standard
    /// Minecraft specification.
    fn default() -> (res: Self)
        ensures
            res@ == 512,
    {
        DepthLimit(512)
    }
}

impl DepthLimit {
    /// The depth limit.
    pub fn limit(self) -> (res: u32)
        ensures
            res == self@,
    {
        self.0
    }

    /// A limit on how deeply the recursive NBT tags (Compounds and Lists) may be nested.
    pub fn new(limit: u32) -> (res: Self)
        ensures
            res@ == limit,
    {
        DepthLimit(limit)
    }
}

// ================================
//      IO Settings
// ================================

/// Encoding options for reading/writing NBT data from/to bytes.
#[derive(Debug, Clone, Copy)]
pub struct IoOptions {
    /// Endianness of numeric NBT data; `NetworkLittleEndian` also writes `i32` and `i64`
    /// values as varints.
    pub endianness: Endianness,
    /// Compression of NBT bytes.
    pub compression: NbtCompression,
    /// The byte encoding used by strings.
    pub string_encoding: StringEncoding,
    /// Whether invalid strings should be read as byte strings instead of causing errors.
    pub allow_invalid_strings: bool,
    /// The maximum depth that NBT compounds and tags can be recursively nested.
    pub depth_limit: DepthLimit,
}

impl IoOptions {
    /// Default Java encoding for NBT bytes
    pub fn java() -> (res: Self)
        ensures
            res.endianness == Endianness::BigEndian,
            res.compression == NbtCompression::GzipCompressed,
            res.string_encoding == StringEncoding::Cesu8,
            !res.allow_invalid_strings,
            res.depth_limit@ == 512,
    {
        IoOptions {
            endianness: Endianness::BigEndian,
            compression: NbtCompression::GzipCompressed,
            string_encoding: StringEncoding::Cesu8,
            allow_invalid_strings: false,
            depth_limit: DepthLimit::default(),
        }
    }

    /// Default Java encoding for NBT bytes, but with no compression
    pub fn java_uncompressed() -> (res: Self)
        ensures
            res.endianness == Endianness::BigEndian,
            res.compression == NbtCompression::Uncompressed,
            res.string_encoding == StringEncoding::Cesu8,
            !res.allow_invalid_strings,
            res.depth_limit@ == 512,
    {
        IoOptions { compression: NbtCompression::Uncompressed, ..Self::java() }
    }

    /// Default Bedrock encoding for NBT bytes
    pub fn bedrock() -> (res: Self)
        ensures
            res.endianness == Endianness::LittleEndian,
            res.compression == NbtCompression::GzipCompressed,
            res.string_encoding == StringEncoding::Utf8,
            !res.allow_invalid_strings,
            res.depth_limit@ == 512,
    {
        IoOptions {
            endianness: Endianness::LittleEndian,
            compression: NbtCompression::GzipCompressed,
            string_encoding: StringEncoding::Utf8,
            allow_invalid_strings: false,
            depth_limit: DepthLimit::default(),
        }
    }

    /// Default Bedrock encoding for NBT bytes, but with no compression
    pub fn bedrock_uncompressed() -> (res: Self)
        ensures
            res.endianness == Endianness::LittleEndian,
            res.compression == NbtCompression::Uncompressed,
            res.string_encoding == StringEncoding::Utf8,
            !res.allow_invalid_strings,
            res.depth_limit@ == 512,
    {
        IoOptions { compression: NbtCompression::Uncompressed, ..Self::bedrock() }
    }

    /// Bedrock encoding for NBT bytes with `NetworkLittleEndian` endianness and no compression.
    pub fn bedrock_network_uncompressed() -> (res: Self)
        ensures
            res.endianness == Endianness::NetworkLittleEndian,
            res.compression == NbtCompression::Uncompressed,
            res.string_encoding == StringEncoding::Utf8,
            !res.allow_invalid_strings,
            res.depth_limit@ == 512,
    {
        IoOptions {
            endianness: Endianness::NetworkLittleEndian,
            compression: NbtCompression::Uncompressed,
            string_encoding: StringEncoding::Utf8,
            allow_invalid_strings: false,
            depth_limit: DepthLimit::default(),
        }
    }
}

/// Endianness of NBT bytes.
#[derive(Debug, Clone, Copy)]
pub enum Endianness {
    /// Used by Java
    BigEndian,
    /// Used by Bedrock for numeric information
    LittleEndian,
    /// Used by Bedrock to serialize NBT over a network with variable-length encodings
    /// of 32- and 64-bit integers.
    NetworkLittleEndian,
}

/// The compression options for NBT data: uncompressed, Zlib-compressed and Gzip-compressed.
#[derive(Debug, Clone, Copy)]
pub enum NbtCompression {
    /// Uncompressed NBT data.
    Uncompressed,
    /// Zlib-compressed NBT data. When writing, the default compression level will be used.
    ZlibCompressed,
    /// Zlib-compressed NBT data with the given compression level.
    ZlibCompressedWith(CompressionLevel),
    /// Gzip-compressed NBT data. When writing, the default compression level will be used.
    GzipCompressed,
    /// Gzip-compressed NBT data with the given compression level.
    GzipCompressedWith(CompressionLevel),
}

/// A compression level, from 0 to 9 in practice.
#[derive(Debug, Clone, Copy)]
pub struct CompressionLevel(u8);

impl View for CompressionLevel {
    type V = u8;

    closed spec fn view(&self) -> u8 {
        self.0
    }
}

impl From<Compression> for CompressionLevel {
    /// The level of `value`, truncated to a `u8`. (Only levels 0-9 are used in practice.)
    fn from(value: Compression) -> (res: Self) {
        CompressionLevel(compression_level(&value) as u8)
    }
}

impl vstd::std_specs::convert::FromSpecImpl<Compression> for CompressionLevel {
    open spec fn obeys_from_spec() -> bool {
        true
    }

    closed spec fn from_spec(value: Compression) -> CompressionLevel {
        CompressionLevel(flate2_level(value) as u8)
    }
}

impl From<CompressionLevel> for Compression {
    fn from(value: CompressionLevel) -> (res: Self) {
        compression_new(value.0 as u32)
    }
}

impl vstd::std_specs::convert::FromSpecImpl<CompressionLevel> for Compression {
    open spec fn obeys_from_spec() -> bool {
        true
    }

    closed spec fn from_spec(value: CompressionLevel) -> Compression {
        flate2_compression(value.0 as u32)
    }
}

/// Converting a compression level to a `flate2` compression and back gives the same level.
pub proof fn lemma_compression_level_roundtrip(level: CompressionLevel)
    requires
        flate2_level(flate2_compression(level@ as u32)) == level@ as u32,
    ensures
        <CompressionLevel as vstd::std_specs::convert::FromSpec<Compression>>::from_spec(
            <Compression as vstd::std_specs::convert::FromSpec<CompressionLevel>>::from_spec(
                level,
            ),
        )@ == level@,
{
}

/// String encodings used by Minecraft. Java is CESU-8, Bedrock is probably always UTF-8.
#[derive(Debug, Clone, Copy)]
pub enum StringEncoding {
    /// Used by Bedrock
    Utf8,
    /// Used by Java
    Cesu8,
}

// ================================
//      SNBT Options
// ================================

/// Which version of the SNBT specification should be used to convert between NBT and SNBT.
#[derive(Debug, Clone, Copy)]
pub enum SnbtVersion {
    /// For Java 1.21.5 and later.
    UpdatedJava,
    /// For Java before 1.21.5, or Bedrock Edition.
    Original,
}

/// Options for parsing SNBT data into NBT data.
#[derive(Debug, Clone, Copy)]
pub struct SnbtParseOptions {
    /// Version of the SNBT format used.
    pub version: SnbtVersion,
    /// The maximum depth that NBT compounds and tags can be recursively nested.
    pub depth_limit: DepthLimit,
    /// How the unquoted symbols `true` and `false` should be parsed.
    pub true_false: ParseTrueFalse,
    /// How unquoted symbols like `Infinityf` which likely came from infinite floats
    /// should be parsed.
    pub non_finite: ParseNonFinite,
    /// Whether infinite floating-point numbers should be replaced with finite values.
    pub replace_non_finite: bool,
    /// The escape sequences which will be parsed in SNBT quoted strings.
    pub enabled_escape_sequences: EnabledEscapeSequences,
    /// How to handle an escape sequence not in the list of enabled escape sequences.
    pub handle_invalid_escape: HandleInvalidEscape,
}

impl SnbtParseOptions {
    /// The default settings for the `UpdatedJava` version
    pub fn default_updated() -> (res: Self)
        ensures
            res.version == SnbtVersion::UpdatedJava,
            res.depth_limit@ == 512,
            res.true_false == ParseTrueFalse::AsDetected,
            res.non_finite == ParseNonFinite::AsDetected,
            res.replace_non_finite,
            res.enabled_escape_sequences@ == 0xFFFF,
            res.handle_invalid_escape == HandleInvalidEscape::Error,
    {
        SnbtParseOptions {
            version: SnbtVersion::UpdatedJava,
            depth_limit: DepthLimit::default(),
            true_false: ParseTrueFalse::AsDetected,
            non_finite: ParseNonFinite::AsDetected,
            replace_non_finite: true,
            enabled_escape_sequences: EnabledEscapeSequences::all_escapes(),
            handle_invalid_escape: HandleInvalidEscape::Error,
        }
    }

    /// The default settings for the `Original` version
    pub fn default_original() -> (res: Self)
        ensures
            res.version == SnbtVersion::Original,
            res.depth_limit@ == 512,
            res.true_false == ParseTrueFalse::AsDetected,
            res.non_finite == ParseNonFinite::AsDetected,
            res.replace_non_finite,
            res.enabled_escape_sequences@ == 0,
            res.handle_invalid_escape == HandleInvalidEscape::Error,
    {
        SnbtParseOptions {
            version: SnbtVersion::Original,
            depth_limit: DepthLimit::default(),
            true_false: ParseTrueFalse::AsDetected,
            non_finite: ParseNonFinite::AsDetected,
            replace_non_finite: true,
            enabled_escape_sequences: EnabledEscapeSequences::no_escapes(),
            handle_invalid_escape: HandleInvalidEscape::Error,
        }
    }
}

/// How the unquoted symbols `true` and `false` are parsed.
#[derive(Debug, Clone, Copy)]
pub enum ParseTrueFalse {
    AsByte,
    AsDetected,
    AsString,
}

/// How unquoted symbols that likely came from non-finite floats are parsed.
#[derive(Debug, Clone, Copy)]
pub enum ParseNonFinite {
    AsDetected,
    AsFloat,
    AsString,
    Error,
}

/// How to handle an invalid or disabled escape sequence in a quoted string when parsing SNBT.
#[derive(Debug, Clone, Copy)]
pub enum HandleInvalidEscape {
    /// Copy the escape sequence verbatim into the final string
    CopyVerbatim,
    /// Ignore the escape sequence, act as though it's not there
    Ignore,
    /// Halt parsing and return with an error
    Error,
}

/// Options for writing NBT data to SNBT.
#[derive(Debug, Clone, Copy)]
pub struct SnbtWriteOptions {
    /// Version of the SNBT format used.
    pub version: SnbtVersion,
    /// The maximum depth that NBT compounds and tags can be recursively nested.
    pub depth_limit: DepthLimit,
    /// How to print an infinite or NaN float/double tag.
    pub non_finite: WriteNonFinite,
    /// Which escape sequences will be used when writing an NBT string tag into a quoted
    /// SNBT string.
    pub enabled_escape_sequences: EnabledEscapeSequences,
}

impl SnbtWriteOptions {
    /// The default settings for the `UpdatedJava` version: all escapes except `\n`, `\r`
    /// and `\s`.
    pub fn default_updated() -> (res: Self)
        ensures
            res.version == SnbtVersion::UpdatedJava,
            res.depth_limit@ == 512,
            res.non_finite == WriteNonFinite::PrintFloats,
            forall|e: EscapeSequence|
                #![trigger res.enabled_escape_sequences.spec_is_enabled(e)]
                res.enabled_escape_sequences.spec_is_enabled(e) == !(e is N || e is R || e is S),
            res.enabled_escape_sequences@ < 0x400,
    {
        SnbtWriteOptions {
            version: SnbtVersion::UpdatedJava,
            depth_limit: DepthLimit::default(),
            non_finite: WriteNonFinite::PrintFloats,
            enabled_escape_sequences: EnabledEscapeSequences::from_fn(written_by_default),
        }
    }

    /// The default settings for the `Original` version.
    pub fn default_original() -> (res: Self)
        ensures
            res.version == SnbtVersion::Original,
            res.depth_limit@ == 512,
            res.non_finite == WriteNonFinite::PrintFloats,
            res.enabled_escape_sequences@ == 0,
    {
        SnbtWriteOptions {
            version: SnbtVersion::Original,
            depth_limit: DepthLimit::default(),
            non_finite: WriteNonFinite::PrintFloats,
            enabled_escape_sequences: EnabledEscapeSequences::no_escapes(),
        }
    }
}

/// How to print infinite or NaN float and double tags in SNBT.
#[derive(Debug, Clone, Copy)]
pub enum WriteNonFinite {
    /// Display positive infinity as the `MAX` constant, negative infinity as `MIN`,
    /// and NaN as `0.`.
    PrintFloats,
    /// Display them as `Infinityd`, `-Infinityf`, `NaNd` and the like.
    PrintStrings,
}

/// Escape sequences which are enabled when reading or writing quoted SNBT strings.
/// The escapes `\\`, `\'`, and `\"` are always allowed; these settings do not control them.
#[derive(Debug, Clone, Copy)]
pub struct EnabledEscapeSequences(u16);

impl View for EnabledEscapeSequences {
    /// One bit per escape sequence, at the position `EscapeSequence::spec_bit` gives.
    type V = u16;

    closed spec fn view(&self) -> u16 {
        self.0
    }
}

impl EnabledEscapeSequences {
    /// Whether the bit of `escape` is set.
    pub open spec fn spec_is_enabled(self, escape: EscapeSequence) -> bool {
        bit_is_set(self@, escape.spec_bit())
    }

    /// Enables the escape sequences for which the provided function returns `true`.
    pub fn from_fn<F: Fn(EscapeSequence) -> bool>(f: F) -> (res: Self)
        requires
            forall|e: EscapeSequence| call_requires(f, (e,)),
        ensures
            forall|e: EscapeSequence| call_ensures(f, (e,), #[trigger] res.spec_is_enabled(e)),
            res@ < 0x400,
    {
        let escapes = [
            EscapeSequence::B,
            EscapeSequence::F,
            EscapeSequence::N,
            EscapeSequence::R,
            EscapeSequence::S,
            EscapeSequence::T,
            EscapeSequence::UnicodeTwo,
            EscapeSequence::UnicodeFour,
            EscapeSequence::UnicodeEight,
            EscapeSequence::UnicodeNamed,
        ];
        let mut bits: u16 = 0;
        let mut i: usize = 0;
        let ghost mut answers: Seq<bool> = Seq::empty();
        proof {
            assert forall|j: u16| j < 16 implies !(#[trigger] bit_is_set(bits, j)) by {
                lemma_zero_bits(j);
            }
            assert(0u16 < (1u16 << 0u16)) by (bit_vector);
        }
        while i < 10
            invariant
                i <= 10,
                forall|j: int| 0 <= j < 10 ==> (#[trigger] escapes@[j]).spec_bit() == j,
                forall|e: EscapeSequence| call_requires(f, (e,)),
                answers.len() == i,
                forall|j: int|
                    0 <= j < i ==> call_ensures(f, (escapes@[j],), #[trigger] answers[j]),
                forall|j: u16|
                    j < 16 ==> (#[trigger] bit_is_set(bits, j) <==> (j < i && answers[j as int])),
                bits < (1u16 << (i as u16)),
            decreases 10 - i,
        {
            let escape = escapes[i];
            let enabled = f(escape);
            let bit = escape.bit();
            let ghost old_bits = bits;
            let ghost ii = i as u16;
            if enabled {
                bits = bits | (1u16 << bit);
            }
            proof {
                assert(bit == ii);
                assert forall|j: u16| j < 16 implies (#[trigger] bit_is_set(bits, j) <==> (j < ii
                    + 1 && (if j == ii {
                    enabled
                } else {
                    answers[j as int]
                }))) by {
                    if enabled {
                        lemma_set_bit(old_bits, ii, j);
                    }
                    if j == ii && !enabled {
                        lemma_bit_above(old_bits, ii);
                    }
                }
                lemma_bound_step(old_bits, ii, enabled);
                answers = answers.push(enabled);
            }
            i = i + 1;
        }
        let res = EnabledEscapeSequences(bits);
        proof {
            assert forall|e: EscapeSequence| call_ensures(f, (e,), #[trigger] res.spec_is_enabled(e)) by {
                let j = e.spec_bit();
                assert(escapes@[j as int] == e);
                assert(bit_is_set(bits, j) == answers[j as int]);
                assert(res@ == bits);
                assert(res.spec_is_enabled(e) == answers[j as int]);
                assert(call_ensures(f, (e,), answers[j as int]));
            }
            assert(bits < 0x400) by (bit_vector)
                requires
                    bits < (1u16 << 10u16),
            ;
        }
        res
    }

    /// Enables all escape sequences.
    pub fn all_escapes() -> (res: Self)
        ensures
            res@ == 0xFFFF,
            forall|e: EscapeSequence| #[trigger] res.spec_is_enabled(e),
    {
        let res = EnabledEscapeSequences(0xFFFF);
        proof {
            assert forall|e: EscapeSequence| #[trigger] res.spec_is_enabled(e) by {
                let b = e.spec_bit();
                assert(b < 16 ==> 0xFFFFu16 & (1u16 << b) != 0) by (bit_vector);
                assert(b < 16);
            }
        }
        res
    }

    /// Disables all escape sequences.
    pub fn no_escapes() -> (res: Self)
        ensures
            res@ == 0,
            forall|e: EscapeSequence| !#[trigger] res.spec_is_enabled(e),
    {
        let res = EnabledEscapeSequences(0);
        proof {
            assert forall|e: EscapeSequence| !#[trigger] res.spec_is_enabled(e) by {
                lemma_zero_bits(e.spec_bit());
            }
        }
        res
    }

    /// Enables `\n` (newline), `\r` (carriage return), and `\t` (horizontal tab).
    pub fn standard_whitespace_escapes() -> (res: Self)
        ensures
            forall|e: EscapeSequence|
                #[trigger] res.spec_is_enabled(e) == (e is N || e is R || e is T),
            res@ < 0x400,
    {
        Self::from_fn(is_standard_whitespace_escape)
    }

    /// Enables `\b`, `\f`, `\n`, `\r`, `\s`, and `\t`.
    pub fn one_character_escapes() -> (res: Self)
        ensures
            forall|e: EscapeSequence|
                #[trigger] res.spec_is_enabled(e) == (e is B || e is F || e is N || e is R || e is S
                    || e is T),
            res@ < 0x400,
    {
        Self::from_fn(is_one_character_escape)
    }

    /// Enables unicode escapes: `\x`, `\u`, `\U`, and `\N{----}`.
    pub fn unicode_escapes() -> (res: Self)
        ensures
            forall|e: EscapeSequence|
                #[trigger] res.spec_is_enabled(e) == (e is UnicodeTwo || e is UnicodeFour
                    || e is UnicodeEight || e is UnicodeNamed),
            res@ < 0x400,
    {
        Self::from_fn(is_unicode_escape)
    }

    /// Whether the provided escape sequence is enabled
    pub fn is_enabled(self, escape: EscapeSequence) -> (res: bool)
        ensures
            res == self.spec_is_enabled(escape),
    {
        0 != self.0 & (1u16 << escape.bit())
    }
}

/// Whether an escape sequence is used by default when writing updated SNBT:
/// every one except `\n`, `\r` and `\s`.
fn written_by_default(e: EscapeSequence) -> (r: bool)
    ensures
        r == !(e is N || e is R || e is S),
{
    match e {
        EscapeSequence::N => false,
        EscapeSequence::R => false,
        EscapeSequence::S => false,
        _ => true,
    }
}

/// Whether an escape sequence is `\n`, `\r` or `\t`.
fn is_standard_whitespace_escape(escape: EscapeSequence) -> (r: bool)
    ensures
        r == (escape is N || escape is R || escape is T),
{
    match escape {
        EscapeSequence::N => true,
        EscapeSequence::R => true,
        EscapeSequence::T => true,
        _ => false,
    }
}

/// Whether an escape sequence is one of the one-character escapes.
fn is_one_character_escape(escape: EscapeSequence) -> (r: bool)
    ensures
        r == (escape is B || escape is F || escape is N || escape is R || escape is S || escape is T),
{
    match escape {
        EscapeSequence::B => true,
        EscapeSequence::F => true,
        EscapeSequence::N => true,
        EscapeSequence::R => true,
        EscapeSequence::S => true,
        EscapeSequence::T => true,
        _ => false,
    }
}

/// Whether an escape sequence is one of the unicode escapes.
fn is_unicode_escape(escape: EscapeSequence) -> (r: bool)
    ensures
        r == (escape is UnicodeTwo || escape is UnicodeFour || escape is UnicodeEight
            || escape is UnicodeNamed),
{
    match escape {
        EscapeSequence::UnicodeTwo => true,
        EscapeSequence::UnicodeFour => true,
        EscapeSequence::UnicodeEight => true,
        EscapeSequence::UnicodeNamed => true,
        _ => false,
    }
}

/// Whether bit `j` of `bits` is set.
pub open spec fn bit_is_set(bits: u16, j: u16) -> bool {
    bits & (1u16 << j) != 0
}

proof fn lemma_zero_bits(j: u16)
    ensures
        !bit_is_set(0, j),
{
    assert(0u16 & (1u16 << j) == 0) by (bit_vector);
}

proof fn lemma_set_bit(bits: u16, i: u16, j: u16)
    requires
        i < 16,
        j < 16,
    ensures
        bit_is_set(bits | (1u16 << i), j) == (bit_is_set(bits, j) || j == i),
{
    assert(((bits | (1u16 << i)) & (1u16 << j) != 0) == ((bits & (1u16 << j) != 0) || j == i))
        by (bit_vector)
        requires
            i < 16,
            j < 16,
    ;
}

proof fn lemma_bit_above(bits: u16, i: u16)
    requires
        i < 16,
        bits < (1u16 << i),
    ensures
        !bit_is_set(bits, i),
{
    assert(bits & (1u16 << i) == 0) by (bit_vector)
        requires
            i < 16,
            bits < (1u16 << i),
    ;
}

proof fn lemma_bound_step(bits: u16, i: u16, set: bool)
    requires
        i < 15,
        bits < (1u16 << i),
    ensures
        (if set {
            bits | (1u16 << i)
        } else {
            bits
        }) < (1u16 << ((i + 1) as u16)),
{
    assert(bits | (1u16 << i) < (1u16 << ((i + 1) as u16)) && bits < (1u16 << ((i + 1) as u16)))
        by (bit_vector)
        requires
            i < 15,
            bits < (1u16 << i),
    ;
}

/// The various escape sequences allowed in SNBT
#[derive(Debug, Clone, Copy)]
pub enum EscapeSequence {
    /// `\b`, backspace
    B,
    /// `\f`, form feed
    F,
    /// `\n`, newline
    N,
    /// `\r`, carriage return
    R,
    /// `\s`, space
    S,
    /// `\t`, horizontal tab
    T,
    /// `\x--`, two-character unicode escapes
    UnicodeTwo,
    /// `\u----`, four-character unicode escapes
    UnicodeFour,
    /// `\U--------`, eight-character unicode escapes
    UnicodeEight,
    /// `\N{----}`, named unicode escapes.
    UnicodeNamed,
}

impl EscapeSequence {
    /// The bit that stands for this escape sequence in `EnabledEscapeSequences`:
    /// its position in the list of variants.
    pub open spec fn spec_bit(self) -> u16 {
        match self {
            EscapeSequence::B => 0,
            EscapeSequence::F => 1,
            EscapeSequence::N => 2,
            EscapeSequence::R => 3,
            EscapeSequence::S => 4,
            EscapeSequence::T => 5,
            EscapeSequence::UnicodeTwo => 6,
            EscapeSequence::UnicodeFour => 7,
            EscapeSequence::UnicodeEight => 8,
            EscapeSequence::UnicodeNamed => 9,
        }
    }

    /// The bit that stands for this escape sequence in `EnabledEscapeSequences`.
    pub fn bit(self) -> (res: u16)
        ensures
            res == self.spec_bit(),
    {
        match self {
            EscapeSequence::B => 0,
            EscapeSequence::F => 1,
            EscapeSequence::N => 2,
            EscapeSequence::R => 3,
            EscapeSequence::S => 4,
            EscapeSequence::T => 5,
            EscapeSequence::UnicodeTwo => 6,
            EscapeSequence::UnicodeFour => 7,
            EscapeSequence::UnicodeEight => 8,
            EscapeSequence::UnicodeNamed => 9,
        }
    }
}


/// Each escape sequence has its own bit in `EnabledEscapeSequences`: its position in the list
/// `\b`, `\f`, `\n`, `\r`, `\s`, `\t`, `\x`, `\u`, `\U`, `\N`.
pub proof fn lemma_escape_sequence_bits()
    ensures
        EscapeSequence::B.spec_bit() == 0u16,
        EscapeSequence::F.spec_bit() == 1u16,
        EscapeSequence::N.spec_bit() == 2u16,
        EscapeSequence::R.spec_bit() == 3u16,
        EscapeSequence::S.spec_bit() == 4u16,
        EscapeSequence::T.spec_bit() == 5u16,
        EscapeSequence::UnicodeTwo.spec_bit() == 6u16,
        EscapeSequence::UnicodeFour.spec_bit() == 7u16,
        EscapeSequence::UnicodeEight.spec_bit() == 8u16,
        EscapeSequence::UnicodeNamed.spec_bit() == 9u16,
{
}

} // verus!
