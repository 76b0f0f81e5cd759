//! The options with which NBT data is read and written.

use vstd::prelude::*;

use std::io::{Read, Write};

use flate2::read::GzDecoder;
use flate2::write::GzEncoder;
use flate2::Compression;
use vstd::slice::slice_subrange;

use crate::iron_nbt::tag::{
    lemma_body_roundtrip, lemma_string_roundtrip, read_string, read_tag_body_dyn, spec_body_bytes,
    spec_entry_values, spec_read_string, spec_string_bytes, spec_string_ok, spec_tag_body,
    spec_wf, write_compound, write_string, NbtCompound, NbtTag, TagValue,
};
use crate::leveldb::{zlib_decode, zlib_decoded, zlib_encode, zlib_encoded};

use crate::compression::{
    compression_default, compression_level, compression_new, flate2_compression, flate2_level,
};
use crate::text::{push_hex, push_str, spec_hex, string_from_chars};

verus! {

/// How NBT data is read and written.
#[derive(Debug, Eq, PartialEq, Copy, Clone, Structural)]
pub struct Options {
    /// Bedrock edition is LittleEndian, Java is BigEndian
    pub endianness: Endianness,
    pub compression: NBTCompression,
    /// Java is CESU-8, Bedrock is probably UTF-8
    pub string_encoding: StringEncoding,
    /// Java 1.21.5 changes SNBT, though NBT remains unchanged
    pub snbt_version: SnbtVersion,
}

impl Options {
    /// Java before 1.21.5: big endian, Gz compressed, CESU-8, the older SNBT.
    pub fn java_old() -> (res: Self)
        ensures
            res == (Options {
                endianness: Endianness::BigEndian,
                compression: NBTCompression::GzCompressed,
                string_encoding: StringEncoding::Cesu8,
                snbt_version: SnbtVersion::Other,
            }),
    {
        Options {
            endianness: Endianness::BigEndian,
            compression: NBTCompression::GzCompressed,
            string_encoding: StringEncoding::Cesu8,
            snbt_version: SnbtVersion::Other,
        }
    }

    /// Java 1.21.5 and later: big endian, Gz compressed, CESU-8, the updated SNBT.
    pub fn java_new() -> (res: Self)
        ensures
            res == (Options {
                endianness: Endianness::BigEndian,
                compression: NBTCompression::GzCompressed,
                string_encoding: StringEncoding::Cesu8,
                snbt_version: SnbtVersion::UpdatedJava,
            }),
    {
        Options {
            endianness: Endianness::BigEndian,
            compression: NBTCompression::GzCompressed,
            string_encoding: StringEncoding::Cesu8,
            snbt_version: SnbtVersion::UpdatedJava,
        }
    }

    /// Bedrock: little endian, Gz compressed, UTF-8, the older SNBT.
    pub fn bedrock() -> (res: Self)
        ensures
            res == (Options {
                endianness: Endianness::LittleEndian,
                compression: NBTCompression::GzCompressed,
                string_encoding: StringEncoding::Utf8,
                snbt_version: SnbtVersion::Other,
            }),
    {
        Options {
            endianness: Endianness::LittleEndian,
            compression: NBTCompression::GzCompressed,
            string_encoding: StringEncoding::Utf8,
            snbt_version: SnbtVersion::Other,
        }
    }
}

/// Endianness of stored NBT
#[derive(Debug, Eq, PartialEq, Copy, Clone, Structural)]
pub enum Endianness {
    /// Used by Java
    BigEndian,
    /// Used by Bedrock for numeric information
    LittleEndian,
}

/// Describes the compression options for NBT data: uncompressed, Zlib compressed and Gz compressed.
#[derive(Debug, Eq, PartialEq, Copy, Clone, Structural)]
pub enum NBTCompression {
    /// Uncompressed NBT data.
    Uncompressed,
    /// Zlib compressed NBT data. When writing, the default compression level will be used.
    ZlibCompressed,
    /// Zlib compressed NBT data with the given compression level.
    ZlibCompressedWith(CompressionLevel),
    /// Gz compressed NBT data. When writing, the default compression level will be used.
    GzCompressed,
    /// Gz compressed NBT data with the given compression level.
    GzCompressedWith(CompressionLevel),
}

/// A compression level, from 0 to 9 in practice.
#[derive(Debug, Eq, PartialEq, Copy, Clone, Structural)]
pub struct CompressionLevel(u8);

impl View for CompressionLevel {
    type V = u8;

    closed spec fn view(&self) -> u8 {
        self.0
    }
}

impl From<Compression> for CompressionLevel {
    /// The level of `value`, truncated to a `u8`. (Only levels 0-9 are used in practice.)
    fn from(value: Compression) -> (res: Self)
        ensures
            res@ == flate2_level(value) as u8,
    {
        CompressionLevel(compression_level(&value) as u8)
    }
}

impl vstd::std_specs::convert::FromSpecImpl<Compression> for CompressionLevel {
    open spec fn obeys_from_spec() -> bool {
        true
    }

    closed spec fn from_spec(value: Compression) -> CompressionLevel {
        CompressionLevel(flate2_level(value) as u8)
    }
}

impl From<CompressionLevel> for Compression {
    fn from(value: CompressionLevel) -> (res: Self)
        ensures
            res == flate2_compression(value@ as u32),
            flate2_level(res) == value@ as u32,
    {
        compression_new(value.0 as u32)
    }
}

impl vstd::std_specs::convert::FromSpecImpl<CompressionLevel> for Compression {
    open spec fn obeys_from_spec() -> bool {
        true
    }

    closed spec fn from_spec(value: CompressionLevel) -> Compression {
        flate2_compression(value.0 as u32)
    }
}

/// String encodings used by Minecraft.
#[derive(Debug, Eq, PartialEq, Copy, Clone, Structural)]
pub enum StringEncoding {
    /// Used by Bedrock
    Utf8,
    /// Used by Java
    Cesu8,
}

/// Which SNBT format is used.
#[derive(Debug, Eq, PartialEq, Copy, Clone, Structural)]
pub enum SnbtVersion {
    /// For Java 1.21.5 and later
    UpdatedJava,
    /// For Java before 1.21.5, or Bedrock
    Other,
}

/// A native I/O error, which values of this library carry without looking inside.
#[verifier::external_type_specification]
#[verifier::external_body]
pub struct ExIoError(std::io::Error);

/// Describes an error which occurred during the reading or writing of NBT data.
#[derive(Debug)]
pub enum NbtIoError {
    /// A native I/O error.
    StdIo(std::io::Error),
    /// No root tag was found. All NBT data must start with a valid compound tag.
    MissingRootTag,
    /// A sequential data structure was found to be non-homogenous. All sequential structures
    /// in NBT data are homogenous.
    NonHomogenousList {
        /// The list type.
        list_type: u8,
        /// The encountered type.
        encountered_type: u8,
    },
    /// A type requested an option to be read from a list. Since options are indicated by the
    /// absence or presence of a tag, and since all sequential types are length-prefixed,
    /// options cannot exists within arrays in NBT data.
    OptionInList,
    /// A sequential type without a definite length was passed to a serializer.
    MissingLength,
    /// An invalid tag ID was encountered.
    InvalidTagId(u8),
    /// The first tag ID was expected, but the second was found.
    TagTypeMismatch {
        /// The expected ID.
        expected: u8,
        /// The found ID.
        found: u8,
    },
    /// A sequential type was expected, but another was found.
    ExpectedSeq,
    /// An enum representation was expected, but another was found.
    ExpectedEnum,
    /// An invalid map key was encountered.
    InvalidKey,
    /// An invalid enum variant was encountered.
    InvalidEnumVariant,
    /// An invalid cesu8 string was encountered.
    InvalidCesu8String,
    /// An invalid utf8 string was encountered.
    InvalidUtf8String,
    /// An unsupported type was passed to a serializer or queried from a deserializer.
    UnsupportedType(&'static str),
    /// A custom error message.
    Custom(Box<str>),
}

impl From<std::io::Error> for NbtIoError {
    fn from(error: std::io::Error) -> (res: Self) {
        NbtIoError::StdIo(error)
    }
}

impl vstd::std_specs::convert::FromSpecImpl<std::io::Error> for NbtIoError {
    open spec fn obeys_from_spec() -> bool {
        true
    }

    open spec fn from_spec(error: std::io::Error) -> NbtIoError {
        NbtIoError::StdIo(error)
    }
}

/// The message of a native I/O error, as its `Display` shows it. It depends on the system, so
/// nothing is said of it.
#[verifier::external_body]
pub(crate) fn io_error_text(error: &std::io::Error) -> String {
    format!("{}", error)
}

/// The message of an NBT I/O error, as its `Display` shows it; `None` for a native I/O error,
/// whose message depends on the system.
pub open spec fn spec_io_error_message(error: NbtIoError) -> Option<Seq<char>> {
    match error {
        NbtIoError::StdIo(_) => None,
        NbtIoError::MissingRootTag => Some("NBT tree does not start with a valid root tag."@),
        NbtIoError::NonHomogenousList { list_type, encountered_type } => Some(
            "Encountered non-homogenous list or sequential type: expected "@ + spec_hex(
                list_type as nat,
            ) + " but found "@ + spec_hex(encountered_type as nat),
        ),
        NbtIoError::OptionInList => Some(
            "Minecraft's NBT format cannot support options in sequential data structures"@,
        ),
        NbtIoError::MissingLength => Some(
            "Sequential types must have an initial computable length to be serializable"@,
        ),
        NbtIoError::InvalidTagId(id) => Some(
            "Encountered invalid tag ID 0x"@ + spec_hex(id as nat) + " during deserialization"@,
        ),
        NbtIoError::TagTypeMismatch { expected, found } => Some(
            "Tag type mismatch: expected 0x"@ + spec_hex(expected as nat) + " but found 0x"@
                + spec_hex(found as nat),
        ),
        NbtIoError::ExpectedSeq => Some("Expected sequential tag type (array)"@),
        NbtIoError::ExpectedEnum => Some(
            "Encountered invalid enum representation in the NBT tag tree"@,
        ),
        NbtIoError::InvalidKey => Some("Map keys must be a valid string"@),
        NbtIoError::InvalidEnumVariant => Some(
            "Encountered invalid enum variant while deserializing"@,
        ),
        NbtIoError::InvalidCesu8String => Some("Encountered invalid CESU8 string"@),
        NbtIoError::InvalidUtf8String => Some("Encountered invalid UTF8 string"@),
        NbtIoError::UnsupportedType(ty) => Some(
            "Type "@ + ty@ + " is not supported by Minecraft's NBT format"@,
        ),
        NbtIoError::Custom(msg) => Some(msg@),
    }
}

impl NbtIoError {
    /// The message of this error, as its `Display` shows it.
    pub fn to_string(&self) -> (res: String)
        ensures
            spec_io_error_message(*self) matches Some(message) ==> res@ == message,
    {
        let mut out: Vec<char> = Vec::new();
        match self {
            NbtIoError::StdIo(error) => {
                return io_error_text(error);
            },
            NbtIoError::MissingRootTag => {
                push_str(&mut out, "NBT tree does not start with a valid root tag.");
            },
            NbtIoError::NonHomogenousList { list_type, encountered_type } => {
                push_str(&mut out, "Encountered non-homogenous list or sequential type: expected ");
                push_hex(&mut out, *list_type as u64);
                push_str(&mut out, " but found ");
                push_hex(&mut out, *encountered_type as u64);
            },
            NbtIoError::OptionInList => {
                push_str(
                    &mut out,
                    "Minecraft's NBT format cannot support options in sequential data structures",
                );
            },
            NbtIoError::MissingLength => {
                push_str(
                    &mut out,
                    "Sequential types must have an initial computable length to be serializable",
                );
            },
            NbtIoError::InvalidTagId(id) => {
                push_str(&mut out, "Encountered invalid tag ID 0x");
                push_hex(&mut out, *id as u64);
                push_str(&mut out, " during deserialization");
            },
            NbtIoError::TagTypeMismatch { expected, found } => {
                push_str(&mut out, "Tag type mismatch: expected 0x");
                push_hex(&mut out, *expected as u64);
                push_str(&mut out, " but found 0x");
                push_hex(&mut out, *found as u64);
            },
            NbtIoError::ExpectedSeq => {
                push_str(&mut out, "Expected sequential tag type (array)");
            },
            NbtIoError::ExpectedEnum => {
                push_str(&mut out, "Encountered invalid enum representation in the NBT tag tree");
            },
            NbtIoError::InvalidKey => {
                push_str(&mut out, "Map keys must be a valid string");
            },
            NbtIoError::InvalidEnumVariant => {
                push_str(&mut out, "Encountered invalid enum variant while deserializing");
            },
            NbtIoError::InvalidCesu8String => {
                push_str(&mut out, "Encountered invalid CESU8 string");
            },
            NbtIoError::InvalidUtf8String => {
                push_str(&mut out, "Encountered invalid UTF8 string");
            },
            NbtIoError::UnsupportedType(ty) => {
                push_str(&mut out, "Type ");
                push_str(&mut out, ty);
                push_str(&mut out, " is not supported by Minecraft's NBT format");
            },
            NbtIoError::Custom(msg) => {
                push_str(&mut out, &**msg);
            },
        }
        assert(spec_io_error_message(*self) matches Some(message) && out@ =~= message);
        string_from_chars(out.as_slice())
    }
}

// ================================
//  Reading NBT
// ================================

/// The bytes that `flate2`'s Gz decoder reads from `data`; `None` where it fails.
pub uninterp spec fn gzip_decoded(data: Seq<u8>) -> Option<Seq<u8>>;

/// Decompress `data` with `flate2::read::GzDecoder`, read to the end; the bytes are those
/// named by `gzip_decoded`, and an error comes exactly where that name gives none. Gz is
/// lossless: the bytes that the Gz encoder wrote for some data at a level it accepts are
/// decompressed without error back to that data.
#[verifier::external_body]
fn gzip_decode(data: &[u8]) -> (res: Result<Vec<u8>, std::io::Error>)
    ensures
        match res {
            Ok(v) => gzip_decoded(data@) == Some(v@),
            Err(_) => gzip_decoded(data@) is None,
        },
        forall|d: Seq<u8>, level: u32|
            level <= 10 && data@ == #[trigger] gzip_encoded(d, level) ==> res is Ok,
        forall|d: Seq<u8>, level: u32|
            level <= 10 && data@ == #[trigger] gzip_encoded(d, level) ==> (res matches Ok(v) ==> v@
                == d),
{
    let mut decoder = GzDecoder::new(data);
    let mut buf = Vec::new();
    match decoder.read_to_end(&mut buf) {
        Ok(_) => Ok(buf),
        Err(e) => Err(e),
    }
}

/// What uncompressed NBT data holds: the id of a compound (10), the root's name, and the body
/// of the root compound; its entries and its name.
pub open spec fn spec_read_nbt_uncompressed(bytes: Seq<u8>, opts: Options) -> Option<
    (Seq<(Seq<char>, TagValue)>, Seq<char>),
> {
    if bytes.len() < 1 || bytes[0] != 10 {
        None
    } else {
        match spec_read_string(bytes.skip(1), opts) {
            None => None,
            Some((name, k)) => if 1 + k > bytes.len() {
                None
            } else {
                match spec_tag_body(bytes.skip((1 + k) as int), opts, 10) {
                    Some((TagValue::Compound(entries), _)) => Some((entries, name)),
                    _ => None,
                }
            },
        }
    }
}

/// Reads uncompressed NBT data, returning the root compound and its name. Data that does not
/// start with a compound's id gives a tag type mismatch.
pub fn read_nbt_uncompressed(input: &[u8], opts: Options) -> (res: Result<
    (NbtCompound, String),
    NbtIoError,
>)
    ensures
        match spec_read_nbt_uncompressed(input@, opts) {
            Some((entries, name)) => res matches Ok((c, s)) && spec_entry_values(c.0@) == entries
                && s@ == name,
            None => res is Err,
        },
        input@.len() >= 1 && input@[0] != 10 ==> (res matches Err(
            NbtIoError::TagTypeMismatch { expected, found },
        ) && expected == 10 && found == input@[0]),
{
    if input.len() < 1 {
        return Err(NbtIoError::StdIo(crate::nbt::raw::unexpected_eof()));
    }
    let root_id = input[0];
    if root_id != 10 {
        return Err(NbtIoError::TagTypeMismatch { expected: 10, found: root_id });
    }
    let (name, k) = match read_string(slice_subrange(input, 1, input.len()), opts) {
        Ok(read) => read,
        Err(e) => {
            return Err(e);
        },
    };
    assert(input@.subrange(1, input@.len() as int) =~= input@.skip(1));
    let body = slice_subrange(input, 1 + k, input.len());
    assert(body@ =~= input@.skip((1 + k) as int));
    match read_tag_body_dyn(body, opts, 10) {
        Ok((NbtTag::Compound(compound), _)) => Ok((compound, name)),
        Ok(_) => Err(NbtIoError::MissingRootTag),
        Err(e) => Err(e),
    }
}

/// Reads NBT data compressed as `opts` says, returning the root compound and its name. Gz data
/// is decompressed first; so is Zlib data, with the Zlib header.
pub fn read_nbt(input: &[u8], opts: Options) -> (res: Result<(NbtCompound, String), NbtIoError>)
    ensures
        opts.compression is Uncompressed ==> match spec_read_nbt_uncompressed(input@, opts) {
            Some((entries, name)) => res matches Ok((c, s)) && spec_entry_values(c.0@) == entries
                && s@ == name,
            None => res is Err,
        },
        (opts.compression is GzCompressed || opts.compression is GzCompressedWith) ==> match gzip_decoded(input@) {
            None => res is Err,
            Some(data) => match spec_read_nbt_uncompressed(data, opts) {
                Some((entries, name)) => res matches Ok((c, s)) && spec_entry_values(c.0@)
                    == entries && s@ == name,
                None => res is Err,
            },
        },
        (opts.compression is GzCompressed || opts.compression is GzCompressedWith) ==> forall|
            data: Seq<u8>,
            level: u32,
        |
            level <= 10 && input@ == #[trigger] gzip_encoded(data, level) ==> match spec_read_nbt_uncompressed(
                data,
                opts,
            ) {
                Some((entries, name)) => res matches Ok((c, s)) && spec_entry_values(c.0@)
                    == entries && s@ == name,
                None => res is Err,
            },
        (opts.compression is ZlibCompressed || opts.compression is ZlibCompressedWith) ==> match zlib_decoded(
            input@,
            true,
        ) {
            None => res is Err,
            Some(data) => match spec_read_nbt_uncompressed(data, opts) {
                Some((entries, name)) => res matches Ok((c, s)) && spec_entry_values(c.0@)
                    == entries && s@ == name,
                None => res is Err,
            },
        },
        (opts.compression is ZlibCompressed || opts.compression is ZlibCompressedWith) ==> forall|
            data: Seq<u8>,
            level: u32,
        |
            level <= 10 && input@ == #[trigger] zlib_encoded(data, level, true) ==> match spec_read_nbt_uncompressed(
                data,
                opts,
            ) {
                Some((entries, name)) => res matches Ok((c, s)) && spec_entry_values(c.0@)
                    == entries && s@ == name,
                None => res is Err,
            },
{
    match opts.compression {
        NBTCompression::Uncompressed => read_nbt_uncompressed(input, opts),
        NBTCompression::ZlibCompressed | NBTCompression::ZlibCompressedWith(_) => {
            match zlib_decode(input, true) {
                Ok(data) => read_nbt_uncompressed(data.as_slice(), opts),
                Err(e) => Err(NbtIoError::StdIo(e)),
            }
        },
        NBTCompression::GzCompressed | NBTCompression::GzCompressedWith(_) => {
            match gzip_decode(input) {
                Ok(data) => read_nbt_uncompressed(data.as_slice(), opts),
                Err(e) => Err(NbtIoError::StdIo(e)),
            }
        },
    }
}

// ================================
//  Writing NBT
// ================================

/// The bytes of uncompressed NBT data for a root compound with the given name: the id of a
/// compound (10), the name, and the compound's body; `None` where a list in it holds tags of
/// more than one kind.
pub open spec fn spec_write_nbt_uncompressed(
    root_name: Seq<char>,
    root: Seq<(Seq<char>, TagValue)>,
    opts: Options,
) -> Option<Seq<u8>> {
    match spec_body_bytes(TagValue::Compound(root), opts) {
        Some(b) => Some(seq![10u8] + spec_string_bytes(root_name, opts) + b),
        None => None,
    }
}

/// Appends the given compound with the given name (the empty string if none is given) as
/// uncompressed NBT data.
pub fn write_nbt_uncompressed(
    bytes: &mut Vec<u8>,
    opts: Options,
    root_name: Option<&str>,
    root: &NbtCompound,
) -> (res: Result<(), NbtIoError>)
    ensures
        match spec_write_nbt_uncompressed(
            match root_name {
                Some(name) => name@,
                None => Seq::empty(),
            },
            spec_entry_values(root.0@),
            opts,
        ) {
            Some(b) => res is Ok && final(bytes)@ == old(bytes)@ + b,
            None => res is Err,
        },
{
    let name = match root_name {
        Some(name) => name,
        None => "",
    };
    proof {
        reveal_strlit("");
    }
    let ghost start = bytes@;
    bytes.push(10u8);
    write_string(bytes, opts, name);
    let ghost after_name = bytes@;
    let res = write_compound(bytes, opts, root);
    proof {
        assert(name@ == match root_name {
            Some(n) => n@,
            None => Seq::<char>::empty(),
        });
        assert(after_name =~= start + (seq![10u8] + spec_string_bytes(name@, opts)));
        if let Some(b) = spec_body_bytes(TagValue::Compound(spec_entry_values(root.0@)), opts) {
            assert(bytes@ == after_name + b);
            assert(bytes@ =~= start + (seq![10u8] + spec_string_bytes(name@, opts) + b));
        }
    }
    res
}

/// Writing a root compound with a name as uncompressed NBT and reading the bytes back gives the
/// same compound and name, where the name and every string can be written and read back, every
/// array and list has a length that fits an `i32`, every list holds tags of one kind, and no
/// compound holds a name twice.
pub proof fn lemma_nbt_roundtrip(root_name: Seq<char>, root: Seq<(Seq<char>, TagValue)>, opts: Options)
    requires
        spec_string_ok(root_name, opts),
        spec_wf(TagValue::Compound(root), opts),
    ensures
        spec_write_nbt_uncompressed(root_name, root, opts) matches Some(b)
            && spec_read_nbt_uncompressed(b, opts) == Some((root, root_name)),
{
    lemma_body_roundtrip(TagValue::Compound(root), opts, Seq::empty());
    let cb = spec_body_bytes(TagValue::Compound(root), opts)->0;
    lemma_string_roundtrip(root_name, opts, cb);
    let sb = spec_string_bytes(root_name, opts);
    let bytes = seq![10u8] + sb + cb;
    assert(bytes.skip(1) =~= sb + cb);
    assert(bytes.skip((1 + sb.len()) as int) =~= cb + Seq::<u8>::empty());
}

/// The bytes that `flate2`'s Gz encoder writes for `data` at the given level.
pub uninterp spec fn gzip_encoded(data: Seq<u8>, level: u32) -> Seq<u8>;

/// Compress `data` with `flate2::write::GzEncoder` over a vector, at the given level, and
/// finish it; the bytes are those named by `gzip_encoded`. This always succeeds: writing to a
/// vector gives no I/O error, and flate2's `miniz_oxide` backend reports an error only when it
/// is called out of order, which its writer never does. Its backend asserts, in debug builds,
/// that the level is at most 10, so `requires` leaves larger levels out.
#[verifier::external_body]
fn gzip_encode(data: &[u8], level: Compression) -> (res: Result<Vec<u8>, std::io::Error>)
    requires
        flate2_level(level) <= 10,
    ensures
        res is Ok,
        res matches Ok(v) ==> v@ == gzip_encoded(data@, flate2_level(level)),
{
    let mut encoder = GzEncoder::new(Vec::new(), level);
    match encoder.write_all(data) {
        Ok(()) => encoder.finish(),
        Err(e) => Err(e),
    }
}

/// The compression level that a flavor writes with; 6, flate2's default, where it names none.
pub open spec fn spec_flavor_level(flavor: NBTCompression) -> u32 {
    match flavor {
        NBTCompression::ZlibCompressedWith(level) => level@ as u32,
        NBTCompression::GzCompressedWith(level) => level@ as u32,
        _ => 6,
    }
}

/// Appends the given compound with the given name (the empty string if none is given) as NBT
/// data of the given flavor: uncompressed, or compressed with Zlib (with its header) or Gz at
/// the flavor's level.
pub fn write_nbt(
    bytes: &mut Vec<u8>,
    opts: Options,
    root_name: Option<&str>,
    root: &NbtCompound,
    flavor: NBTCompression,
) -> (res: Result<(), NbtIoError>)
    requires
        spec_flavor_level(flavor) <= 10,
    ensures
        match spec_write_nbt_uncompressed(
            match root_name {
                Some(name) => name@,
                None => Seq::empty(),
            },
            spec_entry_values(root.0@),
            opts,
        ) {
            None => res is Err,
            Some(data) => match flavor {
                NBTCompression::Uncompressed => res is Ok && final(bytes)@ == old(bytes)@ + data,
                NBTCompression::ZlibCompressed | NBTCompression::ZlibCompressedWith(_) => res is Ok
                    && final(bytes)@ == old(bytes)@ + zlib_encoded(
                    data,
                    spec_flavor_level(flavor),
                    true,
                ),
                _ => res is Ok && final(bytes)@ == old(bytes)@ + gzip_encoded(
                    data,
                    spec_flavor_level(flavor),
                ),
            },
        },
{
    if let NBTCompression::Uncompressed = flavor {
        return write_nbt_uncompressed(bytes, opts, root_name, root);
    }
    let level = match flavor {
        NBTCompression::ZlibCompressedWith(level) => Compression::from(level),
        NBTCompression::GzCompressedWith(level) => Compression::from(level),
        _ => compression_default(),
    };
    let mut data: Vec<u8> = Vec::new();
    match write_nbt_uncompressed(&mut data, opts, root_name, root) {
        Ok(()) => {},
        Err(e) => {
            return Err(e);
        },
    }
    assert(data@ =~= Seq::<u8>::empty() + data@);
    let compressed = match flavor {
        NBTCompression::ZlibCompressed | NBTCompression::ZlibCompressedWith(_) => {
            match zlib_encode(data.as_slice(), level, true) {
                Ok(v) => v,
                Err(message) => {
                    return Err(NbtIoError::Custom(crate::text::boxed_str_from(message.as_str())));
                },
            }
        },
        _ => match gzip_encode(data.as_slice(), level) {
            Ok(v) => v,
            Err(e) => {
                return Err(NbtIoError::StdIo(e));
            },
        },
    };
    crate::bytes::extend_bytes(bytes, compressed.as_slice());
    Ok(())
}

} // verus!
