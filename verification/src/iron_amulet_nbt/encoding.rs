//! The encoding options of NBT data.

use vstd::prelude::*;

use flate2::Compression;

use crate::compression::{compression_level, compression_new, flate2_compression, flate2_level};

verus! {

/// How NBT data is encoded: endianness, compression and string encoding.
#[derive(Debug, Eq, PartialEq, Copy, Clone, Structural)]
pub struct EncodingOptions {
    /// Bedrock Edition is LittleEndian, Java is BigEndian.
    pub endianness: Endianness,
    pub compression: NBTCompression,
    /// Java is CESU-8, Bedrock is probably UTF-8.
    pub string_encoding: StringEncoding,
}

impl EncodingOptions {
    /// Default Java encoding for NBT: big endian, Gz compressed, CESU-8.
    pub fn java() -> (res: Self)
        ensures
            res == (EncodingOptions {
                endianness: Endianness::BigEndian,
                compression: NBTCompression::GzCompressed,
                string_encoding: StringEncoding::Cesu8,
            }),
    {
        EncodingOptions {
            endianness: Endianness::BigEndian,
            compression: NBTCompression::GzCompressed,
            string_encoding: StringEncoding::Cesu8,
        }
    }

    /// Default Bedrock encoding for NBT: little endian, Gz compressed, UTF-8.
    pub fn bedrock() -> (res: Self)
        ensures
            res == (EncodingOptions {
                endianness: Endianness::LittleEndian,
                compression: NBTCompression::GzCompressed,
                string_encoding: StringEncoding::Utf8,
            }),
    {
        EncodingOptions {
            endianness: Endianness::LittleEndian,
            compression: NBTCompression::GzCompressed,
            string_encoding: StringEncoding::Utf8,
        }
    }
}

/// Endianness of stored NBT
#[derive(Debug, Eq, PartialEq, Copy, Clone, Structural)]
pub enum Endianness {
    /// Used by Java
    BigEndian,
    /// Used by Bedrock for numeric information
    LittleEndian,
    /// Used by Bedrock to serialize NBT over a network with variable-length encodings
    /// of 32- and 64-bit integers.
    NetworkLittleEndian,
}

/// Describes the compression options for NBT data: uncompressed, Zlib compressed and Gz compressed.
#[derive(Debug, Eq, PartialEq, Copy, Clone, Structural)]
pub enum NBTCompression {
    /// Uncompressed NBT data.
    Uncompressed,
    /// Zlib compressed NBT data. When writing, the default compression level will be used.
    ZlibCompressed,
    /// Zlib compressed NBT data with the given compression level.
    ZlibCompressedWith(CompressionLevel),
    /// Gz compressed NBT data. When writing, the default compression level will be used.
    GzCompressed,
    /// Gz compressed NBT data with the given compression level.
    GzCompressedWith(CompressionLevel),
}

/// A compression level, from 0 to 9 in practice.
#[derive(Debug, Eq, PartialEq, Copy, Clone, Structural)]
pub struct CompressionLevel(u8);

impl View for CompressionLevel {
    type V = u8;

    closed spec fn view(&self) -> u8 {
        self.0
    }
}

impl From<Compression> for CompressionLevel {
    /// The level of `value`, truncated to a `u8`. (Only levels 0-9 are used in practice.)
    fn from(value: Compression) -> (res: Self)
        ensures
            res@ == flate2_level(value) as u8,
    {
        CompressionLevel(compression_level(&value) as u8)
    }
}

impl vstd::std_specs::convert::FromSpecImpl<Compression> for CompressionLevel {
    open spec fn obeys_from_spec() -> bool {
        true
    }

    closed spec fn from_spec(value: Compression) -> CompressionLevel {
        CompressionLevel(flate2_level(value) as u8)
    }
}

impl From<CompressionLevel> for Compression {
    fn from(value: CompressionLevel) -> (res: Self)
        ensures
            res == flate2_compression(value@ as u32),
            flate2_level(res) == value@ as u32,
    {
        compression_new(value.0 as u32)
    }
}

impl vstd::std_specs::convert::FromSpecImpl<CompressionLevel> for Compression {
    open spec fn obeys_from_spec() -> bool {
        true
    }

    closed spec fn from_spec(value: CompressionLevel) -> Compression {
        flate2_compression(value.0 as u32)
    }
}

/// String encodings used by Minecraft.
#[derive(Debug, Eq, PartialEq, Copy, Clone, Structural)]
pub enum StringEncoding {
    /// Used by Bedrock
    Utf8,
    /// Used by Java
    Cesu8,
}

} // verus!
