//! The settings of a LevelDB that is compatible with Minecraft, and the Zlib compression of
//! its blocks.

use std::io::Read;

use vstd::prelude::*;

use flate2::bufread::{ZlibDecoder, ZlibEncoder};
use flate2::{Compress, Compression, Decompress};

use crate::compression::{compression_default, flate2_level};
use crate::iron_nbt::io::io_error_text;

verus! {

/// Indicates whether world data should be read and written as compressed,
/// and whether the Zlib header should be present in the data read and written.
#[derive(Debug, Copy, Clone, PartialEq, Eq, Structural)]
pub enum DBCompressor {
    Uncompressed,
    ZlibWithHeader,
    ZlibWithoutHeader,
}

impl Default for DBCompressor {
    fn default() -> (res: Self)
        ensures
            res == DBCompressor::ZlibWithoutHeader,
    {
        DBCompressor::ZlibWithoutHeader
    }
}

/// The compressor ID of no compression.
pub const NONE_COMPRESSOR_ID: u8 = 0;

/// The compressor ID of Zlib compression with its header.
pub const ZLIB_WITH_HEADER_ID: u8 = 2;

/// The compressor ID of Zlib compression without its header.
pub const ZLIB_WITHOUT_HEADER_ID: u8 = 4;

/// Bytes in a kilobyte.
pub const KILOBYTE: usize = 1024;

/// Bytes in a megabyte.
pub const MEGABYTE: usize = 1_048_576;

/// The bits per key of the Bloom filter policy.
pub const BLOOM_BITS_PER_KEY: u32 = 10;

/// The capacity, in bytes, of the block cache: 40 megabytes.
pub const BLOCK_CACHE_CAPACITY_BYTES: usize = 41_943_040;

/// The size, in bytes, of the write buffer: 4 megabytes.
pub const WRITE_BUFFER_SIZE: usize = 4_194_304;

/// The size, in bytes, of a block: 16 kilobytes.
pub const BLOCK_SIZE: usize = 16_384;

impl DBCompressor {
    /// The ID under which the database's compressor list holds this compressor.
    pub open spec fn spec_compressor_id(self) -> u8 {
        match self {
            DBCompressor::Uncompressed => NONE_COMPRESSOR_ID,
            DBCompressor::ZlibWithHeader => ZLIB_WITH_HEADER_ID,
            DBCompressor::ZlibWithoutHeader => ZLIB_WITHOUT_HEADER_ID,
        }
    }

    /// The ID under which the database's compressor list holds this compressor: 0 for none,
    /// 2 for Zlib with its header, 4 for Zlib without it.
    pub fn compressor_id(self) -> (res: u8)
        ensures
            res == self.spec_compressor_id(),
    {
        match self {
            DBCompressor::Uncompressed => NONE_COMPRESSOR_ID,
            DBCompressor::ZlibWithHeader => ZLIB_WITH_HEADER_ID,
            DBCompressor::ZlibWithoutHeader => ZLIB_WITHOUT_HEADER_ID,
        }
    }
}

/// The bytes that `flate2`'s Zlib encoder writes for `data` at the given level, with or
/// without the Zlib header.
pub uninterp spec fn zlib_encoded(data: Seq<u8>, level: u32, zlib_header: bool) -> Seq<u8>;

/// The bytes that `flate2`'s Zlib decoder reads from `data`, with or without the Zlib
/// header; `None` where it fails.
pub uninterp spec fn zlib_decoded(data: Seq<u8>, zlib_header: bool) -> Option<Seq<u8>>;

/// Compress `block` with `flate2`'s `bufread::ZlibEncoder` over `Compress::new(level,
/// zlib_header)`, read to the end; the bytes are those named by `zlib_encoded`. This always
/// succeeds: the slice gives no I/O error, and flate2's `miniz_oxide` backend reports an error
/// only when it is called out of order (after the stream has ended, or with a flush other than
/// `Finish` after `Finish`), which its reader never does. Its backend asserts, in debug builds,
/// that the level is at most 10, so `requires` leaves larger levels out.
#[verifier::external_body]
pub(crate) fn zlib_encode(block: &[u8], level: Compression, zlib_header: bool) -> (res: Result<Vec<u8>, String>)
    requires
        flate2_level(level) <= 10,
    ensures
        res is Ok,
        res matches Ok(v) ==> v@ == zlib_encoded(block@, flate2_level(level), zlib_header),
{
    let mut encoder = ZlibEncoder::new_with_compress(block, Compress::new(level, zlib_header));
    let mut buf = Vec::new();
    match encoder.read_to_end(&mut buf) {
        Ok(_) => Ok(buf),
        Err(e) => Err(format!("{e}")),
    }
}

/// Decompress `block` with `flate2`'s `bufread::ZlibDecoder` over
/// `Decompress::new(zlib_header)`, read to the end. The bytes are those named by
/// `zlib_decoded`, and an error (such as data that is not Zlib) comes exactly where that name
/// gives none. Zlib is lossless: the bytes that the encoder wrote for some data at a level it
/// accepts, with the same choice of header, are decompressed without error back to that data.
#[verifier::external_body]
pub(crate) fn zlib_decode(block: &[u8], zlib_header: bool) -> (res: Result<
    Vec<u8>,
    std::io::Error,
>)
    ensures
        match res {
            Ok(v) => zlib_decoded(block@, zlib_header) == Some(v@),
            Err(_) => zlib_decoded(block@, zlib_header) is None,
        },
        forall|data: Seq<u8>, level: u32|
            level <= 10 && block@ == #[trigger] zlib_encoded(data, level, zlib_header) ==> res is Ok,
        forall|data: Seq<u8>, level: u32|
            level <= 10 && block@ == #[trigger] zlib_encoded(data, level, zlib_header) ==> (res matches Ok(
                v,
            ) ==> v@ == data),
{
    let mut decoder = ZlibDecoder::new_with_decompress(block, Decompress::new(zlib_header));
    let mut buf = Vec::new();
    match decoder.read_to_end(&mut buf) {
        Ok(_) => Ok(buf),
        Err(e) => Err(e),
    }
}

/// Zlib compression of LevelDB blocks, with or without the Zlib header.
pub struct ZlibCompressor {
    pub include_zlib_header: bool,
    pub compression_level: Compression,
}

impl ZlibCompressor {
    pub fn new(include_zlib_header: bool, compression_level: Compression) -> (res: Self)
        ensures
            res.include_zlib_header == include_zlib_header,
            res.compression_level == compression_level,
    {
        ZlibCompressor { include_zlib_header, compression_level }
    }

    /// The compressor for the given ID of a Zlib compressor: with the Zlib header for 2,
    /// without it for 4; both at the default compression level.
    pub fn for_id(id: u8) -> (res: Option<Self>)
        ensures
            id == ZLIB_WITH_HEADER_ID ==> (res matches Some(c) && c.include_zlib_header
                && flate2_level(c.compression_level) == 6),
            id == ZLIB_WITHOUT_HEADER_ID ==> (res matches Some(c) && !c.include_zlib_header
                && flate2_level(c.compression_level) == 6),
            id != ZLIB_WITH_HEADER_ID && id != ZLIB_WITHOUT_HEADER_ID ==> res is None,
    {
        if id == ZLIB_WITH_HEADER_ID {
            Some(ZlibCompressor::new(true, compression_default()))
        } else if id == ZLIB_WITHOUT_HEADER_ID {
            Some(ZlibCompressor::new(false, compression_default()))
        } else {
            None
        }
    }

    /// Compress a block with Zlib at this compressor's level (at most 10), with or without the
    /// Zlib header. This always succeeds.
    pub fn encode(&self, block: Vec<u8>) -> (res: Result<Vec<u8>, String>)
        requires
            flate2_level(self.compression_level) <= 10,
        ensures
            res matches Ok(v) && v@ == zlib_encoded(
                block@,
                flate2_level(self.compression_level),
                self.include_zlib_header,
            ),
    {
        zlib_encode(block.as_slice(), self.compression_level, self.include_zlib_header)
    }

    /// Decompress a Zlib block, with or without the Zlib header. On an error (such as data
    /// that is not Zlib), its message is handed back.
    pub fn decode(&self, block: Vec<u8>) -> (res: Result<Vec<u8>, String>)
        ensures
            match res {
                Ok(v) => zlib_decoded(block@, self.include_zlib_header) == Some(v@),
                Err(_) => zlib_decoded(block@, self.include_zlib_header) is None,
            },
            forall|data: Seq<u8>, level: u32|
                level <= 10 && block@ == #[trigger] zlib_encoded(
                    data,
                    level,
                    self.include_zlib_header,
                ) ==> (res matches Ok(v) && v@ == data),
    {
        match zlib_decode(block.as_slice(), self.include_zlib_header) {
            Ok(v) => Ok(v),
            Err(e) => Err(io_error_text(&e)),
        }
    }
}


/// The compressor IDs that Minecraft's LevelDB uses: 0 for no compression, 2 for Zlib with its
/// header and 4 for raw Zlib.
pub proof fn lemma_compressor_ids()
    ensures
        DBCompressor::Uncompressed.spec_compressor_id() == 0u8,
        DBCompressor::ZlibWithHeader.spec_compressor_id() == 2u8,
        DBCompressor::ZlibWithoutHeader.spec_compressor_id() == 4u8,
        NONE_COMPRESSOR_ID == 0u8,
        ZLIB_WITH_HEADER_ID == 2u8,
        ZLIB_WITHOUT_HEADER_ID == 4u8,
{
}

/// The sizes of Minecraft's LevelDB settings: a kilobyte is 1024 bytes and a megabyte 1024
/// kilobytes; the block cache holds 40 megabytes, the write buffer 4 megabytes, a block is 16
/// kilobytes, and the Bloom filter takes 10 bits per key.
pub proof fn lemma_leveldb_sizes()
    ensures
        KILOBYTE == 1024,
        MEGABYTE == 1024 * KILOBYTE,
        BLOCK_CACHE_CAPACITY_BYTES == 40 * MEGABYTE,
        WRITE_BUFFER_SIZE == 4 * MEGABYTE,
        BLOCK_SIZE == 16 * KILOBYTE,
        BLOOM_BITS_PER_KEY == 10,
{
}

} // verus!
